use vstd::prelude::*;

verus! {

/// A bounded last-in-first-out stack that keeps the `N` most recent items.
///
/// Pushing onto a full stack forgets the oldest item.
pub struct LiFo<T, const N: usize> {
    stack: Vec<Option<T>>,
    last_index: usize,
    items: Ghost<Seq<T>>,
}

/// The slot that holds the item `i` places below the top, when the top is at `last`.
pub open spec fn slot(last: int, i: int, n: int) -> int {
    (last + n - i) % n
}

/// The retained items after pushing `x` onto a stack holding `s` (oldest first)
/// with room for `n` items.
pub open spec fn pushed<T>(s: Seq<T>, x: T, n: nat) -> Seq<T> {
    if s.len() < n {
        s.push(x)
    } else {
        s.drop_first().push(x)
    }
}

proof fn lemma_slot_step(last: int, i: int, n: int)
    requires
        0 <= last < n,
        0 <= i < n,
    ensures
        slot((last + 1) % n, i + 1, n) == slot(last, i, n),
        0 <= slot(last, i, n) < n,
        slot(last, 0, n) == last,
        i > 0 ==> slot(last, i, n) != last,
{
    assert(slot(last, 0, n) == last) by {
        vstd::arithmetic::div_mod::lemma_mod_add_multiples_vanish(last, n);
        vstd::arithmetic::div_mod::lemma_small_mod(last as nat, n as nat);
    }
    if last + 1 < n {
        vstd::arithmetic::div_mod::lemma_small_mod((last + 1) as nat, n as nat);
    } else {
        vstd::arithmetic::div_mod::lemma_mod_self_0(n);
        vstd::arithmetic::div_mod::lemma_mod_add_multiples_vanish(n - 1 - i, n);
        assert(slot(0, i + 1, n) == (n - 1 - i) % n);
        assert(slot(last, i, n) == (n + (n - 1 - i)) % n);
    }
    vstd::arithmetic::div_mod::lemma_mod_pos_bound(last + n - i, n);
    if i > 0 {
        if last + n - i < n {
            vstd::arithmetic::div_mod::lemma_small_mod((last + n - i) as nat, n as nat);
        } else {
            vstd::arithmetic::div_mod::lemma_mod_sub_multiples_vanish(last + n - i, n);
            vstd::arithmetic::div_mod::lemma_small_mod((last - i) as nat, n as nat);
        }
    }
}

impl<T, const N: usize> LiFo<T, N> {
    /// The retained items, oldest first; the last one is popped next.
    pub closed spec fn view(&self) -> Seq<T> {
        self.items@
    }

    pub closed spec fn wf(&self) -> bool {
        &&& N > 0
        &&& self.stack@.len() == N
        &&& self.last_index < N
        &&& self.items@.len() <= N
        &&& forall|i: int|
            0 <= i < self.items@.len() ==> #[trigger] self.stack@[slot(
                self.last_index as int,
                i,
                N as int,
            )] == Some(self.items@[self.items@.len() - 1 - i])
        &&& self.items@.len() < N ==> self.stack@[slot(
            self.last_index as int,
            self.items@.len() as int,
            N as int,
        )] is None
    }

    pub fn new() -> (r: Self)
        requires
            N > 0,
        ensures
            r.wf(),
            r.view() == Seq::<T>::empty(),
    {
        let mut stack: Vec<Option<T>> = Vec::new();
        let mut k: usize = 0;
        while k < N
            invariant
                k <= N,
                stack@.len() == k,
                forall|j: int| 0 <= j < k ==> stack@[j] is None,
            decreases N - k,
        {
            stack.push(None);
            k = k + 1;
        }
        let r = LiFo { stack, last_index: N - 1, items: Ghost(Seq::empty()) };
        proof {
            lemma_slot_step((N - 1) as int, 0, N as int);
        }
        r
    }

    pub fn push(&mut self, item: T)
        requires
            old(self).wf(),
        ensures
            final(self).wf(),
            final(self).view() == pushed(old(self).view(), item, N as nat),
    {
        let ghost old_items = self.items@;
        let ghost old_last = self.last_index as int;
        let ghost old_stack = self.stack@;
        let next = (self.last_index + 1) % N;
        self.last_index = next;
        self.stack.set(next, Some(item));
        self.items = Ghost(pushed(old_items, item, N as nat));
        proof {
            let n = N as int;
            let new_items = self.items@;
            assert forall|i: int| 0 <= i < new_items.len() implies #[trigger] self.stack@[slot(
                next as int,
                i,
                n,
            )] == Some(new_items[new_items.len() - 1 - i]) by {
                if i == 0 {
                    lemma_slot_step(next as int, 0, n);
                } else {
                    lemma_slot_step(old_last, i - 1, n);
                    lemma_slot_step(next as int, i, n);
                }
            }
            if new_items.len() < n {
                lemma_slot_step(old_last, old_items.len() as int, n);
                lemma_slot_step(next as int, new_items.len() as int, n);
            }
        }
    }

    pub fn pop(&mut self) -> (r: Option<T>)
        requires
            old(self).wf(),
        ensures
            final(self).wf(),
            old(self).view().len() > 0 ==> r == Some(old(self).view().last())
                && final(self).view() == old(self).view().drop_last(),
            old(self).view().len() == 0 ==> r is None && final(self).view() == old(self).view(),
    {
        let ghost old_items = self.items@;
        let ghost old_last = self.last_index as int;
        proof {
            lemma_slot_step(old_last, 0, N as int);
        }
        let i = self.last_index;
        let item = self.stack[i].take();
        if item.is_some() {
            self.last_index = if self.last_index == 0 { N - 1 } else { self.last_index - 1 };
            self.items = Ghost(old_items.drop_last());
            proof {
                let n = N as int;
                let new_last = self.last_index as int;
                assert((new_last + 1) % n == old_last) by {
                    if old_last == 0 {
                        vstd::arithmetic::div_mod::lemma_mod_self_0(n);
                    } else {
                        vstd::arithmetic::div_mod::lemma_small_mod(old_last as nat, n as nat);
                    }
                }
                let new_items = self.items@;
                assert forall|k: int| 0 <= k < new_items.len() implies #[trigger] self.stack@[slot(
                    new_last,
                    k,
                    n,
                )] == Some(new_items[new_items.len() - 1 - k]) by {
                    lemma_slot_step(new_last, k, n);
                    lemma_slot_step(old_last, k + 1, n);
                }
                lemma_slot_step(new_last, new_items.len() as int, n);
                if old_items.len() < n {
                    lemma_slot_step(old_last, old_items.len() as int, n);
                }
            }
        }
        item
    }

    pub fn can_pop(&self) -> (r: bool)
        requires
            self.wf(),
        ensures
            r == (self.view().len() > 0),
    {
        proof {
            lemma_slot_step(self.last_index as int, 0, N as int);
        }
        self.stack[self.last_index].is_some()
    }
}

/// Popping right after a push gives back the pushed item, and a stack that
/// was not full is left as it was before the push.
pub proof fn lemma_push_then_pop<T>(s: Seq<T>, x: T, n: nat)
    requires
        n > 0,
        s.len() <= n,
    ensures
        pushed(s, x, n).len() > 0,
        pushed(s, x, n).last() == x,
        s.len() < n ==> pushed(s, x, n).drop_last() == s,
        s.len() == n ==> pushed(s, x, n).drop_last() == s.drop_first(),
        pushed(s, x, n).len() <= n,
{
    assert(s.push(x).drop_last() =~= s);
    if s.len() == n {
        assert(s.drop_first().push(x).drop_last() =~= s.drop_first());
    }
}

} // verus!
