//! Schedules: the syncs a node plans with other nodes, and the queue they wait in.
use vstd::prelude::*;

use crate::db::user::I2PAddress;
use crate::types::{PublicKey, Signature, Timestamp, Topic};
use vstd::std_specs::cmp::PartialEqSpec;

verus! {

/// What a sync fetches.
#[derive(Debug, Clone, Copy)]
pub enum ScheduleType {
    /// All the events of the node with this key.
    FullSync(PublicKey),
    /// The contents of the manga index with this hash.
    SyncMangaContent(crate::types::hash::Hash),
    /// The posts under this topic.
    SyncPost(Topic),
}

/// What a schedule type fetches: its kind and the bytes of its target.
pub open spec fn spec_schedule_target(t: ScheduleType) -> (u8, Seq<u8>) {
    match t {
        ScheduleType::FullSync(k) => (0, k@),
        ScheduleType::SyncMangaContent(h) => (1, h@),
        ScheduleType::SyncPost(p) => (2, p@),
    }
}

impl PartialEq for ScheduleType {
    fn eq(&self, other: &Self) -> (r: bool) {
        match (self, other) {
            (ScheduleType::FullSync(a), ScheduleType::FullSync(b)) => a == b,
            (ScheduleType::SyncMangaContent(a), ScheduleType::SyncMangaContent(b)) => a == b,
            (ScheduleType::SyncPost(a), ScheduleType::SyncPost(b)) => a == b,
            _ => false,
        }
    }
}

impl vstd::std_specs::cmp::PartialEqSpecImpl for ScheduleType {
    open spec fn obeys_eq_spec() -> bool {
        true
    }

    open spec fn eq_spec(&self, other: &Self) -> bool {
        spec_schedule_target(*self) == spec_schedule_target(*other)
    }
}

/// A sync planned with the node at `address`, due at `when`; `last_sync`
/// is the time the previous one saw.
#[derive(Debug)]
pub struct Schedule {
    pub when: Timestamp,
    pub address: I2PAddress,
    pub schedule_type: ScheduleType,
    pub last_sync: Timestamp,
}

/// Two schedules are the same when they fetch the same thing from the same node.
pub open spec fn same_schedule(a: Schedule, b: Schedule) -> bool {
    a.address@ == b.address@ && spec_schedule_target(a.schedule_type) == spec_schedule_target(
        b.schedule_type,
    )
}

impl Clone for Schedule {
    fn clone(&self) -> (r: Self)
        ensures
            r.when == self.when,
            r.address@ == self.address@,
            r.schedule_type == self.schedule_type,
            r.last_sync == self.last_sync,
    {
        Schedule {
            when: self.when,
            address: self.address.clone(),
            schedule_type: self.schedule_type,
            last_sync: self.last_sync,
        }
    }
}

impl PartialEq for Schedule {
    fn eq(&self, other: &Self) -> (r: bool) {
        self.address == other.address && self.schedule_type == other.schedule_type
    }
}

impl vstd::std_specs::cmp::PartialEqSpecImpl for Schedule {
    open spec fn obeys_eq_spec() -> bool {
        true
    }

    open spec fn eq_spec(&self, other: &Self) -> bool {
        same_schedule(*self, *other)
    }
}

/// Whether `s` is due at `now`.
pub open spec fn spec_due(s: Schedule, now: i64) -> bool {
    s.when.0 <= now
}

impl Schedule {
    /// Whether the schedule is due at `now`.
    pub fn is_overdue_at(&self, now: Timestamp) -> (r: bool)
        ensures
            r == (self.when.0 <= now.0),
    {
        self.when.0 <= now.0
    }

    /// Whether the schedule is due now: whether `when` is not later than the
    /// time that the system clock gave.
    pub fn is_overdue(&self) -> (r: bool)
        ensures
            exists|now: i64| r == #[trigger] spec_due(*self, now),
    {
        let now = Timestamp::now();
        let r = self.is_overdue_at(now);
        assert(r == spec_due(*self, now.0));
        r
    }
}

/// What a schedule is: when it is due, the node's address, what it fetches
/// and the time the previous sync saw.
pub type ScheduleModel = (i64, Seq<char>, (u8, Seq<u8>), i64);

pub open spec fn schedule_model(s: Schedule) -> ScheduleModel {
    (s.when.0, s.address@, spec_schedule_target(s.schedule_type), s.last_sync.0)
}

/// The queue of planned syncs.
///
/// The schedule taken next is one whose `when` is the latest: the order on
/// schedules compares `when` in reverse, the partial order reverses it once
/// more, and it is the partial order that a binary heap goes by.
#[derive(Debug)]
pub struct Scheduler {
    heap: Vec<Schedule>,
}

impl View for Scheduler {
    type V = Seq<ScheduleModel>;

    closed spec fn view(&self) -> Seq<ScheduleModel> {
        self.heap@.map_values(|s: Schedule| schedule_model(s))
    }
}

/// Whether `i` is the place of a schedule whose `when` is the latest in `s`.
pub open spec fn is_latest(s: Seq<ScheduleModel>, i: int) -> bool {
    &&& 0 <= i < s.len()
    &&& forall|j: int| 0 <= j < s.len() ==> (#[trigger] s[j]).0 <= s[i].0
}

/// What taking the next schedule at time `now` does: with `before` the
/// queue, `after` the queue left and `r` the schedule taken, if any. The
/// latest schedule is taken when it is due at `now`; else nothing changes.
pub open spec fn spec_next_at(before: Seq<ScheduleModel>, after: Seq<ScheduleModel>, r: Option<ScheduleModel>, now: i64) -> bool {
    if before.len() == 0 {
        r is None && after == before
    } else {
        match r {
            None => after == before && exists|i: int| is_latest(before, i) && now < before[i].0,
            Some(m) => exists|i: int|
                is_latest(before, i) && before[i] == m && m.0 <= now && after == before.remove(i),
        }
    }
}

/// Whether two schedule types fetch the same thing: the same kind, with
/// the same key, index hash or topic.
pub open spec fn same_target(a: ScheduleType, b: ScheduleType) -> bool {
    match (a, b) {
        (ScheduleType::FullSync(x), ScheduleType::FullSync(y)) => x@ == y@,
        (ScheduleType::SyncMangaContent(x), ScheduleType::SyncMangaContent(y)) => x@ == y@,
        (ScheduleType::SyncPost(x), ScheduleType::SyncPost(y)) => x@ == y@,
        _ => false,
    }
}

/// Schedule types are equal exactly when they fetch the same thing, and two
/// schedules count as the same (for `remove`) exactly when they are with the
/// same node and fetch the same thing: a sync of posts under one topic is
/// never taken for one under another.
pub proof fn lemma_schedule_equality(x: Schedule, y: Schedule)
    ensures
        x.schedule_type.eq_spec(&y.schedule_type) <==> same_target(x.schedule_type, y.schedule_type),
        same_as(schedule_model(x), schedule_model(y)) <==> (x.address@ == y.address@ && same_target(
            x.schedule_type,
            y.schedule_type,
        )),
{
}

/// A schedule taken, as a model.
pub open spec fn taken_model(r: Option<Schedule>) -> Option<ScheduleModel> {
    match r {
        Some(s) => Some(schedule_model(s)),
        None => None,
    }
}

/// Whether a schedule fetches the same thing from the same node as `target`.
pub open spec fn same_as(s: ScheduleModel, target: ScheduleModel) -> bool {
    s.1 == target.1 && s.2 == target.2
}

impl Scheduler {
    pub fn new() -> (r: Scheduler)
        ensures
            r@ == Seq::<ScheduleModel>::empty(),
    {
        let r = Scheduler { heap: Vec::new() };
        assert(r@ =~= Seq::<ScheduleModel>::empty());
        r
    }

    /// Adds a schedule.
    pub fn schedule(&mut self, schedule: Schedule)
        ensures
            final(self)@ == old(self)@.push(schedule_model(schedule)),
    {
        self.heap.push(schedule);
        assert(self@ =~= old(self)@.push(schedule_model(schedule)));
    }

    /// Removes every schedule that fetches the same thing from the same node as `schedule`.
    pub fn remove(&mut self, schedule: Schedule)
        ensures
            final(self)@ == old(self)@.filter(|s: ScheduleModel| !same_as(s, schedule_model(schedule))),
    {
        let ghost target = schedule_model(schedule);
        let ghost pred = |s: ScheduleModel| !same_as(s, target);
        let ghost orig = self@;
        let mut kept: Vec<Schedule> = Vec::new();
        let n = self.heap.len();
        let mut i: usize = 0;
        assert(orig.take(0) =~= Seq::<ScheduleModel>::empty());
        assert(kept@.map_values(|s: Schedule| schedule_model(s)) =~= Seq::<ScheduleModel>::empty());
        while i < n
            invariant
                n == self.heap@.len(),
                orig == self@,
                orig == self.heap@.map_values(|s: Schedule| schedule_model(s)),
                i <= n,
                target == schedule_model(schedule),
                pred == (|s: ScheduleModel| !same_as(s, target)),
                kept@.map_values(|s: Schedule| schedule_model(s)) == orig.take(i as int).filter(pred),
            decreases n - i,
        {
            proof {
                assert(orig.take(i + 1) =~= orig.take(i as int).push(orig[i as int]));
                orig.take(i as int).lemma_filter_push(orig[i as int], pred);
            }
            let ghost before = kept@.map_values(|s: Schedule| schedule_model(s));
            if !(self.heap[i] == schedule) {
                let c = self.heap[i].clone();
                kept.push(c);
                assert(kept@.map_values(|s: Schedule| schedule_model(s)) =~= before.push(orig[i as int]));
            }
            i = i + 1;
        }
        assert(orig.take(n as int) =~= orig);
        self.heap = kept;
    }

    /// The place of a schedule whose `when` is the latest, if there is any.
    fn latest(&self) -> (r: Option<usize>)
        ensures
            match r {
                Some(i) => is_latest(self@, i as int),
                None => self@.len() == 0,
            },
    {
        if self.heap.len() == 0 {
            return None;
        }
        let mut best: usize = 0;
        let mut i: usize = 1;
        while i < self.heap.len()
            invariant
                1 <= i <= self.heap@.len(),
                best < i,
                forall|j: int| 0 <= j < i ==> (#[trigger] self.heap@[j]).when.0 <= self.heap@[best as int].when.0,
            decreases self.heap@.len() - i,
        {
            if self.heap[best].when.0 < self.heap[i].when.0 {
                best = i;
            }
            i = i + 1;
        }
        proof {
            assert forall|j: int| 0 <= j < self@.len() implies (#[trigger] self@[j]).0 <= self@[best as int].0 by {
                assert(self@[j] == schedule_model(self.heap@[j]));
            }
        }
        Some(best)
    }

    /// Takes the schedule that comes next, if it is due at `now`; `None`
    /// when there is none or it is not due yet.
    pub fn try_next_at(&mut self, now: Timestamp) -> (r: Option<Schedule>)
        ensures
            old(self)@.len() == 0 ==> r is None && final(self)@ == old(self)@,
            old(self)@.len() > 0 ==> match r {
                None => final(self)@ == old(self)@ && exists|i: int|
                    is_latest(old(self)@, i) && now.0 < old(self)@[i].0,
                Some(s) => exists|i: int|
                    is_latest(old(self)@, i) && old(self)@[i] == schedule_model(s) && s.when.0 <= now.0
                        && final(self)@ == old(self)@.remove(i),
            },
    {
        match self.latest() {
            None => None,
            Some(i) => {
                if self.heap[i].is_overdue_at(now) {
                    let ghost before = self.heap@;
                    let s = self.heap.remove(i);
                    assert(self@ =~= old(self)@.remove(i as int));
                    Some(s)
                } else {
                    None
                }
            },
        }
    }

    /// Takes the schedule that comes next, if it is due now: it does what
    /// `try_next_at` does at the time that the system clock gave.
    pub fn try_next(&mut self) -> (r: Option<Schedule>)
        ensures
            old(self)@.len() == 0 ==> r is None,
            r is None ==> final(self)@ == old(self)@,
            r matches Some(s) ==> exists|i: int|
                is_latest(old(self)@, i) && old(self)@[i] == schedule_model(s) && final(self)@ == old(self)@.remove(i),
            exists|now: i64| #[trigger] spec_next_at(old(self)@, final(self)@, taken_model(r), now),
    {
        let now = Timestamp::now();
        let r = self.try_next_at(now);
        assert(spec_next_at(old(self)@, self@, taken_model(r), now.0));
        r
    }
}

} // verus!
