//! The state of a resource that loads in the background.
use vstd::prelude::*;

verus! {

/// Where a resource is: not asked for, failed, loading, or there.
pub enum ResourceState<T, E> {
    Pending,
    Error(E),
    Loading,
    Loaded(T),
}

impl<T, E> Default for ResourceState<T, E> {
    fn default() -> (r: ResourceState<T, E>)
        ensures
            r is Pending,
    {
        ResourceState::Pending
    }
}

impl<T, E> ResourceState<T, E> {
    /// The loaded value.
    pub fn unwrap_ref(&self) -> (r: &T)
        requires
            self is Loaded,
        ensures
            *r == self->Loaded_0,
    {
        match self {
            ResourceState::Loaded(t) => t,
            _ => {
                assert(false);
                unreached()
            },
        }
    }
}

/// A resource's state, together with whether a load of it is under way
/// (the task that loads it is held by whoever runs the loads).
pub struct ResourceStateManager<T, E> {
    state: ResourceState<T, E>,
    has_load: bool,
}

impl<T, E> ResourceStateManager<T, E> {
    pub closed spec fn spec_state(&self) -> ResourceState<T, E> {
        self.state
    }

    pub closed spec fn spec_has_load(&self) -> bool {
        self.has_load
    }

    /// A resource not asked for yet.
    pub fn new() -> (r: ResourceStateManager<T, E>)
        ensures
            r.spec_state() is Pending,
            !r.spec_has_load(),
    {
        ResourceStateManager { state: ResourceState::Pending, has_load: false }
    }

    pub fn state(&self) -> (r: &ResourceState<T, E>)
        ensures
            *r == self.spec_state(),
    {
        &self.state
    }

    /// The value, once loaded.
    pub fn get_value(&self) -> (r: Option<&T>)
        ensures
            match self.spec_state() {
                ResourceState::Loaded(v) => r == Some(&v),
                _ => r is None,
            },
    {
        match &self.state {
            ResourceState::Loaded(v) => Some(v),
            _ => None,
        }
    }

    /// Forgets a load under way; says whether there was one to cancel.
    fn abort_load(&mut self) -> (r: bool)
        ensures
            r == (old(self).spec_state() is Loading && old(self).spec_has_load()),
            final(self).spec_state() == old(self).spec_state(),
            final(self).spec_has_load() == (old(self).spec_has_load() && !r),
    {
        match self.state {
            ResourceState::Loading => {
                if self.has_load {
                    self.has_load = false;
                    true
                } else {
                    false
                }
            },
            _ => false,
        }
    }

    /// Starts a new load, cancelling one under way; says whether one was cancelled.
    pub fn load(&mut self) -> (r: bool)
        ensures
            r == (old(self).spec_state() is Loading && old(self).spec_has_load()),
            final(self).spec_state() is Loading,
            final(self).spec_has_load(),
    {
        let aborted = self.abort_load();
        self.state = ResourceState::Loading;
        self.has_load = true;
        aborted
    }

    /// Sets the value at once, cancelling a load under way; says whether one was cancelled.
    pub fn force_load(&mut self, value: T) -> (r: bool)
        ensures
            r == (old(self).spec_state() is Loading && old(self).spec_has_load()),
            final(self).spec_state() == ResourceState::<T, E>::Loaded(value),
            final(self).spec_has_load() == (old(self).spec_has_load() && !r),
    {
        let aborted = self.abort_load();
        self.state = ResourceState::Loaded(value);
        aborted
    }

    /// Drops the value, cancelling a load under way; says whether one was cancelled.
    pub fn unload(&mut self) -> (r: bool)
        ensures
            r == (old(self).spec_state() is Loading && old(self).spec_has_load()),
            final(self).spec_state() is Pending,
            final(self).spec_has_load() == (old(self).spec_has_load() && !r),
    {
        let aborted = self.abort_load();
        self.state = ResourceState::Pending;
        aborted
    }

    /// Takes the result of the load under way: the resource is loaded or
    /// failed. Gives `true` when there was such a load; otherwise nothing changes.
    pub fn finish_load(&mut self, result: Result<T, E>) -> (r: bool)
        ensures
            r == (old(self).spec_state() is Loading && old(self).spec_has_load()),
            r ==> !final(self).spec_has_load() && match result {
                Ok(v) => final(self).spec_state() == ResourceState::<T, E>::Loaded(v),
                Err(e) => final(self).spec_state() == ResourceState::<T, E>::Error(e),
            },
            !r ==> final(self).spec_state() == old(self).spec_state() && final(self).spec_has_load()
                == old(self).spec_has_load(),
    {
        match self.state {
            ResourceState::Loading => {
                if !self.has_load {
                    return false;
                }
            },
            _ => return false,
        }
        self.has_load = false;
        match result {
            Ok(v) => self.state = ResourceState::Loaded(v),
            Err(e) => self.state = ResourceState::Error(e),
        }
        true
    }
}

impl<T, E> Default for ResourceStateManager<T, E> {
    fn default() -> (r: ResourceStateManager<T, E>)
        ensures
            r.spec_state() is Pending,
            !r.spec_has_load(),
    {
        ResourceStateManager::new()
    }
}

} // verus!
