//! Typed metadata storage for rooms: one optional value, which the relay never interprets.

use vstd::prelude::*;

verus! {

/// Holds at most one metadata value. The library does not interpret it.
pub struct Storage<T> {
    inner: Option<T>,
}

impl<T> View for Storage<T> {
    type V = Option<T>;

    closed spec fn view(&self) -> Option<T> {
        self.inner
    }
}

/// The contents after `set(value)`, whatever was there before.
pub open spec fn stored_after_set<T>(before: Option<T>, value: T) -> Option<T> {
    Some(value)
}

/// What `take` hands back, and the contents it leaves.
pub open spec fn take_outcome<T>(before: Option<T>) -> (Option<T>, Option<T>) {
    (before, None)
}

impl<T> Storage<T> {
    /// Creates an empty storage.
    pub fn new() -> (s: Self)
        ensures
            s@ is None,
    {
        Storage { inner: None }
    }

    /// Stores a value, replacing any previous one.
    pub fn set(&mut self, value: T)
        ensures
            final(self)@ == stored_after_set(old(self)@, value),
    {
        self.inner = Some(value);
    }

    /// Reads the stored value through a callback; `None` when nothing is stored.
    pub fn get<R, F: FnOnce(&T) -> R>(&self, f: F) -> (r: Option<R>)
        requires
            self@ matches Some(v) ==> f.requires((&v,)),
        ensures
            r is Some <==> self@ is Some,
            r matches Some(x) ==> f.ensures((&self@->0,), x),
    {
        match &self.inner {
            Some(v) => Some(f(v)),
            None => None,
        }
    }

    /// Removes and returns the stored value.
    pub fn take(&mut self) -> (r: Option<T>)
        ensures
            (r, final(self)@) == take_outcome(old(self)@),
    {
        self.inner.take()
    }

    /// Whether a value is stored.
    pub fn is_set(&self) -> (b: bool)
        ensures
            b == self@ is Some,
    {
        self.inner.is_some()
    }
}

impl<T> Default for Storage<T> {
    fn default() -> (s: Self)
        ensures
            s@ is None,
    {
        Storage::new()
    }
}

/// Law: what `set` stores, a following `take` hands back, and the storage is
/// then empty, so `is_set` answers false.
pub proof fn law_take_returns_what_was_set<T>(before: Option<T>, value: T)
    ensures
        take_outcome(stored_after_set(before, value)) == (Some(value), None::<T>),
{
}

/// Law: a second `take` after a `take` finds nothing.
pub proof fn law_take_empties<T>(before: Option<T>)
    ensures
        take_outcome(take_outcome(before).1) == (None::<T>, None::<T>),
{
}

/// Law: a later `set` replaces an earlier one.
pub proof fn law_last_set_wins<T>(before: Option<T>, first: T, second: T)
    ensures
        stored_after_set(stored_after_set(before, first), second) == Some(second),
{
}

} // verus!
