//! The entries of the server's caches: a shared value, whether it changed
//! since it was last saved, and when it was last used.
use vstd::prelude::*;
use std::sync::Arc;
use std::time::Instant;

verus! {

/// std's monotonic clock reading, carried through as it is.
#[verifier::external_type_specification]
#[verifier::external_body]
pub struct ExInstant(std::time::Instant);

/// std's `Instant::now`: the current time of the monotonic clock. Nothing
/// is stated of it.
#[verifier::external_body]
fn instant_now() -> Instant {
    Instant::now()
}

/// std's `Arc::clone`: a new handle on the same value, which the result
/// equals.
#[verifier::external_body]
fn arc_clone<T>(a: &Arc<T>) -> (r: Arc<T>)
    ensures
        r == *a,
{
    Arc::clone(a)
}

/// A cached value.
#[derive(Debug)]
pub struct CachedEntry<T> {
    value: Arc<T>,
    dirty: bool,
    last_access: Instant,
}

impl<T> CachedEntry<T> {
    /// The cached value.
    pub closed spec fn spec_value(&self) -> T {
        *self.value
    }

    /// Whether the value changed since it was last saved.
    pub closed spec fn spec_dirty(&self) -> bool {
        self.dirty
    }

    /// An entry holding `entry`, unchanged, used now.
    pub fn new(entry: T) -> (e: Self)
        ensures
            e.spec_value() == entry,
            !e.spec_dirty(),
    {
        CachedEntry { value: Arc::new(entry), dirty: false, last_access: instant_now() }
    }

    /// An entry holding the shared `value`, unchanged, used now.
    pub fn from_shared(value: Arc<T>) -> (e: Self)
        ensures
            e.spec_value() == *value,
            !e.spec_dirty(),
    {
        CachedEntry { value, dirty: false, last_access: instant_now() }
    }

    /// Marks the value as changed.
    pub fn set_dirty(&mut self)
        ensures
            final(self).spec_dirty(),
            final(self).spec_value() == old(self).spec_value(),
    {
        self.dirty = true;
    }

    /// A handle on the value.
    pub fn val(&self) -> (v: Arc<T>)
        ensures
            *v == self.spec_value(),
    {
        arc_clone(&self.value)
    }

    /// Records that the entry is used now.
    pub fn refresh_access(&mut self)
        ensures
            final(self).spec_value() == old(self).spec_value(),
            final(self).spec_dirty() == old(self).spec_dirty(),
    {
        self.last_access = instant_now();
    }

    /// Whether the value changed since it was last saved; it counts as
    /// saved from now on.
    pub fn take_dirty(&mut self) -> (was: bool)
        ensures
            was == old(self).spec_dirty(),
            !final(self).spec_dirty(),
            final(self).spec_value() == old(self).spec_value(),
    {
        let was = self.dirty;
        self.dirty = false;
        was
    }

    /// Replaces the value with a changed one, which is marked as changed.
    pub fn modify(&mut self, value: T)
        ensures
            final(self).spec_value() == value,
            final(self).spec_dirty(),
    {
        self.value = Arc::new(value);
        self.dirty = true;
    }
}

} // verus!
