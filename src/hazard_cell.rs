//! An atomically replaceable slot over a smart pointer.
use crate::atomic_arc::clone_arc;
use crate::lock::{acquire, guarded, guarded_mut, into_locked_value};
use crate::pointer::Pointer;
use std::sync::{Arc, Mutex};
use vstd::prelude::*;

verus! {

/// A slot holding a smart pointer, which threads can read and replace concurrently.
///
/// The pointer is kept in a shared allocation: a reader takes one more strong count of it
/// under the lock, which runs no code of the payload, and reads it after the lock is
/// released.
#[verifier::reject_recursive_types(T)]
pub struct HazardCell<T: Pointer> {
    inner: Mutex<Arc<T>>,
}

/// A pointer taken out of a [`HazardCell`]: the one read by `get`, shared with the slot while
/// the slot still holds it, or the one evicted by `replace`.
pub struct HazardGuard<T: Pointer> {
    inner: Arc<T>,
}

impl<T: Pointer> View for HazardGuard<T> {
    type V = T;

    closed spec fn view(&self) -> T {
        *self.inner
    }
}

/// Relies on Arc::unwrap_or_clone: the value itself when this is the last strong count,
/// else a clone of it.
#[verifier::external_body]
fn unwrap_or_clone<T: Clone>(a: Arc<T>) -> (r: T)
    ensures
        cloned::<T>(*a, r),
{
    Arc::unwrap_or_clone(a)
}

impl<T: Pointer> HazardCell<T> {
    /// Creates a slot that takes ownership of `val`.
    pub fn new(val: T) -> Self {
        HazardCell { inner: Mutex::new(Arc::new(val)) }
    }

    /// Stores `new_val` and returns a guard that owns the evicted pointer.
    pub fn replace(&self, new_val: T) -> HazardGuard<T> {
        let mut evicted = Arc::new(new_val);
        let mut guard = acquire(&self.inner);
        core::mem::swap(guarded_mut(&mut guard), &mut evicted);
        HazardGuard { inner: evicted }
    }

    /// Reads the current pointer.
    pub fn get(&self) -> HazardGuard<T> {
        let guard = acquire(&self.inner);
        HazardGuard { inner: clone_arc(guarded(&guard)) }
    }
}

impl<T: Pointer + Clone> HazardCell<T> {
    /// Consumes the slot and returns the pointer it owned; a copy of it while a guard from
    /// `get` still shares it.
    pub fn into_inner(self) -> T {
        unwrap_or_clone(into_locked_value(self.inner))
    }
}

impl<T: Pointer> HazardGuard<T> {
    /// The pointer this guard holds.
    pub fn as_ref(&self) -> (r: &T)
        ensures
            *r == self@,
    {
        &*self.inner
    }
}

impl<T: Pointer + Clone> HazardGuard<T> {
    /// The pointer this guard holds, taken out of it; a copy of it while the slot or another
    /// guard still shares it.
    pub fn into_inner(self) -> (r: T)
        ensures
            cloned::<T>(self@, r),
    {
        unwrap_or_clone(self.inner)
    }
}

impl<T: Pointer> core::ops::Deref for HazardGuard<T> {
    type Target = T;

    fn deref(&self) -> &T {
        &*self.inner
    }
}

} // verus!
