//! An atomically replaceable slot over an optional reference-counted handle.
use crate::lock::{acquire, guarded, guarded_mut, into_locked_value};
use std::sync::{Arc, Mutex};
use vstd::prelude::*;
use vstd::std_specs::convert::IntoSpec;

verus! {

/// A slot holding an optional `Arc<T>`, which threads can read and replace concurrently.
///
/// The slot owns one strong count of the handle it holds. A reader gets a [`SharedArc`],
/// which keeps the observed value alive for as long as the reader holds it.
#[verifier::reject_recursive_types(T)]
pub struct AtomicArc<T> {
    inner: Mutex<Option<Arc<T>>>,
}

/// An observation of an [`AtomicArc`]: the handle it held at some point in time.
pub struct SharedArc<T> {
    inner: Option<Arc<T>>,
}

/// Relies on std's `impl<T> From<T> for Option<T>`: the value wrapped in `Some`. With it a
/// caller of `compare_and_set` that passes an `Arc` learns which handle comes back.
pub assume_specification<T>[ <std::option::Option<T> as std::convert::From<T>>::from ](val: T) -> (r: Option<T>)
    ensures
        r == Some(val),
;

/// Relies on std's `impl<T> From<T> for T`: the value itself. With it a caller of
/// `compare_and_set` that passes an `Option<Arc<T>>` learns which handle comes back.
pub assume_specification<X>[ <X as std::convert::From<X>>::from ](x: X) -> (r: X)
    ensures
        r == x,
;

/// Relies on Arc::ptr_eq: whether two handles point to the same allocation, which then
/// holds one value.
#[verifier::external_body]
fn same_allocation<T>(a: &Arc<T>, b: &Arc<T>) -> (r: bool)
    ensures
        r ==> *a == *b,
{
    Arc::ptr_eq(a, b)
}

/// Relies on Arc::clone: another strong count of the same allocation, so a handle to the
/// same value.
#[verifier::external_body]
pub(crate) fn clone_arc<T>(a: &Arc<T>) -> (r: Arc<T>)
    ensures
        r == *a,
{
    Arc::clone(a)
}

/// Whether `held` is the very handle `seen`: both empty, or both pointing to one allocation.
fn holds_same<T>(held: &Option<Arc<T>>, seen: &Option<Arc<T>>) -> (r: bool)
    ensures
        r ==> *held == *seen,
        held is None && seen is None ==> r,
        held is None != seen is None ==> !r,
{
    match (held, seen) {
        (Some(a), Some(b)) => same_allocation(a, b),
        (None, None) => true,
        _ => false,
    }
}

/// Another strong count of the handle, if there is one.
fn clone_handle<T>(h: &Option<Arc<T>>) -> (r: Option<Arc<T>>)
    ensures
        r == *h,
{
    match h {
        Some(a) => Some(clone_arc(a)),
        None => None,
    }
}

impl<T> AtomicArc<T> {
    /// Creates a slot that takes ownership of `val`.
    pub fn new<U>(val: U) -> AtomicArc<T>
        where
            U: Into<Option<Arc<T>>>,
    {
        AtomicArc { inner: Mutex::new(val.into()) }
    }

    /// Consumes the slot and returns the handle it owned.
    pub fn into_inner(self) -> Option<Arc<T>> {
        into_locked_value(self.inner)
    }

    /// Observes the current handle. The observed value stays alive while the returned
    /// `SharedArc` is held, whatever writers do to the slot meanwhile.
    pub fn get(&self) -> SharedArc<T> {
        let guard = acquire(&self.inner);
        SharedArc { inner: clone_handle(guarded(&guard)) }
    }

    /// Stores `val` and returns the handle that was evicted; its strong count now belongs
    /// to the returned `SharedArc`.
    pub fn replace<U>(&self, val: U) -> SharedArc<T>
        where
            U: Into<Option<Arc<T>>>,
    {
        let mut handle = val.into();
        let mut guard = acquire(&self.inner);
        core::mem::swap(guarded_mut(&mut guard), &mut handle);
        SharedArc { inner: handle }
    }

    /// Stores `val`; the evicted handle is released after the slot is.
    pub fn set<U>(&self, val: U)
        where
            U: Into<Option<Arc<T>>>,
    {
        let _evicted = self.replace(val);
    }

    /// Stores `new` if the slot still holds the handle that `current` observed.
    ///
    /// On success the evicted handle is released and `new` is consumed. On failure nothing
    /// is stored and the handle made of `new` is handed back: `Some(new)` for an `Arc`,
    /// `new` itself for an `Option<Arc<T>>`.
    pub fn compare_and_set<U>(&self, current: &SharedArc<T>, new: U) -> (r: Result<
        (),
        Option<Arc<T>>,
    >)
        where
            U: Into<Option<Arc<T>>>,
        ensures
            r matches Err(h) ==> call_ensures(U::into, (new,), h),
    {
        let handle = new.into();
        match self.swap_if_same(&current.inner, handle) {
            Ok(_evicted) => Ok(()),
            Err(new) => Err(new),
        }
    }

    /// Stores `new` if the slot holds the very handle `seen`, and returns the evicted handle;
    /// otherwise hands `new` back. The lock is released before the caller drops either.
    fn swap_if_same(&self, seen: &Option<Arc<T>>, new: Option<Arc<T>>) -> (r: Result<
        Option<Arc<T>>,
        Option<Arc<T>>,
    >)
        ensures
            r matches Err(h) ==> h == new,
    {
        let mut guard = acquire(&self.inner);
        swap_held_if_same(guarded_mut(&mut guard), seen, new)
    }
}

/// The step a compare-and-set takes with the lock held: if `held` is the very handle `seen`,
/// `new` takes its place and the evicted handle is returned; otherwise `held` stays and `new`
/// is handed back.
pub fn swap_held_if_same<T>(held: &mut Option<Arc<T>>, seen: &Option<Arc<T>>, new: Option<Arc<T>>) -> (r: Result<
    Option<Arc<T>>,
    Option<Arc<T>>,
>)
    ensures
        r matches Ok(evicted) ==> evicted == *old(held) && evicted == *seen && *final(held) == new,
        r matches Err(h) ==> h == new && *final(held) == *old(held),
        *old(held) is None && *seen is None ==> r is Ok,
        (*old(held) is None) != (*seen is None) ==> r is Err,
{
    if holds_same(held, seen) {
        let mut handle = new;
        core::mem::swap(held, &mut handle);
        Ok(handle)
    } else {
        Err(new)
    }
}

impl<T> View for SharedArc<T> {
    type V = Option<Arc<T>>;

    /// The observed handle.
    closed spec fn view(&self) -> Option<Arc<T>> {
        self.inner
    }
}

impl<T> SharedArc<T> {
    /// A new strong count of the observed handle.
    pub fn clone_inner(&self) -> (r: Option<Arc<T>>)
        ensures
            r == self@,
    {
        clone_handle(&self.inner)
    }

    /// The observed handle, borrowed for as long as this observation is held.
    pub fn as_ref(&self) -> (r: Option<&Arc<T>>)
        ensures
            r is Some <==> self@ is Some,
            r is Some ==> *r->0 == self@->0,
    {
        self.inner.as_ref()
    }
}

} // verus!
