//! Smart pointers that a [`HazardCell`](crate::HazardCell) can hold.
use std::sync::Arc;
use vstd::prelude::*;

verus! {

/// A smart pointer represented as one word: an owning box or a reference-counted handle,
/// possibly absent.
pub trait Pointer {

}

impl<T> Pointer for Box<T> {

}

impl<T> Pointer for Option<Box<T>> {

}

impl<T> Pointer for Arc<T> {

}

impl<T> Pointer for Option<Arc<T>> {

}

} // verus!
