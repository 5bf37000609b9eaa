//! Which primitive atomic word, if any, a payload type can be represented as.
use std::sync::atomic::{AtomicBool, AtomicU16, AtomicU32, AtomicU64, AtomicU8, AtomicUsize};
use vstd::layout::{align_of, size_of};
use vstd::prelude::*;

verus! {

/// A primitive atomic word that a payload may be reinterpreted as.
#[derive(Clone, Copy, Debug, PartialEq, Eq, Structural)]
pub enum AtomicWord {
    /// The zero-sized word: every operation on it is a no-op.
    Unit,
    Bool,
    Usize,
    U8,
    U16,
    U32,
    U64,
}

/// Values of `A` can be reinterpreted as values of `B`: the sizes are equal and `A` is at
/// least as strictly aligned as `B`.
pub open spec fn fits<A, B>() -> bool {
    size_of::<A>() == size_of::<B>() && align_of::<A>() >= align_of::<B>()
}

/// The first primitive word, in the order of the search, that `T` fits.
pub open spec fn word_for<T>() -> Option<AtomicWord> {
    if fits::<T, ()>() {
        Some(AtomicWord::Unit)
    } else if fits::<T, AtomicBool>() {
        Some(AtomicWord::Bool)
    } else if fits::<T, AtomicUsize>() {
        Some(AtomicWord::Usize)
    } else if fits::<T, AtomicU8>() {
        Some(AtomicWord::U8)
    } else if fits::<T, AtomicU16>() {
        Some(AtomicWord::U16)
    } else if fits::<T, AtomicU32>() {
        Some(AtomicWord::U32)
    } else if fits::<T, AtomicU64>() {
        Some(AtomicWord::U64)
    } else {
        None
    }
}

/// Returns `true` if values of type `A` can be reinterpreted as values of type `B`.
pub fn can_transmute<A, B>() -> (r: bool)
    ensures
        r == fits::<A, B>(),
{
    core::mem::size_of::<A>() == core::mem::size_of::<B>() && core::mem::align_of::<A>()
        >= core::mem::align_of::<B>()
}

/// The primitive atomic word that operations on a `T` payload are dispatched to, or `None`
/// when they have to be serialized by a lock.
pub fn atomic_word<T>() -> (r: Option<AtomicWord>)
    ensures
        r == word_for::<T>(),
{
    if can_transmute::<T, ()>() {
        Some(AtomicWord::Unit)
    } else if can_transmute::<T, AtomicBool>() {
        Some(AtomicWord::Bool)
    } else if can_transmute::<T, AtomicUsize>() {
        Some(AtomicWord::Usize)
    } else if can_transmute::<T, AtomicU8>() {
        Some(AtomicWord::U8)
    } else if can_transmute::<T, AtomicU16>() {
        Some(AtomicWord::U16)
    } else if can_transmute::<T, AtomicU32>() {
        Some(AtomicWord::U32)
    } else if can_transmute::<T, AtomicU64>() {
        Some(AtomicWord::U64)
    } else {
        None
    }
}

/// Returns `true` if operations on a `T` payload map onto a primitive atomic word.
pub fn atomic_is_lock_free<T>() -> (r: bool)
    ensures
        r == word_for::<T>().is_some(),
{
    atomic_word::<T>().is_some()
}

/// Every zero-sized type is word-representable: it fits the zero-sized unit word.
pub proof fn lemma_zero_sized_is_lock_free<T>()
    requires
        size_of::<T>() == 0,
        align_of::<T>() >= 1,
    ensures
        word_for::<T>() == Some(AtomicWord::Unit),
{
    broadcast use vstd::layout::layout_of_unit_tuple;
}

/// A type with the size of a machine word and at least its alignment is word-representable.
pub proof fn lemma_word_sized_is_lock_free<T>()
    requires
        fits::<T, AtomicUsize>(),
    ensures
        word_for::<T>().is_some(),
{
}

} // verus!
