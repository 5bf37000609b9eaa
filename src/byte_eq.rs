//! Types whose value equality is equality of their bytes.
use vstd::prelude::*;

verus! {

/// A marker for types whose `==` holds exactly when the two values have the same bytes.
///
/// For such types a compare-and-swap on the bytes never fails on a value that compares
/// equal to the expected one.
pub trait ByteEq: Eq {

}

impl ByteEq for () {

}

impl ByteEq for bool {

}

impl ByteEq for char {

}

impl ByteEq for i8 {

}

impl ByteEq for u8 {

}

impl ByteEq for i16 {

}

impl ByteEq for u16 {

}

impl ByteEq for i32 {

}

impl ByteEq for u32 {

}

impl ByteEq for isize {

}

impl ByteEq for usize {

}

impl<A: ByteEq> ByteEq for (A,) {

}

impl<A: ByteEq, B: ByteEq> ByteEq for (A, B) {

}

impl<A: ByteEq, B: ByteEq, C: ByteEq> ByteEq for (A, B, C) {

}

impl<A: ByteEq, B: ByteEq, C: ByteEq, D: ByteEq> ByteEq for (A, B, C, D) {

}

impl<T: ByteEq, const N: usize> ByteEq for [T; N] {

}

} // verus!
