//! A thread-safe mutable memory location.
use crate::layout::{atomic_is_lock_free, word_for};
use crate::lock::{acquire, guarded, guarded_mut, into_locked_value, locked_value_mut};
use std::sync::Mutex;
use vstd::prelude::*;
use vstd::wrapping::{
    i16_specs, i32_specs, i64_specs, i8_specs, isize_specs, u16_specs, u32_specs, u64_specs, u8_specs,
    usize_specs,
};

verus! {

/// A thread-safe mutable memory location: a `Cell` that can be shared among threads.
///
/// Each operation reads, writes or swaps the value under the cell's own lock, held for that
/// one step: user code (the function given to `update`, `==` in `compare_and_set`, the
/// payload's destructor) runs outside it. Every write bumps a stamp kept beside the value, so
/// that `update` and `compare_and_set` can tell whether the cell was written since they read
/// it. `is_lock_free` reports whether `T` matches a primitive atomic word in size and
/// alignment.
#[verifier::reject_recursive_types(T)]
pub struct AtomicCell<T> {
    value: Mutex<Stamped<T>>,
}

/// A value with the stamp of the write that stored it: what the lock of an [`AtomicCell`]
/// protects. Each method is one step taken while the lock is held.
pub struct Stamped<T> {
    pub value: T,
    pub stamp: u64,
}

/// The stamp of the write that follows the one stamped `stamp`.
pub open spec fn next_stamp_spec(stamp: u64) -> u64 {
    if stamp == u64::MAX {
        0
    } else {
        (stamp + 1) as u64
    }
}

impl<T> Stamped<T> {
    /// Stores `val` as a new write and returns the value it replaces.
    pub fn replace(&mut self, val: T) -> (r: T)
        ensures
            r == old(self).value,
            final(self).value == val,
            final(self).stamp == next_stamp_spec(old(self).stamp),
    {
        let mut val = val;
        core::mem::swap(&mut self.value, &mut val);
        self.stamp = next_stamp(self.stamp);
        val
    }
}

impl<T: Copy> Stamped<T> {
    /// Stores `new` as a new write if no write has happened since the one stamped `seen`.
    pub fn store_if_unchanged(&mut self, seen: u64, new: T) -> (stored: bool)
        ensures
            stored == (old(self).stamp == seen),
            stored ==> final(self).value == new && final(self).stamp == next_stamp_spec(
                old(self).stamp,
            ),
            !stored ==> *final(self) == *old(self),
    {
        if self.stamp == seen {
            self.replace(new);
            true
        } else {
            false
        }
    }
}

/// What follows one attempt of a compare-and-set retry loop.
#[derive(Clone, Copy, Debug, PartialEq, Eq, Structural)]
pub enum CasStep {
    /// The new value was stored.
    Stored,
    /// The cell held a value different from the expected one: nothing was stored.
    Mismatch,
    /// The cell held a value equal to the expected one, yet the new value was not stored (the
    /// cell was written in between): try again, expecting the value that was seen.
    Retry,
}

/// Decides what follows one compare-and-swap attempt, from whether it stored the new value
/// and whether the value it saw equals the expected one. A value equal to the expected one
/// never makes the operation fail.
pub fn cas_step(swapped: bool, equal: bool) -> (r: CasStep)
    ensures
        swapped ==> r == CasStep::Stored,
        !swapped && equal ==> r == CasStep::Retry,
        !swapped && !equal ==> r == CasStep::Mismatch,
        r == CasStep::Mismatch ==> !equal,
{
    if swapped {
        CasStep::Stored
    } else if equal {
        CasStep::Retry
    } else {
        CasStep::Mismatch
    }
}

impl<T> AtomicCell<T> {
    /// Creates a new atomic cell initialized with `val`.
    pub fn new(val: T) -> AtomicCell<T> {
        AtomicCell { value: Mutex::new(Stamped { value: val, stamp: 0 }) }
    }

    /// Unwraps the atomic cell and returns its inner value.
    pub fn into_inner(self) -> T {
        into_locked_value(self.value).value
    }

    /// Returns a mutable reference to the inner value; the exclusive borrow of the cell
    /// rules out any concurrent operation.
    pub fn get_mut(&mut self) -> &mut T {
        &mut locked_value_mut(&mut self.value).value
    }

    /// Returns `true` if values of this type map onto a primitive atomic word.
    pub fn is_lock_free() -> (r: bool)
        ensures
            r == word_for::<T>().is_some(),
    {
        atomic_is_lock_free::<T>()
    }

    /// Stores `val` into the atomic cell; the previous value is dropped after the cell is
    /// released.
    pub fn set(&self, val: T) {
        let _previous = self.replace(val);
    }

    /// Stores `val` into the atomic cell and returns the previous value.
    pub fn replace(&self, val: T) -> T {
        let mut guard = acquire(&self.value);
        guarded_mut(&mut guard).replace(val)
    }
}

impl<T: Default> AtomicCell<T> {
    /// Takes the inner value and replaces it with `T::default()`.
    pub fn take(&self) -> T {
        self.replace(T::default())
    }
}

impl<T: Copy> AtomicCell<T> {
    /// Returns a copy of the inner value.
    pub fn get(&self) -> T {
        self.load().0
    }

    /// A copy of the inner value, with the stamp of the write that stored it.
    fn load(&self) -> (T, u64) {
        let guard = acquire(&self.value);
        let slot = guarded(&guard);
        (slot.value, slot.stamp)
    }

    /// Stores `new` if no write has happened since the one with stamp `seen`. Returns the
    /// value the cell held, its stamp, and whether `new` was stored.
    fn store_if_unchanged(&self, seen: u64, new: T) -> (r: (T, u64, bool))
        ensures
            r.2 == (r.1 == seen),
    {
        let mut guard = acquire(&self.value);
        let slot = guarded_mut(&mut guard);
        let (previous, stamp) = (slot.value, slot.stamp);
        let stored = slot.store_if_unchanged(seen, new);
        (previous, stamp, stored)
    }

    /// Updates the inner value using a function and returns the new value, which is a value
    /// that `f` returned.
    ///
    /// `f` is called outside the lock, on the value last seen; its result is stored only if
    /// no other write came in meanwhile, else `f` is called again on the value that write
    /// stored. Should `u64::MAX` attempts in a row be overtaken, the value `f` returned last
    /// is stored as it stands. The lock is never held while `f` runs.
    pub fn update<F>(&self, mut f: F) -> (r: T)
        where
            F: FnMut(T) -> T,
        requires
            forall|g: F, x: T| call_requires(g, (x,)),
        ensures
            exists|g: F, x: T| call_ensures(g, (x,), r),
    {
        let (current, mut stamp) = self.load();
        let mut new = f(current);
        let mut attempts: u64 = 0;
        while attempts < u64::MAX
            invariant
                forall|g: F, x: T| call_requires(g, (x,)),
                exists|g: F, x: T| call_ensures(g, (x,), new),
            decreases u64::MAX - attempts,
        {
            let (previous, previous_stamp, stored) = self.store_if_unchanged(stamp, new);
            if stored {
                return new;
            }
            stamp = previous_stamp;
            new = f(previous);
            attempts = attempts + 1;
        }
        self.replace(new);
        new
    }
}

impl<T: Copy + Eq> AtomicCell<T> {
    /// If the current value equals `current`, stores `new` into the atomic cell.
    ///
    /// Returns `true` if the value was updated, and `false` otherwise. Values are compared
    /// with `==` outside the lock; `false` comes only from a value that was found different
    /// from the one expected, except that should `u64::MAX` attempts in a row be overtaken
    /// by other writes, one more attempt is made and its outcome returned as it stands. The
    /// lock is never held while `==` runs.
    pub fn compare_and_set(&self, current: T, new: T) -> bool {
        let mut current = current;
        let mut attempts: u64 = 0;
        while attempts < u64::MAX
            decreases u64::MAX - attempts,
        {
            let (previous, stamp) = self.load();
            let equal = previous == current;
            let swapped = if equal {
                self.store_if_unchanged(stamp, new).2
            } else {
                false
            };
            match cas_step(swapped, equal) {
                CasStep::Stored => {
                    return true;
                },
                CasStep::Mismatch => {
                    return false;
                },
                CasStep::Retry => {
                    current = previous;
                },
            }
            attempts = attempts + 1;
        }
        let (previous, stamp) = self.load();
        if previous == current {
            self.store_if_unchanged(stamp, new).2
        } else {
            false
        }
    }
}

impl Stamped<u8> {
    /// Adds `val` to the value as a new write, wrapping on overflow, and returns the sum.
    pub fn add(&mut self, val: u8) -> (r: u8)
        ensures
            r == u8_specs::wrapping_add(old(self).value, val),
            final(self).value == r,
            final(self).stamp == next_stamp_spec(old(self).stamp),
    {
        let sum = self.value.wrapping_add(val);
        self.replace(sum);
        sum
    }

    /// Subtracts `val` from the value as a new write, wrapping on overflow, and returns the
    /// difference.
    pub fn sub(&mut self, val: u8) -> (r: u8)
        ensures
            r == u8_specs::wrapping_sub(old(self).value, val),
            final(self).value == r,
            final(self).stamp == next_stamp_spec(old(self).stamp),
    {
        let difference = self.value.wrapping_sub(val);
        self.replace(difference);
        difference
    }
}

impl AtomicCell<u8> {
    /// Increments the inner value by `val` and returns the new value. The addition wraps on
    /// overflow.
    pub fn add(&self, val: u8) -> u8 {
        let mut guard = acquire(&self.value);
        guarded_mut(&mut guard).add(val)
    }

    /// Decrements the inner value by `val` and returns the new value. The subtraction wraps
    /// on overflow.
    pub fn sub(&self, val: u8) -> u8 {
        let mut guard = acquire(&self.value);
        guarded_mut(&mut guard).sub(val)
    }
}

impl Stamped<i8> {
    /// Adds `val` to the value as a new write, wrapping on overflow, and returns the sum.
    pub fn add(&mut self, val: i8) -> (r: i8)
        ensures
            r == i8_specs::wrapping_add(old(self).value, val),
            final(self).value == r,
            final(self).stamp == next_stamp_spec(old(self).stamp),
    {
        let sum = self.value.wrapping_add(val);
        self.replace(sum);
        sum
    }

    /// Subtracts `val` from the value as a new write, wrapping on overflow, and returns the
    /// difference.
    pub fn sub(&mut self, val: i8) -> (r: i8)
        ensures
            r == i8_specs::wrapping_sub(old(self).value, val),
            final(self).value == r,
            final(self).stamp == next_stamp_spec(old(self).stamp),
    {
        let difference = self.value.wrapping_sub(val);
        self.replace(difference);
        difference
    }
}

impl AtomicCell<i8> {
    /// Increments the inner value by `val` and returns the new value. The addition wraps on
    /// overflow.
    pub fn add(&self, val: i8) -> i8 {
        let mut guard = acquire(&self.value);
        guarded_mut(&mut guard).add(val)
    }

    /// Decrements the inner value by `val` and returns the new value. The subtraction wraps
    /// on overflow.
    pub fn sub(&self, val: i8) -> i8 {
        let mut guard = acquire(&self.value);
        guarded_mut(&mut guard).sub(val)
    }
}

impl Stamped<u16> {
    /// Adds `val` to the value as a new write, wrapping on overflow, and returns the sum.
    pub fn add(&mut self, val: u16) -> (r: u16)
        ensures
            r == u16_specs::wrapping_add(old(self).value, val),
            final(self).value == r,
            final(self).stamp == next_stamp_spec(old(self).stamp),
    {
        let sum = self.value.wrapping_add(val);
        self.replace(sum);
        sum
    }

    /// Subtracts `val` from the value as a new write, wrapping on overflow, and returns the
    /// difference.
    pub fn sub(&mut self, val: u16) -> (r: u16)
        ensures
            r == u16_specs::wrapping_sub(old(self).value, val),
            final(self).value == r,
            final(self).stamp == next_stamp_spec(old(self).stamp),
    {
        let difference = self.value.wrapping_sub(val);
        self.replace(difference);
        difference
    }
}

impl AtomicCell<u16> {
    /// Increments the inner value by `val` and returns the new value. The addition wraps on
    /// overflow.
    pub fn add(&self, val: u16) -> u16 {
        let mut guard = acquire(&self.value);
        guarded_mut(&mut guard).add(val)
    }

    /// Decrements the inner value by `val` and returns the new value. The subtraction wraps
    /// on overflow.
    pub fn sub(&self, val: u16) -> u16 {
        let mut guard = acquire(&self.value);
        guarded_mut(&mut guard).sub(val)
    }
}

impl Stamped<i16> {
    /// Adds `val` to the value as a new write, wrapping on overflow, and returns the sum.
    pub fn add(&mut self, val: i16) -> (r: i16)
        ensures
            r == i16_specs::wrapping_add(old(self).value, val),
            final(self).value == r,
            final(self).stamp == next_stamp_spec(old(self).stamp),
    {
        let sum = self.value.wrapping_add(val);
        self.replace(sum);
        sum
    }

    /// Subtracts `val` from the value as a new write, wrapping on overflow, and returns the
    /// difference.
    pub fn sub(&mut self, val: i16) -> (r: i16)
        ensures
            r == i16_specs::wrapping_sub(old(self).value, val),
            final(self).value == r,
            final(self).stamp == next_stamp_spec(old(self).stamp),
    {
        let difference = self.value.wrapping_sub(val);
        self.replace(difference);
        difference
    }
}

impl AtomicCell<i16> {
    /// Increments the inner value by `val` and returns the new value. The addition wraps on
    /// overflow.
    pub fn add(&self, val: i16) -> i16 {
        let mut guard = acquire(&self.value);
        guarded_mut(&mut guard).add(val)
    }

    /// Decrements the inner value by `val` and returns the new value. The subtraction wraps
    /// on overflow.
    pub fn sub(&self, val: i16) -> i16 {
        let mut guard = acquire(&self.value);
        guarded_mut(&mut guard).sub(val)
    }
}

impl Stamped<u32> {
    /// Adds `val` to the value as a new write, wrapping on overflow, and returns the sum.
    pub fn add(&mut self, val: u32) -> (r: u32)
        ensures
            r == u32_specs::wrapping_add(old(self).value, val),
            final(self).value == r,
            final(self).stamp == next_stamp_spec(old(self).stamp),
    {
        let sum = self.value.wrapping_add(val);
        self.replace(sum);
        sum
    }

    /// Subtracts `val` from the value as a new write, wrapping on overflow, and returns the
    /// difference.
    pub fn sub(&mut self, val: u32) -> (r: u32)
        ensures
            r == u32_specs::wrapping_sub(old(self).value, val),
            final(self).value == r,
            final(self).stamp == next_stamp_spec(old(self).stamp),
    {
        let difference = self.value.wrapping_sub(val);
        self.replace(difference);
        difference
    }
}

impl AtomicCell<u32> {
    /// Increments the inner value by `val` and returns the new value. The addition wraps on
    /// overflow.
    pub fn add(&self, val: u32) -> u32 {
        let mut guard = acquire(&self.value);
        guarded_mut(&mut guard).add(val)
    }

    /// Decrements the inner value by `val` and returns the new value. The subtraction wraps
    /// on overflow.
    pub fn sub(&self, val: u32) -> u32 {
        let mut guard = acquire(&self.value);
        guarded_mut(&mut guard).sub(val)
    }
}

impl Stamped<i32> {
    /// Adds `val` to the value as a new write, wrapping on overflow, and returns the sum.
    pub fn add(&mut self, val: i32) -> (r: i32)
        ensures
            r == i32_specs::wrapping_add(old(self).value, val),
            final(self).value == r,
            final(self).stamp == next_stamp_spec(old(self).stamp),
    {
        let sum = self.value.wrapping_add(val);
        self.replace(sum);
        sum
    }

    /// Subtracts `val` from the value as a new write, wrapping on overflow, and returns the
    /// difference.
    pub fn sub(&mut self, val: i32) -> (r: i32)
        ensures
            r == i32_specs::wrapping_sub(old(self).value, val),
            final(self).value == r,
            final(self).stamp == next_stamp_spec(old(self).stamp),
    {
        let difference = self.value.wrapping_sub(val);
        self.replace(difference);
        difference
    }
}

impl AtomicCell<i32> {
    /// Increments the inner value by `val` and returns the new value. The addition wraps on
    /// overflow.
    pub fn add(&self, val: i32) -> i32 {
        let mut guard = acquire(&self.value);
        guarded_mut(&mut guard).add(val)
    }

    /// Decrements the inner value by `val` and returns the new value. The subtraction wraps
    /// on overflow.
    pub fn sub(&self, val: i32) -> i32 {
        let mut guard = acquire(&self.value);
        guarded_mut(&mut guard).sub(val)
    }
}

impl Stamped<u64> {
    /// Adds `val` to the value as a new write, wrapping on overflow, and returns the sum.
    pub fn add(&mut self, val: u64) -> (r: u64)
        ensures
            r == u64_specs::wrapping_add(old(self).value, val),
            final(self).value == r,
            final(self).stamp == next_stamp_spec(old(self).stamp),
    {
        let sum = self.value.wrapping_add(val);
        self.replace(sum);
        sum
    }

    /// Subtracts `val` from the value as a new write, wrapping on overflow, and returns the
    /// difference.
    pub fn sub(&mut self, val: u64) -> (r: u64)
        ensures
            r == u64_specs::wrapping_sub(old(self).value, val),
            final(self).value == r,
            final(self).stamp == next_stamp_spec(old(self).stamp),
    {
        let difference = self.value.wrapping_sub(val);
        self.replace(difference);
        difference
    }
}

impl AtomicCell<u64> {
    /// Increments the inner value by `val` and returns the new value. The addition wraps on
    /// overflow.
    pub fn add(&self, val: u64) -> u64 {
        let mut guard = acquire(&self.value);
        guarded_mut(&mut guard).add(val)
    }

    /// Decrements the inner value by `val` and returns the new value. The subtraction wraps
    /// on overflow.
    pub fn sub(&self, val: u64) -> u64 {
        let mut guard = acquire(&self.value);
        guarded_mut(&mut guard).sub(val)
    }
}

impl Stamped<i64> {
    /// Adds `val` to the value as a new write, wrapping on overflow, and returns the sum.
    pub fn add(&mut self, val: i64) -> (r: i64)
        ensures
            r == i64_specs::wrapping_add(old(self).value, val),
            final(self).value == r,
            final(self).stamp == next_stamp_spec(old(self).stamp),
    {
        let sum = self.value.wrapping_add(val);
        self.replace(sum);
        sum
    }

    /// Subtracts `val` from the value as a new write, wrapping on overflow, and returns the
    /// difference.
    pub fn sub(&mut self, val: i64) -> (r: i64)
        ensures
            r == i64_specs::wrapping_sub(old(self).value, val),
            final(self).value == r,
            final(self).stamp == next_stamp_spec(old(self).stamp),
    {
        let difference = self.value.wrapping_sub(val);
        self.replace(difference);
        difference
    }
}

impl AtomicCell<i64> {
    /// Increments the inner value by `val` and returns the new value. The addition wraps on
    /// overflow.
    pub fn add(&self, val: i64) -> i64 {
        let mut guard = acquire(&self.value);
        guarded_mut(&mut guard).add(val)
    }

    /// Decrements the inner value by `val` and returns the new value. The subtraction wraps
    /// on overflow.
    pub fn sub(&self, val: i64) -> i64 {
        let mut guard = acquire(&self.value);
        guarded_mut(&mut guard).sub(val)
    }
}

impl Stamped<usize> {
    /// Adds `val` to the value as a new write, wrapping on overflow, and returns the sum.
    pub fn add(&mut self, val: usize) -> (r: usize)
        ensures
            r == usize_specs::wrapping_add(old(self).value, val),
            final(self).value == r,
            final(self).stamp == next_stamp_spec(old(self).stamp),
    {
        let sum = self.value.wrapping_add(val);
        self.replace(sum);
        sum
    }

    /// Subtracts `val` from the value as a new write, wrapping on overflow, and returns the
    /// difference.
    pub fn sub(&mut self, val: usize) -> (r: usize)
        ensures
            r == usize_specs::wrapping_sub(old(self).value, val),
            final(self).value == r,
            final(self).stamp == next_stamp_spec(old(self).stamp),
    {
        let difference = self.value.wrapping_sub(val);
        self.replace(difference);
        difference
    }
}

impl AtomicCell<usize> {
    /// Increments the inner value by `val` and returns the new value. The addition wraps on
    /// overflow.
    pub fn add(&self, val: usize) -> usize {
        let mut guard = acquire(&self.value);
        guarded_mut(&mut guard).add(val)
    }

    /// Decrements the inner value by `val` and returns the new value. The subtraction wraps
    /// on overflow.
    pub fn sub(&self, val: usize) -> usize {
        let mut guard = acquire(&self.value);
        guarded_mut(&mut guard).sub(val)
    }
}

impl Stamped<isize> {
    /// Adds `val` to the value as a new write, wrapping on overflow, and returns the sum.
    pub fn add(&mut self, val: isize) -> (r: isize)
        ensures
            r == isize_specs::wrapping_add(old(self).value, val),
            final(self).value == r,
            final(self).stamp == next_stamp_spec(old(self).stamp),
    {
        let sum = self.value.wrapping_add(val);
        self.replace(sum);
        sum
    }

    /// Subtracts `val` from the value as a new write, wrapping on overflow, and returns the
    /// difference.
    pub fn sub(&mut self, val: isize) -> (r: isize)
        ensures
            r == isize_specs::wrapping_sub(old(self).value, val),
            final(self).value == r,
            final(self).stamp == next_stamp_spec(old(self).stamp),
    {
        let difference = self.value.wrapping_sub(val);
        self.replace(difference);
        difference
    }
}

impl AtomicCell<isize> {
    /// Increments the inner value by `val` and returns the new value. The addition wraps on
    /// overflow.
    pub fn add(&self, val: isize) -> isize {
        let mut guard = acquire(&self.value);
        guarded_mut(&mut guard).add(val)
    }

    /// Decrements the inner value by `val` and returns the new value. The subtraction wraps
    /// on overflow.
    pub fn sub(&self, val: isize) -> isize {
        let mut guard = acquire(&self.value);
        guarded_mut(&mut guard).sub(val)
    }
}

impl<T: Default> Default for AtomicCell<T> {
    fn default() -> AtomicCell<T> {
        AtomicCell::new(T::default())
    }
}

/// The stamp of the write that follows the one stamped `stamp`.
fn next_stamp(stamp: u64) -> (r: u64)
    ensures
        r == next_stamp_spec(stamp),
{
    stamp.wrapping_add(1)
}

} // verus!
