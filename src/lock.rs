//! The lock that serializes operations on a payload, acquired with a back-off ladder.
use std::sync::{Mutex, MutexGuard};
use vstd::prelude::*;

verus! {

#[verifier::external_type_specification]
#[verifier::external_body]
#[verifier::reject_recursive_types(T)]
pub struct ExMutex<T: ?Sized>(Mutex<T>);

#[verifier::external_type_specification]
#[verifier::external_body]
#[verifier::reject_recursive_types(T)]
pub struct ExMutexGuard<'a, T: ?Sized + 'a>(MutexGuard<'a, T>);

pub assume_specification<T>[ Mutex::<T>::new ](t: T) -> Mutex<T>;

/// Number of failed attempts that are retried at once.
pub const SPIN_LIMIT: usize = 5;

/// Number of failed attempts after which the waiting thread stops spinning and blocks.
pub const WAIT_LIMIT: usize = 10;

/// What a thread does after a failed attempt to take the lock.
#[derive(Clone, Copy, Debug, PartialEq, Eq, Structural)]
pub enum Backoff {
    /// Try again at once.
    Spin,
    /// Issue a pause hint to the processor, then try again.
    Pause,
    /// Stop spinning and wait until the holder releases the lock.
    Wait,
}

/// The rung of the back-off ladder for the attempt that failed after `step` earlier failures.
pub open spec fn backoff_spec(step: nat) -> Backoff {
    if step < SPIN_LIMIT {
        Backoff::Spin
    } else if step < WAIT_LIMIT {
        Backoff::Pause
    } else {
        Backoff::Wait
    }
}

/// Chooses the rung of the back-off ladder after `step` failed attempts.
pub fn backoff(step: usize) -> (r: Backoff)
    ensures
        r == backoff_spec(step as nat),
{
    if step < SPIN_LIMIT {
        Backoff::Spin
    } else if step < WAIT_LIMIT {
        Backoff::Pause
    } else {
        Backoff::Wait
    }
}

/// Relies on Mutex::try_lock: a guard when the lock was free, `None` while another holder
/// has it. A lock poisoned by a panic is taken all the same.
#[verifier::external_body]
fn try_lock<T>(m: &Mutex<T>) -> Option<MutexGuard<'_, T>> {
    match m.try_lock() {
        Ok(g) => Some(g),
        Err(std::sync::TryLockError::Poisoned(e)) => Some(e.into_inner()),
        Err(std::sync::TryLockError::WouldBlock) => None,
    }
}

/// Relies on Mutex::lock: blocks until the lock is free and returns its guard. A lock
/// poisoned by a panic is taken all the same.
#[verifier::external_body]
fn lock<T>(m: &Mutex<T>) -> MutexGuard<'_, T> {
    match m.lock() {
        Ok(g) => g,
        Err(e) => e.into_inner(),
    }
}

/// Relies on std::hint::spin_loop: a hint to the processor, with no effect on any value.
#[verifier::external_body]
fn pause() {
    std::hint::spin_loop()
}

/// Takes the lock: retries at once for the first attempts, then with pause hints, then
/// waits for the holder to release it.
pub fn acquire<T>(m: &Mutex<T>) -> MutexGuard<'_, T> {
    let mut step: usize = 0;
    loop
        invariant
            step <= WAIT_LIMIT,
        decreases WAIT_LIMIT - step,
    {
        if let Some(g) = try_lock(m) {
            return g;
        }
        match backoff(step) {
            Backoff::Spin => {},
            Backoff::Pause => pause(),
            Backoff::Wait => {
                return lock(m);
            },
        }
        step = step + 1;
    }
}

/// Relies on Mutex::into_inner: the value the lock protected. A lock poisoned by a panic
/// gives up its value all the same.
#[verifier::external_body]
pub(crate) fn into_locked_value<T>(m: Mutex<T>) -> T {
    match m.into_inner() {
        Ok(v) => v,
        Err(e) => e.into_inner(),
    }
}

/// Relies on the guard's `Deref`: the guarded value, borrowed for as long as the guard.
#[verifier::external_body]
pub(crate) fn guarded<'a, 'b, T>(g: &'b MutexGuard<'a, T>) -> &'b T {
    &**g
}

/// Relies on the guard's `DerefMut`: the guarded value, borrowed mutably for as long as the
/// guard.
#[verifier::external_body]
pub(crate) fn guarded_mut<'a, 'b, T>(g: &'b mut MutexGuard<'a, T>) -> &'b mut T {
    &mut **g
}

/// Relies on Mutex::get_mut: the guarded value, reached through an exclusive borrow of the
/// lock without taking it. A lock poisoned by a panic gives access all the same.
#[verifier::external_body]
pub(crate) fn locked_value_mut<T>(m: &mut Mutex<T>) -> &mut T {
    match m.get_mut() {
        Ok(v) => v,
        Err(e) => e.into_inner(),
    }
}

} // verus!
