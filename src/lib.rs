//! Concurrent primitives: a thread-safe mutable cell, an atomically replaceable slot over a
//! reference-counted handle, and the hazard registry that decides who finalizes a handle once
//! it has been swapped out.
//!
//! The cells serialize each step on a lock of their own, and an observation of a slot keeps
//! its value alive with a strong count of its own. The registry states the hazard-pointer
//! discipline by which a reader could go without that count: its operations are the steps
//! of the protocol, and the laws in `reclamation` show that each handle is finalized by
//! exactly one party and never while a reader's slot protects it.

pub mod atomic_arc;
pub mod atomic_cell;
pub mod byte_eq;
pub mod hazard_cell;
pub mod layout;
pub mod lock;
pub mod pointer;
pub mod reclamation;
pub mod registry;

pub use atomic_arc::{AtomicArc, SharedArc};
pub use atomic_cell::AtomicCell;
pub use byte_eq::ByteEq;
pub use hazard_cell::{HazardCell, HazardGuard};
pub use pointer::Pointer;
