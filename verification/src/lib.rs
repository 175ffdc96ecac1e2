//! Core of a completion-based asynchronous I/O runtime.
//!
//! Callers build an operation descriptor once and submit it to a [`driver::Driver`];
//! the kernel later delivers a completion event carrying the raw result, which the
//! driver routes to the waker of exactly the future that submitted the operation.
//! On top of the single-shot read capability, [`read`] provides exact-length read
//! loops with precise retry semantics, and [`sched`] states the contract that the
//! executor's run queue must satisfy.

pub mod driver;
pub mod error;
pub mod op;
pub mod read;
pub mod sched;
