//! A single-threaded cooperative executor with waker-driven rescheduling, a
//! timer resource that becomes ready after a deadline, and a small simulator
//! of protected and paged memory.
//!
//! `scheduler` decides which task is polled next and what a wake does;
//! `delay` decides when a timer is ready and which task it wakes. Polling
//! the computations, running timer threads and carrying wakes between
//! threads is left to the caller.

pub mod delay;
pub mod memory;
pub mod scheduler;
