//! A cooperative, single-threaded task runtime with no dynamic allocation.
//!
//! A fixed-capacity slot container is the substrate for both the set of live
//! tasks and the set of pending timer registrations. An executor polls tasks
//! that are marked ready; a timer-wait future suspends a task until a given
//! number of timer ticks has been delivered; a yield future suspends a task
//! for exactly one run-loop pass. Timer ticks are broadcast to every
//! registered waker, and each waker does nothing but flip one task's ready
//! flag.

pub mod container;

pub mod wake;

pub mod yield_now;

pub mod async_timer;

pub mod executor;
