//! Navigation synchronization engine for a time-gated course-registration
//! workflow: racing-selector polling, stage state machines, a precision
//! deadline trigger, and the dual-path enrollment transaction.

pub mod args;
pub mod course;
pub mod elements;
pub mod enroll;
pub mod results;
pub mod poller;
pub mod stages;
pub mod text;
pub mod trigger;
