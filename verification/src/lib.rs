//! Reminder scheduling engine for a personal task manager.
//!
//! The library holds the verified core: computing remind instants from a
//! task's due date and time, resolving the single next reminder to fire,
//! deduplicating firings through a ledger, advancing recurring tasks to
//! their next occurrence, and the decision logic of the scheduler loop.
//! Storage, notification display and the async runtime live outside and
//! talk to this crate through plain values.

pub mod catalog;
pub mod clock;
pub mod commands;
pub mod dates;
pub mod daylist;
pub mod ledger;
pub mod model;
pub mod recurrence;
pub mod resolver;
pub mod rules;
pub mod scheduler;
pub mod strings;

pub use dates::Date;
pub use dates::TimeOfDay;
