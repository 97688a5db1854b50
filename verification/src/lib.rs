//! Push-based change notification in transactions.
//!
//! A producer drives an [`Observer`] through `on_start`, any number of
//! `on_updates`, and `on_commit`; `on_completed` ends the stream. The wrappers
//! in this crate are observers themselves and change how the observer they
//! hold sees those calls: [`CachingObserver`] holds a transaction back until
//! its commit, [`SharedObserver`] lets several owners drive one observer, and
//! [`OptionalObserver`] stands in for an observer that may be absent.

pub mod observer;
pub mod caching;
pub mod optional;
pub mod shared;

pub use crate::observer::Event;
pub use crate::observer::Observer;
pub use crate::observer::collect_batch;
pub use crate::caching::CachingObserver;
pub use crate::optional::OptionalObserver;
pub use crate::shared::SharedObserver;
