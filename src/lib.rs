//! Best-effort exactly-once execution of effects, keyed by a signal identifier
//! and a processor scope, coordinated through a shared key-value store.
//!
//! - `time`: instants and durations as integers.
//! - `model`: the process record, its lifecycle classifier, poll strategies
//!   and configuration.
//! - `coordinator`: the decision procedure of one attempt to start a signal.
//! - `store`: the persistence contract and an in-memory table that keeps it.
//! - `wire`: the stored form of a record in a document store.
//! - `guarantees`: what the protocol guarantees against such a table.
pub mod coordinator;
pub mod error;
pub mod guarantees;
pub mod model;
pub mod store;
pub mod time;
pub mod wire;

pub use coordinator::{Phase, Session, Step};
pub use error::Error;
pub use model::{Completion, Config, DelaySchedule, Expiration, Outcome, PollStrategy, Process, ProcessStatus};
pub use time::{Duration, Timestamp};
