//! Snowflake identifiers: 64-bit, time-ordered, unique per worker.
//!
//! An identifier holds a millisecond timestamp, the identifier of the worker
//! that issued it and a per-millisecond sequence number. The modules are, from
//! the bottom up: the bit layout, the decimal text form, the worker
//! configuration, the clock, the generator's state machine, a request with
//! its waits timed, the functions that issue identifiers against the machine's
//! clock, and a generator behind a lock for many threads.

pub mod clock;
pub mod config;
pub mod decimal;
pub mod error;
pub mod generate;
pub mod generator;
pub mod layout;
pub mod metrics;
pub mod request;
pub mod shared;

pub use crate::clock::get_timestamp;
pub use crate::error::{ConfigError, GenerateError, RequestError};
pub use crate::generate::{generate, generate_snowflake};
pub use crate::generator::GeneratorState;
pub use crate::layout::format_snowflake;
pub use crate::metrics::Metrics;
pub use crate::shared::SharedGenerator;
