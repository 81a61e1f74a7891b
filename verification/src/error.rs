//! The errors that the library reports.

use vstd::prelude::*;
use vstd::string::StringExecFns;
use crate::decimal::{decimal, to_decimal};

verus! {

/// Why a worker identifier could not be taken from the configuration.
#[derive(Clone, Copy, Debug, PartialEq, Eq)]
pub enum ConfigError {
    /// No source gave a value.
    Missing,
    /// The text is not a decimal number.
    NotANumber,
    /// The number is larger than the largest worker identifier.
    OutOfRange,
}

/// Why a request for identifiers failed.
#[derive(Clone, Copy, Debug, PartialEq, Eq)]
pub enum GenerateError {
    /// The clock stayed behind the generator's last timestamp, or did not
    /// leave an exhausted millisecond, for the whole bounded wait.
    ClockDriftTimeout,
    /// The lock around the generator's state was poisoned by a panic.
    StatePoisoned,
}

/// Why a request was turned away before it reached the generator.
#[derive(Clone, Copy, Debug, PartialEq, Eq)]
pub enum RequestError {
    /// No identifier was asked for.
    ZeroCount,
    /// More identifiers were asked for than one request may have.
    TooMany,
}

impl ConfigError {
    /// A sentence for the operator.
    pub fn message(&self) -> (text: &'static str)
        ensures
            text@ == match *self {
                ConfigError::Missing => "worker id is not configured"@,
                ConfigError::NotANumber => "worker id is not a decimal number"@,
                ConfigError::OutOfRange => "worker id is out of range 0..=1023"@,
            },
    {
        match self {
            ConfigError::Missing => "worker id is not configured",
            ConfigError::NotANumber => "worker id is not a decimal number",
            ConfigError::OutOfRange => "worker id is out of range 0..=1023",
        }
    }
}

impl GenerateError {
    /// A sentence for the error body of a response.
    pub fn message(&self) -> (text: &'static str)
        ensures
            text@ == match *self {
                GenerateError::ClockDriftTimeout => "clock did not catch up in time, retry later"@,
                GenerateError::StatePoisoned => "generator state is poisoned"@,
            },
    {
        match self {
            GenerateError::ClockDriftTimeout => "clock did not catch up in time, retry later",
            GenerateError::StatePoisoned => "generator state is poisoned",
        }
    }
}

impl RequestError {
    /// A sentence for the client, given the most identifiers that one request
    /// may ask for.
    pub fn message(&self, limit: u64) -> (text: String)
        ensures
            text@ == match *self {
                RequestError::ZeroCount => "Count must be greater than or equal to 1"@,
                RequestError::TooMany => "Count must be less than or equal to "@ + decimal(
                    limit as nat,
                ),
            },
    {
        match self {
            RequestError::ZeroCount => String::from_str("Count must be greater than or equal to 1"),
            RequestError::TooMany => {
                let number = to_decimal(limit);
                String::from_str("Count must be less than or equal to ").concat(number.as_str())
            },
        }
    }
}

} // verus!
