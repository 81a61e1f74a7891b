//! The clocks of the machine, and the generator's own epoch.
//!
//! Timestamps count milliseconds from a fixed instant in January 2024.
//! What the clocks return is not known to the verifier: the functions that
//! read them are declared here with no promise about the result.

use vstd::prelude::*;

verus! {

/// Milliseconds from the Unix epoch to the instant that timestamps count from.
pub const UNIX_EPOCH_OFFSET: u64 = 1705065354064;

/// `std::time::SystemTime`, a reading of the wall clock. Nothing is known of
/// what a value holds.
#[verifier::external_type_specification]
#[verifier::external_body]
pub struct ExSystemTime(std::time::SystemTime);

/// `std::time::SystemTimeError`, returned when one wall-clock reading is asked
/// how far it is past a later one. Nothing is known of what a value holds.
#[verifier::external_type_specification]
#[verifier::external_body]
pub struct ExSystemTimeError(std::time::SystemTimeError);

/// `std::time::Instant`, a reading of the monotonic clock. Nothing is known of
/// what a value holds.
#[verifier::external_type_specification]
#[verifier::external_body]
pub struct ExInstant(std::time::Instant);

/// `SystemTime::now` reads the wall clock. It returns; nothing is claimed of
/// the reading.
pub assume_specification[ std::time::SystemTime::now ]() -> (now: std::time::SystemTime);

/// Calls `SystemTime::duration_since` with `std::time::UNIX_EPOCH` as the
/// earlier instant: the time from the Unix epoch to `time`, or an error when
/// `time` is before the Unix epoch. It returns; nothing is claimed of the
/// result.
#[verifier::external_body]
fn since_unix_epoch(time: &std::time::SystemTime) -> (elapsed: Result<
    std::time::Duration,
    std::time::SystemTimeError,
>) {
    time.duration_since(std::time::UNIX_EPOCH)
}

/// `Duration::as_millis` gives a duration in whole milliseconds. It returns;
/// nothing is claimed of the number.
pub assume_specification[ std::time::Duration::as_millis ](
    duration: &std::time::Duration,
) -> (millis: u128);

/// `Duration::as_micros` gives a duration in whole microseconds. It returns;
/// nothing is claimed of the number.
pub assume_specification[ std::time::Duration::as_micros ](
    duration: &std::time::Duration,
) -> (micros: u128);

/// `Instant::now` reads the monotonic clock. It returns; nothing is claimed of
/// the reading.
pub assume_specification[ std::time::Instant::now ]() -> (now: std::time::Instant);

/// `Instant::elapsed` gives the time since the reading was taken. It returns;
/// nothing is claimed of the result.
pub assume_specification[ std::time::Instant::elapsed ](
    start: &std::time::Instant,
) -> (elapsed: std::time::Duration);

/// `std::hint::spin_loop` tells the processor that the caller is polling. It
/// returns and changes nothing that the program can see.
pub assume_specification[ std::hint::spin_loop ]();

/// The most turns that one pause may spin. A turn reads the monotonic clock,
/// so a pause of a fraction of a millisecond ends long before; the limit ends
/// a pause on a clock that stands still.
pub const PAUSE_SPIN_LIMIT: u64 = 1_000_000;

/// A stopwatch on the monotonic clock.
pub(crate) struct Stopwatch {
    started: std::time::Instant,
}

impl Stopwatch {
    /// A stopwatch that starts now.
    pub(crate) fn start() -> Stopwatch {
        Stopwatch { started: std::time::Instant::now() }
    }

    /// The whole milliseconds since the start.
    pub(crate) fn elapsed_millis(&self) -> u128 {
        self.started.elapsed().as_millis()
    }

    /// Lets the given number of microseconds pass, spinning.
    pub(crate) fn pause(&self, micros: u64) {
        let begun = self.started.elapsed().as_micros();
        let mut spins: u64 = 0;
        while spins < PAUSE_SPIN_LIMIT
            decreases PAUSE_SPIN_LIMIT - spins,
        {
            let now = self.started.elapsed().as_micros();
            if now < begun || now - begun >= micros as u128 {
                return;
            }
            std::hint::spin_loop();
            spins = spins + 1;
        }
    }
}

/// The timestamp that stands for a wall-clock reading, given in milliseconds
/// since the Unix epoch. A reading before the generator's epoch, or one too
/// large for 64 bits, stands as timestamp zero.
pub open spec fn timestamp_at(unix_millis: nat) -> nat {
    if UNIX_EPOCH_OFFSET <= unix_millis <= u64::MAX {
        (unix_millis - UNIX_EPOCH_OFFSET) as nat
    } else {
        0
    }
}

/// Converts a wall-clock reading in milliseconds since the Unix epoch to a
/// timestamp.
pub fn timestamp_from_unix_millis(unix_millis: u128) -> (timestamp: u64)
    ensures
        timestamp == timestamp_at(unix_millis as nat),
{
    if unix_millis > u64::MAX as u128 {
        0
    } else {
        let millis: u64 = unix_millis as u64;
        if millis >= UNIX_EPOCH_OFFSET {
            millis - UNIX_EPOCH_OFFSET
        } else {
            0
        }
    }
}

/// Reads the wall clock and returns the current timestamp. A clock that
/// cannot be read, because it stands before the Unix epoch, gives timestamp
/// zero. Two calls may return anything in any order: the generator is what
/// makes timestamps monotonic.
pub fn get_timestamp() -> (timestamp: u64)
    ensures
        timestamp + UNIX_EPOCH_OFFSET <= u64::MAX,
{
    let now = std::time::SystemTime::now();
    let reading = match since_unix_epoch(&now) {
        Ok(since_epoch) => Some(since_epoch.as_millis()),
        Err(_) => None,
    };
    timestamp_from_reading(reading)
}

/// The timestamp that stands for what the wall clock gave: the timestamp of
/// the reading, or zero where the clock gave none.
pub open spec fn timestamp_of_reading(reading: Option<u128>) -> nat {
    match reading {
        Some(unix_millis) => timestamp_at(unix_millis as nat),
        None => 0,
    }
}

/// Converts what the wall clock gave, a reading in milliseconds since the
/// Unix epoch or none, to a timestamp.
pub fn timestamp_from_reading(reading: Option<u128>) -> (timestamp: u64)
    ensures
        timestamp == timestamp_of_reading(reading),
{
    match reading {
        Some(unix_millis) => timestamp_from_unix_millis(unix_millis),
        None => 0,
    }
}

} // verus!
