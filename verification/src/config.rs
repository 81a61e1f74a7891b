//! The worker identifier, as the configuration gives it.
//!
//! It is written out as a decimal number, or it is the number that ends the
//! name of the instance (`ids-7` runs as worker 7). A number above 1023 is out
//! of range.

use vstd::prelude::*;
use vstd::string::StrSliceExecFns;
use crate::decimal::{decimal_value, digit_value, is_decimal, is_digit};
use crate::error::ConfigError;
use crate::layout::WORKER_ID_MASK;

verus! {

/// The text writes a number: digits, with or without a `+` before them.
pub open spec fn is_number(text: Seq<char>) -> bool {
    is_decimal(text) || (text.len() > 0 && text[0] == '+' && is_decimal(text.skip(1)))
}

/// The number that such a text writes.
pub open spec fn number_value(text: Seq<char>) -> nat {
    if text.len() > 0 && text[0] == '+' {
        decimal_value(text.skip(1))
    } else {
        decimal_value(text)
    }
}

/// A number as a worker identifier.
pub open spec fn worker_id_in_range(value: nat) -> Result<u64, ConfigError> {
    if value <= 0x3FF {
        Ok(value as u64)
    } else {
        Err(ConfigError::OutOfRange)
    }
}

/// The worker identifier that a text gives.
pub open spec fn worker_id_of_text(text: Seq<char>) -> Result<u64, ConfigError> {
    if is_number(text) {
        worker_id_in_range(number_value(text))
    } else {
        Err(ConfigError::NotANumber)
    }
}

/// How many digits end the text.
pub open spec fn digits_at_end(text: Seq<char>) -> nat
    decreases text.len(),
{
    if text.len() > 0 && is_digit(text.last()) {
        1 + digits_at_end(text.drop_last())
    } else {
        0
    }
}

/// The worker identifier that the name of an instance gives: the number made
/// of all the digits that end the name.
pub open spec fn worker_id_of_name(name: Seq<char>) -> Result<u64, ConfigError> {
    let digits = name.skip(name.len() - digits_at_end(name));
    if is_decimal(digits) {
        worker_id_in_range(decimal_value(digits))
    } else {
        Err(ConfigError::NotANumber)
    }
}

/// The worker identifier that the configuration gives: the explicit value
/// where there is one, whatever it holds, else the one in the instance name.
pub open spec fn configured_worker_id(
    explicit: Option<Seq<char>>,
    instance_name: Option<Seq<char>>,
) -> Result<u64, ConfigError> {
    match explicit {
        Some(text) => worker_id_of_text(text),
        None => match instance_name {
            Some(name) => worker_id_of_name(name),
            None => Err(ConfigError::Missing),
        },
    }
}

/// A number, or 1024 in place of any number above 1023.
spec fn capped(value: nat) -> nat {
    if value <= 0x3FF {
        value
    } else {
        0x400
    }
}

/// Reads a run of digits. The result is `None` when the text is not decimal,
/// else its value, with 1024 in place of any value above 1023.
fn read_digits(text: &str) -> (value: Option<u64>)
    ensures
        match value {
            Some(v) => is_decimal(text@) && v == capped(decimal_value(text@)),
            None => !is_decimal(text@),
        },
{
    broadcast use vstd::string::is_ascii_spec_bytes;

    if !text.is_ascii() {
        return None;
    }
    let bytes = text.as_bytes();
    let len = bytes.len();
    if len == 0 {
        return None;
    }
    let mut value: u64 = 0;
    let mut i: usize = 0;
    while i < len
        invariant
            i <= len,
            len == bytes@.len(),
            len == text@.len(),
            forall|k: int| 0 <= k < len ==> bytes@[k] == #[trigger] text@[k] as u8,
            forall|k: int| 0 <= k < len ==> '\0' <= #[trigger] text@[k] <= '\u{7f}',
            forall|k: int| 0 <= k < i ==> is_digit(#[trigger] text@[k]),
            value == capped(decimal_value(text@.take(i as int))),
        decreases len - i,
    {
        let byte = bytes[i];
        if byte < 48 || byte > 57 {
            assert(!is_digit(text@[i as int]));
            return None;
        }
        assert(text@.take(i + 1).drop_last() =~= text@.take(i as int));
        value = value * 10 + (byte - 48) as u64;
        if value > WORKER_ID_MASK {
            value = WORKER_ID_MASK + 1;
        }
        i = i + 1;
    }
    assert(text@.take(len as int) =~= text@);
    Some(value)
}

fn in_range(value: u64) -> (res: Result<u64, ConfigError>)
    requires
        value <= 0x400,
    ensures
        forall|n: nat| capped(n) == value ==> res == worker_id_in_range(n),
{
    if value <= WORKER_ID_MASK {
        Ok(value)
    } else {
        Err(ConfigError::OutOfRange)
    }
}

/// Reads a worker identifier written as a decimal number.
pub fn parse_worker_id(text: &str) -> (res: Result<u64, ConfigError>)
    ensures
        res == worker_id_of_text(text@),
{
    let len = text.unicode_len();
    let digits = if len > 0 && text.get_char(0) == '+' {
        text.substring_char(1, len)
    } else {
        text
    };
    match read_digits(digits) {
        Some(value) => in_range(value),
        None => Err(ConfigError::NotANumber),
    }
}

/// Reads the worker identifier that ends the name of an instance.
pub fn worker_id_from_instance_name(name: &str) -> (res: Result<u64, ConfigError>)
    ensures
        res == worker_id_of_name(name@),
{
    let len = name.unicode_len();
    let mut start: usize = len;
    assert(name@.take(len as int) =~= name@);
    while start > 0 && is_digit_char(name.get_char(start - 1))
        invariant
            start <= len,
            len == name@.len(),
            digits_at_end(name@) == digits_at_end(name@.take(start as int)) + (len - start),
        decreases start,
    {
        assert(name@.take(start as int).drop_last() =~= name@.take(start - 1));
        start = start - 1;
    }
    let digits = name.substring_char(start, len);
    match read_digits(digits) {
        Some(value) => in_range(value),
        None => Err(ConfigError::NotANumber),
    }
}

fn is_digit_char(c: char) -> (res: bool)
    ensures
        res == is_digit(c),
{
    '0' <= c && c <= '9'
}

/// Settles the worker identifier from what the configuration holds: the
/// explicit value where there is one, else the instance name.
pub fn resolve_worker_id(explicit: Option<&str>, instance_name: Option<&str>) -> (res: Result<
    u64,
    ConfigError,
>)
    ensures
        res == configured_worker_id(
            match explicit {
                Some(text) => Some(text@),
                None => None,
            },
            match instance_name {
                Some(name) => Some(name@),
                None => None,
            },
        ),
{
    match explicit {
        Some(text) => parse_worker_id(text),
        None => match instance_name {
            Some(name) => worker_id_from_instance_name(name),
            None => Err(ConfigError::Missing),
        },
    }
}

} // verus!
