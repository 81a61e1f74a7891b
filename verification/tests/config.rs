use snowflake::config::{parse_worker_id, resolve_worker_id, worker_id_from_instance_name};
use snowflake::error::ConfigError;
use snowflake::generator::GeneratorState;

#[test]
fn lowest_and_highest_worker_ids_are_accepted() {
    assert_eq!(parse_worker_id("0"), Ok(0));
    assert_eq!(parse_worker_id("1023"), Ok(1023));
    assert_eq!(GeneratorState::new(0).unwrap().worker_id(), 0);
    assert_eq!(GeneratorState::new(1023).unwrap().worker_id(), 1023);
}

#[test]
fn worker_id_past_the_highest_is_out_of_range() {
    assert_eq!(parse_worker_id("1024"), Err(ConfigError::OutOfRange));
    assert_eq!(parse_worker_id("4096"), Err(ConfigError::OutOfRange));
    assert_eq!(GeneratorState::new(1024).err(), Some(ConfigError::OutOfRange));
    assert_eq!(GeneratorState::new(u64::MAX).err(), Some(ConfigError::OutOfRange));
}

#[test]
fn number_too_large_for_any_integer_is_out_of_range() {
    assert_eq!(parse_worker_id("18446744073709551616"), Err(ConfigError::OutOfRange));
    assert_eq!(
        parse_worker_id("99999999999999999999999999999999999999999999"),
        Err(ConfigError::OutOfRange)
    );
}

#[test]
fn text_that_is_no_number_is_a_parse_error() {
    assert_eq!(parse_worker_id("abc"), Err(ConfigError::NotANumber));
    assert_eq!(parse_worker_id(""), Err(ConfigError::NotANumber));
    assert_eq!(parse_worker_id("12a"), Err(ConfigError::NotANumber));
    assert_eq!(parse_worker_id("a12"), Err(ConfigError::NotANumber));
    assert_eq!(parse_worker_id(" 12"), Err(ConfigError::NotANumber));
    assert_eq!(parse_worker_id("12 "), Err(ConfigError::NotANumber));
    assert_eq!(parse_worker_id("-1"), Err(ConfigError::NotANumber));
    assert_eq!(parse_worker_id("1.5"), Err(ConfigError::NotANumber));
    assert_eq!(parse_worker_id("0x10"), Err(ConfigError::NotANumber));
    assert_eq!(parse_worker_id("١٢"), Err(ConfigError::NotANumber));
    assert_eq!(parse_worker_id("12é"), Err(ConfigError::NotANumber));
    assert_eq!(parse_worker_id("99999999999999999999999x"), Err(ConfigError::NotANumber));
}

#[test]
fn plus_sign_before_the_digits_is_accepted() {
    assert_eq!(parse_worker_id("+7"), Ok(7));
    assert_eq!(parse_worker_id("+1024"), Err(ConfigError::OutOfRange));
    assert_eq!(parse_worker_id("+"), Err(ConfigError::NotANumber));
    assert_eq!(parse_worker_id("++7"), Err(ConfigError::NotANumber));
    assert_eq!(parse_worker_id("7+"), Err(ConfigError::NotANumber));
}

#[test]
fn leading_zeros_do_not_change_the_number() {
    assert_eq!(parse_worker_id("007"), Ok(7));
    assert_eq!(parse_worker_id("0000000000000000000000001023"), Ok(1023));
    assert_eq!(parse_worker_id("0000000000000000000000001024"), Err(ConfigError::OutOfRange));
}

#[test]
fn instance_name_gives_the_number_that_ends_it() {
    assert_eq!(worker_id_from_instance_name("ids-7"), Ok(7));
    assert_eq!(worker_id_from_instance_name("snowflake-0"), Ok(0));
    assert_eq!(worker_id_from_instance_name("snowflake-1023"), Ok(1023));
    assert_eq!(worker_id_from_instance_name("node12"), Ok(12));
    assert_eq!(worker_id_from_instance_name("rack3-node-004"), Ok(4));
    assert_eq!(worker_id_from_instance_name("42"), Ok(42));
    assert_eq!(worker_id_from_instance_name("zürich-5"), Ok(5));
}

#[test]
fn instance_name_without_a_number_at_its_end_is_a_parse_error() {
    assert_eq!(worker_id_from_instance_name("ids"), Err(ConfigError::NotANumber));
    assert_eq!(worker_id_from_instance_name(""), Err(ConfigError::NotANumber));
    assert_eq!(worker_id_from_instance_name("ids-7-"), Err(ConfigError::NotANumber));
    assert_eq!(worker_id_from_instance_name("7-ids"), Err(ConfigError::NotANumber));
    assert_eq!(worker_id_from_instance_name("ids-٣"), Err(ConfigError::NotANumber));
}

#[test]
fn instance_name_with_too_large_a_number_is_out_of_range() {
    assert_eq!(worker_id_from_instance_name("ids-1024"), Err(ConfigError::OutOfRange));
    assert_eq!(
        worker_id_from_instance_name("ids-123456789012345678901234567890"),
        Err(ConfigError::OutOfRange)
    );
}

#[test]
fn explicit_value_is_taken_before_the_instance_name() {
    assert_eq!(resolve_worker_id(Some("5"), Some("ids-7")), Ok(5));
    assert_eq!(resolve_worker_id(Some("5"), None), Ok(5));
    assert_eq!(resolve_worker_id(None, Some("ids-7")), Ok(7));
}

#[test]
fn bad_explicit_value_is_not_replaced_by_the_instance_name() {
    assert_eq!(resolve_worker_id(Some("abc"), Some("ids-7")), Err(ConfigError::NotANumber));
    assert_eq!(resolve_worker_id(Some("1024"), Some("ids-7")), Err(ConfigError::OutOfRange));
}

#[test]
fn configuration_without_any_source_is_missing() {
    assert_eq!(resolve_worker_id(None, None), Err(ConfigError::Missing));
}

#[test]
fn each_config_error_has_its_own_message() {
    let missing = ConfigError::Missing.message();
    let not_a_number = ConfigError::NotANumber.message();
    let out_of_range = ConfigError::OutOfRange.message();
    assert_eq!(missing, "worker id is not configured");
    assert_eq!(not_a_number, "worker id is not a decimal number");
    assert_eq!(out_of_range, "worker id is out of range 0..=1023");
}
