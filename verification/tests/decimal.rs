use snowflake::decimal::to_decimal;

#[test]
fn zero_is_one_digit() {
    assert_eq!(to_decimal(0), "0");
}

#[test]
fn single_digits_are_written_alone() {
    for n in 0u64..10 {
        assert_eq!(to_decimal(n), n.to_string());
    }
}

#[test]
fn largest_number_has_twenty_digits() {
    assert_eq!(to_decimal(u64::MAX), "18446744073709551615");
}

#[test]
fn powers_of_ten_keep_their_zeros() {
    assert_eq!(to_decimal(10), "10");
    assert_eq!(to_decimal(1000), "1000");
    assert_eq!(to_decimal(10_000_000_000_000_000_000), "10000000000000000000");
    assert_eq!(to_decimal(1_000_000_007), "1000000007");
}

#[test]
fn decimal_text_reads_back_as_the_number() {
    let numbers = [0u64, 7, 42, 4095, 4096, 1 << 22, (1 << 63) - 1, 1 << 63, u64::MAX - 1];
    for &n in numbers.iter() {
        let text = to_decimal(n);
        assert_eq!(text.parse::<u64>().unwrap(), n);
        assert_eq!(text, n.to_string());
    }
}
