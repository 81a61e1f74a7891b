use snowflake::layout::{
    extract_sequence, extract_timestamp, extract_worker_id, format_snowflake, SEQUENCE_MASK,
    TIMESTAMP_MASK, WORKER_ID_MASK,
};

#[test]
fn packs_the_three_fields_at_their_places() {
    let id = format_snowflake(5, 9, 1000);
    assert_eq!(id, (1000u64 << 22) | (5 << 12) | 9);
    assert_eq!(id, 4_194_324_489);
    assert_eq!(extract_timestamp(id), 1000);
    assert_eq!(extract_worker_id(id), 5);
    assert_eq!(extract_sequence(id), 9);
}

#[test]
fn zero_fields_pack_to_zero() {
    assert_eq!(format_snowflake(0, 0, 0), 0);
}

#[test]
fn largest_fields_fill_sixty_three_bits() {
    let id = format_snowflake(WORKER_ID_MASK, SEQUENCE_MASK, TIMESTAMP_MASK);
    assert_eq!(id, 0x7FFF_FFFF_FFFF_FFFF);
    assert_eq!(extract_timestamp(id), (1u64 << 41) - 1);
    assert_eq!(extract_worker_id(id), 1023);
    assert_eq!(extract_sequence(id), 4095);
}

#[test]
fn fields_round_trip_at_the_edges_of_their_ranges() {
    let workers = [0u64, 1, 42, 512, 1022, 1023];
    let sequences = [0u64, 1, 2048, 4094, 4095];
    let timestamps = [0u64, 1, 1_000_000, (1 << 40) + 17, (1 << 41) - 2, (1 << 41) - 1];
    for &worker in workers.iter() {
        for &sequence in sequences.iter() {
            for &timestamp in timestamps.iter() {
                let id = format_snowflake(worker, sequence, timestamp);
                assert_eq!(extract_worker_id(id), worker);
                assert_eq!(extract_sequence(id), sequence);
                assert_eq!(extract_timestamp(id), timestamp);
            }
        }
    }
}

#[test]
fn worker_id_above_its_width_is_truncated() {
    assert_eq!(format_snowflake(2048, 3, 77), format_snowflake(2048 & 0x3FF, 3, 77));
    assert_eq!(format_snowflake(2048, 3, 77), format_snowflake(0, 3, 77));
    assert_eq!(format_snowflake(1024 + 5, 3, 77), format_snowflake(5, 3, 77));
}

#[test]
fn sequence_above_its_width_is_truncated() {
    assert_eq!(format_snowflake(9, 8192, 77), format_snowflake(9, 8192 & 0xFFF, 77));
    assert_eq!(format_snowflake(9, 8192, 77), format_snowflake(9, 0, 77));
    assert_eq!(format_snowflake(9, 4096 + 11, 77), format_snowflake(9, 11, 77));
}

#[test]
fn timestamp_above_its_width_is_truncated() {
    assert_eq!(format_snowflake(9, 3, 1 << 41), format_snowflake(9, 3, 0));
    assert_eq!(format_snowflake(9, 3, (1 << 41) + 5), format_snowflake(9, 3, 5));
    assert_eq!(format_snowflake(9, 3, u64::MAX), format_snowflake(9, 3, TIMESTAMP_MASK));
}

#[test]
fn extraction_ignores_the_top_bit() {
    let id = (1u64 << 63) | format_snowflake(7, 8, 9);
    assert_eq!(extract_timestamp(id), 9);
    assert_eq!(extract_worker_id(id), 7);
    assert_eq!(extract_sequence(id), 8);
}

#[test]
fn identifiers_order_by_timestamp_then_sequence() {
    assert!(format_snowflake(1023, 4095, 10) < format_snowflake(1023, 0, 11));
    assert!(format_snowflake(3, 5, 10) < format_snowflake(3, 6, 10));
    assert!(format_snowflake(3, 4095, (1 << 41) - 2) < format_snowflake(3, 0, (1 << 41) - 1));
}
