use snowflake::error::{ConfigError, GenerateError};
use snowflake::generator::GeneratorState;
use snowflake::layout::{extract_sequence, extract_timestamp, extract_worker_id};
use snowflake::metrics::Metrics;
use snowflake::shared::{Guarded, SharedGenerator};
use snowflake::{generate_snowflake, get_timestamp};
use std::collections::HashSet;

#[test]
fn shared_generator_keeps_its_worker() {
    let shared = SharedGenerator::new(1023).unwrap();
    assert_eq!(shared.worker_id(), 1023);
    assert_eq!(shared.metrics(), Ok(Metrics::new(1023)));
    assert_eq!(SharedGenerator::new(0).unwrap().worker_id(), 0);
}

#[test]
fn shared_generator_refuses_a_worker_out_of_range() {
    assert_eq!(SharedGenerator::new(1024).err(), Some(ConfigError::OutOfRange));
}

#[test]
fn shared_batches_never_repeat_an_identifier() {
    let shared = SharedGenerator::new(5).unwrap();
    let mut seen = HashSet::new();
    let mut last = 0u64;
    for round in 0..10u64 {
        let ids = shared.generate(200 + round).unwrap();
        assert_eq!(ids.len() as u64, 200 + round);
        for text in ids.iter() {
            let id = text.parse::<u64>().unwrap();
            assert_eq!(extract_worker_id(id), 5);
            assert!(id > last);
            assert!(seen.insert(id));
            last = id;
        }
    }
    let metrics = shared.metrics().unwrap();
    assert_eq!(metrics.ids_generated_total, seen.len() as u64);
    assert_eq!(metrics.worker_id, 5);
    assert_eq!(metrics.current_sequence, extract_sequence(last));
}

#[test]
fn shared_generator_goes_on_from_a_given_state() {
    let mut state = GeneratorState::new(8).unwrap();
    let mut metrics = Metrics::new(8);
    let first = generate_snowflake(&mut state, &mut metrics).unwrap();
    let shared = SharedGenerator::from_state(state);
    assert_eq!(shared.worker_id(), 8);
    let ids = shared.generate(3).unwrap();
    let second = ids[0].parse::<u64>().unwrap();
    assert!(second > first);
    assert_eq!(shared.metrics().unwrap().ids_generated_total, 3);
}

#[test]
fn shared_batch_fails_when_the_clock_is_far_behind() {
    let ahead = get_timestamp() + 3_600_000;
    let shared = SharedGenerator::from_state(GeneratorState::resume(2, 0, ahead).unwrap());
    assert_eq!(shared.generate(4), Err(GenerateError::ClockDriftTimeout));
    assert_eq!(shared.metrics(), Ok(Metrics::new(2)));
    assert_eq!(shared.generate(0), Ok(Vec::new()));
}

#[test]
fn shared_batch_of_one_is_stamped_with_the_clock() {
    let shared = SharedGenerator::new(77).unwrap();
    let before = get_timestamp();
    let ids = shared.generate(1).unwrap();
    let after = get_timestamp();
    assert_eq!(ids.len(), 1);
    let id = ids[0].parse::<u64>().unwrap();
    assert!(before <= extract_timestamp(id) && extract_timestamp(id) <= after);
    assert_eq!(extract_sequence(id), 0);
}

#[test]
fn shared_metrics_carry_the_fixed_gauges_of_the_generator() {
    let shared = SharedGenerator::new(600).unwrap();
    shared.generate(5).unwrap();
    let metrics = shared.metrics().unwrap();
    assert_eq!(metrics.worker_id, 600);
    assert_eq!(metrics.max_sequence_per_ms, 4096);
    assert_eq!(metrics.ids_generated_total, 5);
}

#[test]
fn report_sets_the_fixed_gauges_for_the_worker() {
    let mut held = Metrics::new(3);
    held.ids_generated_total = 10;
    held.sequence_exhausted_total = 2;
    held.current_sequence = 7;
    held.max_sequence_per_ms = 1;
    let guarded = Guarded::new(GeneratorState::new(3).unwrap(), held);
    let metrics = guarded.report(9);
    assert_eq!(metrics.worker_id, 9);
    assert_eq!(metrics.max_sequence_per_ms, 4096);
    assert_eq!(metrics.ids_generated_total, 10);
    assert_eq!(metrics.sequence_exhausted_total, 2);
    assert_eq!(metrics.current_sequence, 7);
}

#[test]
fn state_of_another_worker_is_poisoned() {
    let mut guarded = Guarded::new(GeneratorState::new(3).unwrap(), Metrics::new(3));
    assert_eq!(guarded.serve(4, 2), Err(GenerateError::StatePoisoned));
    assert_eq!(guarded.serve(4, 0), Err(GenerateError::StatePoisoned));
    assert_eq!(guarded.report(3), Metrics::new(3));
    let ids = guarded.serve(3, 2).unwrap();
    assert_eq!(ids.len(), 2);
    for text in ids.iter() {
        assert_eq!(extract_worker_id(text.parse::<u64>().unwrap()), 3);
    }
    assert_eq!(extract_sequence(ids[0].parse::<u64>().unwrap()), 0);
    assert_eq!(guarded.report(3).ids_generated_total, 2);
}

#[test]
fn serving_without_a_clock_that_catches_up_times_out() {
    let ahead = get_timestamp() + 3_600_000;
    let state = GeneratorState::resume(6, 1, ahead).unwrap();
    let mut guarded = Guarded::new(state, Metrics::new(6));
    assert_eq!(guarded.serve(6, 1), Err(GenerateError::ClockDriftTimeout));
    assert_eq!(guarded.report(6), Metrics::new(6));
}
