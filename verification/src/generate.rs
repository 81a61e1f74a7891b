//! Issuing identifiers against the machine's clock.
//!
//! A request reads the wall clock, shows the reading to the generator, and
//! polls the clock again for as long as the generator says to wait, up to a
//! bounded time. A whole batch is issued under one `&mut` borrow of the state.

use vstd::prelude::*;
use crate::clock::{get_timestamp, Stopwatch};
use crate::decimal::{decimal, decimal_value, is_decimal, lemma_decimal_reads_back, to_decimal};
use crate::error::{GenerateError, RequestError};
use crate::generator::{increasing, GeneratorModel, GeneratorState};
use crate::layout::worker_id_of;
use crate::metrics::{bump, bump_by, Metrics};
use crate::request::{Poll, Request};

verus! {

/// Microseconds between two readings of the wall clock by a request that
/// waits.
pub const CLOCK_POLL_INTERVAL_US: u64 = 100;

/// The most readings of the wall clock that one request may take. A request
/// has at most two waits, of about a thousand readings each; the limit ends a
/// request on a monotonic clock that stands still.
pub const CLOCK_POLL_LIMIT: u64 = 4096;

/// The most identifiers that one request may ask for: what one worker can
/// issue in a second.
pub const MAX_IDS_PER_REQUEST: u64 = 4_096_000;

/// Each text is the canonical decimal text of the number at its place.
pub open spec fn written(texts: Seq<String>, numbers: Seq<nat>) -> bool {
    &&& texts.len() == numbers.len()
    &&& forall|i: int| 0 <= i < texts.len() ==> (#[trigger] texts[i])@ == decimal(numbers[i])
}

/// What a request for one identifier has done, given the clock readings that
/// it took, from the first to the last: every reading before the last was
/// waited out; the state has moved by the last reading, which issued the
/// identifier of a request that succeeded and was waited out by one that
/// failed; and the metrics are what the readings report.
pub open spec fn requested(
    before: GeneratorModel,
    after: GeneratorModel,
    metrics_before: Metrics,
    metrics_after: Metrics,
    res: Result<u64, GenerateError>,
    readings: Seq<nat>,
) -> bool {
    &&& readings.len() > 0
    &&& forall|i: int| 0 <= i < readings.len() - 1 ==> !before.accepts(#[trigger] readings[i])
    &&& after == before.after(readings.last())
    &&& metrics_after == before.reported(metrics_before, readings)
    &&& match res {
        Ok(id) => before.accepts(readings.last()) && id == after.current_id(),
        Err(e) => !before.accepts(readings.last()) && e == GenerateError::ClockDriftTimeout,
    }
}

/// What a request for `count` identifiers has done, given all the clock
/// readings that it took: the state and the metrics are what the run of those
/// readings leaves; a request that succeeded returns the identifiers that the
/// run issued, `count` of them, and its last reading issued the last; one
/// that failed had issued fewer, and its last reading was waited out.
pub open spec fn served(
    before: GeneratorModel,
    after: GeneratorModel,
    metrics_before: Metrics,
    metrics_after: Metrics,
    count: nat,
    res: Result<Vec<String>, GenerateError>,
    readings: Seq<nat>,
) -> bool {
    let ids = before.issued(readings);
    &&& after == before.run(readings)
    &&& metrics_after == before.reported(metrics_before, readings)
    &&& match res {
        Ok(texts) => ids.len() == count && written(texts@, ids) && before.pending(readings) is None,
        Err(e) => ids.len() < count && e == GenerateError::ClockDriftTimeout && before.pending(
            readings,
        ) is Some,
    }
}

/// What holds of every request for one identifier that was served from a
/// state whose fields fit. The used-up sequence is reported exactly once by a
/// request of which a reading fell into the exhausted millisecond, however
/// long it then waited, and not at all by any other; the first can only be a
/// request that found the state at the last sequence number. An identifier
/// that is issued is counted and shown in the sequence gauge; a request that
/// fails counts and shows nothing.
pub proof fn lemma_requested(
    before: GeneratorModel,
    after: GeneratorModel,
    metrics_before: Metrics,
    metrics_after: Metrics,
    res: Result<u64, GenerateError>,
    readings: Seq<nat>,
)
    requires
        before.wf(),
        requested(before, after, metrics_before, metrics_after, res, readings),
    ensures
        after.wf(),
        after == before.run(readings),
        metrics_after.sequence_exhausted_total == if before.exhausted_in(readings) {
            bump(metrics_before.sequence_exhausted_total)
        } else {
            metrics_before.sequence_exhausted_total
        },
        before.exhausted_in(readings) ==> before.sequence == 0xFFF,
        before.exhausted_in(readings) && res is Ok ==> after.sequence == 0 && after.last_timestamp
            > before.last_timestamp,
        metrics_after.ids_generated_total == if res is Ok {
            bump(metrics_before.ids_generated_total)
        } else {
            metrics_before.ids_generated_total
        },
        metrics_after.current_sequence == if res is Ok {
            after.sequence as u64
        } else {
            metrics_before.current_sequence
        },
        metrics_after.worker_id == metrics_before.worker_id,
        metrics_after.max_sequence_per_ms == metrics_before.max_sequence_per_ms,
{
    before.lemma_request(metrics_before, readings);
    before.lemma_reported(metrics_before, readings);
    before.lemma_after(readings.last());
}

/// What holds of every request for a batch that was served from a state whose
/// fields fit: each identifier carries the worker of the state and is counted;
/// each text of a batch that succeeded is decimal and reads back as its
/// identifier, which fits in 63 bits; and as long as the timestamps fit their
/// 41 bits, the identifiers increase, none is issued twice, and all are above
/// the identifier that stood for the state before.
pub proof fn lemma_served(
    before: GeneratorModel,
    after: GeneratorModel,
    metrics_before: Metrics,
    metrics_after: Metrics,
    count: nat,
    res: Result<Vec<String>, GenerateError>,
    readings: Seq<nat>,
)
    requires
        before.wf(),
        served(before, after, metrics_before, metrics_after, count, res, readings),
    ensures
        after.wf(),
        after.worker_id == before.worker_id,
        forall|i: int|
            0 <= i < before.issued(readings).len() ==> worker_id_of(
                #[trigger] before.issued(readings)[i],
            ) == before.worker_id && before.issued(readings)[i] < 0x8000_0000_0000_0000,
        res matches Ok(texts) ==> forall|i: int|
            0 <= i < texts@.len() ==> is_decimal((#[trigger] texts@[i])@) && decimal_value(
                texts@[i]@,
            ) == before.issued(readings)[i],
        after.last_timestamp <= 0x1FF_FFFF_FFFF ==> {
            &&& increasing(before.issued(readings))
            &&& before.issued(readings).no_duplicates()
            &&& forall|i: int|
                0 <= i < before.issued(readings).len() ==> before.current_id()
                    < #[trigger] before.issued(readings)[i]
        },
        metrics_after.ids_generated_total == bump_by(
            metrics_before.ids_generated_total,
            before.issued(readings).len(),
        ),
        metrics_after.current_sequence == if before.issued(readings).len() > 0 {
            after.sequence as u64
        } else {
            metrics_before.current_sequence
        },
        metrics_after.worker_id == metrics_before.worker_id,
        metrics_after.max_sequence_per_ms == metrics_before.max_sequence_per_ms,
        metrics_before.sequence_exhausted_total <= metrics_after.sequence_exhausted_total,
{
    before.lemma_run(readings);
    before.lemma_issued_worker(readings);
    before.lemma_reported(metrics_before, readings);
    if let Ok(texts) = res {
        assert forall|i: int| 0 <= i < texts@.len() implies is_decimal((#[trigger] texts@[i])@)
            && decimal_value(texts@[i]@) == before.issued(readings)[i] by {
            lemma_decimal_reads_back(before.issued(readings)[i]);
        }
    }
    if after.last_timestamp <= 0x1FF_FFFF_FFFF {
        before.lemma_issued_increasing(readings);
        before.lemma_issued_distinct(readings);
    }
}

/// Two requests served one after the other from one state, the first to its
/// end: together they are one run, and as long as the timestamps fit their 41
/// bits, every identifier of the second is above every identifier of the
/// first. Requests that hold the state by `&mut`, or under one lock, are
/// served one after the other.
pub proof fn lemma_served_in_turn(
    before: GeneratorModel,
    between: GeneratorModel,
    after: GeneratorModel,
    metrics_before: Metrics,
    metrics_between: Metrics,
    metrics_after: Metrics,
    first_count: nat,
    first: Result<Vec<String>, GenerateError>,
    first_readings: Seq<nat>,
    second_count: nat,
    second: Result<Vec<String>, GenerateError>,
    second_readings: Seq<nat>,
)
    requires
        before.wf(),
        first is Ok,
        served(
            before,
            between,
            metrics_before,
            metrics_between,
            first_count,
            first,
            first_readings,
        ),
        served(
            between,
            after,
            metrics_between,
            metrics_after,
            second_count,
            second,
            second_readings,
        ),
    ensures
        after == before.run(first_readings + second_readings),
        metrics_after == before.reported(metrics_before, first_readings + second_readings),
        before.issued(first_readings + second_readings) == before.issued(first_readings)
            + between.issued(second_readings),
        after.last_timestamp <= 0x1FF_FFFF_FFFF ==> forall|i: int, j: int|
            0 <= i < before.issued(first_readings).len() && 0 <= j < between.issued(
                second_readings,
            ).len() ==> #[trigger] before.issued(first_readings)[i] < #[trigger] between.issued(
                second_readings,
            )[j],
{
    let all = first_readings + second_readings;
    before.lemma_run_joined(first_readings, second_readings);
    before.lemma_requests_joined(metrics_before, first_readings, second_readings);
    if after.last_timestamp <= 0x1FF_FFFF_FFFF {
        before.lemma_issued_increasing(all);
        let ids = before.issued(all);
        let earlier = before.issued(first_readings);
        let later = between.issued(second_readings);
        assert forall|i: int, j: int| 0 <= i < earlier.len() && 0 <= j < later.len() implies earlier[i]
            < later[j] by {
            assert(ids[i] == earlier[i]);
            assert(ids[earlier.len() + j] == later[j]);
        }
    }
}

/// Admits a request for `count` identifiers when it asks for at least one and
/// for no more than `limit`.
pub fn admit_count(count: u64, limit: u64) -> (res: Result<(), RequestError>)
    ensures
        res is Ok <==> 1 <= count <= limit,
        res == Err::<(), RequestError>(RequestError::ZeroCount) <==> count == 0,
        res == Err::<(), RequestError>(RequestError::TooMany) <==> count > limit && count != 0,
{
    if count == 0 {
        Err(RequestError::ZeroCount)
    } else if count > limit {
        Err(RequestError::TooMany)
    } else {
        Ok(())
    }
}

/// Issues one identifier.
///
/// The clock is read until the generator accepts a reading. A reading behind
/// the last timestamp is waited out until the clock has caught up; a reading
/// in a millisecond whose sequence is used up is waited out until the clock
/// has left that millisecond. While it waits, the request reads the clock
/// every `CLOCK_POLL_INTERVAL_US`; either wait fails after
/// `CLOCK_WAIT_TIMEOUT_MS` on the monotonic clock.
///
/// A state that accepts every reading is served whatever the clock gives. On
/// success the state has moved by the one accepted reading, which is its new
/// last timestamp, and the identifier is the one that stands for the new
/// state. On failure the state is unchanged. The metrics are what the
/// readings of the request report: see `requested` and `lemma_requested`.
pub fn generate_snowflake(state: &mut GeneratorState, metrics: &mut Metrics) -> (res: Result<
    u64,
    GenerateError,
>)
    ensures
        old(state)@.wf(),
        final(state)@.wf(),
        old(state)@.accepts_any() ==> res is Ok,
        match res {
            Ok(id) => {
                &&& old(state)@.accepts(final(state)@.last_timestamp)
                &&& final(state)@ == old(state)@.issue(final(state)@.last_timestamp)
                &&& id == final(state)@.current_id()
            },
            Err(e) => e == GenerateError::ClockDriftTimeout && final(state)@ == old(state)@,
        },
        exists|readings: Seq<nat>|
            requested(
                old(state)@,
                final(state)@,
                *old(metrics),
                *final(metrics),
                res,
                readings,
            ),
{
    let ghost start = state@;
    let ghost metrics_start = *metrics;
    let ghost mut readings: Seq<nat> = Seq::empty();
    let mut request = Request::new();
    let stopwatch = Stopwatch::start();
    let mut polls: u64 = 0;
    state.fits();
    while polls < CLOCK_POLL_LIMIT
        invariant
            start == old(state)@,
            metrics_start == *old(metrics),
            start.wf(),
            state@ == start,
            start.accepts_any() ==> polls == 0,
            polls == readings.len(),
            forall|i: int| 0 <= i < readings.len() ==> !start.accepts(#[trigger] readings[i]),
            start.run(readings) == start,
            request.waiting == start.pending(readings),
            *metrics == start.reported(metrics_start, readings),
        decreases CLOCK_POLL_LIMIT - polls,
    {
        let now = get_timestamp();
        let elapsed = stopwatch.elapsed_millis();
        proof {
            request.lemma_poll_follows_run(start, metrics_start, readings, now as nat, elapsed);
            readings = readings.push(now as nat);
        }
        let poll = request.poll(state, metrics, now, elapsed);
        match poll {
            Poll::Issued(id) => {
                assert(requested(start, state@, metrics_start, *metrics, Ok(id), readings));
                return Ok(id);
            },
            Poll::TimedOut => {
                let res = Err(GenerateError::ClockDriftTimeout);
                assert(requested(start, state@, metrics_start, *metrics, res, readings));
                return res;
            },
            Poll::Pending => {
                stopwatch.pause(CLOCK_POLL_INTERVAL_US);
                polls = polls + 1;
            },
        }
    }
    let res = Err(GenerateError::ClockDriftTimeout);
    assert(requested(start, state@, metrics_start, *metrics, res, readings));
    res
}

/// Issues `count` identifiers and returns them as decimal text, in the order
/// of issue.
///
/// The batch is all or nothing for the caller: when the clock fails one of
/// its identifiers, the error is returned alone, and the state stays where the
/// identifiers issued before it have moved it. A batch of none succeeds, and
/// so does a batch of one on a state that accepts every reading. See `served`
/// for what holds of the result, and `lemma_served` and the laws of
/// `GeneratorModel` for what follows from it.
pub fn generate(state: &mut GeneratorState, metrics: &mut Metrics, count: u64) -> (res: Result<
    Vec<String>,
    GenerateError,
>)
    ensures
        old(state)@.wf(),
        final(state)@.wf(),
        count == 0 || (count == 1 && old(state)@.accepts_any()) ==> res is Ok,
        exists|readings: Seq<nat>|
            served(
                old(state)@,
                final(state)@,
                *old(metrics),
                *final(metrics),
                count as nat,
                res,
                readings,
            ),
{
    let ghost start = state@;
    let ghost metrics_start = *metrics;
    let ghost mut readings: Seq<nat> = Seq::empty();
    let mut texts: Vec<String> = Vec::new();
    let mut issued: u64 = 0;
    state.fits();
    while issued < count
        invariant
            issued <= count,
            start == old(state)@,
            metrics_start == *old(metrics),
            start.wf(),
            state@.wf(),
            issued == 0 ==> state@ == start,
            served(start, state@, metrics_start, *metrics, issued as nat, Ok(texts), readings),
        decreases count - issued,
    {
        let ghost before = state@;
        let ghost metrics_before = *metrics;
        let one = generate_snowflake(state, metrics);
        proof {
            let taken = choose|taken: Seq<nat>|
                requested(before, state@, metrics_before, *metrics, one, taken);
            before.lemma_request(metrics_before, taken);
            start.lemma_run_joined(readings, taken);
            start.lemma_requests_joined(metrics_start, readings, taken);
            readings = readings + taken;
        }
        match one {
            Ok(id) => {
                let text = to_decimal(id);
                texts.push(text);
                issued = issued + 1;
            },
            Err(e) => {
                assert(served(
                    start,
                    state@,
                    metrics_start,
                    *metrics,
                    count as nat,
                    Err(e),
                    readings,
                ));
                return Err(e);
            },
        }
    }
    Ok(texts)
}

} // verus!
