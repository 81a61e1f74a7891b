//! One generator for many threads.
//!
//! The state and its metrics sit behind a lock. A request holds the lock from
//! its first identifier to its last, so the readings of two requests never
//! interleave. What the lock holds is not known to the verifier: `Guarded`
//! says what a request does with whatever it finds there.

use vstd::prelude::*;
use crate::error::{ConfigError, GenerateError};
use crate::generate::{generate, served, written};
use crate::generator::{GeneratorModel, GeneratorState};
use crate::metrics::{Metrics, MAX_SEQUENCE_PER_MS};

verus! {

/// `std::sync::Mutex`, a lock around a value. Nothing is known of the value
/// that it holds.
#[verifier::external_type_specification]
#[verifier::external_body]
#[verifier::reject_recursive_types(T)]
pub struct ExMutex<T: ?Sized>(std::sync::Mutex<T>);

/// `std::sync::MutexGuard`, the right to the value of a lock that is held.
/// Nothing is known of the value.
#[verifier::external_type_specification]
#[verifier::external_body]
#[verifier::reject_recursive_types(T)]
pub struct ExMutexGuard<'a, T: ?Sized + 'a>(std::sync::MutexGuard<'a, T>);

/// `std::sync::PoisonError`, returned in place of the guard of a lock that a
/// thread held when it panicked.
#[verifier::external_type_specification]
#[verifier::external_body]
#[verifier::reject_recursive_types(T)]
pub struct ExPoisonError<T>(std::sync::PoisonError<T>);

/// `Mutex::new` makes a lock that is free and holds the value. It returns;
/// nothing is claimed of the lock.
pub assume_specification<T>[ std::sync::Mutex::<T>::new ](value: T) -> (lock: std::sync::Mutex<T>);

/// `DerefMut::deref_mut` of a guard lends the value that the lock holds. It
/// returns; nothing is claimed of the value.
pub assume_specification<'a, 'b, T: ?Sized>[ <std::sync::MutexGuard<
    'a,
    T,
> as core::ops::DerefMut>::deref_mut ](guard: &'b mut std::sync::MutexGuard<'a, T>) -> (value:
    &'b mut T);

/// What the lock holds.
pub struct Guarded {
    state: GeneratorState,
    metrics: Metrics,
}

/// A generator that any number of threads may use at once.
pub struct SharedGenerator {
    worker_id: u64,
    guarded: std::sync::Mutex<Guarded>,
}

/// Calls `Mutex::lock`, which blocks until the lock is free and returns its
/// guard, or an error when a thread panicked while it held the lock. It
/// returns: the lock is a private field, and no guard outlives the function
/// that took it, so the calling thread never holds the lock already. Nothing
/// is claimed of the result.
#[verifier::external_body]
fn acquire<'a>(lock: &'a std::sync::Mutex<Guarded>) -> (guard: Result<
    std::sync::MutexGuard<'a, Guarded>,
    std::sync::PoisonError<std::sync::MutexGuard<'a, Guarded>>,
>) {
    lock.lock()
}

impl SharedGenerator {
    /// The worker that the generator was made for.
    pub closed spec fn worker(&self) -> nat {
        self.worker_id as nat
    }

    /// A generator at the start of a process. A worker identifier above 1023
    /// is refused.
    pub fn new(worker_id: u64) -> (res: Result<SharedGenerator, ConfigError>)
        ensures
            match res {
                Ok(shared) => worker_id <= 0x3FF && shared.worker() == worker_id,
                Err(e) => worker_id > 0x3FF && e == ConfigError::OutOfRange,
            },
    {
        match GeneratorState::new(worker_id) {
            Ok(state) => Ok(SharedGenerator::from_state(state)),
            Err(e) => Err(e),
        }
    }

    /// A generator that goes on from the given state, with fresh metrics.
    pub fn from_state(state: GeneratorState) -> (shared: SharedGenerator)
        ensures
            shared.worker() == state@.worker_id,
    {
        let worker_id = state.worker_id();
        let metrics = Metrics::new(worker_id);
        SharedGenerator { worker_id, guarded: std::sync::Mutex::new(Guarded::new(state, metrics)) }
    }

    /// The worker that the generator was made for.
    pub fn worker_id(&self) -> (worker_id: u64)
        ensures
            worker_id == self.worker(),
    {
        self.worker_id
    }

    /// Issues `count` identifiers under one hold of the lock and returns them
    /// as decimal text, in the order of issue.
    ///
    /// A batch that succeeds holds the identifiers that some run of `count`
    /// accepted clock readings issues, from some state of this generator's
    /// worker. A lock that is poisoned, or that holds the state of another
    /// worker, gives `StatePoisoned`; a clock that fails one identifier gives
    /// `ClockDriftTimeout`, which a batch of none cannot meet, and the
    /// identifiers issued before it are lost.
    pub fn generate(&self, count: u64) -> (res: Result<Vec<String>, GenerateError>)
        ensures
            res matches Ok(texts) ==> exists|before: GeneratorModel, readings: Seq<nat>|
                {
                    &&& before.wf()
                    &&& before.worker_id == self.worker()
                    &&& #[trigger] before.issued(readings).len() == count
                    &&& written(texts@, before.issued(readings))
                },
            res == Err::<Vec<String>, GenerateError>(GenerateError::ClockDriftTimeout) ==> count
                > 0,
    {
        match acquire(&self.guarded) {
            Ok(mut guard) => {
                let guarded: &mut Guarded = &mut *guard;
                guarded.serve(self.worker_id, count)
            },
            Err(_) => Err(GenerateError::StatePoisoned),
        }
    }

    /// What the generator has reported so far, with the two fixed gauges set
    /// for this generator: its worker, and the identifiers that a millisecond
    /// holds. The counters and the sequence gauge are what the lock holds,
    /// of which nothing is known here. A lock that is poisoned gives
    /// `StatePoisoned`.
    pub fn metrics(&self) -> (res: Result<Metrics, GenerateError>)
        ensures
            match res {
                Ok(metrics) => metrics.worker_id == self.worker() && metrics.max_sequence_per_ms
                    == MAX_SEQUENCE_PER_MS,
                Err(e) => e == GenerateError::StatePoisoned,
            },
    {
        match acquire(&self.guarded) {
            Ok(mut guard) => {
                let guarded: &mut Guarded = &mut *guard;
                Ok(guarded.report(self.worker_id))
            },
            Err(_) => Err(GenerateError::StatePoisoned),
        }
    }
}

impl Guarded {
    /// The state that is held.
    pub closed spec fn state(&self) -> GeneratorModel {
        self.state@
    }

    /// The metrics that are held.
    pub closed spec fn metrics(&self) -> Metrics {
        self.metrics
    }

    /// Holds the given state and metrics.
    pub fn new(state: GeneratorState, metrics: Metrics) -> (guarded: Guarded)
        ensures
            guarded.state() == state@,
            guarded.metrics() == metrics,
    {
        Guarded { state, metrics }
    }

    /// The metrics as the generator of the given worker reports them: what is
    /// held, with the two fixed gauges set for that worker.
    pub fn report(&self, worker_id: u64) -> (metrics: Metrics)
        ensures
            metrics == (Metrics {
                worker_id,
                max_sequence_per_ms: MAX_SEQUENCE_PER_MS,
                ..self.metrics()
            }),
    {
        Metrics {
            ids_generated_total: self.metrics.ids_generated_total,
            sequence_exhausted_total: self.metrics.sequence_exhausted_total,
            current_sequence: self.metrics.current_sequence,
            worker_id,
            max_sequence_per_ms: MAX_SEQUENCE_PER_MS,
        }
    }

    /// Issues `count` identifiers on behalf of the generator of the given
    /// worker. Where the state that is held belongs to another worker, the
    /// request fails with `StatePoisoned` and nothing changes. Otherwise the
    /// request is served as `generate` serves it, on the state and the metrics
    /// that are held: a batch of none succeeds, and so does a batch of one on
    /// a state that accepts every reading.
    pub fn serve(&mut self, worker_id: u64, count: u64) -> (res: Result<
        Vec<String>,
        GenerateError,
    >)
        ensures
            old(self).state().wf(),
            final(self).state().wf(),
            old(self).state().worker_id == worker_id && (count == 0 || (count == 1 && old(
                self,
            ).state().accepts_any())) ==> res is Ok,
            old(self).state().worker_id != worker_id ==> {
                &&& res == Err::<Vec<String>, GenerateError>(GenerateError::StatePoisoned)
                &&& final(self).state() == old(self).state()
                &&& final(self).metrics() == old(self).metrics()
            },
            old(self).state().worker_id == worker_id ==> exists|readings: Seq<nat>|
                served(
                    old(self).state(),
                    final(self).state(),
                    old(self).metrics(),
                    final(self).metrics(),
                    count as nat,
                    res,
                    readings,
                ),
    {
        if self.state.worker_id() != worker_id {
            return Err(GenerateError::StatePoisoned);
        }
        let ghost state_before = self.state@;
        let ghost metrics_before = self.metrics;
        let res = generate(&mut self.state, &mut self.metrics, count);
        proof {
            let readings = choose|readings: Seq<nat>|
                served(
                    state_before,
                    self.state@,
                    metrics_before,
                    self.metrics,
                    count as nat,
                    res,
                    readings,
                );
            assert(served(
                old(self).state(),
                self.state(),
                old(self).metrics(),
                self.metrics(),
                count as nat,
                res,
                readings,
            ));
        }
        res
    }
}

} // verus!
