//! The uniform connection contract over database engines, the batch entry
//! points built on it, and the throttled connection factory: semaphore
//! accounting, a bounded waiter count, and memory-pressure-aware permit
//! sizing driven by a response-size gauge sampled by the caller.

use vstd::prelude::*;

use crate::auth::Authenticated;
use crate::error::Error;
use crate::program::{
    batch_program, batch_program_with_rollback, batch_view, lemma_batch_steps_wf,
    lemma_cond_eval_prefix, lemma_cond_refs_below_mono, outcomes_match, rollback_query,
    spec_batch_steps, step_enabled, DescribeResponse, Program, Query, State, StepOutcome,
};

verus! {

/// A transaction idle for longer than this many seconds is forcibly rolled
/// back by the engine; the next operation then observes `State::Invalid`.
pub const TXN_TIMEOUT_SECS: u64 = 5;

/// The uniform operation set over database engines. A connection is
/// single-producer: callers must serialize operations on it (the stream
/// worker enforces this). Abandoning a connection in `Txn` state implies a
/// rollback on release.
pub trait Connection: Sized {
    /// Execute a program. The engine runs each enabled step in order and
    /// records one outcome per step; a step whose condition evaluates to
    /// false is recorded as skipped and counts neither as ok nor as failed
    /// for later conditions.
    fn execute_program(&mut self, pgm: Program, auth: Authenticated) -> (r: Result<
        (Vec<StepOutcome>, State),
        Error,
    >)
        ensures
            r matches Ok(out) ==> outcomes_match(pgm@, out.0@),
    ;

    /// Parse the statement and report its parameter and column metadata;
    /// never mutates connection state.
    fn describe(&mut self, sql: String, auth: Authenticated) -> Result<DescribeResponse, Error>;

    /// Whether the connection is in autocommit mode.
    fn is_autocommit(&mut self) -> Result<bool, Error>;

    /// Ask the engine for a database checkpoint, if supported.
    fn checkpoint(&mut self) -> Result<(), Error>;

    /// Execute all queries of the batch sequentially; when one fails, the
    /// remaining ones are skipped.
    fn execute_batch(&mut self, batch: Vec<Query>, auth: Authenticated) -> (r: Result<
        (Vec<StepOutcome>, State),
        Error,
    >)
        ensures
            r matches Ok(out) ==> outcomes_match(spec_batch_steps(batch_view(batch@)), out.0@),
    {
        let pgm = batch_program(batch);
        self.execute_program(pgm, auth)
    }

    /// Execute all queries of the batch sequentially; when one fails, the
    /// remaining ones are skipped and a conditional `ROLLBACK` tail runs.
    /// Only the outcomes of the original queries are returned; the tail is
    /// observable only through the final state.
    fn execute_batch_or_rollback(&mut self, batch: Vec<Query>, auth: Authenticated) -> (r: Result<
        (Vec<StepOutcome>, State),
        Error,
    >)
        ensures
            r matches Ok(out) ==> {
                &&& out.0@.len() == batch@.len()
                &&& outcomes_match(spec_batch_steps(batch_view(batch@)), out.0@)
            },
    {
        let batch_len = batch.len();
        let ghost batchv = batch_view(batch@);
        let pgm = batch_program_with_rollback(batch);
        let ghost pgmv = pgm@;
        let (mut outcomes, state) = match self.execute_program(pgm, auth) {
            Ok(x) => x,
            Err(e) => {
                return Err(e);
            },
        };
        let ghost full = outcomes@;
        outcomes.truncate(batch_len);
        proof {
            lemma_batch_steps_wf(batchv);
            if batch_len == 0 {
                assert(outcomes@ =~= full);
                assert(outcomes_match(spec_batch_steps(batchv), outcomes@));
            } else {
                let n = batch_len as int;
                assert(outcomes@ == full.subrange(0, n));
                assert forall|i: int| 0 <= i < n implies (((#[trigger] outcomes@[i])
                    == StepOutcome::Skipped) <==> !step_enabled(
                    spec_batch_steps(batchv),
                    outcomes@,
                    i,
                )) by {
                    assert((full[i] == StepOutcome::Skipped) <==> !step_enabled(pgmv, full, i));
                    assert(pgmv[i] == spec_batch_steps(batchv)[i]) by {
                        assert(pgmv.subrange(0, n)[i] == pgmv[i]);
                    }
                    match spec_batch_steps(batchv)[i].cond {
                        Some(c) => {
                            assert(spec_cond_refs_below_of_step(spec_batch_steps(batchv), i));
                            lemma_cond_refs_below_mono(c, i, n);
                            lemma_cond_eval_prefix(c, full, n);
                        },
                        None => {},
                    }
                    assert(outcomes@[i] == full[i]);
                }
            }
        }
        Ok((outcomes, state))
    }

    /// Issue a bare `ROLLBACK` through `execute_batch`, ignoring its
    /// outcome; the engine's error, if any, passes through. What is handed
    /// to the engine is fixed by [`rollback_query`]'s contract.
    fn rollback(&mut self, auth: Authenticated) -> Result<(), Error> {
        let mut batch: Vec<Query> = Vec::new();
        batch.push(rollback_query());
        match self.execute_batch(batch, auth) {
            Ok(_) => Ok(()),
            Err(e) => Err(e),
        }
    }
}

/// Helper for the truncation proof: the condition of step `i` in a
/// well-formed step list references only earlier steps.
spec fn spec_cond_refs_below_of_step(steps: Seq<crate::program::StepV>, i: int) -> bool {
    crate::program::step_cond_refs_below(steps[i], i)
}

/// Hands out fresh connections.
pub trait MakeConnection: Sized {
    type Connection: Connection;

    /// Build a new connection. A factory reports its own failures;
    /// `TooManyRequests` and `DbCreateTimeout` are admission errors,
    /// produced only by the throttler that wraps a factory, never by the
    /// factory itself.
    fn create(&mut self) -> (r: Result<Self::Connection, Error>)
        ensures
            r matches Err(e) ==> !(e matches Error::TooManyRequests) && !(e
                matches Error::DbCreateTimeout),
    ;

    /// Wrap this factory with admission control: `concurrency` permits, an
    /// optional acquisition timeout and the process-wide response budget
    /// that drives permit inflation.
    fn throttled(
        self,
        concurrency: usize,
        timeout_ms: Option<u64>,
        max_total_response_size: u64,
    ) -> (r: MakeThrottledConnection<Self>)
        ensures
            r.spec_concurrency() == concurrency,
            r.spec_available() == concurrency,
            r.spec_waiters() == 0,
            r.spec_timeout_ms() == timeout_ms,
            r.spec_max_total() == max_total_response_size,
    {
        MakeThrottledConnection::new(concurrency, self, timeout_ms, max_total_response_size)
    }
}

/// New admissions are rejected outright once this many callers are already
/// inside `create`.
pub const MAX_WAITERS: usize = 128;

/// Unit cost of one admission under the current memory pressure: half the
/// budget spent costs 16 units, a quarter spent costs 4, otherwise 1.
pub open spec fn spec_units_to_take(gauge: int, max_total: int) -> u32 {
    if gauge * 2 > max_total {
        16u32
    } else if gauge * 4 > max_total {
        4u32
    } else {
        1u32
    }
}

/// Units held after the post-acquire re-sample: the larger of the two
/// sampled costs.
pub open spec fn spec_units_needed(gauge_first: int, gauge_second: int, max_total: int) -> u32 {
    let u1 = spec_units_to_take(gauge_first, max_total);
    let u2 = spec_units_to_take(gauge_second, max_total);
    if u2 > u1 {
        u2
    } else {
        u1
    }
}

/// An admission token: the number of semaphore units one live connection
/// holds. Permits are only created by the throttler and returned to it.
pub struct Permit {
    units: u32,
}

impl Permit {
    /// The units this permit holds.
    pub closed spec fn spec_units(self) -> u32 {
        self.units
    }

    /// The units this permit holds.
    pub fn unit_count(&self) -> (r: u32)
        ensures
            r == self.spec_units(),
    {
        self.units
    }

    /// Fold another permit into this one; the units add up.
    pub fn merge(&mut self, other: Permit)
        requires
            old(self).spec_units() + other.spec_units() <= u32::MAX,
        ensures
            final(self).spec_units() == old(self).spec_units() + other.spec_units(),
    {
        self.units = self.units + other.units;
    }
}

/// A connection factory guarded by a counting semaphore. High memory
/// pressure (read from the global response-size gauge, which the caller
/// samples) inflates the unit cost of new admissions, throttling new
/// connections before they can enlarge the outstanding response footprint.
pub struct MakeThrottledConnection<F> {
    connection_maker: F,
    timeout_ms: Option<u64>,
    max_total_response_size: u64,
    concurrency: usize,
    available: usize,
    waiters: usize,
}

impl<F> MakeThrottledConnection<F> {
    /// The throttler's accounting stays sound: free permits never exceed
    /// the configured pool and the waiter count never exceeds the cap.
    /// Established by `new` and preserved by every operation.
    pub open spec fn wf(self) -> bool {
        &&& self.spec_available() <= self.spec_concurrency()
        &&& self.spec_waiters() <= MAX_WAITERS
    }

    /// The permit count the semaphore was created with.
    pub closed spec fn spec_concurrency(self) -> usize {
        self.concurrency
    }

    /// Permits currently free.
    pub closed spec fn spec_available(self) -> usize {
        self.available
    }

    /// Callers currently inside `create`.
    pub closed spec fn spec_waiters(self) -> usize {
        self.waiters
    }

    /// The configured acquisition timeout, in milliseconds.
    pub closed spec fn spec_timeout_ms(self) -> Option<u64> {
        self.timeout_ms
    }

    /// The process-wide response-size budget.
    pub closed spec fn spec_max_total(self) -> u64 {
        self.max_total_response_size
    }

    /// All configuration fields unchanged between two states.
    pub open spec fn same_config(self, other: Self) -> bool {
        &&& self.spec_concurrency() == other.spec_concurrency()
        &&& self.spec_timeout_ms() == other.spec_timeout_ms()
        &&& self.spec_max_total() == other.spec_max_total()
    }

    pub fn new(
        concurrency: usize,
        connection_maker: F,
        timeout_ms: Option<u64>,
        max_total_response_size: u64,
    ) -> (r: Self)
        ensures
            r.wf(),
            r.spec_concurrency() == concurrency,
            r.spec_available() == concurrency,
            r.spec_waiters() == 0,
            r.spec_timeout_ms() == timeout_ms,
            r.spec_max_total() == max_total_response_size,
    {
        MakeThrottledConnection {
            connection_maker,
            timeout_ms,
            max_total_response_size,
            concurrency,
            available: concurrency,
            waiters: 0,
        }
    }

    /// The permit count the semaphore was created with.
    pub fn concurrency(&self) -> (r: usize)
        ensures
            r == self.spec_concurrency(),
    {
        self.concurrency
    }

    /// Permits currently free.
    pub fn available_units(&self) -> (r: usize)
        ensures
            r == self.spec_available(),
    {
        self.available
    }

    /// Callers currently inside `create`.
    pub fn waiter_count(&self) -> (r: usize)
        ensures
            r == self.spec_waiters(),
    {
        self.waiters
    }

    /// How many units one admission should cost right now, given the
    /// sampled value of the global response-size gauge.
    pub fn units_to_take(&self, total_response_size: u64) -> (r: u32)
        ensures
            r == spec_units_to_take(total_response_size as int, self.spec_max_total() as int),
    {
        if (total_response_size as u128) * 2 > (self.max_total_response_size as u128) {
            16
        } else if (total_response_size as u128) * 4 > (self.max_total_response_size as u128) {
            4
        } else {
            1
        }
    }

    /// Register the caller as a waiter. When the waiter count would reach
    /// the cap, the admission is rejected outright instead of queuing.
    pub fn begin_create(&mut self) -> (r: Result<(), Error>)
        requires
            old(self).wf(),
        ensures
            final(self).wf(),
            old(self).same_config(*final(self)),
            final(self).spec_available() == old(self).spec_available(),
            if old(self).spec_waiters() + 1 >= MAX_WAITERS {
                &&& (r matches Err(e) && e matches Error::TooManyRequests)
                &&& final(self).spec_waiters() == old(self).spec_waiters()
            } else {
                &&& r is Ok
                &&& final(self).spec_waiters() == old(self).spec_waiters() + 1
            },
    {
        if self.waiters + 1 >= MAX_WAITERS {
            Err(Error::TooManyRequests)
        } else {
            self.waiters = self.waiters + 1;
            Ok(())
        }
    }

    /// Deregister a waiter; the counterpart of a successful `begin_create`.
    pub fn end_create(&mut self)
        requires
            old(self).wf(),
            old(self).spec_waiters() >= 1,
        ensures
            final(self).wf(),
            old(self).same_config(*final(self)),
            final(self).spec_available() == old(self).spec_available(),
            final(self).spec_waiters() == old(self).spec_waiters() - 1,
    {
        self.waiters = self.waiters - 1;
    }

    /// Take `units` permits if that many are free, all or nothing.
    pub fn try_acquire_units(&mut self, units: u32) -> (r: Option<Permit>)
        requires
            old(self).wf(),
        ensures
            final(self).wf(),
            old(self).same_config(*final(self)),
            final(self).spec_waiters() == old(self).spec_waiters(),
            match r {
                Some(p) => {
                    &&& p.spec_units() == units
                    &&& units <= old(self).spec_available()
                    &&& final(self).spec_available() == old(self).spec_available() - units
                },
                None => {
                    &&& units > old(self).spec_available()
                    &&& final(self).spec_available() == old(self).spec_available()
                },
            },
    {
        if (units as usize) <= self.available {
            self.available = self.available - (units as usize);
            Some(Permit { units })
        } else {
            None
        }
    }

    /// Return a permit's units to the pool.
    pub fn release(&mut self, permit: Permit)
        requires
            old(self).wf(),
            old(self).spec_available() + permit.spec_units() <= old(self).spec_concurrency(),
        ensures
            final(self).wf(),
            old(self).same_config(*final(self)),
            final(self).spec_waiters() == old(self).spec_waiters(),
            final(self).spec_available() == old(self).spec_available() + permit.spec_units(),
    {
        self.available = self.available + (permit.units as usize);
    }
}

/// Additional units to take after the post-acquire pressure re-sample: the
/// difference up to the re-sampled cost, or none when pressure did not
/// rise.
pub fn additional_units(held: u32, resampled: u32) -> (r: u32)
    ensures
        r == (if resampled > held {
            (resampled - held) as u32
        } else {
            0u32
        }),
{
    if resampled > held {
        resampled - held
    } else {
        0
    }
}

/// What one admission attempt returns: a connection wrapped with its
/// permit, or the admission or factory error.
pub type AdmissionResult<F> = Result<
    TrackedConnection<<F as MakeConnection>::Connection>,
    Error,
>;

impl<F> MakeThrottledConnection<F> {
    /// The units needed by the two samples exceed what is currently free.
    pub open spec fn spec_shortfall(self, gauge_first: int, gauge_second: int) -> bool {
        spec_units_needed(gauge_first, gauge_second, self.spec_max_total() as int)
            > self.spec_available()
    }
}

impl<F: MakeConnection> MakeThrottledConnection<F> {
    /// Invoke the underlying factory once; the caller pairs the result
    /// with the permit it already holds.
    pub fn make_inner_connection(&mut self) -> (r: Result<F::Connection, Error>)
        ensures
            old(self).same_config(*final(self)),
            final(self).spec_available() == old(self).spec_available(),
            final(self).spec_waiters() == old(self).spec_waiters(),
            old(self).wf() ==> final(self).wf(),
            r matches Err(e) ==> !(e matches Error::TooManyRequests) && !(e
                matches Error::DbCreateTimeout),
    {
        self.connection_maker.create()
    }

    /// Non-blocking admission: sample-derived unit cost, waiter cap,
    /// atomic acquisition, post-acquire re-sample with top-up, then the
    /// underlying factory. The two gauge arguments are the caller's
    /// samples of the global response-size gauge before and after the
    /// first acquisition. A caller that wants to wait out a permit
    /// shortfall instead of failing drives `begin_create`,
    /// `try_acquire_units` and `release` itself.
    pub fn try_create(&mut self, gauge_first: u64, gauge_second: u64) -> (r: AdmissionResult<F>)
        requires
            old(self).wf(),
        ensures
            final(self).wf(),
            old(self).same_config(*final(self)),
            final(self).spec_waiters() == old(self).spec_waiters(),
            (r matches Err(e) && e matches Error::TooManyRequests) <==> old(self).spec_waiters()
                + 1 >= MAX_WAITERS,
            (r matches Err(e) && e matches Error::DbCreateTimeout) <==> (old(self).spec_waiters()
                + 1 < MAX_WAITERS && old(self).spec_shortfall(
                gauge_first as int,
                gauge_second as int,
            )),
            r is Err ==> final(self).spec_available() == old(self).spec_available(),
            r matches Ok(tc) ==> {
                &&& old(self).spec_waiters() + 1 < MAX_WAITERS
                &&& tc.spec_permit_units() == spec_units_needed(
                    gauge_first as int,
                    gauge_second as int,
                    old(self).spec_max_total() as int,
                )
                &&& tc.spec_permit_units() <= old(self).spec_available()
                &&& final(self).spec_available() == (old(self).spec_available()
                    - tc.spec_permit_units())
            },
    {
        if let Err(e) = self.begin_create() {
            return Err(e);
        }
        let units = self.units_to_take(gauge_first);
        let mut permit = match self.try_acquire_units(units) {
            Some(p) => p,
            None => {
                self.end_create();
                return Err(Error::DbCreateTimeout);
            },
        };
        let resampled = self.units_to_take(gauge_second);
        let extra = additional_units(units, resampled);
        if extra > 0 {
            match self.try_acquire_units(extra) {
                Some(p) => {
                    permit.merge(p);
                },
                None => {
                    self.release(permit);
                    self.end_create();
                    return Err(Error::DbCreateTimeout);
                },
            }
        }
        let inner = match self.connection_maker.create() {
            Ok(db) => db,
            Err(e) => {
                self.release(permit);
                self.end_create();
                return Err(e);
            },
        };
        self.end_create();
        Ok(TrackedConnection::new(inner, permit))
    }
}

/// Total units across a collection of live permits.
pub open spec fn spec_total_units(units: Seq<u32>) -> int
    decreases units.len(),
{
    if units.len() == 0 {
        0
    } else {
        units[0] + spec_total_units(units.drop_first())
    }
}

/// With every live permit holding at least one unit and the pool bounded by
/// `n` units in total, at most `n` admissions can coexist: a throttler
/// configured with `n` permits never has more than `n` live connections.
pub proof fn lemma_permits_bounded(units: Seq<u32>, n: int)
    requires
        forall|i: int| 0 <= i < units.len() ==> units[i] >= 1,
        spec_total_units(units) <= n,
    ensures
        units.len() <= n,
    decreases units.len(),
{
    if units.len() > 0 {
        let rest = units.drop_first();
        assert(forall|i: int| 0 <= i < rest.len() ==> rest[i] == units[i + 1]);
        lemma_permits_bounded(rest, n - 1);
    }
}

/// The unit cost of an admission is always at least one, so every live
/// connection holds at least one unit of the pool.
pub proof fn lemma_units_at_least_one(gauge: int, max_total: int)
    ensures
        spec_units_to_take(gauge, max_total) >= 1,
        spec_units_needed(gauge, gauge, max_total) >= 1,
{
}

/// The capacity bound in one statement: when the live permits' units sum
/// to what the pool has handed out (which every admission and release
/// preserves) and each admission holds at least one unit (which
/// `lemma_units_at_least_one` gives), at most `concurrency` admissions
/// coexist.
pub proof fn lemma_throttler_capacity<F>(t: MakeThrottledConnection<F>, live_units: Seq<u32>)
    requires
        t.wf(),
        forall|j: int| 0 <= j < live_units.len() ==> live_units[j] >= 1,
        spec_total_units(live_units) == t.spec_concurrency() - t.spec_available(),
    ensures
        live_units.len() <= t.spec_concurrency(),
{
    lemma_permits_bounded(live_units, t.spec_concurrency() - t.spec_available());
}

/// A connection that owns its admission permit: all operations forward to
/// the wrapped connection, and tearing the wrapper down recovers the permit
/// so it can be returned to the throttler on every exit path.
pub struct TrackedConnection<DB> {
    inner: DB,
    permit: Permit,
}

impl<DB> TrackedConnection<DB> {
    /// The wrapped connection.
    pub closed spec fn spec_inner(self) -> DB {
        self.inner
    }

    /// The units the held permit carries.
    pub closed spec fn spec_permit_units(self) -> u32 {
        self.permit.spec_units()
    }

    pub fn new(inner: DB, permit: Permit) -> (r: Self)
        ensures
            r.spec_inner() == inner,
            r.spec_permit_units() == permit.spec_units(),
    {
        TrackedConnection { inner, permit }
    }

    /// Tear down: the caller gets the connection and the permit back, and
    /// is responsible for releasing the permit exactly once.
    pub fn into_parts(self) -> (r: (DB, Permit))
        ensures
            r.0 == self.spec_inner(),
            r.1.spec_units() == self.spec_permit_units(),
    {
        let TrackedConnection { inner, permit } = self;
        (inner, permit)
    }
}

impl<DB: Connection> Connection for TrackedConnection<DB> {
    /// Forwards to the wrapped connection; the admission permit stays held
    /// and untouched for the whole call.
    fn execute_program(&mut self, pgm: Program, auth: Authenticated) -> (r: Result<
        (Vec<StepOutcome>, State),
        Error,
    >)
        ensures
            final(self).spec_permit_units() == old(self).spec_permit_units(),
    {
        self.inner.execute_program(pgm, auth)
    }

    /// Forwards to the wrapped connection; the permit stays untouched.
    fn describe(&mut self, sql: String, auth: Authenticated) -> (r: Result<
        DescribeResponse,
        Error,
    >)
        ensures
            final(self).spec_permit_units() == old(self).spec_permit_units(),
    {
        self.inner.describe(sql, auth)
    }

    /// Forwards to the wrapped connection; the permit stays untouched.
    fn is_autocommit(&mut self) -> (r: Result<bool, Error>)
        ensures
            final(self).spec_permit_units() == old(self).spec_permit_units(),
    {
        self.inner.is_autocommit()
    }

    /// Forwards to the wrapped connection; the permit stays untouched.
    fn checkpoint(&mut self) -> (r: Result<(), Error>)
        ensures
            final(self).spec_permit_units() == old(self).spec_permit_units(),
    {
        self.inner.checkpoint()
    }
}

} // verus!
