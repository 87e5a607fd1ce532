use sqld_core::auth::Authenticated;
use sqld_core::connection::{additional_units, Connection, MakeConnection, TrackedConnection};
use sqld_core::error::Error;
use sqld_core::program::{DescribeResponse, Program, State, StepOutcome};

/// A factory whose connections do nothing; admission is what is under test.
struct DummyDb;

impl Connection for DummyDb {
    fn execute_program(
        &mut self,
        _pgm: Program,
        _auth: Authenticated,
    ) -> Result<(Vec<StepOutcome>, State), Error> {
        unreachable!()
    }

    fn describe(
        &mut self,
        _sql: String,
        _auth: Authenticated,
    ) -> Result<DescribeResponse, Error> {
        unreachable!()
    }

    fn is_autocommit(&mut self) -> Result<bool, Error> {
        unreachable!()
    }

    fn checkpoint(&mut self) -> Result<(), Error> {
        unreachable!()
    }
}

struct DummyFactory;

impl MakeConnection for DummyFactory {
    type Connection = DummyDb;

    fn create(&mut self) -> Result<DummyDb, Error> {
        Ok(DummyDb)
    }
}

/// A factory that always fails, to check that permits are returned.
struct FailingFactory;

impl MakeConnection for FailingFactory {
    type Connection = DummyDb;

    fn create(&mut self) -> Result<DummyDb, Error> {
        Err(Error::IOError("factory down".to_string()))
    }
}

#[test]
fn throttle_db_creation() {
    let mut factory = DummyFactory.throttled(10, Some(100), u64::MAX);
    let mut conns: Vec<TrackedConnection<DummyDb>> = Vec::with_capacity(10);
    for _ in 0..10 {
        conns.push(factory.try_create(0, 0).unwrap());
    }
    // the eleventh admission finds no free permit
    assert!(matches!(factory.try_create(0, 0), Err(Error::DbCreateTimeout)));
    // returning one permit lets an admission through again
    let (_db, permit) = conns.pop().unwrap().into_parts();
    factory.release(permit);
    assert!(factory.try_create(0, 0).is_ok());
}

#[test]
fn units_to_take_follows_memory_pressure() {
    let throttled = DummyFactory.throttled(100, None, 1_000_000);
    // low pressure: one unit
    assert_eq!(throttled.units_to_take(0), 1);
    assert_eq!(throttled.units_to_take(250_000), 1);
    // medium pressure: a quarter of the budget spent
    assert_eq!(throttled.units_to_take(250_001), 4);
    assert_eq!(throttled.units_to_take(300_000), 4);
    assert_eq!(throttled.units_to_take(500_000), 4);
    // high pressure: half the budget spent
    assert_eq!(throttled.units_to_take(500_001), 16);
    assert_eq!(throttled.units_to_take(1_000_000), 16);
}

#[test]
fn pressure_escalation_acquires_the_difference() {
    // medium pressure at the first sample, high pressure at the re-sample:
    // the admission ends up holding 16 units, having added 12
    assert_eq!(additional_units(4, 16), 12);
    assert_eq!(additional_units(16, 4), 0);
    assert_eq!(additional_units(1, 1), 0);

    let mut factory = DummyFactory.throttled(100, None, 1_000_000);
    let tc = factory.try_create(300_000, 600_000).unwrap();
    let (_db, permit) = tc.into_parts();
    assert_eq!(permit.unit_count(), 16);
    factory.release(permit);
}

#[test]
fn admission_rejects_at_the_waiter_cap() {
    let mut factory = DummyFactory.throttled(1, None, u64::MAX);
    // 127 callers are already inside create
    for _ in 0..127 {
        factory.begin_create().unwrap();
    }
    // the 128th is rejected outright rather than queued
    assert!(matches!(factory.begin_create(), Err(Error::TooManyRequests)));
    assert!(matches!(factory.try_create(0, 0), Err(Error::TooManyRequests)));
    // once one caller leaves, admission opens again
    factory.end_create();
    assert!(factory.begin_create().is_ok());
}

#[test]
fn permits_are_returned_when_the_factory_fails() {
    let mut factory = FailingFactory.throttled(4, None, u64::MAX);
    assert!(matches!(factory.try_create(0, 0), Err(Error::IOError(_))));
    // the permit went back: four one-unit admissions are still possible
    let p1 = factory.try_acquire_units(4).unwrap();
    assert_eq!(p1.unit_count(), 4);
    assert!(factory.try_acquire_units(1).is_none());
    factory.release(p1);
}

#[test]
fn acquisition_is_all_or_nothing() {
    let mut factory = DummyFactory.throttled(10, None, u64::MAX);
    let p = factory.try_acquire_units(8).unwrap();
    // 2 units remain: a 4-unit acquisition must not take them
    assert!(factory.try_acquire_units(4).is_none());
    let q = factory.try_acquire_units(2).unwrap();
    factory.release(p);
    factory.release(q);
    assert!(factory.try_acquire_units(10).is_some());
}

#[test]
fn accounting_is_observable() {
    let mut factory = DummyFactory.throttled(10, None, u64::MAX);
    assert_eq!(factory.concurrency(), 10);
    assert_eq!(factory.available_units(), 10);
    assert_eq!(factory.waiter_count(), 0);
    factory.begin_create().unwrap();
    assert_eq!(factory.waiter_count(), 1);
    let p = factory.try_acquire_units(3).unwrap();
    assert_eq!(factory.available_units(), 7);
    factory.release(p);
    assert_eq!(factory.available_units(), 10);
    factory.end_create();
    assert_eq!(factory.waiter_count(), 0);
}

#[test]
fn merged_permits_add_up() {
    let mut factory = DummyFactory.throttled(10, None, u64::MAX);
    let mut p = factory.try_acquire_units(3).unwrap();
    let q = factory.try_acquire_units(2).unwrap();
    p.merge(q);
    assert_eq!(p.unit_count(), 5);
    factory.release(p);
}
