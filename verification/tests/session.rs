use sqld_core::auth::{AuthError, Authenticated};
use sqld_core::program::{Cond, Params};
use sqld_core::session::{
    catch_batch_error, catch_stmt_error, drain_cursor_entries, fetch_should_continue,
    handle_initial_hello, Action, BatchError, Job, JobError, ProtoStmt, ProtocolError, Request,
    Response, ResponseError, SessionError, SizedEntry, StmtError, Stream, Version, MAX_SQL_COUNT,
};

const MAX_RESPONSE_SIZE: u64 = 64 * 1024;

fn session(version: Version) -> sqld_core::session::Session {
    handle_initial_hello(version, Ok(Authenticated::Anonymous)).unwrap()
}

fn literal_stmt(sql: &str) -> ProtoStmt {
    ProtoStmt { sql: Some(sql.to_string()), sql_id: None, params: Params::empty(), want_rows: true }
}

fn stored_stmt(sql_id: i32) -> ProtoStmt {
    ProtoStmt { sql: None, sql_id: Some(sql_id), params: Params::empty(), want_rows: true }
}

#[test]
fn initial_hello_fails_on_bad_auth() {
    let r = handle_initial_hello(Version::Hrana2, Err(AuthError::JwtInvalid));
    match r {
        Err(SessionError::Response(ResponseError::Auth { source })) => {
            assert!(matches!(source, AuthError::JwtInvalid));
        }
        _ => panic!("expected an auth response error"),
    }
}

#[test]
fn repeated_hello_needs_v2() {
    let mut s = session(Version::Hrana1);
    let r = s.handle_repeated_hello(Ok(Authenticated::Anonymous));
    assert!(matches!(
        r,
        Err(SessionError::Protocol(ProtocolError::NotSupported { min_version: Version::Hrana2, .. }))
    ));

    let mut s2 = session(Version::Hrana2);
    assert!(s2.handle_repeated_hello(Ok(Authenticated::Anonymous)).is_ok());
}

#[test]
fn open_stream_allocates_and_rejects_duplicates() {
    let mut s = session(Version::Hrana1);
    let a = s.handle_request(Request::OpenStream { stream_id: 42 }, MAX_RESPONSE_SIZE).unwrap();
    assert!(matches!(a, Action::SpawnStream { stream_id: 42, job: Job::Open }));
    assert_eq!(s.stream_count(), 1);
    assert!(s.has_stream(42));

    let dup = s.handle_request(Request::OpenStream { stream_id: 42 }, MAX_RESPONSE_SIZE);
    assert!(matches!(
        dup,
        Err(SessionError::Protocol(ProtocolError::StreamExists { stream_id: 42 }))
    ));
}

#[test]
fn close_stream_frees_the_id_for_reuse() {
    let mut s = session(Version::Hrana1);
    s.handle_request(Request::OpenStream { stream_id: 7 }, MAX_RESPONSE_SIZE).unwrap();
    let a = s.handle_request(Request::CloseStream { stream_id: 7 }, MAX_RESPONSE_SIZE).unwrap();
    assert!(matches!(a, Action::CloseStream { stream_id: 7, job: Job::Close }));
    assert_eq!(s.stream_count(), 0);
    // the id can be used again
    assert!(s.handle_request(Request::OpenStream { stream_id: 7 }, MAX_RESPONSE_SIZE).is_ok());
    // closing an unknown stream is an error
    let r = s.handle_request(Request::CloseStream { stream_id: 9 }, MAX_RESPONSE_SIZE);
    assert!(matches!(
        r,
        Err(SessionError::Protocol(ProtocolError::StreamNotFound { stream_id: 9 }))
    ));
}

#[test]
fn execute_compiles_the_statement_for_the_worker() {
    let mut s = session(Version::Hrana1);
    s.handle_request(Request::OpenStream { stream_id: 1 }, MAX_RESPONSE_SIZE).unwrap();
    let a = s
        .handle_request(
            Request::Execute { stream_id: 1, stmt: literal_stmt("SELECT 1") },
            MAX_RESPONSE_SIZE,
        )
        .unwrap();
    match a {
        Action::RunJob { stream_id: 1, job: Job::Execute { query, auth } } => {
            assert_eq!(query.stmt.sql, "SELECT 1");
            assert!(query.want_rows);
            assert!(matches!(auth, Authenticated::Anonymous));
        }
        _ => panic!("expected an execute job"),
    }
    // a missing stream is reported before compilation
    let r = s.handle_request(
        Request::Execute { stream_id: 2, stmt: literal_stmt("SELECT 1") },
        MAX_RESPONSE_SIZE,
    );
    assert!(matches!(
        r,
        Err(SessionError::Protocol(ProtocolError::StreamNotFound { stream_id: 2 }))
    ));
}

#[test]
fn batch_lowers_to_a_chained_program() {
    let mut s = session(Version::Hrana1);
    s.handle_request(Request::OpenStream { stream_id: 1 }, MAX_RESPONSE_SIZE).unwrap();
    let a = s
        .handle_request(
            Request::Batch {
                stream_id: 1,
                batch: vec![literal_stmt("a"), literal_stmt("b")],
            },
            MAX_RESPONSE_SIZE,
        )
        .unwrap();
    match a {
        Action::RunJob { stream_id: 1, job: Job::Batch { pgm, .. } } => {
            assert_eq!(pgm.len(), 2);
            assert!(pgm.steps()[0].cond.is_none());
            assert!(matches!(pgm.steps()[1].cond, Some(Cond::StepOk { step: 0 })));
        }
        _ => panic!("expected a batch job"),
    }
}

#[test]
fn stored_sql_round_trip_through_requests() {
    let mut s = session(Version::Hrana2);
    s.handle_request(Request::OpenStream { stream_id: 1 }, MAX_RESPONSE_SIZE).unwrap();
    let a = s
        .handle_request(
            Request::StoreSql { sql_id: 3, sql: "SELECT 3".to_string() },
            MAX_RESPONSE_SIZE,
        )
        .unwrap();
    assert!(matches!(a, Action::Respond { response: Response::StoreSql }));
    assert_eq!(s.sql_count(), 1);

    // storing the same id again is rejected
    let dup = s.handle_request(
        Request::StoreSql { sql_id: 3, sql: "SELECT 3".to_string() },
        MAX_RESPONSE_SIZE,
    );
    assert!(matches!(dup, Err(SessionError::Protocol(ProtocolError::SqlExists { sql_id: 3 }))));

    // the stored text is resolved for execution
    let a2 = s
        .handle_request(Request::Execute { stream_id: 1, stmt: stored_stmt(3) }, MAX_RESPONSE_SIZE)
        .unwrap();
    match a2 {
        Action::RunJob { job: Job::Execute { query, .. }, .. } => {
            assert_eq!(query.stmt.sql, "SELECT 3");
        }
        _ => panic!("expected an execute job"),
    }

    // an unknown id is an error
    let r = s.handle_request(Request::Execute { stream_id: 1, stmt: stored_stmt(4) }, MAX_RESPONSE_SIZE);
    assert!(matches!(r, Err(SessionError::Protocol(ProtocolError::SqlNotFound { sql_id: 4 }))));

    // close is idempotent
    assert!(s.handle_request(Request::CloseSql { sql_id: 3 }, MAX_RESPONSE_SIZE).is_ok());
    assert!(s.handle_request(Request::CloseSql { sql_id: 3 }, MAX_RESPONSE_SIZE).is_ok());
    assert_eq!(s.sql_count(), 0);
}

#[test]
fn store_sql_fails_at_the_capacity() {
    let mut s = session(Version::Hrana2);
    for id in 0..(MAX_SQL_COUNT as i32) {
        s.handle_request(
            Request::StoreSql { sql_id: id, sql: format!("SELECT {}", id) },
            MAX_RESPONSE_SIZE,
        )
        .unwrap();
    }
    assert_eq!(s.sql_count(), MAX_SQL_COUNT);
    let r = s.handle_request(
        Request::StoreSql { sql_id: 1000, sql: "SELECT 1000".to_string() },
        MAX_RESPONSE_SIZE,
    );
    match r {
        Err(SessionError::Response(ResponseError::SqlTooMany { count })) => {
            assert_eq!(count, MAX_SQL_COUNT);
        }
        _ => panic!("expected the capacity error"),
    }
}

#[test]
fn version_gating_rejects_new_requests_on_old_sessions() {
    let mut s = session(Version::Hrana1);
    let r = s.handle_request(
        Request::StoreSql { sql_id: 1, sql: "SELECT 1".to_string() },
        MAX_RESPONSE_SIZE,
    );
    assert!(matches!(
        r,
        Err(SessionError::Protocol(ProtocolError::NotSupported { min_version: Version::Hrana2, .. }))
    ));

    let mut s2 = session(Version::Hrana2);
    let r2 = s2.handle_request(Request::GetAutocommit { stream_id: 1 }, MAX_RESPONSE_SIZE);
    assert!(matches!(
        r2,
        Err(SessionError::Protocol(ProtocolError::NotSupported { min_version: Version::Hrana3, .. }))
    ));
    assert!(Version::Hrana3.at_least(Version::Hrana2));
    assert!(!Version::Hrana1.at_least(Version::Hrana2));
}

#[test]
fn cursor_lifecycle_keeps_the_tables_in_step() {
    let mut s = session(Version::Hrana3);
    s.handle_request(Request::OpenStream { stream_id: 1 }, MAX_RESPONSE_SIZE).unwrap();
    s.handle_request(Request::OpenStream { stream_id: 2 }, MAX_RESPONSE_SIZE).unwrap();

    let a = s
        .handle_request(
            Request::OpenCursor { stream_id: 1, cursor_id: 10, batch: vec![literal_stmt("a")] },
            MAX_RESPONSE_SIZE,
        )
        .unwrap();
    assert!(matches!(a, Action::RunJob { stream_id: 1, job: Job::OpenCursor { cursor_id: 10, .. } }));
    assert_eq!(s.cursor_count(), 1);
    assert_eq!(s.stream_cursor(1), Some(10));
    assert_eq!(s.stream_cursor(2), None);

    // a second cursor on the same stream is rejected
    let r = s.handle_request(
        Request::OpenCursor { stream_id: 1, cursor_id: 11, batch: vec![literal_stmt("a")] },
        MAX_RESPONSE_SIZE,
    );
    assert!(matches!(
        r,
        Err(SessionError::Protocol(ProtocolError::CursorAlreadyOpen { stream_id: 1 }))
    ));

    // an already-used cursor id is rejected
    let r2 = s.handle_request(
        Request::OpenCursor { stream_id: 2, cursor_id: 10, batch: vec![literal_stmt("a")] },
        MAX_RESPONSE_SIZE,
    );
    assert!(matches!(
        r2,
        Err(SessionError::Protocol(ProtocolError::CursorExists { cursor_id: 10 }))
    ));

    // fetches are routed to the owning stream with an eighth of the budget
    let f = s
        .handle_request(Request::FetchCursor { cursor_id: 10, max_count: 100 }, MAX_RESPONSE_SIZE)
        .unwrap();
    match f {
        Action::RunJob {
            stream_id: 1,
            job: Job::FetchCursor { cursor_id: 10, max_count, max_total_size },
        } => {
            assert_eq!(max_count, 100);
            assert_eq!(max_total_size, MAX_RESPONSE_SIZE / 8);
        }
        _ => panic!("expected a fetch job"),
    }

    // closing removes the entry from both tables
    let c = s.handle_request(Request::CloseCursor { cursor_id: 10 }, MAX_RESPONSE_SIZE).unwrap();
    assert!(matches!(c, Action::RunJob { stream_id: 1, job: Job::CloseCursor }));
    assert_eq!(s.cursor_count(), 0);
    assert_eq!(s.stream_cursor(1), None);
    let gone = s.handle_request(Request::FetchCursor { cursor_id: 10, max_count: 1 }, MAX_RESPONSE_SIZE);
    assert!(matches!(
        gone,
        Err(SessionError::Protocol(ProtocolError::CursorNotFound { cursor_id: 10 }))
    ));
}

#[test]
fn closing_a_stream_drops_its_cursor_entry() {
    let mut s = session(Version::Hrana3);
    s.handle_request(Request::OpenStream { stream_id: 1 }, MAX_RESPONSE_SIZE).unwrap();
    s.handle_request(
        Request::OpenCursor { stream_id: 1, cursor_id: 10, batch: vec![literal_stmt("a")] },
        MAX_RESPONSE_SIZE,
    )
    .unwrap();
    assert_eq!(s.cursor_count(), 1);
    s.handle_request(Request::CloseStream { stream_id: 1 }, MAX_RESPONSE_SIZE).unwrap();
    assert_eq!(s.cursor_count(), 0);
    assert_eq!(s.stream_count(), 0);
}

#[test]
fn stream_jobs_fail_until_the_open_job_succeeded() {
    // the open job failed: the database handle stayed absent
    let stream: Stream<u32, u32> = Stream::new();
    match stream.db_ref(42) {
        Err(ResponseError::StreamNotOpen { stream_id }) => {
            assert_eq!(stream_id, 42);
        }
        _ => panic!("expected stream-not-open"),
    }
    let mut stream2: Stream<u32, u32> = Stream { db: Some(7), cursor_hnd: None };
    assert_eq!(*stream2.db_ref(42).unwrap(), 7);
    // no cursor attached yet
    match stream2.take_cursor(5) {
        Err(e @ ResponseError::CursorNotOpen { cursor_id: 5 }) => {
            assert_eq!(e.code(), "CURSOR_NOT_OPEN");
        }
        _ => panic!("expected cursor-not-open"),
    }
    stream2.put_cursor(99);
    assert_eq!(stream2.take_cursor(5).unwrap(), 99);
}

#[test]
fn fetch_budget_stops_at_the_byte_budget() {
    // 10_000 entries of 1 KiB against a 1 KiB byte budget: the first entry
    // is taken whole, then the budget is closed and the cursor is not done
    let entries: Vec<SizedEntry<u32>> =
        (0..10_000u32).map(|n| SizedEntry { entry: n, size: 1024 }).collect();
    let (taken, done) = drain_cursor_entries(entries, false, 10_000, 8 * 1024 / 8);
    assert_eq!(taken.len(), 1);
    assert!(!done);

    // a fetch that consumes the producer within budget reports done
    let small: Vec<SizedEntry<u32>> = (0..3u32).map(|n| SizedEntry { entry: n, size: 10 }).collect();
    let (taken2, done2) = drain_cursor_entries(small, true, 100, 1000);
    assert_eq!(taken2, vec![0, 1, 2]);
    assert!(done2);

    // the count budget also ends a fetch
    let small3: Vec<SizedEntry<u32>> = (0..5u32).map(|n| SizedEntry { entry: n, size: 1 }).collect();
    let (taken3, done3) = drain_cursor_entries(small3, true, 2, 1000);
    assert_eq!(taken3, vec![0, 1]);
    assert!(!done3);

    assert!(fetch_should_continue(0, 0, 1, 1));
    assert!(!fetch_should_continue(1, 0, 1, 1));
    assert!(!fetch_should_continue(0, 1, 1, 1));
}

#[test]
fn error_codes_are_stable() {
    assert_eq!(ResponseError::StreamNotOpen { stream_id: 1 }.code(), "STREAM_NOT_OPEN");
    assert_eq!(ResponseError::CursorNotOpen { cursor_id: 1 }.code(), "CURSOR_NOT_OPEN");
    assert_eq!(ResponseError::SqlTooMany { count: 150 }.code(), "SQL_STORE_TOO_MANY");
    assert_eq!(ResponseError::Stmt(StmtError::SqlParse).code(), "STMT_SQL_PARSE");
    assert_eq!(
        ResponseError::Stmt(StmtError::Blocked { reason: None }).code(),
        "STMT_BLOCKED"
    );
    assert_eq!(
        ResponseError::Batch(BatchError::ResponseTooLarge).code(),
        "BATCH_RESPONSE_TOO_LARGE"
    );
    assert_eq!(
        ResponseError::Auth { source: AuthError::JwtExpired }.code(),
        "AUTH_JWT_EXPIRED"
    );
}

#[test]
fn engine_errors_are_translated_per_layer() {
    let r = catch_stmt_error(JobError::Stmt(StmtError::SqlParse));
    assert!(matches!(r, JobError::Response(ResponseError::Stmt(StmtError::SqlParse))));
    // a batch error passes through the statement catcher untouched
    let r2 = catch_stmt_error(JobError::Batch(BatchError::ResponseTooLarge));
    assert!(matches!(r2, JobError::Batch(BatchError::ResponseTooLarge)));
    let r3 = catch_batch_error(JobError::Batch(BatchError::ResponseTooLarge));
    assert!(matches!(r3, JobError::Response(ResponseError::Batch(BatchError::ResponseTooLarge))));
    let r4 = catch_batch_error(JobError::Other("boom".to_string()));
    assert!(matches!(r4, JobError::Other(_)));
}

#[test]
fn sql_resolution_needs_exactly_one_source() {
    let s = session(Version::Hrana2);
    let both = s.proto_sql_to_sql(Some("SELECT 1".to_string()), Some(1));
    assert!(matches!(both, Err(ProtocolError::SqlIdAndSqlGiven)));
    let neither = s.proto_sql_to_sql(None, None);
    assert!(matches!(neither, Err(ProtocolError::SqlMissing)));
    let literal = s.proto_sql_to_sql(Some("SELECT 1".to_string()), None).unwrap();
    assert_eq!(literal, "SELECT 1");
    // stored ids are gated on v2
    let v1_session = session(Version::Hrana1);
    let r = v1_session.proto_sql_to_sql(None, Some(1));
    assert!(matches!(
        r,
        Err(ProtocolError::NotSupported { min_version: Version::Hrana2, .. })
    ));
}
