//! Session-level state of an authenticated client on the framed protocol:
//! streams, cursors, stored SQL texts and version gating, together with the
//! request dispatcher that turns each inbound request into a state change
//! plus an action for the surrounding runtime (spawn a stream worker, run a
//! job on one, or respond immediately).

use std::collections::HashMap;

use vstd::prelude::*;
use vstd::set_lib::lemma_map_size;

use crate::auth::{AuthError, Authenticated};
use crate::program::{
    batch_program, batch_view, spec_batch_steps, Params, Program, Query, QueryV, Statement,
};

verus! {

broadcast use vstd::std_specs::hash::group_hash_axioms;

/// Negotiated protocol version, fixed at the initial hello.
#[derive(Clone, Copy, PartialEq, Eq, Structural, Debug)]
pub enum Version {
    Hrana1,
    Hrana2,
    Hrana3,
}

/// Versions ordered by the features they admit.
pub open spec fn spec_version_num(v: Version) -> int {
    match v {
        Version::Hrana1 => 1,
        Version::Hrana2 => 2,
        Version::Hrana3 => 3,
    }
}

impl Version {
    /// The ordinal of this version.
    pub fn num(self) -> (r: u8)
        ensures
            r == spec_version_num(self),
    {
        match self {
            Version::Hrana1 => 1,
            Version::Hrana2 => 2,
            Version::Hrana3 => 3,
        }
    }

    /// Whether this version admits features introduced in `other`.
    pub fn at_least(self, other: Version) -> (r: bool)
        ensures
            r == (spec_version_num(self) >= spec_version_num(other)),
    {
        self.num() >= other.num()
    }
}

/// A violation of the protocol itself; these close the connection rather
/// than being framed into a response.
#[derive(Clone, Copy, Debug)]
pub enum ProtocolError {
    /// The request or field needs a newer protocol version.
    NotSupported { what: &'static str, min_version: Version },
    StreamExists { stream_id: i32 },
    StreamNotFound { stream_id: i32 },
    SqlExists { sql_id: i32 },
    SqlNotFound { sql_id: i32 },
    /// A request carried both a literal `sql` and a stored `sql_id`.
    SqlIdAndSqlGiven,
    /// A request carried neither a literal `sql` nor a stored `sql_id`.
    SqlMissing,
    CursorExists { cursor_id: i32 },
    CursorNotFound { cursor_id: i32 },
    CursorAlreadyOpen { stream_id: i32 },
}

/// A statement-layer error reported by the engine.
#[derive(Clone, Debug)]
pub enum StmtError {
    SqlParse,
    SqlManyStmts,
    Blocked { reason: Option<String> },
}

/// The stable wire code of a statement-layer error.
pub open spec fn spec_stmt_code(e: StmtError) -> Seq<char> {
    match e {
        StmtError::SqlParse => "STMT_SQL_PARSE"@,
        StmtError::SqlManyStmts => "STMT_SQL_MANY_STATEMENTS"@,
        StmtError::Blocked { .. } => "STMT_BLOCKED"@,
    }
}

impl StmtError {
    /// The stable wire code for this failure.
    pub fn code(&self) -> (r: &'static str)
        ensures
            r@ == spec_stmt_code(*self),
    {
        match self {
            StmtError::SqlParse => "STMT_SQL_PARSE",
            StmtError::SqlManyStmts => "STMT_SQL_MANY_STATEMENTS",
            StmtError::Blocked { .. } => "STMT_BLOCKED",
        }
    }
}

/// A batch-layer error reported by the engine.
#[derive(Clone, Copy, Debug)]
pub enum BatchError {
    ResponseTooLarge,
}

/// The stable wire code of a batch-layer error.
pub open spec fn spec_batch_code(e: BatchError) -> Seq<char> {
    match e {
        BatchError::ResponseTooLarge => "BATCH_RESPONSE_TOO_LARGE"@,
    }
}

impl BatchError {
    /// The stable wire code for this failure.
    pub fn code(&self) -> (r: &'static str)
        ensures
            r@ == spec_batch_code(*self),
    {
        match self {
            BatchError::ResponseTooLarge => "BATCH_RESPONSE_TOO_LARGE",
        }
    }
}

/// An error that is framed back to the client in the response envelope; it
/// does not terminate the session.
#[derive(Clone, Debug)]
pub enum ResponseError {
    /// Authentication failed; carries the underlying kind.
    Auth { source: AuthError },
    /// The stream failed to open; jobs sent to it cannot run.
    StreamNotOpen { stream_id: i32 },
    /// The cursor failed to open; fetches from it cannot run.
    CursorNotOpen { cursor_id: i32 },
    /// The stored-SQL table is full.
    SqlTooMany { count: usize },
    Stmt(StmtError),
    Batch(BatchError),
}

/// The stable wire code of a response error.
pub open spec fn spec_response_code(e: ResponseError) -> Seq<char> {
    match e {
        ResponseError::Auth { source } => crate::auth::spec_auth_code(source),
        ResponseError::StreamNotOpen { .. } => "STREAM_NOT_OPEN"@,
        ResponseError::CursorNotOpen { .. } => "CURSOR_NOT_OPEN"@,
        ResponseError::SqlTooMany { .. } => "SQL_STORE_TOO_MANY"@,
        ResponseError::Stmt(inner) => spec_stmt_code(inner),
        ResponseError::Batch(inner) => spec_batch_code(inner),
    }
}

impl ResponseError {
    /// The stable wire code for this failure.
    pub fn code(&self) -> (r: &'static str)
        ensures
            r@ == spec_response_code(*self),
    {
        match self {
            ResponseError::Auth { source } => source.code(),
            ResponseError::SqlTooMany { .. } => "SQL_STORE_TOO_MANY",
            ResponseError::StreamNotOpen { .. } => "STREAM_NOT_OPEN",
            ResponseError::CursorNotOpen { .. } => "CURSOR_NOT_OPEN",
            ResponseError::Stmt(err) => err.code(),
            ResponseError::Batch(err) => err.code(),
        }
    }
}

/// What request handling can fail with: a protocol violation (closes the
/// connection) or a response error (framed back to the client).
#[derive(Clone, Debug)]
pub enum SessionError {
    Protocol(ProtocolError),
    Response(ResponseError),
}

/// An error reported while a job ran on a stream worker: a known engine
/// layer, an already-translated response error, or an opaque failure.
#[derive(Clone, Debug)]
pub enum JobError {
    Stmt(StmtError),
    Batch(BatchError),
    Response(ResponseError),
    Other(String),
}

/// Translate a statement-layer engine error into a response error; other
/// errors pass through untouched.
pub fn catch_stmt_error(err: JobError) -> (r: JobError)
    ensures
        r == match err {
            JobError::Stmt(e) => JobError::Response(ResponseError::Stmt(e)),
            _ => err,
        },
{
    match err {
        JobError::Stmt(e) => JobError::Response(ResponseError::Stmt(e)),
        other => other,
    }
}

/// Translate a batch-layer engine error into a response error; other errors
/// pass through untouched.
pub fn catch_batch_error(err: JobError) -> (r: JobError)
    ensures
        r == match err {
            JobError::Batch(e) => JobError::Response(ResponseError::Batch(e)),
            _ => err,
        },
{
    match err {
        JobError::Batch(e) => JobError::Response(ResponseError::Batch(e)),
        other => other,
    }
}

/// A statement as it arrives on the wire: the SQL either literal or by
/// stored id, plus parameters and the want-rows flag.
pub struct ProtoStmt {
    pub sql: Option<String>,
    pub sql_id: Option<i32>,
    pub params: Params,
    pub want_rows: bool,
}

/// The capacity of the stored-SQL table.
pub const MAX_SQL_COUNT: usize = 150;

/// A stream's session-side handle: the id of its open cursor, if any. The
/// job queue to the worker lives with the runtime, keyed by stream id.
#[derive(Clone, Copy, PartialEq, Eq, Structural, Debug)]
pub struct StreamHandle {
    pub cursor_id: Option<i32>,
}

/// An inbound request, already framed and decoded.
pub enum Request {
    OpenStream { stream_id: i32 },
    CloseStream { stream_id: i32 },
    Execute { stream_id: i32, stmt: ProtoStmt },
    Batch { stream_id: i32, batch: Vec<ProtoStmt> },
    Sequence { stream_id: i32, sql: Option<String>, sql_id: Option<i32> },
    Describe { stream_id: i32, sql: Option<String>, sql_id: Option<i32> },
    StoreSql { sql_id: i32, sql: String },
    CloseSql { sql_id: i32 },
    OpenCursor { stream_id: i32, cursor_id: i32, batch: Vec<ProtoStmt> },
    CloseCursor { cursor_id: i32 },
    FetchCursor { cursor_id: i32, max_count: u32 },
    GetAutocommit { stream_id: i32 },
}

/// A job for a stream worker: an operation tag plus its captured inputs.
/// The worker runs jobs strictly in order, one at a time, so it is the
/// single writer of the stream's database and cursor handles.
pub enum Job {
    /// Build the database connection and store it on the stream.
    Open,
    /// Terminal job; the worker exits after answering it.
    Close,
    Execute { query: Query, auth: Authenticated },
    Batch { pgm: Program, auth: Authenticated },
    Sequence { pgm: Program, auth: Authenticated },
    Describe { sql: String, auth: Authenticated },
    OpenCursor { cursor_id: i32, pgm: Program, auth: Authenticated },
    CloseCursor,
    FetchCursor { cursor_id: i32, max_count: usize, max_total_size: u64 },
    GetAutocommit,
}

/// A response the session produces itself, without touching a worker.
#[derive(Clone, Copy, PartialEq, Eq, Structural, Debug)]
pub enum Response {
    StoreSql,
    CloseSql,
}

/// What the runtime must do for a handled request.
pub enum Action {
    /// Spawn a fresh worker for this stream, then run the job on it.
    SpawnStream { stream_id: i32, job: Job },
    /// Enqueue the job on the stream's existing worker.
    RunJob { stream_id: i32, job: Job },
    /// Enqueue a terminal job, then drop the stream's queue.
    CloseStream { stream_id: i32, job: Job },
    /// Reply immediately.
    Respond { response: Response },
}

/// Per-client session state: identity, negotiated version, and the three
/// tables (streams, stored SQL texts, cursors).
pub struct Session {
    authenticated: Authenticated,
    version: Version,
    streams: HashMap<i32, StreamHandle>,
    sqls: HashMap<i32, String>,
    cursors: HashMap<i32, i32>,
}

impl Session {
    /// The current identity.
    pub closed spec fn spec_authenticated(self) -> Authenticated {
        self.authenticated
    }

    /// The negotiated protocol version.
    pub closed spec fn spec_version(self) -> Version {
        self.version
    }

    /// The stream table.
    pub closed spec fn spec_streams(self) -> Map<i32, StreamHandle> {
        self.streams@
    }

    /// The stored-SQL table.
    pub closed spec fn spec_sqls(self) -> Map<i32, String> {
        self.sqls@
    }

    /// The cursor table: cursor id to owning stream id.
    pub closed spec fn spec_cursors(self) -> Map<i32, i32> {
        self.cursors@
    }

    /// The session invariant: the cursor table and the streams' cursor ids
    /// mirror each other exactly, and the stored-SQL table stays within its
    /// capacity.
    pub open spec fn wf(self) -> bool {
        &&& self.spec_streams().dom().finite()
        &&& self.spec_sqls().dom().finite()
        &&& self.spec_cursors().dom().finite()
        &&& forall|cid: i32| #[trigger]
            self.spec_cursors().contains_key(cid) ==> {
                &&& self.spec_streams().contains_key(self.spec_cursors()[cid])
                &&& self.spec_streams()[self.spec_cursors()[cid]].cursor_id == Some(cid)
            }
        &&& forall|sid: i32| #[trigger]
            self.spec_streams().contains_key(sid) ==> match self.spec_streams()[sid].cursor_id {
                Some(cid) => self.spec_cursors().contains_key(cid) && self.spec_cursors()[cid]
                    == sid,
                None => true,
            }
        &&& self.spec_sqls().dom().len() <= MAX_SQL_COUNT
    }

    /// The number of open streams.
    pub fn stream_count(&self) -> (r: usize)
        ensures
            r == self.spec_streams().dom().len(),
    {
        self.streams.len()
    }

    /// The number of stored SQL texts.
    pub fn sql_count(&self) -> (r: usize)
        ensures
            r == self.spec_sqls().dom().len(),
    {
        self.sqls.len()
    }

    /// The number of open cursors.
    pub fn cursor_count(&self) -> (r: usize)
        ensures
            r == self.spec_cursors().dom().len(),
    {
        self.cursors.len()
    }

    /// Whether a stream with this id is open.
    pub fn has_stream(&self, stream_id: i32) -> (r: bool)
        ensures
            r == self.spec_streams().contains_key(stream_id),
    {
        self.streams.contains_key(&stream_id)
    }

    /// The open cursor of this stream, if the stream exists and has one.
    pub fn stream_cursor(&self, stream_id: i32) -> (r: Option<i32>)
        ensures
            r == (if self.spec_streams().contains_key(stream_id) {
                self.spec_streams()[stream_id].cursor_id
            } else {
                Option::<i32>::None
            }),
    {
        match self.streams.get(&stream_id) {
            Some(h) => h.cursor_id,
            None => None,
        }
    }

    /// The negotiated version.
    pub fn version(&self) -> (r: Version)
        ensures
            r == self.spec_version(),
    {
        self.version
    }

    /// The current identity.
    pub fn authenticated(&self) -> (r: Authenticated)
        ensures
            r == self.spec_authenticated(),
    {
        self.authenticated
    }
}

/// Whether resolving a wire statement's SQL text succeeds: exactly one of
/// the literal text and the stored id must be given, the stored id must
/// exist, and using stored ids at all needs protocol v2.
pub open spec fn spec_resolve_ok(
    sqls: Map<i32, String>,
    version: Version,
    sql: Option<String>,
    sql_id: Option<i32>,
) -> bool {
    &&& (sql_id is Some ==> spec_version_num(version) >= 2)
    &&& match (sql, sql_id) {
        (Some(_), None) => true,
        (None, Some(id)) => sqls.contains_key(id),
        _ => false,
    }
}

/// The resolved SQL text, meaningful when `spec_resolve_ok` holds.
pub open spec fn spec_resolved(
    sqls: Map<i32, String>,
    sql: Option<String>,
    sql_id: Option<i32>,
) -> Seq<char> {
    match (sql, sql_id) {
        (Some(s), None) => s@,
        (None, Some(id)) => sqls[id]@,
        _ => Seq::empty(),
    }
}

/// The error resolution fails with, meaningful when `spec_resolve_ok` does
/// not hold.
pub open spec fn spec_resolve_err(
    sqls: Map<i32, String>,
    version: Version,
    sql: Option<String>,
    sql_id: Option<i32>,
) -> ProtocolError {
    if sql_id is Some && spec_version_num(version) < 2 {
        ProtocolError::NotSupported { what: "The `sql_id` field", min_version: Version::Hrana2 }
    } else {
        match (sql, sql_id) {
            (None, Some(id)) => ProtocolError::SqlNotFound { sql_id: id },
            (Some(_), Some(_)) => ProtocolError::SqlIdAndSqlGiven,
            _ => ProtocolError::SqlMissing,
        }
    }
}

/// Whether a wire statement compiles against the session's tables.
pub open spec fn spec_stmt_ok(sqls: Map<i32, String>, version: Version, s: ProtoStmt) -> bool {
    spec_resolve_ok(sqls, version, s.sql, s.sql_id)
}

/// The query a wire statement compiles to, meaningful when `spec_stmt_ok`
/// holds.
pub open spec fn spec_stmt_query(sqls: Map<i32, String>, s: ProtoStmt) -> QueryV {
    QueryV { sql: spec_resolved(sqls, s.sql, s.sql_id), params: s.params@, want_rows: s.want_rows }
}

/// The queries a wire batch compiles to, meaningful when every statement
/// compiles.
pub open spec fn spec_batch_queries(sqls: Map<i32, String>, stmts: Seq<ProtoStmt>) -> Seq<QueryV> {
    Seq::new(stmts.len(), |i: int| spec_stmt_query(sqls, stmts[i]))
}

impl Session {
    /// Resolve a wire statement's SQL: literal text, or a lookup in the
    /// stored-SQL table (protocol v2 and later).
    pub fn proto_sql_to_sql(&self, sql: Option<String>, sql_id: Option<i32>) -> (r: Result<
        String,
        ProtocolError,
    >)
        ensures
            match r {
                Ok(s) => spec_resolve_ok(self.spec_sqls(), self.spec_version(), sql, sql_id) && s@
                    == spec_resolved(self.spec_sqls(), sql, sql_id),
                Err(e) => !spec_resolve_ok(self.spec_sqls(), self.spec_version(), sql, sql_id) && e
                    == spec_resolve_err(self.spec_sqls(), self.spec_version(), sql, sql_id),
            },
    {
        if sql_id.is_some() && !self.version.at_least(Version::Hrana2) {
            return Err(
                ProtocolError::NotSupported {
                    what: "The `sql_id` field",
                    min_version: Version::Hrana2,
                },
            );
        }
        match (sql, sql_id) {
            (Some(s), None) => Ok(s),
            (None, Some(id)) => match self.sqls.get(&id) {
                Some(text) => Ok(text.clone()),
                None => Err(ProtocolError::SqlNotFound { sql_id: id }),
            },
            (Some(_), Some(_)) => Err(ProtocolError::SqlIdAndSqlGiven),
            (None, None) => Err(ProtocolError::SqlMissing),
        }
    }

    /// Compile a wire statement into a query.
    pub fn proto_stmt_to_query(&self, stmt: ProtoStmt) -> (r: Result<Query, ProtocolError>)
        ensures
            match r {
                Ok(q) => spec_stmt_ok(self.spec_sqls(), self.spec_version(), stmt) && q@
                    == spec_stmt_query(self.spec_sqls(), stmt),
                Err(e) => !spec_stmt_ok(self.spec_sqls(), self.spec_version(), stmt) && e
                    == spec_resolve_err(self.spec_sqls(), self.spec_version(), stmt.sql,
                stmt.sql_id),
            },
    {
        let ProtoStmt { sql, sql_id, params, want_rows } = stmt;
        match self.proto_sql_to_sql(sql, sql_id) {
            Ok(text) => Ok(Query { stmt: Statement { sql: text }, params, want_rows }),
            Err(e) => Err(e),
        }
    }

    /// Compile a wire batch into the queries it lists; the first statement
    /// that does not compile wins.
    pub fn proto_batch_to_queries(&self, stmts: Vec<ProtoStmt>) -> (r: Result<
        Vec<Query>,
        ProtocolError,
    >)
        ensures
            match r {
                Ok(qs) => {
                    &&& forall|i: int|
                        0 <= i < stmts@.len() ==> spec_stmt_ok(
                            self.spec_sqls(),
                            self.spec_version(),
                            #[trigger] stmts@[i],
                        )
                    &&& batch_view(qs@) == spec_batch_queries(self.spec_sqls(), stmts@)
                },
                Err(e) => exists|i: int|
                    {
                        &&& 0 <= i < stmts@.len()
                        &&& !spec_stmt_ok(self.spec_sqls(), self.spec_version(), #[trigger] stmts@[i])
                        &&& (forall|j: int|
                            0 <= j < i ==> spec_stmt_ok(
                                self.spec_sqls(),
                                self.spec_version(),
                                #[trigger] stmts@[j],
                            ))
                        &&& e == spec_resolve_err(self.spec_sqls(), self.spec_version(),
                        stmts@[i].sql, stmts@[i].sql_id)
                    },
            },
    {
        let ghost orig = stmts@;
        let mut rest = stmts;
        let total = rest.len();
        let mut queries: Vec<Query> = Vec::new();
        let mut i: usize = 0;
        while rest.len() > 0
            invariant
                orig == stmts@,
                orig.len() == total,
                i == queries@.len(),
                i + rest@.len() == orig.len(),
                rest@ == orig.subrange(i as int, orig.len() as int),
                forall|j: int|
                    0 <= j < i ==> spec_stmt_ok(
                        self.spec_sqls(),
                        self.spec_version(),
                        #[trigger] orig[j],
                    ),
                batch_view(queries@) == spec_batch_queries(self.spec_sqls(), orig).subrange(
                    0,
                    i as int,
                ),
            decreases rest@.len(),
        {
            let stmt = rest.remove(0);
            proof {
                assert(stmt == orig[i as int]);
            }
            match self.proto_stmt_to_query(stmt) {
                Ok(q) => {
                    queries.push(q);
                },
                Err(e) => {
                    proof {
                        let wi = i as int;
                        assert(!spec_stmt_ok(self.spec_sqls(), self.spec_version(), stmts@[wi]));
                        assert(e == spec_resolve_err(self.spec_sqls(), self.spec_version(),
                        stmts@[wi].sql, stmts@[wi].sql_id));
                        assert(forall|j: int|
                            0 <= j < wi ==> spec_stmt_ok(
                                self.spec_sqls(),
                                self.spec_version(),
                                #[trigger] stmts@[j],
                            ));
                    }
                    return Err(e);
                },
            }
            i += 1;
            proof {
                assert(rest@ =~= orig.subrange(i as int, orig.len() as int));
                assert(batch_view(queries@) =~= spec_batch_queries(self.spec_sqls(),
                orig).subrange(0, i as int));
            }
        }
        proof {
            assert(batch_view(queries@) =~= spec_batch_queries(self.spec_sqls(), orig));
        }
        Ok(queries)
    }
}

/// Every statement of the batch compiles.
pub open spec fn spec_batch_all_ok(
    sqls: Map<i32, String>,
    version: Version,
    stmts: Seq<ProtoStmt>,
) -> bool {
    forall|i: int| 0 <= i < stmts.len() ==> spec_stmt_ok(sqls, version, #[trigger] stmts[i])
}

/// `e` is the error of the first statement that does not compile.
pub open spec fn spec_batch_first_err(
    sqls: Map<i32, String>,
    version: Version,
    stmts: Seq<ProtoStmt>,
    e: ProtocolError,
) -> bool {
    exists|i: int|
        {
            &&& 0 <= i < stmts.len()
            &&& !spec_stmt_ok(sqls, version, #[trigger] stmts[i])
            &&& (forall|j: int| 0 <= j < i ==> spec_stmt_ok(sqls, version, #[trigger] stmts[j]))
            &&& e == spec_resolve_err(sqls, version, stmts[i].sql, stmts[i].sql_id)
        }
}

/// The result value for a protocol violation.
pub open spec fn spec_protocol_failure(e: ProtocolError) -> Result<Action, SessionError> {
    Err(SessionError::Protocol(e))
}

/// Identity, version and the stored-SQL table unchanged.
pub open spec fn same_but_tables(pre: Session, post: Session) -> bool {
    &&& post.spec_sqls() == pre.spec_sqls()
    &&& post.spec_version() == pre.spec_version()
    &&& post.spec_authenticated() == pre.spec_authenticated()
}

/// Everything but the stored-SQL table unchanged.
pub open spec fn same_but_sqls(pre: Session, post: Session) -> bool {
    &&& post.spec_streams() == pre.spec_streams()
    &&& post.spec_cursors() == pre.spec_cursors()
    &&& post.spec_version() == pre.spec_version()
    &&& post.spec_authenticated() == pre.spec_authenticated()
}

/// What handling a request does: how the session changes and which action
/// or error comes back, for every request kind, mirroring the dispatch
/// table of the protocol (version gating first, then table lookups, then
/// compilation).
pub open spec fn spec_handle_post(
    pre: Session,
    post: Session,
    req: Request,
    max_response_size: u64,
    r: Result<Action, SessionError>,
) -> bool {
    match req {
        Request::OpenStream { stream_id } => {
            if pre.spec_streams().contains_key(stream_id) {
                &&& r == spec_protocol_failure(ProtocolError::StreamExists { stream_id })
                &&& post == pre
            } else {
                &&& post.spec_streams() == pre.spec_streams().insert(
                    stream_id,
                    StreamHandle { cursor_id: None },
                )
                &&& post.spec_cursors() == pre.spec_cursors()
                &&& same_but_tables(pre, post)
                &&& (r matches Ok(a) && a matches Action::SpawnStream { stream_id: s, job } && s
                    == stream_id && job is Open)
            }
        },
        Request::CloseStream { stream_id } => {
            if !pre.spec_streams().contains_key(stream_id) {
                &&& r == spec_protocol_failure(ProtocolError::StreamNotFound { stream_id })
                &&& post == pre
            } else {
                &&& post.spec_streams() == pre.spec_streams().remove(stream_id)
                &&& post.spec_cursors() == (match pre.spec_streams()[stream_id].cursor_id {
                    Some(cid) => pre.spec_cursors().remove(cid),
                    None => pre.spec_cursors(),
                })
                &&& same_but_tables(pre, post)
                &&& (r matches Ok(a) && a matches Action::CloseStream { stream_id: s, job } && s
                    == stream_id && job is Close)
            }
        },
        Request::Execute { stream_id, stmt } => {
            if !pre.spec_streams().contains_key(stream_id) {
                &&& r == spec_protocol_failure(ProtocolError::StreamNotFound { stream_id })
                &&& post == pre
            } else if !spec_stmt_ok(pre.spec_sqls(), pre.spec_version(), stmt) {
                &&& r == spec_protocol_failure(
                    spec_resolve_err(pre.spec_sqls(), pre.spec_version(), stmt.sql, stmt.sql_id),
                )
                &&& post == pre
            } else {
                &&& post == pre
                &&& (r matches Ok(a) && a matches Action::RunJob { stream_id: s, job } && s
                    == stream_id && (job matches Job::Execute { query, auth } && query@
                    == spec_stmt_query(pre.spec_sqls(), stmt) && auth == pre.spec_authenticated()))
            }
        },
        Request::Batch { stream_id, batch } => {
            if !pre.spec_streams().contains_key(stream_id) {
                &&& r == spec_protocol_failure(ProtocolError::StreamNotFound { stream_id })
                &&& post == pre
            } else if spec_batch_all_ok(pre.spec_sqls(), pre.spec_version(), batch@) {
                &&& post == pre
                &&& (r matches Ok(a) && a matches Action::RunJob { stream_id: s, job } && s
                    == stream_id && (job matches Job::Batch { pgm, auth } && pgm@
                    == spec_batch_steps(spec_batch_queries(pre.spec_sqls(), batch@)) && auth
                    == pre.spec_authenticated()))
            } else {
                &&& post == pre
                &&& (r matches Err(se) && se matches SessionError::Protocol(e)
                    && spec_batch_first_err(pre.spec_sqls(), pre.spec_version(), batch@, e))
            }
        },
        Request::Sequence { stream_id, sql, sql_id } => {
            if spec_version_num(pre.spec_version()) < 2 {
                &&& r == spec_protocol_failure(
                    ProtocolError::NotSupported {
                        what: "The `sequence` request",
                        min_version: Version::Hrana2,
                    },
                )
                &&& post == pre
            } else if !pre.spec_streams().contains_key(stream_id) {
                &&& r == spec_protocol_failure(ProtocolError::StreamNotFound { stream_id })
                &&& post == pre
            } else if !spec_resolve_ok(pre.spec_sqls(), pre.spec_version(), sql, sql_id) {
                &&& r == spec_protocol_failure(
                    spec_resolve_err(pre.spec_sqls(), pre.spec_version(), sql, sql_id),
                )
                &&& post == pre
            } else {
                &&& post == pre
                &&& (r matches Ok(a) && a matches Action::RunJob { stream_id: s, job } && s
                    == stream_id && (job matches Job::Sequence { pgm, auth } && pgm@
                    == spec_batch_steps(
                    seq![
                        QueryV {
                            sql: spec_resolved(pre.spec_sqls(), sql, sql_id),
                            params: Seq::empty(),
                            want_rows: false,
                        },
                    ],
                ) && auth == pre.spec_authenticated()))
            }
        },
        Request::Describe { stream_id, sql, sql_id } => {
            if spec_version_num(pre.spec_version()) < 2 {
                &&& r == spec_protocol_failure(
                    ProtocolError::NotSupported {
                        what: "The `describe` request",
                        min_version: Version::Hrana2,
                    },
                )
                &&& post == pre
            } else if !pre.spec_streams().contains_key(stream_id) {
                &&& r == spec_protocol_failure(ProtocolError::StreamNotFound { stream_id })
                &&& post == pre
            } else if !spec_resolve_ok(pre.spec_sqls(), pre.spec_version(), sql, sql_id) {
                &&& r == spec_protocol_failure(
                    spec_resolve_err(pre.spec_sqls(), pre.spec_version(), sql, sql_id),
                )
                &&& post == pre
            } else {
                &&& post == pre
                &&& (r matches Ok(a) && a matches Action::RunJob { stream_id: s, job } && s
                    == stream_id && (job matches Job::Describe { sql: text, auth } && text@
                    == spec_resolved(pre.spec_sqls(), sql, sql_id) && auth
                    == pre.spec_authenticated()))
            }
        },
        Request::StoreSql { sql_id, sql } => {
            if spec_version_num(pre.spec_version()) < 2 {
                &&& r == spec_protocol_failure(
                    ProtocolError::NotSupported {
                        what: "The `store_sql` request",
                        min_version: Version::Hrana2,
                    },
                )
                &&& post == pre
            } else if pre.spec_sqls().contains_key(sql_id) {
                &&& r == spec_protocol_failure(ProtocolError::SqlExists { sql_id })
                &&& post == pre
            } else if pre.spec_sqls().dom().len() >= MAX_SQL_COUNT {
                &&& (r matches Err(se) && se matches SessionError::Response(re) && re
                    matches ResponseError::SqlTooMany { count } && count
                    == pre.spec_sqls().dom().len())
                &&& post == pre
            } else {
                &&& post.spec_sqls() == pre.spec_sqls().insert(sql_id, sql)
                &&& same_but_sqls(pre, post)
                &&& (r matches Ok(a) && a matches Action::Respond { response } && response
                    is StoreSql)
            }
        },
        Request::CloseSql { sql_id } => {
            if spec_version_num(pre.spec_version()) < 2 {
                &&& r == spec_protocol_failure(
                    ProtocolError::NotSupported {
                        what: "The `close_sql` request",
                        min_version: Version::Hrana2,
                    },
                )
                &&& post == pre
            } else {
                &&& post.spec_sqls() == pre.spec_sqls().remove(sql_id)
                &&& same_but_sqls(pre, post)
                &&& (r matches Ok(a) && a matches Action::Respond { response } && response
                    is CloseSql)
            }
        },
        Request::OpenCursor { stream_id, cursor_id, batch } => {
            if spec_version_num(pre.spec_version()) < 3 {
                &&& r == spec_protocol_failure(
                    ProtocolError::NotSupported {
                        what: "The `open_cursor` request",
                        min_version: Version::Hrana3,
                    },
                )
                &&& post == pre
            } else if !pre.spec_streams().contains_key(stream_id) {
                &&& r == spec_protocol_failure(ProtocolError::StreamNotFound { stream_id })
                &&& post == pre
            } else if pre.spec_streams()[stream_id].cursor_id is Some {
                &&& r == spec_protocol_failure(ProtocolError::CursorAlreadyOpen { stream_id })
                &&& post == pre
            } else if pre.spec_cursors().contains_key(cursor_id) {
                &&& r == spec_protocol_failure(ProtocolError::CursorExists { cursor_id })
                &&& post == pre
            } else if !spec_batch_all_ok(pre.spec_sqls(), pre.spec_version(), batch@) {
                &&& (r matches Err(se) && se matches SessionError::Protocol(e)
                    && spec_batch_first_err(pre.spec_sqls(), pre.spec_version(), batch@, e))
                &&& post == pre
            } else {
                &&& post.spec_streams() == pre.spec_streams().insert(
                    stream_id,
                    StreamHandle { cursor_id: Some(cursor_id) },
                )
                &&& post.spec_cursors() == pre.spec_cursors().insert(cursor_id, stream_id)
                &&& same_but_tables(pre, post)
                &&& (r matches Ok(a) && a matches Action::RunJob { stream_id: s, job } && s
                    == stream_id && (job matches Job::OpenCursor { cursor_id: c, pgm, auth } && c
                    == cursor_id && pgm@ == spec_batch_steps(
                    spec_batch_queries(pre.spec_sqls(), batch@),
                ) && auth == pre.spec_authenticated()))
            }
        },
        Request::CloseCursor { cursor_id } => {
            if spec_version_num(pre.spec_version()) < 3 {
                &&& r == spec_protocol_failure(
                    ProtocolError::NotSupported {
                        what: "The `close_cursor` request",
                        min_version: Version::Hrana3,
                    },
                )
                &&& post == pre
            } else if !pre.spec_cursors().contains_key(cursor_id) {
                &&& r == spec_protocol_failure(ProtocolError::CursorNotFound { cursor_id })
                &&& post == pre
            } else {
                let sid = pre.spec_cursors()[cursor_id];
                if !pre.spec_streams().contains_key(sid) {
                    &&& r == spec_protocol_failure(
                        ProtocolError::StreamNotFound { stream_id: sid },
                    )
                    &&& post.spec_cursors() == pre.spec_cursors().remove(cursor_id)
                    &&& post.spec_streams() == pre.spec_streams()
                    &&& same_but_tables(pre, post)
                } else {
                    &&& post.spec_cursors() == pre.spec_cursors().remove(cursor_id)
                    &&& post.spec_streams() == pre.spec_streams().insert(
                        sid,
                        StreamHandle { cursor_id: None },
                    )
                    &&& same_but_tables(pre, post)
                    &&& (r matches Ok(a) && a matches Action::RunJob { stream_id: s, job } && s
                        == sid && job is CloseCursor)
                }
            }
        },
        Request::FetchCursor { cursor_id, max_count } => {
            if spec_version_num(pre.spec_version()) < 3 {
                &&& r == spec_protocol_failure(
                    ProtocolError::NotSupported {
                        what: "The `fetch_cursor` request",
                        min_version: Version::Hrana3,
                    },
                )
                &&& post == pre
            } else if !pre.spec_cursors().contains_key(cursor_id) {
                &&& r == spec_protocol_failure(ProtocolError::CursorNotFound { cursor_id })
                &&& post == pre
            } else {
                let sid = pre.spec_cursors()[cursor_id];
                if !pre.spec_streams().contains_key(sid) {
                    &&& r == spec_protocol_failure(
                        ProtocolError::StreamNotFound { stream_id: sid },
                    )
                    &&& post == pre
                } else {
                    &&& post == pre
                    &&& (r matches Ok(a) && a matches Action::RunJob { stream_id: s, job } && s
                        == sid && (job matches Job::FetchCursor {
                        cursor_id: c,
                        max_count: m,
                        max_total_size: t,
                    } && c == cursor_id && m == max_count as usize && t == max_response_size / 8))
                }
            }
        },
        Request::GetAutocommit { stream_id } => {
            if spec_version_num(pre.spec_version()) < 3 {
                &&& r == spec_protocol_failure(
                    ProtocolError::NotSupported {
                        what: "The `get_autocommit` request",
                        min_version: Version::Hrana3,
                    },
                )
                &&& post == pre
            } else if !pre.spec_streams().contains_key(stream_id) {
                &&& r == spec_protocol_failure(ProtocolError::StreamNotFound { stream_id })
                &&& post == pre
            } else {
                &&& post == pre
                &&& (r matches Ok(a) && a matches Action::RunJob { stream_id: s, job } && s
                    == stream_id && job is GetAutocommit)
            }
        },
    }
}

/// Build the session for the initial hello: the identity the authenticator
/// established, the negotiated version, and empty tables. An
/// authentication failure surfaces as an `Auth` response error.
pub fn handle_initial_hello(version: Version, auth_result: Result<Authenticated, AuthError>) -> (r:
    Result<Session, SessionError>)
    ensures
        match r {
            Ok(s) => {
                &&& (auth_result matches Ok(a) && s.spec_authenticated() == a)
                &&& s.spec_version() == version
                &&& s.spec_streams() == Map::<i32, StreamHandle>::empty()
                &&& s.spec_sqls() == Map::<i32, String>::empty()
                &&& s.spec_cursors() == Map::<i32, i32>::empty()
                &&& s.wf()
            },
            Err(e) => (auth_result matches Err(src) && e matches SessionError::Response(re) && (re
                matches ResponseError::Auth { source } && source == src)),
        },
{
    let authenticated = match auth_result {
        Ok(a) => a,
        Err(source) => {
            return Err(SessionError::Response(ResponseError::Auth { source }));
        },
    };
    let session = Session {
        authenticated,
        version,
        streams: HashMap::new(),
        sqls: HashMap::new(),
        cursors: HashMap::new(),
    };
    proof {
        assert(session.spec_sqls().dom() =~= Set::<i32>::empty());
        assert(session.spec_sqls().dom().len() == 0);
    }
    Ok(session)
}

impl Session {
    /// A repeated hello: allowed from protocol v2 on, it re-establishes
    /// the identity while preserving the stream, SQL and cursor tables.
    pub fn handle_repeated_hello(&mut self, auth_result: Result<Authenticated, AuthError>) -> (r:
        Result<(), SessionError>)
        ensures
            final(self).spec_streams() == old(self).spec_streams(),
            final(self).spec_sqls() == old(self).spec_sqls(),
            final(self).spec_cursors() == old(self).spec_cursors(),
            final(self).spec_version() == old(self).spec_version(),
            old(self).wf() ==> final(self).wf(),
            match r {
                Ok(()) => {
                    &&& spec_version_num(old(self).spec_version()) >= 2
                    &&& (auth_result matches Ok(a) && final(self).spec_authenticated() == a)
                },
                Err(e) => {
                    &&& final(self).spec_authenticated() == old(self).spec_authenticated()
                    &&& if spec_version_num(old(self).spec_version()) < 2 {
                        e matches SessionError::Protocol(pe) && pe matches ProtocolError::NotSupported {
                            what,
                            min_version,
                        } && what@ == "Repeated hello message"@ && min_version is Hrana2
                    } else {
                        auth_result matches Err(src) && e matches SessionError::Response(re) && (re
                            matches ResponseError::Auth { source } && source == src)
                    }
                },
            },
    {
        if !self.version.at_least(Version::Hrana2) {
            return Err(
                SessionError::Protocol(
                    ProtocolError::NotSupported {
                        what: "Repeated hello message",
                        min_version: Version::Hrana2,
                    },
                ),
            );
        }
        match auth_result {
            Ok(a) => {
                self.authenticated = a;
                Ok(())
            },
            Err(source) => Err(SessionError::Response(ResponseError::Auth { source })),
        }
    }

    /// Dispatch one inbound request: gate it on the negotiated version,
    /// update the session tables, and hand the runtime the action to
    /// perform. `max_response_size` is the server's response budget; a
    /// cursor fetch gets an eighth of it as its byte budget.
    pub fn handle_request(&mut self, req: Request, max_response_size: u64) -> (r: Result<
        Action,
        SessionError,
    >)
        requires
            old(self).wf(),
        ensures
            final(self).wf(),
            spec_handle_post(*old(self), *final(self), req, max_response_size, r),
    {
        match req {
            Request::OpenStream { stream_id } => {
                if self.streams.contains_key(&stream_id) {
                    return Err(
                        SessionError::Protocol(ProtocolError::StreamExists { stream_id }),
                    );
                }
                self.streams.insert(stream_id, StreamHandle { cursor_id: None });
                Ok(Action::SpawnStream { stream_id, job: Job::Open })
            },
            Request::CloseStream { stream_id } => {
                let h = match self.streams.get(&stream_id) {
                    Some(h) => *h,
                    None => {
                        return Err(
                            SessionError::Protocol(ProtocolError::StreamNotFound { stream_id }),
                        );
                    },
                };
                self.streams.remove(&stream_id);
                if let Some(cursor_id) = h.cursor_id {
                    self.cursors.remove(&cursor_id);
                }
                proof {
                    lemma_wf_close_stream(*old(self), *self, stream_id);
                }
                Ok(Action::CloseStream { stream_id, job: Job::Close })
            },
            Request::Execute { stream_id, stmt } => {
                if !self.streams.contains_key(&stream_id) {
                    return Err(
                        SessionError::Protocol(ProtocolError::StreamNotFound { stream_id }),
                    );
                }
                match self.proto_stmt_to_query(stmt) {
                    Ok(query) => Ok(
                        Action::RunJob {
                            stream_id,
                            job: Job::Execute { query, auth: self.authenticated },
                        },
                    ),
                    Err(e) => Err(SessionError::Protocol(e)),
                }
            },
            Request::Batch { stream_id, batch } => {
                if !self.streams.contains_key(&stream_id) {
                    return Err(
                        SessionError::Protocol(ProtocolError::StreamNotFound { stream_id }),
                    );
                }
                match self.proto_batch_to_queries(batch) {
                    Ok(queries) => {
                        let pgm = batch_program(queries);
                        Ok(
                            Action::RunJob {
                                stream_id,
                                job: Job::Batch { pgm, auth: self.authenticated },
                            },
                        )
                    },
                    Err(e) => Err(SessionError::Protocol(e)),
                }
            },
            Request::Sequence { stream_id, sql, sql_id } => {
                if !self.version.at_least(Version::Hrana2) {
                    return Err(
                        SessionError::Protocol(
                            ProtocolError::NotSupported {
                                what: "The `sequence` request",
                                min_version: Version::Hrana2,
                            },
                        ),
                    );
                }
                if !self.streams.contains_key(&stream_id) {
                    return Err(
                        SessionError::Protocol(ProtocolError::StreamNotFound { stream_id }),
                    );
                }
                match self.proto_sql_to_sql(sql, sql_id) {
                    Ok(text) => {
                        let mut queries: Vec<Query> = Vec::new();
                        queries.push(
                            Query {
                                stmt: Statement { sql: text },
                                params: Params::empty(),
                                want_rows: false,
                            },
                        );
                        let ghost qv = batch_view(queries@);
                        let pgm = batch_program(queries);
                        proof {
                            assert(qv[0].params =~= Seq::<Seq<char>>::empty());
                            assert(qv =~= seq![
                                QueryV {
                                    sql: spec_resolved(self.spec_sqls(), sql, sql_id),
                                    params: Seq::empty(),
                                    want_rows: false,
                                },
                            ]);
                        }
                        Ok(
                            Action::RunJob {
                                stream_id,
                                job: Job::Sequence { pgm, auth: self.authenticated },
                            },
                        )
                    },
                    Err(e) => Err(SessionError::Protocol(e)),
                }
            },
            Request::Describe { stream_id, sql, sql_id } => {
                if !self.version.at_least(Version::Hrana2) {
                    return Err(
                        SessionError::Protocol(
                            ProtocolError::NotSupported {
                                what: "The `describe` request",
                                min_version: Version::Hrana2,
                            },
                        ),
                    );
                }
                if !self.streams.contains_key(&stream_id) {
                    return Err(
                        SessionError::Protocol(ProtocolError::StreamNotFound { stream_id }),
                    );
                }
                match self.proto_sql_to_sql(sql, sql_id) {
                    Ok(text) => Ok(
                        Action::RunJob {
                            stream_id,
                            job: Job::Describe { sql: text, auth: self.authenticated },
                        },
                    ),
                    Err(e) => Err(SessionError::Protocol(e)),
                }
            },
            Request::StoreSql { sql_id, sql } => {
                if !self.version.at_least(Version::Hrana2) {
                    return Err(
                        SessionError::Protocol(
                            ProtocolError::NotSupported {
                                what: "The `store_sql` request",
                                min_version: Version::Hrana2,
                            },
                        ),
                    );
                }
                if self.sqls.contains_key(&sql_id) {
                    return Err(SessionError::Protocol(ProtocolError::SqlExists { sql_id }));
                }
                let count = self.sqls.len();
                if count >= MAX_SQL_COUNT {
                    return Err(
                        SessionError::Response(ResponseError::SqlTooMany { count }),
                    );
                }
                self.sqls.insert(sql_id, sql);
                Ok(Action::Respond { response: Response::StoreSql })
            },
            Request::CloseSql { sql_id } => {
                if !self.version.at_least(Version::Hrana2) {
                    return Err(
                        SessionError::Protocol(
                            ProtocolError::NotSupported {
                                what: "The `close_sql` request",
                                min_version: Version::Hrana2,
                            },
                        ),
                    );
                }
                self.sqls.remove(&sql_id);
                Ok(Action::Respond { response: Response::CloseSql })
            },
            Request::OpenCursor { stream_id, cursor_id, batch } => {
                if !self.version.at_least(Version::Hrana3) {
                    return Err(
                        SessionError::Protocol(
                            ProtocolError::NotSupported {
                                what: "The `open_cursor` request",
                                min_version: Version::Hrana3,
                            },
                        ),
                    );
                }
                let has_cursor = match self.streams.get(&stream_id) {
                    Some(h) => h.cursor_id.is_some(),
                    None => {
                        return Err(
                            SessionError::Protocol(ProtocolError::StreamNotFound { stream_id }),
                        );
                    },
                };
                if has_cursor {
                    return Err(
                        SessionError::Protocol(ProtocolError::CursorAlreadyOpen { stream_id }),
                    );
                }
                if self.cursors.contains_key(&cursor_id) {
                    return Err(
                        SessionError::Protocol(ProtocolError::CursorExists { cursor_id }),
                    );
                }
                match self.proto_batch_to_queries(batch) {
                    Ok(queries) => {
                        let pgm = batch_program(queries);
                        self.cursors.insert(cursor_id, stream_id);
                        self.streams.insert(stream_id, StreamHandle { cursor_id: Some(cursor_id) });
                        proof {
                            lemma_wf_open_cursor(*old(self), *self, stream_id, cursor_id);
                        }
                        Ok(
                            Action::RunJob {
                                stream_id,
                                job: Job::OpenCursor {
                                    cursor_id,
                                    pgm,
                                    auth: self.authenticated,
                                },
                            },
                        )
                    },
                    Err(e) => Err(SessionError::Protocol(e)),
                }
            },
            Request::CloseCursor { cursor_id } => {
                if !self.version.at_least(Version::Hrana3) {
                    return Err(
                        SessionError::Protocol(
                            ProtocolError::NotSupported {
                                what: "The `close_cursor` request",
                                min_version: Version::Hrana3,
                            },
                        ),
                    );
                }
                let stream_id = match self.cursors.get(&cursor_id) {
                    Some(sid) => *sid,
                    None => {
                        return Err(
                            SessionError::Protocol(ProtocolError::CursorNotFound { cursor_id }),
                        );
                    },
                };
                self.cursors.remove(&cursor_id);
                if !self.streams.contains_key(&stream_id) {
                    return Err(
                        SessionError::Protocol(ProtocolError::StreamNotFound { stream_id }),
                    );
                }
                proof {
                    // the verified form of the dispatcher's runtime assertion
                    // that the stream owns exactly this cursor
                    assert(old(self).spec_streams()[stream_id].cursor_id == Some(cursor_id));
                }
                self.streams.insert(stream_id, StreamHandle { cursor_id: None });
                proof {
                    lemma_wf_close_cursor(*old(self), *self, stream_id, cursor_id);
                }
                Ok(Action::RunJob { stream_id, job: Job::CloseCursor })
            },
            Request::FetchCursor { cursor_id, max_count } => {
                if !self.version.at_least(Version::Hrana3) {
                    return Err(
                        SessionError::Protocol(
                            ProtocolError::NotSupported {
                                what: "The `fetch_cursor` request",
                                min_version: Version::Hrana3,
                            },
                        ),
                    );
                }
                let stream_id = match self.cursors.get(&cursor_id) {
                    Some(sid) => *sid,
                    None => {
                        return Err(
                            SessionError::Protocol(ProtocolError::CursorNotFound { cursor_id }),
                        );
                    },
                };
                if !self.streams.contains_key(&stream_id) {
                    return Err(
                        SessionError::Protocol(ProtocolError::StreamNotFound { stream_id }),
                    );
                }
                proof {
                    // the verified form of the dispatcher's runtime assertion
                    assert(self.spec_streams()[stream_id].cursor_id == Some(cursor_id));
                }
                let max_total_size = max_response_size / 8;
                Ok(
                    Action::RunJob {
                        stream_id,
                        job: Job::FetchCursor {
                            cursor_id,
                            max_count: max_count as usize,
                            max_total_size,
                        },
                    },
                )
            },
            Request::GetAutocommit { stream_id } => {
                if !self.version.at_least(Version::Hrana3) {
                    return Err(
                        SessionError::Protocol(
                            ProtocolError::NotSupported {
                                what: "The `get_autocommit` request",
                                min_version: Version::Hrana3,
                            },
                        ),
                    );
                }
                if !self.streams.contains_key(&stream_id) {
                    return Err(
                        SessionError::Protocol(ProtocolError::StreamNotFound { stream_id }),
                    );
                }
                Ok(Action::RunJob { stream_id, job: Job::GetAutocommit })
            },
        }
    }
}

/// After closing a stream (and dropping its cursor entry, if it had one),
/// the session invariant still holds.
proof fn lemma_wf_close_stream(pre: Session, post: Session, stream_id: i32)
    requires
        pre.wf(),
        pre.spec_streams().contains_key(stream_id),
        post.spec_streams() == pre.spec_streams().remove(stream_id),
        post.spec_cursors() == (match pre.spec_streams()[stream_id].cursor_id {
            Some(cid) => pre.spec_cursors().remove(cid),
            None => pre.spec_cursors(),
        }),
        post.spec_sqls() == pre.spec_sqls(),
    ensures
        post.wf(),
{
    assert forall|cid: i32| #[trigger]
        post.spec_cursors().contains_key(cid) implies {
        &&& post.spec_streams().contains_key(post.spec_cursors()[cid])
        &&& post.spec_streams()[post.spec_cursors()[cid]].cursor_id == Some(cid)
    } by {
        assert(pre.spec_cursors().contains_key(cid));
        let sid = pre.spec_cursors()[cid];
        assert(pre.spec_streams()[sid].cursor_id == Some(cid));
        if sid == stream_id {
            // then cid is the dropped cursor and cannot still be in the table
            assert(false);
        }
    }
    assert forall|sid: i32| #[trigger]
        post.spec_streams().contains_key(sid) implies match post.spec_streams()[sid].cursor_id {
        Some(cid) => post.spec_cursors().contains_key(cid) && post.spec_cursors()[cid] == sid,
        None => true,
    } by {
        assert(pre.spec_streams().contains_key(sid));
        match pre.spec_streams()[sid].cursor_id {
            Some(cid) => {
                assert(pre.spec_cursors().contains_key(cid) && pre.spec_cursors()[cid] == sid);
                match pre.spec_streams()[stream_id].cursor_id {
                    Some(dropped) => {
                        if cid == dropped {
                            assert(sid == stream_id);
                        }
                    },
                    None => {},
                }
            },
            None => {},
        }
    }
}

/// After closing a cursor, the session invariant still holds.
proof fn lemma_wf_close_cursor(pre: Session, post: Session, stream_id: i32, cursor_id: i32)
    requires
        pre.wf(),
        pre.spec_cursors().contains_key(cursor_id),
        pre.spec_cursors()[cursor_id] == stream_id,
        pre.spec_streams().contains_key(stream_id),
        post.spec_streams() == pre.spec_streams().insert(
            stream_id,
            StreamHandle { cursor_id: None },
        ),
        post.spec_cursors() == pre.spec_cursors().remove(cursor_id),
        post.spec_sqls() == pre.spec_sqls(),
    ensures
        post.wf(),
{
    assert(pre.spec_streams()[stream_id].cursor_id == Some(cursor_id));
    assert forall|cid: i32| #[trigger]
        post.spec_cursors().contains_key(cid) implies {
        &&& post.spec_streams().contains_key(post.spec_cursors()[cid])
        &&& post.spec_streams()[post.spec_cursors()[cid]].cursor_id == Some(cid)
    } by {
        assert(pre.spec_cursors().contains_key(cid));
        let sid = pre.spec_cursors()[cid];
        assert(pre.spec_streams()[sid].cursor_id == Some(cid));
        if sid == stream_id {
            assert(cid == cursor_id);
        }
    }
    assert forall|sid: i32| #[trigger]
        post.spec_streams().contains_key(sid) implies match post.spec_streams()[sid].cursor_id {
        Some(cid) => post.spec_cursors().contains_key(cid) && post.spec_cursors()[cid] == sid,
        None => true,
    } by {
        if sid != stream_id {
            assert(pre.spec_streams().contains_key(sid));
            match pre.spec_streams()[sid].cursor_id {
                Some(cid) => {
                    assert(pre.spec_cursors().contains_key(cid) && pre.spec_cursors()[cid] == sid);
                    assert(cid != cursor_id);
                },
                None => {},
            }
        }
    }
}

/// The streams of a session that own an open cursor.
pub open spec fn spec_streams_with_cursor(s: Session) -> Set<i32> {
    s.spec_streams().dom().filter(|sid: i32| s.spec_streams()[sid].cursor_id is Some)
}

/// In every well-formed session the cursor table is exactly as large as the
/// set of streams with an open cursor, and each cursor entry points at a
/// live stream that points back at it.
pub proof fn lemma_cursor_count(s: Session)
    requires
        s.wf(),
    ensures
        s.spec_cursors().dom().len() == spec_streams_with_cursor(s).len(),
{
    let f = |cid: i32| s.spec_cursors()[cid];
    assert(vstd::relations::injective_on(f, s.spec_cursors().dom())) by {
        assert forall|c1: i32, c2: i32|
            #![trigger f(c1), f(c2)]
            s.spec_cursors().dom().contains(c1) && s.spec_cursors().dom().contains(c2) && f(c1)
                == f(c2) implies c1 == c2 by {
            let sid = s.spec_cursors()[c1];
            assert(s.spec_streams()[sid].cursor_id == Some(c1));
            assert(s.spec_streams()[sid].cursor_id == Some(c2));
        }
    }
    assert(s.spec_cursors().dom().map(f) =~= spec_streams_with_cursor(s)) by {
        assert forall|sid: i32| #[trigger]
            spec_streams_with_cursor(s).contains(sid) implies s.spec_cursors().dom().map(
            f,
        ).contains(sid) by {
            match s.spec_streams()[sid].cursor_id {
                Some(cid) => {
                    assert(s.spec_cursors().dom().contains(cid) && f(cid) == sid);
                },
                None => {},
            }
        }
        assert forall|sid: i32| #[trigger]
            s.spec_cursors().dom().map(f).contains(sid) implies spec_streams_with_cursor(
            s,
        ).contains(sid) by {
            let cid = choose|cid: i32| s.spec_cursors().dom().contains(cid) && f(cid) == sid;
            assert(s.spec_streams()[sid].cursor_id == Some(cid));
        }
    }
    lemma_map_size(s.spec_cursors().dom(), spec_streams_with_cursor(s), f);
}

/// Worker-local state of one stream: the database handle (absent until the
/// stream's open job succeeds; it stays absent when that job failed) and
/// the open cursor handle, if any. Only the stream's own worker touches
/// either, which makes all access to one logical connection single-writer.
pub struct Stream<D, C> {
    pub db: Option<D>,
    pub cursor_hnd: Option<C>,
}

impl<D, C> Stream<D, C> {
    /// A stream before its open job ran.
    pub fn new() -> (r: Self)
        ensures
            r.db is None,
            r.cursor_hnd is None,
    {
        Stream { db: None, cursor_hnd: None }
    }

    /// The database handle, or the error every job on a stream whose open
    /// job failed reports.
    pub fn db_ref(&self, stream_id: i32) -> (r: Result<&D, ResponseError>)
        ensures
            match r {
                Ok(d) => self.db == Some(*d),
                Err(e) => self.db is None && (e matches ResponseError::StreamNotOpen {
                    stream_id: s,
                } && s == stream_id),
            },
    {
        match &self.db {
            Some(d) => Ok(d),
            None => Err(ResponseError::StreamNotOpen { stream_id }),
        }
    }

    /// Detach the cursor handle for a fetch, or the error a fetch on a
    /// cursorless stream reports.
    pub fn take_cursor(&mut self, cursor_id: i32) -> (r: Result<C, ResponseError>)
        ensures
            final(self).db == old(self).db,
            match r {
                Ok(c) => old(self).cursor_hnd == Some(c) && final(self).cursor_hnd is None,
                Err(e) => {
                    &&& old(self).cursor_hnd is None
                    &&& final(self).cursor_hnd is None
                    &&& (e matches ResponseError::CursorNotOpen { cursor_id: c } && c == cursor_id)
                },
            },
    {
        match self.cursor_hnd.take() {
            Some(c) => Ok(c),
            None => Err(ResponseError::CursorNotOpen { cursor_id }),
        }
    }

    /// Reattach the cursor handle after a fetch.
    pub fn put_cursor(&mut self, cursor: C)
        ensures
            final(self).db == old(self).db,
            final(self).cursor_hnd == Some(cursor),
    {
        self.cursor_hnd = Some(cursor);
    }
}

/// One produced cursor entry with its accounted size in bytes.
pub struct SizedEntry<E> {
    pub entry: E,
    pub size: usize,
}

/// Whether a fetch may take one more entry: both the entry-count budget and
/// the byte budget are still open.
pub fn fetch_should_continue(
    count: usize,
    total_size: u64,
    max_count: usize,
    max_total_size: u64,
) -> (r: bool)
    ensures
        r == (count < max_count && total_size < max_total_size),
{
    count < max_count && total_size < max_total_size
}

/// The bytes of the first `k` entries.
pub open spec fn spec_size_sum<E>(entries: Seq<SizedEntry<E>>, k: int) -> int
    decreases k,
{
    if k <= 0 {
        0
    } else {
        spec_size_sum(entries, k - 1) + entries[k - 1].size
    }
}

/// Bounded drain of already-produced cursor entries: take entries in order
/// while fewer than `max_count` were taken and the bytes taken so far stay
/// under `max_total_size` (an entry is still taken whole when it crosses
/// the budget). The fetch is done only when the producer is exhausted, all
/// its entries were taken and both budgets stayed open.
pub fn drain_cursor_entries<E>(
    entries: Vec<SizedEntry<E>>,
    exhausted: bool,
    max_count: usize,
    max_total_size: u64,
) -> (r: (Vec<E>, bool))
    ensures
        ({
            let taken = r.0@.len() as int;
            &&& taken <= entries@.len()
            &&& taken <= max_count
            &&& r.0@ == entries@.subrange(0, taken).map_values(|se: SizedEntry<E>| se.entry)
            &&& (forall|j: int|
                0 <= j < taken ==> #[trigger] spec_size_sum(entries@, j) < max_total_size)
            &&& (taken == entries@.len() || taken >= max_count || spec_size_sum(entries@, taken)
                >= max_total_size)
            &&& r.1 == (exhausted && taken == entries@.len() && taken < max_count && spec_size_sum(
                entries@,
                taken,
            ) < max_total_size)
        }),
{
    let ghost orig = entries@;
    let mut rest = entries;
    let total_entries = rest.len();
    let mut out: Vec<E> = Vec::new();
    let mut total: u128 = 0;
    while rest.len() > 0 && out.len() < max_count && total < (max_total_size as u128)
        invariant
            orig == entries@,
            orig.len() == total_entries,
            out@.len() + rest@.len() == orig.len(),
            rest@ == orig.subrange(out@.len() as int, orig.len() as int),
            out@ == orig.subrange(0, out@.len() as int).map_values(|se: SizedEntry<E>| se.entry),
            total == spec_size_sum(orig, out@.len() as int),
            out@.len() <= max_count,
            forall|j: int|
                0 <= j < out@.len() ==> #[trigger] spec_size_sum(orig, j) < max_total_size,
        decreases rest@.len(),
    {
        let se = rest.remove(0);
        proof {
            assert(se == orig[out@.len() as int]);
        }
        total = total + (se.size as u128);
        out.push(se.entry);
        proof {
            assert(rest@ =~= orig.subrange(out@.len() as int, orig.len() as int));
            assert(out@ =~= orig.subrange(0, out@.len() as int).map_values(
                |se: SizedEntry<E>| se.entry,
            ));
        }
    }
    let done = exhausted && rest.len() == 0 && out.len() < max_count && total < (
    max_total_size as u128);
    (out, done)
}

/// After opening a cursor on a stream that had none, the session invariant
/// still holds.
proof fn lemma_wf_open_cursor(pre: Session, post: Session, stream_id: i32, cursor_id: i32)
    requires
        pre.wf(),
        pre.spec_streams().contains_key(stream_id),
        pre.spec_streams()[stream_id].cursor_id is None,
        !pre.spec_cursors().contains_key(cursor_id),
        post.spec_streams() == pre.spec_streams().insert(
            stream_id,
            StreamHandle { cursor_id: Some(cursor_id) },
        ),
        post.spec_cursors() == pre.spec_cursors().insert(cursor_id, stream_id),
        post.spec_sqls() == pre.spec_sqls(),
    ensures
        post.wf(),
{
    assert forall|cid: i32| #[trigger]
        post.spec_cursors().contains_key(cid) implies {
        &&& post.spec_streams().contains_key(post.spec_cursors()[cid])
        &&& post.spec_streams()[post.spec_cursors()[cid]].cursor_id == Some(cid)
    } by {
        if cid == cursor_id {
        } else {
            assert(pre.spec_cursors().contains_key(cid));
            assert(pre.spec_cursors()[cid] != stream_id);
        }
    }
    assert forall|sid: i32| #[trigger]
        post.spec_streams().contains_key(sid) implies match post.spec_streams()[sid].cursor_id {
        Some(cid) => post.spec_cursors().contains_key(cid) && post.spec_cursors()[cid] == sid,
        None => true,
    } by {
        if sid != stream_id {
            assert(pre.spec_streams().contains_key(sid));
            match pre.spec_streams()[sid].cursor_id {
                Some(cid) => {
                    assert(pre.spec_cursors().contains_key(cid));
                    assert(cid != cursor_id);
                },
                None => {},
            }
        }
    }
}

} // verus!

