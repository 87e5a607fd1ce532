//! The "program" intermediate representation: an ordered sequence of SQL
//! steps, each guarded by an optional condition over the outcomes of
//! strictly earlier steps, together with the lowering of flat batches into
//! programs with a short-circuit chain and a conditional rollback tail.

use vstd::prelude::*;

verus! {

/// A single SQL statement, carried as text. Parsing SQL is the embedded
/// engine's business; the core only moves statement text around.
pub struct Statement {
    pub sql: String,
}

impl View for Statement {
    type V = Seq<char>;

    open spec fn view(&self) -> Seq<char> {
        self.sql@
    }
}

/// Bound parameters for one statement, carried as text values. The core
/// never interprets them.
pub struct Params {
    pub positional: Vec<String>,
}

impl Params {
    pub fn empty() -> (r: Params)
        ensures
            r@.len() == 0,
    {
        Params { positional: Vec::new() }
    }
}

impl View for Params {
    type V = Seq<Seq<char>>;

    open spec fn view(&self) -> Seq<Seq<char>> {
        self.positional.deep_view()
    }
}

/// Mathematical model of a query: its statement text, its parameters and
/// whether the caller wants result rows.
pub ghost struct QueryV {
    pub sql: Seq<char>,
    pub params: Seq<Seq<char>>,
    pub want_rows: bool,
}

/// A parsed statement with bound parameters and a want-rows flag.
pub struct Query {
    pub stmt: Statement,
    pub params: Params,
    pub want_rows: bool,
}

impl View for Query {
    type V = QueryV;

    open spec fn view(&self) -> QueryV {
        QueryV { sql: self.stmt@, params: self.params@, want_rows: self.want_rows }
    }
}

/// What the executor recorded for one step: the engine ran it and it
/// succeeded, the engine ran it and it failed, or its condition was false
/// and the step was skipped.
#[derive(Clone, Copy, PartialEq, Eq, Structural, Debug)]
pub enum StepOutcome {
    Succeeded,
    Failed,
    Skipped,
}

/// The transaction state observable after a program ran.
#[derive(Clone, Copy, PartialEq, Eq, Structural, Debug)]
pub enum State {
    /// No explicit transaction is open.
    Init,
    /// An explicit transaction is open.
    Txn,
    /// A previous error left the connection unusable.
    Invalid,
}

/// A predicate over the outcomes of earlier steps. A skipped step counts
/// neither as succeeded nor as failed.
pub enum Cond {
    StepOk { step: usize },
    StepErr { step: usize },
    Not { cond: Box<Cond> },
    And { left: Box<Cond>, right: Box<Cond> },
    Or { left: Box<Cond>, right: Box<Cond> },
}

/// What [`Cond::eval`] returns: `StepOk(i)` and `StepErr(i)` are both false
/// when step `i` was skipped or lies outside the vector.
pub open spec fn spec_cond_eval(c: Cond, outcomes: Seq<StepOutcome>) -> bool
    decreases c,
{
    match c {
        Cond::StepOk { step } => step < outcomes.len() && outcomes[step as int]
            == StepOutcome::Succeeded,
        Cond::StepErr { step } => step < outcomes.len() && outcomes[step as int]
            == StepOutcome::Failed,
        Cond::Not { cond } => !spec_cond_eval(*cond, outcomes),
        Cond::And { left, right } => spec_cond_eval(*left, outcomes) && spec_cond_eval(
            *right,
            outcomes,
        ),
        Cond::Or { left, right } => spec_cond_eval(*left, outcomes) || spec_cond_eval(
            *right,
            outcomes,
        ),
    }
}

/// All step indices the condition refers to lie strictly below `limit`.
pub open spec fn spec_cond_refs_below(c: Cond, limit: int) -> bool
    decreases c,
{
    match c {
        Cond::StepOk { step } => step < limit,
        Cond::StepErr { step } => step < limit,
        Cond::Not { cond } => spec_cond_refs_below(*cond, limit),
        Cond::And { left, right } => spec_cond_refs_below(*left, limit) && spec_cond_refs_below(
            *right,
            limit,
        ),
        Cond::Or { left, right } => spec_cond_refs_below(*left, limit) && spec_cond_refs_below(
            *right,
            limit,
        ),
    }
}

impl Cond {
    /// Evaluate the condition against the recorded outcomes.
    pub fn eval(&self, outcomes: &Vec<StepOutcome>) -> (r: bool)
        ensures
            r == spec_cond_eval(*self, outcomes@),
        decreases *self,
    {
        match self {
            Cond::StepOk { step } => *step < outcomes.len() && outcomes[*step]
                == StepOutcome::Succeeded,
            Cond::StepErr { step } => *step < outcomes.len() && outcomes[*step]
                == StepOutcome::Failed,
            Cond::Not { cond } => !cond.eval(outcomes),
            Cond::And { left, right } => left.eval(outcomes) && right.eval(outcomes),
            Cond::Or { left, right } => left.eval(outcomes) || right.eval(outcomes),
        }
    }

    /// Check that every referenced step index is strictly below `limit`.
    pub fn refs_below(&self, limit: usize) -> (r: bool)
        ensures
            r == spec_cond_refs_below(*self, limit as int),
        decreases *self,
    {
        match self {
            Cond::StepOk { step } => *step < limit,
            Cond::StepErr { step } => *step < limit,
            Cond::Not { cond } => cond.refs_below(limit),
            Cond::And { left, right } => left.refs_below(limit) && right.refs_below(limit),
            Cond::Or { left, right } => left.refs_below(limit) && right.refs_below(limit),
        }
    }
}

/// One program step: a query guarded by an optional condition.
pub struct Step {
    pub query: Query,
    pub cond: Option<Cond>,
}

/// Mathematical model of a step.
pub ghost struct StepV {
    pub query: QueryV,
    pub cond: Option<Cond>,
}

impl View for Step {
    type V = StepV;

    open spec fn view(&self) -> StepV {
        StepV { query: self.query@, cond: self.cond }
    }
}

/// The models of a step list.
pub open spec fn steps_view(steps: Seq<Step>) -> Seq<StepV> {
    steps.map_values(|s: Step| s@)
}

/// The models of a batch.
pub open spec fn batch_view(batch: Seq<Query>) -> Seq<QueryV> {
    batch.map_values(|q: Query| q@)
}

/// The condition of `s`, if any, refers only to steps strictly below `limit`.
pub open spec fn step_cond_refs_below(s: StepV, limit: int) -> bool {
    match s.cond {
        Some(c) => spec_cond_refs_below(c, limit),
        None => true,
    }
}

/// Every condition in `steps` refers only to strictly earlier steps.
pub open spec fn steps_wf(steps: Seq<StepV>) -> bool {
    forall|i: int| 0 <= i < steps.len() ==> step_cond_refs_below(#[trigger] steps[i], i)
}

/// Why a step list was rejected at program construction.
#[derive(Clone, Copy, PartialEq, Eq, Structural, Debug)]
pub enum ProgramError {
    /// The condition of the step at this index references that step itself
    /// or a later one.
    CondForwardRef { step: usize },
}

/// An immutable, validated sequence of conditional steps: every condition
/// refers only to strictly earlier steps.
pub struct Program {
    steps: Vec<Step>,
}

impl View for Program {
    type V = Seq<StepV>;

    closed spec fn view(&self) -> Seq<StepV> {
        steps_view(self.steps@)
    }
}

impl Program {
    #[verifier::type_invariant]
    spec fn wf(self) -> bool {
        steps_wf(steps_view(self.steps@))
    }

    /// Validate and build a program; rejects any condition that references
    /// a non-smaller step index.
    pub fn new(steps: Vec<Step>) -> (r: Result<Program, ProgramError>)
        ensures
            match r {
                Ok(p) => p@ == steps_view(steps@) && steps_wf(p@),
                Err(e) => {
                    &&& !steps_wf(steps_view(steps@))
                    &&& e matches ProgramError::CondForwardRef { step } && 0 <= step < steps@.len()
                        && !step_cond_refs_below(steps_view(steps@)[step as int], step as int)
                },
            },
    {
        let n = steps.len();
        let mut i: usize = 0;
        while i < n
            invariant
                n == steps@.len(),
                i <= n,
                forall|j: int| 0 <= j < i ==> step_cond_refs_below(
                    #[trigger] steps_view(steps@)[j],
                    j,
                ),
            decreases n - i,
        {
            let ok = match &steps[i].cond {
                Some(c) => c.refs_below(i),
                None => true,
            };
            if !ok {
                proof {
                    assert(steps_view(steps@)[i as int] == steps@[i as int]@);
                    assert(!step_cond_refs_below(steps_view(steps@)[i as int], i as int));
                }
                return Err(ProgramError::CondForwardRef { step: i });
            }
            i += 1;
        }
        Ok(Program { steps })
    }

    /// The validated steps. Every condition in them refers only to
    /// strictly earlier steps: the construction invariant holds of every
    /// program value.
    pub fn steps(&self) -> (r: &Vec<Step>)
        ensures
            steps_view(r@) == self@,
            steps_wf(self@),
    {
        proof {
            use_type_invariant(self);
        }
        &self.steps
    }

    /// The number of steps.
    pub fn len(&self) -> (r: usize)
        ensures
            r == self@.len(),
    {
        self.steps.len()
    }
}

/// The step list a flat batch lowers to: step 0 is unconditional and step
/// `i` (for `i > 0`) is guarded by success of step `i - 1`.
pub open spec fn spec_batch_steps(batch: Seq<QueryV>) -> Seq<StepV> {
    Seq::new(
        batch.len(),
        |i: int|
            StepV {
                query: batch[i],
                cond: if i == 0 {
                    None
                } else {
                    Some(Cond::StepOk { step: (i - 1) as usize })
                },
            },
    )
}

/// The short-circuit chain is always well formed: step `i` only tests
/// step `i - 1`.
pub proof fn lemma_batch_steps_wf(batch: Seq<QueryV>)
    ensures
        steps_wf(spec_batch_steps(batch)),
{
}

/// Reference bounds are monotone in the limit.
pub proof fn lemma_cond_refs_below_mono(c: Cond, a: int, b: int)
    requires
        spec_cond_refs_below(c, a),
        a <= b,
    ensures
        spec_cond_refs_below(c, b),
    decreases c,
{
    match c {
        Cond::StepOk { step } => {},
        Cond::StepErr { step } => {},
        Cond::Not { cond } => {
            lemma_cond_refs_below_mono(*cond, a, b);
        },
        Cond::And { left, right } => {
            lemma_cond_refs_below_mono(*left, a, b);
            lemma_cond_refs_below_mono(*right, a, b);
        },
        Cond::Or { left, right } => {
            lemma_cond_refs_below_mono(*left, a, b);
            lemma_cond_refs_below_mono(*right, a, b);
        },
    }
}

/// Lower a batch into the short-circuit step chain.
pub fn make_batch_program(batch: Vec<Query>) -> (steps: Vec<Step>)
    ensures
        steps_view(steps@) == spec_batch_steps(batch_view(batch@)),
{
    let ghost orig = batch@;
    let mut rest = batch;
    let total = rest.len();
    let mut steps: Vec<Step> = Vec::new();
    let mut i: usize = 0;
    while rest.len() > 0
        invariant
            orig.len() == total,
            i == steps@.len(),
            i + rest@.len() == orig.len(),
            rest@ == orig.subrange(i as int, orig.len() as int),
            steps_view(steps@) == spec_batch_steps(batch_view(orig)).subrange(0, i as int),
        decreases rest@.len(),
    {
        let query = rest.remove(0);
        let cond = if i > 0 {
            Some(Cond::StepOk { step: i - 1 })
        } else {
            None
        };
        steps.push(Step { query, cond });
        i += 1;
        proof {
            assert(rest@ =~= orig.subrange(i as int, orig.len() as int));
            assert(steps_view(steps@) =~= spec_batch_steps(batch_view(orig)).subrange(
                0,
                i as int,
            ));
        }
    }
    proof {
        assert(steps_view(steps@) =~= spec_batch_steps(batch_view(orig)));
    }
    steps
}

/// Lower a batch into a complete program without a rollback tail.
pub fn batch_program(batch: Vec<Query>) -> (p: Program)
    ensures
        p@ == spec_batch_steps(batch_view(batch@)),
        steps_wf(p@),
{
    let steps = make_batch_program(batch);
    proof {
        lemma_batch_steps_wf(batch_view(batch@));
    }
    Program { steps }
}

/// The bare `ROLLBACK` query: no parameters, no rows wanted. This is what
/// every rollback path hands to the engine.
pub fn rollback_query() -> (q: Query)
    ensures
        q@.sql == "ROLLBACK"@,
        q@.params.len() == 0,
        !q@.want_rows,
{
    let q = Query {
        stmt: Statement { sql: "ROLLBACK".to_owned() },
        params: Params::empty(),
        want_rows: false,
    };
    proof {
        assert(q@.params =~= Seq::<Seq<char>>::empty());
    }
    q
}

/// The step at index `last + 1` of a lowered batch-with-rollback: a bare
/// `ROLLBACK` guarded on the last original step not having succeeded.
pub open spec fn is_rollback_step(s: StepV, last: int) -> bool {
    &&& s.query.sql == "ROLLBACK"@
    &&& s.query.params.len() == 0
    &&& s.query.want_rows == false
    &&& (s.cond matches Some(Cond::Not { cond }) && *cond == (Cond::StepOk {
        step: last as usize,
    }))
}

/// Lower a batch and, when it is non-empty, append a conditional `ROLLBACK`
/// step guarded on the failure of the last original step.
pub fn batch_program_with_rollback(batch: Vec<Query>) -> (p: Program)
    ensures
        steps_wf(p@),
        batch@.len() == 0 ==> p@.len() == 0,
        batch@.len() > 0 ==> {
            &&& p@.len() == batch@.len() + 1
            &&& p@.subrange(0, batch@.len() as int) == spec_batch_steps(batch_view(batch@))
            &&& is_rollback_step(p@[batch@.len() as int], batch@.len() - 1)
        },
{
    let n = batch.len();
    let ghost batchv = batch_view(batch@);
    let mut steps = make_batch_program(batch);
    proof {
        lemma_batch_steps_wf(batchv);
    }
    if n > 0 {
        let step = Step {
            query: rollback_query(),
            cond: Some(Cond::Not { cond: Box::new(Cond::StepOk { step: n - 1 }) }),
        };
        let ghost pre = steps@;
        steps.push(step);
        proof {
            let sv = steps_view(steps@);
            assert(steps_view(pre) == spec_batch_steps(batchv));
            assert(steps_view(pre).len() == pre.len());
            assert(pre.len() == n as int);
            assert forall|i: int| 0 <= i < sv.len() implies step_cond_refs_below(
                #[trigger] sv[i],
                i,
            ) by {
                assert(sv[i] == steps@[i]@);
                if i < n {
                    assert(steps@[i] == pre[i]);
                    assert(steps_view(pre)[i] == pre[i]@);
                    assert(step_cond_refs_below(spec_batch_steps(batchv)[i], i));
                } else {
                    assert(spec_cond_refs_below(Cond::StepOk { step: (n - 1) as usize }, n as int));
                }
            }
            assert(sv.subrange(0, n as int) =~= spec_batch_steps(batchv)) by {
                assert forall|i: int| 0 <= i < n implies sv.subrange(0, n as int)[i]
                    == spec_batch_steps(batchv)[i] by {
                    assert(sv[i] == steps@[i]@);
                    assert(steps@[i] == pre[i]);
                    assert(steps_view(pre)[i] == pre[i]@);
                }
            }
            assert(sv[n as int] == steps@[n as int]@);
        }
    }
    Program { steps }
}

/// Whether step `i`'s condition holds against the recorded outcomes; a step
/// without a condition is always enabled.
pub open spec fn step_enabled(prog: Seq<StepV>, outcomes: Seq<StepOutcome>, i: int) -> bool {
    match prog[i].cond {
        None => true,
        Some(c) => spec_cond_eval(c, outcomes),
    }
}

/// An outcome vector is consistent with `prog` when it has one entry per
/// step and records `Skipped` exactly for the steps whose condition
/// evaluated to false.
pub open spec fn outcomes_match(prog: Seq<StepV>, outcomes: Seq<StepOutcome>) -> bool {
    &&& outcomes.len() == prog.len()
    &&& forall|i: int|
        0 <= i < prog.len() ==> (((#[trigger] outcomes[i]) == StepOutcome::Skipped)
            <==> !step_enabled(prog, outcomes, i))
}

/// A condition whose references all lie below `k` evaluates the same
/// against any extension of the first `k` outcomes.
pub proof fn lemma_cond_eval_prefix(c: Cond, outcomes: Seq<StepOutcome>, k: int)
    requires
        spec_cond_refs_below(c, k),
        0 <= k <= outcomes.len(),
    ensures
        spec_cond_eval(c, outcomes.subrange(0, k)) == spec_cond_eval(c, outcomes),
    decreases c,
{
    match c {
        Cond::StepOk { step } => {},
        Cond::StepErr { step } => {},
        Cond::Not { cond } => {
            lemma_cond_eval_prefix(*cond, outcomes, k);
        },
        Cond::And { left, right } => {
            lemma_cond_eval_prefix(*left, outcomes, k);
            lemma_cond_eval_prefix(*right, outcomes, k);
        },
        Cond::Or { left, right } => {
            lemma_cond_eval_prefix(*left, outcomes, k);
            lemma_cond_eval_prefix(*right, outcomes, k);
        },
    }
}

/// In a lowered batch, once some step did not succeed, every later original
/// step is skipped.
pub proof fn lemma_batch_short_circuit(
    batch: Seq<QueryV>,
    outcomes: Seq<StepOutcome>,
    j: int,
    k: int,
)
    requires
        outcomes_match(spec_batch_steps(batch), outcomes),
        batch.len() <= usize::MAX,
        0 <= j < k < batch.len(),
        outcomes[j] != StepOutcome::Succeeded,
    ensures
        outcomes[k] == StepOutcome::Skipped,
    decreases k - j,
{
    let prog = spec_batch_steps(batch);
    assert(prog[k].cond == Some(Cond::StepOk { step: (k - 1) as usize }));
    if k == j + 1 {
        assert(!spec_cond_eval(Cond::StepOk { step: (k - 1) as usize }, outcomes));
        assert((outcomes[k] == StepOutcome::Skipped) <==> !step_enabled(prog, outcomes, k));
    } else {
        lemma_batch_short_circuit(batch, outcomes, j, k - 1);
        assert(outcomes[k - 1] == StepOutcome::Skipped);
        assert(!spec_cond_eval(Cond::StepOk { step: (k - 1) as usize }, outcomes));
        assert((outcomes[k] == StepOutcome::Skipped) <==> !step_enabled(prog, outcomes, k));
    }
}

/// In a batch program with a rollback tail, the tail runs exactly when the
/// last original step did not succeed.
pub proof fn lemma_rollback_fires(prog: Seq<StepV>, outcomes: Seq<StepOutcome>, n: int)
    requires
        prog.len() == n + 1,
        1 <= n < usize::MAX,
        is_rollback_step(prog[n], n - 1),
        outcomes_match(prog, outcomes),
    ensures
        (outcomes[n] != StepOutcome::Skipped) <==> (outcomes[n - 1] != StepOutcome::Succeeded),
{
    assert(step_enabled(prog, outcomes, n) == !spec_cond_eval(
        Cond::StepOk { step: (n - 1) as usize },
        outcomes,
    ));
    assert((outcomes[n] == StepOutcome::Skipped) <==> !step_enabled(prog, outcomes, n));
}

/// Metadata for one bound parameter of a described statement.
pub struct DescribeParam {
    pub name: Option<String>,
}

/// Metadata for one result column of a described statement.
pub struct DescribeCol {
    pub name: String,
    pub decltype: Option<String>,
}

/// What `describe` reports: parameter and column metadata plus statement
/// classification flags. Describing a statement never mutates connection
/// state.
pub struct DescribeResponse {
    pub params: Vec<DescribeParam>,
    pub cols: Vec<DescribeCol>,
    pub is_explain: bool,
    pub is_readonly: bool,
}

} // verus!
