use sqld_core::auth::Authenticated;
use sqld_core::connection::Connection;
use sqld_core::error::Error;
use sqld_core::program::{
    batch_program, batch_program_with_rollback, make_batch_program, Cond, DescribeResponse,
    Params, Program, ProgramError, Query, State, Statement, StepOutcome,
};

fn query(sql: &str) -> Query {
    Query { stmt: Statement { sql: sql.to_string() }, params: Params::empty(), want_rows: true }
}

/// A scripted engine: runs a program honestly (evaluating conditions in
/// order) and fails exactly the statements listed in `fail_on`.
struct ScriptedDb {
    fail_on: Vec<String>,
    executed: Vec<String>,
}

impl ScriptedDb {
    fn new(fail_on: &[&str]) -> ScriptedDb {
        ScriptedDb { fail_on: fail_on.iter().map(|s| s.to_string()).collect(), executed: Vec::new() }
    }
}

impl Connection for ScriptedDb {
    fn execute_program(
        &mut self,
        pgm: Program,
        _auth: Authenticated,
    ) -> Result<(Vec<StepOutcome>, State), Error> {
        let mut outcomes: Vec<StepOutcome> = Vec::new();
        let mut rolled_back = false;
        for step in pgm.steps() {
            let enabled = match &step.cond {
                Some(c) => c.eval(&outcomes),
                None => true,
            };
            if enabled {
                let sql = step.query.stmt.sql.clone();
                if sql == "ROLLBACK" {
                    rolled_back = true;
                }
                self.executed.push(sql.clone());
                if self.fail_on.contains(&sql) {
                    outcomes.push(StepOutcome::Failed);
                } else {
                    outcomes.push(StepOutcome::Succeeded);
                }
            } else {
                outcomes.push(StepOutcome::Skipped);
            }
        }
        let state = if rolled_back { State::Init } else { State::Txn };
        Ok((outcomes, state))
    }

    fn describe(&mut self, _sql: String, _auth: Authenticated) -> Result<DescribeResponse, Error> {
        unreachable!()
    }

    fn is_autocommit(&mut self) -> Result<bool, Error> {
        Ok(true)
    }

    fn checkpoint(&mut self) -> Result<(), Error> {
        Ok(())
    }
}

#[test]
fn empty_batch_lowers_to_empty_program() {
    let steps = make_batch_program(Vec::new());
    assert_eq!(steps.len(), 0);
    let pgm = batch_program_with_rollback(Vec::new());
    assert_eq!(pgm.len(), 0);
}

#[test]
fn batch_lowering_chains_on_success() {
    let steps = make_batch_program(vec![query("a"), query("b"), query("c")]);
    assert_eq!(steps.len(), 3);
    assert!(steps[0].cond.is_none());
    assert!(matches!(steps[1].cond, Some(Cond::StepOk { step: 0 })));
    assert!(matches!(steps[2].cond, Some(Cond::StepOk { step: 1 })));
    assert_eq!(steps[1].query.stmt.sql, "b");
}

#[test]
fn rollback_tail_guards_on_last_step() {
    let pgm = batch_program_with_rollback(vec![query("a"), query("b")]);
    assert_eq!(pgm.len(), 3);
    let steps = pgm.steps();
    let tail = &steps[2];
    assert_eq!(tail.query.stmt.sql, "ROLLBACK");
    assert!(!tail.query.want_rows);
    match &tail.cond {
        Some(Cond::Not { cond }) => {
            assert!(matches!(**cond, Cond::StepOk { step: 1 }));
        }
        other => panic!("unexpected rollback condition: {:?}", other.is_some()),
    }
}

#[test]
fn program_new_rejects_forward_and_self_references() {
    let mut steps = make_batch_program(vec![query("a"), query("b")]);
    steps[1].cond = Some(Cond::StepOk { step: 1 });
    let r = Program::new(steps);
    assert!(matches!(r, Err(ProgramError::CondForwardRef { step: 1 })));

    let mut steps2 = make_batch_program(vec![query("a"), query("b")]);
    steps2[0].cond = Some(Cond::StepErr { step: 5 });
    assert!(Program::new(steps2).is_err());

    let steps3 = make_batch_program(vec![query("a"), query("b")]);
    assert!(Program::new(steps3).is_ok());
}

#[test]
fn cond_eval_treats_skipped_as_neither_ok_nor_err() {
    let outcomes = vec![StepOutcome::Succeeded, StepOutcome::Failed, StepOutcome::Skipped];
    assert!(Cond::StepOk { step: 0 }.eval(&outcomes));
    assert!(!Cond::StepErr { step: 0 }.eval(&outcomes));
    assert!(Cond::StepErr { step: 1 }.eval(&outcomes));
    // a skipped step counts as neither ok nor err
    assert!(!Cond::StepOk { step: 2 }.eval(&outcomes));
    assert!(!Cond::StepErr { step: 2 }.eval(&outcomes));
    // an index outside the vector is neither ok nor err
    assert!(!Cond::StepOk { step: 9 }.eval(&outcomes));
    // the boolean connectives
    let not = Cond::Not { cond: Box::new(Cond::StepOk { step: 2 }) };
    assert!(not.eval(&outcomes));
    let and = Cond::And {
        left: Box::new(Cond::StepOk { step: 0 }),
        right: Box::new(Cond::StepErr { step: 1 }),
    };
    assert!(and.eval(&outcomes));
    let or = Cond::Or {
        left: Box::new(Cond::StepOk { step: 2 }),
        right: Box::new(Cond::StepOk { step: 0 }),
    };
    assert!(or.eval(&outcomes));
}

#[test]
fn batch_short_circuits_after_failure() {
    let mut db = ScriptedDb::new(&["bad"]);
    let (outcomes, _state) = db
        .execute_batch(
            vec![query("a"), query("bad"), query("c"), query("d")],
            Authenticated::Anonymous,
        )
        .unwrap();
    assert_eq!(
        outcomes,
        vec![
            StepOutcome::Succeeded,
            StepOutcome::Failed,
            StepOutcome::Skipped,
            StepOutcome::Skipped
        ]
    );
    // the failing statement ran, the skipped ones did not
    assert_eq!(db.executed, vec!["a".to_string(), "bad".to_string()]);
}

#[test]
fn batch_or_rollback_fires_rollback_and_hides_it() {
    let mut db = ScriptedDb::new(&["INSERT fail"]);
    let batch = vec![query("BEGIN"), query("INSERT ok"), query("INSERT fail"), query("INSERT ok2")];
    let (outcomes, state) = db.execute_batch_or_rollback(batch, Authenticated::Anonymous).unwrap();
    // only the four original slots come back
    assert_eq!(
        outcomes,
        vec![
            StepOutcome::Succeeded,
            StepOutcome::Succeeded,
            StepOutcome::Failed,
            StepOutcome::Skipped
        ]
    );
    // the injected rollback fired and the transaction is back to Init
    assert_eq!(state, State::Init);
    assert_eq!(db.executed.last().unwrap(), "ROLLBACK");
}

#[test]
fn batch_or_rollback_skips_rollback_on_success() {
    let mut db = ScriptedDb::new(&[]);
    let batch = vec![query("BEGIN"), query("INSERT ok")];
    let (outcomes, state) = db.execute_batch_or_rollback(batch, Authenticated::Anonymous).unwrap();
    assert_eq!(outcomes, vec![StepOutcome::Succeeded, StepOutcome::Succeeded]);
    assert_eq!(state, State::Txn);
    assert!(!db.executed.contains(&"ROLLBACK".to_string()));
}

#[test]
fn rollback_issues_a_bare_rollback() {
    let mut db = ScriptedDb::new(&[]);
    db.rollback(Authenticated::Anonymous).unwrap();
    assert_eq!(db.executed, vec!["ROLLBACK".to_string()]);
}

#[test]
fn batch_program_keeps_queries_in_order() {
    let pgm = batch_program(vec![query("x"), query("y")]);
    assert_eq!(pgm.len(), 2);
    assert_eq!(pgm.steps()[0].query.stmt.sql, "x");
    assert_eq!(pgm.steps()[1].query.stmt.sql, "y");
}
