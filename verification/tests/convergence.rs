use ensure_schema::{
    Cause, CheckFn, EnsureSchema, RecordedCall, Response, RowShapeError, SchemaState,
    SchemaStateError, ScriptDb, Value,
};

fn bool_row(b: bool) -> Vec<Vec<Value>> {
    vec![vec![Value::Bool(b)]]
}

fn node(name: &str, check: &str, meets: Vec<&str>) -> EnsureSchema {
    EnsureSchema::with_bool_check(
        name.to_string(),
        check.to_string(),
        meets.into_iter().map(|s| s.to_string()).collect(),
    )
}

fn served_sqls(db: &ScriptDb) -> Vec<(bool, String)> {
    db.served
        .iter()
        .map(|c| match c {
            RecordedCall::Query { sql, .. } => (true, sql.clone()),
            RecordedCall::Execute { sql, .. } => (false, sql.clone()),
        })
        .collect()
}

#[test]
fn satisfied_object_reports_met() {
    let mut db = ScriptDb::new(vec![Response::Rows(bool_row(true))]);
    let n = node("t", "SELECT ok FROM state", vec!["CREATE TABLE t(x INT)"]);
    let r = n.ensure(&mut db);
    assert_eq!(r.unwrap(), SchemaState::Met);
    assert_eq!(db.queries_served(), 1);
    assert_eq!(db.executes_served(), 0);
}

#[test]
fn end_to_end_change_runs_one_execute_and_two_queries() {
    // The check first reports false, the corrective statement runs, the
    // re-check reports true.
    let mut db = ScriptDb::new(vec![
        Response::Rows(bool_row(false)),
        Response::Done,
        Response::Rows(bool_row(true)),
    ]);
    let n = node("table_x", "SELECT ok FROM state", vec!["CREATE TABLE x(a INT)"]);
    let r = n.ensure(&mut db);
    assert_eq!(r.unwrap(), SchemaState::Changed);
    assert_eq!(db.queries_served(), 2);
    assert_eq!(db.executes_served(), 1);
    assert_eq!(
        served_sqls(&db),
        vec![
            (true, "SELECT ok FROM state".to_string()),
            (false, "CREATE TABLE x(a INT)".to_string()),
            (true, "SELECT ok FROM state".to_string()),
        ]
    );
}

#[test]
fn second_run_on_converged_database_is_met() {
    let mut db = ScriptDb::new(vec![
        Response::Rows(bool_row(false)),
        Response::Done,
        Response::Rows(bool_row(true)),
        // the database is unchanged after convergence: the check still
        // answers true
        Response::Rows(bool_row(true)),
    ]);
    let first = node("t", "CHECK", vec!["MEET"]).ensure(&mut db);
    assert_eq!(first.unwrap(), SchemaState::Changed);
    let second = node("t", "CHECK", vec!["MEET"]).ensure(&mut db);
    assert_eq!(second.unwrap(), SchemaState::Met);
    assert_eq!(db.executes_served(), 1);
}

#[test]
fn dry_run_sends_no_statement() {
    let mut db = ScriptDb::new(vec![Response::Rows(bool_row(false))]);
    let n = node("t", "CHECK", vec!["MEET 1", "MEET 2"]);
    let r = n.ensure_with_dry_run(&mut db, true);
    assert_eq!(r.unwrap(), SchemaState::Met);
    assert_eq!(db.executes_served(), 0);
    assert_eq!(db.queries_served(), 1);
}

#[test]
fn dry_run_still_checks_prerequisites() {
    let mut db = ScriptDb::new(vec![
        Response::Rows(bool_row(false)),
        Response::Rows(bool_row(false)),
    ]);
    let n = node("a", "CHECK A", vec!["MEET A"])
        .with_meet_require(node("b", "CHECK B", vec!["MEET B"]));
    let r = n.ensure_with_dry_run(&mut db, true);
    assert_eq!(r.unwrap(), SchemaState::Met);
    assert_eq!(db.executes_served(), 0);
    assert_eq!(
        served_sqls(&db),
        vec![(true, "CHECK A".to_string()), (true, "CHECK B".to_string())]
    );
}

#[test]
fn prerequisites_converge_depth_first() {
    // a requires b, b requires c; everything is unsatisfied. c must be
    // checked and corrected before b's corrective statement runs, and b
    // before a's.
    let mut db = ScriptDb::new(vec![
        Response::Rows(bool_row(false)), // check a
        Response::Rows(bool_row(false)), // check b
        Response::Rows(bool_row(false)), // check c
        Response::Done,                  // meet c
        Response::Rows(bool_row(true)),  // verify c
        Response::Done,                  // meet b
        Response::Rows(bool_row(true)),  // verify b
        Response::Done,                  // meet a
        Response::Rows(bool_row(true)),  // verify a
    ]);
    let c = node("c", "CHECK C", vec!["MEET C"]);
    let b = node("b", "CHECK B", vec!["MEET B"]).with_meet_require(c);
    let a = node("a", "CHECK A", vec!["MEET A"]).with_meet_require(b);
    let r = a.ensure(&mut db);
    assert_eq!(r.unwrap(), SchemaState::Changed);
    assert_eq!(
        served_sqls(&db),
        vec![
            (true, "CHECK A".to_string()),
            (true, "CHECK B".to_string()),
            (true, "CHECK C".to_string()),
            (false, "MEET C".to_string()),
            (true, "CHECK C".to_string()),
            (false, "MEET B".to_string()),
            (true, "CHECK B".to_string()),
            (false, "MEET A".to_string()),
            (true, "CHECK A".to_string()),
        ]
    );
}

#[test]
fn satisfied_check_short_circuits_prerequisites() {
    // a has a prerequisite and statements configured, but its check is
    // already satisfied: nothing else may run.
    let mut db = ScriptDb::new(vec![Response::Rows(bool_row(true))]);
    let b = node("b", "CHECK B", vec!["MEET B"]);
    let a = node("a", "CHECK A", vec!["MEET A"]).with_meet_require(b);
    let r = a.ensure(&mut db);
    assert_eq!(r.unwrap(), SchemaState::Met);
    assert_eq!(db.served.len(), 1);
}

#[test]
fn verification_failure_is_a_meet_error() {
    // After the corrective statement runs, the check still reports false:
    // the call must fail naming the node, and must not report Changed.
    let mut db = ScriptDb::new(vec![
        Response::Rows(bool_row(false)),
        Response::Done,
        Response::Rows(bool_row(false)),
    ]);
    let n = node("stubborn", "CHECK", vec!["MEET"]);
    let r = n.ensure(&mut db);
    match r {
        Err(SchemaStateError::MeetError(name, Cause::Verification)) => {
            assert_eq!(name, "stubborn");
        }
        other => panic!("expected a verification meet error, got {:?}", other),
    }
}

#[test]
fn prerequisite_error_is_propagated_unchanged() {
    let mut db = ScriptDb::new(vec![
        Response::Rows(bool_row(false)), // check a: needs work
        Response::Fail("b is broken".to_string()), // check b fails
    ]);
    let b = node("b", "CHECK B", vec!["MEET B"]);
    let a = node("a", "CHECK A", vec!["MEET A"]).with_meet_require(b);
    let r = a.ensure(&mut db);
    match r {
        Err(SchemaStateError::CheckError(name, Cause::Database(m))) => {
            assert_eq!(name, "b");
            assert_eq!(m, "b is broken");
        }
        other => panic!("expected b's check error unchanged, got {:?}", other),
    }
}

#[test]
fn failing_check_query_is_a_check_error() {
    let mut db = ScriptDb::new(vec![Response::Fail("no such table".to_string())]);
    let r = node("t", "CHECK", vec!["MEET"]).ensure(&mut db);
    match r {
        Err(SchemaStateError::CheckError(name, Cause::Database(m))) => {
            assert_eq!(name, "t");
            assert_eq!(m, "no such table");
        }
        other => panic!("expected a check error, got {:?}", other),
    }
}

#[test]
fn failing_corrective_statement_is_a_meet_error() {
    let mut db = ScriptDb::new(vec![
        Response::Rows(bool_row(false)),
        Response::Fail("syntax error".to_string()),
    ]);
    let r = node("t", "CHECK", vec!["MEET"]).ensure(&mut db);
    match r {
        Err(SchemaStateError::MeetError(name, Cause::Database(m))) => {
            assert_eq!(name, "t");
            assert_eq!(m, "syntax error");
        }
        other => panic!("expected a meet error, got {:?}", other),
    }
}

#[test]
fn failing_verify_query_is_a_meet_error() {
    let mut db = ScriptDb::new(vec![
        Response::Rows(bool_row(false)),
        Response::Done,
        Response::Fail("connection lost".to_string()),
    ]);
    let r = node("t", "CHECK", vec!["MEET"]).ensure(&mut db);
    match r {
        Err(SchemaStateError::MeetError(name, Cause::Database(m))) => {
            assert_eq!(name, "t");
            assert_eq!(m, "connection lost");
        }
        other => panic!("expected a meet error, got {:?}", other),
    }
}

#[test]
fn statements_stop_at_first_failure() {
    let mut db = ScriptDb::new(vec![
        Response::Rows(bool_row(false)),
        Response::Done,
        Response::Fail("disk full".to_string()),
    ]);
    let n = node("t", "CHECK", vec!["MEET 1", "MEET 2", "MEET 3"]);
    let r = n.ensure(&mut db);
    assert!(r.is_err());
    // MEET 1 succeeded, MEET 2 failed, MEET 3 never ran.
    assert_eq!(db.executes_served(), 2);
    assert_eq!(db.served.len(), 3);
}

#[test]
fn bool_check_with_zero_rows_is_a_check_error() {
    let mut db = ScriptDb::new(vec![Response::Rows(vec![])]);
    let r = node("t", "CHECK", vec!["MEET"]).ensure(&mut db);
    match r {
        Err(SchemaStateError::CheckError(name, Cause::RowShape(RowShapeError::NoRows))) => {
            assert_eq!(name, "t");
        }
        other => panic!("expected a row-shape check error, got {:?}", other),
    }
}

#[test]
fn bool_check_with_two_rows_is_a_check_error() {
    let mut db = ScriptDb::new(vec![Response::Rows(vec![
        vec![Value::Bool(true)],
        vec![Value::Bool(true)],
    ])]);
    let r = node("t", "CHECK", vec!["MEET"]).ensure(&mut db);
    assert!(matches!(
        r,
        Err(SchemaStateError::CheckError(_, Cause::RowShape(RowShapeError::ManyRows)))
    ));
}

#[test]
fn bool_check_with_non_boolean_value_is_a_check_error() {
    let mut db = ScriptDb::new(vec![Response::Rows(vec![vec![Value::Int(7)]])]);
    let r = node("t", "CHECK", vec!["MEET"]).ensure(&mut db);
    assert!(matches!(
        r,
        Err(SchemaStateError::CheckError(_, Cause::RowShape(RowShapeError::NotBoolean)))
    ));
}

#[test]
fn false_row_runs_the_configured_statements_unchanged_in_order() {
    let mut db = ScriptDb::new(vec![
        Response::Rows(bool_row(false)),
        Response::Done,
        Response::Done,
        Response::Rows(bool_row(true)),
    ]);
    let n = node("t", "CHECK", vec!["FIRST", "SECOND"]);
    let r = n.ensure(&mut db);
    assert_eq!(r.unwrap(), SchemaState::Changed);
    assert_eq!(
        served_sqls(&db),
        vec![
            (true, "CHECK".to_string()),
            (false, "FIRST".to_string()),
            (false, "SECOND".to_string()),
            (true, "CHECK".to_string()),
        ]
    );
}

#[test]
fn general_constructor_builds_the_boolean_check() {
    let mut db = ScriptDb::new(vec![Response::Rows(bool_row(true))]);
    let n = EnsureSchema::new(
        "t".to_string(),
        "CHECK".to_string(),
        CheckFn::Bool { meet_queries: vec!["MEET".to_string()] },
    );
    assert_eq!(n.ensure(&mut db).unwrap(), SchemaState::Met);
}

#[test]
fn exhausted_script_fails_the_call() {
    let mut db = ScriptDb::new(vec![]);
    let r = node("t", "CHECK", vec!["MEET"]).ensure(&mut db);
    assert!(matches!(r, Err(SchemaStateError::CheckError(_, Cause::Database(_)))));
}

#[test]
fn error_names_the_offending_node() {
    let mut db = ScriptDb::new(vec![Response::Fail("boom".to_string())]);
    let r = node("only", "CHECK", vec![]).ensure(&mut db);
    match r {
        Err(e) => assert_eq!(e.node_name().as_str(), "only"),
        Ok(_) => panic!("expected an error"),
    }
}

#[test]
fn apply_check_reads_one_boolean_row() {
    let check = CheckFn::Bool { meet_queries: vec!["MEET".to_string()] };
    let satisfied = ensure_schema::schema::apply_check(&check, &vec![vec![Value::Bool(true)]]);
    assert_eq!(satisfied.unwrap(), Vec::<String>::new());
    let unsatisfied = ensure_schema::schema::apply_check(&check, &vec![vec![Value::Bool(false)]]);
    assert_eq!(unsatisfied.unwrap(), vec!["MEET".to_string()]);
    let twocol = ensure_schema::schema::apply_check(
        &check,
        &vec![vec![Value::Bool(true), Value::Bool(true)]],
    );
    assert_eq!(twocol.unwrap_err(), RowShapeError::NotBoolean);
    let null = ensure_schema::schema::apply_check(&check, &vec![vec![Value::Null]]);
    assert_eq!(null.unwrap_err(), RowShapeError::NotBoolean);
    let text = ensure_schema::schema::apply_check(&check, &vec![vec![Value::Text(
        "true".to_string(),
    )]]);
    assert_eq!(text.unwrap_err(), RowShapeError::NotBoolean);
}
