//! The convergence engine.
//!
//! [`EnsureSchema::ensure`] and [`EnsureSchema::ensure_with_dry_run`] walk a
//! schema tree depth-first, prerequisite-first, against any [`Database`].
//! Their contract: the call only appends to the database log, and what it
//! appended is exactly the convergence trace of the consumed node with the
//! returned result (see [`crate::trace`]), for every behaviour of the
//! database.

use vstd::prelude::*;

use crate::db::{execute_outcome_view, Database, DbEvent};
use crate::schema::{
    apply_check, lemma_nodes_view_index, lemma_nodes_view_len, node_view, nodes_view, Cause,
    CauseView, EnsureSchema, ErrorView, SchemaStateError,
};
use crate::trace::{
    is_converge_trace, is_execute_trace, is_prereqs_trace, lemma_converge_check_db_fail,
    lemma_converge_check_shape_fail, lemma_converge_meet, lemma_converge_met,
    lemma_converge_prereq_fail, lemma_execute_cons, lemma_execute_empty, lemma_execute_fail,
    lemma_meet_dry, lemma_meet_exec_fail, lemma_meet_verify, lemma_prereqs_cons,
    lemma_prereqs_empty, lemma_prereqs_head_fail, lemma_verify_changed, lemma_verify_db_fail,
    lemma_verify_shape_fail, lemma_verify_unmet,
};
use crate::{SchemaState, Sql};

verus! {

/// `post` is `pre` with zero or more events appended.
pub open spec fn log_extends(pre: Seq<DbEvent>, post: Seq<DbEvent>) -> bool {
    pre.len() <= post.len() && post.subrange(0, pre.len() as int) == pre
}

/// The events a call appended to the log.
pub open spec fn appended(pre: Seq<DbEvent>, post: Seq<DbEvent>) -> Seq<DbEvent> {
    post.subrange(pre.len() as int, post.len() as int)
}

/// The mathematical value of a convergence result.
pub open spec fn converge_result_view(r: Result<SchemaState, SchemaStateError>) -> Result<
    SchemaState,
    ErrorView,
> {
    match r {
        Result::Ok(s) => Result::Ok(s),
        Result::Err(e) => Result::Err(e@),
    }
}

/// The mathematical value of a prerequisite-phase result.
pub open spec fn unit_result_view(r: Result<(), SchemaStateError>) -> Result<(), ErrorView> {
    match r {
        Result::Ok(u) => Result::Ok(u),
        Result::Err(e) => Result::Err(e@),
    }
}

/// A log extends itself by nothing.
pub proof fn lemma_log_refl(a: Seq<DbEvent>)
    ensures
        log_extends(a, a),
        appended(a, a) == Seq::<DbEvent>::empty(),
{
    assert(a.subrange(0, a.len() as int) =~= a);
    assert(appended(a, a) =~= Seq::<DbEvent>::empty());
}

/// Pushing one event appends exactly that event.
pub proof fn lemma_log_push(a: Seq<DbEvent>, ev: DbEvent)
    ensures
        log_extends(a, a.push(ev)),
        appended(a, a.push(ev)) == seq![ev],
{
    assert(a.push(ev).subrange(0, a.len() as int) =~= a);
    assert(appended(a, a.push(ev)) =~= seq![ev]);
}

/// Two extensions compose, and their appended events concatenate.
pub proof fn lemma_log_compose(a: Seq<DbEvent>, b: Seq<DbEvent>, c: Seq<DbEvent>)
    requires
        log_extends(a, b),
        log_extends(b, c),
    ensures
        log_extends(a, c),
        appended(a, c) == appended(a, b) + appended(b, c),
{
    assert forall|i: int| 0 <= i < b.len() implies b[i] == c[i] by {
        assert(b[i] == c.subrange(0, b.len() as int)[i]);
    }
    assert forall|i: int| 0 <= i < a.len() implies a[i] == b[i] by {
        assert(a[i] == b.subrange(0, a.len() as int)[i]);
    }
    assert(c.subrange(0, a.len() as int) =~= a);
    assert(appended(a, c) =~= appended(a, b) + appended(b, c));
}

impl EnsureSchema {
    /// Makes sure that the object is initialized: checks it, and where the
    /// check shows work to do, converges the prerequisites, runs the
    /// corrective statements and re-checks.
    pub fn ensure<D: Database>(self, database: &mut D) -> (r: Result<SchemaState, SchemaStateError>)
        ensures
            log_extends(old(database).log(), final(database).log()),
            is_converge_trace(
                node_view(self),
                false,
                appended(old(database).log(), final(database).log()),
                converge_result_view(r),
            ),
    {
        self.ensure_with_dry_run(database, false)
    }

    /// Same as [`EnsureSchema::ensure`], but with `dry_run` set no
    /// corrective statement is executed and an unsatisfied object still
    /// reports `Met`; the check queries run either way.
    pub fn ensure_with_dry_run<D: Database>(self, database: &mut D, dry_run: bool) -> (r: Result<
        SchemaState,
        SchemaStateError,
    >)
        ensures
            log_extends(old(database).log(), final(database).log()),
            is_converge_trace(
                node_view(self),
                dry_run,
                appended(old(database).log(), final(database).log()),
                converge_result_view(r),
            ),
        decreases self, 0int,
    {
        let ghost nv = node_view(self);
        let ghost l0 = database.log();
        let EnsureSchema { name, check_query, check, meet_require } = self;
        let ghost cq = check_query@;

        let rows = match database.query(&check_query) {
            Result::Ok(rows) => rows,
            Result::Err(e) => {
                proof {
                    lemma_log_push(l0, DbEvent::Query { sql: cq, outcome: Result::Err(e@) });
                    lemma_converge_check_db_fail(nv, dry_run, e@);
                }
                return Result::Err(SchemaStateError::CheckError(name, Cause::Database(e)));
            },
        };
        let ghost ev0 = DbEvent::Query { sql: cq, outcome: Result::Ok(rows.deep_view()) };
        let ghost l1 = database.log();
        proof {
            lemma_log_push(l0, ev0);
        }

        let statements = match apply_check(&check, &rows) {
            Result::Ok(qs) => qs,
            Result::Err(shape) => {
                proof {
                    lemma_converge_check_shape_fail(nv, dry_run, rows.deep_view(), shape);
                }
                return Result::Err(SchemaStateError::CheckError(name, Cause::RowShape(shape)));
            },
        };
        let ghost mq = statements.deep_view();
        if statements.len() == 0 {
            proof {
                lemma_converge_met(nv, dry_run, rows.deep_view(), mq);
            }
            return Result::Ok(SchemaState::Met);
        }

        let prereq_res = ensure_all(meet_require, database, dry_run);
        let ghost l2 = database.log();
        match prereq_res {
            Result::Err(e) => {
                proof {
                    lemma_log_compose(l0, l1, l2);
                    lemma_converge_prereq_fail(
                        nv,
                        dry_run,
                        rows.deep_view(),
                        mq,
                        appended(l1, l2),
                        e@,
                    );
                }
                return Result::Err(e);
            },
            Result::Ok(u) => {},
        }

        if dry_run {
            proof {
                lemma_log_compose(l0, l1, l2);
                lemma_meet_dry(nv, mq);
                lemma_converge_meet(
                    nv,
                    dry_run,
                    rows.deep_view(),
                    mq,
                    appended(l1, l2),
                    Seq::<DbEvent>::empty(),
                    Result::Ok(SchemaState::Met),
                );
                assert(seq![ev0] + appended(l1, l2) + Seq::<DbEvent>::empty() =~= appended(
                    l0,
                    l2,
                ));
            }
            return Result::Ok(SchemaState::Met);
        }

        let exec_res = execute_all(statements, database);
        let ghost l3 = database.log();
        match exec_res {
            Result::Err(msg) => {
                proof {
                    lemma_log_compose(l0, l1, l2);
                    lemma_log_compose(l0, l2, l3);
                    lemma_meet_exec_fail(nv, mq, appended(l2, l3), msg@);
                    lemma_converge_meet(
                        nv,
                        dry_run,
                        rows.deep_view(),
                        mq,
                        appended(l1, l2),
                        appended(l2, l3),
                        Result::Err(ErrorView::MeetError(nv.name, CauseView::Database(msg@))),
                    );
                    assert(seq![ev0] + appended(l1, l2) + appended(l2, l3) =~= appended(l0, l3));
                }
                return Result::Err(SchemaStateError::MeetError(name, Cause::Database(msg)));
            },
            Result::Ok(u) => {},
        }

        let rows2 = match database.query(&check_query) {
            Result::Ok(rows2) => rows2,
            Result::Err(e) => {
                proof {
                    let ev_v = DbEvent::Query { sql: cq, outcome: Result::Err(e@) };
                    lemma_log_push(l3, ev_v);
                    lemma_log_compose(l0, l1, l2);
                    lemma_log_compose(l0, l2, l3);
                    lemma_log_compose(l0, l3, l3.push(ev_v));
                    lemma_verify_db_fail(nv, e@);
                    lemma_meet_verify(
                        nv,
                        mq,
                        appended(l2, l3),
                        seq![ev_v],
                        Result::Err(
                            ErrorView::MeetError(nv.name, CauseView::Database(e@)),
                        ),
                    );
                    lemma_converge_meet(
                        nv,
                        dry_run,
                        rows.deep_view(),
                        mq,
                        appended(l1, l2),
                        appended(l2, l3) + seq![ev_v],
                        Result::Err(
                            ErrorView::MeetError(nv.name, CauseView::Database(e@)),
                        ),
                    );
                    assert(seq![ev0] + appended(l1, l2) + (appended(l2, l3) + seq![ev_v])
                        =~= appended(l0, l3.push(ev_v)));
                }
                return Result::Err(SchemaStateError::MeetError(name, Cause::Database(e)));
            },
        };
        let ghost ev_v = DbEvent::Query { sql: cq, outcome: Result::Ok(rows2.deep_view()) };
        let ghost l4 = database.log();
        proof {
            lemma_log_push(l3, ev_v);
            lemma_log_compose(l0, l1, l2);
            lemma_log_compose(l0, l2, l3);
            lemma_log_compose(l0, l3, l4);
            assert(seq![ev0] + appended(l1, l2) + (appended(l2, l3) + seq![ev_v]) =~= appended(
                l0,
                l4,
            ));
        }

        let remaining = match apply_check(&check, &rows2) {
            Result::Ok(qs) => qs,
            Result::Err(shape) => {
                proof {
                    lemma_verify_shape_fail(nv, rows2.deep_view(), shape);
                    lemma_meet_verify(
                        nv,
                        mq,
                        appended(l2, l3),
                        seq![ev_v],
                        Result::Err(
                            ErrorView::MeetError(
                                nv.name,
                                CauseView::RowShape(shape),
                            ),
                        ),
                    );
                    lemma_converge_meet(
                        nv,
                        dry_run,
                        rows.deep_view(),
                        mq,
                        appended(l1, l2),
                        appended(l2, l3) + seq![ev_v],
                        Result::Err(
                            ErrorView::MeetError(
                                nv.name,
                                CauseView::RowShape(shape),
                            ),
                        ),
                    );
                }
                return Result::Err(SchemaStateError::MeetError(name, Cause::RowShape(shape)));
            },
        };
        if remaining.len() > 0 {
            proof {
                lemma_verify_unmet(nv, rows2.deep_view(), remaining.deep_view());
                lemma_meet_verify(
                    nv,
                    mq,
                    appended(l2, l3),
                    seq![ev_v],
                    Result::Err(
                        ErrorView::MeetError(nv.name, CauseView::Verification),
                    ),
                );
                lemma_converge_meet(
                    nv,
                    dry_run,
                    rows.deep_view(),
                    mq,
                    appended(l1, l2),
                    appended(l2, l3) + seq![ev_v],
                    Result::Err(
                        ErrorView::MeetError(nv.name, CauseView::Verification),
                    ),
                );
            }
            return Result::Err(SchemaStateError::MeetError(name, Cause::Verification));
        }
        proof {
            lemma_verify_changed(nv, rows2.deep_view(), remaining.deep_view());
            lemma_meet_verify(
                nv,
                mq,
                appended(l2, l3),
                seq![ev_v],
                Result::Ok(SchemaState::Changed),
            );
            lemma_converge_meet(
                nv,
                dry_run,
                rows.deep_view(),
                mq,
                appended(l1, l2),
                appended(l2, l3) + seq![ev_v],
                Result::Ok(SchemaState::Changed),
            );
        }
        Result::Ok(SchemaState::Changed)
    }
}

/// Converges `nodes` in order against `database`, stopping at the first
/// error, which is handed back unchanged.
fn ensure_all<D: Database>(nodes: Vec<EnsureSchema>, database: &mut D, dry_run: bool) -> (r: Result<
    (),
    SchemaStateError,
>)
    ensures
        log_extends(old(database).log(), final(database).log()),
        is_prereqs_trace(
            nodes_view(nodes@, nodes@.len() as int),
            dry_run,
            appended(old(database).log(), final(database).log()),
            unit_result_view(r),
        ),
    decreases nodes@, 1int,
{
    let ghost nsv = nodes_view(nodes@, nodes@.len() as int);
    let ghost l0 = database.log();
    let mut work = nodes;
    if work.len() == 0 {
        proof {
            lemma_log_refl(l0);
            lemma_prereqs_empty(nsv, dry_run);
        }
        return Result::Ok(());
    }
    let ghost orig = work@;
    let head = work.remove(0);
    proof {
        lemma_nodes_view_len(orig, orig.len() as int);
        lemma_nodes_view_index(orig, orig.len() as int, 0);
        lemma_nodes_view_len(work@, work@.len() as int);
        assert forall|j: int| 0 <= j < work@.len() implies nodes_view(work@, work@.len() as int)[j]
            == nsv.subrange(1, nsv.len() as int)[j] by {
            lemma_nodes_view_index(work@, work@.len() as int, j);
            lemma_nodes_view_index(orig, orig.len() as int, j + 1);
            assert(work@[j] == orig.remove(0)[j]);
        }
        assert(nodes_view(work@, work@.len() as int) =~= nsv.subrange(1, nsv.len() as int));
    }
    let head_res = head.ensure_with_dry_run(database, dry_run);
    let ghost l1 = database.log();
    let s = match head_res {
        Result::Err(e) => {
            proof {
                lemma_prereqs_head_fail(nsv, dry_run, appended(l0, l1), e@);
            }
            return Result::Err(e);
        },
        Result::Ok(s) => s,
    };
    let rest_res = ensure_all(work, database, dry_run);
    let ghost l2 = database.log();
    proof {
        lemma_log_compose(l0, l1, l2);
        lemma_prereqs_cons(
            nsv,
            dry_run,
            appended(l0, l1),
            s,
            appended(l1, l2),
            unit_result_view(rest_res),
        );
    }
    rest_res
}

/// Executes the corrective statements in order, stopping at the first
/// failure and handing back its message.
fn execute_all<D: Database>(queries: Vec<Sql>, database: &mut D) -> (r: Result<(), String>)
    ensures
        log_extends(old(database).log(), final(database).log()),
        is_execute_trace(
            queries.deep_view(),
            appended(old(database).log(), final(database).log()),
            execute_outcome_view(r),
        ),
    decreases queries@,
{
    let ghost qv = queries.deep_view();
    let ghost l0 = database.log();
    let mut work = queries;
    if work.len() == 0 {
        proof {
            lemma_log_refl(l0);
            lemma_execute_empty(qv);
        }
        return Result::Ok(());
    }
    let ghost orig = work@;
    let head = work.remove(0);
    proof {
        assert(head@ == qv[0]);
        assert forall|j: int| 0 <= j < work@.len() implies work.deep_view()[j] == qv.subrange(
            1,
            qv.len() as int,
        )[j] by {
            assert(work@[j] == orig.remove(0)[j]);
        }
        assert(work.deep_view() =~= qv.subrange(1, qv.len() as int));
    }
    match database.execute(&head) {
        Result::Err(e) => {
            proof {
                lemma_log_push(l0, DbEvent::Execute { sql: qv[0], outcome: Result::Err(e@) });
                lemma_execute_fail(qv, e@);
            }
            return Result::Err(e);
        },
        Result::Ok(u) => {},
    }
    let ghost l1 = database.log();
    proof {
        lemma_log_push(l0, DbEvent::Execute { sql: qv[0], outcome: Result::Ok(()) });
    }
    let rest_res = execute_all(work, database);
    let ghost l2 = database.log();
    proof {
        lemma_log_compose(l0, l1, l2);
        lemma_execute_cons(qv, appended(l1, l2), execute_outcome_view(rest_res));
        assert(seq![DbEvent::Execute { sql: qv[0], outcome: Result::Ok(()) }] + appended(l1, l2)
            =~= appended(l0, l2));
    }
    rest_res
}

} // verus!
