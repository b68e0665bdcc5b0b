//! Protocol laws: properties every convergence call obeys, proved from the
//! trace predicates of [`crate::trace`].

use vstd::prelude::*;

use crate::db::DbEvent;
use crate::schema::{spec_check, ErrorView, NodeView};
use crate::trace::{converge_parse, is_converge_trace, meet_parse, prereqs_parse, verify_parse};
use crate::SchemaState;

verus! {

/// A trace of exactly these events parses to exactly this result.
pub proof fn lemma_trace_parse(
    node: NodeView,
    dry_run: bool,
    events: Seq<DbEvent>,
    r: Result<SchemaState, ErrorView>,
)
    requires
        is_converge_trace(node, dry_run, events, r),
    ensures
        converge_parse(node, dry_run, events) == Option::Some((r, events.len() as int)),
{
    assert(converge_parse(node, dry_run, events + Seq::<DbEvent>::empty()) == Option::Some(
        (r, events.len() as int),
    ));
    assert(events + Seq::<DbEvent>::empty() =~= events);
}

/// Every convergence call begins with the node's own check query.
pub proof fn lemma_starts_with_check(
    node: NodeView,
    dry_run: bool,
    events: Seq<DbEvent>,
    r: Result<SchemaState, ErrorView>,
)
    requires
        is_converge_trace(node, dry_run, events, r),
    ensures
        events.len() >= 1,
        events[0] matches DbEvent::Query { sql, outcome } && sql == node.check_query,
{
    lemma_trace_parse(node, dry_run, events, r);
}

/// Short-circuit: where the first check's rows already show the object
/// satisfied, the call is that one query and nothing else — no
/// prerequisite is converged and no corrective statement runs, whatever
/// prerequisites or statements the node carries.
pub proof fn lemma_satisfied_check_short_circuits(
    node: NodeView,
    dry_run: bool,
    events: Seq<DbEvent>,
    r: Result<SchemaState, ErrorView>,
    rows: Seq<crate::rows::RowView>,
    mq: Seq<Seq<char>>,
)
    requires
        is_converge_trace(node, dry_run, events, r),
        events.len() >= 1,
        events[0] == (DbEvent::Query { sql: node.check_query, outcome: Result::Ok(rows) }),
        spec_check(node.check, rows) == Result::<Seq<Seq<char>>, crate::schema::RowShapeError>::Ok(
            mq,
        ),
        mq.len() == 0,
    ensures
        events.len() == 1,
        r == Result::<SchemaState, ErrorView>::Ok(SchemaState::Met),
{
    lemma_trace_parse(node, dry_run, events, r);
}

/// Success ends satisfied: a call that returns an outcome (not an error)
/// ends with a check of this node whose rows yield no corrective
/// statement. `Met` means the first check was already satisfied; `Changed`
/// means the re-check after correcting was.
pub proof fn lemma_success_means_satisfied(
    node: NodeView,
    events: Seq<DbEvent>,
    s: SchemaState,
)
    requires
        is_converge_trace(node, false, events, Result::Ok(s)),
    ensures
        events.len() >= 1,
        events.last() matches DbEvent::Query { sql, outcome } && (sql == node.check_query && (
        outcome matches Result::Ok(rows) && (spec_check(node.check, rows) matches Result::Ok(mq)
            && (mq.len() == 0)))),
{
    lemma_trace_parse(node, false, events, Result::Ok(s));
    let n = events.len() as int;
    match events[0] {
        DbEvent::Execute { .. } => {
            assert(false);
        },
        DbEvent::Query { sql, outcome } => {
            match outcome {
                Result::Err(e) => {
                    assert(false);
                },
                Result::Ok(rows) => {
                    match spec_check(node.check, rows) {
                        Result::Err(shape) => {
                            assert(false);
                        },
                        Result::Ok(mq) => {
                            if mq.len() == 0 {
                                assert(n == 1);
                                assert(events.last() == events[0]);
                            } else {
                                let tail1 = events.subrange(1, n);
                                match prereqs_parse(node.meet_require, false, tail1) {
                                    Option::None => {
                                        assert(false);
                                    },
                                    Option::Some(p) => {
                                        match p.0 {
                                            Result::Err(e) => {
                                                assert(false);
                                            },
                                            Result::Ok(u) => {
                                                let rest = events.subrange(1 + p.1, n);
                                                match meet_parse(node, mq, false, rest) {
                                                    Option::None => {
                                                        assert(false);
                                                    },
                                                    Option::Some(q) => {
                                                        match crate::trace::execute_parse(
                                                            mq,
                                                            rest,
                                                        ) {
                                                            Option::None => {
                                                                assert(false);
                                                            },
                                                            Option::Some(ep) => {
                                                                let ver = rest.subrange(
                                                                    ep.1,
                                                                    rest.len() as int,
                                                                );
                                                                match verify_parse(node, ver) {
                                                                    Option::None => {
                                                                        assert(false);
                                                                    },
                                                                    Option::Some(vq) => {
                                                                        assert(vq.1 == 1);
                                                                        assert(1 + p.1 + ep.1
                                                                            + 1 == n);
                                                                        assert(ver[0]
                                                                            == events[n - 1]);
                                                                        assert(events.last()
                                                                            == events[n - 1]);
                                                                    },
                                                                }
                                                            },
                                                        }
                                                    },
                                                }
                                            },
                                        }
                                    },
                                }
                            }
                        },
                    }
                },
            }
        },
    }
}

/// Idempotence: after a successful convergence, running the same node again
/// against an unchanged database — its check query answers what the last
/// check saw — issues one query, changes nothing, and reports `Met`.
pub proof fn lemma_idempotent(
    node: NodeView,
    events1: Seq<DbEvent>,
    s: SchemaState,
    dry_run2: bool,
    events2: Seq<DbEvent>,
    r2: Result<SchemaState, ErrorView>,
)
    requires
        is_converge_trace(node, false, events1, Result::Ok(s)),
        is_converge_trace(node, dry_run2, events2, r2),
        events2.len() >= 1,
        events2[0] == events1.last(),
    ensures
        events2.len() == 1,
        r2 == Result::<SchemaState, ErrorView>::Ok(SchemaState::Met),
{
    lemma_success_means_satisfied(node, events1, s);
    lemma_trace_parse(node, dry_run2, events2, r2);
}

/// A convergence parse always begins with the node's check query.
proof fn lemma_parse_starts_with_check(
    node: NodeView,
    dry_run: bool,
    events: Seq<DbEvent>,
    r: Result<SchemaState, ErrorView>,
    n: int,
)
    requires
        converge_parse(node, dry_run, events) == Option::Some((r, n)),
    ensures
        events.len() >= 1,
        events[0] matches DbEvent::Query { sql, outcome } && sql == node.check_query,
{
}

/// Depth-first, prerequisite-first order, first step: where node `a` with
/// prerequisite `b` is unsatisfied, `b`'s check query is issued right after
/// `a`'s, and every corrective statement of the whole call comes after it.
pub proof fn lemma_prerequisite_checked_first(
    a: NodeView,
    b: NodeView,
    events: Seq<DbEvent>,
    r: Result<SchemaState, ErrorView>,
    rows_a: Seq<crate::rows::RowView>,
    mqa: Seq<Seq<char>>,
)
    requires
        a.meet_require == seq![b],
        is_converge_trace(a, false, events, r),
        events.len() >= 1,
        events[0] == (DbEvent::Query { sql: a.check_query, outcome: Result::Ok(rows_a) }),
        spec_check(a.check, rows_a) == Result::<Seq<Seq<char>>, crate::schema::RowShapeError>::Ok(
            mqa,
        ),
        mqa.len() > 0,
    ensures
        events.len() >= 2,
        events[1] matches DbEvent::Query { sql, outcome } && sql == b.check_query,
        forall|i: int| 0 <= i < events.len() && events[i] is Execute ==> i >= 2,
{
    lemma_trace_parse(a, false, events, r);
    let n = events.len() as int;
    let tail1 = events.subrange(1, n);
    match prereqs_parse(a.meet_require, false, tail1) {
        Option::None => {
            assert(false);
        },
        Option::Some(p) => {
            match converge_parse(b, false, tail1) {
                Option::None => {
                    assert(a.meet_require[0] == b);
                    assert(false);
                },
                Option::Some(pb) => {
                    lemma_parse_starts_with_check(b, false, tail1, pb.0, pb.1);
                    assert(events[1] == tail1[0]);
                },
            }
        },
    }
}

/// Depth-first, prerequisite-first order, second step: where `a` needs
/// correcting, its prerequisite `b` needs correcting too, and `b` has
/// prerequisite `c`, then `c`'s check query is issued right after `b`'s,
/// and every corrective statement of the whole call comes after it. So `c`
/// is checked (and, where needed, corrected) before `b`'s corrective
/// statements run, and `b` is checked before `a`'s.
pub proof fn lemma_depth_first_order(
    a: NodeView,
    b: NodeView,
    c: NodeView,
    events: Seq<DbEvent>,
    r: Result<SchemaState, ErrorView>,
    rows_a: Seq<crate::rows::RowView>,
    mqa: Seq<Seq<char>>,
    rows_b: Seq<crate::rows::RowView>,
    mqb: Seq<Seq<char>>,
)
    requires
        a.meet_require == seq![b],
        b.meet_require == seq![c],
        is_converge_trace(a, false, events, r),
        events.len() >= 2,
        events[0] == (DbEvent::Query { sql: a.check_query, outcome: Result::Ok(rows_a) }),
        spec_check(a.check, rows_a) == Result::<Seq<Seq<char>>, crate::schema::RowShapeError>::Ok(
            mqa,
        ),
        mqa.len() > 0,
        events[1] == (DbEvent::Query { sql: b.check_query, outcome: Result::Ok(rows_b) }),
        spec_check(b.check, rows_b) == Result::<Seq<Seq<char>>, crate::schema::RowShapeError>::Ok(
            mqb,
        ),
        mqb.len() > 0,
    ensures
        events.len() >= 3,
        events[2] matches DbEvent::Query { sql, outcome } && sql == c.check_query,
        forall|i: int| 0 <= i < events.len() && events[i] is Execute ==> i >= 3,
{
    lemma_trace_parse(a, false, events, r);
    let n = events.len() as int;
    let tail1 = events.subrange(1, n);
    match prereqs_parse(a.meet_require, false, tail1) {
        Option::None => {
            assert(false);
        },
        Option::Some(p) => {
            match converge_parse(b, false, tail1) {
                Option::None => {
                    assert(a.meet_require[0] == b);
                    assert(false);
                },
                Option::Some(pb) => {
                    assert(tail1[0] == events[1]);
                    let tail2 = tail1.subrange(1, tail1.len() as int);
                    match prereqs_parse(b.meet_require, false, tail2) {
                        Option::None => {
                            assert(false);
                        },
                        Option::Some(pc) => {
                            match converge_parse(c, false, tail2) {
                                Option::None => {
                                    assert(b.meet_require[0] == c);
                                    assert(false);
                                },
                                Option::Some(pcc) => {
                                    lemma_parse_starts_with_check(c, false, tail2, pcc.0, pcc.1);
                                    assert(events[2] == tail1[1]);
                                    assert(tail2[0] == tail1[1]);
                                },
                            }
                        },
                    }
                },
            }
        },
    }
}

/// In a dry run, nothing but queries reaches the database: no corrective
/// statement is ever executed, whatever the checks report.
pub proof fn lemma_dry_run_sends_no_statement(
    node: NodeView,
    events: Seq<DbEvent>,
    r: Result<SchemaState, ErrorView>,
)
    requires
        is_converge_trace(node, true, events, r),
    ensures
        forall|i: int| 0 <= i < events.len() ==> events[i] is Query,
{
    lemma_trace_parse(node, true, events, r);
    match converge_parse(node, true, events) {
        Option::None => {
            assert(false);
        },
        Option::Some(p) => {
            lemma_converge_parse_dry_all_queries(node, events, p.0, p.1);
        },
    }
}

/// A dry run that succeeds always reports `Met`, never `Changed`, even
/// where the check found work to do: the deferred work is not surfaced as a
/// distinct outcome, and callers tell a dry run apart by the flag they
/// passed.
pub proof fn lemma_dry_run_reports_met(
    node: NodeView,
    events: Seq<DbEvent>,
    s: SchemaState,
)
    requires
        is_converge_trace(node, true, events, Result::Ok(s)),
    ensures
        s == SchemaState::Met,
{
    lemma_trace_parse(node, true, events, Result::Ok(s));
}

/// Helper for the dry-run law: whatever prefix a dry-run convergence parse
/// consumes holds only queries.
proof fn lemma_converge_parse_dry_all_queries(
    node: NodeView,
    events: Seq<DbEvent>,
    r: Result<SchemaState, ErrorView>,
    n: int,
)
    requires
        converge_parse(node, true, events) == Option::Some((r, n)),
    ensures
        1 <= n <= events.len(),
        forall|i: int| 0 <= i < n ==> events[i] is Query,
    decreases node, 0int,
{
    match events[0] {
        DbEvent::Execute { .. } => {
            assert(false);
        },
        DbEvent::Query { sql, outcome } => {
            match outcome {
                Result::Err(e) => {},
                Result::Ok(rows) => {
                    match spec_check(node.check, rows) {
                        Result::Err(shape) => {},
                        Result::Ok(mq) => {
                            if mq.len() == 0 {
                            } else {
                                let tail1 = events.subrange(1, events.len() as int);
                                match prereqs_parse(node.meet_require, true, tail1) {
                                    Option::None => {
                                        assert(false);
                                    },
                                    Option::Some(p) => {
                                        lemma_prereqs_parse_dry_all_queries(
                                            node.meet_require,
                                            tail1,
                                            p.0,
                                            p.1,
                                        );
                                        assert forall|i: int| 0 <= i < n implies events[i]
                                            is Query by {
                                            if i >= 1 {
                                                assert(events[i] == tail1[i - 1]);
                                            }
                                        }
                                    },
                                }
                            }
                        },
                    }
                },
            }
        },
    }
}

/// Helper for the dry-run law, over a row of prerequisites.
proof fn lemma_prereqs_parse_dry_all_queries(
    nodes: Seq<NodeView>,
    events: Seq<DbEvent>,
    r: Result<(), ErrorView>,
    n: int,
)
    requires
        prereqs_parse(nodes, true, events) == Option::Some((r, n)),
    ensures
        0 <= n <= events.len(),
        forall|i: int| 0 <= i < n ==> events[i] is Query,
    decreases nodes, 1int,
{
    if nodes.len() == 0 {
    } else {
        match converge_parse(nodes[0], true, events) {
            Option::None => {
                assert(false);
            },
            Option::Some(p) => {
                lemma_converge_parse_dry_all_queries(nodes[0], events, p.0, p.1);
                match p.0 {
                    Result::Err(e) => {},
                    Result::Ok(s) => {
                        let rest = events.subrange(p.1, events.len() as int);
                        match prereqs_parse(nodes.subrange(1, nodes.len() as int), true, rest) {
                            Option::None => {
                                assert(false);
                            },
                            Option::Some(q) => {
                                lemma_prereqs_parse_dry_all_queries(
                                    nodes.subrange(1, nodes.len() as int),
                                    rest,
                                    q.0,
                                    q.1,
                                );
                                assert forall|i: int| 0 <= i < n implies events[i] is Query by {
                                    if i >= p.1 {
                                        assert(events[i] == rest[i - p.1]);
                                    }
                                }
                            },
                        }
                    },
                }
            },
        }
    }
}

} // verus!
