//! What a convergence call does, as a function of the database call log.
//!
//! The engine's behaviour is deterministic once the database's responses are
//! fixed. The parse functions here read a sequence of logged events and
//! compute which result the protocol owes and how many events belong to the
//! call: [`converge_parse`] for one node, [`prereqs_parse`] for a node's
//! prerequisites in order, [`execute_parse`] for the corrective statements,
//! [`verify_parse`] for the re-check. The engine's `ensures` says that the
//! events it appended parse to exactly its result, so every property of the
//! protocol — which statements run, in what order, and which result comes
//! back for every possible database behaviour — is read off these functions.

use vstd::prelude::*;

use crate::db::DbEvent;
use crate::rows::RowView;
use crate::schema::{spec_check, CauseView, ErrorView, NodeView, RowShapeError};
use crate::SchemaState;

verus! {

/// Reads the events of the corrective statements `queries`, run in order:
/// the result of that phase, and how many events it took. `None` where the
/// events are not such a run.
pub open spec fn execute_parse(queries: Seq<Seq<char>>, events: Seq<DbEvent>) -> Option<
    (Result<(), Seq<char>>, int),
>
    decreases queries,
{
    if queries.len() == 0 {
        Option::Some((Result::Ok(()), 0))
    } else if events.len() == 0 {
        Option::None
    } else {
        match events[0] {
            DbEvent::Query { .. } => Option::None,
            DbEvent::Execute { sql, outcome } => if sql != queries[0] {
                Option::None
            } else {
                match outcome {
                    Result::Err(e) => Option::Some((Result::Err(e), 1)),
                    Result::Ok(u) => match execute_parse(
                        queries.subrange(1, queries.len() as int),
                        events.subrange(1, events.len() as int),
                    ) {
                        Option::None => Option::None,
                        Option::Some(p) => Option::Some((p.0, 1 + p.1)),
                    },
                }
            },
        }
    }
}

/// Reads the one event of the re-check after correcting: `Changed` where
/// the rows now show the object satisfied, the owed meet error otherwise.
pub open spec fn verify_parse(node: NodeView, events: Seq<DbEvent>) -> Option<
    (Result<SchemaState, ErrorView>, int),
> {
    if events.len() == 0 {
        Option::None
    } else {
        match events[0] {
            DbEvent::Execute { .. } => Option::None,
            DbEvent::Query { sql, outcome } => if sql != node.check_query {
                Option::None
            } else {
                match outcome {
                    Result::Err(e) => Option::Some(
                        (
                            Result::Err(ErrorView::MeetError(node.name, CauseView::Database(e))),
                            1,
                        ),
                    ),
                    Result::Ok(rows) => match spec_check(node.check, rows) {
                        Result::Err(shape) => Option::Some(
                            (
                                Result::Err(
                                    ErrorView::MeetError(node.name, CauseView::RowShape(shape)),
                                ),
                                1,
                            ),
                        ),
                        Result::Ok(mq2) => if mq2.len() == 0 {
                            Option::Some((Result::Ok(SchemaState::Changed), 1))
                        } else {
                            Option::Some(
                                (
                                    Result::Err(
                                        ErrorView::MeetError(node.name, CauseView::Verification),
                                    ),
                                    1,
                                ),
                            )
                        },
                    },
                }
            },
        }
    }
}

/// Reads the meet phase of an unsatisfied node whose prerequisites have
/// converged: in a dry run nothing more touches the database and the
/// outcome is `Met`; otherwise the corrective statements run and the check
/// runs once more.
pub open spec fn meet_parse(
    node: NodeView,
    mq: Seq<Seq<char>>,
    dry_run: bool,
    events: Seq<DbEvent>,
) -> Option<(Result<SchemaState, ErrorView>, int)> {
    if dry_run {
        Option::Some((Result::Ok(SchemaState::Met), 0))
    } else {
        match execute_parse(mq, events) {
            Option::None => Option::None,
            Option::Some(p) => match p.0 {
                Result::Err(e) => Option::Some(
                    (Result::Err(ErrorView::MeetError(node.name, CauseView::Database(e))), p.1),
                ),
                Result::Ok(u) => if p.1 < 0 || p.1 > events.len() {
                    Option::None
                } else {
                    match verify_parse(node, events.subrange(p.1, events.len() as int)) {
                        Option::None => Option::None,
                        Option::Some(q) => Option::Some((q.0, p.1 + q.1)),
                    }
                },
            },
        }
    }
}

/// Reads one convergence call on `node`: the check query runs first; where
/// its rows show the object satisfied nothing else happens; otherwise the
/// prerequisites converge in order and the meet phase follows.
pub open spec fn converge_parse(node: NodeView, dry_run: bool, events: Seq<DbEvent>) -> Option<
    (Result<SchemaState, ErrorView>, int),
>
    decreases node, 0int,
{
    if events.len() == 0 {
        Option::None
    } else {
        match events[0] {
            DbEvent::Execute { .. } => Option::None,
            DbEvent::Query { sql, outcome } => if sql != node.check_query {
                Option::None
            } else {
                match outcome {
                    Result::Err(e) => Option::Some(
                        (
                            Result::Err(ErrorView::CheckError(node.name, CauseView::Database(e))),
                            1,
                        ),
                    ),
                    Result::Ok(rows) => match spec_check(node.check, rows) {
                        Result::Err(shape) => Option::Some(
                            (
                                Result::Err(
                                    ErrorView::CheckError(node.name, CauseView::RowShape(shape)),
                                ),
                                1,
                            ),
                        ),
                        Result::Ok(mq) => if mq.len() == 0 {
                            Option::Some((Result::Ok(SchemaState::Met), 1))
                        } else {
                            match prereqs_parse(
                                node.meet_require,
                                dry_run,
                                events.subrange(1, events.len() as int),
                            ) {
                                Option::None => Option::None,
                                Option::Some(p) => match p.0 {
                                    Result::Err(e) => Option::Some((Result::Err(e), 1 + p.1)),
                                    Result::Ok(u) => if p.1 < 0 || 1 + p.1 > events.len() {
                                        Option::None
                                    } else {
                                        match meet_parse(
                                            node,
                                            mq,
                                            dry_run,
                                            events.subrange(1 + p.1, events.len() as int),
                                        ) {
                                            Option::None => Option::None,
                                            Option::Some(q) => Option::Some((q.0, 1 + p.1 + q.1)),
                                        }
                                    },
                                },
                            }
                        },
                    },
                }
            },
        }
    }
}

/// Reads the prerequisites `nodes`, converged one after the other in
/// declared order, stopping at the first error, which is handed on
/// unchanged.
pub open spec fn prereqs_parse(nodes: Seq<NodeView>, dry_run: bool, events: Seq<DbEvent>) -> Option<
    (Result<(), ErrorView>, int),
>
    decreases nodes, 1int,
{
    if nodes.len() == 0 {
        Option::Some((Result::Ok(()), 0))
    } else {
        match converge_parse(nodes[0], dry_run, events) {
            Option::None => Option::None,
            Option::Some(p) => match p.0 {
                Result::Err(e) => Option::Some((Result::Err(e), p.1)),
                Result::Ok(s) => if p.1 < 0 || p.1 > events.len() {
                    Option::None
                } else {
                    match prereqs_parse(
                        nodes.subrange(1, nodes.len() as int),
                        dry_run,
                        events.subrange(p.1, events.len() as int),
                    ) {
                        Option::None => Option::None,
                        Option::Some(q) => Option::Some((q.0, p.1 + q.1)),
                    }
                },
            },
        }
    }
}

/// `events` is exactly the trace of one convergence call on `node` with
/// result `r`, whatever may follow it in a longer log.
pub open spec fn is_converge_trace(
    node: NodeView,
    dry_run: bool,
    events: Seq<DbEvent>,
    r: Result<SchemaState, ErrorView>,
) -> bool {
    forall|tail: Seq<DbEvent>| #![trigger converge_parse(node, dry_run, events + tail)]
        converge_parse(node, dry_run, events + tail) == Option::Some((r, events.len() as int))
}

/// `events` is exactly the trace of converging `nodes` in order.
pub open spec fn is_prereqs_trace(
    nodes: Seq<NodeView>,
    dry_run: bool,
    events: Seq<DbEvent>,
    r: Result<(), ErrorView>,
) -> bool {
    forall|tail: Seq<DbEvent>| #![trigger prereqs_parse(nodes, dry_run, events + tail)]
        prereqs_parse(nodes, dry_run, events + tail) == Option::Some((r, events.len() as int))
}

/// `events` is exactly the trace of running the statements `queries`.
pub open spec fn is_execute_trace(
    queries: Seq<Seq<char>>,
    events: Seq<DbEvent>,
    r: Result<(), Seq<char>>,
) -> bool {
    forall|tail: Seq<DbEvent>| #![trigger execute_parse(queries, events + tail)]
        execute_parse(queries, events + tail) == Option::Some((r, events.len() as int))
}

/// `events` is exactly the trace of the re-check after correcting.
pub open spec fn is_verify_trace(
    node: NodeView,
    events: Seq<DbEvent>,
    r: Result<SchemaState, ErrorView>,
) -> bool {
    forall|tail: Seq<DbEvent>| #![trigger verify_parse(node, events + tail)]
        verify_parse(node, events + tail) == Option::Some((r, events.len() as int))
}

/// `events` is exactly the trace of the meet phase of an unsatisfied node.
pub open spec fn is_meet_trace(
    node: NodeView,
    mq: Seq<Seq<char>>,
    dry_run: bool,
    events: Seq<DbEvent>,
    r: Result<SchemaState, ErrorView>,
) -> bool {
    forall|tail: Seq<DbEvent>| #![trigger meet_parse(node, mq, dry_run, events + tail)]
        meet_parse(node, mq, dry_run, events + tail) == Option::Some((r, events.len() as int))
}

/// A check query that the database refused makes a one-event trace.
pub proof fn lemma_converge_check_db_fail(node: NodeView, dry_run: bool, e: Seq<char>)
    ensures
        is_converge_trace(
            node,
            dry_run,
            seq![DbEvent::Query { sql: node.check_query, outcome: Result::Err(e) }],
            Result::Err(ErrorView::CheckError(node.name, CauseView::Database(e))),
        ),
{
    let ev0 = DbEvent::Query { sql: node.check_query, outcome: Result::Err(e) };
    let events = seq![ev0];
    assert forall|tail: Seq<DbEvent>|
        converge_parse(node, dry_run, events + tail) == Option::Some(
            (
                Result::<SchemaState, ErrorView>::Err(
                    ErrorView::CheckError(node.name, CauseView::Database(e)),
                ),
                events.len() as int,
            ),
        ) by {
        assert((events + tail)[0] == ev0);
    }
}

/// Rows of the wrong shape make a one-event trace.
pub proof fn lemma_converge_check_shape_fail(
    node: NodeView,
    dry_run: bool,
    rows: Seq<RowView>,
    shape: RowShapeError,
)
    requires
        spec_check(node.check, rows) == Result::<Seq<Seq<char>>, RowShapeError>::Err(shape),
    ensures
        is_converge_trace(
            node,
            dry_run,
            seq![DbEvent::Query { sql: node.check_query, outcome: Result::Ok(rows) }],
            Result::Err(ErrorView::CheckError(node.name, CauseView::RowShape(shape))),
        ),
{
    let ev0 = DbEvent::Query { sql: node.check_query, outcome: Result::Ok(rows) };
    let events = seq![ev0];
    assert forall|tail: Seq<DbEvent>|
        converge_parse(node, dry_run, events + tail) == Option::Some(
            (
                Result::<SchemaState, ErrorView>::Err(
                    ErrorView::CheckError(node.name, CauseView::RowShape(shape)),
                ),
                events.len() as int,
            ),
        ) by {
        assert((events + tail)[0] == ev0);
    }
}

/// Rows showing the object satisfied make a one-event trace ending in `Met`.
pub proof fn lemma_converge_met(
    node: NodeView,
    dry_run: bool,
    rows: Seq<RowView>,
    mq: Seq<Seq<char>>,
)
    requires
        spec_check(node.check, rows) == Result::<Seq<Seq<char>>, RowShapeError>::Ok(mq),
        mq.len() == 0,
    ensures
        is_converge_trace(
            node,
            dry_run,
            seq![DbEvent::Query { sql: node.check_query, outcome: Result::Ok(rows) }],
            Result::Ok(SchemaState::Met),
        ),
{
    let ev0 = DbEvent::Query { sql: node.check_query, outcome: Result::Ok(rows) };
    let events = seq![ev0];
    assert forall|tail: Seq<DbEvent>|
        converge_parse(node, dry_run, events + tail) == Option::Some(
            (Result::<SchemaState, ErrorView>::Ok(SchemaState::Met), events.len() as int),
        ) by {
        assert((events + tail)[0] == ev0);
    }
}

/// A failing prerequisite ends the trace with that error, unchanged.
pub proof fn lemma_converge_prereq_fail(
    node: NodeView,
    dry_run: bool,
    rows: Seq<RowView>,
    mq: Seq<Seq<char>>,
    pre: Seq<DbEvent>,
    e: ErrorView,
)
    requires
        spec_check(node.check, rows) == Result::<Seq<Seq<char>>, RowShapeError>::Ok(mq),
        mq.len() > 0,
        is_prereqs_trace(node.meet_require, dry_run, pre, Result::Err(e)),
    ensures
        is_converge_trace(
            node,
            dry_run,
            seq![DbEvent::Query { sql: node.check_query, outcome: Result::Ok(rows) }] + pre,
            Result::Err(e),
        ),
{
    let ev0 = DbEvent::Query { sql: node.check_query, outcome: Result::Ok(rows) };
    let events = seq![ev0] + pre;
    assert forall|tail: Seq<DbEvent>|
        converge_parse(node, dry_run, events + tail) == Option::Some(
            (Result::<SchemaState, ErrorView>::Err(e), events.len() as int),
        ) by {
        let evs = events + tail;
        assert(evs[0] == ev0);
        assert(evs.subrange(1, evs.len() as int) =~= pre + tail);
        assert(prereqs_parse(node.meet_require, dry_run, pre + tail) == Option::Some(
            (Result::<(), ErrorView>::Err(e), pre.len() as int),
        ));
    }
}

/// Converged prerequisites followed by a meet phase make a full trace.
pub proof fn lemma_converge_meet(
    node: NodeView,
    dry_run: bool,
    rows: Seq<RowView>,
    mq: Seq<Seq<char>>,
    pre: Seq<DbEvent>,
    rest: Seq<DbEvent>,
    r: Result<SchemaState, ErrorView>,
)
    requires
        spec_check(node.check, rows) == Result::<Seq<Seq<char>>, RowShapeError>::Ok(mq),
        mq.len() > 0,
        is_prereqs_trace(node.meet_require, dry_run, pre, Result::Ok(())),
        is_meet_trace(node, mq, dry_run, rest, r),
    ensures
        is_converge_trace(
            node,
            dry_run,
            seq![DbEvent::Query { sql: node.check_query, outcome: Result::Ok(rows) }] + pre + rest,
            r,
        ),
{
    let ev0 = DbEvent::Query { sql: node.check_query, outcome: Result::Ok(rows) };
    let events = seq![ev0] + pre + rest;
    assert forall|tail: Seq<DbEvent>|
        converge_parse(node, dry_run, events + tail) == Option::Some((r, events.len() as int)) by {
        let evs = events + tail;
        assert(evs[0] == ev0);
        assert(evs.subrange(1, evs.len() as int) =~= pre + (rest + tail));
        assert(prereqs_parse(node.meet_require, dry_run, pre + (rest + tail)) == Option::Some(
            (Result::<(), ErrorView>::Ok(()), pre.len() as int),
        ));
        assert(evs.subrange(1 + pre.len() as int, evs.len() as int) =~= rest + tail);
        assert(meet_parse(node, mq, dry_run, rest + tail) == Option::Some(
            (r, rest.len() as int),
        ));
    }
}

/// In a dry run the meet phase is empty and reports `Met`.
pub proof fn lemma_meet_dry(node: NodeView, mq: Seq<Seq<char>>)
    ensures
        is_meet_trace(
            node,
            mq,
            true,
            Seq::<DbEvent>::empty(),
            Result::Ok(SchemaState::Met),
        ),
{
}

/// A failing corrective statement ends the meet phase with a meet error.
pub proof fn lemma_meet_exec_fail(
    node: NodeView,
    mq: Seq<Seq<char>>,
    ex: Seq<DbEvent>,
    e: Seq<char>,
)
    requires
        is_execute_trace(mq, ex, Result::Err(e)),
    ensures
        is_meet_trace(
            node,
            mq,
            false,
            ex,
            Result::Err(ErrorView::MeetError(node.name, CauseView::Database(e))),
        ),
{
    assert forall|tail: Seq<DbEvent>|
        meet_parse(node, mq, false, ex + tail) == Option::Some(
            (
                Result::<SchemaState, ErrorView>::Err(
                    ErrorView::MeetError(node.name, CauseView::Database(e)),
                ),
                ex.len() as int,
            ),
        ) by {
        assert(execute_parse(mq, ex + tail) == Option::Some(
            (Result::<(), Seq<char>>::Err(e), ex.len() as int),
        ));
    }
}

/// Executed statements followed by the re-check make a meet phase.
pub proof fn lemma_meet_verify(
    node: NodeView,
    mq: Seq<Seq<char>>,
    ex: Seq<DbEvent>,
    ver: Seq<DbEvent>,
    r: Result<SchemaState, ErrorView>,
)
    requires
        is_execute_trace(mq, ex, Result::Ok(())),
        is_verify_trace(node, ver, r),
    ensures
        is_meet_trace(node, mq, false, ex + ver, r),
{
    let events = ex + ver;
    assert forall|tail: Seq<DbEvent>|
        meet_parse(node, mq, false, events + tail) == Option::Some((r, events.len() as int)) by {
        let evs = events + tail;
        assert(evs =~= ex + (ver + tail));
        assert(execute_parse(mq, ex + (ver + tail)) == Option::Some(
            (Result::<(), Seq<char>>::Ok(()), ex.len() as int),
        ));
        assert(evs.subrange(ex.len() as int, evs.len() as int) =~= ver + tail);
        assert(verify_parse(node, ver + tail) == Option::Some((r, ver.len() as int)));
    }
}

/// No corrective statements, no events.
pub proof fn lemma_execute_empty(queries: Seq<Seq<char>>)
    requires
        queries.len() == 0,
    ensures
        is_execute_trace(queries, Seq::<DbEvent>::empty(), Result::Ok(())),
{
    assert forall|tail: Seq<DbEvent>|
        execute_parse(queries, Seq::<DbEvent>::empty() + tail) == Option::Some(
            (Result::<(), Seq<char>>::Ok(()), 0int),
        ) by {
    }
}

/// A statement the database refused ends the execute phase at once.
pub proof fn lemma_execute_fail(queries: Seq<Seq<char>>, e: Seq<char>)
    requires
        queries.len() > 0,
    ensures
        is_execute_trace(
            queries,
            seq![DbEvent::Execute { sql: queries[0], outcome: Result::Err(e) }],
            Result::Err(e),
        ),
{
    let ev0 = DbEvent::Execute { sql: queries[0], outcome: Result::Err(e) };
    let events = seq![ev0];
    assert forall|tail: Seq<DbEvent>|
        execute_parse(queries, events + tail) == Option::Some(
            (Result::<(), Seq<char>>::Err(e), events.len() as int),
        ) by {
        assert((events + tail)[0] == ev0);
    }
}

/// A successful statement prepends one event to the executes that follow.
pub proof fn lemma_execute_cons(
    queries: Seq<Seq<char>>,
    rest: Seq<DbEvent>,
    r: Result<(), Seq<char>>,
)
    requires
        queries.len() > 0,
        is_execute_trace(queries.subrange(1, queries.len() as int), rest, r),
    ensures
        is_execute_trace(
            queries,
            seq![DbEvent::Execute { sql: queries[0], outcome: Result::Ok(()) }] + rest,
            r,
        ),
{
    let ev0 = DbEvent::Execute { sql: queries[0], outcome: Result::Ok(()) };
    let events = seq![ev0] + rest;
    assert forall|tail: Seq<DbEvent>|
        execute_parse(queries, events + tail) == Option::Some((r, events.len() as int)) by {
        let evs = events + tail;
        assert(evs[0] == ev0);
        assert(evs.subrange(1, evs.len() as int) =~= rest + tail);
        assert(execute_parse(queries.subrange(1, queries.len() as int), rest + tail)
            == Option::Some((r, rest.len() as int)));
    }
}

/// No prerequisites, no events.
pub proof fn lemma_prereqs_empty(nodes: Seq<NodeView>, dry_run: bool)
    requires
        nodes.len() == 0,
    ensures
        is_prereqs_trace(nodes, dry_run, Seq::<DbEvent>::empty(), Result::Ok(())),
{
    assert forall|tail: Seq<DbEvent>|
        prereqs_parse(nodes, dry_run, Seq::<DbEvent>::empty() + tail) == Option::Some(
            (Result::<(), ErrorView>::Ok(()), 0int),
        ) by {
    }
}

/// A failing first prerequisite makes the whole prerequisite phase fail.
pub proof fn lemma_prereqs_head_fail(
    nodes: Seq<NodeView>,
    dry_run: bool,
    head: Seq<DbEvent>,
    e: ErrorView,
)
    requires
        nodes.len() > 0,
        is_converge_trace(nodes[0], dry_run, head, Result::Err(e)),
    ensures
        is_prereqs_trace(nodes, dry_run, head, Result::Err(e)),
{
    assert forall|tail: Seq<DbEvent>|
        prereqs_parse(nodes, dry_run, head + tail) == Option::Some(
            (Result::<(), ErrorView>::Err(e), head.len() as int),
        ) by {
        assert(converge_parse(nodes[0], dry_run, head + tail) == Option::Some(
            (Result::<SchemaState, ErrorView>::Err(e), head.len() as int),
        ));
    }
}

/// A converged first prerequisite prepends its trace to its siblings'.
pub proof fn lemma_prereqs_cons(
    nodes: Seq<NodeView>,
    dry_run: bool,
    head: Seq<DbEvent>,
    s: SchemaState,
    rest: Seq<DbEvent>,
    r: Result<(), ErrorView>,
)
    requires
        nodes.len() > 0,
        is_converge_trace(nodes[0], dry_run, head, Result::Ok(s)),
        is_prereqs_trace(nodes.subrange(1, nodes.len() as int), dry_run, rest, r),
    ensures
        is_prereqs_trace(nodes, dry_run, head + rest, r),
{
    let events = head + rest;
    assert forall|tail: Seq<DbEvent>|
        prereqs_parse(nodes, dry_run, events + tail) == Option::Some((r, events.len() as int)) by {
        let evs = events + tail;
        assert(evs =~= head + (rest + tail));
        assert(converge_parse(nodes[0], dry_run, head + (rest + tail)) == Option::Some(
            (Result::<SchemaState, ErrorView>::Ok(s), head.len() as int),
        ));
        assert(evs.subrange(head.len() as int, evs.len() as int) =~= rest + tail);
        assert(prereqs_parse(nodes.subrange(1, nodes.len() as int), dry_run, rest + tail)
            == Option::Some((r, rest.len() as int)));
    }
}

/// A refused re-check query yields a meet error.
pub proof fn lemma_verify_db_fail(node: NodeView, e: Seq<char>)
    ensures
        is_verify_trace(
            node,
            seq![DbEvent::Query { sql: node.check_query, outcome: Result::Err(e) }],
            Result::Err(ErrorView::MeetError(node.name, CauseView::Database(e))),
        ),
{
    let ev0 = DbEvent::Query { sql: node.check_query, outcome: Result::Err(e) };
    assert forall|tail: Seq<DbEvent>|
        verify_parse(node, seq![ev0] + tail) == Option::Some(
            (
                Result::<SchemaState, ErrorView>::Err(
                    ErrorView::MeetError(node.name, CauseView::Database(e)),
                ),
                1int,
            ),
        ) by {
        assert((seq![ev0] + tail)[0] == ev0);
    }
}

/// Re-check rows of the wrong shape yield a meet error.
pub proof fn lemma_verify_shape_fail(node: NodeView, rows: Seq<RowView>, shape: RowShapeError)
    requires
        spec_check(node.check, rows) == Result::<Seq<Seq<char>>, RowShapeError>::Err(shape),
    ensures
        is_verify_trace(
            node,
            seq![DbEvent::Query { sql: node.check_query, outcome: Result::Ok(rows) }],
            Result::Err(ErrorView::MeetError(node.name, CauseView::RowShape(shape))),
        ),
{
    let ev0 = DbEvent::Query { sql: node.check_query, outcome: Result::Ok(rows) };
    assert forall|tail: Seq<DbEvent>|
        verify_parse(node, seq![ev0] + tail) == Option::Some(
            (
                Result::<SchemaState, ErrorView>::Err(
                    ErrorView::MeetError(node.name, CauseView::RowShape(shape)),
                ),
                1int,
            ),
        ) by {
        assert((seq![ev0] + tail)[0] == ev0);
    }
}

/// A re-check whose rows show the object satisfied completes the change.
pub proof fn lemma_verify_changed(node: NodeView, rows: Seq<RowView>, mq2: Seq<Seq<char>>)
    requires
        spec_check(node.check, rows) == Result::<Seq<Seq<char>>, RowShapeError>::Ok(mq2),
        mq2.len() == 0,
    ensures
        is_verify_trace(
            node,
            seq![DbEvent::Query { sql: node.check_query, outcome: Result::Ok(rows) }],
            Result::Ok(SchemaState::Changed),
        ),
{
    let ev0 = DbEvent::Query { sql: node.check_query, outcome: Result::Ok(rows) };
    assert forall|tail: Seq<DbEvent>|
        verify_parse(node, seq![ev0] + tail) == Option::Some(
            (Result::<SchemaState, ErrorView>::Ok(SchemaState::Changed), 1int),
        ) by {
        assert((seq![ev0] + tail)[0] == ev0);
    }
}

/// A re-check whose rows still show work to do is a hard failure.
pub proof fn lemma_verify_unmet(node: NodeView, rows: Seq<RowView>, mq2: Seq<Seq<char>>)
    requires
        spec_check(node.check, rows) == Result::<Seq<Seq<char>>, RowShapeError>::Ok(mq2),
        mq2.len() > 0,
    ensures
        is_verify_trace(
            node,
            seq![DbEvent::Query { sql: node.check_query, outcome: Result::Ok(rows) }],
            Result::Err(ErrorView::MeetError(node.name, CauseView::Verification)),
        ),
{
    let ev0 = DbEvent::Query { sql: node.check_query, outcome: Result::Ok(rows) };
    assert forall|tail: Seq<DbEvent>|
        verify_parse(node, seq![ev0] + tail) == Option::Some(
            (
                Result::<SchemaState, ErrorView>::Err(
                    ErrorView::MeetError(node.name, CauseView::Verification),
                ),
                1int,
            ),
        ) by {
        assert((seq![ev0] + tail)[0] == ev0);
    }
}

} // verus!
