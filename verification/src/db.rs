//! The database collaborator.
//!
//! The engine talks to a database only through the [`Database`] trait: a
//! check query goes through [`Database::query`], a corrective statement
//! through [`Database::execute`]. The trait carries a ghost [`Database::log`]
//! of every call issued so far together with its outcome, so that the
//! engine's contracts can pin down exactly which statements were sent, and in
//! what order, for every possible behaviour of the database.
//!
//! [`ScriptDb`] is the library's own, fully verified implementation: it
//! serves pre-arranged responses and records every call, which is what the
//! tests run against. An adapter around a real driver lives outside the
//! library and implements the same trait.

use vstd::prelude::*;

use crate::rows::{Row, RowView, Value};
use crate::Sql;

verus! {

/// One database call, with the outcome the database gave it.
pub enum DbEvent {
    /// A check (read-only) query and the rows it returned.
    Query { sql: Seq<char>, outcome: Result<Seq<RowView>, Seq<char>> },
    /// A corrective statement, executed for effect only.
    Execute { sql: Seq<char>, outcome: Result<(), Seq<char>> },
}

/// The mathematical value of a query outcome.
pub open spec fn query_outcome_view(r: Result<Vec<Row>, String>) -> Result<Seq<RowView>, Seq<char>> {
    match r {
        Result::Ok(rows) => Result::Ok(rows.deep_view()),
        Result::Err(e) => Result::Err(e@),
    }
}

/// The mathematical value of an execute outcome.
pub open spec fn execute_outcome_view(r: Result<(), String>) -> Result<(), Seq<char>> {
    match r {
        Result::Ok(u) => Result::Ok(u),
        Result::Err(e) => Result::Err(e@),
    }
}

/// A handle that can run check queries and corrective statements.
///
/// The ghost log says nothing about which rows come back: the engine is
/// verified for every outcome a database may produce. An implementation
/// promises only that each call appends exactly one event recording the
/// statement it was given and the outcome it reported.
pub trait Database: Sized {
    /// Every call served so far, oldest first, each with its outcome. An
    /// implementation overrides this with its own model of the calls it has
    /// made; the default stands for implementations outside the library,
    /// which Verus never reasons about.
    open spec fn log(&self) -> Seq<DbEvent> {
        Seq::empty()
    }

    /// Runs a read-only query and returns its rows.
    fn query(&mut self, sql: &Sql) -> (r: Result<Vec<Row>, String>)
        ensures
            final(self).log() == old(self).log().push(
                DbEvent::Query { sql: sql@, outcome: query_outcome_view(r) },
            ),
    ;

    /// Runs a statement for effect, discarding any result.
    fn execute(&mut self, sql: &Sql) -> (r: Result<(), String>)
        ensures
            final(self).log() == old(self).log().push(
                DbEvent::Execute { sql: sql@, outcome: execute_outcome_view(r) },
            ),
    ;
}

/// One pre-arranged response of a [`ScriptDb`].
pub enum Response {
    /// The next query succeeds with these rows.
    Rows(Vec<Row>),
    /// The next execute succeeds.
    Done,
    /// The next call fails with this message.
    Fail(String),
}

/// One call a [`ScriptDb`] has served, with the outcome it reported.
pub enum RecordedCall {
    Query { sql: Sql, outcome: Result<Vec<Row>, String> },
    Execute { sql: Sql, outcome: Result<(), String> },
}

impl DeepView for RecordedCall {
    type V = DbEvent;

    open spec fn deep_view(&self) -> DbEvent {
        match self {
            RecordedCall::Query { sql, outcome } => DbEvent::Query {
                sql: sql@,
                outcome: query_outcome_view(*outcome),
            },
            RecordedCall::Execute { sql, outcome } => DbEvent::Execute {
                sql: sql@,
                outcome: execute_outcome_view(*outcome),
            },
        }
    }
}

/// A database that serves responses from a fixed script and records every
/// call: the stand-in the library's tests run the engine against.
pub struct ScriptDb {
    /// Responses not yet served; the front one is served next.
    pub script: Vec<Response>,
    /// Calls served so far, oldest first, with the outcomes they reported.
    pub served: Vec<RecordedCall>,
}

/// Copies one cell.
pub fn clone_value(v: &Value) -> (r: Value)
    ensures
        r.deep_view() == v.deep_view(),
{
    match v {
        Value::Bool(b) => Value::Bool(*b),
        Value::Int(i) => Value::Int(*i),
        Value::Text(s) => Value::Text(s.clone()),
        Value::Null => Value::Null,
    }
}

/// Copies one row.
pub fn clone_row(row: &Row) -> (r: Row)
    ensures
        r.deep_view() == row.deep_view(),
{
    let mut out: Vec<Value> = Vec::new();
    let mut i: usize = 0;
    while i < row.len()
        invariant
            i <= row.len(),
            out@.len() == i,
            forall|j: int| 0 <= j < i ==> out@[j].deep_view() == row@[j].deep_view(),
        decreases row.len() - i,
    {
        out.push(clone_value(&row[i]));
        i += 1;
    }
    proof {
        assert(out.deep_view() =~= row.deep_view());
    }
    out
}

/// Copies a query result.
pub fn clone_rows(rows: &Vec<Row>) -> (r: Vec<Row>)
    ensures
        r.deep_view() == rows.deep_view(),
{
    let mut out: Vec<Row> = Vec::new();
    let mut i: usize = 0;
    while i < rows.len()
        invariant
            i <= rows.len(),
            out@.len() == i,
            forall|j: int| 0 <= j < i ==> out@[j].deep_view() == rows@[j].deep_view(),
        decreases rows.len() - i,
    {
        out.push(clone_row(&rows[i]));
        i += 1;
    }
    proof {
        assert(out.deep_view() =~= rows.deep_view());
    }
    out
}

/// How many of the first `i` recorded calls were queries.
pub open spec fn spec_queries_served(s: Seq<RecordedCall>, i: int) -> int
    decreases i,
{
    if i <= 0 || i > s.len() {
        0
    } else {
        spec_queries_served(s, i - 1) + if s[i - 1] is Query {
            1int
        } else {
            0int
        }
    }
}

/// How many of the first `i` recorded calls were executes.
pub open spec fn spec_executes_served(s: Seq<RecordedCall>, i: int) -> int
    decreases i,
{
    if i <= 0 || i > s.len() {
        0
    } else {
        spec_executes_served(s, i - 1) + if s[i - 1] is Execute {
            1int
        } else {
            0int
        }
    }
}

impl ScriptDb {
    /// A database that will serve the given responses in order.
    pub fn new(script: Vec<Response>) -> (r: ScriptDb)
        ensures
            r.log() == Seq::<DbEvent>::empty(),
            r.script@ == script@,
    {
        let r = ScriptDb { script, served: Vec::new() };
        proof {
            assert(r.log() =~= Seq::<DbEvent>::empty());
        }
        r
    }

    /// How many of the served calls were queries.
    pub fn queries_served(&self) -> (n: usize)
        ensures
            n == spec_queries_served(self.served@, self.served@.len() as int),
    {
        let mut n: usize = 0;
        let mut i: usize = 0;
        while i < self.served.len()
            invariant
                i <= self.served@.len(),
                n <= i,
                n == spec_queries_served(self.served@, i as int),
            decreases self.served@.len() - i,
        {
            match &self.served[i] {
                RecordedCall::Query { .. } => {
                    n = n + 1;
                }
                RecordedCall::Execute { .. } => {}
            }
            i += 1;
        }
        n
    }

    /// How many of the served calls were executes.
    pub fn executes_served(&self) -> (n: usize)
        ensures
            n == spec_executes_served(self.served@, self.served@.len() as int),
    {
        let mut n: usize = 0;
        let mut i: usize = 0;
        while i < self.served.len()
            invariant
                i <= self.served@.len(),
                n <= i,
                n == spec_executes_served(self.served@, i as int),
            decreases self.served@.len() - i,
        {
            match &self.served[i] {
                RecordedCall::Execute { .. } => {
                    n = n + 1;
                }
                RecordedCall::Query { .. } => {}
            }
            i += 1;
        }
        n
    }
}

impl Database for ScriptDb {
    open spec fn log(&self) -> Seq<DbEvent> {
        self.served.deep_view()
    }

    fn query(&mut self, sql: &Sql) -> (r: Result<Vec<Row>, String>) {
        let outcome: Result<Vec<Row>, String> = if self.script.len() == 0 {
            Result::Err("no response is scripted".to_owned())
        } else {
            match self.script.remove(0) {
                Response::Rows(rows) => Result::Ok(rows),
                Response::Done => Result::Err("the script expected an execute".to_owned()),
                Response::Fail(m) => Result::Err(m),
            }
        };
        let recorded: Result<Vec<Row>, String> = match &outcome {
            Result::Ok(rows) => Result::Ok(clone_rows(rows)),
            Result::Err(m) => Result::Err(m.clone()),
        };
        self.served.push(RecordedCall::Query { sql: sql.clone(), outcome: recorded });
        proof {
            assert(self.log() =~= old(self).log().push(
                DbEvent::Query { sql: sql@, outcome: query_outcome_view(outcome) },
            ));
        }
        outcome
    }

    fn execute(&mut self, sql: &Sql) -> (r: Result<(), String>) {
        let outcome: Result<(), String> = if self.script.len() == 0 {
            Result::Err("no response is scripted".to_owned())
        } else {
            match self.script.remove(0) {
                Response::Done => Result::Ok(()),
                Response::Rows(rows) => Result::Err("the script expected a query".to_owned()),
                Response::Fail(m) => Result::Err(m),
            }
        };
        let recorded: Result<(), String> = match &outcome {
            Result::Ok(u) => Result::Ok(()),
            Result::Err(m) => Result::Err(m.clone()),
        };
        self.served.push(RecordedCall::Execute { sql: sql.clone(), outcome: recorded });
        proof {
            assert(self.log() =~= old(self).log().push(
                DbEvent::Execute { sql: sql@, outcome: execute_outcome_view(outcome) },
            ));
        }
        outcome
    }
}

} // verus!
