//! Schema nodes: what to check, how to correct, and what must come first.

use vstd::prelude::*;

use crate::rows::{Row, RowView, Value, ValueView};
use crate::Sql;

verus! {

/// Why a check query's rows could not be interpreted.
#[derive(Debug, Clone, Copy, PartialEq, Eq, Structural)]
pub enum RowShapeError {
    /// The check query returned no row where one was needed.
    NoRows,
    /// The check query returned more than one row where one was needed.
    ManyRows,
    /// The single row did not hold exactly one boolean value.
    NotBoolean,
}

/// The failure underlying a convergence error.
#[derive(Debug)]
pub enum Cause {
    /// The database reported this failure.
    Database(String),
    /// The check query's rows had the wrong shape.
    RowShape(RowShapeError),
    /// After every corrective statement ran, the check still reported the
    /// object unsatisfied.
    Verification,
}

/// The mathematical value of a [`Cause`].
pub enum CauseView {
    Database(Seq<char>),
    RowShape(RowShapeError),
    Verification,
}

impl View for Cause {
    type V = CauseView;

    open spec fn view(&self) -> CauseView {
        match self {
            Cause::Database(m) => CauseView::Database(m@),
            Cause::RowShape(s) => CauseView::RowShape(*s),
            Cause::Verification => CauseView::Verification,
        }
    }
}

/// A convergence error: the phase it arose in, the name of the offending
/// node, and the underlying failure.
#[derive(Debug)]
pub enum SchemaStateError {
    /// The check query or the interpretation of its rows failed.
    CheckError(String, Cause),
    /// A corrective statement, a prerequisite, or the re-check after
    /// correcting failed.
    MeetError(String, Cause),
}

/// The mathematical value of a [`SchemaStateError`].
pub enum ErrorView {
    CheckError(Seq<char>, CauseView),
    MeetError(Seq<char>, CauseView),
}

impl View for SchemaStateError {
    type V = ErrorView;

    open spec fn view(&self) -> ErrorView {
        match self {
            SchemaStateError::CheckError(name, cause) => ErrorView::CheckError(name@, cause@),
            SchemaStateError::MeetError(name, cause) => ErrorView::MeetError(name@, cause@),
        }
    }
}

impl SchemaStateError {
    /// The name of the offending node.
    pub fn node_name(&self) -> (r: &String)
        ensures
            self@ matches ErrorView::CheckError(n, _) ==> r@ == n,
            self@ matches ErrorView::MeetError(n, _) ==> r@ == n,
    {
        match self {
            SchemaStateError::CheckError(name, _) => name,
            SchemaStateError::MeetError(name, _) => name,
        }
    }
}

/// How to tell, from the rows of a check query, whether a schema object is
/// satisfied, and which corrective statements to run where it is not.
///
/// A check function is plain data, so that the engine's contract can say
/// exactly what it computes on every possible set of rows.
#[derive(Debug)]
pub enum CheckFn {
    /// The check query must yield exactly one row holding exactly one
    /// boolean value: `true` means satisfied (no corrective statement),
    /// `false` means the given statements must run, in order.
    Bool { meet_queries: Vec<Sql> },
}

/// The mathematical value of a [`CheckFn`].
pub enum CheckView {
    Bool { meet_queries: Seq<Seq<char>> },
}

impl View for CheckFn {
    type V = CheckView;

    open spec fn view(&self) -> CheckView {
        match self {
            CheckFn::Bool { meet_queries } => CheckView::Bool {
                meet_queries: meet_queries.deep_view(),
            },
        }
    }
}

/// What a check function yields on the given rows: the corrective
/// statements still needed (none means satisfied), or why the rows could
/// not be interpreted.
pub open spec fn spec_check(check: CheckView, rows: Seq<RowView>) -> Result<
    Seq<Seq<char>>,
    RowShapeError,
> {
    match check {
        CheckView::Bool { meet_queries } => {
            if rows.len() == 0 {
                Result::Err(RowShapeError::NoRows)
            } else if rows.len() > 1 {
                Result::Err(RowShapeError::ManyRows)
            } else if rows[0].len() != 1 {
                Result::Err(RowShapeError::NotBoolean)
            } else {
                match rows[0][0] {
                    ValueView::Bool(b) => if b {
                        Result::Ok(Seq::empty())
                    } else {
                        Result::Ok(meet_queries)
                    },
                    _ => Result::Err(RowShapeError::NotBoolean),
                }
            }
        }
    }
}

/// The mathematical value of [`apply_check`]'s result.
pub open spec fn check_result_view(r: Result<Vec<Sql>, RowShapeError>) -> Result<
    Seq<Seq<char>>,
    RowShapeError,
> {
    match r {
        Result::Ok(qs) => Result::Ok(qs.deep_view()),
        Result::Err(e) => Result::Err(e),
    }
}

/// Copies a list of statements.
pub fn clone_sqls(qs: &Vec<Sql>) -> (r: Vec<Sql>)
    ensures
        r.deep_view() == qs.deep_view(),
{
    let mut out: Vec<Sql> = Vec::new();
    let mut i: usize = 0;
    while i < qs.len()
        invariant
            i <= qs.len(),
            out@.len() == i,
            forall|j: int| 0 <= j < i ==> out@[j]@ == qs@[j]@,
        decreases qs.len() - i,
    {
        out.push(qs[i].clone());
        i += 1;
    }
    proof {
        assert(out.deep_view() =~= qs.deep_view());
    }
    out
}

/// Runs a check function on the rows a check query returned.
pub fn apply_check(check: &CheckFn, rows: &Vec<Row>) -> (r: Result<Vec<Sql>, RowShapeError>)
    ensures
        check_result_view(r) == spec_check(check@, rows.deep_view()),
{
    match check {
        CheckFn::Bool { meet_queries } => {
            if rows.len() == 0 {
                Result::Err(RowShapeError::NoRows)
            } else if rows.len() > 1 {
                Result::Err(RowShapeError::ManyRows)
            } else if rows[0].len() != 1 {
                Result::Err(RowShapeError::NotBoolean)
            } else {
                match &rows[0][0] {
                    Value::Bool(b) => if *b {
                        let empty: Vec<Sql> = Vec::new();
                        proof {
                            assert(empty.deep_view() =~= Seq::<Seq<char>>::empty());
                        }
                        Result::Ok(empty)
                    } else {
                        Result::Ok(clone_sqls(meet_queries))
                    },
                    _ => Result::Err(RowShapeError::NotBoolean),
                }
            }
        }
    }
}

/// One schema object: its diagnostic name, how to check it, how to correct
/// it, and which objects must be brought into shape before its corrective
/// statements run.
#[derive(Debug)]
pub struct EnsureSchema {
    /// Reference name of the schema object, used for error attribution only.
    pub name: String,
    /// Query whose rows the check function interprets.
    pub check_query: Sql,
    /// How to interpret the rows, and what to run where unsatisfied.
    pub check: CheckFn,
    /// Converged first, in order, whenever this object needs correcting.
    pub meet_require: Vec<EnsureSchema>,
}

/// The mathematical value of an [`EnsureSchema`] tree.
pub struct NodeView {
    pub name: Seq<char>,
    pub check_query: Seq<char>,
    pub check: CheckView,
    pub meet_require: Seq<NodeView>,
}

/// The mathematical value of one node.
pub open spec fn node_view(n: EnsureSchema) -> NodeView
    decreases n,
{
    NodeView {
        name: n.name@,
        check_query: n.check_query@,
        check: n.check@,
        meet_require: nodes_view(n.meet_require@, n.meet_require@.len() as int),
    }
}

/// The mathematical values of the first `i` nodes of a sequence.
pub open spec fn nodes_view(s: Seq<EnsureSchema>, i: int) -> Seq<NodeView>
    decreases s, i,
{
    if i <= 0 || i > s.len() {
        Seq::empty()
    } else {
        nodes_view(s, i - 1).push(node_view(s[i - 1]))
    }
}

/// `nodes_view` has one element per node.
pub proof fn lemma_nodes_view_len(s: Seq<EnsureSchema>, i: int)
    requires
        0 <= i <= s.len(),
    ensures
        nodes_view(s, i).len() == i,
    decreases i,
{
    if i > 0 {
        lemma_nodes_view_len(s, i - 1);
    }
}

/// `nodes_view` views each node in place.
pub proof fn lemma_nodes_view_index(s: Seq<EnsureSchema>, i: int, j: int)
    requires
        0 <= j < i <= s.len(),
    ensures
        nodes_view(s, i).len() == i,
        nodes_view(s, i)[j] == node_view(s[j]),
    decreases i,
{
    lemma_nodes_view_len(s, i);
    if j < i - 1 {
        lemma_nodes_view_index(s, i - 1, j);
    } else {
        lemma_nodes_view_len(s, i - 1);
    }
}

/// Nodes beyond `i` do not affect `nodes_view`.
pub proof fn lemma_nodes_view_take(s1: Seq<EnsureSchema>, s2: Seq<EnsureSchema>, i: int)
    requires
        0 <= i <= s1.len(),
        i <= s2.len(),
        forall|j: int| 0 <= j < i ==> s1[j] == s2[j],
    ensures
        nodes_view(s1, i) == nodes_view(s2, i),
    decreases i,
{
    if i > 0 {
        lemma_nodes_view_take(s1, s2, i - 1);
    }
}

impl EnsureSchema {
    /// Builds a leaf node: a name for diagnostics, the query to check the
    /// object's state with, and the check function interpreting its rows.
    pub fn new(name: String, check_query: Sql, check: CheckFn) -> (r: EnsureSchema)
        ensures
            node_view(r).name == name@,
            node_view(r).check_query == check_query@,
            node_view(r).check == check@,
            node_view(r).meet_require == Seq::<NodeView>::empty(),
    {
        EnsureSchema { name, check_query, check, meet_require: Vec::new() }
    }

    /// Builds a leaf node whose check query must yield one row with one
    /// boolean value: `true` means initialized, `false` means the given
    /// statements must run.
    pub fn with_bool_check(name: String, check_query: Sql, meet_queries: Vec<Sql>) -> (r:
        EnsureSchema)
        ensures
            node_view(r).name == name@,
            node_view(r).check_query == check_query@,
            node_view(r).check == (CheckView::Bool { meet_queries: meet_queries.deep_view() }),
            node_view(r).meet_require == Seq::<NodeView>::empty(),
    {
        Self::new(name, check_query, CheckFn::Bool { meet_queries })
    }

    /// Appends a prerequisite: an object brought into shape before this
    /// one's corrective statements run, whenever this one needs correcting.
    pub fn with_meet_require(self, schema: EnsureSchema) -> (r: EnsureSchema)
        ensures
            node_view(r).name == node_view(self).name,
            node_view(r).check_query == node_view(self).check_query,
            node_view(r).check == node_view(self).check,
            node_view(r).meet_require == node_view(self).meet_require.push(node_view(schema)),
    {
        let ghost old_self = self;
        let mut s = self;
        s.meet_require.push(schema);
        proof {
            let n = old_self.meet_require@.len() as int;
            lemma_nodes_view_take(old_self.meet_require@, s.meet_require@, n);
            assert(nodes_view(s.meet_require@, n + 1) == nodes_view(s.meet_require@, n).push(
                node_view(s.meet_require@[n]),
            ));
        }
        s
    }
}

} // verus!
