//! Plain-value model of the rows a check query returns.
//!
//! The convergence engine never inspects a driver's own row types; a database
//! handle hands rows over as vectors of [`Value`]s, and the adapter around the
//! real driver converts its values into this shape.

use vstd::prelude::*;

verus! {

/// One cell of a result row.
#[derive(Debug)]
pub enum Value {
    /// A boolean (`BOOLEAN`/`BIT`) cell.
    Bool(bool),
    /// An integer cell.
    Int(i64),
    /// A text cell.
    Text(String),
    /// An SQL `NULL`.
    Null,
}

/// The mathematical value of one cell.
pub enum ValueView {
    Bool(bool),
    Int(i64),
    Text(Seq<char>),
    Null,
}

impl DeepView for Value {
    type V = ValueView;

    open spec fn deep_view(&self) -> ValueView {
        match self {
            Value::Bool(b) => ValueView::Bool(*b),
            Value::Int(i) => ValueView::Int(*i),
            Value::Text(s) => ValueView::Text(s@),
            Value::Null => ValueView::Null,
        }
    }
}

/// One row of a check query's result.
pub type Row = Vec<Value>;

/// The mathematical value of one row.
pub type RowView = Seq<ValueView>;

} // verus!
