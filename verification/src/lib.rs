//! Idempotent, dependency-ordered initialization of database schema objects.
//!
//! An [`EnsureSchema`] value describes how to check the state of one schema
//! object and how to correct it, together with the schema objects that must
//! be brought into shape first. The convergence engine walks that tree
//! depth-first, prerequisite-first, against any [`Database`] handle, checks
//! before correcting, and re-checks after correcting.

use vstd::prelude::*;

pub mod db;
pub mod engine;
pub mod laws;
pub mod rows;
pub mod schema;
pub mod trace;

pub use db::{Database, DbEvent, RecordedCall, Response, ScriptDb};
pub use rows::{Row, RowView, Value, ValueView};
pub use schema::{
    Cause, CauseView, CheckFn, CheckView, EnsureSchema, ErrorView, NodeView, RowShapeError,
    SchemaStateError,
};

verus! {

/// SQL statement text.
pub type Sql = String;

/// Outcome of a successful convergence call.
#[derive(Debug, Clone, Copy, PartialEq, Eq, Structural)]
pub enum SchemaState {
    /// The object was already in the desired state; nothing was executed.
    /// A dry run reports this outcome as well, even where it found work to do.
    Met,
    /// Corrective statements were executed and the check then reported the
    /// desired state.
    Changed,
}

} // verus!
