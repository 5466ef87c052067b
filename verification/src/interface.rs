//! Row-level event records as the generic pipe interface describes them: a
//! keyed change with its kind, and the result of one peek together with the
//! cursor to advance to.

use vstd::prelude::*;

verus! {

/// The key of a changed row.
#[derive(Debug, Clone)]
pub enum RowKey {
    StringKey(String),
    IntegerKey(i64),
}

/// The kind of a row-level change.
#[derive(Debug, Clone, Copy, PartialEq, Eq, Structural)]
pub enum EventType {
    Insert,
    Update,
    Delete,
}

/// One keyed row-level change.
#[derive(Debug, Clone)]
pub struct Row {
    pub event_type: EventType,
    pub key: RowKey,
}

/// One peek's worth of changes and the cursor that covers them.
#[derive(Debug, Clone)]
pub struct PeekResult {
    pub rows: Vec<Row>,
    pub advance_key: String,
}

} // verus!
