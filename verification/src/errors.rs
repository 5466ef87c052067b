//! The error taxonomy of the pipe: every fallible operation of the library
//! and of the drivers around it reports one of these kinds.

use vstd::prelude::*;

verus! {

/// One error kind per failure class of the pipe, each carrying a
/// human-readable description.
#[derive(Debug, Clone)]
pub enum Errors {
    ConfigReadError(String),
    IOError(String),
    ClickhouseDatabaseError(String),
    DatabaseConnectionError(String),
    DatabaseQueryError(String),
    DatabasePingError(String),
    TableNotFoundError(String),
    GetTableNameFailed(String),
    ListTableColumnsFailed(String),
    PublicationCreateFailed(String),
    PublicationAddFailed(String),
    PublicationFindFailed(String),
    ReplicationCreateFailed(String),
    ReplicationNotFound(String),
    PeekChangesFailed(String),
    ReplicationSlotAdvanceFailed(String),
    PgOutputParseError(String),
    CopyTableFailed(String),
    CountTableRowsFailed(String),
    ResumeTokenParseError(String),
}

/// The human-readable text of an error: its kind's prefix, then the
/// description it carries.
pub open spec fn spec_error_text(e: &Errors) -> Seq<char> {
    match e {
        Errors::ConfigReadError(m) => "Configuration read error: "@ + m@,
        Errors::IOError(m) => "I/O error: "@ + m@,
        Errors::ClickhouseDatabaseError(m) => "ClickHouse database error: "@ + m@,
        Errors::DatabaseConnectionError(m) => "Database connection error: "@ + m@,
        Errors::DatabaseQueryError(m) => "Database query error: "@ + m@,
        Errors::DatabasePingError(m) => "Database ping error: "@ + m@,
        Errors::TableNotFoundError(m) => "Table not found: "@ + m@,
        Errors::GetTableNameFailed(m) => "Failed to get table name: "@ + m@,
        Errors::ListTableColumnsFailed(m) => "Failed to list table columns: "@ + m@,
        Errors::PublicationCreateFailed(m) => "Failed to create publication: "@ + m@,
        Errors::PublicationAddFailed(m) => "Failed to add table to publication: "@ + m@,
        Errors::PublicationFindFailed(m) => "Publication not found: "@ + m@,
        Errors::ReplicationCreateFailed(m) => "Failed to create replication slot: "@ + m@,
        Errors::ReplicationNotFound(m) => "Replication slot not found: "@ + m@,
        Errors::PeekChangesFailed(m) => "Failed to peek changes: "@ + m@,
        Errors::ReplicationSlotAdvanceFailed(m) => "Failed to advance replication slot: "@ + m@,
        Errors::PgOutputParseError(m) => "Failed to parse PgOutput: "@ + m@,
        Errors::CopyTableFailed(m) => "Failed to copy table data: "@ + m@,
        Errors::CountTableRowsFailed(m) => "Failed to count table rows: "@ + m@,
        Errors::ResumeTokenParseError(m) => "Failed to parse resume token: "@ + m@,
    }
}

impl Errors {
    /// Renders the error as one human-readable line.
    pub fn describe(&self) -> (r: String)
        ensures
            r@ == spec_error_text(self),
    {
        let (prefix, message): (&str, &String) = match self {
            Errors::ConfigReadError(m) => ("Configuration read error: ", m),
            Errors::IOError(m) => ("I/O error: ", m),
            Errors::ClickhouseDatabaseError(m) => ("ClickHouse database error: ", m),
            Errors::DatabaseConnectionError(m) => ("Database connection error: ", m),
            Errors::DatabaseQueryError(m) => ("Database query error: ", m),
            Errors::DatabasePingError(m) => ("Database ping error: ", m),
            Errors::TableNotFoundError(m) => ("Table not found: ", m),
            Errors::GetTableNameFailed(m) => ("Failed to get table name: ", m),
            Errors::ListTableColumnsFailed(m) => ("Failed to list table columns: ", m),
            Errors::PublicationCreateFailed(m) => ("Failed to create publication: ", m),
            Errors::PublicationAddFailed(m) => ("Failed to add table to publication: ", m),
            Errors::PublicationFindFailed(m) => ("Publication not found: ", m),
            Errors::ReplicationCreateFailed(m) => ("Failed to create replication slot: ", m),
            Errors::ReplicationNotFound(m) => ("Replication slot not found: ", m),
            Errors::PeekChangesFailed(m) => ("Failed to peek changes: ", m),
            Errors::ReplicationSlotAdvanceFailed(m) => ("Failed to advance replication slot: ", m),
            Errors::PgOutputParseError(m) => ("Failed to parse PgOutput: ", m),
            Errors::CopyTableFailed(m) => ("Failed to copy table data: ", m),
            Errors::CountTableRowsFailed(m) => ("Failed to count table rows: ", m),
            Errors::ResumeTokenParseError(m) => ("Failed to parse resume token: ", m),
        };
        let mut r = String::new();
        r.append(prefix);
        r.append(message.as_str());
        r
    }
}

} // verus!
