//! Plain-text entry points of the type mapper: the ClickHouse type text of
//! one source column, and a CREATE TABLE statement built with the default
//! table settings.

use vstd::prelude::*;

use crate::adapter::IntoClickhouseColumn;
use crate::config::{ClickHouseConfig, ClickHouseConnectionConfig, ClickHouseTableOptions};
use crate::postgres::{spec_pg_type_text, PostgresColumn};
use crate::queries;

verus! {

/// The ClickHouse type text a source column maps to.
pub fn convert_postgres_column_type_to_clickhouse(postgres_column_type: &PostgresColumn) -> (r:
    String)
    ensures
        r@ == spec_pg_type_text(postgres_column_type.data_type@, postgres_column_type.nullable),
{
    let ty = postgres_column_type.to_clickhouse_type();
    ty.to_type_text()
}

/// Builds the CREATE TABLE statement for a destination table with the
/// default settings and an empty table comment.
pub fn generate_clickhouse_create_table_query(
    database_name: &str,
    table_name: &str,
    columns: &[PostgresColumn],
) -> (r: String)
    ensures
        r@ == queries::spec_create_table_query(
            database_name@,
            table_name@,
            columns@,
            8192,
            60,
            None,
            ""@,
        ),
{
    let config = ClickHouseConfig {
        connection: ClickHouseConnectionConfig {
            host: String::new(),
            port: 0,
            username: String::new(),
            password: String::new(),
            database: String::from_str(database_name),
        },
    };
    let options = ClickHouseTableOptions { granularity: None, storage_policy: None };
    queries::generate_create_table_query(&config, &options, table_name, columns, "")
}

} // verus!
