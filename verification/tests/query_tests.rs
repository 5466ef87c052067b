use clockpipe::clickhouse::{double_question_marks, ClickhouseColumn, ClickhouseConnection, ClickhouseType, DateTime64};
use clockpipe::config::{ClickHouseConfig, ClickHouseConnectionConfig, ClickHouseTableOptions};
use clockpipe::mapper::{convert_postgres_column_type_to_clickhouse, generate_clickhouse_create_table_query};
use clockpipe::pgoutput::PgOutputValue;
use clockpipe::postgres::{parse_copy_text, PostgresColumn, PostgresCopyRow};
use clockpipe::queries::{
    generate_add_column_query, generate_create_table_query, generate_delete_query,
    generate_insert_query, generate_truncate_query,
};

fn pg_column(index: u32, name: &str, data_type: &str, nullable: bool, pk: bool) -> PostgresColumn {
    PostgresColumn {
        column_index: index,
        column_name: name.to_string(),
        data_type: data_type.to_string(),
        length: 0,
        nullable,
        is_primary_key: pk,
        comment: String::new(),
    }
}

fn ch_column(index: u64, name: &str, data_type: &str, pk: bool) -> ClickhouseColumn {
    ClickhouseColumn {
        column_index: index,
        column_name: name.to_string(),
        data_type: data_type.to_string(),
        is_in_primary_key: pk,
    }
}

fn users_pg_columns() -> Vec<PostgresColumn> {
    vec![
        pg_column(1, "id", "int4", false, true),
        pg_column(2, "name", "text", false, false),
    ]
}

fn users_ch_columns() -> Vec<ClickhouseColumn> {
    vec![
        ch_column(1, "id", "Int32", true),
        ch_column(2, "name", "String", false),
    ]
}

fn db_config() -> ClickHouseConfig {
    ClickHouseConfig {
        connection: ClickHouseConnectionConfig {
            host: "localhost".to_string(),
            port: 8123,
            username: "default".to_string(),
            password: String::new(),
            database: "db".to_string(),
        },
    }
}

fn text_row(cells: &[&str]) -> PostgresCopyRow {
    PostgresCopyRow {
        columns: cells.iter().map(|c| PgOutputValue::Text(c.to_string())).collect(),
    }
}

#[test]
fn create_table_for_users() {
    let options = ClickHouseTableOptions { granularity: None, storage_policy: None };
    let query =
        generate_create_table_query(&db_config(), &options, "users", &users_pg_columns(), "");
    assert_eq!(
        query,
        "CREATE TABLE db.users (`id` Int32 COMMENT '', `name` String COMMENT '') \
         ENGINE = ReplacingMergeTree() ORDER BY (id) SETTINGS index_granularity = 8192, \
         min_age_to_force_merge_seconds = 60 COMMENT '';"
    );
}

#[test]
fn create_table_without_primary_keys_omits_order_by() {
    let options = ClickHouseTableOptions { granularity: None, storage_policy: None };
    let columns = vec![pg_column(1, "v", "text", true, false)];
    let query = generate_create_table_query(&db_config(), &options, "plain", &columns, "");
    assert!(!query.contains("ORDER BY"));
    assert!(query.contains("`v` Nullable(String) COMMENT ''"));
}

#[test]
fn create_table_with_storage_policy_and_granularity() {
    let options = ClickHouseTableOptions {
        granularity: Some(1024),
        storage_policy: Some("s3".to_string()),
    };
    let query =
        generate_create_table_query(&db_config(), &options, "users", &users_pg_columns(), "log");
    assert!(query.contains("index_granularity = 1024"));
    assert!(query.contains(", storage_policy = 's3'"));
    assert!(query.ends_with("COMMENT 'log';"));
}

#[test]
fn legacy_create_table_builder_matches() {
    let options = ClickHouseTableOptions { granularity: None, storage_policy: None };
    let canonical =
        generate_create_table_query(&db_config(), &options, "users", &users_pg_columns(), "");
    let legacy = generate_clickhouse_create_table_query("db", "users", &users_pg_columns());
    assert_eq!(legacy, canonical);
}

#[test]
fn type_mapping_covers_the_table() {
    let cases = [
        ("int2", false, "Int16"),
        ("int4", false, "Int32"),
        ("int", true, "Nullable(Int32)"),
        ("int8", false, "Int64"),
        ("float4", false, "Float32"),
        ("float8", true, "Nullable(Float64)"),
        ("numeric", false, "Decimal"),
        ("bool", false, "Bool"),
        ("varchar", true, "Nullable(String)"),
        ("text", false, "String"),
        ("json", false, "String"),
        ("jsonb", false, "String"),
        ("timestamp", false, "DateTime"),
        ("timestamptz", true, "Nullable(DateTime)"),
        ("date", false, "Date"),
        ("_int4", false, "Array(Int32)"),
        ("_text", false, "Array(String)"),
        ("mystery", false, "String"),
        ("mystery", true, "Nullable(String)"),
    ];
    for (pg_type, nullable, expected) in cases {
        let col = pg_column(1, "c", pg_type, nullable, false);
        assert_eq!(convert_postgres_column_type_to_clickhouse(&col), expected);
    }
}

#[test]
fn add_column_query_text() {
    let col = pg_column(3, "age", "int4", true, false);
    let query = generate_add_column_query(&db_config(), "users", &col);
    assert_eq!(
        query,
        "ALTER TABLE db.users ADD COLUMN `age` Nullable(Int32) COMMENT '';"
    );
}

#[test]
fn insert_query_for_one_row() {
    let mask: Vec<String> = Vec::new();
    let rows = vec![text_row(&["1", "a"])];
    let query = generate_insert_query(
        &db_config(),
        &users_ch_columns(),
        &users_pg_columns(),
        &mask,
        "users",
        &rows,
    );
    assert_eq!(query, "INSERT INTO db.users (id, name) VALUES (1,'a')");
}

#[test]
fn insert_query_batches_rows() {
    let mask: Vec<String> = Vec::new();
    let rows = vec![text_row(&["1", "a"]), text_row(&["2", "b"])];
    let query = generate_insert_query(
        &db_config(),
        &users_ch_columns(),
        &users_pg_columns(),
        &mask,
        "users",
        &rows,
    );
    assert_eq!(
        query,
        "INSERT INTO db.users (id, name) VALUES (1,'a'), (2,'b')"
    );
}

#[test]
fn insert_query_for_no_rows_is_empty() {
    let mask: Vec<String> = Vec::new();
    let rows: Vec<PostgresCopyRow> = Vec::new();
    let query = generate_insert_query(
        &db_config(),
        &users_ch_columns(),
        &users_pg_columns(),
        &mask,
        "users",
        &rows,
    );
    assert_eq!(query, "");
}

#[test]
fn masked_column_inserts_null() {
    // A masked column renders NULL whatever the row held, even for the
    // non-nullable destination type of a NOT NULL source column.
    let mask = vec!["name".to_string()];
    let rows = vec![text_row(&["2", "secret"])];
    let query = generate_insert_query(
        &db_config(),
        &users_ch_columns(),
        &users_pg_columns(),
        &mask,
        "users",
        &rows,
    );
    assert_eq!(query, "INSERT INTO db.users (id, name) VALUES (2,NULL)");
    assert!(!query.contains("secret"));
}

#[test]
fn null_cell_in_nullable_column_renders_null() {
    let col = ch_column(2, "name", "Nullable(String)", false);
    let rendered = col.to_clickhouse_value(&PgOutputValue::Null);
    assert_eq!(rendered, "NULL");
}

#[test]
fn unchanged_cell_renders_column_default() {
    let cases = [
        ("Int32", "0"),
        ("Nullable(Int64)", "0"),
        ("Float64", "0.0"),
        ("Decimal", "0.0"),
        ("Bool", "FALSE"),
        ("String", "''"),
        ("Date", "toDate('current_date()')"),
        ("DateTime", "toDateTime('now()')"),
        ("Time", "toTime('now()')"),
        ("Array(String)", "['']"),
    ];
    for (data_type, expected) in cases {
        let col = ch_column(1, "c", data_type, false);
        assert_eq!(col.to_clickhouse_value(&PgOutputValue::Unchanged), expected);
    }
}

#[test]
fn delete_query_for_one_row() {
    let rows = vec![text_row(&["1", "a"])];
    let query = generate_delete_query(
        &db_config(),
        &users_ch_columns(),
        &users_pg_columns(),
        "users",
        &rows,
    );
    assert_eq!(query, "ALTER TABLE db.users DELETE WHERE (id = 1)");
}

#[test]
fn delete_query_batches_rows_with_or() {
    let rows = vec![text_row(&["1", "a"]), text_row(&["2", "b"])];
    let query = generate_delete_query(
        &db_config(),
        &users_ch_columns(),
        &users_pg_columns(),
        "users",
        &rows,
    );
    assert_eq!(
        query,
        "ALTER TABLE db.users DELETE WHERE (id = 1) OR (id = 2)"
    );
}

#[test]
fn delete_query_without_primary_keys_is_empty() {
    // An empty destination primary-key set renders an empty DELETE query.
    let columns = vec![
        ch_column(1, "id", "Int32", false),
        ch_column(2, "name", "String", false),
    ];
    let rows = vec![text_row(&["1", "a"])];
    let query =
        generate_delete_query(&db_config(), &columns, &users_pg_columns(), "users", &rows);
    assert_eq!(query, "");
}

#[test]
fn truncate_query_text() {
    assert_eq!(generate_truncate_query("db", "users"), "TRUNCATE TABLE db.users");
}

#[test]
fn question_marks_are_doubled() {
    assert_eq!(double_question_marks("SELECT '?' || ?"), "SELECT '??' || ??");
    assert_eq!(double_question_marks("no placeholders"), "no placeholders");
}

#[test]
fn clickhouse_connection_builds_url() {
    let conn = ClickhouseConnection::new(&db_config().connection);
    assert_eq!(conn.url, "http://localhost:8123");
    assert_eq!(conn.database, "db");
}

#[test]
fn clickhouse_type_texts() {
    assert_eq!(ClickhouseType::Int32.to_type_text(), "Int32");
    assert_eq!(ClickhouseType::String.nullable().to_type_text(), "Nullable(String)");
    assert_eq!(ClickhouseType::Int16.array().to_type_text(), "Array(Int16)");
    assert_eq!(ClickhouseType::FixedString(16).to_type_text(), "FixedString(16)");
    let dt = ClickhouseType::DateTime64(DateTime64 { precision: 3, timezone: Some("UTC".to_string()) });
    assert_eq!(dt.to_type_text(), "DateTime64(3, 'UTC')");
}

#[test]
fn copy_text_parses_rows_and_nulls() {
    let rows = parse_copy_text("1\ta\n\\N\tb\n");
    assert_eq!(rows.len(), 2);
    assert!(matches!(rows[0].columns[0], PgOutputValue::Text(ref t) if t == "1"));
    assert!(matches!(rows[0].columns[1], PgOutputValue::Text(ref t) if t == "a"));
    assert!(matches!(rows[1].columns[0], PgOutputValue::Null));
    assert!(matches!(rows[1].columns[1], PgOutputValue::Text(ref t) if t == "b"));
}

#[test]
fn copy_text_keeps_an_empty_final_field() {
    // splitting on tabs keeps an empty last column as empty text
    let rows = parse_copy_text("1\t\n");
    assert_eq!(rows.len(), 1);
    assert_eq!(rows[0].columns.len(), 2);
    assert!(matches!(rows[0].columns[0], PgOutputValue::Text(ref t) if t == "1"));
    assert!(matches!(rows[0].columns[1], PgOutputValue::Text(ref t) if t.is_empty()));
}

#[test]
fn copy_text_drops_trailing_partial_line() {
    let rows = parse_copy_text("1\ta\n2\tb");
    assert_eq!(rows.len(), 1);
}

#[test]
fn find_value_by_column_name_uses_ordinals() {
    let row = text_row(&["1", "a"]);
    let cols = users_pg_columns();
    let found = row.find_value_by_column_name(&cols, "name");
    assert!(matches!(found, Some(PgOutputValue::Text(ref t)) if t == "a"));
    // unknown destination columns read as null
    let missing = row.find_value_by_column_name(&cols, "ghost");
    assert!(matches!(missing, Some(PgOutputValue::Null)));
}

#[test]
fn error_describe_text() {
    let e = clockpipe::errors::Errors::PgOutputParseError("bad tag".to_string());
    assert_eq!(e.describe(), "Failed to parse PgOutput: bad tag");
    let e = clockpipe::errors::Errors::PublicationCreateFailed("no tables".to_string());
    assert_eq!(e.describe(), "Failed to create publication: no tables");
}

#[test]
fn masked_column_rendering_ignores_the_secret() {
    let mask = vec!["name".to_string()];
    let one = generate_insert_query(
        &db_config(),
        &users_ch_columns(),
        &users_pg_columns(),
        &mask,
        "users",
        &vec![text_row(&["2", "first secret"])],
    );
    let other = generate_insert_query(
        &db_config(),
        &users_ch_columns(),
        &users_pg_columns(),
        &mask,
        "users",
        &vec![text_row(&["2", "second secret"])],
    );
    assert_eq!(one, other);
}
