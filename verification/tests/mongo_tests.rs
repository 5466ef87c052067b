use clockpipe::adapter::{IntoClickhouseColumn, IntoClickhouseValue};
use clockpipe::clickhouse::ClickhouseColumn;
use clockpipe::config::{MongoDBConfig, MongoDBConnectionConfig, MongoDBSource};
use clockpipe::config::{ClickHouseConfig, ClickHouseConnectionConfig};
use clockpipe::mongo::{
    collect_collection_names, collect_collection_rows, collection_is_watched,
    generate_document_delete_query, generate_document_insert_query, plan_add_document_columns,
    plan_collection_setup, plan_first_sync_collection, MongoDBColumn, MongoDBConnection,
    MongoDBCopyRow, MongoDBValue, OperationType, PeekMongoChange,
};
use clockpipe::strutil::u64_to_string;

fn field(name: &str, value: MongoDBValue) -> MongoDBColumn {
    MongoDBColumn {
        column_name: name.to_string(),
        bson_value: value,
    }
}

fn ch_column(index: u64, name: &str, data_type: &str, pk: bool) -> ClickhouseColumn {
    ClickhouseColumn {
        column_index: index,
        column_name: name.to_string(),
        data_type: data_type.to_string(),
        is_in_primary_key: pk,
    }
}

#[test]
fn mongo_integer_and_real_rendering() {
    assert_eq!(field("n", MongoDBValue::Int32(-7)).to_integer(), "-7");
    assert_eq!(field("n", MongoDBValue::Int64(12)).to_integer(), "12");
    assert_eq!(field("n", MongoDBValue::Null).to_integer(), "0");
    assert_eq!(field("x", MongoDBValue::Double("2.5".to_string())).to_real(), "2.5");
    assert_eq!(field("x", MongoDBValue::Null).to_real(), "0.0");
}

#[test]
fn mongo_bool_rendering_is_lowercase() {
    assert_eq!(field("b", MongoDBValue::Boolean(true)).to_bool(), "true");
    assert_eq!(field("b", MongoDBValue::Boolean(false)).to_bool(), "false");
    assert_eq!(field("b", MongoDBValue::Null).to_bool(), "false");
}

#[test]
fn mongo_string_rendering_by_kind() {
    assert_eq!(
        field("s", MongoDBValue::String("o'clock".to_string())).to_string(),
        "'o''clock'"
    );
    assert_eq!(
        field("s", MongoDBValue::ObjectId("65f2".to_string())).to_string(),
        "'65f2'"
    );
    // base64 of "hi"; fails if the encoder handed its input back unchanged
    assert_eq!(
        field("s", MongoDBValue::Binary(vec![104, 105])).to_string(),
        "'aGk='"
    );
    // calendar text of one second past the epoch
    assert_eq!(
        field("s", MongoDBValue::DateTime(1000)).to_string(),
        "'1970-01-01 00:00:01'"
    );
    assert_eq!(
        field("s", MongoDBValue::Timestamp(61)).to_string(),
        "'1970-01-01 00:01:01'"
    );
    assert_eq!(field("s", MongoDBValue::Null).to_string(), "' '");
}

#[test]
fn mongo_date_rendering_uses_epoch_seconds() {
    assert_eq!(field("d", MongoDBValue::DateTime(90_000)).to_date(), "toDate(90)");
    assert_eq!(
        field("d", MongoDBValue::DateTime(90_000)).to_datetime(),
        "toDateTime(90)"
    );
    assert_eq!(field("d", MongoDBValue::Null).to_datetime(), "toDateTime(0)");
    assert_eq!(
        field("t", MongoDBValue::Timestamp(0)).to_time(),
        "toTime('1970-01-01 00:00:00')"
    );
}

#[test]
fn mongo_array_rendering_by_first_element() {
    let ints = field(
        "a",
        MongoDBValue::Array(vec![MongoDBValue::Int64(1), MongoDBValue::Int64(2)]),
    );
    assert_eq!(ints.to_array(), "[1, 2]");
    let strings = field(
        "a",
        MongoDBValue::Array(vec![
            MongoDBValue::String("x".to_string()),
            MongoDBValue::String("y".to_string()),
        ]),
    );
    assert_eq!(strings.to_array(), "['x', 'y']");
    assert_eq!(strings.to_string_array(), "['x', 'y']");
    assert_eq!(field("a", MongoDBValue::Null).to_array(), "[]");
}

#[test]
fn mongo_type_mapping() {
    assert_eq!(
        field("n", MongoDBValue::Int32(1)).to_clickhouse_type().to_type_text(),
        "Nullable(Int32)"
    );
    assert_eq!(
        field("_id", MongoDBValue::ObjectId("a".to_string()))
            .to_clickhouse_type()
            .to_type_text(),
        "String"
    );
    assert_eq!(
        field("ref", MongoDBValue::ObjectId("a".to_string()))
            .to_clickhouse_type()
            .to_type_text(),
        "Nullable(String)"
    );
    assert!(field("_id", MongoDBValue::ObjectId("a".to_string())).is_in_primary_key());
    assert!(!field("x", MongoDBValue::Int32(1)).is_in_primary_key());
}

#[test]
fn change_to_copy_row_picks_the_right_document() {
    let key_row = MongoDBCopyRow {
        columns: vec![field("_id", MongoDBValue::ObjectId("k".to_string()))],
    };
    let full_row = MongoDBCopyRow {
        columns: vec![
            field("_id", MongoDBValue::ObjectId("k".to_string())),
            field("n", MongoDBValue::Int32(3)),
        ],
    };
    let delete = PeekMongoChange {
        operation_type: OperationType::Delete,
        document_key: Some(key_row),
        full_document: None,
        collection_name: "log".to_string(),
    };
    assert_eq!(delete.to_copy_row().unwrap().columns.len(), 1);
    let insert = PeekMongoChange {
        operation_type: OperationType::Insert,
        document_key: None,
        full_document: Some(full_row),
        collection_name: "log".to_string(),
    };
    assert_eq!(insert.to_copy_row().unwrap().columns.len(), 2);
    let drop = PeekMongoChange {
        operation_type: OperationType::Drop,
        document_key: None,
        full_document: None,
        collection_name: "log".to_string(),
    };
    assert!(drop.to_copy_row().is_none());
}

#[test]
fn document_insert_query_masks_and_defaults() {
    let columns = vec![
        ch_column(1, "_id", "String", true),
        ch_column(2, "name", "Nullable(String)", false),
        ch_column(3, "age", "Nullable(Int32)", false),
    ];
    let mask = vec!["name".to_string()];
    let rows = vec![MongoDBCopyRow {
        columns: vec![
            field("_id", MongoDBValue::ObjectId("k1".to_string())),
            field("name", MongoDBValue::String("secret".to_string())),
        ],
    }];
    let query = generate_document_insert_query("db", &columns, &mask, "log", &rows);
    assert_eq!(
        query,
        "INSERT INTO db.log (_id, name, age) VALUES ('k1',NULL,NULL)"
    );
}

#[test]
fn document_delete_query_uses_key_fields() {
    let columns = vec![
        ch_column(1, "_id", "String", true),
        ch_column(2, "name", "Nullable(String)", false),
    ];
    let rows = vec![MongoDBCopyRow {
        columns: vec![field("_id", MongoDBValue::ObjectId("k1".to_string()))],
    }];
    let query = generate_document_delete_query("db", &columns, "log", &rows);
    assert_eq!(query, "ALTER TABLE db.log DELETE WHERE (_id = 'k1')");
    let none: Vec<MongoDBCopyRow> = Vec::new();
    assert_eq!(generate_document_delete_query("db", &columns, "log", &none), "");
}

#[test]
fn mongo_connection_builds_uri() {
    let config = MongoDBConfig {
        connection: MongoDBConnectionConfig {
            host: "cluster0.example.net".to_string(),
            username: "reader".to_string(),
            password: "pw".to_string(),
            database: "cdc".to_string(),
        },
        collections: vec![MongoDBSource {
            collection_name: "log".to_string(),
            skip_copy: false,
            mask_columns: Vec::new(),
        }],
        resume_token_path: "/tmp/token.json".to_string(),
        copy_batch_size: 1000,
        peek_timeout_millis: 5000,
    };
    let conn = MongoDBConnection::new(&config);
    assert_eq!(
        conn.connection_string,
        "mongodb+srv://reader:pw@cluster0.example.net/cdc"
    );
    assert_eq!(conn.copy_batch_size, 1000);
}

#[test]
fn decimal_formatting_helpers() {
    assert_eq!(u64_to_string(0), "0");
    assert_eq!(u64_to_string(90210), "90210");
    assert_eq!(u64_to_string(u64::MAX), "18446744073709551615");
}

#[test]
fn collection_grouping_collects_rows_in_order() {
    let row = |n: i32| MongoDBCopyRow {
        columns: vec![field("n", MongoDBValue::Int32(n))],
    };
    let changes = vec![
        PeekMongoChange {
            operation_type: OperationType::Insert,
            document_key: None,
            full_document: Some(row(1)),
            collection_name: "log".to_string(),
        },
        PeekMongoChange {
            operation_type: OperationType::Delete,
            document_key: Some(row(2)),
            full_document: None,
            collection_name: "log".to_string(),
        },
        PeekMongoChange {
            operation_type: OperationType::Update,
            document_key: None,
            full_document: Some(row(3)),
            collection_name: "audit".to_string(),
        },
    ];
    let names = collect_collection_names(&changes);
    assert_eq!(names, vec!["log".to_string(), "audit".to_string()]);
    let inserts = collect_collection_rows(changes, "log", false);
    assert_eq!(inserts.len(), 1);
    assert!(matches!(inserts[0].columns[0].bson_value, MongoDBValue::Int32(1)));
}

#[test]
fn watched_collections_filter() {
    let watched = vec!["log".to_string(), "audit".to_string()];
    assert!(collection_is_watched(&watched, "log"));
    assert!(!collection_is_watched(&watched, "other"));
}

fn db_config() -> ClickHouseConfig {
    ClickHouseConfig {
        connection: ClickHouseConnectionConfig {
            host: "localhost".to_string(),
            port: 8123,
            username: "default".to_string(),
            password: String::new(),
            database: "db".to_string(),
        },
    }
}

#[test]
fn collection_setup_creates_table_over_the_key() {
    let empty: Vec<ClickhouseColumn> = Vec::new();
    let plan = plan_collection_setup(&db_config(), "log", &empty);
    assert_eq!(
        plan,
        vec![
            "CREATE TABLE db.log (`_id` String COMMENT '') ENGINE = ReplacingMergeTree() \
             ORDER BY (_id) SETTINGS index_granularity = 8192, \
             min_age_to_force_merge_seconds = 60 COMMENT '';"
                .to_string()
        ]
    );
    let present = vec![ch_column(1, "_id", "String", true)];
    assert!(plan_collection_setup(&db_config(), "log", &present).is_empty());
}

#[test]
fn document_columns_are_added_once_in_first_seen_order() {
    let existing = vec![ch_column(1, "_id", "String", true)];
    let rows = vec![
        MongoDBCopyRow {
            columns: vec![
                field("_id", MongoDBValue::ObjectId("k1".to_string())),
                field("name", MongoDBValue::String("a".to_string())),
            ],
        },
        MongoDBCopyRow {
            columns: vec![
                field("_id", MongoDBValue::ObjectId("k2".to_string())),
                field("name", MongoDBValue::String("b".to_string())),
                field("age", MongoDBValue::Int32(7)),
            ],
        },
    ];
    let plan = plan_add_document_columns(&db_config(), "log", &existing, &rows);
    assert_eq!(
        plan,
        vec![
            "ALTER TABLE db.log ADD COLUMN `name` Nullable(String) COMMENT '';".to_string(),
            "ALTER TABLE db.log ADD COLUMN `age` Nullable(Int32) COMMENT '';".to_string(),
        ]
    );
}

#[test]
fn first_sync_collection_skips_or_inserts() {
    let columns = vec![
        ch_column(1, "_id", "String", true),
        ch_column(2, "name", "Nullable(String)", false),
    ];
    let mask: Vec<String> = Vec::new();
    let rows = vec![MongoDBCopyRow {
        columns: vec![
            field("_id", MongoDBValue::ObjectId("k1".to_string())),
            field("name", MongoDBValue::String("a".to_string())),
        ],
    }];
    assert!(plan_first_sync_collection("db", true, false, &columns, &mask, "log", &rows)
        .is_empty());
    assert!(plan_first_sync_collection("db", false, true, &columns, &mask, "log", &rows)
        .is_empty());
    let statements =
        plan_first_sync_collection("db", false, false, &columns, &mask, "log", &rows);
    assert_eq!(
        statements,
        vec!["INSERT INTO db.log (_id, name) VALUES ('k1','a')".to_string()]
    );
}
