//! The ClickHouse query builders: CREATE TABLE, ADD COLUMN, batched INSERT,
//! batched DELETE and TRUNCATE, each with a contract that states the emitted
//! SQL text exactly.

use vstd::prelude::*;

use crate::adapter::IntoClickhouseColumn;
use crate::clickhouse::ClickhouseColumn;
use crate::config::{ClickHouseConfig, ClickHouseTableOptions};
use crate::pgoutput::{spec_render_cell, lemma_render_cell_view, PgOutputValue, SpecCell};
use crate::pgoutput;
use crate::postgres::{PostgresColumn, PostgresCopyRow};
use crate::strutil;
use crate::strutil::{join_seqs, spec_escape_quotes, u64_decimal};
use crate::adapter::IntoClickhouseValue;
use crate::config;

verus! {

/// The definition text of one column: backquoted name, type, comment.
pub open spec fn spec_column_def<C: IntoClickhouseColumn>(c: C) -> Seq<char> {
    "`"@ + c.spec_column_name() + "` "@ + c.spec_clickhouse_type_text() + " COMMENT '"@
        + spec_escape_quotes(c.spec_comment()) + "'"@
}

/// The definition texts of all columns.
pub open spec fn spec_column_defs<C: IntoClickhouseColumn>(cols: Seq<C>) -> Seq<Seq<char>> {
    cols.map_values(|c: C| spec_column_def(c))
}

/// The names of the primary-key columns, in order.
pub open spec fn spec_pk_names<C: IntoClickhouseColumn>(cols: Seq<C>) -> Seq<Seq<char>>
    decreases cols.len(),
{
    if cols.len() == 0 {
        Seq::empty()
    } else {
        let rest = spec_pk_names(cols.drop_last());
        if cols.last().spec_primary_key() {
            rest.push(cols.last().spec_column_name())
        } else {
            rest
        }
    }
}

/// The CREATE TABLE statement for a destination table: column definitions,
/// the `ReplacingMergeTree` engine, an `ORDER BY` over the primary-key
/// columns when there are any, the table settings, and the table comment.
pub open spec fn spec_create_table_query<C: IntoClickhouseColumn>(
    db: Seq<char>,
    table: Seq<char>,
    cols: Seq<C>,
    granularity: u64,
    min_age: u64,
    storage_policy: Option<Seq<char>>,
    comment: Seq<char>,
) -> Seq<char> {
    "CREATE TABLE "@ + db + "."@ + table + " ("@ + join_seqs(spec_column_defs(cols), ", "@)
        + ") ENGINE = ReplacingMergeTree()"@ + (if spec_pk_names(cols).len() > 0 {
        " ORDER BY ("@ + join_seqs(spec_pk_names(cols), ", "@) + ")"@
    } else {
        Seq::empty()
    }) + " SETTINGS index_granularity = "@ + u64_decimal(granularity as int)
        + ", min_age_to_force_merge_seconds = "@ + u64_decimal(min_age as int) + (
    match storage_policy {
        Some(p) => ", storage_policy = '"@ + spec_escape_quotes(p) + "'"@,
        None => Seq::empty(),
    }) + " COMMENT '"@ + spec_escape_quotes(comment) + "'"@ + ";"@
}

/// Renders one column definition.
fn column_def<C: IntoClickhouseColumn>(c: &C) -> (r: String)
    ensures
        r@ == spec_column_def(*c),
{
    let mut r = String::new();
    r.append("`");
    r.append(c.get_column_name());
    r.append("` ");
    let ty = c.to_clickhouse_type();
    let ty_text = ty.to_type_text();
    r.append(ty_text.as_str());
    r.append(" COMMENT '");
    let esc = strutil::escape_quotes(c.get_comment());
    r.append(esc.as_str());
    r.append("'");
    r
}

/// Builds the CREATE TABLE statement from the source columns. The index
/// granularity comes from the table options (with its default), the merge
/// age from its default; `ORDER BY` is omitted when no column is in the
/// primary key.
pub fn generate_create_table_query<C: IntoClickhouseColumn>(
    clickhouse_config: &ClickHouseConfig,
    table_options: &ClickHouseTableOptions,
    table_name: &str,
    columns: &[C],
    comment: &str,
) -> (r: String)
    ensures
        r@ == spec_create_table_query(
            clickhouse_config.connection.database@,
            table_name@,
            columns@,
            (match table_options.granularity {
                Some(g) => g,
                None => 8192,
            }),
            60,
            (match table_options.storage_policy {
                Some(p) => Some(p@),
                None => None,
            }),
            comment@,
        ),
{
    let mut defs: Vec<String> = Vec::new();
    let mut i: usize = 0;
    while i < columns.len()
        invariant
            i <= columns@.len(),
            defs.deep_view() == spec_column_defs(columns@.take(i as int)),
        decreases columns@.len() - i,
    {
        let c = vstd::slice::slice_index_get(columns, i);
        let def = column_def(c);
        let ghost gx = def@;
        let ghost pre = defs;
        defs.push(def);
        proof {
            strutil::lemma_deep_view_push(pre, defs, defs@.last());
            assert(spec_column_defs(columns@.take(i as int)).push(gx) =~= spec_column_defs(
                columns@.take(i + 1int),
            ));
        }
        i = i + 1;
    }
    proof {
        assert(columns@.take(columns@.len() as int) =~= columns@);
    }
    let mut pks: Vec<String> = Vec::new();
    let mut j: usize = 0;
    while j < columns.len()
        invariant
            j <= columns@.len(),
            pks.deep_view() == spec_pk_names(columns@.take(j as int)),
        decreases columns@.len() - j,
    {
        let c = vstd::slice::slice_index_get(columns, j);
        proof {
            assert(columns@.take(j + 1int).drop_last() =~= columns@.take(j as int));
            assert(columns@.take(j + 1int).last() == columns@[j as int]);
        }
        if c.is_in_primary_key() {
            let name = String::from_str(c.get_column_name());
            let ghost pre = pks;
            pks.push(name);
            proof {
                strutil::lemma_deep_view_push(pre, pks, pks@.last());
            }
        }
        j = j + 1;
    }
    proof {
        assert(columns@.take(columns@.len() as int) =~= columns@);
    }
    let mut r = String::new();
    r.append("CREATE TABLE ");
    r.append(clickhouse_config.connection.database.as_str());
    r.append(".");
    r.append(table_name);
    r.append(" (");
    let defs_joined = strutil::join_strings(&defs, ", ");
    r.append(defs_joined.as_str());
    r.append(") ENGINE = ReplacingMergeTree()");
    if pks.len() > 0 {
        r.append(" ORDER BY (");
        let pks_joined = strutil::join_strings(&pks, ", ");
        r.append(pks_joined.as_str());
        r.append(")");
    }
    r.append(" SETTINGS index_granularity = ");
    let granularity: u64 = match &table_options.granularity {
        Some(g) => *g,
        None => config::index_granularity(),
    };
    let g_text = strutil::u64_to_string(granularity);
    r.append(g_text.as_str());
    r.append(", min_age_to_force_merge_seconds = ");
    let min_age = config::min_age_to_force_merge_seconds();
    let m_text = strutil::u64_to_string(min_age);
    r.append(m_text.as_str());
    match &table_options.storage_policy {
        Some(p) => {
            r.append(", storage_policy = '");
            let esc = strutil::escape_quotes(p.as_str());
            r.append(esc.as_str());
            r.append("'");
        },
        None => {},
    }
    r.append(" COMMENT '");
    let esc = strutil::escape_quotes(comment);
    r.append(esc.as_str());
    r.append("'");
    r.append(";");
    r
}

/// The ADD COLUMN statement for one source column.
pub open spec fn spec_add_column_query<C: IntoClickhouseColumn>(
    db: Seq<char>,
    table: Seq<char>,
    c: C,
) -> Seq<char> {
    "ALTER TABLE "@ + db + "."@ + table + " ADD COLUMN "@ + spec_column_def(c) + ";"@
}

/// Builds the ALTER TABLE … ADD COLUMN statement for one source column.
pub fn generate_add_column_query<C: IntoClickhouseColumn>(
    clickhouse_config: &ClickHouseConfig,
    table_name: &str,
    source_column: &C,
) -> (r: String)
    ensures
        r@ == spec_add_column_query(
            clickhouse_config.connection.database@,
            table_name@,
            *source_column,
        ),
{
    let mut r = String::new();
    r.append("ALTER TABLE ");
    r.append(clickhouse_config.connection.database.as_str());
    r.append(".");
    r.append(table_name);
    r.append(" ADD COLUMN ");
    let def = column_def(source_column);
    r.append(def.as_str());
    r.append(";");
    r
}

/// The literal one destination column receives from a row: `NULL` when the
/// column is masked, whatever its declared type; otherwise the looked-up
/// cell (null when the row has no value for it), rendered for the column's
/// declared type.
pub open spec fn spec_insert_cell(
    ch: ClickhouseColumn,
    pg_cols: Seq<PostgresColumn>,
    mask: Seq<String>,
    row: PostgresCopyRow,
) -> Seq<char> {
    if strutil::spec_contains_string(mask, ch.column_name@) {
        "NULL"@
    } else {
        let cell = match row.spec_find_value(pg_cols, ch.column_name@) {
            Some(c) => c,
            None => SpecCell::Null,
        };
        spec_render_cell(ch.data_type@, cell)
    }
}

/// The rendered literals of one row, one per destination column.
pub open spec fn spec_insert_row_values(
    ch_cols: Seq<ClickhouseColumn>,
    pg_cols: Seq<PostgresColumn>,
    mask: Seq<String>,
    row: PostgresCopyRow,
) -> Seq<Seq<char>> {
    ch_cols.map_values(|ch: ClickhouseColumn| spec_insert_cell(ch, pg_cols, mask, row))
}

/// The parenthesized value tuple of one row.
pub open spec fn spec_insert_row_text(
    ch_cols: Seq<ClickhouseColumn>,
    pg_cols: Seq<PostgresColumn>,
    mask: Seq<String>,
    row: PostgresCopyRow,
) -> Seq<char> {
    "("@ + join_seqs(spec_insert_row_values(ch_cols, pg_cols, mask, row), ","@) + ")"@
}

/// The value tuples of all rows.
pub open spec fn spec_insert_rows_text(
    ch_cols: Seq<ClickhouseColumn>,
    pg_cols: Seq<PostgresColumn>,
    mask: Seq<String>,
    rows: Seq<PostgresCopyRow>,
) -> Seq<Seq<char>> {
    rows.map_values(|row: PostgresCopyRow| spec_insert_row_text(ch_cols, pg_cols, mask, row))
}

/// The destination column names, in order.
pub open spec fn spec_ch_col_names(cols: Seq<ClickhouseColumn>) -> Seq<Seq<char>> {
    cols.map_values(|c: ClickhouseColumn| c.column_name@)
}

/// The batched INSERT statement: the destination column list, then one
/// parenthesized value tuple per row. No rows yield the empty string.
pub open spec fn spec_insert_query(
    db: Seq<char>,
    ch_cols: Seq<ClickhouseColumn>,
    pg_cols: Seq<PostgresColumn>,
    mask: Seq<String>,
    table: Seq<char>,
    rows: Seq<PostgresCopyRow>,
) -> Seq<char> {
    if rows.len() == 0 {
        Seq::empty()
    } else {
        "INSERT INTO "@ + db + "."@ + table + " ("@ + join_seqs(spec_ch_col_names(ch_cols), ", "@)
            + ") VALUES "@ + join_seqs(spec_insert_rows_text(ch_cols, pg_cols, mask, rows), ", "@)
    }
}

/// Renders the literal one destination column receives from a row.
fn insert_cell(
    ch: &ClickhouseColumn,
    source_columns: &[PostgresColumn],
    mask_columns: &Vec<String>,
    row: &PostgresCopyRow,
) -> (r: String)
    ensures
        r@ == spec_insert_cell(*ch, source_columns@, mask_columns@, *row),
{
    if strutil::contains_string(mask_columns, ch.column_name.as_str()) {
        return String::from_str("NULL");
    }
    let raw = row.find_value_by_column_name(source_columns, ch.column_name.as_str());
    let value = match raw {
        Some(v) => v,
        None => PgOutputValue::Null,
    };
    let text = ch.to_clickhouse_value(&value);
    proof {
        lemma_render_cell_view(ch.data_type@, value);
    }
    text
}

/// Renders one row's parenthesized value tuple.
fn insert_row_text(
    clickhouse_columns: &[ClickhouseColumn],
    source_columns: &[PostgresColumn],
    mask_columns: &Vec<String>,
    row: &PostgresCopyRow,
) -> (r: String)
    ensures
        r@ == spec_insert_row_text(clickhouse_columns@, source_columns@, mask_columns@, *row),
{
    let mut values: Vec<String> = Vec::new();
    let mut i: usize = 0;
    while i < clickhouse_columns.len()
        invariant
            i <= clickhouse_columns@.len(),
            values.deep_view() == spec_insert_row_values(
                clickhouse_columns@.take(i as int),
                source_columns@,
                mask_columns@,
                *row,
            ),
        decreases clickhouse_columns@.len() - i,
    {
        let ch = vstd::slice::slice_index_get(clickhouse_columns, i);
        let text = insert_cell(ch, source_columns, mask_columns, row);
        let ghost gx = text@;
        let ghost pre = values;
        values.push(text);
        proof {
            strutil::lemma_deep_view_push(pre, values, values@.last());
            assert(spec_insert_row_values(
                clickhouse_columns@.take(i as int),
                source_columns@,
                mask_columns@,
                *row,
            ).push(gx) =~= spec_insert_row_values(
                clickhouse_columns@.take(i + 1int),
                source_columns@,
                mask_columns@,
                *row,
            ));
        }
        i = i + 1;
    }
    proof {
        assert(clickhouse_columns@.take(clickhouse_columns@.len() as int) =~= clickhouse_columns@);
    }
    let joined = strutil::join_strings(&values, ",");
    let mut r = String::new();
    r.append("(");
    r.append(joined.as_str());
    r.append(")");
    r
}

/// Builds the batched INSERT statement for a table: all destination columns,
/// every row rendered with the table's mask applied. Returns the empty
/// string when there are no rows; the caller must not execute it then.
pub fn generate_insert_query(
    clickhouse_config: &ClickHouseConfig,
    clickhouse_columns: &[ClickhouseColumn],
    source_columns: &[PostgresColumn],
    mask_columns: &Vec<String>,
    table_name: &str,
    rows: &[PostgresCopyRow],
) -> (r: String)
    ensures
        r@ == spec_insert_query(
            clickhouse_config.connection.database@,
            clickhouse_columns@,
            source_columns@,
            mask_columns@,
            table_name@,
            rows@,
        ),
{
    if rows.len() == 0 {
        return String::new();
    }
    let mut names: Vec<String> = Vec::new();
    let mut i: usize = 0;
    while i < clickhouse_columns.len()
        invariant
            i <= clickhouse_columns@.len(),
            names.deep_view() == spec_ch_col_names(clickhouse_columns@.take(i as int)),
        decreases clickhouse_columns@.len() - i,
    {
        let ch = vstd::slice::slice_index_get(clickhouse_columns, i);
        let name = String::from_str(ch.column_name.as_str());
        let ghost pre = names;
        names.push(name);
        proof {
            strutil::lemma_deep_view_push(pre, names, names@.last());
            assert(spec_ch_col_names(clickhouse_columns@.take(i as int)).push(
                clickhouse_columns@[i as int].column_name@,
            ) =~= spec_ch_col_names(clickhouse_columns@.take(i + 1int)));
        }
        i = i + 1;
    }
    let mut tuples: Vec<String> = Vec::new();
    let mut k: usize = 0;
    while k < rows.len()
        invariant
            k <= rows@.len(),
            tuples.deep_view() == spec_insert_rows_text(
                clickhouse_columns@,
                source_columns@,
                mask_columns@,
                rows@.take(k as int),
            ),
        decreases rows@.len() - k,
    {
        let row = vstd::slice::slice_index_get(rows, k);
        let tuple = insert_row_text(clickhouse_columns, source_columns, mask_columns, row);
        let ghost gx = tuple@;
        let ghost pre = tuples;
        tuples.push(tuple);
        proof {
            strutil::lemma_deep_view_push(pre, tuples, tuples@.last());
            assert(spec_insert_rows_text(
                clickhouse_columns@,
                source_columns@,
                mask_columns@,
                rows@.take(k as int),
            ).push(gx) =~= spec_insert_rows_text(
                clickhouse_columns@,
                source_columns@,
                mask_columns@,
                rows@.take(k + 1int),
            ));
        }
        k = k + 1;
    }
    proof {
        assert(clickhouse_columns@.take(clickhouse_columns@.len() as int) =~= clickhouse_columns@);
        assert(rows@.take(rows@.len() as int) =~= rows@);
    }
    let mut r = String::new();
    r.append("INSERT INTO ");
    r.append(clickhouse_config.connection.database.as_str());
    r.append(".");
    r.append(table_name);
    r.append(" (");
    let names_joined = strutil::join_strings(&names, ", ");
    r.append(names_joined.as_str());
    r.append(") VALUES ");
    let tuples_joined = strutil::join_strings(&tuples, ", ");
    r.append(tuples_joined.as_str());
    r
}

/// The destination columns that belong to the primary key, in order.
pub open spec fn spec_pk_cols(cols: Seq<ClickhouseColumn>) -> Seq<ClickhouseColumn>
    decreases cols.len(),
{
    if cols.len() == 0 {
        Seq::empty()
    } else {
        let rest = spec_pk_cols(cols.drop_last());
        if cols.last().is_in_primary_key {
            rest.push(cols.last())
        } else {
            rest
        }
    }
}

/// The key condition one destination column contributes: `name = value`.
pub open spec fn spec_delete_condition(
    ch: ClickhouseColumn,
    pg_cols: Seq<PostgresColumn>,
    row: PostgresCopyRow,
) -> Seq<char> {
    let cell = match row.spec_find_value(pg_cols, ch.column_name@) {
        Some(c) => c,
        None => SpecCell::Null,
    };
    ch.column_name@ + " = "@ + spec_render_cell(ch.data_type@, cell)
}

/// One row's key conditions: one per primary-key column, in order.
pub open spec fn spec_delete_conditions(
    ch_cols: Seq<ClickhouseColumn>,
    pg_cols: Seq<PostgresColumn>,
    row: PostgresCopyRow,
) -> Seq<Seq<char>>
    decreases ch_cols.len(),
{
    if ch_cols.len() == 0 {
        Seq::empty()
    } else {
        let rest = spec_delete_conditions(ch_cols.drop_last(), pg_cols, row);
        if ch_cols.last().is_in_primary_key {
            rest.push(spec_delete_condition(ch_cols.last(), pg_cols, row))
        } else {
            rest
        }
    }
}

/// One row's parenthesized key condition.
pub open spec fn spec_delete_row_text(
    ch_cols: Seq<ClickhouseColumn>,
    pg_cols: Seq<PostgresColumn>,
    row: PostgresCopyRow,
) -> Seq<char> {
    "("@ + join_seqs(spec_delete_conditions(ch_cols, pg_cols, row), " AND "@) + ")"@
}

/// The key conditions of all rows.
pub open spec fn spec_delete_rows_text(
    ch_cols: Seq<ClickhouseColumn>,
    pg_cols: Seq<PostgresColumn>,
    rows: Seq<PostgresCopyRow>,
) -> Seq<Seq<char>> {
    rows.map_values(|row: PostgresCopyRow| spec_delete_row_text(ch_cols, pg_cols, row))
}

/// The batched DELETE statement: one parenthesized key condition per row,
/// joined with OR, over the primary-key columns only. No rows, or no
/// primary-key column, yields the empty string.
pub open spec fn spec_delete_query(
    db: Seq<char>,
    ch_cols: Seq<ClickhouseColumn>,
    pg_cols: Seq<PostgresColumn>,
    table: Seq<char>,
    rows: Seq<PostgresCopyRow>,
) -> Seq<char> {
    if rows.len() == 0 || spec_pk_cols(ch_cols).len() == 0 {
        Seq::empty()
    } else {
        "ALTER TABLE "@ + db + "."@ + table + " DELETE WHERE "@ + join_seqs(
            spec_delete_rows_text(ch_cols, pg_cols, rows),
            " OR "@,
        )
    }
}

/// Renders one row's parenthesized key condition.
fn delete_row_text(
    clickhouse_columns: &[ClickhouseColumn],
    source_columns: &[PostgresColumn],
    row: &PostgresCopyRow,
) -> (r: String)
    ensures
        r@ == spec_delete_row_text(clickhouse_columns@, source_columns@, *row),
{
    let mut conds: Vec<String> = Vec::new();
    let mut i: usize = 0;
    while i < clickhouse_columns.len()
        invariant
            i <= clickhouse_columns@.len(),
            conds.deep_view() == spec_delete_conditions(
                clickhouse_columns@.take(i as int),
                source_columns@,
                *row,
            ),
        decreases clickhouse_columns@.len() - i,
    {
        let ch = vstd::slice::slice_index_get(clickhouse_columns, i);
        proof {
            assert(clickhouse_columns@.take(i + 1int).drop_last() =~= clickhouse_columns@.take(
                i as int,
            ));
            assert(clickhouse_columns@.take(i + 1int).last() == clickhouse_columns@[i as int]);
        }
        if ch.is_in_primary_key {
            let raw = row.find_value_by_column_name(source_columns, ch.column_name.as_str());
            let value = match raw {
                Some(v) => v,
                None => PgOutputValue::Null,
            };
            let text = ch.to_clickhouse_value(&value);
            let mut cond = String::new();
            cond.append(ch.column_name.as_str());
            cond.append(" = ");
            cond.append(text.as_str());
            let ghost gx = cond@;
            let ghost pre = conds;
            conds.push(cond);
            proof {
                lemma_render_cell_view(clickhouse_columns@[i as int].data_type@, value);
                strutil::lemma_deep_view_push(pre, conds, conds@.last());
                assert(gx == spec_delete_condition(
                    clickhouse_columns@[i as int],
                    source_columns@,
                    *row,
                ));
            }
        }
        i = i + 1;
    }
    proof {
        assert(clickhouse_columns@.take(clickhouse_columns@.len() as int) =~= clickhouse_columns@);
    }
    let joined = strutil::join_strings(&conds, " AND ");
    let mut r = String::new();
    r.append("(");
    r.append(joined.as_str());
    r.append(")");
    r
}

/// Builds the batched DELETE statement for a table from the rows' key cells.
/// Returns the empty string when there are no rows or the destination has no
/// primary-key column; the caller must not execute it then.
pub fn generate_delete_query(
    clickhouse_config: &ClickHouseConfig,
    clickhouse_columns: &[ClickhouseColumn],
    source_columns: &[PostgresColumn],
    table_name: &str,
    rows: &[PostgresCopyRow],
) -> (r: String)
    ensures
        r@ == spec_delete_query(
            clickhouse_config.connection.database@,
            clickhouse_columns@,
            source_columns@,
            table_name@,
            rows@,
        ),
{
    if rows.len() == 0 {
        return String::new();
    }
    let mut has_pk = false;
    let mut i: usize = 0;
    while i < clickhouse_columns.len()
        invariant
            i <= clickhouse_columns@.len(),
            has_pk == (spec_pk_cols(clickhouse_columns@.take(i as int)).len() > 0),
        decreases clickhouse_columns@.len() - i,
    {
        let ch = vstd::slice::slice_index_get(clickhouse_columns, i);
        proof {
            assert(clickhouse_columns@.take(i + 1int).drop_last() =~= clickhouse_columns@.take(
                i as int,
            ));
            assert(clickhouse_columns@.take(i + 1int).last() == clickhouse_columns@[i as int]);
        }
        if ch.is_in_primary_key {
            has_pk = true;
        }
        i = i + 1;
    }
    proof {
        assert(clickhouse_columns@.take(clickhouse_columns@.len() as int) =~= clickhouse_columns@);
    }
    if !has_pk {
        return String::new();
    }
    let mut row_texts: Vec<String> = Vec::new();
    let mut k: usize = 0;
    while k < rows.len()
        invariant
            k <= rows@.len(),
            row_texts.deep_view() == spec_delete_rows_text(
                clickhouse_columns@,
                source_columns@,
                rows@.take(k as int),
            ),
        decreases rows@.len() - k,
    {
        let row = vstd::slice::slice_index_get(rows, k);
        let text = delete_row_text(clickhouse_columns, source_columns, row);
        let ghost gx = text@;
        let ghost pre = row_texts;
        row_texts.push(text);
        proof {
            strutil::lemma_deep_view_push(pre, row_texts, row_texts@.last());
            assert(spec_delete_rows_text(
                clickhouse_columns@,
                source_columns@,
                rows@.take(k as int),
            ).push(gx) =~= spec_delete_rows_text(
                clickhouse_columns@,
                source_columns@,
                rows@.take(k + 1int),
            ));
        }
        k = k + 1;
    }
    proof {
        assert(rows@.take(rows@.len() as int) =~= rows@);
    }
    let mut r = String::new();
    r.append("ALTER TABLE ");
    r.append(clickhouse_config.connection.database.as_str());
    r.append(".");
    r.append(table_name);
    r.append(" DELETE WHERE ");
    let joined = strutil::join_strings(&row_texts, " OR ");
    r.append(joined.as_str());
    r
}

/// The TRUNCATE statement for a destination table.
pub open spec fn spec_truncate_query(db: Seq<char>, table: Seq<char>) -> Seq<char> {
    "TRUNCATE TABLE "@ + db + "."@ + table
}

/// Builds the TRUNCATE TABLE statement.
pub fn generate_truncate_query(database_name: &str, table_name: &str) -> (r: String)
    ensures
        r@ == spec_truncate_query(database_name@, table_name@),
{
    let mut r = String::new();
    r.append("TRUNCATE TABLE ");
    r.append(database_name);
    r.append(".");
    r.append(table_name);
    r
}

/// A cell renders by its image: two rows with the same cell images receive
/// the same literal for any destination column.
proof fn lemma_insert_cell_row_view(
    ch: ClickhouseColumn,
    pg_cols: Seq<PostgresColumn>,
    mask: Seq<String>,
    row1: PostgresCopyRow,
    row2: PostgresCopyRow,
)
    requires
        pgoutput::cells_view(row1.columns@) == pgoutput::cells_view(row2.columns@),
    ensures
        spec_insert_cell(ch, pg_cols, mask, row1) == spec_insert_cell(ch, pg_cols, mask, row2),
        spec_delete_condition(ch, pg_cols, row1) == spec_delete_condition(ch, pg_cols, row2),
{
    assert(row1.columns@.len() == row2.columns@.len()) by {
        assert(pgoutput::cells_view(row1.columns@).len() == row1.columns@.len());
        assert(pgoutput::cells_view(row2.columns@).len() == row2.columns@.len());
    }
    let i = crate::postgres::spec_pg_col_index(pg_cols, ch.column_name@);
    if i != -1 {
        let idx = pg_cols[i].column_index as int - 1;
        if 0 <= idx < row1.columns@.len() {
            assert(row1.columns@[idx]@ == pgoutput::cells_view(row1.columns@)[idx]);
            assert(row2.columns@[idx]@ == pgoutput::cells_view(row2.columns@)[idx]);
        }
    }
}

/// An INSERT statement depends only on the rows' cell images.
pub proof fn lemma_insert_query_row_views(
    db: Seq<char>,
    ch_cols: Seq<ClickhouseColumn>,
    pg_cols: Seq<PostgresColumn>,
    mask: Seq<String>,
    table: Seq<char>,
    rows1: Seq<PostgresCopyRow>,
    rows2: Seq<PostgresCopyRow>,
)
    requires
        crate::postgres::rows_views_eq(rows1, rows2),
    ensures
        spec_insert_query(db, ch_cols, pg_cols, mask, table, rows1) == spec_insert_query(
            db,
            ch_cols,
            pg_cols,
            mask,
            table,
            rows2,
        ),
{
    if rows1.len() > 0 {
        assert forall|k: int| 0 <= k < rows1.len() implies spec_insert_row_text(
            ch_cols,
            pg_cols,
            mask,
            #[trigger] rows1[k],
        ) == spec_insert_row_text(ch_cols, pg_cols, mask, rows2[k]) by {
            assert forall|j: int| 0 <= j < ch_cols.len() implies spec_insert_cell(
                #[trigger] ch_cols[j],
                pg_cols,
                mask,
                rows1[k],
            ) == spec_insert_cell(ch_cols[j], pg_cols, mask, rows2[k]) by {
                lemma_insert_cell_row_view(ch_cols[j], pg_cols, mask, rows1[k], rows2[k]);
            }
            assert(spec_insert_row_values(ch_cols, pg_cols, mask, rows1[k])
                =~= spec_insert_row_values(ch_cols, pg_cols, mask, rows2[k]));
        }
        assert(spec_insert_rows_text(ch_cols, pg_cols, mask, rows1) =~= spec_insert_rows_text(
            ch_cols,
            pg_cols,
            mask,
            rows2,
        ));
    }
}

/// A DELETE statement depends only on the rows' cell images.
pub proof fn lemma_delete_query_row_views(
    db: Seq<char>,
    ch_cols: Seq<ClickhouseColumn>,
    pg_cols: Seq<PostgresColumn>,
    table: Seq<char>,
    rows1: Seq<PostgresCopyRow>,
    rows2: Seq<PostgresCopyRow>,
)
    requires
        crate::postgres::rows_views_eq(rows1, rows2),
    ensures
        spec_delete_query(db, ch_cols, pg_cols, table, rows1) == spec_delete_query(
            db,
            ch_cols,
            pg_cols,
            table,
            rows2,
        ),
{
    if rows1.len() > 0 && spec_pk_cols(ch_cols).len() > 0 {
        assert forall|k: int| 0 <= k < rows1.len() implies spec_delete_row_text(
            ch_cols,
            pg_cols,
            #[trigger] rows1[k],
        ) == spec_delete_row_text(ch_cols, pg_cols, rows2[k]) by {
            lemma_delete_conditions_row_view(ch_cols, pg_cols, rows1[k], rows2[k]);
        }
        assert(spec_delete_rows_text(ch_cols, pg_cols, rows1) =~= spec_delete_rows_text(
            ch_cols,
            pg_cols,
            rows2,
        ));
    }
}

/// The key conditions depend only on the row's cell images.
proof fn lemma_delete_conditions_row_view(
    ch_cols: Seq<ClickhouseColumn>,
    pg_cols: Seq<PostgresColumn>,
    row1: PostgresCopyRow,
    row2: PostgresCopyRow,
)
    requires
        pgoutput::cells_view(row1.columns@) == pgoutput::cells_view(row2.columns@),
    ensures
        spec_delete_conditions(ch_cols, pg_cols, row1) == spec_delete_conditions(
            ch_cols,
            pg_cols,
            row2,
        ),
    decreases ch_cols.len(),
{
    if ch_cols.len() > 0 {
        lemma_delete_conditions_row_view(ch_cols.drop_last(), pg_cols, row1, row2);
        lemma_insert_cell_row_view(ch_cols.last(), pg_cols, Seq::empty(), row1, row2);
    }
}

/// The INSERT statement for at least one row is never the empty string.
pub proof fn lemma_insert_query_nonempty(
    db: Seq<char>,
    ch_cols: Seq<ClickhouseColumn>,
    pg_cols: Seq<PostgresColumn>,
    mask: Seq<String>,
    table: Seq<char>,
    rows: Seq<PostgresCopyRow>,
)
    requires
        rows.len() > 0,
    ensures
        spec_insert_query(db, ch_cols, pg_cols, mask, table, rows).len() > 0,
{
    reveal_strlit("INSERT INTO ");
    broadcast use vstd::string::group_string_axioms;

    assert("INSERT INTO "@.len() == 12);
}

/// A masked column's literal never depends on the row: whatever two rows
/// held there, the INSERT renders the same text, so masked data cannot
/// reach the destination.
pub proof fn lemma_masked_column_ignores_row(
    ch: ClickhouseColumn,
    pg_cols: Seq<PostgresColumn>,
    mask: Seq<String>,
    row1: PostgresCopyRow,
    row2: PostgresCopyRow,
)
    requires
        strutil::spec_contains_string(mask, ch.column_name@),
    ensures
        spec_insert_cell(ch, pg_cols, mask, row1) == spec_insert_cell(ch, pg_cols, mask, row2),
{
}

/// A masked column renders as the literal `NULL` in the INSERT statement,
/// whatever the row held and whatever the column's declared type.
pub proof fn lemma_masked_column_inserts_null(
    ch: ClickhouseColumn,
    pg_cols: Seq<PostgresColumn>,
    mask: Seq<String>,
    row: PostgresCopyRow,
)
    requires
        strutil::spec_contains_string(mask, ch.column_name@),
    ensures
        spec_insert_cell(ch, pg_cols, mask, row) == "NULL"@,
{
}

} // verus!
