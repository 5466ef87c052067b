//! The PostgreSQL side: source column descriptors, the type mapping to
//! ClickHouse, rows delivered by COPY or logical decoding, and the catalog
//! records the source adapter reads.

use vstd::prelude::*;

use crate::adapter::{IntoClickhouseColumn, IntoClickhouseRow};
use crate::clickhouse::{spec_type_text, ClickhouseType, DateTime};
use crate::pgoutput::{cells_view, PgOutputValue, SpecCell};
use crate::strutil;

verus! {

/// A source column as `information_schema` describes it, with its 1-based
/// ordinal, nullability, primary-key membership and comment.
#[derive(Debug, Clone)]
pub struct PostgresColumn {
    pub column_index: u32,
    pub column_name: String,
    pub data_type: String,
    pub length: u32,
    pub nullable: bool,
    pub is_primary_key: bool,
    pub comment: String,
}

/// A column as `pg_catalog.pg_attribute` describes it.
#[derive(Debug, Clone)]
pub struct PostgreColumn {
    pub name: String,
    pub data_type: String,
    pub not_null: bool,
    pub position: u32,
    pub has_default: bool,
}

/// A publication by name.
#[derive(Debug, Clone)]
pub struct Publication {
    pub name: String,
}

/// One table of a publication.
#[derive(Debug, Clone)]
pub struct PublicationTable {
    pub schema_name: String,
    pub table_name: String,
}

/// A replication slot and the state of the WAL it retains.
#[derive(Debug, Clone)]
pub struct ReplicationSlot {
    pub slot_name: String,
    pub wal_status: String,
}

/// One peeked WAL change: its LSN, transaction id, and the raw
/// logical-decoding payload.
#[derive(Debug, Clone)]
pub struct PeekWalChangeResult {
    pub lsn: String,
    pub xid: String,
    pub data: Vec<u8>,
}

/// The type text wrapped in `Nullable(…)` when the column is nullable.
pub open spec fn spec_nullable_text(inner: Seq<char>, nullable: bool) -> Seq<char> {
    if nullable {
        "Nullable("@ + inner + ")"@
    } else {
        inner
    }
}

/// The type text wrapped in `Array(…)`.
pub open spec fn spec_array_text(inner: Seq<char>) -> Seq<char> {
    "Array("@ + inner + ")"@
}

/// The ClickHouse type text a Postgres native type maps to: integers, floats
/// and numerics to their fixed-width kin, text-like types to `String`,
/// booleans to `Bool`, timestamps to `DateTime`, dates to `Date`, array
/// types (`_T`) to `Array(inner)`, and anything unrecognized to `String`.
pub open spec fn spec_pg_type_text(data_type: Seq<char>, nullable: bool) -> Seq<char> {
    if data_type == "int2"@ {
        spec_nullable_text("Int16"@, nullable)
    } else if data_type == "_int2"@ {
        spec_array_text("Int16"@)
    } else if data_type == "int4"@ || data_type == "int"@ {
        spec_nullable_text("Int32"@, nullable)
    } else if data_type == "_int4"@ {
        spec_array_text("Int32"@)
    } else if data_type == "int8"@ {
        spec_nullable_text("Int64"@, nullable)
    } else if data_type == "_int8"@ {
        spec_array_text("Int64"@)
    } else if data_type == "float4"@ {
        spec_nullable_text("Float32"@, nullable)
    } else if data_type == "_float4"@ {
        spec_array_text("Float32"@)
    } else if data_type == "float8"@ {
        spec_nullable_text("Float64"@, nullable)
    } else if data_type == "_float8"@ {
        spec_array_text("Float64"@)
    } else if data_type == "numeric"@ {
        spec_nullable_text("Decimal"@, nullable)
    } else if data_type == "_numeric"@ {
        spec_array_text("Decimal"@)
    } else if data_type == "varchar"@ || data_type == "text"@ || data_type == "json"@ || data_type
        == "jsonb"@ {
        spec_nullable_text("String"@, nullable)
    } else if data_type == "_varchar"@ || data_type == "_text"@ {
        spec_array_text("String"@)
    } else if data_type == "bool"@ {
        spec_nullable_text("Bool"@, nullable)
    } else if data_type == "_bool"@ {
        spec_array_text("Bool"@)
    } else if data_type == "timestamp"@ || data_type == "timestamptz"@ {
        spec_nullable_text("DateTime"@, nullable)
    } else if data_type == "date"@ {
        spec_nullable_text("Date"@, nullable)
    } else {
        spec_nullable_text("String"@, nullable)
    }
}

/// Wraps a plain type in `Nullable(…)` when the column is nullable.
fn nullable_of(inner: ClickhouseType, nullable: bool) -> (r: ClickhouseType)
    ensures
        spec_type_text(&r) == spec_nullable_text(spec_type_text(&inner), nullable),
{
    if nullable {
        inner.nullable()
    } else {
        inner
    }
}

impl IntoClickhouseColumn for PostgresColumn {
    open spec fn spec_column_name(&self) -> Seq<char> {
        self.column_name@
    }

    open spec fn spec_column_index(&self) -> int {
        self.column_index as int
    }

    open spec fn spec_comment(&self) -> Seq<char> {
        self.comment@
    }

    open spec fn spec_primary_key(&self) -> bool {
        self.is_primary_key
    }

    open spec fn spec_clickhouse_type_text(&self) -> Seq<char> {
        spec_pg_type_text(self.data_type@, self.nullable)
    }

    fn to_clickhouse_type(&self) -> (r: ClickhouseType) {
        let dt = self.data_type.as_str();
        if strutil::str_eq_str(dt, "int2") {
            nullable_of(ClickhouseType::Int16, self.nullable)
        } else if strutil::str_eq_str(dt, "_int2") {
            ClickhouseType::Int16.array()
        } else if strutil::str_eq_str(dt, "int4") || strutil::str_eq_str(dt, "int") {
            nullable_of(ClickhouseType::Int32, self.nullable)
        } else if strutil::str_eq_str(dt, "_int4") {
            ClickhouseType::Int32.array()
        } else if strutil::str_eq_str(dt, "int8") {
            nullable_of(ClickhouseType::Int64, self.nullable)
        } else if strutil::str_eq_str(dt, "_int8") {
            ClickhouseType::Int64.array()
        } else if strutil::str_eq_str(dt, "float4") {
            nullable_of(ClickhouseType::Float32, self.nullable)
        } else if strutil::str_eq_str(dt, "_float4") {
            ClickhouseType::Float32.array()
        } else if strutil::str_eq_str(dt, "float8") {
            nullable_of(ClickhouseType::Float64, self.nullable)
        } else if strutil::str_eq_str(dt, "_float8") {
            ClickhouseType::Float64.array()
        } else if strutil::str_eq_str(dt, "numeric") {
            nullable_of(ClickhouseType::Decimal, self.nullable)
        } else if strutil::str_eq_str(dt, "_numeric") {
            ClickhouseType::Decimal.array()
        } else if strutil::str_eq_str(dt, "varchar") || strutil::str_eq_str(dt, "text")
            || strutil::str_eq_str(dt, "json") || strutil::str_eq_str(dt, "jsonb") {
            nullable_of(ClickhouseType::String, self.nullable)
        } else if strutil::str_eq_str(dt, "_varchar") || strutil::str_eq_str(dt, "_text") {
            ClickhouseType::String.array()
        } else if strutil::str_eq_str(dt, "bool") {
            nullable_of(ClickhouseType::Bool, self.nullable)
        } else if strutil::str_eq_str(dt, "_bool") {
            ClickhouseType::Bool.array()
        } else if strutil::str_eq_str(dt, "timestamp") || strutil::str_eq_str(dt, "timestamptz") {
            nullable_of(ClickhouseType::DateTime(DateTime { timezone: None }), self.nullable)
        } else if strutil::str_eq_str(dt, "date") {
            nullable_of(ClickhouseType::Date, self.nullable)
        } else {
            nullable_of(ClickhouseType::String, self.nullable)
        }
    }

    fn get_column_name(&self) -> (r: &str) {
        self.column_name.as_str()
    }

    fn get_column_index(&self) -> (r: usize) {
        self.column_index as usize
    }

    fn get_comment(&self) -> (r: &str) {
        self.comment.as_str()
    }

    fn is_in_primary_key(&self) -> (r: bool) {
        self.is_primary_key
    }
}

/// The index of the first source column named `name`, or -1.
pub open spec fn spec_pg_col_index(cols: Seq<PostgresColumn>, name: Seq<char>) -> int
    decreases cols.len(),
{
    if cols.len() == 0 {
        -1
    } else if cols[0].column_name@ == name {
        0
    } else {
        let r = spec_pg_col_index(cols.skip(1), name);
        if r == -1 {
            -1
        } else {
            r + 1
        }
    }
}

/// What `spec_pg_col_index` returns: either no column matches, or the result
/// is the first matching position.
pub proof fn lemma_spec_pg_col_index(cols: Seq<PostgresColumn>, name: Seq<char>)
    ensures
        spec_pg_col_index(cols, name) == -1 ==> forall|i: int|
            0 <= i < cols.len() ==> cols[i].column_name@ != name,
        spec_pg_col_index(cols, name) != -1 ==> 0 <= spec_pg_col_index(cols, name) < cols.len()
            && cols[spec_pg_col_index(cols, name)].column_name@ == name && forall|i: int|
            0 <= i < spec_pg_col_index(cols, name) ==> cols[i].column_name@ != name,
    decreases cols.len(),
{
    if cols.len() > 0 && cols[0].column_name@ != name {
        lemma_spec_pg_col_index(cols.skip(1), name);
        let r = spec_pg_col_index(cols.skip(1), name);
        if r == -1 {
            assert forall|i: int| 0 <= i < cols.len() implies cols[i].column_name@ != name by {
                if i > 0 {
                    assert(cols.skip(1)[i - 1] == cols[i]);
                }
            }
        } else {
            assert(cols.skip(1)[r] == cols[r + 1]);
            assert forall|i: int| 0 <= i < r + 1 implies cols[i].column_name@ != name by {
                if i > 0 {
                    assert(cols.skip(1)[i - 1] == cols[i]);
                }
            }
        }
    }
}

/// Finds the first source column with the given name.
pub fn find_pg_column<'a>(cols: &'a [PostgresColumn], name: &str) -> (r: Option<
    &'a PostgresColumn,
>)
    ensures
        r is None <==> spec_pg_col_index(cols@, name@) == -1,
        r matches Some(c) ==> 0 <= spec_pg_col_index(cols@, name@) < cols@.len() && *c == cols@[
            spec_pg_col_index(cols@, name@)
        ],
{
    proof {
        lemma_spec_pg_col_index(cols@, name@);
    }
    let mut i: usize = 0;
    while i < cols.len()
        invariant
            i <= cols@.len(),
            forall|j: int| 0 <= j < i ==> cols@[j].column_name@ != name@,
            spec_pg_col_index(cols@, name@) == -1 ==> forall|j: int|
                0 <= j < cols@.len() ==> cols@[j].column_name@ != name@,
            spec_pg_col_index(cols@, name@) != -1 ==> 0 <= spec_pg_col_index(cols@, name@)
                < cols@.len() && cols@[spec_pg_col_index(cols@, name@)].column_name@ == name@ && (
            forall|j: int|
                0 <= j < spec_pg_col_index(cols@, name@) ==> cols@[j].column_name@ != name@),
        decreases cols@.len() - i,
    {
        let c = vstd::slice::slice_index_get(cols, i);
        if strutil::str_eq_str(c.column_name.as_str(), name) {
            return Some(c);
        }
        i = i + 1;
    }
    None
}

/// One source row: the cells in column-ordinal order.
#[derive(Debug, Clone)]
pub struct PostgresCopyRow {
    pub columns: Vec<PgOutputValue>,
}

impl Default for PostgresCopyRow {
    /// The default row has no cells.
    fn default() -> (r: Self)
        ensures
            r.columns@.len() == 0,
    {
        PostgresCopyRow { columns: Vec::new() }
    }
}

impl IntoClickhouseRow for PostgresCopyRow {

}

impl PostgresCopyRow {
    /// A copy of the row carrying the same cell images.
    pub fn duplicate(&self) -> (r: Self)
        ensures
            cells_view(r.columns@) == cells_view(self.columns@),
    {
        let mut cells: Vec<PgOutputValue> = Vec::new();
        let mut i: usize = 0;
        while i < self.columns.len()
            invariant
                i <= self.columns@.len(),
                cells@.len() == i,
                forall|j: int| 0 <= j < i ==> (#[trigger] cells@[j])@ == self.columns@[j]@,
            decreases self.columns@.len() - i,
        {
            cells.push(self.columns[i].duplicate());
            i = i + 1;
        }
        proof {
            assert(cells_view(cells@) =~= cells_view(self.columns@));
        }
        PostgresCopyRow { columns: cells }
    }

    /// The cell the row holds for a destination column name: looked up by
    /// the source column's ordinal. An unknown name yields a null cell; an
    /// ordinal beyond the row (or the sentinel ordinal zero) yields nothing.
    pub open spec fn spec_find_value(&self, cols: Seq<PostgresColumn>, name: Seq<char>) -> Option<
        SpecCell,
    > {
        let i = spec_pg_col_index(cols, name);
        if i == -1 {
            Some(SpecCell::Null)
        } else {
            let idx = cols[i].column_index as int - 1;
            if 0 <= idx < self.columns@.len() {
                Some(self.columns@[idx]@)
            } else {
                None
            }
        }
    }

    /// Looks up the cell for a destination column name.
    pub fn find_value_by_column_name(
        &self,
        source_columns: &[PostgresColumn],
        column_name: &str,
    ) -> (r: Option<PgOutputValue>)
        ensures
            cell_opt_view(r) == self.spec_find_value(source_columns@, column_name@),
    {
        match find_pg_column(source_columns, column_name) {
            None => Some(PgOutputValue::Null),
            Some(col) => {
                let ordinal = col.column_index as usize;
                if ordinal >= 1 && ordinal - 1 < self.columns.len() {
                    Some(self.columns[ordinal - 1].duplicate())
                } else {
                    None
                }
            },
        }
    }
}

/// Two row lists that carry the same cell images, position by position.
pub open spec fn rows_views_eq(a: Seq<PostgresCopyRow>, b: Seq<PostgresCopyRow>) -> bool {
    a.len() == b.len() && forall|k: int|
        0 <= k < a.len() ==> cells_view(#[trigger] a[k].columns@) == cells_view(b[k].columns@)
}

/// The cell image an optional cell carries.
pub open spec fn cell_opt_view(r: Option<PgOutputValue>) -> Option<SpecCell> {
    match r {
        Some(v) => Some(v@),
        None => None,
    }
}

/// The cell one tab-separated word denotes: `\N` is SQL null, anything else
/// is text.
pub open spec fn spec_copy_word_cell(w: Seq<char>) -> SpecCell {
    if w == seq!['\\', 'N'] {
        SpecCell::Null
    } else {
        SpecCell::Text(w)
    }
}

/// The cells of one COPY line: every tab-separated word in order, the
/// empty word included.
pub open spec fn spec_copy_row_cells(line: Seq<char>) -> Seq<SpecCell> {
    strutil::split_char(line, '\t').map_values(|w: Seq<char>| spec_copy_word_cell(w))
}

/// Parses the text of a `COPY … TO STDOUT` stream: newline-separated rows of
/// tab-separated cells, `\N` denoting SQL null. Text after the last newline
/// is discarded.
pub fn parse_copy_text(text: &str) -> (r: Vec<PostgresCopyRow>)
    ensures
        ({
            let lines = strutil::split_char(text@, '\n');
            &&& r@.len() == lines.len() - 1
            &&& forall|i: int|
                0 <= i < r@.len() ==> cells_view(#[trigger] r@[i].columns@) == spec_copy_row_cells(
                    lines[i],
                )
        }),
{
    let lines = strutil::split_str_char(text, '\n');
    let ghost lines_spec = strutil::split_char(text@, '\n');
    proof {
        strutil::lemma_split_char_nonempty(text@, '\n');
    }
    let mut rows: Vec<PostgresCopyRow> = Vec::new();
    let mut i: usize = 0;
    while i < lines.len() - 1
        invariant
            lines.deep_view() == lines_spec,
            lines@.len() == lines_spec.len() >= 1,
            i <= lines@.len() - 1,
            rows@.len() == i,
            forall|j: int|
                0 <= j < i ==> cells_view(#[trigger] rows@[j].columns@) == spec_copy_row_cells(
                    lines_spec[j],
                ),
        decreases lines@.len() - 1 - i,
    {
        let row = parse_copy_line(lines[i].as_str());
        proof {
            assert(lines[i as int]@ == lines_spec[i as int]);
        }
        rows.push(row);
        i = i + 1;
    }
    rows
}

/// Parses one COPY line into its cells.
fn parse_copy_line(line: &str) -> (r: PostgresCopyRow)
    ensures
        cells_view(r.columns@) == spec_copy_row_cells(line@),
{
    let words = strutil::split_str_char(line, '\t');
    let ghost words_spec = strutil::split_char(line@, '\t');
    let mut cells: Vec<PgOutputValue> = Vec::new();
    let mut i: usize = 0;
    while i < words.len()
        invariant
            words.deep_view() == words_spec,
            words@.len() == words_spec.len(),
            i <= words@.len(),
            cells_view(cells@) == words_spec.take(i as int).map_values(
                |w: Seq<char>| spec_copy_word_cell(w),
            ),
        decreases words@.len() - i,
    {
        let cell = copy_word_cell(words[i].as_str());
        proof {
            assert(words[i as int]@ == words_spec[i as int]);
        }
        let ghost pre = cells_view(cells@);
        cells.push(cell);
        proof {
            assert(cells_view(cells@) =~= pre.push(cell@));
            assert(cells_view(cells@) =~= words_spec.take(i + 1int).map_values(
                |w: Seq<char>| spec_copy_word_cell(w),
            ));
        }
        i = i + 1;
    }
    proof {
        assert(words_spec.take(words_spec.len() as int) =~= words_spec);
    }
    PostgresCopyRow { columns: cells }
}

/// Decodes one tab-separated word: `\N` is SQL null, anything else text.
fn copy_word_cell(word: &str) -> (r: PgOutputValue)
    ensures
        r@ == spec_copy_word_cell(word@),
{
    let is_null = word.unicode_len() == 2 && word.get_char(0) == '\\' && word.get_char(1) == 'N';
    proof {
        if is_null {
            assert(word@ =~= seq!['\\', 'N']);
        } else {
            assert(word@ != seq!['\\', 'N']) by {
                if word@ == seq!['\\', 'N'] {
                    assert(word@.len() == 2 && word@[0] == '\\' && word@[1] == 'N');
                }
            }
        }
    }
    if is_null {
        PgOutputValue::Null
    } else {
        PgOutputValue::Text(String::from_str(word))
    }
}

} // verus!
