//! Capability traits that connect a source's column and cell types to the
//! ClickHouse side: a column knows its destination type, name, comment and
//! key membership; a cell knows how to render itself as a SQL literal for
//! each destination type class.

use vstd::prelude::*;

use crate::clickhouse::ClickhouseType;
use crate::strutil::{spec_contains_seq, spec_starts_with};

verus! {

/// A source column that can describe its ClickHouse counterpart.
pub trait IntoClickhouseColumn: Sized {
    /// The column's name.
    spec fn spec_column_name(&self) -> Seq<char>;

    /// The column's 1-based ordinal in the source row.
    spec fn spec_column_index(&self) -> int;

    /// The column's human comment.
    spec fn spec_comment(&self) -> Seq<char>;

    /// Whether the column belongs to the primary key.
    spec fn spec_primary_key(&self) -> bool;

    /// The SQL text of the ClickHouse type the column maps to.
    spec fn spec_clickhouse_type_text(&self) -> Seq<char>;

    fn to_clickhouse_type(&self) -> (r: ClickhouseType)
        ensures
            crate::clickhouse::spec_type_text(&r) == self.spec_clickhouse_type_text(),
    ;

    fn get_column_name(&self) -> (r: &str)
        ensures
            r@ == self.spec_column_name(),
    ;

    fn get_column_index(&self) -> (r: usize)
        ensures
            r == self.spec_column_index(),
    ;

    fn get_comment(&self) -> (r: &str)
        ensures
            r@ == self.spec_comment(),
    ;

    fn is_in_primary_key(&self) -> (r: bool)
        ensures
            r == self.spec_primary_key(),
    ;
}

/// A source row; its cells are looked up by destination column name through
/// the concrete row types' own `find_value_by_column_name` methods.
pub trait IntoClickhouseRow {

}

/// A source cell that renders itself as a ClickHouse SQL literal, one method
/// per destination type class. Each method's text is pinned by a spec
/// function so that query builders can state their output exactly.
pub trait IntoClickhouseValue: Sized {
    /// Whether the cell is SQL null.
    spec fn spec_is_null(&self) -> bool;

    /// The cell with its value replaced by null (used for masked columns).
    spec fn spec_into_null(&self) -> Self;

    spec fn integer_text(&self) -> Seq<char>;

    spec fn real_text(&self) -> Seq<char>;

    spec fn bool_text(&self) -> Seq<char>;

    spec fn string_text(&self) -> Seq<char>;

    spec fn date_text(&self) -> Seq<char>;

    spec fn datetime_text(&self) -> Seq<char>;

    spec fn time_text(&self) -> Seq<char>;

    spec fn array_text(&self) -> Seq<char>;

    spec fn string_array_text(&self) -> Seq<char>;

    spec fn unknown_text(&self) -> Seq<char>;

    fn to_integer(&self) -> (r: String)
        ensures
            r@ == self.integer_text(),
    ;

    fn to_real(&self) -> (r: String)
        ensures
            r@ == self.real_text(),
    ;

    fn to_bool(&self) -> (r: String)
        ensures
            r@ == self.bool_text(),
    ;

    fn to_string(&self) -> (r: String)
        ensures
            r@ == self.string_text(),
    ;

    fn to_date(&self) -> (r: String)
        ensures
            r@ == self.date_text(),
    ;

    fn to_datetime(&self) -> (r: String)
        ensures
            r@ == self.datetime_text(),
    ;

    fn to_time(&self) -> (r: String)
        ensures
            r@ == self.time_text(),
    ;

    fn to_array(&self) -> (r: String)
        ensures
            r@ == self.array_text(),
    ;

    fn to_string_array(&self) -> (r: String)
        ensures
            r@ == self.string_array_text(),
    ;

    fn unknown_value(&self) -> (r: String)
        ensures
            r@ == self.unknown_text(),
    ;

    fn is_null(&self) -> (r: bool)
        ensures
            r == self.spec_is_null(),
    ;

    fn into_null(self) -> (r: Self)
        ensures
            r == self.spec_into_null(),
    ;
}

/// The SQL literal a cell renders to under a destination column type: `NULL`
/// for a null cell in a `Nullable(…)` column, otherwise the rendering picked
/// by the declared type's text.
pub open spec fn spec_to_clickhouse_value<V: IntoClickhouseValue>(
    data_type: Seq<char>,
    v: V,
) -> Seq<char> {
    if v.spec_is_null() && spec_starts_with(data_type, "Nullable"@) {
        "NULL"@
    } else if data_type == "Int8"@ || data_type == "Int16"@ || data_type == "Int32"@ || data_type
        == "Int64"@ || data_type == "Nullable(Int8)"@ || data_type == "Nullable(Int16)"@
        || data_type == "Nullable(Int32)"@ || data_type == "Nullable(Int64)"@ {
        v.integer_text()
    } else if data_type == "Float32"@ || data_type == "Float64"@ || data_type
        == "Nullable(Float32)"@ || data_type == "Nullable(Float64)"@ {
        v.real_text()
    } else if data_type == "Bool"@ || data_type == "Nullable(Bool)"@ {
        v.bool_text()
    } else if data_type == "String"@ || data_type == "Nullable(String)"@ {
        v.string_text()
    } else if data_type == "Date"@ || data_type == "Date32"@ || data_type == "Nullable(Date)"@
        || data_type == "Nullable(Date32)"@ {
        v.date_text()
    } else if data_type == "DateTime"@ || data_type == "DateTime64"@ || data_type
        == "Nullable(DateTime)"@ || data_type == "Nullable(DateTime64)"@ {
        v.datetime_text()
    } else if data_type == "Time"@ || data_type == "Time64"@ || data_type == "Nullable(Time)"@
        || data_type == "Nullable(Time64)"@ {
        v.time_text()
    } else if data_type == "Array(String)"@ {
        v.string_array_text()
    } else if data_type == "Decimal"@ || data_type == "Nullable(Decimal)"@ {
        v.real_text()
    } else if spec_starts_with(data_type, "Array"@) {
        v.array_text()
    } else if spec_contains_seq(data_type, "DateTime"@) {
        v.datetime_text()
    } else if spec_contains_seq(data_type, "Time"@) {
        v.time_text()
    } else {
        v.unknown_text()
    }
}

/// A null cell in a `Nullable(…)` destination column always renders as the
/// literal `NULL`, whatever the source.
pub proof fn lemma_null_in_nullable_renders_null<V: IntoClickhouseValue>(
    data_type: Seq<char>,
    v: V,
)
    requires
        v.spec_is_null(),
        spec_starts_with(data_type, "Nullable"@),
    ensures
        spec_to_clickhouse_value(data_type, v) == "NULL"@,
{
}

} // verus!
