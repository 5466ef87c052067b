//! The ClickHouse side: the destination type system and its SQL text, the
//! destination column descriptor, and the connection endpoint model.

use vstd::prelude::*;

use crate::adapter::{spec_to_clickhouse_value, IntoClickhouseValue};
use crate::config::ClickHouseConnectionConfig;
use crate::strutil;
use crate::strutil::u64_decimal;

verus! {

/// A destination column as ClickHouse's `system.columns` describes it; the
/// primary-key flag reflects the table's `ORDER BY` tuple.
#[derive(Debug, Clone)]
pub struct ClickhouseColumn {
    pub column_index: u64,
    pub column_name: String,
    pub data_type: String,
    pub is_in_primary_key: bool,
}

/// A ClickHouse data type.
#[derive(Debug)]
pub enum ClickhouseType {
    Int8,
    Int16,
    Int32,
    Int64,
    Int128,
    Int256,
    UInt8,
    UInt16,
    UInt32,
    UInt64,
    UInt128,
    UInt256,
    Float32,
    Float64,
    Bool,
    String,
    FixedString(u64),
    Decimal,
    Date,
    Date32,
    Time,
    Time64(u8),
    DateTime(DateTime),
    DateTime64(DateTime64),
    UUID,
    Array(Box<ClickhouseType>),
    Nullable(Box<ClickhouseType>),
}

/// A `DateTime` type, optionally pinned to a time zone.
#[derive(Debug, Clone)]
pub struct DateTime {
    pub timezone: Option<String>,
}

impl Default for DateTime {
    /// The default `DateTime` carries no time zone.
    fn default() -> (r: Self)
        ensures
            r.timezone is None,
    {
        DateTime { timezone: None }
    }
}

/// A `DateTime64` type: sub-second precision, optionally a time zone.
#[derive(Debug, Clone)]
pub struct DateTime64 {
    pub precision: u8,
    pub timezone: Option<String>,
}

/// The SQL text of a `DateTime` type.
pub open spec fn spec_datetime_text(dt: &DateTime) -> Seq<char> {
    match dt.timezone {
        Some(tz) => "DateTime('"@ + tz@ + "')"@,
        None => "DateTime"@,
    }
}

/// The SQL text of a `DateTime64` type.
pub open spec fn spec_datetime64_text(dt: &DateTime64) -> Seq<char> {
    match dt.timezone {
        Some(tz) => "DateTime64("@ + u64_decimal(dt.precision as int) + ", '"@ + tz@ + "')"@,
        None => "DateTime64("@ + u64_decimal(dt.precision as int) + ")"@,
    }
}

/// The SQL text of a ClickHouse type.
pub open spec fn spec_type_text(t: &ClickhouseType) -> Seq<char>
    decreases t,
{
    match t {
        ClickhouseType::Int8 => "Int8"@,
        ClickhouseType::Int16 => "Int16"@,
        ClickhouseType::Int32 => "Int32"@,
        ClickhouseType::Int64 => "Int64"@,
        ClickhouseType::Int128 => "Int128"@,
        ClickhouseType::Int256 => "Int256"@,
        ClickhouseType::UInt8 => "UInt8"@,
        ClickhouseType::UInt16 => "UInt16"@,
        ClickhouseType::UInt32 => "UInt32"@,
        ClickhouseType::UInt64 => "UInt64"@,
        ClickhouseType::UInt128 => "UInt128"@,
        ClickhouseType::UInt256 => "UInt256"@,
        ClickhouseType::Float32 => "Float32"@,
        ClickhouseType::Float64 => "Float64"@,
        ClickhouseType::Bool => "Bool"@,
        ClickhouseType::String => "String"@,
        ClickhouseType::FixedString(size) => "FixedString("@ + u64_decimal(*size as int) + ")"@,
        ClickhouseType::Decimal => "Decimal"@,
        ClickhouseType::Date => "Date"@,
        ClickhouseType::Date32 => "Date32"@,
        ClickhouseType::Time => "Time"@,
        ClickhouseType::Time64(precision) => "Time64("@ + u64_decimal(*precision as int) + ")"@,
        ClickhouseType::DateTime(dt) => spec_datetime_text(dt),
        ClickhouseType::DateTime64(dt) => spec_datetime64_text(dt),
        ClickhouseType::UUID => "UUID"@,
        ClickhouseType::Array(inner) => "Array("@ + spec_type_text(inner) + ")"@,
        ClickhouseType::Nullable(inner) => "Nullable("@ + spec_type_text(inner) + ")"@,
    }
}

impl DateTime {
    /// Renders the type as SQL text.
    pub fn to_type_text(&self) -> (r: String)
        ensures
            r@ == spec_datetime_text(self),
    {
        match &self.timezone {
            Some(tz) => {
                let mut r = String::new();
                r.append("DateTime('");
                r.append(tz.as_str());
                r.append("')");
                r
            },
            None => String::from_str("DateTime"),
        }
    }
}

impl DateTime64 {
    /// Renders the type as SQL text.
    pub fn to_type_text(&self) -> (r: String)
        ensures
            r@ == spec_datetime64_text(self),
    {
        let precision = strutil::u64_to_string(self.precision as u64);
        match &self.timezone {
            Some(tz) => {
                let mut r = String::new();
                r.append("DateTime64(");
                r.append(precision.as_str());
                r.append(", '");
                r.append(tz.as_str());
                r.append("')");
                r
            },
            None => {
                let mut r = String::new();
                r.append("DateTime64(");
                r.append(precision.as_str());
                r.append(")");
                r
            },
        }
    }
}

impl ClickhouseType {
    /// Wraps the type in `Nullable(…)`.
    pub fn nullable(self) -> (r: Self)
        ensures
            r matches ClickhouseType::Nullable(inner) && *inner == self,
            spec_type_text(&r) == "Nullable("@ + spec_type_text(&self) + ")"@,
    {
        let r = ClickhouseType::Nullable(Box::new(self));
        proof {
            assert(spec_type_text(&r) == "Nullable("@ + spec_type_text(&self) + ")"@);
        }
        r
    }

    /// Wraps the type in `Array(…)`.
    pub fn array(self) -> (r: Self)
        ensures
            r matches ClickhouseType::Array(inner) && *inner == self,
            spec_type_text(&r) == "Array("@ + spec_type_text(&self) + ")"@,
    {
        let r = ClickhouseType::Array(Box::new(self));
        proof {
            assert(spec_type_text(&r) == "Array("@ + spec_type_text(&self) + ")"@);
        }
        r
    }

    /// Renders the type as SQL text.
    pub fn to_type_text(&self) -> (r: String)
        ensures
            r@ == spec_type_text(self),
        decreases self,
    {
        match self {
            ClickhouseType::Int8 => String::from_str("Int8"),
            ClickhouseType::Int16 => String::from_str("Int16"),
            ClickhouseType::Int32 => String::from_str("Int32"),
            ClickhouseType::Int64 => String::from_str("Int64"),
            ClickhouseType::Int128 => String::from_str("Int128"),
            ClickhouseType::Int256 => String::from_str("Int256"),
            ClickhouseType::UInt8 => String::from_str("UInt8"),
            ClickhouseType::UInt16 => String::from_str("UInt16"),
            ClickhouseType::UInt32 => String::from_str("UInt32"),
            ClickhouseType::UInt64 => String::from_str("UInt64"),
            ClickhouseType::UInt128 => String::from_str("UInt128"),
            ClickhouseType::UInt256 => String::from_str("UInt256"),
            ClickhouseType::Float32 => String::from_str("Float32"),
            ClickhouseType::Float64 => String::from_str("Float64"),
            ClickhouseType::Bool => String::from_str("Bool"),
            ClickhouseType::String => String::from_str("String"),
            ClickhouseType::FixedString(size) => {
                let mut r = String::new();
                r.append("FixedString(");
                let digits = strutil::u64_to_string(*size);
                r.append(digits.as_str());
                r.append(")");
                r
            },
            ClickhouseType::Decimal => String::from_str("Decimal"),
            ClickhouseType::Date => String::from_str("Date"),
            ClickhouseType::Date32 => String::from_str("Date32"),
            ClickhouseType::Time => String::from_str("Time"),
            ClickhouseType::Time64(precision) => {
                let mut r = String::new();
                r.append("Time64(");
                let digits = strutil::u64_to_string(*precision as u64);
                r.append(digits.as_str());
                r.append(")");
                r
            },
            ClickhouseType::DateTime(dt) => dt.to_type_text(),
            ClickhouseType::DateTime64(dt) => dt.to_type_text(),
            ClickhouseType::UUID => String::from_str("UUID"),
            ClickhouseType::Array(inner) => {
                let mut r = String::new();
                r.append("Array(");
                let inner_text = inner.to_type_text();
                r.append(inner_text.as_str());
                r.append(")");
                r
            },
            ClickhouseType::Nullable(inner) => {
                let mut r = String::new();
                r.append("Nullable(");
                let inner_text = inner.to_type_text();
                r.append(inner_text.as_str());
                r.append(")");
                r
            },
        }
    }
}

impl ClickhouseColumn {
    /// Renders a source cell as the SQL literal for this column's declared
    /// type, exactly as [`spec_to_clickhouse_value`] states it.
    pub fn to_clickhouse_value<V: IntoClickhouseValue>(&self, value: &V) -> (r: String)
        ensures
            r@ == spec_to_clickhouse_value(self.data_type@, *value),
    {
        let dt = self.data_type.as_str();
        if value.is_null() && strutil::str_starts_with(dt, "Nullable") {
            return String::from_str("NULL");
        }
        if strutil::str_eq_str(dt, "Int8") || strutil::str_eq_str(dt, "Int16") || strutil::str_eq_str(
            dt,
            "Int32",
        ) || strutil::str_eq_str(dt, "Int64") || strutil::str_eq_str(dt, "Nullable(Int8)")
            || strutil::str_eq_str(dt, "Nullable(Int16)") || strutil::str_eq_str(
            dt,
            "Nullable(Int32)",
        ) || strutil::str_eq_str(dt, "Nullable(Int64)") {
            value.to_integer()
        } else if strutil::str_eq_str(dt, "Float32") || strutil::str_eq_str(dt, "Float64")
            || strutil::str_eq_str(dt, "Nullable(Float32)") || strutil::str_eq_str(
            dt,
            "Nullable(Float64)",
        ) {
            value.to_real()
        } else if strutil::str_eq_str(dt, "Bool") || strutil::str_eq_str(dt, "Nullable(Bool)") {
            value.to_bool()
        } else if strutil::str_eq_str(dt, "String") || strutil::str_eq_str(dt, "Nullable(String)") {
            value.to_string()
        } else if strutil::str_eq_str(dt, "Date") || strutil::str_eq_str(dt, "Date32")
            || strutil::str_eq_str(dt, "Nullable(Date)") || strutil::str_eq_str(
            dt,
            "Nullable(Date32)",
        ) {
            value.to_date()
        } else if strutil::str_eq_str(dt, "DateTime") || strutil::str_eq_str(dt, "DateTime64")
            || strutil::str_eq_str(dt, "Nullable(DateTime)") || strutil::str_eq_str(
            dt,
            "Nullable(DateTime64)",
        ) {
            value.to_datetime()
        } else if strutil::str_eq_str(dt, "Time") || strutil::str_eq_str(dt, "Time64")
            || strutil::str_eq_str(dt, "Nullable(Time)") || strutil::str_eq_str(
            dt,
            "Nullable(Time64)",
        ) {
            value.to_time()
        } else if strutil::str_eq_str(dt, "Array(String)") {
            value.to_string_array()
        } else if strutil::str_eq_str(dt, "Decimal") || strutil::str_eq_str(dt, "Nullable(Decimal)") {
            value.to_real()
        } else if strutil::str_starts_with(dt, "Array") {
            value.to_array()
        } else if strutil::str_contains(dt, "DateTime") {
            value.to_datetime()
        } else if strutil::str_contains(dt, "Time") {
            value.to_time()
        } else {
            value.unknown_value()
        }
    }
}

/// One character with a question mark doubled.
pub open spec fn question_esc_char(c: char) -> Seq<char> {
    if c == '?' {
        seq!['?', '?']
    } else {
        seq![c]
    }
}

/// The query with every raw `?` doubled, defeating accidental placeholder
/// interpretation by the driver.
pub open spec fn spec_double_question_marks(s: Seq<char>) -> Seq<char>
    decreases s.len(),
{
    if s.len() == 0 {
        Seq::empty()
    } else {
        spec_double_question_marks(s.drop_last()) + question_esc_char(s.last())
    }
}

/// Doubles every `?` in a query before it is sent.
pub fn double_question_marks(query: &str) -> (r: String)
    ensures
        r@ == spec_double_question_marks(query@),
{
    let n = query.unicode_len();
    let mut r = String::new();
    let mut i: usize = 0;
    while i < n
        invariant
            i <= n == query@.len(),
            r@ == spec_double_question_marks(query@.take(i as int)),
        decreases n - i,
    {
        let c = query.get_char(i);
        if c == '?' {
            strutil::push_char(&mut r, '?');
            strutil::push_char(&mut r, '?');
        } else {
            strutil::push_char(&mut r, c);
        }
        proof {
            let pre = query@.take(i as int);
            let cur = query@.take(i + 1int);
            assert(cur.drop_last() =~= pre);
            assert(cur.last() == query@[i as int]);
            assert(r@ =~= spec_double_question_marks(pre) + question_esc_char(query@[i as int]));
        }
        i = i + 1;
    }
    proof {
        assert(query@.take(n as int) =~= query@);
    }
    r
}

/// The sink endpoint: the HTTP URL of the ClickHouse server together with
/// the credentials and database the pipe writes to. The driver around the
/// library performs the actual requests.
#[derive(Debug, Clone)]
pub struct ClickhouseConnection {
    pub url: String,
    pub username: String,
    pub password: String,
    pub database: String,
}

impl ClickhouseConnection {
    /// Builds the endpoint from the connection settings: the URL is
    /// `http://host:port`, the rest is taken as given.
    pub fn new(config: &ClickHouseConnectionConfig) -> (r: Self)
        ensures
            r.url@ == "http://"@ + config.host@ + ":"@ + u64_decimal(config.port as int),
            r.username@ == config.username@,
            r.password@ == config.password@,
            r.database@ == config.database@,
    {
        let mut url = String::new();
        url.append("http://");
        url.append(config.host.as_str());
        url.append(":");
        let port = strutil::u64_to_string(config.port as u64);
        url.append(port.as_str());
        ClickhouseConnection {
            url,
            username: config.username.clone(),
            password: config.password.clone(),
            database: config.database.clone(),
        }
    }
}

} // verus!
