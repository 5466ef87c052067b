//! PostgreSQL logical-decoding (`pgoutput`, protocol version 1) parser.
//!
//! A message's first byte is an ASCII tag. Begin/Commit/Origin/Relation/Type
//! messages are consumed and ignored; Insert/Update/Delete/Truncate are
//! decoded into a [`PgOutput`] record. The exact decoding, byte for byte, is
//! stated by [`spec_parse_pg_output`], and [`parse_pg_output`] is proved to
//! return precisely that.

use vstd::prelude::*;

use crate::adapter::{spec_to_clickhouse_value, IntoClickhouseValue};
use crate::errors::Errors;
use crate::strutil;

verus! {

/// The tag of one logical-decoding message.
#[derive(Debug, Clone, Copy, PartialEq, Eq, Structural)]
pub enum MessageType {
    Begin,
    Commit,
    Origin,
    Relation,
    Type,
    Insert,
    Update,
    Delete,
    Truncate,
}

/// Which image a tuple in an Update or Delete message carries: the old key,
/// the full old row, or the new row.
#[derive(Debug, Clone, Copy, PartialEq, Eq, Structural)]
pub enum PgTupleType {
    Key,
    Old,
    New,
}

/// The message type a tag byte denotes, if any.
pub open spec fn message_type_of(value: u8) -> Option<MessageType> {
    if value == 66 {
        Some(MessageType::Begin)
    } else if value == 67 {
        Some(MessageType::Commit)
    } else if value == 79 {
        Some(MessageType::Origin)
    } else if value == 82 {
        Some(MessageType::Relation)
    } else if value == 89 {
        Some(MessageType::Type)
    } else if value == 73 {
        Some(MessageType::Insert)
    } else if value == 85 {
        Some(MessageType::Update)
    } else if value == 68 {
        Some(MessageType::Delete)
    } else if value == 84 {
        Some(MessageType::Truncate)
    } else {
        None
    }
}

/// The tuple kind a byte denotes, if any.
pub open spec fn tuple_type_of(value: u8) -> Option<PgTupleType> {
    if value == 75 {
        Some(PgTupleType::Key)
    } else if value == 79 {
        Some(PgTupleType::Old)
    } else if value == 78 {
        Some(PgTupleType::New)
    } else {
        None
    }
}

impl MessageType {
    /// Decodes a message tag byte, rejecting unknown tags.
    pub fn try_from(value: u8) -> (r: Result<MessageType, String>)
        ensures
            r matches Ok(m) ==> message_type_of(value) == Some(m),
            r is Ok <==> message_type_of(value) is Some,
    {
        match value {
            66 => Ok(MessageType::Begin),
            67 => Ok(MessageType::Commit),
            79 => Ok(MessageType::Origin),
            82 => Ok(MessageType::Relation),
            89 => Ok(MessageType::Type),
            73 => Ok(MessageType::Insert),
            85 => Ok(MessageType::Update),
            68 => Ok(MessageType::Delete),
            84 => Ok(MessageType::Truncate),
            _ => {
                let mut m = String::new();
                m.append("Unknown message type: ");
                let d = strutil::u64_to_string(value as u64);
                m.append(d.as_str());
                Err(m)
            },
        }
    }
}

impl PgTupleType {
    /// Decodes a tuple kind byte, rejecting unknown kinds.
    pub fn try_from(value: u8) -> (r: Result<PgTupleType, String>)
        ensures
            r matches Ok(t) ==> tuple_type_of(value) == Some(t),
            r is Ok <==> tuple_type_of(value) is Some,
    {
        match value {
            78 => Ok(PgTupleType::New),
            75 => Ok(PgTupleType::Key),
            79 => Ok(PgTupleType::Old),
            _ => {
                let mut m = String::new();
                m.append("Unknown tuple type: ");
                let d = strutil::u64_to_string(value as u64);
                m.append(d.as_str());
                Err(m)
            },
        }
    }
}

/// One cell of a decoded tuple: SQL null, an unchanged TOAST value the
/// message omits, text, or raw bytes.
#[derive(Debug, Clone)]
pub enum PgOutputValue {
    Null,
    Unchanged,
    Text(String),
    Binary(Vec<u8>),
}

/// The mathematical image of one tuple cell.
pub enum SpecCell {
    Null,
    Unchanged,
    Text(Seq<char>),
    Binary(Seq<u8>),
}

impl View for PgOutputValue {
    type V = SpecCell;

    open spec fn view(&self) -> SpecCell {
        match self {
            PgOutputValue::Null => SpecCell::Null,
            PgOutputValue::Unchanged => SpecCell::Unchanged,
            PgOutputValue::Text(s) => SpecCell::Text(s@),
            PgOutputValue::Binary(b) => SpecCell::Binary(b@),
        }
    }
}

impl Default for PgOutputValue {
    /// The default cell is SQL null.
    fn default() -> (r: Self)
        ensures
            r@ == SpecCell::Null,
    {
        PgOutputValue::Null
    }
}

/// The cell images of a sequence of cells.
pub open spec fn cells_view(vs: Seq<PgOutputValue>) -> Seq<SpecCell> {
    vs.map_values(|v: PgOutputValue| v@)
}

/// One decoded Insert/Update/Delete/Truncate record.
#[derive(Debug, Clone)]
pub struct PgOutput {
    pub message_type: MessageType,
    pub relation_id: u32,
    pub tuple_type: Option<PgTupleType>,
    pub payload: Vec<PgOutputValue>,
}

/// The mathematical image of one decoded record.
pub struct SpecPgOutput {
    pub message_type: MessageType,
    pub relation_id: u32,
    pub tuple_type: Option<PgTupleType>,
    pub payload: Seq<SpecCell>,
}

impl View for PgOutput {
    type V = SpecPgOutput;

    open spec fn view(&self) -> SpecPgOutput {
        SpecPgOutput {
            message_type: self.message_type,
            relation_id: self.relation_id,
            tuple_type: self.tuple_type,
            payload: cells_view(self.payload@),
        }
    }
}

/// What parsing a message yields: a skipped housekeeping message, a decoded
/// record, or a protocol error.
pub enum SpecParse {
    Skip,
    Record(SpecPgOutput),
    Fail,
}

/// The big-endian 32-bit integer at position `i`.
pub open spec fn be_u32_at(b: Seq<u8>, i: int) -> u32 {
    ((b[i] as int) * 0x1000000 + (b[i + 1] as int) * 0x10000 + (b[i + 2] as int) * 0x100 + (b[i
        + 3] as int)) as u32
}

/// The big-endian 16-bit integer at position `i`.
pub open spec fn be_u16_at(b: Seq<u8>, i: int) -> u16 {
    ((b[i] as int) * 0x100 + (b[i + 1] as int)) as u16
}

/// Parses `n` tuple cells starting at `pos`: the cells and the position just
/// past them, or `None` when the bytes are malformed.
pub open spec fn spec_parse_cells(b: Seq<u8>, pos: int, n: nat) -> Option<(Seq<SpecCell>, int)>
    decreases n,
{
    if n == 0 {
        Some((Seq::empty(), pos))
    } else if pos >= b.len() {
        None
    } else {
        let kind = b[pos];
        if kind == 110 {  // 'n': SQL null
            spec_cells_compose(seq![SpecCell::Null], spec_parse_cells(b, pos + 1, (n - 1) as nat))
        } else if kind == 117 {  // 'u': unchanged TOAST value
            spec_cells_compose(
                seq![SpecCell::Unchanged],
                spec_parse_cells(b, pos + 1, (n - 1) as nat),
            )
        } else if kind == 116 {  // 't': length-prefixed UTF-8 text
            if pos + 5 > b.len() {
                None
            } else {
                let len = be_u32_at(b, pos + 1) as int;
                if pos + 5 + len > b.len() {
                    None
                } else {
                    let payload = b.subrange(pos + 5, pos + 5 + len);
                    if !vstd::utf8::valid_utf8(payload) {
                        None
                    } else {
                        spec_cells_compose(
                            seq![SpecCell::Text(vstd::utf8::decode_utf8(payload))],
                            spec_parse_cells(b, pos + 5 + len, (n - 1) as nat),
                        )
                    }
                }
            }
        } else if kind == 98 {  // 'b': length-prefixed raw bytes
            if pos + 5 > b.len() {
                None
            } else {
                let len = be_u32_at(b, pos + 1) as int;
                if pos + 5 + len > b.len() {
                    None
                } else {
                    spec_cells_compose(
                        seq![SpecCell::Binary(b.subrange(pos + 5, pos + 5 + len))],
                        spec_parse_cells(b, pos + 5 + len, (n - 1) as nat),
                    )
                }
            }
        } else {
            None
        }
    }
}

/// Prepends already-parsed cells to the outcome of parsing the rest.
pub open spec fn spec_cells_compose(
    prefix: Seq<SpecCell>,
    rest: Option<(Seq<SpecCell>, int)>,
) -> Option<(Seq<SpecCell>, int)> {
    match rest {
        Some((vs, end)) => Some((prefix + vs, end)),
        None => None,
    }
}

/// Parses one tuple at `pos`: a 16-bit column count, then that many cells.
pub open spec fn spec_parse_tuple(b: Seq<u8>, pos: int) -> Option<(Seq<SpecCell>, int)> {
    if pos + 2 > b.len() {
        None
    } else {
        spec_parse_cells(b, pos + 2, be_u16_at(b, pos) as nat)
    }
}

/// The decoding of one whole message, as §the wire format defines it:
/// housekeeping tags are skipped, I/U/D/T yield a record (an Update always
/// surfaces the new row image), and anything else is a protocol error.
pub open spec fn spec_parse_pg_output(b: Seq<u8>) -> SpecParse {
    if b.len() == 0 {
        SpecParse::Fail
    } else {
        let tag = b[0];
        if tag == 66 || tag == 67 || tag == 79 || tag == 82 || tag == 89 {
            SpecParse::Skip
        } else if b.len() < 6 {
            SpecParse::Fail
        } else if tag == 73 {  // Insert: relation id, 'N', tuple
            if b[5] != 78 {
                SpecParse::Fail
            } else {
                match spec_parse_tuple(b, 6) {
                    Some((vs, _end)) => SpecParse::Record(
                        SpecPgOutput {
                            message_type: MessageType::Insert,
                            relation_id: be_u32_at(b, 1),
                            tuple_type: Some(PgTupleType::New),
                            payload: vs,
                        },
                    ),
                    None => SpecParse::Fail,
                }
            }
        } else if tag == 85 {  // Update: relation id, optional old tuple, 'N', new tuple
            if b[5] == 78 {
                match spec_parse_tuple(b, 6) {
                    Some((vs, _end)) => SpecParse::Record(
                        SpecPgOutput {
                            message_type: MessageType::Update,
                            relation_id: be_u32_at(b, 1),
                            tuple_type: Some(PgTupleType::New),
                            payload: vs,
                        },
                    ),
                    None => SpecParse::Fail,
                }
            } else if b[5] == 75 || b[5] == 79 {
                match spec_parse_tuple(b, 6) {
                    Some((_old, end)) => if end >= b.len() || b[end] != 78 {
                        SpecParse::Fail
                    } else {
                        match spec_parse_tuple(b, end + 1) {
                            Some((vs, _e2)) => SpecParse::Record(
                                SpecPgOutput {
                                    message_type: MessageType::Update,
                                    relation_id: be_u32_at(b, 1),
                                    tuple_type: Some(PgTupleType::New),
                                    payload: vs,
                                },
                            ),
                            None => SpecParse::Fail,
                        }
                    },
                    None => SpecParse::Fail,
                }
            } else {
                SpecParse::Fail
            }
        } else if tag == 68 {  // Delete: relation id, 'K' or 'O', tuple
            if b[5] == 75 || b[5] == 79 {
                match spec_parse_tuple(b, 6) {
                    Some((vs, _end)) => SpecParse::Record(
                        SpecPgOutput {
                            message_type: MessageType::Delete,
                            relation_id: be_u32_at(b, 1),
                            tuple_type: tuple_type_of(b[5]),
                            payload: vs,
                        },
                    ),
                    None => SpecParse::Fail,
                }
            } else {
                SpecParse::Fail
            }
        } else if tag == 84 {  // Truncate: relation id, flags byte, no tuple
            SpecParse::Record(
                SpecPgOutput {
                    message_type: MessageType::Truncate,
                    relation_id: be_u32_at(b, 1),
                    tuple_type: None,
                    payload: Seq::empty(),
                },
            )
        } else {
            SpecParse::Fail
        }
    }
}

/// Reads the big-endian 32-bit integer at `pos`.
fn read_u32_be(bytes: &[u8], pos: usize) -> (r: u32)
    requires
        pos + 4 <= bytes@.len(),
    ensures
        r == be_u32_at(bytes@, pos as int),
{
    let b0 = bytes[pos] as u32;
    let b1 = bytes[pos + 1] as u32;
    let b2 = bytes[pos + 2] as u32;
    let b3 = bytes[pos + 3] as u32;
    b0 * 0x1000000 + b1 * 0x10000 + b2 * 0x100 + b3
}

/// Reads the big-endian 16-bit integer at `pos`.
fn read_u16_be(bytes: &[u8], pos: usize) -> (r: u16)
    requires
        pos + 2 <= bytes@.len(),
    ensures
        r == be_u16_at(bytes@, pos as int),
{
    let b0 = bytes[pos] as u16;
    let b1 = bytes[pos + 1] as u16;
    b0 * 0x100 + b1
}

fn parse_error(message: &str) -> (r: Errors)
    ensures
        r matches Errors::PgOutputParseError(_),
{
    Errors::PgOutputParseError(String::from_str(message))
}

/// Parses one tuple (column count, then the cells) starting at `pos`.
fn parse_tuple(bytes: &[u8], pos: usize) -> (r: Result<(Vec<PgOutputValue>, usize), Errors>)
    requires
        pos <= bytes@.len(),
    ensures
        r matches Ok((vals, end)) ==> spec_parse_tuple(bytes@, pos as int) == Some(
            (cells_view(vals@), end as int),
        ) && pos <= end <= bytes@.len(),
        r is Err <==> spec_parse_tuple(bytes@, pos as int) is None,
        r matches Err(e) ==> e matches Errors::PgOutputParseError(_),
{
    if bytes.len() - pos < 2 {
        return Err(parse_error("Failed to read column count"));
    }
    let count = read_u16_be(bytes, pos) as usize;
    let ghost start = pos + 2int;
    proof {
        assert(spec_parse_tuple(bytes@, pos as int) == spec_parse_cells(
            bytes@,
            start,
            count as nat,
        ));
    }
    let mut vals: Vec<PgOutputValue> = Vec::new();
    let mut p: usize = pos + 2;
    let mut i: usize = 0;
    while i < count
        invariant
            pos + 2 <= p <= bytes@.len(),
            i <= count,
            start == pos + 2int,
            spec_parse_tuple(bytes@, pos as int) == spec_parse_cells(bytes@, start, count as nat),
            spec_parse_cells(bytes@, start, count as nat) == spec_cells_compose(
                cells_view(vals@),
                spec_parse_cells(bytes@, p as int, (count - i) as nat),
            ),
        decreases count - i,
    {
        let ghost rem = (count - i) as nat;
        let ghost vals_pre = vals@;
        let ghost p_pre = p as int;
        if p >= bytes.len() {
            proof {
                assert(spec_parse_cells(bytes@, p as int, rem) is None);
            }
            return Err(parse_error("Failed to read column type"));
        }
        let kind = bytes[p];
        if kind == 110 {  // 'n'
            vals.push(PgOutputValue::Null);
            p = p + 1;
            proof {
                assert(spec_parse_cells(bytes@, p_pre, rem) == spec_cells_compose(
                    seq![SpecCell::Null],
                    spec_parse_cells(bytes@, p as int, (rem - 1) as nat),
                ));
                assert(cells_view(vals@) =~= cells_view(vals_pre) + seq![SpecCell::Null]);
                lemma_compose_shift(
                    bytes@,
                    start,
                    count as nat,
                    cells_view(vals_pre),
                    seq![SpecCell::Null],
                    spec_parse_cells(bytes@, p as int, (rem - 1) as nat),
                );
            }
        } else if kind == 117 {  // 'u'
            vals.push(PgOutputValue::Unchanged);
            p = p + 1;
            proof {
                assert(spec_parse_cells(bytes@, p_pre, rem) == spec_cells_compose(
                    seq![SpecCell::Unchanged],
                    spec_parse_cells(bytes@, p as int, (rem - 1) as nat),
                ));
                assert(cells_view(vals@) =~= cells_view(vals_pre) + seq![SpecCell::Unchanged]);
                lemma_compose_shift(
                    bytes@,
                    start,
                    count as nat,
                    cells_view(vals_pre),
                    seq![SpecCell::Unchanged],
                    spec_parse_cells(bytes@, p as int, (rem - 1) as nat),
                );
            }
        } else if kind == 116 || kind == 98 {  // 't' or 'b'
            if bytes.len() - p < 5 {
                proof {
                    assert(spec_parse_cells(bytes@, p as int, rem) is None);
                }
                return Err(parse_error("Failed to read value length"));
            }
            let len = read_u32_be(bytes, p + 1) as usize;
            if bytes.len() - (p + 5) < len {
                proof {
                    assert(spec_parse_cells(bytes@, p as int, rem) is None);
                }
                return Err(parse_error("Failed to read value payload"));
            }
            let payload_slice = vstd::slice::slice_subrange(bytes, p + 5, p + 5 + len);
            let payload = vstd::slice::slice_to_vec(payload_slice);
            let ghost payload_seq = bytes@.subrange(p as int + 5, p as int + 5 + len as int);
            let cell: PgOutputValue;
            if kind == 116 {
                match strutil::string_from_utf8(payload) {
                    Some(text) => {
                        cell = PgOutputValue::Text(text);
                    },
                    None => {
                        return Err(parse_error("Invalid UTF-8 sequence"));
                    },
                }
            } else {
                cell = PgOutputValue::Binary(payload);
            }
            let ghost cell_spec = cell@;
            vals.push(cell);
            p = p + 5 + len;
            proof {
                assert(spec_parse_cells(bytes@, p_pre, rem) == spec_cells_compose(
                    seq![cell_spec],
                    spec_parse_cells(bytes@, p as int, (rem - 1) as nat),
                ));
                assert(cells_view(vals@) =~= cells_view(vals_pre) + seq![cell_spec]);
                lemma_compose_shift(
                    bytes@,
                    start,
                    count as nat,
                    cells_view(vals_pre),
                    seq![cell_spec],
                    spec_parse_cells(bytes@, p as int, (rem - 1) as nat),
                );
            }
        } else {
            return Err(parse_error("Unknown column type"));
        }
        i = i + 1;
    }
    proof {
        assert(spec_parse_cells(bytes@, p as int, 0nat) == Some((Seq::<SpecCell>::empty(), p as int)));
        assert(cells_view(vals@) + Seq::<SpecCell>::empty() =~= cells_view(vals@));
    }
    Ok((vals, p))
}

/// Restates composition after one parsed cell is moved into the prefix.
proof fn lemma_compose_shift(
    b: Seq<u8>,
    start: int,
    n: nat,
    prefix: Seq<SpecCell>,
    one: Seq<SpecCell>,
    rest: Option<(Seq<SpecCell>, int)>,
)
    requires
        spec_parse_cells(b, start, n) == spec_cells_compose(prefix, spec_cells_compose(one, rest)),
    ensures
        spec_parse_cells(b, start, n) == spec_cells_compose(prefix + one, rest),
{
    match rest {
        Some((vs, end)) => {
            assert(prefix + (one + vs) =~= (prefix + one) + vs);
        },
        None => {},
    }
}

/// Decodes one logical-decoding message. Housekeeping messages yield
/// `Ok(None)`; Insert/Update/Delete/Truncate yield the decoded record; an
/// unknown tag or malformed payload yields a parse error. The result is
/// exactly [`spec_parse_pg_output`] of the input bytes.
pub fn parse_pg_output(bytes: &[u8]) -> (r: Result<Option<PgOutput>, Errors>)
    ensures
        r matches Ok(Some(p)) ==> spec_parse_pg_output(bytes@) == SpecParse::Record(p@),
        r matches Ok(None::<PgOutput>) <==> spec_parse_pg_output(bytes@) is Skip,
        r is Err <==> spec_parse_pg_output(bytes@) is Fail,
        r matches Err(e) ==> e matches Errors::PgOutputParseError(_),
{
    if bytes.len() == 0 {
        return Err(parse_error("Empty message"));
    }
    let tag = bytes[0];
    if tag == 66 || tag == 67 || tag == 79 || tag == 82 || tag == 89 {
        return Ok(None);
    }
    if !(tag == 73 || tag == 85 || tag == 68 || tag == 84) {
        return Err(parse_error("Unknown message type"));
    }
    if bytes.len() < 6 {
        return Err(parse_error("Failed to read relation ID"));
    }
    let relation_id = read_u32_be(bytes, 1);
    if tag == 84 {
        // Truncate: flags byte, no tuple data.
        proof {
            assert(cells_view(Seq::<PgOutputValue>::empty()) =~= Seq::<SpecCell>::empty());
        }
        return Ok(
            Some(
                PgOutput {
                    message_type: MessageType::Truncate,
                    relation_id,
                    tuple_type: None,
                    payload: Vec::new(),
                },
            ),
        );
    }
    let kind = bytes[5];
    if tag == 73 {
        if kind != 78 {
            return Err(parse_error("Invalid tuple type"));
        }
        match parse_tuple(bytes, 6) {
            Ok((vals, _end)) => Ok(
                Some(
                    PgOutput {
                        message_type: MessageType::Insert,
                        relation_id,
                        tuple_type: Some(PgTupleType::New),
                        payload: vals,
                    },
                ),
            ),
            Err(e) => Err(e),
        }
    } else if tag == 85 {
        if kind == 78 {
            match parse_tuple(bytes, 6) {
                Ok((vals, _end)) => Ok(
                    Some(
                        PgOutput {
                            message_type: MessageType::Update,
                            relation_id,
                            tuple_type: Some(PgTupleType::New),
                            payload: vals,
                        },
                    ),
                ),
                Err(e) => Err(e),
            }
        } else if kind == 75 || kind == 79 {
            // An old-key or old-row tuple precedes the mandatory new image.
            match parse_tuple(bytes, 6) {
                Ok((_old, end)) => {
                    if end >= bytes.len() {
                        return Err(parse_error("Missing new tuple"));
                    }
                    if bytes[end] != 78 {
                        return Err(parse_error("Missing new tuple"));
                    }
                    match parse_tuple(bytes, end + 1) {
                        Ok((vals, _e2)) => Ok(
                            Some(
                                PgOutput {
                                    message_type: MessageType::Update,
                                    relation_id,
                                    tuple_type: Some(PgTupleType::New),
                                    payload: vals,
                                },
                            ),
                        ),
                        Err(e) => Err(e),
                    }
                },
                Err(e) => Err(e),
            }
        } else {
            Err(parse_error("Invalid tuple type"))
        }
    } else {
        // Delete
        if kind == 75 || kind == 79 {
            let tuple_type = if kind == 75 {
                PgTupleType::Key
            } else {
                PgTupleType::Old
            };
            match parse_tuple(bytes, 6) {
                Ok((vals, _end)) => Ok(
                    Some(
                        PgOutput {
                            message_type: MessageType::Delete,
                            relation_id,
                            tuple_type: Some(tuple_type),
                            payload: vals,
                        },
                    ),
                ),
                Err(e) => Err(e),
            }
        } else {
            Err(parse_error("Invalid tuple type"))
        }
    }
}

/// A character lowered to its ASCII lowercase.
pub open spec fn spec_lower_char(c: char) -> char {
    if 65 <= c as u32 <= 90 {
        (((c as u32) + 32) as u8) as char
    } else {
        c
    }
}

/// A string lowered character by character.
pub open spec fn spec_lower(s: Seq<char>) -> Seq<char> {
    s.map_values(|c: char| spec_lower_char(c))
}

/// `TRUE` when the lowered text is `t`, `1` or `true`; `FALSE` otherwise.
pub open spec fn spec_parse_bool(s: Seq<char>) -> Seq<char> {
    if spec_lower(s) == "t"@ || spec_lower(s) == "1"@ || spec_lower(s) == "true"@ {
        "TRUE"@
    } else {
        "FALSE"@
    }
}

/// One character SQL-escaped: quotes and backslashes are doubled.
pub open spec fn esc_char(c: char) -> Seq<char> {
    if c == '\'' {
        seq!['\'', '\'']
    } else if c == '\\' {
        seq!['\\', '\\']
    } else {
        seq![c]
    }
}

/// The text with every quote and backslash doubled.
pub open spec fn spec_escape_string(s: Seq<char>) -> Seq<char>
    decreases s.len(),
{
    if s.len() == 0 {
        Seq::empty()
    } else {
        spec_escape_string(s.drop_last()) + esc_char(s.last())
    }
}

/// The prefix of `s` before the first occurrence of `c`; all of `s` when `c`
/// is absent.
pub open spec fn spec_cut_at(s: Seq<char>, c: char) -> Seq<char> {
    let r = strutil::find_char(s, c);
    if r == -1 {
        s
    } else {
        s.take(r)
    }
}

/// A date-time literal trimmed for ClickHouse: fractional seconds (after the
/// first `.`) and the timezone suffix (after the first `+`) are dropped.
pub open spec fn spec_format_date_time(s: Seq<char>) -> Seq<char> {
    spec_cut_at(spec_cut_at(s, '.'), '+')
}

/// The inner text of a Postgres array literal: the outer braces are removed
/// when both are present, otherwise the text stands as it is.
pub open spec fn spec_array_inner(s: Seq<char>) -> Seq<char> {
    if s.len() >= 2 && s[0] == '{' && s[s.len() - 1] == '}' {
        s.subrange(1, s.len() - 1)
    } else {
        s
    }
}

/// The cell's text, or the default for a cell that carries none.
pub open spec fn spec_text_or(c: SpecCell, default: Seq<char>) -> Seq<char> {
    match c {
        SpecCell::Text(s) => s,
        _ => default,
    }
}

/// Leading braces stripped.
pub open spec fn spec_trim_start_brace(s: Seq<char>) -> Seq<char>
    decreases s.len(),
{
    if s.len() > 0 && (s[0] == '{' || s[0] == '}') {
        spec_trim_start_brace(s.skip(1))
    } else {
        s
    }
}

/// Trailing braces stripped.
pub open spec fn spec_trim_end_brace(s: Seq<char>) -> Seq<char>
    decreases s.len(),
{
    if s.len() > 0 && (s.last() == '{' || s.last() == '}') {
        spec_trim_end_brace(s.drop_last())
    } else {
        s
    }
}

/// Leading double quotes stripped.
pub open spec fn spec_trim_start_quote(s: Seq<char>) -> Seq<char>
    decreases s.len(),
{
    if s.len() > 0 && s[0] == '"' {
        spec_trim_start_quote(s.skip(1))
    } else {
        s
    }
}

/// Trailing double quotes stripped.
pub open spec fn spec_trim_end_quote(s: Seq<char>) -> Seq<char>
    decreases s.len(),
{
    if s.len() > 0 && s.last() == '"' {
        spec_trim_end_quote(s.drop_last())
    } else {
        s
    }
}

/// The text split on every `","` separator.
pub open spec fn spec_split_sep(s: Seq<char>) -> Seq<Seq<char>>
    decreases s.len(),
{
    if s.len() < 3 {
        seq![s]
    } else if s[0] == '"' && s[1] == ',' && s[2] == '"' {
        seq![Seq::empty()] + spec_split_sep(s.skip(3))
    } else {
        split_prepend(s[0], spec_split_sep(s.skip(1)))
    }
}

/// The head character prepended to the first part.
pub open spec fn split_prepend(c: char, parts: Seq<Seq<char>>) -> Seq<Seq<char>> {
    seq![seq![c] + parts[0]] + parts.skip(1)
}

/// The split always yields at least one part.
pub proof fn lemma_split_sep_nonempty(s: Seq<char>)
    ensures
        spec_split_sep(s).len() >= 1,
    decreases s.len(),
{
    if s.len() >= 3 {
        if s[0] == '"' && s[1] == ',' && s[2] == '"' {
            lemma_split_sep_nonempty(s.skip(3));
        } else {
            lemma_split_sep_nonempty(s.skip(1));
        }
    }
}

/// What `parse_string_array` yields: the text with outer braces trimmed,
/// then outer quotes trimmed, split on `","`.
pub open spec fn spec_parse_string_array(s: Seq<char>) -> Seq<Seq<char>> {
    spec_split_sep(spec_trim_end_quote(spec_trim_start_quote(spec_trim_end_brace(
        spec_trim_start_brace(s),
    ))))
}

/// The parse is a pure function of its input: any two records satisfying the
/// parser's contract for the same bytes are one and the same. Re-parsing a
/// batch therefore reproduces the very records of the first pass.
pub proof fn lemma_parse_pg_output_deterministic(b: Seq<u8>, r1: SpecPgOutput, r2: SpecPgOutput)
    requires
        spec_parse_pg_output(b) == SpecParse::Record(r1),
        spec_parse_pg_output(b) == SpecParse::Record(r2),
    ensures
        r1 == r2,
{
}

/// Lowers a character to its ASCII lowercase.
fn lower_char(c: char) -> (r: char)
    ensures
        r == spec_lower_char(c),
{
    let u = c as u32;
    if 65 <= u && u <= 90 {
        ((u + 32) as u8) as char
    } else {
        c
    }
}

impl PgOutputValue {
    /// Renders a boolean literal: `TRUE` for `t`, `1` or `true` in any case,
    /// `FALSE` for everything else.
    pub fn parse_bool(value: &str) -> (r: String)
        ensures
            r@ == spec_parse_bool(value@),
    {
        let n = value.unicode_len();
        let truthy: bool;
        if n == 1 {
            let c0 = lower_char(value.get_char(0));
            truthy = c0 == 't' || c0 == '1';
        } else if n == 4 {
            let c0 = lower_char(value.get_char(0));
            let c1 = lower_char(value.get_char(1));
            let c2 = lower_char(value.get_char(2));
            let c3 = lower_char(value.get_char(3));
            truthy = c0 == 't' && c1 == 'r' && c2 == 'u' && c3 == 'e';
        } else {
            truthy = false;
        }
        proof {
            reveal_strlit("t");
            reveal_strlit("1");
            reveal_strlit("true");
            assert(spec_lower(value@).len() == value@.len());
            if truthy {
                if n == 1 {
                    if spec_lower_char(value@[0]) == 't' {
                        assert(spec_lower(value@) =~= "t"@);
                    } else {
                        assert(spec_lower(value@) =~= "1"@);
                    }
                } else {
                    assert(spec_lower(value@) =~= "true"@);
                }
            } else {
                assert(spec_lower(value@) != "t"@ && spec_lower(value@) != "1"@ && spec_lower(
                    value@,
                ) != "true"@) by {
                    if n == 1 {
                        assert(spec_lower(value@)[0] == spec_lower_char(value@[0]));
                    } else if n == 4 {
                        assert(spec_lower(value@)[0] == spec_lower_char(value@[0]));
                        assert(spec_lower(value@)[1] == spec_lower_char(value@[1]));
                        assert(spec_lower(value@)[2] == spec_lower_char(value@[2]));
                        assert(spec_lower(value@)[3] == spec_lower_char(value@[3]));
                    }
                }
            }
        }
        if truthy {
            String::from_str("TRUE")
        } else {
            String::from_str("FALSE")
        }
    }

    /// A copy of the cell carrying the same image.
    pub fn duplicate(&self) -> (r: Self)
        ensures
            r@ == self@,
    {
        match self {
            PgOutputValue::Null => PgOutputValue::Null,
            PgOutputValue::Unchanged => PgOutputValue::Unchanged,
            PgOutputValue::Text(s) => PgOutputValue::Text(s.clone()),
            PgOutputValue::Binary(b) => {
                let mut copy: Vec<u8> = Vec::new();
                let mut i: usize = 0;
                while i < b.len()
                    invariant
                        i <= b@.len(),
                        copy@ == b@.take(i as int),
                    decreases b@.len() - i,
                {
                    copy.push(b[i]);
                    proof {
                        assert(copy@ =~= b@.take(i + 1int));
                    }
                    i = i + 1;
                }
                proof {
                    assert(b@.take(b@.len() as int) =~= b@);
                }
                PgOutputValue::Binary(copy)
            },
        }
    }

    /// Whether the cell is SQL null.
    pub fn is_null(&self) -> (r: bool)
        ensures
            r == (self@ matches SpecCell::Null),
    {
        match self {
            PgOutputValue::Null => true,
            _ => false,
        }
    }

    /// The cell's text, or the given default.
    pub fn text_ref_or<'a>(&'a self, default: &'static str) -> (r: &'a str)
        ensures
            r@ == spec_text_or(self@, default@),
    {
        match self {
            PgOutputValue::Text(value) => value.as_str(),
            _ => default,
        }
    }

    /// The cell's text, or the given default.
    pub fn text_or(self, default: String) -> (r: String)
        ensures
            r@ == spec_text_or(self@, default@),
    {
        match self {
            PgOutputValue::Text(value) => value,
            _ => default,
        }
    }

    /// The inner text of an array literal cell; `None` for a cell without
    /// text.
    pub fn array_value(&self) -> (r: Option<String>)
        ensures
            r matches Some(s) ==> self@ matches SpecCell::Text(t) && s@ == spec_array_inner(t),
            r is Some <==> self@ matches SpecCell::Text(_),
    {
        match self {
            PgOutputValue::Text(value) => {
                let n = value.as_str().unicode_len();
                if n >= 2 && value.as_str().get_char(0) == '{' && value.as_str().get_char(n - 1)
                    == '}' {
                    let inner = value.as_str().substring_char(1, n - 1);
                    Some(String::from_str(inner))
                } else {
                    Some(value.clone())
                }
            },
            _ => None,
        }
    }

    /// Doubles every quote and backslash in the text.
    pub fn escape_string(input: &str) -> (r: String)
        ensures
            r@ == spec_escape_string(input@),
    {
        let n = input.unicode_len();
        let mut r = String::new();
        let mut i: usize = 0;
        while i < n
            invariant
                i <= n == input@.len(),
                r@ == spec_escape_string(input@.take(i as int)),
            decreases n - i,
        {
            let c = input.get_char(i);
            if c == '\'' {
                strutil::push_char(&mut r, '\'');
                strutil::push_char(&mut r, '\'');
            } else if c == '\\' {
                strutil::push_char(&mut r, '\\');
                strutil::push_char(&mut r, '\\');
            } else {
                strutil::push_char(&mut r, c);
            }
            proof {
                let pre = input@.take(i as int);
                let cur = input@.take(i + 1int);
                assert(cur.drop_last() =~= pre);
                assert(cur.last() == input@[i as int]);
                assert(r@ =~= spec_escape_string(pre) + esc_char(input@[i as int]));
            }
            i = i + 1;
        }
        proof {
            assert(input@.take(n as int) =~= input@);
        }
        r
    }

    /// Splits a Postgres array literal of strings into its elements: outer
    /// braces and quotes are trimmed, then the text is split on `","`. The
    /// empty literal `{}` yields one empty element.
    pub fn parse_string_array(value: &str) -> (r: Vec<String>)
        ensures
            r.deep_view() == spec_parse_string_array(value@),
    {
        let trimmed_start = trim_start_brace(value);
        let trimmed = trim_end_brace(trimmed_start);
        let quoted_start = trim_start_quote(trimmed);
        let t = trim_end_quote(quoted_start);
        let n = t.unicode_len();
        let mut parts: Vec<String> = Vec::new();
        let mut cur = String::new();
        let mut i: usize = 0;
        proof {
            assert(t@.skip(0) =~= t@);
        }
        while i < n
            invariant
                i <= n == t@.len(),
                spec_split_sep(t@) == split_state(
                    parts.deep_view(),
                    cur@,
                    spec_split_sep(t@.skip(i as int)),
                ),
            decreases n - i,
        {
            let ghost rest = spec_split_sep(t@.skip(i as int));
            let ghost parts_pre = parts.deep_view();
            let ghost cur_pre = cur@;
            if n - i >= 3 && t.get_char(i) == '"' && t.get_char(i + 1) == ',' && t.get_char(i + 2)
                == '"' {
                parts.push(cur);
                cur = String::new();
                proof {
                    let tail = t@.skip(i as int);
                    assert(tail[0] == t@[i as int] && tail[1] == t@[i + 1int] && tail[2] == t@[i
                        + 2int]);
                    assert(tail.skip(3) =~= t@.skip(i + 3int));
                    let inner = spec_split_sep(t@.skip(i + 3int));
                    lemma_split_sep_nonempty(t@.skip(i + 3int));
                    assert(rest == seq![Seq::<char>::empty()] + inner);
                    assert(parts.deep_view() =~= parts_pre.push(cur_pre));
                    assert(split_state(parts_pre, cur_pre, rest) =~= split_state(
                        parts.deep_view(),
                        cur@,
                        inner,
                    ));
                }
                i = i + 3;
            } else {
                let c = t.get_char(i);
                strutil::push_char(&mut cur, c);
                proof {
                    let tail = t@.skip(i as int);
                    assert(tail[0] == t@[i as int]);
                    assert(tail.skip(1) =~= t@.skip(i + 1int));
                    let inner = spec_split_sep(t@.skip(i + 1int));
                    lemma_split_sep_nonempty(t@.skip(i + 1int));
                    if tail.len() < 3 {
                        // terminal part: the whole tail belongs to the
                        // current element
                        assert(rest == seq![tail]);
                        assert(inner == seq![tail.skip(1)]);
                        assert(cur_pre + tail =~= cur@ + tail.skip(1));
                        assert(split_state(parts_pre, cur_pre, rest) =~= split_state(
                            parts.deep_view(),
                            cur@,
                            inner,
                        ));
                    } else {
                        assert(rest == split_prepend(tail[0], inner));
                        assert(cur_pre + (seq![tail[0]] + inner[0]) =~= cur@ + inner[0]);
                        assert(split_state(parts_pre, cur_pre, rest) =~= split_state(
                            parts.deep_view(),
                            cur@,
                            inner,
                        ));
                    }
                }
                i = i + 1;
            }
        }
        proof {
            assert(t@.skip(n as int) =~= Seq::<char>::empty());
            let last = spec_split_sep(Seq::<char>::empty());
            assert(last == seq![Seq::<char>::empty()]);
            assert(split_state(parts.deep_view(), cur@, last) =~= parts.deep_view().push(cur@));
        }
        parts.push(cur);
        proof {
            assert(parts.deep_view() =~= spec_parse_string_array(value@));
        }
        parts
    }

    /// Trims a date-time literal for ClickHouse: drops fractional seconds
    /// (from the first `.`) and a timezone suffix (from the first `+`).
    pub fn format_date_time(source: &str) -> (r: String)
        ensures
            r@ == spec_format_date_time(source@),
    {
        let cut1: &str = match strutil::find_char_str(source, '.') {
            Some(i) => {
                proof {
                    strutil::lemma_find_char(source@, '.');
                }
                let c = source.substring_char(0, i);
                proof {
                    assert(c@ =~= source@.take(i as int));
                }
                c
            },
            None => source,
        };
        let cut2: &str = match strutil::find_char_str(cut1, '+') {
            Some(i) => {
                proof {
                    strutil::lemma_find_char(cut1@, '+');
                }
                let c = cut1.substring_char(0, i);
                proof {
                    assert(c@ =~= cut1@.take(i as int));
                }
                c
            },
            None => cut1,
        };
        String::from_str(cut2)
    }
}

impl IntoClickhouseValue for PgOutputValue {
    open spec fn spec_is_null(&self) -> bool {
        self@ matches SpecCell::Null
    }

    open spec fn spec_into_null(&self) -> Self {
        PgOutputValue::Null
    }

    open spec fn integer_text(&self) -> Seq<char> {
        cell_integer_text(self@)
    }

    open spec fn real_text(&self) -> Seq<char> {
        cell_real_text(self@)
    }

    open spec fn bool_text(&self) -> Seq<char> {
        cell_bool_text(self@)
    }

    open spec fn string_text(&self) -> Seq<char> {
        cell_string_text(self@)
    }

    open spec fn date_text(&self) -> Seq<char> {
        cell_date_text(self@)
    }

    open spec fn datetime_text(&self) -> Seq<char> {
        cell_datetime_text(self@)
    }

    open spec fn time_text(&self) -> Seq<char> {
        cell_time_text(self@)
    }

    open spec fn array_text(&self) -> Seq<char> {
        cell_array_text(self@)
    }

    open spec fn string_array_text(&self) -> Seq<char> {
        cell_string_array_text(self@)
    }

    open spec fn unknown_text(&self) -> Seq<char> {
        cell_unknown_text(self@)
    }

    fn to_integer(&self) -> (r: String) {
        String::from_str(self.text_ref_or("0"))
    }

    fn to_real(&self) -> (r: String) {
        String::from_str(self.text_ref_or("0.0"))
    }

    fn to_bool(&self) -> (r: String) {
        Self::parse_bool(self.text_ref_or("false"))
    }

    fn to_string(&self) -> (r: String) {
        let escaped = Self::escape_string(self.text_ref_or(""));
        let mut r = String::new();
        strutil::push_char(&mut r, '\'');
        r.append(escaped.as_str());
        strutil::push_char(&mut r, '\'');
        proof {
            reveal_strlit("");
            assert(""@ =~= Seq::<char>::empty());
            assert(r@ =~= self.string_text());
        }
        r
    }

    fn to_date(&self) -> (r: String) {
        let f = Self::format_date_time(self.text_ref_or("current_date()"));
        let mut r = String::new();
        r.append("toDate('");
        r.append(f.as_str());
        r.append("')");
        r
    }

    fn to_datetime(&self) -> (r: String) {
        let f = Self::format_date_time(self.text_ref_or("now()"));
        let mut r = String::new();
        r.append("toDateTime('");
        r.append(f.as_str());
        r.append("')");
        r
    }

    fn to_time(&self) -> (r: String) {
        let f = Self::format_date_time(self.text_ref_or("now()"));
        let mut r = String::new();
        r.append("toTime('");
        r.append(f.as_str());
        r.append("')");
        r
    }

    fn to_array(&self) -> (r: String) {
        let inner = match self.array_value() {
            Some(s) => s,
            None => String::new(),
        };
        let mut r = String::new();
        r.append("[");
        r.append(inner.as_str());
        r.append("]");
        r
    }

    fn to_string_array(&self) -> (r: String) {
        let inner = match self.array_value() {
            Some(s) => s,
            None => String::new(),
        };
        let parts = Self::parse_string_array(inner.as_str());
        let ghost spec_parts = spec_parse_string_array(inner@);
        let mut quoted: Vec<String> = Vec::new();
        let mut i: usize = 0;
        while i < parts.len()
            invariant
                i <= parts@.len(),
                parts.deep_view() == spec_parts,
                quoted.deep_view() == spec_quoted_parts(spec_parts.take(i as int)),
            decreases parts@.len() - i,
        {
            let escaped = Self::escape_string(parts[i].as_str());
            let mut q = String::new();
            strutil::push_char(&mut q, '\'');
            q.append(escaped.as_str());
            strutil::push_char(&mut q, '\'');
            proof {
                assert(q@ =~= spec_quote_escape(spec_parts[i as int]));
            }
            let ghost pre_view = quoted@;
            let ghost pre_deep = quoted.deep_view();
            quoted.push(q);
            proof {
                let post = spec_quoted_parts(spec_parts.take(i + 1int));
                assert(pre_deep.len() == pre_view.len());
                assert(pre_deep.len() == spec_quoted_parts(spec_parts.take(i as int)).len());
                assert(pre_view.len() == i);
                assert(quoted@ == pre_view.push(q));
                assert(quoted@.len() == i + 1);
                assert forall|j: int| 0 <= j < i + 1 implies quoted.deep_view()[j] == post[j] by {
                    assert(quoted.deep_view()[j] == quoted@[j].deep_view());
                    assert(post[j] == spec_quote_escape(spec_parts.take(i + 1int)[j]));
                    if j < i {
                        assert(quoted@[j] == pre_view[j]);
                        assert(pre_deep[j] == pre_view[j].deep_view());
                        assert(pre_deep[j] == spec_quote_escape(spec_parts.take(i as int)[j]));
                    } else {
                        assert(quoted@[j] == q);
                    }
                }
                assert(quoted.deep_view() =~= post);
            }
            i = i + 1;
        }
        proof {
            assert(spec_parts.take(parts@.len() as int) =~= spec_parts);
        }
        let joined = strutil::join_strings(&quoted, ", ");
        let mut r = String::new();
        r.append("[");
        r.append(joined.as_str());
        r.append("]");
        r
    }

    fn unknown_value(&self) -> (r: String) {
        String::from_str(self.text_ref_or("NULL"))
    }

    fn is_null(&self) -> (r: bool) {
        match self {
            PgOutputValue::Null => true,
            _ => false,
        }
    }

    fn into_null(self) -> (r: Self) {
        PgOutputValue::Null
    }
}

/// The integer literal a cell renders to.
pub open spec fn cell_integer_text(c: SpecCell) -> Seq<char> {
    spec_text_or(c, "0"@)
}

/// The float or decimal literal a cell renders to.
pub open spec fn cell_real_text(c: SpecCell) -> Seq<char> {
    spec_text_or(c, "0.0"@)
}

/// The boolean literal a cell renders to.
pub open spec fn cell_bool_text(c: SpecCell) -> Seq<char> {
    spec_parse_bool(spec_text_or(c, "false"@))
}

/// The quoted, escaped string literal a cell renders to.
pub open spec fn cell_string_text(c: SpecCell) -> Seq<char> {
    seq!['\''] + spec_escape_string(spec_text_or(c, Seq::empty())) + seq!['\'']
}

/// The `toDate(…)` literal a cell renders to.
pub open spec fn cell_date_text(c: SpecCell) -> Seq<char> {
    "toDate('"@ + spec_format_date_time(spec_text_or(c, "current_date()"@)) + "')"@
}

/// The `toDateTime(…)` literal a cell renders to.
pub open spec fn cell_datetime_text(c: SpecCell) -> Seq<char> {
    "toDateTime('"@ + spec_format_date_time(spec_text_or(c, "now()"@)) + "')"@
}

/// The `toTime(…)` literal a cell renders to.
pub open spec fn cell_time_text(c: SpecCell) -> Seq<char> {
    "toTime('"@ + spec_format_date_time(spec_text_or(c, "now()"@)) + "')"@
}

/// The bracketed array literal a cell renders to.
pub open spec fn cell_array_text(c: SpecCell) -> Seq<char> {
    "["@ + spec_array_text_inner(c) + "]"@
}

/// The bracketed string-array literal a cell renders to.
pub open spec fn cell_string_array_text(c: SpecCell) -> Seq<char> {
    "["@ + strutil::join_seqs(
        spec_quoted_parts(spec_parse_string_array(spec_array_text_inner(c))),
        ", "@,
    ) + "]"@
}

/// The fallback literal a cell renders to.
pub open spec fn cell_unknown_text(c: SpecCell) -> Seq<char> {
    spec_text_or(c, "NULL"@)
}

/// The SQL literal a cell image renders to under a destination column type:
/// the view-level mirror of the rendering dispatch.
pub open spec fn spec_render_cell(data_type: Seq<char>, c: SpecCell) -> Seq<char> {
    if (c matches SpecCell::Null) && strutil::spec_starts_with(data_type, "Nullable"@) {
        "NULL"@
    } else if data_type == "Int8"@ || data_type == "Int16"@ || data_type == "Int32"@ || data_type
        == "Int64"@ || data_type == "Nullable(Int8)"@ || data_type == "Nullable(Int16)"@
        || data_type == "Nullable(Int32)"@ || data_type == "Nullable(Int64)"@ {
        cell_integer_text(c)
    } else if data_type == "Float32"@ || data_type == "Float64"@ || data_type
        == "Nullable(Float32)"@ || data_type == "Nullable(Float64)"@ {
        cell_real_text(c)
    } else if data_type == "Bool"@ || data_type == "Nullable(Bool)"@ {
        cell_bool_text(c)
    } else if data_type == "String"@ || data_type == "Nullable(String)"@ {
        cell_string_text(c)
    } else if data_type == "Date"@ || data_type == "Date32"@ || data_type == "Nullable(Date)"@
        || data_type == "Nullable(Date32)"@ {
        cell_date_text(c)
    } else if data_type == "DateTime"@ || data_type == "DateTime64"@ || data_type
        == "Nullable(DateTime)"@ || data_type == "Nullable(DateTime64)"@ {
        cell_datetime_text(c)
    } else if data_type == "Time"@ || data_type == "Time64"@ || data_type == "Nullable(Time)"@
        || data_type == "Nullable(Time64)"@ {
        cell_time_text(c)
    } else if data_type == "Array(String)"@ {
        cell_string_array_text(c)
    } else if data_type == "Decimal"@ || data_type == "Nullable(Decimal)"@ {
        cell_real_text(c)
    } else if strutil::spec_starts_with(data_type, "Array"@) {
        cell_array_text(c)
    } else if strutil::spec_contains_seq(data_type, "DateTime"@) {
        cell_datetime_text(c)
    } else if strutil::spec_contains_seq(data_type, "Time"@) {
        cell_time_text(c)
    } else {
        cell_unknown_text(c)
    }
}

/// A cell renders by its image alone: the generic rendering of a Postgres
/// cell equals the view-level rendering of its image.
pub proof fn lemma_render_cell_view(data_type: Seq<char>, v: PgOutputValue)
    ensures
        spec_to_clickhouse_value(data_type, v) == spec_render_cell(data_type, v@),
{
}

/// An element single-quoted, with its quotes and backslashes doubled.
pub open spec fn spec_quote_escape(p: Seq<char>) -> Seq<char> {
    seq!['\''] + spec_escape_string(p) + seq!['\'']
}

/// Every element quoted and escaped.
pub open spec fn spec_quoted_parts(parts: Seq<Seq<char>>) -> Seq<Seq<char>> {
    parts.map_values(|p: Seq<char>| spec_quote_escape(p))
}

/// The text a cell contributes inside an array literal's brackets.
pub open spec fn spec_array_text_inner(c: SpecCell) -> Seq<char> {
    match c {
        SpecCell::Text(t) => spec_array_inner(t),
        _ => Seq::empty(),
    }
}

/// No character of the cut prefix is the cut character.
proof fn lemma_cut_at_free(s: Seq<char>, c: char)
    ensures
        forall|i: int| 0 <= i < spec_cut_at(s, c).len() ==> spec_cut_at(s, c)[i] != c,
{
    strutil::lemma_find_char(s, c);
}

/// Cutting at an absent character leaves the text unchanged.
proof fn lemma_cut_at_noop(s: Seq<char>, c: char)
    requires
        forall|i: int| 0 <= i < s.len() ==> s[i] != c,
    ensures
        spec_cut_at(s, c) == s,
{
    strutil::lemma_find_char(s, c);
}

/// Trimming a date-time literal is idempotent: a second pass changes
/// nothing, because the first already removed every `.` and `+`.
pub proof fn lemma_format_date_time_idempotent(s: Seq<char>)
    ensures
        spec_format_date_time(spec_format_date_time(s)) == spec_format_date_time(s),
{
    let f1 = spec_cut_at(s, '.');
    let f = spec_cut_at(f1, '+');
    lemma_cut_at_free(s, '.');
    lemma_cut_at_free(f1, '+');
    assert forall|i: int| 0 <= i < f.len() implies f[i] != '.' by {
        strutil::lemma_find_char(f1, '+');
    }
    lemma_cut_at_noop(f, '.');
    lemma_cut_at_noop(f, '+');
}

/// An unchanged-TOAST cell renders the destination column's default: `0`
/// for integers, `0.0` for floats and decimals, `FALSE` for booleans, the
/// empty string for strings.
pub proof fn lemma_unchanged_renders_default(data_type: Seq<char>)
    ensures
        (data_type == "Int8"@ || data_type == "Int16"@ || data_type == "Int32"@ || data_type
            == "Int64"@ || data_type == "Nullable(Int8)"@ || data_type == "Nullable(Int16)"@
            || data_type == "Nullable(Int32)"@ || data_type == "Nullable(Int64)"@)
            ==> spec_to_clickhouse_value(data_type, PgOutputValue::Unchanged) == "0"@,
        (data_type == "Float32"@ || data_type == "Float64"@ || data_type == "Nullable(Float32)"@
            || data_type == "Nullable(Float64)"@ || data_type == "Decimal"@ || data_type
            == "Nullable(Decimal)"@) ==> spec_to_clickhouse_value(
            data_type,
            PgOutputValue::Unchanged,
        ) == "0.0"@,
        (data_type == "Bool"@ || data_type == "Nullable(Bool)"@) ==> spec_to_clickhouse_value(
            data_type,
            PgOutputValue::Unchanged,
        ) == "FALSE"@,
        (data_type == "String"@ || data_type == "Nullable(String)"@) ==> spec_to_clickhouse_value(
            data_type,
            PgOutputValue::Unchanged,
        ) == "''"@,
        (data_type == "Date"@ || data_type == "Date32"@ || data_type == "Nullable(Date)"@
            || data_type == "Nullable(Date32)"@) ==> spec_to_clickhouse_value(
            data_type,
            PgOutputValue::Unchanged,
        ) == "toDate('current_date()')"@,
        (data_type == "DateTime"@ || data_type == "DateTime64"@ || data_type
            == "Nullable(DateTime)"@ || data_type == "Nullable(DateTime64)"@)
            ==> spec_to_clickhouse_value(data_type, PgOutputValue::Unchanged)
            == "toDateTime('now()')"@,
        (data_type == "Time"@ || data_type == "Time64"@ || data_type == "Nullable(Time)"@
            || data_type == "Nullable(Time64)"@) ==> spec_to_clickhouse_value(
            data_type,
            PgOutputValue::Unchanged,
        ) == "toTime('now()')"@,
        data_type == "Array(String)"@ ==> spec_to_clickhouse_value(
            data_type,
            PgOutputValue::Unchanged,
        ) == "['']"@,
{
    reveal_strlit("Int8");
    reveal_strlit("Int16");
    reveal_strlit("Int32");
    reveal_strlit("Int64");
    reveal_strlit("Nullable(Int8)");
    reveal_strlit("Nullable(Int16)");
    reveal_strlit("Nullable(Int32)");
    reveal_strlit("Nullable(Int64)");
    reveal_strlit("Float32");
    reveal_strlit("Float64");
    reveal_strlit("Nullable(Float32)");
    reveal_strlit("Nullable(Float64)");
    reveal_strlit("Bool");
    reveal_strlit("Nullable(Bool)");
    reveal_strlit("String");
    reveal_strlit("Nullable(String)");
    reveal_strlit("Date");
    reveal_strlit("Date32");
    reveal_strlit("Nullable(Date)");
    reveal_strlit("Nullable(Date32)");
    reveal_strlit("DateTime");
    reveal_strlit("DateTime64");
    reveal_strlit("Nullable(DateTime)");
    reveal_strlit("Nullable(DateTime64)");
    reveal_strlit("Decimal");
    reveal_strlit("Nullable(Decimal)");
    let u = PgOutputValue::Unchanged;
    assert(!u.spec_is_null());
    broadcast use vstd::string::group_string_axioms;

    reveal_strlit("Time");
    reveal_strlit("Time64");
    reveal_strlit("Nullable(Time)");
    reveal_strlit("Nullable(Time64)");
    reveal_strlit("Array(String)");
    assert("Int8"@.len() == 4 && "Int16"@.len() == 5 && "Int32"@.len() == 5 && "Int64"@.len()
        == 5);
    assert("Nullable(Int8)"@.len() == 14 && "Nullable(Int16)"@.len() == 15
        && "Nullable(Int32)"@.len() == 15 && "Nullable(Int64)"@.len() == 15);
    assert("Float32"@.len() == 7 && "Float64"@.len() == 7 && "Nullable(Float32)"@.len() == 17
        && "Nullable(Float64)"@.len() == 17);
    assert("Bool"@.len() == 4 && "Nullable(Bool)"@.len() == 14);
    assert("String"@.len() == 6 && "Nullable(String)"@.len() == 16);
    assert("Date"@.len() == 4 && "Date32"@.len() == 6 && "Nullable(Date)"@.len() == 14
        && "Nullable(Date32)"@.len() == 16);
    assert("DateTime"@.len() == 8 && "DateTime64"@.len() == 10 && "Nullable(DateTime)"@.len()
        == 18 && "Nullable(DateTime64)"@.len() == 20);
    assert("Time"@.len() == 4 && "Time64"@.len() == 6 && "Nullable(Time)"@.len() == 14
        && "Nullable(Time64)"@.len() == 16);
    assert("Array(String)"@.len() == 13);
    assert("Decimal"@.len() == 7 && "Nullable(Decimal)"@.len() == 17);
    assert("Bool"@[0] == 'B' && "Int8"@[0] == 'I');
    assert("Nullable(Bool)"@[9] == 'B' && "Nullable(Int8)"@[9] == 'I');
    assert("Decimal"@[0] == 'D' && "Float32"@[0] == 'F' && "Float64"@[0] == 'F');
    assert("Date"@[0] == 'D' && "Date32"@[0] == 'D' && "Time"@[0] == 'T' && "Time64"@[0] == 'T'
        && "String"@[0] == 'S');
    assert("Nullable(Date)"@[9] == 'D' && "Nullable(Date32)"@[9] == 'D' && "Nullable(Time)"@[9]
        == 'T' && "Nullable(Time64)"@[9] == 'T' && "Nullable(String)"@[9] == 'S');
    assert(u.bool_text() == "FALSE"@) by {
        reveal_strlit("false");
        reveal_strlit("t");
        reveal_strlit("1");
        reveal_strlit("true");
        let lowered = spec_lower("false"@);
        assert(lowered.len() == 5);
        assert(lowered != "t"@ && lowered != "1"@ && lowered != "true"@);
    }
    assert(u.string_text() == "''"@) by {
        reveal_strlit("''");
        assert(spec_escape_string(Seq::<char>::empty()) =~= Seq::<char>::empty());
        assert(seq!['\''] + Seq::<char>::empty() + seq!['\''] =~= "''"@);
    }
    assert(u.date_text() == "toDate('current_date()')"@) by {
        reveal_strlit("current_date()");
        reveal_strlit("toDate('");
        reveal_strlit("')");
        reveal_strlit("toDate('current_date()')");
        let inner = "current_date()"@;
        assert(inner.len() == 14);
        assert forall|i: int| 0 <= i < inner.len() implies inner[i] != '.' && inner[i] != '+' by {}
        lemma_cut_at_noop(inner, '.');
        lemma_cut_at_noop(inner, '+');
        assert(spec_format_date_time(inner) == inner);
        assert("toDate('"@ + inner + "')"@ =~= "toDate('current_date()')"@);
    }
    assert(u.datetime_text() == "toDateTime('now()')"@ && u.time_text() == "toTime('now()')"@) by {
        reveal_strlit("now()");
        reveal_strlit("toDateTime('");
        reveal_strlit("toTime('");
        reveal_strlit("')");
        reveal_strlit("toDateTime('now()')");
        reveal_strlit("toTime('now()')");
        let inner = "now()"@;
        assert(inner.len() == 5);
        assert forall|i: int| 0 <= i < inner.len() implies inner[i] != '.' && inner[i] != '+' by {}
        lemma_cut_at_noop(inner, '.');
        lemma_cut_at_noop(inner, '+');
        assert(spec_format_date_time(inner) == inner);
        assert("toDateTime('"@ + inner + "')"@ =~= "toDateTime('now()')"@);
        assert("toTime('"@ + inner + "')"@ =~= "toTime('now()')"@);
    }
    assert(u.string_array_text() == "['']"@) by {
        reveal_strlit("['']");
        reveal_strlit("[");
        reveal_strlit("]");
        let inner = spec_array_text_inner(u@);
        assert(inner =~= Seq::<char>::empty());
        assert(spec_trim_start_brace(inner) == inner);
        assert(spec_trim_end_brace(inner) == inner);
        assert(spec_trim_start_quote(inner) == inner);
        assert(spec_trim_end_quote(inner) == inner);
        let parts = spec_parse_string_array(inner);
        assert(parts == seq![Seq::<char>::empty()]);
        assert(spec_escape_string(Seq::<char>::empty()) =~= Seq::<char>::empty());
        assert(spec_quote_escape(Seq::<char>::empty()) =~= seq!['\'', '\'']);
        let quoted = spec_quoted_parts(parts);
        assert(quoted =~= seq![seq!['\'', '\'']]);
        assert(strutil::join_seqs(quoted, ", "@) == seq!['\'', '\'']);
        assert("["@ + seq!['\'', '\''] + "]"@ =~= "['']"@);
    }
}

/// The state of a split in progress: finished parts, the part being built,
/// and the split of the remaining text, whose first part continues the
/// current one.
pub open spec fn split_state(
    parts: Seq<Seq<char>>,
    cur: Seq<char>,
    rest: Seq<Seq<char>>,
) -> Seq<Seq<char>> {
    parts + seq![cur + rest[0]] + rest.skip(1)
}

/// Strips leading braces.
fn trim_start_brace(s: &str) -> (r: &str)
    ensures
        r@ == spec_trim_start_brace(s@),
    decreases s@.len(),
{
    let n = s.unicode_len();
    if n > 0 {
        let c = s.get_char(0);
        if c == '{' || c == '}' {
            let rest = s.substring_char(1, n);
            proof {
                assert(rest@ =~= s@.skip(1));
            }
            return trim_start_brace(rest);
        }
    }
    s
}

/// Strips trailing braces.
fn trim_end_brace(s: &str) -> (r: &str)
    ensures
        r@ == spec_trim_end_brace(s@),
    decreases s@.len(),
{
    let n = s.unicode_len();
    if n > 0 {
        let c = s.get_char(n - 1);
        if c == '{' || c == '}' {
            let rest = s.substring_char(0, n - 1);
            proof {
                assert(rest@ =~= s@.drop_last());
            }
            return trim_end_brace(rest);
        }
    }
    s
}

/// Strips leading double quotes.
fn trim_start_quote(s: &str) -> (r: &str)
    ensures
        r@ == spec_trim_start_quote(s@),
    decreases s@.len(),
{
    let n = s.unicode_len();
    if n > 0 {
        let c = s.get_char(0);
        if c == '"' {
            let rest = s.substring_char(1, n);
            proof {
                assert(rest@ =~= s@.skip(1));
            }
            return trim_start_quote(rest);
        }
    }
    s
}

/// Strips trailing double quotes.
fn trim_end_quote(s: &str) -> (r: &str)
    ensures
        r@ == spec_trim_end_quote(s@),
    decreases s@.len(),
{
    let n = s.unicode_len();
    if n > 0 {
        let c = s.get_char(n - 1);
        if c == '"' {
            let rest = s.substring_char(0, n - 1);
            proof {
                assert(rest@ =~= s@.drop_last());
            }
            return trim_end_quote(rest);
        }
    }
    s
}

} // verus!
