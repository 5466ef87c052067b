use clockpipe::adapter::IntoClickhouseValue;
use clockpipe::pgoutput::{parse_pg_output, MessageType, PgOutputValue, PgTupleType};

#[test]
fn test_parse_string_array() {
    struct TestCase {
        input: &'static str,
        expected: Vec<String>,
    }

    let test_cases = vec![
        TestCase {
            input: "{\"Flower design\",\"Pearl embellishments\",\"Stud earrings\",\"Gold accents\",\"Pearl accents\",\"Diamond accents\"}",
            expected: vec![
                "Flower design".to_string(),
                "Pearl embellishments".to_string(),
                "Stud earrings".to_string(),
                "Gold accents".to_string(),
                "Pearl accents".to_string(),
                "Diamond accents".to_string(),
            ],
        },
        TestCase {
            input: "{\"Button closure\",\"White stripes on collar, cuffs, and hem\"}",
            expected: vec![
                "Button closure".to_string(),
                "White stripes on collar, cuffs, and hem".to_string(),
            ],
        },
    ];

    for test_case in test_cases {
        let result = PgOutputValue::parse_string_array(test_case.input);
        assert_eq!(
            result, test_case.expected,
            "Failed for input: {}",
            test_case.input
        );
    }
}

#[test]
fn test_format_date_time() {
    struct TestCase {
        input: &'static str,
        expected: &'static str,
    }

    let test_cases = vec![
        TestCase {
            input: "2025-08-18 05:16:08.490845+00",
            expected: "2025-08-18 05:16:08",
        },
        TestCase {
            input: "2025-08-18 05:16:08.860455",
            expected: "2025-08-18 05:16:08",
        },
        TestCase {
            input: "2025-08-17 22:00:00+00",
            expected: "2025-08-17 22:00:00",
        },
    ];

    for test_case in test_cases {
        let result = PgOutputValue::format_date_time(test_case.input);
        assert_eq!(
            result, test_case.expected,
            "Failed for input: {}",
            test_case.input
        );
    }
}

#[test]
fn format_date_time_is_idempotent() {
    let once = PgOutputValue::format_date_time("2025-08-18 05:16:08.490845+00");
    let twice = PgOutputValue::format_date_time(once.as_str());
    assert_eq!(once, "2025-08-18 05:16:08");
    assert_eq!(twice, once);
}

#[test]
fn parse_string_array_empty_literal() {
    // The empty array literal yields one empty element.
    let result = PgOutputValue::parse_string_array("{}");
    assert_eq!(result, vec!["".to_string()]);
}

/// A wire tuple: column count, then each cell.
fn tuple_bytes(cells: &[Option<&str>]) -> Vec<u8> {
    let mut out = Vec::new();
    out.extend_from_slice(&(cells.len() as u16).to_be_bytes());
    for cell in cells {
        match cell {
            None => out.push(b'n'),
            Some(text) => {
                out.push(b't');
                out.extend_from_slice(&(text.len() as u32).to_be_bytes());
                out.extend_from_slice(text.as_bytes());
            }
        }
    }
    out
}

fn insert_message(relation_id: u32, cells: &[Option<&str>]) -> Vec<u8> {
    let mut out = vec![b'I'];
    out.extend_from_slice(&relation_id.to_be_bytes());
    out.push(b'N');
    out.extend_from_slice(&tuple_bytes(cells));
    out
}

fn update_message(relation_id: u32, cells: &[Option<&str>]) -> Vec<u8> {
    let mut out = vec![b'U'];
    out.extend_from_slice(&relation_id.to_be_bytes());
    out.push(b'N');
    out.extend_from_slice(&tuple_bytes(cells));
    out
}

fn update_message_with_old_key(
    relation_id: u32,
    old_cells: &[Option<&str>],
    new_cells: &[Option<&str>],
) -> Vec<u8> {
    let mut out = vec![b'U'];
    out.extend_from_slice(&relation_id.to_be_bytes());
    out.push(b'K');
    out.extend_from_slice(&tuple_bytes(old_cells));
    out.push(b'N');
    out.extend_from_slice(&tuple_bytes(new_cells));
    out
}

fn delete_message(relation_id: u32, cells: &[Option<&str>]) -> Vec<u8> {
    let mut out = vec![b'D'];
    out.extend_from_slice(&relation_id.to_be_bytes());
    out.push(b'K');
    out.extend_from_slice(&tuple_bytes(cells));
    out
}

fn truncate_message(relation_id: u32) -> Vec<u8> {
    let mut out = vec![b'T'];
    out.extend_from_slice(&relation_id.to_be_bytes());
    out.push(0);
    out
}

fn cell_text(cell: &PgOutputValue) -> Option<String> {
    match cell {
        PgOutputValue::Text(s) => Some(s.clone()),
        _ => None,
    }
}

#[test]
fn parse_insert_message() {
    let bytes = insert_message(77, &[Some("1"), Some("a")]);
    let parsed = parse_pg_output(&bytes).unwrap().unwrap();
    assert!(matches!(parsed.message_type, MessageType::Insert));
    assert_eq!(parsed.relation_id, 77);
    assert!(matches!(parsed.tuple_type, Some(PgTupleType::New)));
    assert_eq!(parsed.payload.len(), 2);
    assert_eq!(cell_text(&parsed.payload[0]).unwrap(), "1");
    assert_eq!(cell_text(&parsed.payload[1]).unwrap(), "a");
}

#[test]
fn parse_update_surfaces_new_tuple() {
    let bytes = update_message_with_old_key(9, &[Some("1")], &[Some("1"), Some("b")]);
    let parsed = parse_pg_output(&bytes).unwrap().unwrap();
    assert!(matches!(parsed.message_type, MessageType::Update));
    assert_eq!(parsed.payload.len(), 2);
    assert_eq!(cell_text(&parsed.payload[1]).unwrap(), "b");
}

#[test]
fn parse_delete_message() {
    let bytes = delete_message(9, &[Some("1")]);
    let parsed = parse_pg_output(&bytes).unwrap().unwrap();
    assert!(matches!(parsed.message_type, MessageType::Delete));
    assert!(matches!(parsed.tuple_type, Some(PgTupleType::Key)));
    assert_eq!(parsed.payload.len(), 1);
}

#[test]
fn parse_truncate_message() {
    let bytes = truncate_message(12);
    let parsed = parse_pg_output(&bytes).unwrap().unwrap();
    assert!(matches!(parsed.message_type, MessageType::Truncate));
    assert_eq!(parsed.relation_id, 12);
    assert!(parsed.payload.is_empty());
}

#[test]
fn parse_null_and_unchanged_cells() {
    let mut bytes = vec![b'I'];
    bytes.extend_from_slice(&3u32.to_be_bytes());
    bytes.push(b'N');
    bytes.extend_from_slice(&2u16.to_be_bytes());
    bytes.push(b'n');
    bytes.push(b'u');
    let parsed = parse_pg_output(&bytes).unwrap().unwrap();
    assert!(matches!(parsed.payload[0], PgOutputValue::Null));
    assert!(matches!(parsed.payload[1], PgOutputValue::Unchanged));
}

#[test]
fn parse_skips_housekeeping_messages() {
    for tag in [b'B', b'C', b'O', b'R', b'Y'] {
        let bytes = vec![tag, 0, 0, 0, 1];
        assert!(parse_pg_output(&bytes).unwrap().is_none());
    }
}

#[test]
fn parse_is_deterministic() {
    // The same bytes decode to the same record, byte for byte.
    let bytes = insert_message(5, &[Some("x"), None, Some("y")]);
    let a = parse_pg_output(&bytes).unwrap().unwrap();
    let b = parse_pg_output(&bytes).unwrap().unwrap();
    assert_eq!(format!("{a:?}"), format!("{b:?}"));
}

#[test]
fn parse_rejects_empty_input() {
    assert!(parse_pg_output(&[]).is_err());
}

#[test]
fn parse_rejects_unknown_tag() {
    assert!(parse_pg_output(&[b'Z', 0, 0, 0, 1, 0]).is_err());
}

#[test]
fn parse_rejects_unknown_cell_kind() {
    let mut bytes = vec![b'I'];
    bytes.extend_from_slice(&3u32.to_be_bytes());
    bytes.push(b'N');
    bytes.extend_from_slice(&1u16.to_be_bytes());
    bytes.push(b'x');
    assert!(parse_pg_output(&bytes).is_err());
}

#[test]
fn parse_rejects_invalid_utf8() {
    let mut bytes = vec![b'I'];
    bytes.extend_from_slice(&3u32.to_be_bytes());
    bytes.push(b'N');
    bytes.extend_from_slice(&1u16.to_be_bytes());
    bytes.push(b't');
    bytes.extend_from_slice(&2u32.to_be_bytes());
    bytes.extend_from_slice(&[0xff, 0xfe]);
    let result = parse_pg_output(&bytes);
    assert!(result.is_err());
}

#[test]
fn parse_rejects_truncated_tuple() {
    let mut bytes = vec![b'I'];
    bytes.extend_from_slice(&3u32.to_be_bytes());
    bytes.push(b'N');
    bytes.extend_from_slice(&2u16.to_be_bytes());
    bytes.push(b'n');
    // second cell missing
    assert!(parse_pg_output(&bytes).is_err());
}

#[test]
fn message_type_try_from_accepts_known_tags() {
    assert!(matches!(MessageType::try_from(b'I'), Ok(MessageType::Insert)));
    assert!(matches!(MessageType::try_from(b'T'), Ok(MessageType::Truncate)));
    assert!(MessageType::try_from(b'Q').is_err());
    assert!(matches!(PgTupleType::try_from(b'K'), Ok(PgTupleType::Key)));
    assert!(PgTupleType::try_from(b'z').is_err());
}

#[test]
fn parse_bool_recognizes_truthy_text() {
    assert_eq!(PgOutputValue::parse_bool("t"), "TRUE");
    assert_eq!(PgOutputValue::parse_bool("TRUE"), "TRUE");
    assert_eq!(PgOutputValue::parse_bool("1"), "TRUE");
    assert_eq!(PgOutputValue::parse_bool("f"), "FALSE");
    assert_eq!(PgOutputValue::parse_bool("0"), "FALSE");
    assert_eq!(PgOutputValue::parse_bool("false"), "FALSE");
    assert_eq!(PgOutputValue::parse_bool("maybe"), "FALSE");
}

#[test]
fn escape_string_doubles_quotes_and_backslashes() {
    assert_eq!(PgOutputValue::escape_string("o'clock"), "o''clock");
    assert_eq!(PgOutputValue::escape_string("a\\b"), "a\\\\b");
}

#[test]
fn timezone_trimming_renders_datetime() {
    // An upstream timestamptz value loses fractional seconds and zone.
    let cell = PgOutputValue::Text("2025-08-18 05:16:08.490845+00".to_string());
    assert_eq!(cell.to_datetime(), "toDateTime('2025-08-18 05:16:08')");
}

#[test]
fn unchanged_toast_cell_renders_defaults() {
    let u = PgOutputValue::Unchanged;
    assert_eq!(u.to_integer(), "0");
    assert_eq!(u.to_real(), "0.0");
    assert_eq!(u.to_bool(), "FALSE");
    assert_eq!(u.to_string(), "''");
}

#[test]
fn string_array_renders_quoted_elements() {
    let cell = PgOutputValue::Text("{\"a,b\",\"c\"}".to_string());
    assert_eq!(cell.to_string_array(), "['a,b', 'c']");
}

#[test]
fn array_value_strips_braces() {
    let cell = PgOutputValue::Text("{1,2,3}".to_string());
    assert_eq!(cell.to_array(), "[1,2,3]");
}
