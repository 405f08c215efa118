use url_shortener::object_id::ObjectId;
use url_shortener::text::{format_i64, format_u64, push_decimal, push_decimal_i64, split_at_char};

#[test]
fn formats_unsigned_numbers() {
    assert_eq!(format_u64(0), "0");
    assert_eq!(format_u64(7), "7");
    assert_eq!(format_u64(1204), "1204");
    assert_eq!(format_u64(u64::MAX), "18446744073709551615");
}

#[test]
fn formats_signed_numbers() {
    assert_eq!(format_i64(0), "0");
    assert_eq!(format_i64(-7), "-7");
    assert_eq!(format_i64(1700000000), "1700000000");
    assert_eq!(format_i64(i64::MIN), "-9223372036854775808");
    assert_eq!(format_i64(i64::MAX), "9223372036854775807");
}

#[test]
fn appends_digits_after_existing_text() {
    let mut s = String::from("id:");
    push_decimal(&mut s, 305);
    assert_eq!(s, "id:305");
    let mut t = String::from("t=");
    push_decimal_i64(&mut t, -40);
    assert_eq!(t, "t=-40");
}

#[test]
fn splits_like_str_split() {
    for text in ["a:b", "", ":", "a::b", "abc", ":x:", "é:ü"] {
        let expected: Vec<String> = text.split(':').map(|p| p.to_string()).collect();
        assert_eq!(split_at_char(text, ':'), expected);
    }
    assert_eq!(split_at_char("a::b", ':'), vec!["a", "", "b"]);
}

#[test]
fn object_id_hex_is_lower_case_and_parses_back() {
    let id = ObjectId::from_bytes([0x00, 0x01, 0xab, 0xcd, 0xef, 0x10, 0x20, 0x30, 0x40, 0x50, 0x60, 0xff]);
    let hex = id.to_hex();
    assert_eq!(hex, "0001abcdef102030405060ff");
    assert_eq!(ObjectId::parse_str(&hex), Some(id));
}

#[test]
fn object_id_parse_accepts_upper_case() {
    let id = ObjectId::parse_str("0001ABCDEF102030405060FF").unwrap();
    assert_eq!(id.bytes, [0x00, 0x01, 0xab, 0xcd, 0xef, 0x10, 0x20, 0x30, 0x40, 0x50, 0x60, 0xff]);
}

#[test]
fn object_id_parse_refuses_other_strings() {
    assert_eq!(ObjectId::parse_str(""), None);
    assert_eq!(ObjectId::parse_str("0001abcdef102030405060f"), None);
    assert_eq!(ObjectId::parse_str("0001abcdef102030405060ff00"), None);
    assert_eq!(ObjectId::parse_str("0001abcdef102030405060fg"), None);
    assert_eq!(ObjectId::parse_str("abc"), None);
}

#[test]
fn generated_object_ids_differ() {
    let a = ObjectId::generate();
    let b = ObjectId::generate();
    assert_ne!(a, b);
    assert_eq!(a.to_hex().len(), 24);
}
