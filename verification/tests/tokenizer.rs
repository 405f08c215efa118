use base64::Engine;
use url_shortener::object_id::ObjectId;
use url_shortener::tokenizer::{generate_token, parse_decoded_token, parse_token, produce_hash};

fn sample_id() -> ObjectId {
    ObjectId::from_bytes([0x65, 0x4f, 0x1a, 0x2b, 0x3c, 0x4d, 0x5e, 0x6f, 0x70, 0x81, 0x92, 0xa3])
}

#[test]
fn hash_is_decimal_xxh3_of_id_and_time() {
    let id = sample_id();
    let expected = xxhash_rust::xxh3::xxh3_64(b"654f1a2b3c4d5e6f708192a3:1700000000").to_string();
    assert_eq!(produce_hash(&id, 1700000000), expected);
    let negative = xxhash_rust::xxh3::xxh3_64(b"654f1a2b3c4d5e6f708192a3:-5").to_string();
    assert_eq!(produce_hash(&id, -5), negative);
}

#[test]
fn hash_depends_on_time_and_id() {
    let id = sample_id();
    assert_ne!(produce_hash(&id, 1), produce_hash(&id, 2));
    let other = ObjectId::from_bytes([0; 12]);
    assert_ne!(produce_hash(&id, 1), produce_hash(&other, 1));
    assert_eq!(produce_hash(&id, 1), produce_hash(&id, 1));
}

#[test]
fn token_is_base64_of_id_and_hash() {
    let id = sample_id();
    let hash = produce_hash(&id, 1700000000);
    let raw = format!("654f1a2b3c4d5e6f708192a3:{}", hash);
    let expected = base64::prelude::BASE64_URL_SAFE_NO_PAD.encode(raw);
    let token = generate_token(id, 1700000000);
    assert_eq!(token, expected);
    assert!(!token.contains('='));
    assert!(!token.contains('+'));
    assert!(!token.contains('/'));
}

#[test]
fn generated_token_parses_back() {
    let id = sample_id();
    for t in [0i64, 1700000000, -1, i64::MIN, i64::MAX] {
        let token = generate_token(id, t);
        let parsed = parse_token(token).ok().unwrap();
        assert_eq!(parsed.db_id, "654f1a2b3c4d5e6f708192a3");
        assert_eq!(parsed.hash, produce_hash(&id, t));
    }
}

#[test]
fn parses_a_known_token() {
    let parsed = parse_token("YWJjOmRlZg".to_string()).ok().unwrap();
    assert_eq!(parsed.db_id, "abc");
    assert_eq!(parsed.hash, "def");
}

#[test]
fn refuses_a_token_that_is_not_base64() {
    assert_eq!(parse_token("!!!".to_string()).err().unwrap(), "could not decode token");
    assert_eq!(parse_token("YWJjOmRlZg==".to_string()).err().unwrap(), "could not decode token");
}

#[test]
fn refuses_a_token_that_is_not_utf8() {
    assert_eq!(
        parse_token("_w".to_string()).err().unwrap(),
        "could not convert token bytes to string"
    );
}

#[test]
fn refuses_a_token_without_exactly_one_colon() {
    assert_eq!(parse_token("YWJj".to_string()).err().unwrap(), "token has incorrect format");
    assert_eq!(parse_token("YTpiOmM".to_string()).err().unwrap(), "token has incorrect format");
    assert_eq!(parse_token(String::new()).err().unwrap(), "token has incorrect format");
}

#[test]
fn token_is_one_url_safe_path_segment() {
    for t in [0i64, 7, 1700000000, -1, i64::MIN, i64::MAX] {
        let token = generate_token(sample_id(), t);
        assert!(token.chars().all(|c| c.is_ascii_alphanumeric() || c == '-' || c == '_'));
        assert!(35 <= token.len() && token.len() <= 60);
    }
    let raw_len = 25 + produce_hash(&sample_id(), 0).len();
    assert_eq!(generate_token(sample_id(), 0).len(), (4 * raw_len + 2) / 3);
}

#[test]
fn refuses_a_non_canonical_token() {
    // Same bytes as "YWJjOmRlZg", but with trailing bits set in the last symbol.
    assert_eq!(parse_token("YWJjOmRlZh".to_string()).err().unwrap(), "could not decode token");
}

#[test]
fn reads_fields_of_decoded_bytes() {
    let parsed = parse_decoded_token(b"abc:def".to_vec()).ok().unwrap();
    assert_eq!(parsed.db_id, "abc");
    assert_eq!(parsed.hash, "def");
    let empty = parse_decoded_token(b":".to_vec()).ok().unwrap();
    assert_eq!(empty.db_id, "");
    assert_eq!(empty.hash, "");
    assert_eq!(
        parse_decoded_token(vec![0xff, b':']).err().unwrap(),
        "could not convert token bytes to string"
    );
    assert_eq!(parse_decoded_token(b"a:b:c".to_vec()).err().unwrap(), "token has incorrect format");
    assert_eq!(parse_decoded_token(Vec::new()).err().unwrap(), "token has incorrect format");
}
