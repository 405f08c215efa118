//! Tracking tokens. A token is the URL-safe base64 form (no padding) of
//! "<record id in hex>:<hash>", where the hash is the decimal xxh3-64 digest
//! of "<record id in hex>:<creation time>". A token thus names a record and
//! can only be checked against that record's creation time.

use vstd::prelude::*;
use vstd::string::*;
use vstd::utf8::*;

use crate::object_id::{
    hex_lower, is_hex_char, is_lower_hex_char, lemma_hex_has_no_colon, lemma_hex_round_trip,
    object_id_from_hex, ObjectId,
};
use crate::text::{
    decimal, decimal_int, digits_value, format_u64, is_decimal_numeral, is_signed_numeral_of,
    lemma_decimal_int_numeral, lemma_decimal_numeral, lemma_decimal_digits, lemma_decimal_len_u64, lemma_split_pair,
    lemma_split_two_rejoin,
    push_decimal_i64, split_at_char, split_on,
};

verus! {

/// What `xxhash_rust::xxh3::xxh3_64` returns for the bytes.
pub uninterp spec fn xxh3_64_of(data: Seq<u8>) -> u64;

/// What `BASE64_URL_SAFE_NO_PAD.encode` returns for the bytes.
pub uninterp spec fn base64_url_encoding(data: Seq<u8>) -> Seq<char>;

/// What `BASE64_URL_SAFE_NO_PAD.decode` returns for the bytes: `None` where
/// it returns an error.
pub uninterp spec fn base64_url_decoding(text: Seq<u8>) -> Option<Seq<u8>>;

/// A character of the URL-safe base64 alphabet: `A-Z a-z 0-9 - _`.
pub open spec fn is_base64_url_char(c: char) -> bool {
    ('A' <= c <= 'Z') || ('a' <= c <= 'z') || ('0' <= c <= '9') || c == '-' || c == '_'
}

/// The length of the unpadded base64 text of `n` bytes: four characters per
/// three bytes, and two or three for a last group of one or two bytes.
pub open spec fn base64_unpadded_len(n: nat) -> nat {
    (n / 3) * 4 + if n % 3 == 0 {
        0nat
    } else if n % 3 == 1 {
        2nat
    } else {
        3nat
    }
}

/// `xxhash_rust::xxh3::xxh3_64`: the seedless 64-bit XXH3 digest of the
/// bytes, a function of the bytes alone.
#[verifier::external_body]
fn xxh3_64(data: &[u8]) -> (hash: u64)
    ensures
        hash == xxh3_64_of(data@),
{
    xxhash_rust::xxh3::xxh3_64(data)
}

/// `base64::Engine::encode` on `BASE64_URL_SAFE_NO_PAD` (URL-safe alphabet,
/// no padding). The contract names the text, states its alphabet (the
/// `URL_SAFE` alphabet) and its length (`encoded_len` without padding), and
/// that the same engine's `decode` gives back the input bytes from that
/// text's bytes. Inputs whose encoded length overflows `usize` make `encode`
/// panic; the bound keeps them out.
#[verifier::external_body]
fn base64_url_encode(data: &[u8]) -> (text: String)
    requires
        data@.len() <= usize::MAX / 2,
    ensures
        text@ == base64_url_encoding(data@),
        text@.len() == base64_unpadded_len(data@.len()),
        forall|i: int| 0 <= i < text@.len() ==> is_base64_url_char(#[trigger] text@[i]),
        base64_url_decoding(encode_utf8(text@)) == Some(data@),
{
    base64::Engine::encode(&base64::prelude::BASE64_URL_SAFE_NO_PAD, data)
}

/// `base64::Engine::decode` on `BASE64_URL_SAFE_NO_PAD`; the error kind is
/// not kept. The engine refuses padding, stray trailing bits and any byte
/// outside the alphabet, so what it accepts is exactly the canonical
/// encoding of what it returns.
#[verifier::external_body]
fn base64_url_decode(text: &[u8]) -> (data: Option<Vec<u8>>)
    ensures
        match data {
            Some(d) => base64_url_decoding(text@) == Some(d@),
            None => base64_url_decoding(text@) is None,
        },
        data matches Some(d) ==> text@ == encode_utf8(base64_url_encoding(d@)),
{
    match base64::Engine::decode(&base64::prelude::BASE64_URL_SAFE_NO_PAD, text) {
        Ok(d) => Some(d),
        Err(_) => None,
    }
}

/// `String::from_utf8`: the text that valid UTF-8 bytes encode, and an error
/// for any other bytes (whose kind is not kept).
#[verifier::external_body]
fn string_from_utf8(bytes: Vec<u8>) -> (text: Option<String>)
    ensures
        match text {
            Some(t) => valid_utf8(bytes@) && t@ == decode_utf8(bytes@),
            None => !valid_utf8(bytes@),
        },
{
    match String::from_utf8(bytes) {
        Ok(t) => Some(t),
        Err(_) => None,
    }
}

/// The two fields of a decoded token.
pub struct Token {
    pub db_id: String,
    pub hash: String,
}

/// Why a token was refused.
#[derive(Clone, Copy, Debug, PartialEq, Eq)]
pub enum TokenError {
    /// The token is not URL-safe base64 without padding.
    Decode,
    /// The decoded bytes are not UTF-8.
    Utf8,
    /// The decoded text does not hold exactly one ':'.
    Format,
}

/// The message that `parse_token` returns for each refusal.
pub open spec fn token_error_message(e: TokenError) -> Seq<char> {
    match e {
        TokenError::Decode => "could not decode token"@,
        TokenError::Utf8 => "could not convert token bytes to string"@,
        TokenError::Format => "token has incorrect format"@,
    }
}

/// The text that is hashed for a record: "<id in hex>:<creation time>".
pub open spec fn hash_input(db_id: Seq<u8>, date_created: int) -> Seq<char> {
    hex_lower(db_id) + seq![':'] + decimal_int(date_created)
}

/// The hash of a record: decimal xxh3-64 of the UTF-8 bytes of `hash_input`.
pub open spec fn record_hash(db_id: Seq<u8>, date_created: int) -> Seq<char> {
    decimal(xxh3_64_of(encode_utf8(hash_input(db_id, date_created))) as nat)
}

/// The text inside a token: "<id in hex>:<hash>".
pub open spec fn raw_token(db_id: Seq<u8>, date_created: int) -> Seq<char> {
    hex_lower(db_id) + seq![':'] + record_hash(db_id, date_created)
}

/// The token of a record.
pub open spec fn record_token(db_id: Seq<u8>, date_created: int) -> Seq<char> {
    base64_url_encoding(encode_utf8(raw_token(db_id, date_created)))
}

/// What the decoded bytes of a token hold: the text before and after their
/// one ':', or the first check that refuses them.
pub open spec fn decoded_token_fields(bytes: Seq<u8>) -> Result<(Seq<char>, Seq<char>), TokenError> {
    if !valid_utf8(bytes) {
        Err(TokenError::Utf8)
    } else {
        let pieces = split_on(decode_utf8(bytes), ':');
        if pieces.len() != 2 {
            Err(TokenError::Format)
        } else {
            Ok((pieces[0], pieces[1]))
        }
    }
}

/// What `parse_token` makes of a token: the fields of its decoded bytes, or
/// a refusal when it does not decode.
pub open spec fn token_fields(token: Seq<char>) -> Result<(Seq<char>, Seq<char>), TokenError> {
    match base64_url_decoding(encode_utf8(token)) {
        None => Err(TokenError::Decode),
        Some(bytes) => decoded_token_fields(bytes),
    }
}

/// The hash of the record with id `db_id` created at `date_created`.
pub fn produce_hash(db_id: &ObjectId, date_created: i64) -> (hash: String)
    ensures
        hash@ == record_hash(db_id@, date_created as int),
{
    let mut input = db_id.to_hex();
    input.push(':');
    push_decimal_i64(&mut input, date_created);
    assert(input@ =~= hash_input(db_id@, date_created as int));
    let digest = xxh3_64(input.as_str().as_bytes());
    format_u64(digest)
}

/// What a record's hash is made of: the text hashed starts with the 24
/// lower-case hexadecimal digits that parse back to the record's id, then one
/// ':', then the usual decimal numeral of the creation time; the hash is the
/// decimal numeral of the xxh3-64 digest of that text's UTF-8 bytes.
pub proof fn lemma_record_hash_law(db_id: Seq<u8>, date_created: int)
    requires
        db_id.len() == 12,
    ensures
        ({
            let text = hash_input(db_id, date_created);
            &&& text.len() >= 26
            &&& object_id_from_hex(text.take(24)) == Some(db_id)
            &&& forall|i: int| 0 <= i < 24 ==> is_lower_hex_char(#[trigger] text[i])
            &&& text[24] == ':'
            &&& is_signed_numeral_of(text.skip(25), date_created)
            &&& is_decimal_numeral(record_hash(db_id, date_created))
            &&& digits_value(record_hash(db_id, date_created)) == xxh3_64_of(encode_utf8(text))
        }),
{
    let text = hash_input(db_id, date_created);
    let hex = hex_lower(db_id);
    lemma_hex_round_trip(db_id);
    lemma_hex_has_no_colon(db_id);
    lemma_decimal_int_numeral(date_created);
    lemma_decimal_numeral(xxh3_64_of(encode_utf8(text)) as nat);
    assert(text.take(24) =~= hex);
    assert(text.skip(25) =~= decimal_int(date_created));
    assert(forall|i: int| 0 <= i < 24 ==> text[i] == hex[i]);
}

/// The characters of `raw_token` are ASCII and hold one ':', between the id
/// and the hash.
proof fn lemma_raw_token_shape(db_id: Seq<u8>, date_created: int)
    requires
        db_id.len() == 12,
    ensures
        is_ascii_chars(raw_token(db_id, date_created)),
        split_on(raw_token(db_id, date_created), ':') == seq![
            hex_lower(db_id),
            record_hash(db_id, date_created),
        ],
        26 <= raw_token(db_id, date_created).len() <= 45,
{
    let hex = hex_lower(db_id);
    let digest = xxh3_64_of(encode_utf8(hash_input(db_id, date_created)));
    let hash = record_hash(db_id, date_created);
    lemma_hex_has_no_colon(db_id);
    lemma_decimal_digits(digest as nat);
    lemma_decimal_len_u64(digest);
    assert(!hash.contains(':')) by {
        if hash.contains(':') {
            let k = choose|k: int| 0 <= k < hash.len() && hash[k] == ':';
            assert('0' <= hash[k] <= '9');
        }
    }
    lemma_split_pair(hex, hash, ':');
    let raw = raw_token(db_id, date_created);
    assert forall|i: int| 0 <= i < raw.len() implies '\0' <= #[trigger] raw[i] <= '\u{7f}' by {
        if i < hex.len() {
            assert(raw[i] == hex[i]);
            assert(is_hex_char(hex[i]));
        } else if i == hex.len() {
            assert(raw[i] == ':');
        } else {
            assert(raw[i] == hash[i - hex.len() - 1]);
            assert('0' <= hash[i - hex.len() - 1] <= '9');
        }
    }
}

/// The token of the record with id `db_id` created at `date_created`. The
/// token parses back to the id's hex form and the record's hash.
pub fn generate_token(db_id: ObjectId, date_created: i64) -> (token: String)
    ensures
        token@ == record_token(db_id@, date_created as int),
        token_fields(token@) == Ok::<(Seq<char>, Seq<char>), TokenError>(
            (hex_lower(db_id@), record_hash(db_id@, date_created as int)),
        ),
        forall|i: int| 0 <= i < token@.len() ==> is_base64_url_char(#[trigger] token@[i]),
        35 <= token@.len() <= 60,
{
    let hash = produce_hash(&db_id, date_created);
    let mut raw = db_id.to_hex();
    raw.push(':');
    raw.append(hash.as_str());
    let ghost raw_chars = raw_token(db_id@, date_created as int);
    assert(raw@ =~= raw_chars);
    proof {
        lemma_raw_token_shape(db_id@, date_created as int);
        is_ascii_chars_encode_utf8(raw_chars);
        encode_utf8_valid_utf8(raw_chars);
        encode_utf8_decode_utf8(raw_chars);
        let n = encode_utf8(raw_chars).len();
        assert(26 <= n <= 45);
        assert(35 <= base64_unpadded_len(n) <= 60);
    }
    base64_url_encode(raw.as_str().as_bytes())
}

/// Bytes whose fields are `db_id` and `hash` are the UTF-8 encoding of
/// "<db_id>:<hash>".
pub proof fn lemma_decoded_fields_rejoin(bytes: Seq<u8>)
    requires
        decoded_token_fields(bytes) is Ok,
    ensures
        bytes == encode_utf8(
            decoded_token_fields(bytes)->Ok_0.0 + seq![':'] + decoded_token_fields(bytes)->Ok_0.1,
        ),
{
    let text = decode_utf8(bytes);
    lemma_split_two_rejoin(text, ':');
    decode_utf8_encode_utf8(bytes);
}

/// Reads the id text and hash out of a token's decoded bytes; refuses, with
/// a message, bytes that are not UTF-8 or whose text does not hold exactly
/// one ':'.
pub fn parse_decoded_token(decoded_bytes: Vec<u8>) -> (parsed: Result<Token, String>)
    ensures
        match decoded_token_fields(decoded_bytes@) {
            Ok((db_id, hash)) => parsed matches Ok(t) && t.db_id@ == db_id && t.hash@ == hash,
            Err(e) => parsed matches Err(message) && message@ == token_error_message(e),
        },
        parsed matches Ok(t) ==> decoded_bytes@ == encode_utf8(t.db_id@ + seq![':'] + t.hash@),
{
    let ghost bytes = decoded_bytes@;
    let decoded_string = match string_from_utf8(decoded_bytes) {
        Some(text) => text,
        None => return Err("could not convert token bytes to string".to_owned()),
    };
    let mut tokens = split_at_char(decoded_string.as_str(), ':');
    if tokens.len() != 2 {
        return Err("token has incorrect format".to_owned());
    }
    let hash = tokens.pop().unwrap();
    let db_id = tokens.pop().unwrap();
    proof {
        lemma_decoded_fields_rejoin(bytes);
    }
    Ok(Token { db_id, hash })
}

/// Decodes a token into its id text and hash; refuses, with a message, a
/// token that is not base64, not UTF-8 once decoded, or that does not hold
/// exactly one ':'. A token that is accepted is the canonical encoding of
/// "<db_id>:<hash>".
pub fn parse_token(token: String) -> (parsed: Result<Token, String>)
    ensures
        match token_fields(token@) {
            Ok((db_id, hash)) => parsed matches Ok(t) && t.db_id@ == db_id && t.hash@ == hash,
            Err(e) => parsed matches Err(message) && message@ == token_error_message(e),
        },
        parsed matches Ok(t) ==> token@ == base64_url_encoding(
            encode_utf8(t.db_id@ + seq![':'] + t.hash@),
        ),
{
    let decoded_bytes = match base64_url_decode(token.as_str().as_bytes()) {
        Some(bytes) => bytes,
        None => return Err("could not decode token".to_owned()),
    };
    proof {
        let encoded = base64_url_encoding(decoded_bytes@);
        encode_utf8_decode_utf8(token@);
        encode_utf8_decode_utf8(encoded);
    }
    parse_decoded_token(decoded_bytes)
}

} // verus!
