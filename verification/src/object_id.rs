//! The twelve-byte identifier under which the store keeps a record, and its
//! hexadecimal text form.

use vstd::prelude::*;

verus! {

/// The lower-case hexadecimal digit of a value below 16.
pub open spec fn hex_digit(n: int) -> char
    recommends
        0 <= n < 16,
{
    if n < 10 {
        (48 + n) as char
    } else {
        (87 + n) as char
    }
}

/// Two lower-case hexadecimal digits per byte, high half first.
pub open spec fn hex_lower(bytes: Seq<u8>) -> Seq<char> {
    Seq::new(
        2 * bytes.len(),
        |i: int|
            if i % 2 == 0 {
                hex_digit((bytes[i / 2] / 16) as int)
            } else {
                hex_digit((bytes[i / 2] % 16) as int)
            },
    )
}

/// A lower-case hexadecimal digit: '0'..'9' or 'a'..'f'.
pub open spec fn is_lower_hex_char(c: char) -> bool {
    ('0' <= c <= '9') || ('a' <= c <= 'f')
}

/// A hexadecimal digit of either case.
pub open spec fn is_hex_char(c: char) -> bool {
    ('0' <= c <= '9') || ('a' <= c <= 'f') || ('A' <= c <= 'F')
}

/// The value of a hexadecimal digit of either case.
pub open spec fn hex_value(c: char) -> int {
    if '0' <= c <= '9' {
        c as int - 48
    } else if 'a' <= c <= 'f' {
        c as int - 87
    } else {
        c as int - 55
    }
}

/// The twelve bytes that a string of exactly 24 hexadecimal digits (either
/// case) stands for; no bytes for any other string.
pub open spec fn object_id_from_hex(s: Seq<char>) -> Option<Seq<u8>> {
    if s.len() == 24 && forall|i: int| 0 <= i < 24 ==> #[trigger] is_hex_char(s[i]) {
        Some(Seq::new(12, |j: int| (hex_value(s[2 * j]) * 16 + hex_value(s[2 * j + 1])) as u8))
    } else {
        None
    }
}

/// Identifier of a stored record: twelve raw bytes.
#[derive(Clone, Copy, Debug, PartialEq, Eq)]
pub struct ObjectId {
    pub bytes: [u8; 12],
}

impl View for ObjectId {
    type V = Seq<u8>;

    open spec fn view(&self) -> Seq<u8> {
        self.bytes@
    }
}

/// `bson::oid::ObjectId::to_hex` (which its `Display` writes): `hex::encode`
/// of the twelve bytes, two lower-case digits per byte, high half first.
#[verifier::external_body]
fn bson_object_id_hex(bytes: [u8; 12]) -> (text: String)
    ensures
        text@ == hex_lower(bytes@),
{
    bson::oid::ObjectId::from_bytes(bytes).to_hex()
}

/// `bson::oid::ObjectId::parse_str`: `hex::decode` of the text's bytes
/// (digits of either case, an even count), accepted only when it yields
/// exactly twelve bytes; the error kind is not kept.
#[verifier::external_body]
fn bson_object_id_parse(text: &str) -> (bytes: Option<[u8; 12]>)
    ensures
        match bytes {
            Some(b) => object_id_from_hex(text@) == Some(b@),
            None => object_id_from_hex(text@) is None,
        },
{
    match bson::oid::ObjectId::parse_str(text) {
        Ok(id) => Some(id.bytes()),
        Err(_) => None,
    }
}

/// `bson::oid::ObjectId::new`: a fresh identifier made of the current time,
/// a per-process random value and a counter. Nothing is promised of its bytes.
/// Like bson's generator, it panics when the system clock reads a time before
/// 1970 or after 2106; that is a state of the machine, not of an argument.
#[verifier::external_body]
fn bson_object_id_new() -> [u8; 12] {
    bson::oid::ObjectId::new().bytes()
}

impl ObjectId {
    pub fn from_bytes(bytes: [u8; 12]) -> (id: ObjectId)
        ensures
            id.bytes == bytes,
    {
        ObjectId { bytes }
    }

    /// A fresh identifier from the store's generator.
    pub fn generate() -> ObjectId {
        ObjectId { bytes: bson_object_id_new() }
    }

    /// The 24 lower-case hexadecimal digits of the identifier.
    pub fn to_hex(&self) -> (text: String)
        ensures
            text@ == hex_lower(self@),
    {
        bson_object_id_hex(self.bytes)
    }

    /// The identifier that a string of 24 hexadecimal digits stands for;
    /// `None` for any other string.
    pub fn parse_str(text: &str) -> (id: Option<ObjectId>)
        ensures
            match id {
                Some(id) => object_id_from_hex(text@) == Some(id@),
                None => object_id_from_hex(text@) is None,
            },
    {
        match bson_object_id_parse(text) {
            Some(bytes) => Some(ObjectId { bytes }),
            None => None,
        }
    }
}

proof fn lemma_hex_digit_value(n: int)
    requires
        0 <= n < 16,
    ensures
        is_hex_char(hex_digit(n)),
        hex_value(hex_digit(n)) == n,
        hex_digit(n) != ':',
        is_lower_hex_char(hex_digit(n)),
{
}

/// The hexadecimal form of twelve bytes parses back to those bytes.
pub proof fn lemma_hex_round_trip(bytes: Seq<u8>)
    requires
        bytes.len() == 12,
    ensures
        object_id_from_hex(hex_lower(bytes)) == Some(bytes),
{
    let s = hex_lower(bytes);
    assert forall|i: int| 0 <= i < 24 implies #[trigger] is_hex_char(s[i]) by {
        let b = bytes[i / 2];
        if i % 2 == 0 {
            lemma_hex_digit_value((b / 16) as int);
        } else {
            lemma_hex_digit_value((b % 16) as int);
        }
    }
    let parsed = Seq::new(12, |j: int| (hex_value(s[2 * j]) * 16 + hex_value(s[2 * j + 1])) as u8);
    assert forall|j: int| 0 <= j < 12 implies parsed[j] == bytes[j] by {
        assert((2 * j) % 2 == 0 && (2 * j) / 2 == j);
        assert((2 * j + 1) % 2 == 1 && (2 * j + 1) / 2 == j);
        lemma_hex_digit_value((bytes[j] / 16) as int);
        lemma_hex_digit_value((bytes[j] % 16) as int);
    }
    assert(parsed =~= bytes);
}

/// The hexadecimal form holds no ':' and only lower-case digits.
pub proof fn lemma_hex_has_no_colon(bytes: Seq<u8>)
    ensures
        !hex_lower(bytes).contains(':'),
        forall|i: int| 0 <= i < hex_lower(bytes).len() ==> is_hex_char(#[trigger] hex_lower(bytes)[i]),
        forall|i: int|
            0 <= i < hex_lower(bytes).len() ==> is_lower_hex_char(#[trigger] hex_lower(bytes)[i]),
{
    let s = hex_lower(bytes);
    assert forall|i: int| 0 <= i < s.len() implies is_hex_char(#[trigger] s[i]) && s[i] != ':'
        && is_lower_hex_char(s[i]) by {
        let b = bytes[i / 2];
        if i % 2 == 0 {
            lemma_hex_digit_value((b / 16) as int);
        } else {
            lemma_hex_digit_value((b % 16) as int);
        }
    }
}

} // verus!
