//! Base64 (RFC 4648) as the `base64` crate's `STANDARD` and
//! `URL_SAFE_NO_PAD` engines write and read it, hexadecimal as the `hex`
//! crate reads it, multibase as the `multibase` crate reads it, and JSON
//! string literals as `serde_json` writes them.
use vstd::prelude::*;
use base64::Engine;
use crate::text::json_string;

verus! {

/// The character of a six-bit value in the standard alphabet.
pub open spec fn b64_char(v: int) -> char {
    if v < 26 {
        (65 + v) as char
    } else if v < 52 {
        (97 + v - 26) as char
    } else if v < 62 {
        (48 + v - 52) as char
    } else if v == 62 {
        '+'
    } else {
        '/'
    }
}

/// Padded standard base64 of `b`: each three bytes become four characters;
/// a final one or two bytes become two or three characters and `=` padding.
pub open spec fn b64_encode(b: Seq<u8>) -> Seq<char>
    decreases b.len(),
{
    if b.len() == 0 {
        Seq::empty()
    } else if b.len() == 1 {
        seq![b64_char(b[0] as int / 4), b64_char((b[0] as int % 4) * 16), '=', '=']
    } else if b.len() == 2 {
        seq![
            b64_char(b[0] as int / 4),
            b64_char((b[0] as int % 4) * 16 + b[1] as int / 16),
            b64_char((b[1] as int % 16) * 4),
            '=',
        ]
    } else {
        seq![
            b64_char(b[0] as int / 4),
            b64_char((b[0] as int % 4) * 16 + b[1] as int / 16),
            b64_char((b[1] as int % 16) * 4 + b[2] as int / 64),
            b64_char(b[2] as int % 64),
        ] + b64_encode(b.skip(3))
    }
}

/// Encodes bytes as padded standard base64 (`STANDARD.encode`).
#[verifier::external_body]
pub(crate) fn b64_encode_bytes(b: &[u8]) -> (s: String)
    ensures
        s@ == b64_encode(b@),
{
    base64::engine::general_purpose::STANDARD.encode(b)
}

/// What `STANDARD.decode` answers for a text: the bytes, or the text of its
/// error.
pub uninterp spec fn b64_decoded(s: Seq<char>) -> Result<Seq<u8>, Seq<char>>;

/// Decodes padded standard base64 (`STANDARD.decode`). The engine requires
/// canonical padding and no trailing bits, so it accepts exactly the texts
/// that are encodings, and gives back the bytes they encode.
#[verifier::external_body]
pub(crate) fn b64_decode_text(s: &str) -> (r: Result<Vec<u8>, String>)
    ensures
        b64_decoded(s@) == match r {
            Ok(v) => Ok(v@),
            Err(e) => Err::<Seq<u8>, Seq<char>>(e@),
        },
        r matches Ok(v) ==> b64_encode(v@) == s@,
        (exists|b: Seq<u8>| b64_encode(b) == s@) ==> r is Ok,
{
    match base64::engine::general_purpose::STANDARD.decode(s) {
        Ok(v) => Ok(v),
        Err(e) => Err(e.to_string()),
    }
}

/// The character of a six-bit value in the URL-safe alphabet.
pub open spec fn b64url_char(v: int) -> char {
    if v == 62 {
        '-'
    } else if v == 63 {
        '_'
    } else {
        b64_char(v)
    }
}

/// Unpadded URL-safe base64 of `b`.
pub open spec fn b64url_encode(b: Seq<u8>) -> Seq<char>
    decreases b.len(),
{
    if b.len() == 0 {
        Seq::empty()
    } else if b.len() == 1 {
        seq![b64url_char(b[0] as int / 4), b64url_char((b[0] as int % 4) * 16)]
    } else if b.len() == 2 {
        seq![
            b64url_char(b[0] as int / 4),
            b64url_char((b[0] as int % 4) * 16 + b[1] as int / 16),
            b64url_char((b[1] as int % 16) * 4),
        ]
    } else {
        seq![
            b64url_char(b[0] as int / 4),
            b64url_char((b[0] as int % 4) * 16 + b[1] as int / 16),
            b64url_char((b[1] as int % 16) * 4 + b[2] as int / 64),
            b64url_char(b[2] as int % 64),
        ] + b64url_encode(b.skip(3))
    }
}

/// Decodes unpadded URL-safe base64 (`URL_SAFE_NO_PAD.decode`). The engine
/// refuses padding and trailing bits, so it accepts exactly the texts that
/// are encodings, and gives back the bytes they encode.
#[verifier::external_body]
pub(crate) fn b64url_decode_text(s: &str) -> (r: Option<Vec<u8>>)
    ensures
        r matches Some(v) ==> b64url_encode(v@) == s@,
        (exists|b: Seq<u8>| b64url_encode(b) == s@) ==> r is Some,
{
    base64::engine::general_purpose::URL_SAFE_NO_PAD.decode(s).ok()
}

/// The value of a hexadecimal digit (either case), if it is one.
pub open spec fn hex_value(c: char) -> Option<u8> {
    if '0' <= c <= '9' {
        Some((c as u32 - 48) as u8)
    } else if 'a' <= c <= 'f' {
        Some((c as u32 - 87) as u8)
    } else if 'A' <= c <= 'F' {
        Some((c as u32 - 55) as u8)
    } else {
        None
    }
}

/// The bytes a hexadecimal text denotes: an even number of digits, two per
/// byte, high digit first.
pub open spec fn hex_bytes(s: Seq<char>) -> Option<Seq<u8>>
    decreases s.len(),
{
    if s.len() == 0 {
        Some(Seq::empty())
    } else if s.len() == 1 {
        None
    } else {
        match (hex_value(s[0]), hex_value(s[1]), hex_bytes(s.skip(2))) {
            (Some(h), Some(l), Some(rest)) => Some(seq![(h * 16 + l) as u8] + rest),
            _ => None,
        }
    }
}

/// What `hex::decode` answers for a text: the bytes, or its error's text.
pub uninterp spec fn hex_decoded(s: Seq<char>) -> Result<Seq<u8>, Seq<char>>;

/// Decodes hexadecimal text (`hex::decode`).
#[verifier::external_body]
pub(crate) fn hex_decode_text(s: &str) -> (r: Result<Vec<u8>, String>)
    ensures
        match r {
            Ok(v) => hex_decoded(s@) == Ok::<Seq<u8>, Seq<char>>(v@) && hex_bytes(s@) == Some(v@),
            Err(e) => hex_decoded(s@) == Err::<Seq<u8>, Seq<char>>(e@) && hex_bytes(s@) is None,
        },
{
    hex::decode(s).map_err(|e| e.to_string())
}

/// What `multibase::decode` reads from a text: the base's code character
/// and the bytes.
pub uninterp spec fn multibase_decoded(s: Seq<char>) -> Option<(char, Seq<u8>)>;

/// Decodes multibase text (`multibase::decode`), giving the base's code
/// character and the bytes.
#[verifier::external_body]
pub(crate) fn multibase_decode_text(s: &str) -> (r: Option<(char, Vec<u8>)>)
    ensures
        match r {
            Some((c, v)) => multibase_decoded(s@) == Some((c, v@)),
            None => multibase_decoded(s@) is None,
        },
{
    match multibase::decode(s) {
        Ok((base, bytes)) => Some((base.code(), bytes)),
        Err(_) => None,
    }
}

/// Encodes bytes as unpadded URL-safe base64 (`URL_SAFE_NO_PAD.encode`).
#[verifier::external_body]
pub(crate) fn b64url_encode_bytes(b: &[u8]) -> (s: String)
    ensures
        s@ == b64url_encode(b@),
{
    base64::engine::general_purpose::URL_SAFE_NO_PAD.encode(b)
}

/// Calls `serde_json::to_string` on a text. The contract claims what the
/// crate's string formatter writes: the text in double quotes, with `"`,
/// backslash and the control characters escaped (`\b \t \n \f \r`, else
/// `\u00` and two lower-case hex digits). Serialising a `str` into memory
/// does not fail.
#[verifier::external_body]
pub(crate) fn json_text(s: &str) -> (r: String)
    ensures
        r@ == json_string(s@),
{
    serde_json::to_string(s).unwrap_or_default()
}

/// The hex digit of a four-bit value, lower case.
pub open spec fn hex_char(v: u8) -> char {
    if v < 10 {
        (48 + v) as char
    } else {
        (87 + v) as char
    }
}

/// Lower-case hexadecimal of bytes, two digits per byte.
pub open spec fn hex_text(b: Seq<u8>) -> Seq<char>
    decreases b.len(),
{
    if b.len() == 0 {
        Seq::empty()
    } else {
        hex_text(b.drop_last()) + seq![hex_char(b.last() / 16), hex_char(b.last() % 16)]
    }
}

/// Calls `hex::encode`, which writes each byte as two lower-case hex digits.
#[verifier::external_body]
pub(crate) fn hex_encode(b: &[u8]) -> (s: String)
    ensures
        s@ == hex_text(b@),
{
    hex::encode(b)
}

} // verus!
