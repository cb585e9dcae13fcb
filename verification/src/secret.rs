//! Decoding of hierarchy authentication secrets.
//!
//! A secret is configured as text in one of three forms: `str:` followed by the
//! secret itself, `hex:` followed by its hexadecimal encoding, or the bare
//! secret. The prefix is matched exactly; text with neither prefix is taken
//! as it stands.

use crate::error::BuildError;
use vstd::prelude::*;
use vstd::string::*;
use vstd::utf8::*;
use zeroize::Zeroize;

verus! {

/// The error of the `hex` crate's decoder, carried from the decoder to the
/// parser and never inspected.
#[verifier::external_type_specification]
#[verifier::external_body]
pub struct ExFromHexError(hex::FromHexError);

/// The prefix that marks a secret given verbatim.
pub open spec fn string_prefix() -> Seq<char> {
    seq!['s', 't', 'r', ':']
}

/// The prefix that marks a secret given in hexadecimal.
pub open spec fn hex_prefix() -> Seq<char> {
    seq!['h', 'e', 'x', ':']
}

/// Whether `text` begins with `prefix`.
pub open spec fn has_prefix(text: Seq<char>, prefix: Seq<char>) -> bool {
    prefix.len() <= text.len() && text.subrange(0, prefix.len() as int) == prefix
}

/// The value of one hexadecimal digit given as an ASCII byte, in either case.
pub open spec fn hex_digit_value(digit: u8) -> Option<u8> {
    if 0x30 <= digit <= 0x39 {
        Some((digit - 0x30) as u8)
    } else if 0x61 <= digit <= 0x66 {
        Some((digit - 0x61 + 10) as u8)
    } else if 0x41 <= digit <= 0x46 {
        Some((digit - 0x41 + 10) as u8)
    } else {
        None
    }
}

/// Whether `text` is a hexadecimal string: an even number of hexadecimal
/// digits.
pub open spec fn is_hex_text(text: Seq<u8>) -> bool {
    &&& text.len() % 2 == 0
    &&& forall|i: int| 0 <= i < text.len() ==> hex_digit_value(#[trigger] text[i]) is Some
}

/// The bytes that a hexadecimal string stands for: each pair of digits gives
/// one byte, the first digit being the upper half.
pub open spec fn hex_decoded(text: Seq<u8>) -> Seq<u8> {
    Seq::new(
        text.len() / 2,
        |i: int|
            (16 * hex_digit_value(text[2 * i])->0 + hex_digit_value(text[2 * i + 1])->0) as u8,
    )
}

/// The secret that a configured text stands for, or the reason why it stands
/// for none.
pub open spec fn parsed_secret(text: Seq<char>) -> Result<Seq<u8>, BuildError> {
    if has_prefix(text, string_prefix()) {
        Ok(encode_utf8(text.skip(4)))
    } else if has_prefix(text, hex_prefix()) {
        let digits = encode_utf8(text.skip(4));
        if is_hex_text(digits) {
            Ok(hex_decoded(digits))
        } else {
            Err(BuildError::InvalidHexHierarchyAuth)
        }
    } else {
        Ok(encode_utf8(text))
    }
}

/// The secret that a configuration field stands for. An empty field stands for
/// none.
pub open spec fn hierarchy_auth(field: Option<String>) -> Result<Seq<u8>, BuildError> {
    match field {
        None => Err(BuildError::MissingHierarchyAuth),
        Some(text) => parsed_secret(text@),
    }
}

/// Whether `r` holds the bytes, or the error, that `expected` holds.
pub open spec fn same_secret(
    r: Result<Vec<u8>, BuildError>,
    expected: Result<Seq<u8>, BuildError>,
) -> bool {
    match expected {
        Ok(bytes) => r is Ok && r->Ok_0@ == bytes,
        Err(e) => r == Err::<Vec<u8>, BuildError>(e),
    }
}

/// Whether `c` is a hexadecimal digit, in either case.
pub open spec fn is_hex_char(c: char) -> bool {
    ('0' <= c <= '9') || ('a' <= c <= 'f') || ('A' <= c <= 'F')
}

/// Whether `text` is a hexadecimal string: an even number of hexadecimal
/// digits.
pub open spec fn is_hex_string(text: Seq<char>) -> bool {
    &&& text.len() % 2 == 0
    &&& forall|i: int| 0 <= i < text.len() ==> is_hex_char(#[trigger] text[i])
}

/// The lower-case hexadecimal digit for a value below sixteen.
pub open spec fn hex_digit(value: int) -> char {
    if value < 10 {
        ((0x30 + value) as u8) as char
    } else {
        ((0x61 + value - 10) as u8) as char
    }
}

/// The lower-case hexadecimal encoding of `bytes`: two digits for each byte,
/// the upper half first.
pub open spec fn hex_encoded(bytes: Seq<u8>) -> Seq<char> {
    Seq::new(
        2 * bytes.len(),
        |i: int|
            if i % 2 == 0 {
                hex_digit(bytes[i / 2] as int / 16)
            } else {
                hex_digit(bytes[i / 2] as int % 16)
            },
    )
}

/// No character lies below the null character.
proof fn lemma_char_lower_bound(c: char)
    ensures
        '\0' <= c,
{
}

/// A character outside ASCII is encoded with a leading byte that has its top
/// bit set.
proof fn lemma_non_ascii_leading_byte(c: char)
    requires
        c > '\u{7f}',
    ensures
        encode_scalar(c as u32).len() > 0,
        encode_scalar(c as u32)[0] >= 0x80,
{
    assert(forall|x: u8| (0xC0u8 | x) >= 0x80u8) by (bit_vector);
    assert(forall|x: u8| (0xE0u8 | x) >= 0x80u8) by (bit_vector);
    assert(forall|x: u8| (0xF0u8 | x) >= 0x80u8) by (bit_vector);
}

/// Text that is not all ASCII has, in its UTF-8 encoding, a byte with its top
/// bit set.
proof fn lemma_non_ascii_has_high_byte(text: Seq<char>)
    requires
        !is_ascii_chars(text),
    ensures
        exists|j: int| 0 <= j < encode_utf8(text).len() && encode_utf8(text)[j] >= 0x80,
    decreases text.len(),
{
    assert(text.len() > 0);
    let first = text[0];
    let head = encode_scalar(first as u32);
    let rest = text.drop_first();
    if first > '\u{7f}' {
        lemma_non_ascii_leading_byte(first);
        assert(encode_utf8(text)[0] == head[0]);
    } else {
        assert(!is_ascii_chars(rest)) by {
            if is_ascii_chars(rest) {
                assert forall|i: int| 0 <= i < text.len() implies '\0' <= #[trigger] text[i]
                    <= '\u{7f}' by {
                    if i > 0 {
                        assert(text[i] == rest[i - 1]);
                        assert('\0' <= rest[i - 1] <= '\u{7f}');
                    } else {
                        lemma_char_lower_bound(first);
                    }
                }
            }
        }
        lemma_non_ascii_has_high_byte(rest);
        let j = choose|j: int| 0 <= j < encode_utf8(rest).len() && encode_utf8(rest)[j] >= 0x80;
        assert(encode_utf8(text)[head.len() + j] == encode_utf8(rest)[j]);
    }
}

/// The UTF-8 encoding of a text is a hexadecimal string of bytes exactly when
/// the text is a hexadecimal string of characters.
pub proof fn lemma_hex_text_of_chars(text: Seq<char>)
    ensures
        is_hex_text(encode_utf8(text)) <==> is_hex_string(text),
        is_hex_string(text) ==> encode_utf8(text).len() == text.len(),
{
    let bytes = encode_utf8(text);
    if is_ascii_chars(text) {
        is_ascii_chars_encode_utf8(text);
        if is_hex_string(text) {
            assert forall|i: int| 0 <= i < bytes.len() implies hex_digit_value(
                #[trigger] bytes[i],
            ) is Some by {
                assert(is_hex_char(text[i]));
            }
        }
        if is_hex_text(bytes) {
            assert forall|i: int| 0 <= i < text.len() implies is_hex_char(#[trigger] text[i]) by {
                assert(hex_digit_value(bytes[i]) is Some);
            }
        }
    } else {
        lemma_non_ascii_has_high_byte(text);
        let j = choose|j: int| 0 <= j < bytes.len() && bytes[j] >= 0x80;
        assert(hex_digit_value(bytes[j]) is None);
        let i = choose|i: int| 0 <= i < text.len() && !('\0' <= #[trigger] text[i] <= '\u{7f}');
        assert(!is_hex_char(text[i]));
    }
}

/// A secret written in hexadecimal after `hex:` is read back as it was.
pub proof fn lemma_hex_secret_round_trip(secret: Seq<u8>)
    ensures
        parsed_secret(hex_prefix() + hex_encoded(secret)) == Ok::<Seq<u8>, BuildError>(secret),
{
    let digits = hex_encoded(secret);
    let text = hex_prefix() + digits;
    assert(text.subrange(0, 4) =~= hex_prefix());
    assert(text.subrange(0, 4)[0] != string_prefix()[0]);
    assert(text.skip(4) =~= digits);
    assert forall|i: int| 0 <= i < digits.len() implies is_hex_char(#[trigger] digits[i]) by {
        let b = secret[i / 2];
        assert(0 <= b as int / 16 < 16 && 0 <= b as int % 16 < 16);
    }
    lemma_hex_text_of_chars(digits);
    let bytes = encode_utf8(digits);
    assert(is_ascii_chars(digits)) by {
        assert forall|i: int| 0 <= i < digits.len() implies '\0' <= #[trigger] digits[i]
            <= '\u{7f}' by {
            assert(is_hex_char(digits[i]));
        }
    }
    is_ascii_chars_encode_utf8(digits);
    assert forall|i: int| 0 <= i < secret.len() implies #[trigger] hex_decoded(bytes)[i]
        == secret[i] by {
        let b = secret[i];
        assert(0 <= b as int / 16 < 16 && 0 <= b as int % 16 < 16);
        assert(digits[2 * i] == hex_digit(b as int / 16));
        assert(digits[2 * i + 1] == hex_digit(b as int % 16));
        assert(bytes[2 * i] == digits[2 * i] as u8);
        assert(bytes[2 * i + 1] == digits[2 * i + 1] as u8);
        assert(hex_digit_value(bytes[2 * i]) == Some((b as int / 16) as u8));
        assert(hex_digit_value(bytes[2 * i + 1]) == Some((b as int % 16) as u8));
    }
    assert(hex_decoded(bytes) =~= secret);
}

/// A secret written verbatim after `str:` is read as the UTF-8 bytes of what
/// follows the prefix.
pub proof fn lemma_string_secret_round_trip(secret: Seq<char>)
    ensures
        parsed_secret(string_prefix() + secret) == Ok::<Seq<u8>, BuildError>(
            encode_utf8(secret),
        ),
{
    let text = string_prefix() + secret;
    assert(text.subrange(0, 4) =~= string_prefix());
    assert(text.skip(4) =~= secret);
}

/// After `hex:`, the text is accepted exactly when it is a hexadecimal string:
/// text of odd length, or with a character that is no hexadecimal digit, is a
/// decoding error.
pub proof fn lemma_hex_secret_accepted_iff_hex(rest: Seq<char>)
    ensures
        is_hex_string(rest) ==> parsed_secret(hex_prefix() + rest) is Ok,
        !is_hex_string(rest) ==> parsed_secret(hex_prefix() + rest) == Err::<
            Seq<u8>,
            BuildError,
        >(BuildError::InvalidHexHierarchyAuth),
{
    let text = hex_prefix() + rest;
    assert(text.subrange(0, 4) =~= hex_prefix());
    assert(text.subrange(0, 4)[0] != string_prefix()[0]);
    assert(text.skip(4) =~= rest);
    lemma_hex_text_of_chars(rest);
}

/// Calls `hex::decode`. The decoder accepts exactly the strings of an even
/// number of hexadecimal digits, upper and lower case alike, and gives for
/// each pair of digits the byte that it denotes.
#[verifier::external_body]
fn hex_decode(text: &[u8]) -> (r: Result<Vec<u8>, hex::FromHexError>)
    ensures
        r is Ok <==> is_hex_text(text@),
        r is Ok ==> r->Ok_0@ == hex_decoded(text@),
{
    hex::decode(text)
}

/// Calls `Zeroize::zeroize` on an optional string: the text, if any, is
/// overwritten with zeros and the field is left empty.
#[verifier::external_body]
pub(crate) fn scrub(field: &mut Option<String>)
    ensures
        *final(field) is None,
{
    field.zeroize()
}

/// Whether `text` begins with the four characters given.
fn starts_with4(text: &str, c0: char, c1: char, c2: char, c3: char) -> (b: bool)
    ensures
        b == has_prefix(text@, seq![c0, c1, c2, c3]),
{
    let n: usize = text.unicode_len();
    if n < 4 {
        return false;
    }
    let b = text.get_char(0) == c0 && text.get_char(1) == c1 && text.get_char(2) == c2
        && text.get_char(3) == c3;
    proof {
        let p = seq![c0, c1, c2, c3];
        if b {
            assert(text@.subrange(0, 4) =~= p);
        } else {
            assert(p[0] == c0 && p[1] == c1 && p[2] == c2 && p[3] == c3);
            if text@.subrange(0, 4) == p {
                assert(text@.subrange(0, 4)[0] == text@[0]);
                assert(text@.subrange(0, 4)[1] == text@[1]);
                assert(text@.subrange(0, 4)[2] == text@[2]);
                assert(text@.subrange(0, 4)[3] == text@[3]);
            }
        }
    }
    b
}

/// Decodes a configured secret.
///
/// After `str:` the rest of the text is the secret, byte for byte. After
/// `hex:` the rest of the text is decoded as hexadecimal, and the decoding
/// fails when it is no hexadecimal string. Any other text is the secret
/// itself.
pub fn parse_secret(text: &str) -> (r: Result<Vec<u8>, BuildError>)
    ensures
        same_secret(r, parsed_secret(text@)),
{
    if starts_with4(text, 's', 't', 'r', ':') {
        let n: usize = text.unicode_len();
        let rest = text.substring_char(4, n);
        assert(rest@ == text@.skip(4));
        Ok(rest.as_bytes_vec())
    } else if starts_with4(text, 'h', 'e', 'x', ':') {
        let n: usize = text.unicode_len();
        let rest = text.substring_char(4, n);
        assert(rest@ == text@.skip(4));
        match hex_decode(rest.as_bytes()) {
            Ok(bytes) => Ok(bytes),
            Err(_) => Err(BuildError::InvalidHexHierarchyAuth),
        }
    } else {
        Ok(text.as_bytes_vec())
    }
}

/// Takes the secret out of a configuration field.
///
/// The field is decoded as `parse_secret` decodes its text; an empty field is
/// an error. Whatever the outcome, the text is erased and the field is left
/// empty.
pub fn get_hierarchy_auth(field: &mut Option<String>) -> (r: Result<Vec<u8>, BuildError>)
    ensures
        same_secret(r, hierarchy_auth(*old(field))),
        *final(field) is None,
{
    let r = match field.as_ref() {
        None => Err(BuildError::MissingHierarchyAuth),
        Some(text) => parse_secret(text.as_str()),
    };
    scrub(field);
    r
}

} // verus!
