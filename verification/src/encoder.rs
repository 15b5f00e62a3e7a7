//! The name encoder: user-supplied names to path segments and back.
//!
//! A name is encoded as the URL-safe base64 text, without padding, of its
//! UTF-8 bytes. The text is made by the `base64` crate; what is believed of
//! that crate is said where it is called.

use vstd::prelude::*;
use vstd::utf8::*;
use crate::error::{Error, ErrorKind};
use crate::text::{lemma_same_bytes_same_text, same_text};

verus! {

/// The URL-safe base64 text, without padding, of a byte string.
pub uninterp spec fn url_safe_text(bytes: Seq<u8>) -> Seq<char>;

/// The error of `base64::decode_config`. Nothing is known of what it holds.
#[verifier::external_type_specification]
#[verifier::external_body]
pub struct ExDecodeError(base64::DecodeError);

/// The error of `String::from_utf8`. Nothing is known of what it holds.
#[verifier::external_type_specification]
#[verifier::external_body]
pub struct ExFromUtf8Error(std::string::FromUtf8Error);

/// The symbols a segment is made of: letters, digits, `-` and `_`.
pub open spec fn is_segment_symbol(c: char) -> bool {
    ('A' <= c && c <= 'Z') || ('a' <= c && c <= 'z') || ('0' <= c && c <= '9') || c == '-' || c
        == '_'
}

/// The characters that part one path segment from the next.
pub open spec fn is_path_separator(c: char) -> bool {
    c == '/' || c == '\\'
}

/// The segment that stands for a name.
pub open spec fn encoded(name: Seq<char>) -> Seq<char> {
    url_safe_text(encode_utf8(name))
}

/// True when some byte string has this text as its URL-safe base64 form.
pub open spec fn is_url_safe_text(text: Seq<char>) -> bool {
    exists|bytes: Seq<u8>| #[trigger] url_safe_text(bytes) == text
}

/// True when the segment stands for some name.
pub open spec fn is_encoded_name(segment: Seq<char>) -> bool {
    exists|name: Seq<char>| #[trigger] encoded(name) == segment
}

/// The name a segment stands for, if it stands for one.
pub open spec fn decoding(segment: Seq<char>) -> Option<Seq<char>> {
    if is_encoded_name(segment) {
        Some(choose|name: Seq<char>| #[trigger] encoded(name) == segment)
    } else {
        None
    }
}

/// Calls `base64::encode_config` with the URL-safe alphabet and no padding.
/// Trusted: the result is the text named `url_safe_text`; every one of its
/// characters is a letter, a digit, `-` or `_`; and no other byte string has
/// the same text.
#[verifier::external_body]
fn base64_text(bytes: &[u8]) -> (text: String)
    ensures
        text@ == url_safe_text(bytes@),
        forall|i: int| 0 <= i < text@.len() ==> is_segment_symbol(#[trigger] text@[i]),
        forall|other: Seq<u8>| #[trigger] url_safe_text(other) == text@ ==> other == bytes@,
{
    base64::encode_config(bytes, base64::Config::new(base64::CharacterSet::UrlSafe, false))
}

/// Calls `base64::decode_config` with the URL-safe alphabet.
/// Trusted: a text that `base64_text` gives for some bytes decodes to those
/// bytes. Nothing is claimed of any other text.
#[verifier::external_body]
fn base64_bytes(text: &str) -> (decoded: Result<Vec<u8>, base64::DecodeError>)
    ensures
        forall|bytes: Seq<u8>| #[trigger]
            url_safe_text(bytes) == text@ ==> decoded is Ok && decoded->Ok_0@ == bytes,
{
    base64::decode_config(text, base64::Config::new(base64::CharacterSet::UrlSafe, false))
}

/// Calls `String::from_utf8`.
/// Trusted: it succeeds exactly on valid UTF-8, and the string then holds
/// the given bytes.
#[verifier::external_body]
fn string_of_utf8(bytes: Vec<u8>) -> (text: Result<String, std::string::FromUtf8Error>)
    ensures
        text is Ok <==> valid_utf8(bytes@),
        text is Ok ==> encode_utf8(text->Ok_0@) == bytes@,
{
    String::from_utf8(bytes)
}

/// Encodes a name as a path segment.
///
/// The segment is made of letters, digits, `-` and `_` only, so it holds no
/// path separator and is neither `.` nor `..`; and it stands for this name
/// alone.
pub fn encode(name: &str) -> (segment: String)
    ensures
        segment@ == encoded(name@),
        forall|i: int| 0 <= i < segment@.len() ==> is_segment_symbol(#[trigger] segment@[i]),
        forall|i: int| 0 <= i < segment@.len() ==> !is_path_separator(#[trigger] segment@[i]),
        forall|other: Seq<char>| #[trigger] encoded(other) == segment@ ==> other == name@,
        decoding(segment@) == Some(name@),
{
    let segment = base64_text(name.as_bytes());
    proof {
        assert forall|other: Seq<char>| #[trigger] encoded(other) == segment@ implies other
            == name@ by {
            lemma_same_bytes_same_text(other, name@);
        }
        assert(encoded(name@) == segment@);
    }
    segment
}

/// Decodes a path segment to the name it stands for.
///
/// A segment stands for a name exactly when encoding that name gives the
/// segment back, letter for letter: a padded or otherwise non-canonical
/// text is refused although a lenient reader could make bytes of it.
pub fn decode(segment: &str) -> (result: Result<String, Error>)
    ensures
        match result {
            Ok(name) => decoding(segment@) == Some(name@) && encoded(name@) == segment@,
            Err(e) => {
                &&& decoding(segment@) is None
                &&& e.kind == ErrorKind::InvalidEncoding <==> !is_url_safe_text(segment@)
                &&& e.kind == ErrorKind::InvalidUtf8 <==> is_url_safe_text(segment@)
            },
        },
        forall|name: Seq<char>| #[trigger]
            encoded(name) == segment@ ==> result is Ok && result->Ok_0@ == name,
{
    let bytes = match base64_bytes(segment) {
        Ok(bytes) => bytes,
        Err(_) => {
            return Err(Error::new(ErrorKind::InvalidEncoding));
        },
    };
    let canonical = base64_text(bytes.as_slice());
    if !same_text(canonical.as_str(), segment) {
        return Err(Error::new(ErrorKind::InvalidEncoding));
    }
    let ghost raw = bytes@;
    assert(url_safe_text(raw) == segment@);
    match string_of_utf8(bytes) {
        Ok(name) => {
            proof {
                assert(encoded(name@) == segment@);
                assert forall|other: Seq<char>| #[trigger] encoded(other) == segment@ implies other
                    == name@ by {
                    encode_utf8_decode_utf8(other);
                    encode_utf8_decode_utf8(name@);
                }
            }
            Ok(name)
        },
        Err(_) => {
            proof {
                assert forall|other: Seq<char>| #[trigger] encoded(other) != segment@ by {
                    encode_utf8_valid_utf8(other);
                }
            }
            Err(Error::new(ErrorKind::InvalidUtf8))
        },
    }
}

} // verus!
