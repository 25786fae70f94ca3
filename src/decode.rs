//! License text carried as base64.
use vstd::prelude::*;

use crate::outside::{base64_decoded, decode_base64, string_from_utf8, utf8_text};
use crate::text::{chars_of, string_of};

verus! {

/// Why a license text could not be decoded.
#[derive(PartialEq, Eq, Structural, Clone, Copy, Debug)]
pub enum DecodeError {
    /// The payload is not valid base64.
    MalformedEncoding,
    /// The decoded bytes are not valid UTF-8.
    InvalidUtf8,
}

/// Unicode white space, as `char::is_whitespace` reports it.
pub open spec fn is_ws(c: char) -> bool {
    ('\u{9}' <= c && c <= '\u{d}') || c == ' ' || c == '\u{85}' || c == '\u{a0}' || c
        == '\u{1680}' || ('\u{2000}' <= c && c <= '\u{200a}') || c == '\u{2028}' || c
        == '\u{2029}' || c == '\u{202f}' || c == '\u{205f}' || c == '\u{3000}'
}

/// Whether `c` is white space.
pub fn is_whitespace(c: char) -> (r: bool)
    ensures
        r == is_ws(c),
{
    ('\u{9}' <= c && c <= '\u{d}') || c == ' ' || c == '\u{85}' || c == '\u{a0}' || c
        == '\u{1680}' || ('\u{2000}' <= c && c <= '\u{200a}') || c == '\u{2028}' || c
        == '\u{2029}' || c == '\u{202f}' || c == '\u{205f}' || c == '\u{3000}'
}

/// `s` without its white space.
pub open spec fn strip_ws(s: Seq<char>) -> Seq<char>
    decreases s.len(),
{
    if s.len() == 0 {
        s
    } else if is_ws(s.last()) {
        strip_ws(s.drop_last())
    } else {
        strip_ws(s.drop_last()).push(s.last())
    }
}

/// `s` without its line feeds.
pub open spec fn strip_newlines(s: Seq<char>) -> Seq<char>
    decreases s.len(),
{
    if s.len() == 0 {
        s
    } else if s.last() == '\n' {
        strip_newlines(s.drop_last())
    } else {
        strip_newlines(s.drop_last()).push(s.last())
    }
}

/// The text that a base64 payload carries.
pub open spec fn decoded_text(s: Seq<char>) -> Result<Seq<char>, DecodeError> {
    match base64_decoded(s) {
        None => Err(DecodeError::MalformedEncoding),
        Some(b) => match utf8_text(b) {
            None => Err(DecodeError::InvalidUtf8),
            Some(t) => Ok(t),
        },
    }
}

/// The text that a base64 payload wrapped with white space carries.
pub open spec fn blob_text(s: Seq<char>) -> Result<Seq<char>, DecodeError> {
    decoded_text(strip_ws(s))
}

pub open spec fn text_view(r: Result<String, DecodeError>) -> Result<Seq<char>, DecodeError> {
    match r {
        Ok(t) => Ok(t@),
        Err(e) => Err(e),
    }
}

/// `s` without its white space.
pub fn strip_whitespace(s: &str) -> (r: String)
    ensures
        r@ == strip_ws(s@),
{
    let v = chars_of(s);
    let mut out: Vec<char> = Vec::new();
    let mut i: usize = 0;
    while i < v.len()
        invariant
            i <= v@.len(),
            out@ == strip_ws(v@.subrange(0, i as int)),
        decreases v.len() - i,
    {
        assert(v@.subrange(0, i + 1).drop_last() =~= v@.subrange(0, i as int));
        if !is_whitespace(v[i]) {
            out.push(v[i]);
        }
        i = i + 1;
    }
    assert(v@.subrange(0, i as int) =~= v@);
    string_of(&out)
}

/// The UTF-8 text that a base64 payload carries.
pub fn decode_text(s: &str) -> (r: Result<String, DecodeError>)
    ensures
        text_view(r) == decoded_text(s@),
{
    match decode_base64(s) {
        None => Err(DecodeError::MalformedEncoding),
        Some(b) => match string_from_utf8(b) {
            None => Err(DecodeError::InvalidUtf8),
            Some(t) => Ok(t),
        },
    }
}

/// The UTF-8 text that a base64 payload carries, white space in the
/// payload (such as the line breaks of a wrapped blob) left out.
pub fn decode_blob(s: &str) -> (r: Result<String, DecodeError>)
    ensures
        text_view(r) == blob_text(s@),
{
    let stripped = strip_whitespace(s);
    decode_text(stripped.as_str())
}

/// Line breaks in a payload do not change the text it decodes to: a payload
/// decodes as the same payload with its line feeds taken out.
pub proof fn lemma_newlines_ignored(s: Seq<char>)
    ensures
        blob_text(s) == blob_text(strip_newlines(s)),
{
    lemma_strip_ws_newlines(s);
}

proof fn lemma_strip_ws_newlines(s: Seq<char>)
    ensures
        strip_ws(strip_newlines(s)) == strip_ws(s),
    decreases s.len(),
{
    if s.len() > 0 {
        lemma_strip_ws_newlines(s.drop_last());
        let t = strip_newlines(s.drop_last());
        if s.last() != '\n' {
            assert(t.push(s.last()).drop_last() =~= t);
        }
    }
}

} // verus!
