//! The `Program data: <base64>` lines through which Anchor programs log their
//! events.
use base64::Engine;
use vstd::prelude::*;
use vstd::utf8::is_ascii_chars;

use crate::text::{
    is_white_space, starts_with, strip_prefix, trim, trim_chars, trim_end_chars, trim_start_chars,
};

verus! {

/// The text that opens a log line carrying event data.
pub open spec fn program_data_prefix() -> Seq<char> {
    "Program data: "@
}

/// The opening of a data line that carries no event.
pub open spec fn synopsis_prefix() -> Seq<char> {
    "Synopsis "@
}

/// The Base64 text of an event-data log line: what follows
/// `"Program data: "`, trimmed, unless it starts with `"Synopsis "`.
pub open spec fn program_data_text(line: Seq<char>) -> Option<Seq<char>> {
    if program_data_prefix().is_prefix_of(line) {
        let data = trim_chars(line.skip(program_data_prefix().len() as int));
        if synopsis_prefix().is_prefix_of(data) {
            None
        } else {
            Some(data)
        }
    } else {
        None
    }
}

/// The bytes that `base64`'s `STANDARD` engine (standard alphabet, canonical
/// `=` padding) decodes `text` to, or `None` where it rejects the text.
pub uninterp spec fn base64_standard_decoded(text: Seq<char>) -> Option<Seq<u8>>;

/// A line made of `"Program data: "` and a text without surrounding white
/// space carries that text, unless it starts with `"Synopsis "`; a line that
/// does not start with `"Program data: "` carries none.
pub proof fn lemma_program_data_line(line: Seq<char>, t: Seq<char>)
    ensures
        line == "Program data: "@ + t && (t.len() == 0 || (!is_white_space(t[0])
            && !is_white_space(t.last()))) ==> program_data_text(line) == if "Synopsis "@.is_prefix_of(t) {
            None::<Seq<char>>
        } else {
            Some(t)
        },
        !"Program data: "@.is_prefix_of(line) ==> program_data_text(line) is None,
{
    reveal_strlit("Program data: ");
    reveal_strlit("Synopsis ");
    if line == "Program data: "@ + t {
        assert("Program data: "@.is_prefix_of(line));
        assert(line.skip(14) =~= t);
        if t.len() == 0 || (!is_white_space(t[0]) && !is_white_space(t.last())) {
            assert(trim_start_chars(t) == t);
            assert(trim_end_chars(t) == t);
        }
    }
}

/// The bytes an event-data log line carries, where its Base64 decodes.
pub open spec fn program_data_bytes(line: Seq<char>) -> Option<Seq<u8>> {
    match program_data_text(line) {
        Some(text) => base64_standard_decoded(text),
        None => None,
    }
}

/// Decodes with `base64::engine::general_purpose::STANDARD`. Its result is
/// named `base64_standard_decoded`; the engine accepts only the characters
/// `A-Z a-z 0-9 + / =`, so accepted text is ASCII.
#[verifier::external_body]
fn base64_decode(text: &str) -> (bytes: Option<Vec<u8>>)
    ensures
        bytes is Some <==> base64_standard_decoded(text@) is Some,
        bytes matches Some(b) ==> base64_standard_decoded(text@) == Some(b@),
        bytes is Some ==> is_ascii_chars(text@),
{
    base64::engine::general_purpose::STANDARD.decode(text).ok()
}

/// The Base64 text of an event-data log line (see [`program_data_text`]).
pub fn program_data_text_of(line: &str) -> (text: Option<&str>)
    ensures
        text is Some <==> program_data_text(line@) is Some,
        text matches Some(t) ==> program_data_text(line@) == Some(t@),
{
    let data = match strip_prefix(line, "Program data: ") {
        Some(rest) => trim(rest),
        None => return None,
    };
    if starts_with(data, "Synopsis ") {
        return None;
    }
    Some(data)
}

/// The Base64 text of an event-data log line and the bytes it decodes to.
pub fn program_data_of(line: &str) -> (r: Option<(&str, Vec<u8>)>)
    ensures
        r is Some <==> program_data_bytes(line@) is Some,
        r matches Some((text, bytes)) ==> {
            &&& program_data_text(line@) == Some(text@)
            &&& program_data_bytes(line@) == Some(bytes@)
            &&& is_ascii_chars(text@)
        },
{
    let text = match program_data_text_of(line) {
        Some(t) => t,
        None => return None,
    };
    match base64_decode(text) {
        Some(bytes) => Some((text, bytes)),
        None => None,
    }
}

} // verus!
