//! The text view of a captured body and its presentation.
//!
//! A body is a byte buffer. For logging it is decoded as UTF-8 (a buffer
//! that is not valid UTF-8 gets a placeholder rendering instead of failing);
//! with pretty fields enabled, a body that parses as JSON is re-serialized
//! with multi-line indentation, and anything else passes through verbatim.

use vstd::prelude::*;

use vstd::utf8::valid_utf8;
use vstd::utf8::decode_utf8;

verus! {

/// Whether a text parses as a JSON document, as serde_json decides it.
pub uninterp spec fn is_json(s: Seq<char>) -> bool;

/// The pretty-printed, multi-line form of a JSON text. It depends on the
/// text alone.
pub uninterp spec fn pretty_json_of(s: Seq<char>) -> Seq<char>;

/// Relies on `core::str::from_utf8` (std): succeeds exactly on valid UTF-8
/// and returns the decoded characters, as vstd's `valid_utf8` and
/// `decode_utf8` model them.
#[verifier::external_body]
fn utf8_text(b: &Vec<u8>) -> (r: Option<String>)
    ensures
        r is Some <==> valid_utf8(b@),
        r matches Some(s) ==> s@ == decode_utf8(b@),
{
    core::str::from_utf8(b.as_slice()).ok().map(|s| s.to_owned())
}

/// Relies on `serde_json::from_str::<serde_json::Value>`, which succeeds
/// exactly on a valid JSON document, and `serde_json::to_string_pretty`,
/// whose output is a function of the parsed document alone (and so of the
/// text alone); on a `Value` the latter cannot fail.
#[verifier::external_body]
fn pretty_json(s: &str) -> (r: Option<String>)
    ensures
        r is Some <==> is_json(s@),
        r matches Some(p) ==> p@ == pretty_json_of(s@),
{
    match serde_json::from_str::<serde_json::Value>(s) {
        Ok(v) => Some(serde_json::to_string_pretty(&v).unwrap_or_default()),
        Err(_) => None,
    }
}

/// The text a body is logged as: its UTF-8 decoding, or a placeholder for
/// bytes that are not valid UTF-8 (decoding must not fail the request).
pub open spec fn body_text_of(b: Seq<u8>) -> Seq<char> {
    if valid_utf8(b) {
        decode_utf8(b)
    } else {
        "<body is not valid utf-8>"@
    }
}

/// Whether the body is presented as a JSON document: only with pretty
/// fields enabled, and only when its text parses as JSON.
pub open spec fn body_rendered_as_json(b: Seq<u8>, pretty: bool) -> bool {
    pretty && valid_utf8(b) && is_json(decode_utf8(b))
}

/// What a body is rendered as: pretty-printed JSON when pretty fields are
/// enabled and the text parses as JSON, its plain text otherwise.
pub open spec fn body_rendering(b: Seq<u8>, pretty: bool) -> Seq<char> {
    if body_rendered_as_json(b, pretty) {
        pretty_json_of(decode_utf8(b))
    } else {
        body_text_of(b)
    }
}

/// Render a body for logging. Returns the rendering and whether it is a
/// JSON document (so an enclosing JSON envelope can embed it unquoted).
pub fn format_body(b: &Vec<u8>, pretty: bool) -> (r: (String, bool))
    ensures
        r.0@ == body_rendering(b@, pretty),
        r.1 == body_rendered_as_json(b@, pretty),
{
    match utf8_text(b) {
        Some(text) => {
            if pretty {
                match pretty_json(text.as_str()) {
                    Some(p) => (p, true),
                    None => (text, false),
                }
            } else {
                (text, false)
            }
        },
        None => {
            let placeholder = "<body is not valid utf-8>";
            (placeholder.to_owned(), false)
        },
    }
}

/// A body whose text is not JSON — or any body with pretty fields off — is
/// logged verbatim: the rendering is exactly the body's decoded text.
pub proof fn lemma_non_json_body_verbatim(b: Seq<u8>, pretty: bool)
    requires
        valid_utf8(b),
        !pretty || !is_json(decode_utf8(b)),
    ensures
        body_rendering(b, pretty) == decode_utf8(b),
{
}

} // verus!
