//! The request handler's decisions.
//!
//! Per request the handler: assigns a correlation id (reusing an inbound
//! `x-request-id` header or minting a fresh one), renders the request log
//! event, has the surrounding binary perform the one forwarding attempt,
//! and turns the outcome into the response log line and the response the
//! client receives — the upstream response unchanged on success, a mapped
//! HTTP 500 on failure. The handler itself never fails: every outcome maps
//! to some response.

use vstd::prelude::*;

use vstd::utf8::encode_utf8;
use vstd::utf8::decode_utf8;
use vstd::utf8::valid_utf8;
use vstd::utf8::encode_utf8_valid_utf8;
use vstd::utf8::encode_utf8_decode_utf8;

use crate::message::HttpResponse;
use crate::message::Pair;
use crate::message::ProxyFailure;
use crate::message::find_header;
use crate::message::header_value;
use crate::message::pair_views;
use crate::render::response_event;
use crate::render::response_log_event;
use crate::text::escape;
use crate::text::escape_text;
use crate::text::lemma_escape_text_nonempty;

verus! {

/// Relies on `uuid::Uuid::new_v4` and its `Display` impl: a fresh random
/// version-4 identifier in canonical hyphenated form, 36 characters long.
/// Nothing more is promised of a random value.
#[verifier::external_body]
fn fresh_request_id() -> (r: String)
    ensures
        r@.len() == 36,
{
    uuid::Uuid::new_v4().to_string()
}

/// The header whose value, when present and non-empty, becomes the
/// request's correlation id.
pub open spec fn request_id_header() -> Seq<char> {
    "x-request-id"@
}

/// Assign the correlation id: the inbound `x-request-id` value when the
/// request carries a non-empty one, else a freshly minted 36-character
/// identifier.
pub fn assign_request_id(headers: &Vec<Pair>) -> (r: String)
    ensures
        match header_value(headers@, request_id_header()) {
            Some(v) => (v.len() > 0 ==> r@ == v) && (v.len() == 0 ==> r@.len() == 36),
            None => r@.len() == 36,
        },
{
    match find_header(headers, "x-request-id") {
        Some(v) => {
            if v.as_str().unicode_len() > 0 {
                v
            } else {
                fresh_request_id()
            }
        },
        None => fresh_request_id(),
    }
}

/// The JSON document carried by an error response: a single `message`
/// field holding the failure's detail.
pub open spec fn error_message(detail: Seq<char>) -> Seq<char> {
    "{\"message\":\""@ + escape_text(detail) + "\"}"@
}

/// What the client receives for each kind of forwarding failure: always
/// HTTP 500; a JSON `message` body with `content-type: application/json`
/// for transport and destination failures; an empty body otherwise.
pub open spec fn error_response_matches(f: ProxyFailure, resp: HttpResponse) -> bool {
    &&& resp.status == 500
    &&& match f {
        ProxyFailure::Transport(d) => pair_views(resp.headers@) == seq![
            ("content-type"@, "application/json"@),
        ] && resp.body@ == encode_utf8(error_message(d@)),
        ProxyFailure::InvalidDestination(d) => pair_views(resp.headers@) == seq![
            ("content-type"@, "application/json"@),
        ] && resp.body@ == encode_utf8(error_message(d@)),
        ProxyFailure::Other(_) => resp.headers@.len() == 0 && resp.body@.len() == 0,
    }
}

/// Build the 500 response that carries a JSON `message` body.
fn error_json_response(detail: &String) -> (r: HttpResponse)
    ensures
        r.status == 500,
        pair_views(r.headers@) == seq![("content-type"@, "application/json"@)],
        r.body@ == encode_utf8(error_message(detail@)),
{
    let mut msg = String::new();
    msg.append("{\"message\":\"");
    let e = escape(detail.as_str());
    msg.append(e.as_str());
    msg.append("\"}");
    proof {
        assert(msg@ =~= error_message(detail@));
    }
    let body = msg.as_str().as_bytes_vec();
    let mut headers: Vec<Pair> = Vec::new();
    headers.push(
        Pair { name: "content-type".to_owned(), value: "application/json".to_owned() },
    );
    proof {
        assert(pair_views(headers@) =~= seq![("content-type"@, "application/json"@)]);
    }
    HttpResponse { status: 500, headers, body }
}

/// Map a forwarding failure onto the HTTP error response the client
/// receives.
pub fn error_response(f: &ProxyFailure) -> (r: HttpResponse)
    ensures
        error_response_matches(*f, r),
{
    match f {
        ProxyFailure::Transport(d) => error_json_response(d),
        ProxyFailure::InvalidDestination(d) => error_json_response(d),
        ProxyFailure::Other(_) => HttpResponse { status: 500, headers: Vec::new(), body: Vec::new() },
    }
}

/// The detail a failure is logged with, at error level.
pub open spec fn failure_detail(f: ProxyFailure) -> Seq<char> {
    match f {
        ProxyFailure::Transport(d) => d@,
        ProxyFailure::InvalidDestination(d) => d@,
        ProxyFailure::Other(d) => d@,
    }
}

/// The error-level log line a forwarding failure produces.
pub fn failure_log_event(f: &ProxyFailure) -> (r: String)
    ensures
        r@ == failure_detail(*f),
{
    match f {
        ProxyFailure::Transport(d) => d.clone(),
        ProxyFailure::InvalidDestination(d) => d.clone(),
        ProxyFailure::Other(d) => d.clone(),
    }
}

/// How the handler ends one request: the line to log, at which level, and
/// the response handed to the client.
pub struct HandlerVerdict {
    /// The response or failure log line.
    pub log_line: String,
    /// Whether the line is logged at error level (a failure) rather than
    /// as an ordinary response event.
    pub error_level: bool,
    /// The response the client receives.
    pub response: HttpResponse,
}

/// Conclude a request from the forwarding outcome. On success the client
/// receives the captured upstream response itself, unchanged, and the
/// response log event is rendered under the request's correlation id; on
/// failure the client receives the mapped 500 response and the failure's
/// detail is logged at error level. Every outcome yields a response: the
/// handler cannot fail.
pub fn handle_outcome(
    id: &str,
    json_envelope: bool,
    pretty: bool,
    outcome: Result<HttpResponse, ProxyFailure>,
) -> (v: HandlerVerdict)
    ensures
        outcome matches Ok(u) ==> {
            &&& v.response == u
            &&& v.log_line@ == response_event(u, id@, json_envelope, pretty)
            &&& !v.error_level
        },
        outcome matches Err(f) ==> {
            &&& error_response_matches(f, v.response)
            &&& v.log_line@ == failure_detail(f)
            &&& v.error_level
        },
{
    match outcome {
        Ok(upstream) => {
            let line = response_log_event(&upstream, id, json_envelope, pretty);
            HandlerVerdict { log_line: line, error_level: false, response: upstream }
        },
        Err(f) => {
            let line = failure_log_event(&f);
            let resp = error_response(&f);
            HandlerVerdict { log_line: line, error_level: true, response: resp }
        },
    }
}

/// Observation never mutates the payload: with a fixed upstream response,
/// every run of the handler's conclusion hands the client that response
/// itself, so repeated runs yield byte-identical content.
pub proof fn lemma_rerun_byte_identical(
    u: HttpResponse,
    first: HandlerVerdict,
    second: HandlerVerdict,
)
    requires
        first.response == u,
        second.response == u,
    ensures
        first.response.body@ == second.response.body@,
        first.response.status == second.response.status,
        pair_views(first.response.headers@) == pair_views(second.response.headers@),
{
}

/// Every forwarding failure becomes HTTP 500. A transport or destination
/// failure with a non-empty detail carries a JSON body whose decoded text
/// is the `message` document with the detail escaped inside it — non-empty
/// — under `content-type: application/json`; any other failure carries an
/// empty body.
pub proof fn lemma_failures_map_to_500(f: ProxyFailure, resp: HttpResponse)
    requires
        error_response_matches(f, resp),
    ensures
        resp.status == 500,
        f matches ProxyFailure::Transport(d) ==> {
            &&& valid_utf8(resp.body@)
            &&& decode_utf8(resp.body@) == error_message(d@)
            &&& d@.len() > 0 ==> escape_text(d@).len() > 0
            &&& pair_views(resp.headers@) == seq![("content-type"@, "application/json"@)]
        },
        f matches ProxyFailure::InvalidDestination(d) ==> {
            &&& valid_utf8(resp.body@)
            &&& decode_utf8(resp.body@) == error_message(d@)
            &&& d@.len() > 0 ==> escape_text(d@).len() > 0
            &&& pair_views(resp.headers@) == seq![("content-type"@, "application/json"@)]
        },
        f matches ProxyFailure::Other(_) ==> resp.body@.len() == 0,
{
    match f {
        ProxyFailure::Transport(d) => {
            encode_utf8_valid_utf8(error_message(d@));
            encode_utf8_decode_utf8(error_message(d@));
            lemma_escape_text_nonempty(d@);
        },
        ProxyFailure::InvalidDestination(d) => {
            encode_utf8_valid_utf8(error_message(d@));
            encode_utf8_decode_utf8(error_message(d@));
            lemma_escape_text_nonempty(d@);
        },
        ProxyFailure::Other(_) => {},
    }
}

} // verus!
