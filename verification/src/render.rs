//! Rendering of log events.
//!
//! Each captured request and each captured response becomes exactly one log
//! line. Two envelopes exist: a human-readable multi-line block and a
//! single-line structured JSON object. Nested values (query map, header set,
//! body) are pretty-printed when pretty fields are enabled and rendered
//! compactly otherwise; the envelope choice never changes the field set.

use vstd::prelude::*;

use crate::body::body_rendered_as_json;
use crate::body::body_rendering;
use crate::body::body_text_of;
use crate::body::format_body;
use crate::message::CapturedRequest;
use crate::message::HttpResponse;
use crate::message::Pair;
use crate::message::pair_views;
use crate::query::decode_query;
use crate::query::query_pairs_of;
use crate::text::escape;
use crate::text::escape_text;
use crate::text::hex_digit;
use crate::text::string_from_chars;

verus! {

/// One rendered map entry: `"key": "value"`, indented when pretty.
pub open spec fn entry_text(k: Seq<char>, v: Seq<char>, pretty: bool) -> Seq<char> {
    (if pretty {
        "  \""@
    } else {
        "\""@
    }) + escape_text(k) + "\": \""@ + escape_text(v) + "\""@
}

/// The separator between rendered map entries.
pub open spec fn entry_sep(pretty: bool) -> Seq<char> {
    if pretty {
        ",\n"@
    } else {
        ", "@
    }
}

/// The entries of a pair list rendered in order, separated.
pub open spec fn entries_text(ps: Seq<(Seq<char>, Seq<char>)>, pretty: bool) -> Seq<char>
    decreases ps.len(),
{
    if ps.len() == 0 {
        Seq::empty()
    } else {
        entries_text(ps.drop_last(), pretty) + (if ps.len() == 1 {
            Seq::<char>::empty()
        } else {
            entry_sep(pretty)
        }) + entry_text(ps.last().0, ps.last().1, pretty)
    }
}

/// A pair list rendered as a braced map: one line when compact, one entry
/// per line when pretty (an empty pretty map collapses to `{}`).
pub open spec fn pairs_text(ps: Seq<(Seq<char>, Seq<char>)>, pretty: bool) -> Seq<char> {
    if pretty {
        if ps.len() == 0 {
            "{}"@
        } else {
            "{\n"@ + entries_text(ps, true) + "\n}"@
        }
    } else {
        "{"@ + entries_text(ps, false) + "}"@
    }
}

/// Append one rendered entry to the output.
fn push_entry(out: &mut String, p: &Pair, pretty: bool)
    ensures
        final(out)@ == old(out)@ + entry_text(p.name@, p.value@, pretty),
{
    if pretty {
        out.append("  \"");
    } else {
        out.append("\"");
    }
    let ek = escape(p.name.as_str());
    out.append(ek.as_str());
    out.append("\": \"");
    let ev = escape(p.value.as_str());
    out.append(ev.as_str());
    out.append("\"");
    proof {
        assert(out@ =~= old(out)@ + entry_text(p.name@, p.value@, pretty));
    }
}

/// Render a pair list (a decoded query map or a header set) as a map.
pub fn render_pairs(ps: &Vec<Pair>, pretty: bool) -> (r: String)
    ensures
        r@ == pairs_text(pair_views(ps@), pretty),
{
    let n = ps.len();
    if pretty && n == 0 {
        let r = String::from_str("{}");
        return r;
    }
    let mut out = String::new();
    if pretty {
        out.append("{\n");
    } else {
        out.append("{");
    }
    let ghost opened = out@;
    proof {
        assert(entries_text(pair_views(ps@).take(0), pretty) =~= Seq::<char>::empty());
        assert(out@ =~= opened + entries_text(pair_views(ps@).take(0), pretty));
    }
    for i in 0..n
        invariant
            n == ps@.len(),
            out@ == opened + entries_text(pair_views(ps@).take(i as int), pretty),
    {
        if i > 0 {
            match pretty {
                true => out.append(",\n"),
                false => out.append(", "),
            }
        }
        push_entry(&mut out, &ps[i], pretty);
        proof {
            let views = pair_views(ps@);
            assert(views.take(i + 1).drop_last() =~= views.take(i as int));
            assert(views.take(i + 1).last() == views[i as int]);
            assert(out@ =~= opened + entries_text(views.take(i + 1), pretty));
        }
    }
    proof {
        assert(pair_views(ps@).take(n as int) =~= pair_views(ps@));
    }
    if pretty {
        out.append("\n}");
    } else {
        out.append("}");
    }
    proof {
        assert(out@ =~= pairs_text(pair_views(ps@), pretty));
    }
    out
}

/// The decimal digits of a number, most significant first.
pub open spec fn dec_str(n: nat) -> Seq<char>
    decreases n,
{
    if n < 10 {
        seq![hex_digit(n as u32)]
    } else {
        dec_str((n / 10) as nat) + seq![hex_digit((n % 10) as u32)]
    }
}

fn push_dec(out: &mut Vec<char>, n: u16)
    ensures
        final(out)@ == old(out)@ + dec_str(n as nat),
    decreases n,
{
    if n < 10 {
        out.push(crate::text::hex_digit_char(n as u32));
        proof {
            assert(out@ =~= old(out)@ + dec_str(n as nat));
        }
    } else {
        assert(n / 10 < n && n / 10 >= 1) by (nonlinear_arith)
            requires
                n >= 10,
        ;
        push_dec(out, n / 10);
        out.push(crate::text::hex_digit_char((n % 10) as u32));
        proof {
            assert((n as nat) / 10 == (n / 10) as nat);
            assert((n as nat) % 10 == (n % 10) as nat);
            assert(out@ =~= old(out)@ + dec_str(n as nat));
        }
    }
}

/// A status code as decimal text.
pub fn status_text(n: u16) -> (r: String)
    ensures
        r@ == dec_str(n as nat),
{
    let mut digits: Vec<char> = Vec::new();
    push_dec(&mut digits, n);
    string_from_chars(&digits)
}

/// The fragment that tags a log event with its correlation id, in either
/// envelope.
pub open spec fn id_marker(id: Seq<char>, json_envelope: bool) -> Seq<char> {
    if json_envelope {
        "\"requestId\":\""@ + escape_text(id) + "\""@
    } else {
        "\nRequestId: "@ + id + "\n"@
    }
}

/// What both envelopes open with, before the correlation id.
pub open spec fn event_prefix(json_envelope: bool, request: bool) -> Seq<char> {
    if json_envelope {
        if request {
            "{\"type\":\"request\","@
        } else {
            "{\"type\":\"response\","@
        }
    } else {
        "\n-----------------"@
    }
}

/// A body embedded in the JSON envelope: unquoted when it is itself a JSON
/// document, a quoted escaped string otherwise.
pub open spec fn body_field(b: Seq<u8>, pretty: bool) -> Seq<char> {
    if body_rendered_as_json(b, pretty) {
        body_rendering(b, pretty)
    } else {
        "\""@ + escape_text(body_text_of(b)) + "\""@
    }
}

/// Everything of a request log event after the correlation id.
pub open spec fn request_tail(req: CapturedRequest, json_envelope: bool, pretty: bool) -> Seq<
    char,
> {
    let q = pairs_text(query_pairs_of(req.query@), pretty);
    let h = pairs_text(pair_views(req.headers@), pretty);
    if json_envelope {
        ",\"path\":\""@ + escape_text(req.path@) + "\",\"query\":"@ + q + ",\"method\":\""@
            + escape_text(req.method@) + "\",\"version\":\""@ + escape_text(req.version@)
            + "\",\"headers\":"@ + h + ",\"body\":"@ + body_field(req.body@, pretty) + "}"@
    } else {
        "Path: "@ + req.path@ + "\nQuery: "@ + q + "\nMethod: "@ + req.method@ + "\nVersion: "@
            + req.version@ + "\nHeaders: "@ + h + "\nBody: "@ + body_rendering(req.body@, pretty)
            + "\n-----------------"@
    }
}

/// The one log event a captured request becomes.
pub open spec fn request_event(req: CapturedRequest, id: Seq<char>, json_envelope: bool, pretty: bool) -> Seq<char> {
    event_prefix(json_envelope, true) + id_marker(id, json_envelope) + request_tail(
        req,
        json_envelope,
        pretty,
    )
}

/// Everything of a response log event after the correlation id.
pub open spec fn response_tail(resp: HttpResponse, json_envelope: bool, pretty: bool) -> Seq<
    char,
> {
    let h = pairs_text(pair_views(resp.headers@), pretty);
    if json_envelope {
        ",\"headers\":"@ + h + ",\"body\":"@ + body_field(resp.body@, pretty)
            + ",\"statusCode\":\""@ + dec_str(resp.status as nat) + "\"}"@
    } else {
        "Headers: "@ + h + "\nStatusCode: "@ + dec_str(resp.status as nat) + "\nBody: "@
            + body_rendering(resp.body@, pretty) + "\n-----------------"@
    }
}

/// The one log event a captured response becomes.
pub open spec fn response_event(resp: HttpResponse, id: Seq<char>, json_envelope: bool, pretty: bool) -> Seq<char> {
    event_prefix(json_envelope, false) + id_marker(id, json_envelope) + response_tail(
        resp,
        json_envelope,
        pretty,
    )
}

/// Append a body to the JSON envelope: unquoted when it is itself JSON.
fn push_body_field(out: &mut String, text: &String, as_json: bool)
    ensures
        final(out)@ == old(out)@ + (if as_json {
            text@
        } else {
            "\""@ + escape_text(text@) + "\""@
        }),
{
    if as_json {
        out.append(text.as_str());
    } else {
        out.append("\"");
        let e = escape(text.as_str());
        out.append(e.as_str());
        out.append("\"");
        proof {
            assert(out@ =~= old(out)@ + ("\""@ + escape_text(text@) + "\""@));
        }
    }
}

/// Assemble everything of the request log event after the correlation id.
#[verifier::rlimit(80)]
fn request_tail_exec(req: &CapturedRequest, json_envelope: bool, pretty: bool) -> (r: String)
    ensures
        r@ == request_tail(*req, json_envelope, pretty),
{
    let qpairs = decode_query(req.query.as_str());
    let q = render_pairs(&qpairs, pretty);
    let h = render_pairs(&req.headers, pretty);
    let (btext, bjson) = format_body(&req.body, pretty);
    let mut out = String::new();
    if json_envelope {
        out.append(",\"path\":\"");
        let ep = escape(req.path.as_str());
        out.append(ep.as_str());
        out.append("\",\"query\":");
        out.append(q.as_str());
        out.append(",\"method\":\"");
        let em = escape(req.method.as_str());
        out.append(em.as_str());
        out.append("\",\"version\":\"");
        let ev = escape(req.version.as_str());
        out.append(ev.as_str());
        out.append("\",\"headers\":");
        out.append(h.as_str());
        out.append(",\"body\":");
        push_body_field(&mut out, &btext, bjson);
        out.append("}");
        proof {
            assert(!bjson ==> btext@ == body_text_of(req.body@));
            assert(out@ =~= request_tail(*req, json_envelope, pretty));
        }
    } else {
        out.append("Path: ");
        out.append(req.path.as_str());
        out.append("\nQuery: ");
        out.append(q.as_str());
        out.append("\nMethod: ");
        out.append(req.method.as_str());
        out.append("\nVersion: ");
        out.append(req.version.as_str());
        out.append("\nHeaders: ");
        out.append(h.as_str());
        out.append("\nBody: ");
        out.append(btext.as_str());
        out.append("\n-----------------");
        proof {
            assert(out@ =~= request_tail(*req, json_envelope, pretty));
        }
    }
    out
}

/// Assemble everything of the response log event after the correlation id.
#[verifier::rlimit(80)]
fn response_tail_exec(resp: &HttpResponse, json_envelope: bool, pretty: bool) -> (r: String)
    ensures
        r@ == response_tail(*resp, json_envelope, pretty),
{
    let h = render_pairs(&resp.headers, pretty);
    let (btext, bjson) = format_body(&resp.body, pretty);
    let status = status_text(resp.status);
    let mut out = String::new();
    if json_envelope {
        out.append(",\"headers\":");
        out.append(h.as_str());
        out.append(",\"body\":");
        push_body_field(&mut out, &btext, bjson);
        out.append(",\"statusCode\":\"");
        out.append(status.as_str());
        out.append("\"}");
        proof {
            assert(!bjson ==> btext@ == body_text_of(resp.body@));
            assert(out@ =~= response_tail(*resp, json_envelope, pretty));
        }
    } else {
        out.append("Headers: ");
        out.append(h.as_str());
        out.append("\nStatusCode: ");
        out.append(status.as_str());
        out.append("\nBody: ");
        out.append(btext.as_str());
        out.append("\n-----------------");
        proof {
            assert(out@ =~= response_tail(*resp, json_envelope, pretty));
        }
    }
    out
}

/// Append the envelope's opening and the correlation id's marker.
fn push_event_head(out: &mut String, id: &str, json_envelope: bool, request: bool)
    ensures
        final(out)@ == old(out)@ + event_prefix(json_envelope, request) + id_marker(
            id@,
            json_envelope,
        ),
{
    if json_envelope {
        if request {
            out.append("{\"type\":\"request\",");
        } else {
            out.append("{\"type\":\"response\",");
        }
        out.append("\"requestId\":\"");
        let eid = escape(id);
        out.append(eid.as_str());
        out.append("\"");
    } else {
        out.append("\n-----------------");
        out.append("\nRequestId: ");
        out.append(id);
        out.append("\n");
    }
    proof {
        assert(out@ =~= old(out)@ + event_prefix(json_envelope, request) + id_marker(
            id@,
            json_envelope,
        ));
    }
}

/// Assemble the request log event.
pub fn request_log_event(
    req: &CapturedRequest,
    id: &str,
    json_envelope: bool,
    pretty: bool,
) -> (r: String)
    ensures
        r@ == request_event(*req, id@, json_envelope, pretty),
{
    let mut out = String::new();
    push_event_head(&mut out, id, json_envelope, true);
    let tail = request_tail_exec(req, json_envelope, pretty);
    out.append(tail.as_str());
    proof {
        assert(out@ =~= request_event(*req, id@, json_envelope, pretty));
    }
    out
}

/// Assemble the response log event.
pub fn response_log_event(
    resp: &HttpResponse,
    id: &str,
    json_envelope: bool,
    pretty: bool,
) -> (r: String)
    ensures
        r@ == response_event(*resp, id@, json_envelope, pretty),
{
    let mut out = String::new();
    push_event_head(&mut out, id, json_envelope, false);
    let tail = response_tail_exec(resp, json_envelope, pretty);
    out.append(tail.as_str());
    proof {
        assert(out@ =~= response_event(*resp, id@, json_envelope, pretty));
    }
    out
}

/// Whether a text contains the given fragment.
pub open spec fn contains_text(hay: Seq<char>, frag: Seq<char>) -> bool {
    exists|i: int|
        0 <= i && i + frag.len() <= hay.len() && #[trigger] hay.subrange(i, i + frag.len())
            == frag
}

/// A fragment standing between two others is contained in the whole.
proof fn lemma_concat_contains(a: Seq<char>, m: Seq<char>, r: Seq<char>)
    ensures
        contains_text(a + m + r, m),
{
    let hay = a + m + r;
    let i = a.len() as int;
    assert(hay.subrange(i, i + m.len()) =~= m);
}

/// Both log events of one request/response pair carry the same correlation
/// id: each contains the id's marker for the envelope in use, built from the
/// one id the pair was tagged with.
pub proof fn lemma_events_share_id(
    req: CapturedRequest,
    resp: HttpResponse,
    id: Seq<char>,
    json_envelope: bool,
    pretty: bool,
)
    ensures
        contains_text(request_event(req, id, json_envelope, pretty), id_marker(id, json_envelope)),
        contains_text(
            response_event(resp, id, json_envelope, pretty),
            id_marker(id, json_envelope),
        ),
{
    lemma_concat_contains(
        event_prefix(json_envelope, true),
        id_marker(id, json_envelope),
        request_tail(req, json_envelope, pretty),
    );
    lemma_concat_contains(
        event_prefix(json_envelope, false),
        id_marker(id, json_envelope),
        response_tail(resp, json_envelope, pretty),
    );
}

} // verus!
