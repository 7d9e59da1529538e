//! The captured shapes of HTTP traffic as the library sees them.
//!
//! A request or response is captured once, as plain values, before anything
//! is logged or forwarded; the capture is never mutated afterwards. Header
//! sets are kept as ordered name/value pairs, bodies as byte buffers.

use vstd::prelude::*;

use crate::text::eq_ignore_ascii_case;
use crate::text::chars_of;

verus! {

/// One name/value pair of a header set or of a decoded query string.
pub struct Pair {
    pub name: String,
    pub value: String,
}

/// The views of a pair sequence: each pair as its two character sequences.
pub open spec fn pair_views(s: Seq<Pair>) -> Seq<(Seq<char>, Seq<char>)> {
    s.map_values(|p: Pair| (p.name@, p.value@))
}

/// The value of the first pair whose name matches `name` without regard to
/// ASCII case, if any. HTTP header names compare case-insensitively.
pub open spec fn header_value(hs: Seq<Pair>, name: Seq<char>) -> Option<Seq<char>>
    decreases hs.len(),
{
    if hs.len() == 0 {
        None
    } else if eq_ignore_ascii_case(hs[0].name@, name) {
        Some(hs[0].value@)
    } else {
        header_value(hs.drop_first(), name)
    }
}

/// Look a header up by name, without regard to ASCII case; the first match
/// wins, as its value stood in the capture.
pub fn find_header(hs: &Vec<Pair>, name: &str) -> (r: Option<String>)
    ensures
        match r {
            Some(v) => header_value(hs@, name@) == Some(v@),
            None => header_value(hs@, name@) is None,
        },
{
    let want = chars_of(name);
    let n = hs.len();
    proof {
        assert(hs@.skip(0) =~= hs@);
    }
    for i in 0..n
        invariant
            n == hs@.len(),
            want@ == name@,
            header_value(hs@, name@) == header_value(hs@.skip(i as int), name@),
    {
        let cand = chars_of(hs[i].name.as_str());
        proof {
            assert(hs@.skip(i as int).len() > 0);
            assert(hs@.skip(i as int)[0] == hs@[i as int]);
        }
        if crate::text::chars_eq_ignore_case(&cand, &want) {
            let v = hs[i].value.clone();
            return Some(v);
        }
        proof {
            assert(hs@.skip(i as int).drop_first() =~= hs@.skip(i + 1));
        }
    }
    proof {
        assert(hs@.skip(n as int).len() == 0);
    }
    None
}

/// The immutable snapshot of an inbound request: everything the loggers and
/// the forwarder need, taken once before the live body stream is consumed.
pub struct CapturedRequest {
    /// The request method, e.g. `GET`.
    pub method: String,
    /// The request path, without the query string.
    pub path: String,
    /// The raw query string, empty when the request carries none.
    pub query: String,
    /// The HTTP version, e.g. `HTTP/1.1`.
    pub version: String,
    /// The header set, in wire order.
    pub headers: Vec<Pair>,
    /// The whole body, drained exactly once from the live stream.
    pub body: Vec<u8>,
}

/// A response as plain values: either the captured upstream response or the
/// response handed back to the client.
pub struct HttpResponse {
    /// The status code, e.g. `200`.
    pub status: u16,
    /// The header set, in wire order.
    pub headers: Vec<Pair>,
    /// The whole body.
    pub body: Vec<u8>,
}

/// Why a forwarding attempt failed. Produced from the forwarding call's
/// error by the surrounding binary, consumed by the error mapping here.
pub enum ProxyFailure {
    /// The transport failed: connection refused, reset, timed out.
    Transport(String),
    /// The destination URL could not be turned into a valid upstream URI.
    InvalidDestination(String),
    /// Any other forwarding failure; no structured detail is guaranteed.
    Other(String),
}

} // verus!
