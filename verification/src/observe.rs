//! The observe filter: the start-time record kept per request, the latency
//! derived from it, the decision headers copied onto the response and the
//! line it logs.

use vstd::prelude::*;
use vstd::bytes::{spec_u64_from_le_bytes, u64_from_le_bytes};
use vstd::slice::slice_subrange;
use crate::numtext::{dec_chars, dec_of};
use crate::rate_limit::raw_view;
use crate::text::{push_all, push_str, string_of};

verus! {

/// `obs:start:<context id>`.
pub open spec fn start_key_of(context_id: u32) -> Seq<char> {
    "obs:start:"@ + dec_chars(context_id as nat)
}

/// The shared-data key holding a request's start time.
pub fn start_key(context_id: u32) -> (r: String)
    ensures
        r@ == start_key_of(context_id),
{
    let mut out: Vec<char> = Vec::new();
    push_str(&mut out, "obs:start:");
    let d = dec_of(context_id as u64);
    push_all(&mut out, &d, 0, d.len());
    assert(d@.subrange(0, d@.len() as int) =~= d@);
    assert(out@.subrange(0, out@.len() as int) =~= out@);
    string_of(&out, 0, out.len())
}

/// Whole milliseconds since the recorded start: a record of at least 8
/// bytes holds the start in nanoseconds (little-endian); without one the
/// latency is 0. A clock behind the start gives 0.
pub open spec fn latency_ms(raw: Option<Seq<u8>>, now_ns: u64) -> u64 {
    match raw {
        Some(b) => if b.len() >= 8 {
            let start = spec_u64_from_le_bytes(b.subrange(0, 8));
            (if now_ns >= start {
                now_ns - start
            } else {
                0
            }) as u64 / 1_000_000
        } else {
            0
        },
        None => 0,
    }
}

/// The latency the observe filter logs.
pub fn elapsed_ms(raw: Option<&[u8]>, now_ns: u64) -> (r: u64)
    ensures
        r == latency_ms(raw_view(raw), now_ns),
{
    match raw {
        Some(b) => {
            if b.len() >= 8 {
                let start = u64_from_le_bytes(slice_subrange(b, 0, 8));
                now_ns.saturating_sub(start) / 1_000_000
            } else {
                0
            }
        },
        None => 0,
    }
}

/// A one-header list when the value is present.
pub open spec fn header_if(name: Seq<char>, value: Option<String>) -> Seq<(Seq<char>, Seq<char>)> {
    match value {
        Some(d) => seq![(name, d@)],
        None => Seq::empty(),
    }
}

/// The response headers the observe filter copies from the request: the
/// decision, its reason and the revision, each only when the request
/// carries it.
pub fn copied_response_headers(
    decision: Option<String>,
    reason: Option<String>,
    revision: Option<String>,
) -> (r: Vec<(String, String)>)
    ensures
        r.deep_view() == header_if("x-gateway-decision"@, decision) + header_if(
            "x-gateway-decision-reason"@,
            reason,
        ) + header_if("x-gateway-revision"@, revision),
{
    let mut r: Vec<(String, String)> = Vec::new();
    let ghost a = header_if("x-gateway-decision"@, decision);
    let ghost b = header_if("x-gateway-decision-reason"@, reason);
    let ghost c = header_if("x-gateway-revision"@, revision);
    if let Some(d) = decision {
        r.push((String::from_str("x-gateway-decision"), d));
    }
    assert(r.deep_view() =~= a);
    if let Some(d) = reason {
        r.push((String::from_str("x-gateway-decision-reason"), d));
    }
    assert(r.deep_view() =~= a + b);
    if let Some(d) = revision {
        r.push((String::from_str("x-gateway-revision"), d));
    }
    assert(r.deep_view() =~= a + b + c);
    r
}

/// `observe: decision=.. reason=.. tenant=.. route=.. revision=.. latency_ms=..`,
/// the decision reading `unknown` when the request carries none.
pub open spec fn log_line(
    decision: Option<Seq<char>>,
    reason: Seq<char>,
    tenant: Seq<char>,
    route: Seq<char>,
    revision: Seq<char>,
    latency: u64,
) -> Seq<char> {
    "observe: decision="@ + (match decision {
        Some(d) => d,
        None => "unknown"@,
    }) + " reason="@ + reason + " tenant="@ + tenant + " route="@ + route + " revision="@
        + revision + " latency_ms="@ + dec_chars(latency as nat)
}

/// The line the observe filter logs at the end of a request.
pub fn log_message(
    decision: Option<&str>,
    reason: &str,
    tenant: &str,
    route: &str,
    revision: &str,
    latency: u64,
) -> (r: String)
    ensures
        r@ == log_line(
            match decision {
                Some(d) => Some(d@),
                None => None,
            },
            reason@,
            tenant@,
            route@,
            revision@,
            latency,
        ),
{
    let mut out: Vec<char> = Vec::new();
    push_str(&mut out, "observe: decision=");
    match decision {
        Some(d) => push_str(&mut out, d),
        None => push_str(&mut out, "unknown"),
    }
    push_str(&mut out, " reason=");
    push_str(&mut out, reason);
    push_str(&mut out, " tenant=");
    push_str(&mut out, tenant);
    push_str(&mut out, " route=");
    push_str(&mut out, route);
    push_str(&mut out, " revision=");
    push_str(&mut out, revision);
    push_str(&mut out, " latency_ms=");
    let d = dec_of(latency);
    push_all(&mut out, &d, 0, d.len());
    assert(d@.subrange(0, d@.len() as int) =~= d@);
    assert(out@ =~= log_line(
        match decision {
            Some(d) => Some(d@),
            None => None,
        },
        reason@,
        tenant@,
        route@,
        revision@,
        latency,
    ));
    assert(out@.subrange(0, out@.len() as int) =~= out@);
    string_of(&out, 0, out.len())
}

} // verus!
