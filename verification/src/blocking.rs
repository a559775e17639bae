//! The body of every blocking answer of the gateway: a JSON object
//! `{"error":{...}}` naming the error code and message and the request's
//! request, trace and route ids.

use vstd::prelude::*;
use crate::numtext::{hex_digit, hex_digit_of};
use crate::text::{chars_of, push_str, string_of};

verus! {

/// A character inside a JSON string: `"` and `\` are escaped, control
/// characters are written as `\u00XX`.
pub open spec fn json_char(c: char) -> Seq<char> {
    if c == '"' {
        seq!['\\', '"']
    } else if c == '\\' {
        seq!['\\', '\\']
    } else if (c as u32) < 0x20 {
        seq!['\\', 'u', '0', '0', hex_digit((c as u32) as int / 16), hex_digit((c as u32) as int % 16)]
    } else {
        seq![c]
    }
}

/// The text of a JSON string's contents.
pub open spec fn json_text(s: Seq<char>) -> Seq<char>
    decreases s.len(),
{
    if s.len() == 0 {
        Seq::empty()
    } else {
        json_text(s.drop_last()) + json_char(s.last())
    }
}

/// `{"error":{"code":..,"message":..,"request_id":..,"trace_id":..,"route_id":..}}`.
pub open spec fn error_body_of(
    code: Seq<char>,
    message: Seq<char>,
    request_id: Seq<char>,
    trace_id: Seq<char>,
    route_id: Seq<char>,
) -> Seq<char> {
    "{\"error\":{\"code\":\""@ + json_text(code) + "\",\"message\":\""@ + json_text(message)
        + "\",\"request_id\":\""@ + json_text(request_id) + "\",\"trace_id\":\""@ + json_text(
        trace_id,
    ) + "\",\"route_id\":\""@ + json_text(route_id) + "\"}}"@
}

fn push_json_text(out: &mut Vec<char>, s: &str)
    ensures
        final(out)@ == old(out)@ + json_text(s@),
{
    let ghost start = out@;
    let v = chars_of(s);
    let mut i: usize = 0;
    assert(v@.take(0) =~= Seq::<char>::empty());
    while i < v.len()
        invariant
            i <= v.len(),
            v@ == s@,
            out@ == start + json_text(v@.take(i as int)),
        decreases v.len() - i,
    {
        let c = v[i];
        let ghost before = out@;
        if c == '"' {
            out.push('\\');
            out.push('"');
        } else if c == '\\' {
            out.push('\\');
            out.push('\\');
        } else if (c as u32) < 0x20 {
            out.push('\\');
            out.push('u');
            out.push('0');
            out.push('0');
            out.push(hex_digit_of((c as u32) / 16));
            out.push(hex_digit_of((c as u32) % 16));
        } else {
            out.push(c);
        }
        assert(out@ =~= before + json_char(c));
        assert(v@.take(i + 1).drop_last() =~= v@.take(i as int));
        assert(out@ =~= start + json_text(v@.take(i + 1)));
        i += 1;
    }
    assert(v@.take(i as int) =~= v@);
}

/// The body of a blocking answer.
pub fn error_body(
    code: &str,
    message: &str,
    request_id: &str,
    trace_id: &str,
    route_id: &str,
) -> (r: String)
    ensures
        r@ == error_body_of(code@, message@, request_id@, trace_id@, route_id@),
{
    let mut out: Vec<char> = Vec::new();
    push_str(&mut out, "{\"error\":{\"code\":\"");
    push_json_text(&mut out, code);
    push_str(&mut out, "\",\"message\":\"");
    push_json_text(&mut out, message);
    push_str(&mut out, "\",\"request_id\":\"");
    push_json_text(&mut out, request_id);
    push_str(&mut out, "\",\"trace_id\":\"");
    push_json_text(&mut out, trace_id);
    push_str(&mut out, "\",\"route_id\":\"");
    push_json_text(&mut out, route_id);
    push_str(&mut out, "\"}}");
    assert(out@ =~= error_body_of(code@, message@, request_id@, trace_id@, route_id@));
    assert(out@.subrange(0, out@.len() as int) =~= out@);
    string_of(&out, 0, out.len())
}

/// The tenant filter's 401: `missing_tenant`, "tenant header is required".
pub fn missing_tenant_body(request_id: &str, trace_id: &str, route_id: &str) -> (r: String)
    ensures
        r@ == error_body_of(
            "missing_tenant"@,
            "tenant header is required"@,
            request_id@,
            trace_id@,
            route_id@,
        ),
{
    error_body("missing_tenant", "tenant header is required", request_id, trace_id, route_id)
}

/// The auth filter's 401: `unauthorized`, "missing or invalid api key".
pub fn unauthorized_body(request_id: &str, trace_id: &str, route_id: &str) -> (r: String)
    ensures
        r@ == error_body_of(
            "unauthorized"@,
            "missing or invalid api key"@,
            request_id@,
            trace_id@,
            route_id@,
        ),
{
    error_body("unauthorized", "missing or invalid api key", request_id, trace_id, route_id)
}

/// The rate-limit filter's 429: `rate_limited`, "rate limit exceeded".
pub fn rate_limited_body(request_id: &str, trace_id: &str, route_id: &str) -> (r: String)
    ensures
        r@ == error_body_of(
            "rate_limited"@,
            "rate limit exceeded"@,
            request_id@,
            trace_id@,
            route_id@,
        ),
{
    error_body("rate_limited", "rate limit exceeded", request_id, trace_id, route_id)
}

} // verus!
