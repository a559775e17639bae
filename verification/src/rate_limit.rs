//! The rate-limit filter: its configuration scanner, the rule lookup by
//! tenant/service/route, the 16-byte bucket record kept in shared data,
//! and the fixed-window admission step.

use vstd::prelude::*;
use vstd::bytes::{
    lemma_auto_spec_u64_to_from_le_bytes, spec_u64_from_le_bytes, spec_u64_to_le_bytes,
    u64_from_le_bytes, u64_to_le_bytes,
};
use vstd::slice::slice_subrange;
use crate::header::quoted;
use crate::numtext::parse_digits;
use crate::numtext::parse_digits_in;
use crate::numtext::all_digits;
use crate::text::{
    chars_of, eq_char, find_char_in, find_first, find_non_digit_in, find_seq, find_seq_in,
    lemma_find_first, lemma_find_seq, not_digit, push_all, push_str, skip_ws, string_of,
    trim_start,
};
use crate::auth::lemma_trim_start_len;

verus! {

/// A limit for one key: `tenant`, `tenant:service` or
/// `tenant:service:route`.
pub struct RateLimitRule {
    pub key: String,
    pub requests: u64,
    pub window_secs: u64,
}

impl DeepView for RateLimitRule {
    type V = (Seq<char>, u64, u64);

    open spec fn deep_view(&self) -> (Seq<char>, u64, u64) {
        (self.key@, self.requests, self.window_secs)
    }
}

/// `tenant:service:route`.
pub open spec fn route_key(tenant: Seq<char>, service: Seq<char>, route: Seq<char>) -> Seq<
    char,
> {
    tenant + seq![':'] + service + seq![':'] + route
}

/// `tenant:service`.
pub open spec fn service_key(tenant: Seq<char>, service: Seq<char>) -> Seq<char> {
    tenant + seq![':'] + service
}

/// A rule applies to a request when its key is the request's route key,
/// its service key or its tenant.
pub open spec fn rule_applies(
    key: Seq<char>,
    tenant: Seq<char>,
    service: Seq<char>,
    route: Seq<char>,
) -> bool {
    key == route_key(tenant, service, route) || key == service_key(tenant, service) || key
        == tenant
}

/// `(requests, window)` of the first rule that applies, else the defaults.
pub open spec fn limit_for(
    rules: Seq<(Seq<char>, u64, u64)>,
    default_requests: u64,
    default_window_secs: u64,
    tenant: Seq<char>,
    service: Seq<char>,
    route: Seq<char>,
) -> (u64, u64)
    decreases rules.len(),
{
    if rules.len() == 0 {
        (default_requests, default_window_secs)
    } else if rule_applies(rules[0].0, tenant, service, route) {
        (rules[0].1, rules[0].2)
    } else {
        limit_for(rules.drop_first(), default_requests, default_window_secs, tenant, service, route)
    }
}

/// `a:b`, or `a:b:c`.
fn join_colon(parts: &Vec<&str>) -> (r: String)
    requires
        parts.len() == 2 || parts.len() == 3,
    ensures
        parts.len() == 2 ==> r@ == service_key(parts[0]@, parts[1]@),
        parts.len() == 3 ==> r@ == route_key(parts[0]@, parts[1]@, parts[2]@),
{
    let mut out: Vec<char> = Vec::new();
    push_str(&mut out, parts[0]);
    out.push(':');
    push_str(&mut out, parts[1]);
    if parts.len() == 3 {
        out.push(':');
        push_str(&mut out, parts[2]);
    }
    let r = string_of(&out, 0, out.len());
    assert(out@.subrange(0, out@.len() as int) =~= out@);
    proof {
        if parts.len() == 2 {
            assert(out@ =~= service_key(parts[0]@, parts[1]@));
        } else {
            assert(out@ =~= route_key(parts[0]@, parts[1]@, parts[2]@));
        }
    }
    r
}

/// The `(requests, window_secs)` that apply to a request: those of the
/// first rule keyed by its route key, service key or tenant, else the
/// defaults.
pub fn find_rule(
    rules: &[RateLimitRule],
    default_requests: u64,
    default_window_secs: u64,
    tenant: &str,
    service: &str,
    route: &str,
) -> (r: (u64, u64))
    ensures
        r == limit_for(
            rules.deep_view(),
            default_requests,
            default_window_secs,
            tenant@,
            service@,
            route@,
        ),
{
    let ghost all = rules.deep_view();
    let full_key = join_colon(&vec![tenant, service, route]);
    let svc_key = join_colon(&vec![tenant, service]);
    let tenant_s = String::from_str(tenant);
    let mut i: usize = 0;
    assert(all.skip(0) =~= all);
    while i < rules.len()
        invariant
            i <= rules@.len(),
            all == rules.deep_view(),
            full_key@ == route_key(tenant@, service@, route@),
            svc_key@ == service_key(tenant@, service@),
            tenant_s@ == tenant@,
            limit_for(all, default_requests, default_window_secs, tenant@, service@, route@)
                == limit_for(
                all.skip(i as int),
                default_requests,
                default_window_secs,
                tenant@,
                service@,
                route@,
            ),
        decreases rules@.len() - i,
    {
        let rule = &rules[i];
        assert(all.skip(i as int)[0] == rule.deep_view());
        if rule.key == full_key || rule.key == svc_key || rule.key == tenant_s {
            return (rule.requests, rule.window_secs);
        }
        assert(all.skip(i as int).drop_first() =~= all.skip(i + 1));
        i += 1;
    }
    assert(all.skip(i as int) =~= Seq::<(Seq<char>, u64, u64)>::empty());
    (default_requests, default_window_secs)
}

/// The 16-byte bucket record: window start, then count, both
/// little-endian.
pub open spec fn bucket_bytes(window_start: u64, count: u64) -> Seq<u8> {
    spec_u64_to_le_bytes(window_start) + spec_u64_to_le_bytes(count)
}

/// Reading a bucket record: a record of at least 16 bytes gives its two
/// leading words; no record, or a shorter one, reads as `(0, 0)`.
pub open spec fn read_bucket(raw: Option<Seq<u8>>) -> (u64, u64) {
    match raw {
        Some(b) => if b.len() >= 16 {
            (spec_u64_from_le_bytes(b.subrange(0, 8)), spec_u64_from_le_bytes(b.subrange(8, 16)))
        } else {
            (0, 0)
        },
        None => (0, 0),
    }
}

/// The raw bytes of an optional record.
pub open spec fn raw_view(raw: Option<&[u8]>) -> Option<Seq<u8>> {
    match raw {
        Some(b) => Some(b@),
        None => None,
    }
}

/// Encodes a bucket record.
pub fn encode_bucket(window_start: u64, count: u64) -> (v: Vec<u8>)
    ensures
        v@ == bucket_bytes(window_start, count),
{
    let mut v = u64_to_le_bytes(window_start);
    let mut c = u64_to_le_bytes(count);
    v.append(&mut c);
    v
}

/// Decodes a bucket record.
pub fn decode_bucket(raw: Option<&[u8]>) -> (r: (u64, u64))
    ensures
        r == read_bucket(raw_view(raw)),
{
    match raw {
        Some(b) => {
            if b.len() >= 16 {
                let ws = u64_from_le_bytes(slice_subrange(b, 0, 8));
                let cnt = u64_from_le_bytes(slice_subrange(b, 8, 16));
                (ws, cnt)
            } else {
                (0, 0)
            }
        },
        None => (0, 0),
    }
}

/// Decoding an encoded bucket gives back what was encoded.
pub proof fn bucket_roundtrip(window_start: u64, count: u64)
    ensures
        bucket_bytes(window_start, count).len() == 16,
        read_bucket(Some(bucket_bytes(window_start, count))) == (window_start, count),
{
    lemma_auto_spec_u64_to_from_le_bytes();
    let b = bucket_bytes(window_start, count);
    assert(spec_u64_to_le_bytes(window_start).len() == 8);
    assert(spec_u64_to_le_bytes(count).len() == 8);
    assert(b.subrange(0, 8) =~= spec_u64_to_le_bytes(window_start));
    assert(b.subrange(8, 16) =~= spec_u64_to_le_bytes(count));
}

/// The value of a numeric field: after the first `"field"`, the first `:`
/// and optional whitespace, the run of ASCII digits, parsed as a `u64`.
pub open spec fn inline_u64(s: Seq<char>, field: Seq<char>) -> Option<u64> {
    let needle = quoted(field);
    match find_seq(s, needle) {
        None => None,
        Some(p) => {
            let after = s.skip(p + needle.len());
            match find_first(after, eq_char(':')) {
                None => None,
                Some(c) => {
                    let val = trim_start(after.skip(c + 1));
                    let end = match find_first(val, not_digit()) {
                        Some(e) => e,
                        None => val.len() as int,
                    };
                    parse_digits(val.take(end))
                },
            }
        },
    }
}

/// The value of a numeric field found after the first occurrence of
/// `section`.
pub open spec fn section_u64(s: Seq<char>, section: Seq<char>, field: Seq<char>) -> Option<u64> {
    match find_seq(s, section) {
        None => None,
        Some(p) => inline_u64(s.skip(p), field),
    }
}

fn inline_u64_in(v: &Vec<char>, lo: usize, hi: usize, f: &Vec<char>) -> (r: Option<u64>)
    requires
        lo <= hi <= v.len(),
    ensures
        r == inline_u64(v@.subrange(lo as int, hi as int), f@),
{
    let ghost s = v@.subrange(lo as int, hi as int);
    let mut needle: Vec<char> = Vec::new();
    needle.push('"');
    push_all(&mut needle, f, 0, f.len());
    needle.push('"');
    assert(needle@ =~= quoted(f@));
    assert(f@.subrange(0, f@.len() as int) =~= f@);
    let p = match find_seq_in(v, lo, hi, &needle) {
        None => {
            return None;
        },
        Some(p) => p,
    };
    proof {
        lemma_find_seq(s, needle@);
    }
    let a = p + needle.len();
    assert(s.skip(a - lo) =~= v@.subrange(a as int, hi as int));
    let c = match find_char_in(v, a, hi, ':') {
        None => {
            return None;
        },
        Some(c) => c,
    };
    let ghost sa = v@.subrange(a as int, hi as int);
    proof {
        lemma_find_first(sa, eq_char(':'));
    }
    assert(sa.skip(c + 1 - a) =~= v@.subrange(c + 1, hi as int));
    let t = skip_ws(v, c + 1, hi);
    let ghost val = v@.subrange(t as int, hi as int);
    let end = match find_non_digit_in(v, t, hi) {
        Some(e) => e,
        None => hi,
    };
    proof {
        lemma_find_first(val, not_digit());
        assert(val.take(end - t) =~= v@.subrange(t as int, end as int));
        assert forall|i: int| 0 <= i < end - t implies crate::text::is_digit(
            #[trigger] v@.subrange(t as int, end as int)[i],
        ) by {
            assert(v@.subrange(t as int, end as int)[i] == val[i]);
        }
    }
    parse_digits_in(v, t, end)
}

/// Reads the numeric `field` (unquoted) that follows `s`'s first
/// occurrence of `section` (given with its quotes).
pub fn extract_u64(s: &str, section: &str, field: &str) -> (r: Option<u64>)
    ensures
        r == section_u64(s@, section@, field@),
{
    let v = chars_of(s);
    let sec = chars_of(section);
    let f = chars_of(field);
    let n = v.len();
    assert(v@.subrange(0, n as int) =~= s@);
    match find_seq_in(&v, 0, n, &sec) {
        None => None,
        Some(p) => {
            proof {
                lemma_find_seq(s@, sec@);
            }
            assert(s@.skip(p as int) =~= v@.subrange(p as int, n as int));
            inline_u64_in(&v, p, n, &f)
        },
    }
}

/// Reads the numeric `field` (unquoted) of `s`.
pub fn extract_u64_inline(s: &str, field: &str) -> (r: Option<u64>)
    ensures
        r == inline_u64(s@, field@),
{
    let v = chars_of(s);
    let f = chars_of(field);
    assert(v@.subrange(0, v@.len() as int) =~= s@);
    inline_u64_in(&v, 0, v.len(), &f)
}

/// The per-key rules of the `limits` object, read left to right; a rule
/// missing `requests` or `window_seconds` takes the default.
pub open spec fn limit_rules(rest: Seq<char>, dr: u64, dw: u64) -> Seq<(Seq<char>, u64, u64)>
    decreases rest.len(),
{
    match find_first(rest, eq_char('"')) {
        None => Seq::empty(),
        Some(k) => {
            let r1 = rest.skip(k + 1);
            match find_first(r1, eq_char('"')) {
                None => Seq::empty(),
                Some(ke) => {
                    let key = r1.take(ke);
                    let r2 = r1.skip(ke + 1);
                    if key == "}"@ {
                        Seq::empty()
                    } else {
                        match find_first(r2, eq_char(':')) {
                            None => Seq::empty(),
                            Some(c) => {
                                let val = trim_start(r2.skip(c + 1));
                                let reqs = match inline_u64(val, "requests"@) {
                                    Some(x) => x,
                                    None => dr,
                                };
                                let win = match inline_u64(val, "window_seconds"@) {
                                    Some(x) => x,
                                    None => dw,
                                };
                                seq![(key, reqs, win)] + match find_first(val, eq_char('}')) {
                                    Some(cl) => {
                                        proof {
                                            lemma_find_first(rest, eq_char('"'));
                                            lemma_find_first(r1, eq_char('"'));
                                            lemma_find_first(r2, eq_char(':'));
                                            lemma_trim_start_len(r2.skip(c + 1));
                                            lemma_find_first(val, eq_char('}'));
                                        }
                                        limit_rules(val.skip(cl + 1), dr, dw)
                                    },
                                    None => Seq::empty(),
                                }
                            },
                        }
                    }
                },
            }
        },
    }
}

/// The entries of the `limits` object as written: each key with the text
/// of its value (from the value's first non-blank character on), read
/// left to right.
pub open spec fn limit_entries(rest: Seq<char>) -> Seq<(Seq<char>, Seq<char>)>
    decreases rest.len(),
{
    match find_first(rest, eq_char('"')) {
        None => Seq::empty(),
        Some(k) => {
            let r1 = rest.skip(k + 1);
            match find_first(r1, eq_char('"')) {
                None => Seq::empty(),
                Some(ke) => {
                    let key = r1.take(ke);
                    let r2 = r1.skip(ke + 1);
                    if key == "}"@ {
                        Seq::empty()
                    } else {
                        match find_first(r2, eq_char(':')) {
                            None => Seq::empty(),
                            Some(c) => {
                                let val = trim_start(r2.skip(c + 1));
                                seq![(key, val)] + match find_first(val, eq_char('}')) {
                                    Some(cl) => {
                                        proof {
                                            lemma_find_first(rest, eq_char('"'));
                                            lemma_find_first(r1, eq_char('"'));
                                            lemma_find_first(r2, eq_char(':'));
                                            lemma_trim_start_len(r2.skip(c + 1));
                                            lemma_find_first(val, eq_char('}'));
                                        }
                                        limit_entries(val.skip(cl + 1))
                                    },
                                    None => Seq::empty(),
                                }
                            },
                        }
                    }
                },
            }
        },
    }
}

/// A number a rule entry gives, or the default when it gives none.
pub open spec fn given_or(entry: Seq<char>, field: Seq<char>, default: u64) -> u64 {
    match inline_u64(entry, field) {
        Some(x) => x,
        None => default,
    }
}

/// Each rule of the `limits` object is one entry: its key, and the
/// `requests` and `window_seconds` the entry gives, the defaults standing
/// in for those it leaves out.
pub proof fn limit_rules_fill_in_defaults(rest: Seq<char>, dr: u64, dw: u64)
    ensures
        limit_rules(rest, dr, dw).len() == limit_entries(rest).len(),
        forall|i: int|
            0 <= i < limit_entries(rest).len() ==> #[trigger] limit_rules(rest, dr, dw)[i] == (
                limit_entries(rest)[i].0,
                given_or(limit_entries(rest)[i].1, "requests"@, dr),
                given_or(limit_entries(rest)[i].1, "window_seconds"@, dw),
            ),
    decreases rest.len(),
{
    match find_first(rest, eq_char('"')) {
        None => {},
        Some(k) => {
            let r1 = rest.skip(k + 1);
            match find_first(r1, eq_char('"')) {
                None => {},
                Some(ke) => {
                    let key = r1.take(ke);
                    let r2 = r1.skip(ke + 1);
                    if key != "}"@ {
                        match find_first(r2, eq_char(':')) {
                            None => {},
                            Some(c) => {
                                let val = trim_start(r2.skip(c + 1));
                                match find_first(val, eq_char('}')) {
                                    Some(cl) => {
                                        lemma_find_first(rest, eq_char('"'));
                                        lemma_find_first(r1, eq_char('"'));
                                        lemma_find_first(r2, eq_char(':'));
                                        lemma_trim_start_len(r2.skip(c + 1));
                                        lemma_find_first(val, eq_char('}'));
                                        limit_rules_fill_in_defaults(val.skip(cl + 1), dr, dw);
                                        let tail_r = limit_rules(val.skip(cl + 1), dr, dw);
                                        let tail_e = limit_entries(val.skip(cl + 1));
                                        assert forall|i: int|
                                            0 <= i < limit_entries(rest).len() implies #[trigger] limit_rules(
                                            rest,
                                            dr,
                                            dw,
                                        )[i] == (
                                            limit_entries(rest)[i].0,
                                            given_or(limit_entries(rest)[i].1, "requests"@, dr),
                                            given_or(
                                                limit_entries(rest)[i].1,
                                                "window_seconds"@,
                                                dw,
                                            ),
                                        ) by {
                                            if i > 0 {
                                                assert(limit_rules(rest, dr, dw)[i] == tail_r[i
                                                    - 1]);
                                                assert(limit_entries(rest)[i] == tail_e[i - 1]);
                                            }
                                        }
                                    },
                                    None => {},
                                }
                            },
                        }
                    }
                },
            }
        },
    }
}

/// Each rule a configuration gives is one entry of its `limits` object,
/// the (updated) defaults standing in for the numbers the entry leaves out.
pub proof fn config_rules_fill_in_defaults(s: Seq<char>, dr: u64, dw: u64)
    ensures
        ({
            let rules = config_rules(s, dr, dw);
            let entries = match find_seq(s, "\"limits\""@) {
                None => Seq::empty(),
                Some(p) => match find_first(s.skip(p + 8), eq_char('{')) {
                    None => Seq::empty(),
                    Some(o) => limit_entries(s.skip(p + 8).skip(o + 1)),
                },
            };
            &&& rules.len() == entries.len()
            &&& forall|i: int|
                0 <= i < entries.len() ==> #[trigger] rules[i] == (
                    entries[i].0,
                    given_or(entries[i].1, "requests"@, dr),
                    given_or(entries[i].1, "window_seconds"@, dw),
                )
        }),
{
    match find_seq(s, "\"limits\""@) {
        None => {},
        Some(p) => match find_first(s.skip(p + 8), eq_char('{')) {
            None => {},
            Some(o) => limit_rules_fill_in_defaults(s.skip(p + 8).skip(o + 1), dr, dw),
        },
    }
}

/// The rules of a rate-limit configuration: those of the object after the
/// first `"limits"` and its first `{`.
pub open spec fn config_rules(s: Seq<char>, dr: u64, dw: u64) -> Seq<(Seq<char>, u64, u64)> {
    match find_seq(s, "\"limits\""@) {
        None => Seq::empty(),
        Some(p) => {
            let after = s.skip(p + 8);
            match find_first(after, eq_char('{')) {
                None => Seq::empty(),
                Some(o) => limit_rules(after.skip(o + 1), dr, dw),
            }
        },
    }
}

/// Default request count after reading a configuration.
pub open spec fn config_default_requests(s: Seq<char>, dr: u64) -> u64 {
    match section_u64(s, "\"default\""@, "requests"@) {
        Some(x) => x,
        None => dr,
    }
}

/// Default window after reading a configuration.
pub open spec fn config_default_window(s: Seq<char>, dw: u64) -> u64 {
    match section_u64(s, "\"default\""@, "window_seconds"@) {
        Some(x) => x,
        None => dw,
    }
}

#[verifier::rlimit(40)]
fn push_limit_rules(
    v: &Vec<char>,
    lo: usize,
    hi: usize,
    dr: u64,
    dw: u64,
    rules: &mut Vec<RateLimitRule>,
)
    requires
        lo <= hi <= v.len(),
    ensures
        final(rules).deep_view() == old(rules).deep_view() + limit_rules(v@.subrange(lo as int, hi as int), dr, dw),
{
    let ghost start = rules.deep_view();
    let req_f = chars_of("requests");
    let win_f = chars_of("window_seconds");
    let close = chars_of("}");
    let mut rest = lo;
    assert(start + limit_rules(v@.subrange(lo as int, hi as int), dr, dw) =~= rules.deep_view() + limit_rules(v@.subrange(rest as int, hi as int), dr, dw));
    loop
        invariant
            lo <= rest <= hi <= v.len(),
            req_f@ == "requests"@,
            win_f@ == "window_seconds"@,
            close@ == "}"@,
            start == old(rules).deep_view(),
            start + limit_rules(v@.subrange(lo as int, hi as int), dr, dw) == rules.deep_view() + limit_rules(v@.subrange(rest as int, hi as int), dr, dw),
        decreases hi - rest,
    {
        let ghost cur = rules.deep_view();
        let ghost s = v@.subrange(rest as int, hi as int);
        let k = match find_char_in(v, rest, hi, '"') {
            None => {
                assert(cur + limit_rules(s, dr, dw) =~= cur);
                return ;
            },
            Some(k) => k,
        };
        proof {
            lemma_find_first(s, eq_char('"'));
        }
        let r1 = k + 1;
        assert(s.skip(r1 - rest) =~= v@.subrange(r1 as int, hi as int));
        let ke = match find_char_in(v, r1, hi, '"') {
            None => {
                assert(cur + limit_rules(s, dr, dw) =~= cur);
                return ;
            },
            Some(ke) => ke,
        };
        let ghost sr1 = v@.subrange(r1 as int, hi as int);
        proof {
            lemma_find_first(sr1, eq_char('"'));
        }
        let key = string_of(v, r1, ke);
        assert(sr1.take(ke - r1) =~= v@.subrange(r1 as int, ke as int));
        let r2 = ke + 1;
        assert(sr1.skip(r2 - r1) =~= v@.subrange(r2 as int, hi as int));
        let key_chars = chars_of(key.as_str());
        let is_close = key_chars.len() == 1 && key_chars[0] == '}';
        assert(is_close == (key@ == "}"@)) by {
            reveal_strlit("}");
            if key@ == "}"@ {
                assert(key_chars@ == close@);
            }
            if is_close {
                reveal_strlit("}");
                assert(key_chars@ =~= close@);
            }
        }
        if is_close {
            assert(cur + limit_rules(s, dr, dw) =~= cur);
            return ;
        }
        let c = match find_char_in(v, r2, hi, ':') {
            None => {
                assert(cur + limit_rules(s, dr, dw) =~= cur);
                return ;
            },
            Some(c) => c,
        };
        let ghost sr2 = v@.subrange(r2 as int, hi as int);
        proof {
            lemma_find_first(sr2, eq_char(':'));
        }
        assert(sr2.skip(c + 1 - r2) =~= v@.subrange(c + 1, hi as int));
        let t = skip_ws(v, c + 1, hi);
        let ghost val = v@.subrange(t as int, hi as int);
        let reqs = match inline_u64_in(v, t, hi, &req_f) {
            Some(x) => x,
            None => dr,
        };
        let win = match inline_u64_in(v, t, hi, &win_f) {
            Some(x) => x,
            None => dw,
        };
        rules.push(RateLimitRule { key, requests: reqs, window_secs: win });
        let ghost now = rules.deep_view();
        assert(now =~= cur.push((key@, reqs, win)));
        match find_char_in(v, t, hi, '}') {
            Some(cl) => {
                proof {
                    lemma_find_first(val, eq_char('}'));
                }
                assert(val.skip(cl + 1 - t) =~= v@.subrange(cl + 1, hi as int));
                rest = cl + 1;
                assert(cur + limit_rules(s, dr, dw) =~= now + limit_rules(
                    v@.subrange(rest as int, hi as int),
                    dr,
                    dw,
                ));
            },
            None => {
                assert(cur + limit_rules(s, dr, dw) =~= now);
                return ;
            },
        }
    }
}

fn append_config_rules(s: &str, dr: u64, dw: u64, rules: &mut Vec<RateLimitRule>)
    ensures
        final(rules).deep_view() == old(rules).deep_view() + config_rules(s@, dr, dw),
{
    let v = chars_of(s);
    let n = v.len();
    assert(v@.subrange(0, n as int) =~= s@);
    let limits = chars_of("\"limits\"");
    let p = match find_seq_in(&v, 0, n, &limits) {
        None => {
            assert(rules.deep_view() =~= rules.deep_view() + Seq::<(Seq<char>, u64, u64)>::empty());
            return ;
        },
        Some(p) => p,
    };
    proof {
        lemma_find_seq(s@, limits@);
        reveal_strlit("\"limits\"");
    }
    let a = p + limits.len();
    assert(limits@.len() == 8);
    assert(s@.skip(p + 8) =~= v@.subrange(a as int, n as int));
    let o = match find_char_in(&v, a, n, '{') {
        None => {
            assert(rules.deep_view() =~= rules.deep_view() + Seq::<(Seq<char>, u64, u64)>::empty());
            return ;
        },
        Some(o) => o,
    };
    let ghost sa = v@.subrange(a as int, n as int);
    proof {
        lemma_find_first(sa, eq_char('{'));
    }
    assert(sa.skip(o + 1 - a) =~= v@.subrange(o + 1, n as int));
    push_limit_rules(&v, o + 1, n, dr, dw, rules);
}


/// Reads a rate-limit configuration of the form
/// `{"default":{"requests":N,"window_seconds":N},"limits":{"key":{...},...}}`:
/// updates the defaults with the values found after `"default"`, then
/// appends one rule per entry of `limits`, whose missing fields take the
/// (updated) defaults.
pub fn parse_config(
    s: &str,
    rules: &mut Vec<RateLimitRule>,
    default_requests: &mut u64,
    default_window_secs: &mut u64,
)
    ensures
        *final(default_requests) == config_default_requests(s@, *old(default_requests)),
        *final(default_window_secs) == config_default_window(s@, *old(default_window_secs)),
        final(rules).deep_view() == old(rules).deep_view() + config_rules(
            s@,
            config_default_requests(s@, *old(default_requests)),
            config_default_window(s@, *old(default_window_secs)),
        ),
{
    if let Some(dr) = extract_u64(s, "\"default\"", "requests") {
        *default_requests = dr;
    }
    if let Some(dw) = extract_u64(s, "\"default\"", "window_seconds") {
        *default_window_secs = dw;
    }
    append_config_rules(s, *default_requests, *default_window_secs, rules);
}

/// The fixed-window admission step on one bucket record: a window older
/// than `window_secs` restarts at `now` with a zero count; the request is
/// admitted when the count is below `limit`, and then counted.
pub struct BucketStep {
    pub allowed: bool,
    pub remaining: u64,
    pub window_start: u64,
    pub count: u64,
    pub encoded: Vec<u8>,
}

/// The window start and count a request sees.
pub open spec fn current_window(ws: u64, count: u64, now: u64, window_secs: u64) -> (u64, u64) {
    if (if now >= ws { now - ws } else { 0 }) >= window_secs {
        (now, 0)
    } else {
        (ws, count)
    }
}

/// The requests at the instants `nows`, one after the other, against the
/// shared record `(window_start, count)`: the final record and how many
/// were admitted.
pub open spec fn run_steps(rec: (u64, u64), limit: u64, window_secs: u64, nows: Seq<u64>) -> (
    u64,
    u64,
    nat,
)
    decreases nows.len(),
{
    if nows.len() == 0 {
        (rec.0, rec.1, 0)
    } else {
        let (start, seen) = current_window(rec.0, rec.1, nows[0], window_secs);
        let allowed = seen < limit;
        let count = if allowed {
            (seen + 1) as u64
        } else {
            seen
        };
        let (s, c, n) = run_steps((start, count), limit, window_secs, nows.drop_first());
        (s, c, n + if allowed {
            1nat
        } else {
            0nat
        })
    }
}

/// One window of the shared record admits at most `limit` requests: from
/// a record whose count is within the limit, requests that all come
/// before its window ends are admitted at most as often as the limit
/// leaves room, and the window does not move.
pub proof fn filter_window_admits_at_most_limit(
    rec: (u64, u64),
    limit: u64,
    window_secs: u64,
    nows: Seq<u64>,
)
    requires
        rec.1 <= limit,
        forall|i: int| 0 <= i < nows.len() ==> rec.0 <= #[trigger] nows[i] < rec.0 + window_secs,
    ensures
        run_steps(rec, limit, window_secs, nows).0 == rec.0,
        run_steps(rec, limit, window_secs, nows).1 == rec.1 + run_steps(
            rec,
            limit,
            window_secs,
            nows,
        ).2,
        run_steps(rec, limit, window_secs, nows).2 <= limit - rec.1,
    decreases nows.len(),
{
    if nows.len() > 0 {
        let (start, seen) = current_window(rec.0, rec.1, nows[0], window_secs);
        let count: u64 = if seen < limit {
            (seen + 1) as u64
        } else {
            seen
        };
        let rest = nows.drop_first();
        assert forall|i: int| 0 <= i < rest.len() implies rec.0 <= #[trigger] rest[i] < rec.0
            + window_secs by {
            assert(rest[i] == nows[i + 1]);
        }
        filter_window_admits_at_most_limit((start, count), limit, window_secs, rest);
    }
}

/// Runs the admission step on the record `raw` at time `now`.
pub fn bucket_step(raw: Option<&[u8]>, limit: u64, window_secs: u64, now_secs: u64) -> (r:
    BucketStep)
    ensures
        ({
            let (ws, cnt) = read_bucket(raw_view(raw));
            let (start, seen) = current_window(ws, cnt, now_secs, window_secs);
            &&& r.window_start == start
            &&& r.allowed == (seen < limit)
            &&& r.count == if seen < limit {
                seen + 1
            } else {
                seen as int
            }
            &&& r.remaining == (if r.count <= limit { limit - r.count } else { 0 })
            &&& r.encoded@ == bucket_bytes(r.window_start, r.count)
        }),
{
    let (window_start, count) = decode_bucket(raw);
    let (new_start, new_count) = if now_secs.saturating_sub(window_start) >= window_secs {
        (now_secs, 0u64)
    } else {
        (window_start, count)
    };
    let allowed = new_count < limit;
    let updated_count = if allowed {
        new_count + 1
    } else {
        new_count
    };
    let remaining = limit.saturating_sub(updated_count);
    let encoded = encode_bucket(new_start, updated_count);
    BucketStep { allowed, remaining, window_start: new_start, count: updated_count, encoded }
}

/// The shared-data key of a request's bucket: `rl:tenant:service:route`.
pub fn bucket_key(tenant: &str, service: &str, route: &str) -> (r: String)
    ensures
        r@ == seq!['r', 'l', ':'] + route_key(tenant@, service@, route@),
{
    let mut out: Vec<char> = Vec::new();
    out.push('r');
    out.push('l');
    out.push(':');
    push_str(&mut out, tenant);
    out.push(':');
    push_str(&mut out, service);
    out.push(':');
    push_str(&mut out, route);
    assert(out@ =~= seq!['r', 'l', ':'] + route_key(tenant@, service@, route@));
    assert(out@.subrange(0, out@.len() as int) =~= out@);
    string_of(&out, 0, out.len())
}

/// How many times the filter tries to store its bucket record before it
/// lets the request through unchecked.
pub const CAS_ATTEMPTS: usize = 5;

/// Whether the filter counts a request: only one that names its tenant.
pub fn rate_limit_applies(tenant: &str) -> (r: bool)
    ensures
        r == (tenant@.len() > 0),
{
    tenant.unicode_len() > 0
}

/// What the filter does with a counted request.
pub enum RateLimitAction {
    /// Let it through unchecked: the bucket could not be stored.
    Pass,
    /// Let it through, stamping what the window leaves.
    Admit { remaining: u64 },
    /// Answer 429 `rate_limited`.
    Reject,
}

/// The filter's action, from the admission step that was stored (`None`
/// when every attempt to store it failed).
pub fn rate_limit_action(stored: Option<(bool, u64)>) -> (a: RateLimitAction)
    ensures
        match stored {
            None => a is Pass,
            Some((true, remaining)) => a == (RateLimitAction::Admit { remaining }),
            Some((false, _)) => a is Reject,
        },
{
    match stored {
        None => RateLimitAction::Pass,
        Some((true, remaining)) => RateLimitAction::Admit { remaining },
        Some((false, _)) => RateLimitAction::Reject,
    }
}

} // verus!
