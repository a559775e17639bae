//! The header filter: request/trace id generation, the scanner for string
//! fields of its configuration, and the headers it sets on requests and
//! responses.

use vstd::prelude::*;
use crate::numtext::{hex8_of, hex_digits, hex_span, lemma_hex_digits};
use crate::text::{
    chars_of, eq_char, find_char_in, find_first, find_seq, find_seq_in, lemma_find_first,
    lemma_find_seq, push_all, skip_ws, string_of, trim_start,
};

verus! {

/// `prefix-XXXXXXXX`: the prefix, a dash and the context id as eight
/// lower-case hexadecimal digits.
pub open spec fn id_of(prefix: Seq<char>, context_id: u32) -> Seq<char> {
    prefix + seq!['-'] + hex_digits(context_id as nat, 8)
}

/// A generated id is the prefix and nine more characters, and two ids
/// with the same prefix are equal exactly when their context ids are.
pub proof fn ids_are_fixed_width_and_distinct(prefix: Seq<char>, a: u32, b: u32)
    ensures
        id_of(prefix, a).len() == prefix.len() + 9,
        id_of(prefix, a) == id_of(prefix, b) <==> a == b,
{
    lemma_hex_digits(a as nat, b as nat, 8);
    assert(hex_span(0) == 1);
    assert(hex_span(1) == 16);
    assert(hex_span(2) == 256);
    assert(hex_span(3) == 4096);
    assert(hex_span(4) == 65536);
    assert(hex_span(5) == 1048576);
    assert(hex_span(6) == 16777216);
    assert(hex_span(7) == 268435456);
    assert(hex_span(8) == 0x1_0000_0000);
    if id_of(prefix, a) == id_of(prefix, b) {
        assert(hex_digits(a as nat, 8) =~= id_of(prefix, a).skip(prefix.len() + 1 as int));
        assert(hex_digits(b as nat, 8) =~= id_of(prefix, b).skip(prefix.len() + 1 as int));
    }
}

/// Builds a request or trace id from a prefix and the Wasm context id.
pub fn make_id(prefix: &str, context_id: u32) -> (r: String)
    ensures
        r@ == id_of(prefix@, context_id),
{
    let mut out = chars_of(prefix);
    out.push('-');
    let hex = hex8_of(context_id);
    push_all(&mut out, &hex, 0, hex.len());
    assert(hex@.subrange(0, hex@.len() as int) =~= hex@);
    let r = string_of(&out, 0, out.len());
    assert(out@.subrange(0, out@.len() as int) =~= id_of(prefix@, context_id));
    r
}

/// `"field"`.
pub open spec fn quoted(field: Seq<char>) -> Seq<char> {
    seq!['"'] + field + seq!['"']
}

/// The string value of `field` in a flat configuration text: after the
/// first `"field"`, the first `:`, and optional whitespace, a quoted
/// string. Empty when any part is missing or the value is not a string.
pub open spec fn string_field(s: Seq<char>, field: Seq<char>) -> Seq<char> {
    let needle = quoted(field);
    match find_seq(s, needle) {
        None => Seq::empty(),
        Some(p) => {
            let after = s.skip(p + needle.len());
            match find_first(after, eq_char(':')) {
                None => Seq::empty(),
                Some(c) => {
                    let v = trim_start(after.skip(c + 1));
                    if v.len() > 0 && v[0] == '"' {
                        let inner = v.skip(1);
                        match find_first(inner, eq_char('"')) {
                            Some(e) => inner.take(e),
                            None => Seq::empty(),
                        }
                    } else {
                        Seq::empty()
                    }
                },
            }
        },
    }
}

/// Reads a string field of the header filter's configuration.
pub fn extract_string_field(s: &str, field: &str) -> (r: String)
    ensures
        r@ == string_field(s@, field@),
{
    let v = chars_of(s);
    let f = chars_of(field);
    let n = v.len();
    let mut needle: Vec<char> = Vec::new();
    needle.push('"');
    push_all(&mut needle, &f, 0, f.len());
    needle.push('"');
    assert(needle@ =~= quoted(field@));
    assert(v@.subrange(0, n as int) =~= s@);
    let p = match find_seq_in(&v, 0, n, &needle) {
        None => {
            return String::new();
        },
        Some(p) => p,
    };
    proof {
        lemma_find_seq(s@, needle@);
    }
    let a = p + needle.len();
    assert(s@.skip(a as int) =~= v@.subrange(a as int, n as int));
    let c = match find_char_in(&v, a, n, ':') {
        None => {
            return String::new();
        },
        Some(c) => c,
    };
    let ghost sa = v@.subrange(a as int, n as int);
    proof {
        lemma_find_first(sa, eq_char(':'));
    }
    assert(sa.skip(c + 1 - a) =~= v@.subrange(c + 1, n as int));
    let t = skip_ws(&v, c + 1, n);
    let ghost st = v@.subrange(t as int, n as int);
    if t < n && v[t] == '"' {
        assert(st[0] == v@[t as int]);
        assert(st.skip(1) =~= v@.subrange(t + 1, n as int));
        match find_char_in(&v, t + 1, n, '"') {
            Some(e) => {
                proof {
                    lemma_find_first(st.skip(1), eq_char('"'));
                }
                assert(st.skip(1).take(e - t - 1) =~= v@.subrange(t + 1, e as int));
                string_of(&v, t + 1, e)
            },
            None => String::new(),
        }
    } else {
        String::new()
    }
}

/// The header filter's configuration: the revision and the plugin chain
/// it stamps on requests.
pub struct HeaderConfig {
    pub revision: String,
    pub plugin_chain: String,
}

/// Reads the header filter's configuration.
pub fn header_config(s: &str) -> (c: HeaderConfig)
    ensures
        c.revision@ == string_field(s@, "revision"@),
        c.plugin_chain@ == string_field(s@, "plugin_chain"@),
{
    HeaderConfig {
        revision: extract_string_field(s, "revision"),
        plugin_chain: extract_string_field(s, "plugin_chain"),
    }
}

/// The request headers the header filter sets, in order: a generated
/// `x-request-id` and `x-trace-id` when the request has none (or an empty
/// one), then `x-gateway-revision` and `x-gateway-plugin-chain` when
/// configured.
pub open spec fn request_header_updates(
    context_id: u32,
    request_id: Seq<char>,
    trace_id: Seq<char>,
    revision: Seq<char>,
    plugin_chain: Seq<char>,
) -> Seq<(Seq<char>, Seq<char>)> {
    (if request_id.len() == 0 {
        seq![("x-request-id"@, id_of("req"@, context_id))]
    } else {
        Seq::empty()
    }) + (if trace_id.len() == 0 {
        seq![("x-trace-id"@, id_of("trc"@, context_id))]
    } else {
        Seq::empty()
    }) + (if revision.len() > 0 {
        seq![("x-gateway-revision"@, revision)]
    } else {
        Seq::empty()
    }) + (if plugin_chain.len() > 0 {
        seq![("x-gateway-plugin-chain"@, plugin_chain)]
    } else {
        Seq::empty()
    })
}

/// The one value a header takes in a list of updates, when the list sets
/// it exactly once.
pub open spec fn sets_once(u: Seq<(Seq<char>, Seq<char>)>, name: Seq<char>, value: Seq<char>) -> bool {
    &&& exists|j: int| 0 <= j < u.len() && u[j] == (name, value)
    &&& forall|i: int, j: int|
        0 <= i < u.len() && 0 <= j < u.len() && u[i].0 == name && u[j].0 == name ==> i == j
}

/// The list sets no such header.
pub open spec fn never_sets(u: Seq<(Seq<char>, Seq<char>)>, name: Seq<char>) -> bool {
    forall|j: int| 0 <= j < u.len() ==> u[j].0 != name
}

proof fn lemma_header_names_differ()
    ensures
        "x-request-id"@ != "x-trace-id"@,
        "x-request-id"@ != "x-gateway-revision"@,
        "x-request-id"@ != "x-gateway-plugin-chain"@,
        "x-trace-id"@ != "x-gateway-revision"@,
        "x-trace-id"@ != "x-gateway-plugin-chain"@,
        "x-gateway-revision"@ != "x-gateway-plugin-chain"@,
{
    reveal_strlit("x-request-id");
    reveal_strlit("x-trace-id");
    reveal_strlit("x-gateway-revision");
    reveal_strlit("x-gateway-plugin-chain");
    assert("x-request-id"@[2] != "x-trace-id"@[2]);
    assert("x-request-id"@[2] != "x-gateway-revision"@[2]);
    assert("x-request-id"@[2] != "x-gateway-plugin-chain"@[2]);
    assert("x-trace-id"@[2] != "x-gateway-revision"@[2]);
    assert("x-trace-id"@[2] != "x-gateway-plugin-chain"@[2]);
    assert("x-gateway-revision"@.len() != "x-gateway-plugin-chain"@.len());
}

/// The header filter stamps a missing (or empty) request id with
/// `req-<context id>` and a missing trace id with `trc-<context id>`, each
/// exactly once, and leaves ids the request carries alone; it sets the
/// revision and the plugin chain exactly when configured, to their
/// configured values.
pub proof fn header_updates_fill_what_is_missing(
    context_id: u32,
    request_id: Seq<char>,
    trace_id: Seq<char>,
    revision: Seq<char>,
    plugin_chain: Seq<char>,
)
    ensures
        ({
            let u = request_header_updates(context_id, request_id, trace_id, revision, plugin_chain);
            &&& request_id.len() == 0 ==> sets_once(u, "x-request-id"@, "req-"@ + hex_digits(context_id as nat, 8))
            &&& request_id.len() > 0 ==> never_sets(u, "x-request-id"@)
            &&& trace_id.len() == 0 ==> sets_once(u, "x-trace-id"@, "trc-"@ + hex_digits(context_id as nat, 8))
            &&& trace_id.len() > 0 ==> never_sets(u, "x-trace-id"@)
            &&& revision.len() > 0 ==> sets_once(u, "x-gateway-revision"@, revision)
            &&& revision.len() == 0 ==> never_sets(u, "x-gateway-revision"@)
            &&& plugin_chain.len() > 0 ==> sets_once(u, "x-gateway-plugin-chain"@, plugin_chain)
            &&& plugin_chain.len() == 0 ==> never_sets(u, "x-gateway-plugin-chain"@)
        }),
{
    lemma_header_names_differ();
    reveal_strlit("req-");
    reveal_strlit("trc-");
    reveal_strlit("req");
    reveal_strlit("trc");
    assert("req-"@ =~= "req"@ + seq!['-']);
    assert("trc-"@ =~= "trc"@ + seq!['-']);
    let u = request_header_updates(context_id, request_id, trace_id, revision, plugin_chain);
    let a = if request_id.len() == 0 {
        seq![("x-request-id"@, id_of("req"@, context_id))]
    } else {
        Seq::<(Seq<char>, Seq<char>)>::empty()
    };
    let b = if trace_id.len() == 0 {
        seq![("x-trace-id"@, id_of("trc"@, context_id))]
    } else {
        Seq::<(Seq<char>, Seq<char>)>::empty()
    };
    let c = if revision.len() > 0 {
        seq![("x-gateway-revision"@, revision)]
    } else {
        Seq::<(Seq<char>, Seq<char>)>::empty()
    };
    let d = if plugin_chain.len() > 0 {
        seq![("x-gateway-plugin-chain"@, plugin_chain)]
    } else {
        Seq::<(Seq<char>, Seq<char>)>::empty()
    };
    assert(u == a + b + c + d);
    let na = a.len() as int;
    let nb = b.len() as int;
    let nc = c.len() as int;
    assert forall|j: int| 0 <= j < u.len() implies {
        ||| (j < na && u[j] == a[j] && u[j].0 == "x-request-id"@)
        ||| (na <= j < na + nb && u[j] == b[j - na] && u[j].0 == "x-trace-id"@)
        ||| (na + nb <= j < na + nb + nc && u[j] == c[j - na - nb] && u[j].0 == "x-gateway-revision"@)
        ||| (na + nb + nc <= j && u[j] == d[j - na - nb - nc] && u[j].0 == "x-gateway-plugin-chain"@)
    } by {
    }
    if request_id.len() == 0 {
        assert(u[0] == ("x-request-id"@, "req-"@ + hex_digits(context_id as nat, 8)));
    }
    if trace_id.len() == 0 {
        assert(u[na] == ("x-trace-id"@, "trc-"@ + hex_digits(context_id as nat, 8)));
    }
    if revision.len() > 0 {
        assert(u[na + nb] == ("x-gateway-revision"@, revision));
    }
    if plugin_chain.len() > 0 {
        assert(u[na + nb + nc] == ("x-gateway-plugin-chain"@, plugin_chain));
    }
}

/// Headers the header filter sets on a request, given the request's current
/// `x-request-id` and `x-trace-id` (empty when absent).
pub fn request_headers_to_set(
    context_id: u32,
    request_id: &str,
    trace_id: &str,
    config: &HeaderConfig,
) -> (r: Vec<(String, String)>)
    ensures
        r.deep_view() == request_header_updates(
            context_id,
            request_id@,
            trace_id@,
            config.revision@,
            config.plugin_chain@,
        ),
        request_id@.len() == 0 ==> sets_once(
            r.deep_view(),
            "x-request-id"@,
            "req-"@ + hex_digits(context_id as nat, 8),
        ),
        request_id@.len() > 0 ==> never_sets(r.deep_view(), "x-request-id"@),
        trace_id@.len() == 0 ==> sets_once(
            r.deep_view(),
            "x-trace-id"@,
            "trc-"@ + hex_digits(context_id as nat, 8),
        ),
        trace_id@.len() > 0 ==> never_sets(r.deep_view(), "x-trace-id"@),
{
    proof {
        header_updates_fill_what_is_missing(
            context_id,
            request_id@,
            trace_id@,
            config.revision@,
            config.plugin_chain@,
        );
    }
    let mut r: Vec<(String, String)> = Vec::new();
    if request_id.is_empty() {
        r.push((String::from_str("x-request-id"), make_id("req", context_id)));
    }
    let ghost s1 = r.deep_view();
    assert(s1 =~= (if request_id@.len() == 0 {
        seq![("x-request-id"@, id_of("req"@, context_id))]
    } else {
        Seq::empty()
    }));
    if trace_id.is_empty() {
        r.push((String::from_str("x-trace-id"), make_id("trc", context_id)));
    }
    let ghost s2 = r.deep_view();
    assert(s2 =~= s1 + (if trace_id@.len() == 0 {
        seq![("x-trace-id"@, id_of("trc"@, context_id))]
    } else {
        Seq::empty()
    }));
    if !config.revision.as_str().is_empty() {
        r.push((String::from_str("x-gateway-revision"), config.revision.clone()));
    }
    let ghost s3 = r.deep_view();
    assert(s3 =~= s2 + (if config.revision@.len() > 0 {
        seq![("x-gateway-revision"@, config.revision@)]
    } else {
        Seq::empty()
    }));
    if !config.plugin_chain.as_str().is_empty() {
        r.push((String::from_str("x-gateway-plugin-chain"), config.plugin_chain.clone()));
    }
    assert(r.deep_view() =~= s3 + (if config.plugin_chain@.len() > 0 {
        seq![("x-gateway-plugin-chain"@, config.plugin_chain@)]
    } else {
        Seq::empty()
    }));
    r
}

/// The `x-gateway-decision` the header filter sets on a response: `allow`
/// when the response carries none (or an empty one), nothing otherwise.
pub fn response_decision_to_set(current: &str) -> (r: Option<String>)
    ensures
        r matches Some(v) ==> v@ == "allow"@,
        r is Some <==> current@.len() == 0,
{
    if current.is_empty() {
        Some(String::from_str("allow"))
    } else {
        None
    }
}

} // verus!
