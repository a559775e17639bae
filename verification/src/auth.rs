//! The auth filter: the scanner that reads the tenant → API key table
//! out of the plugin configuration, and the per-request decision that
//! compares the presented key with the one configured for the tenant.

use vstd::prelude::*;
use crate::text::{
    chars_of, eq_char, find_char_in, find_first, find_last, find_seq, find_seq_in,
    lemma_find_first, lemma_find_last, lemma_find_seq, not_ws, rfind_char_in, skip_ws, string_of,
    trim, trim_end_at, trim_start,
};

verus! {

/// `trim_start` never lengthens.
pub proof fn lemma_trim_start_len(s: Seq<char>)
    ensures
        trim_start(s).len() <= s.len(),
{
    lemma_find_first(s, not_ws());
}

/// The `"key": "value"` pairs of the body of the `api_keys` object, read
/// left to right until a quote, colon or closing quote is missing.
pub open spec fn key_value_pairs(rest: Seq<char>) -> Seq<(Seq<char>, Seq<char>)>
    decreases rest.len(),
{
    match find_first(rest, eq_char('"')) {
        None => Seq::empty(),
        Some(k0) => {
            let r1 = rest.skip(k0 + 1);
            match find_first(r1, eq_char('"')) {
                None => Seq::empty(),
                Some(k1) => {
                    let key = r1.take(k1);
                    let r2 = r1.skip(k1 + 1);
                    match find_first(r2, eq_char(':')) {
                        None => Seq::empty(),
                        Some(c) => {
                            let r3 = trim_start(r2.skip(c + 1));
                            match find_first(r3, eq_char('"')) {
                                None => Seq::empty(),
                                Some(v0) => {
                                    let r4 = r3.skip(v0 + 1);
                                    match find_first(r4, eq_char('"')) {
                                        None => Seq::empty(),
                                        Some(v1) => {
                                            proof {
                                                lemma_find_first(rest, eq_char('"'));
                                                lemma_find_first(r1, eq_char('"'));
                                                lemma_find_first(r2, eq_char(':'));
                                                lemma_trim_start_len(r2.skip(c + 1));
                                                lemma_find_first(r3, eq_char('"'));
                                                lemma_find_first(r4, eq_char('"'));
                                            }
                                            seq![(key, r4.take(v1))] + key_value_pairs(
                                                r4.skip(v1 + 1),
                                            )
                                        },
                                    }
                                },
                            }
                        },
                    }
                },
            }
        },
    }
}

/// The API key table of a plugin configuration: after trimming, the text
/// after `"api_keys"` and its first `{`, up to the last `}` (or the end),
/// read as `key_value_pairs`. Nothing when `"api_keys"` or the `{` is
/// missing.
pub open spec fn api_keys_of(s: Seq<char>) -> Seq<(Seq<char>, Seq<char>)> {
    let t = trim(s);
    let needle = "\"api_keys\""@;
    match find_seq(t, needle) {
        None => Seq::empty(),
        Some(p) => {
            let a = t.skip(p + needle.len());
            match find_first(a, eq_char('{')) {
                None => Seq::empty(),
                Some(q) => {
                    let b = a.skip(q + 1);
                    let body = match find_last(b, eq_char('}')) {
                        Some(r) => b.take(r),
                        None => b,
                    };
                    key_value_pairs(body)
                },
            }
        },
    }
}

fn pairs_in(v: &Vec<char>, lo: usize, hi: usize) -> (r: Vec<(String, String)>)
    requires
        lo <= hi <= v.len(),
    ensures
        r.deep_view() == key_value_pairs(v@.subrange(lo as int, hi as int)),
{
    let mut res: Vec<(String, String)> = Vec::new();
    let mut rest = lo;
    assert(res.deep_view() =~= Seq::<(Seq<char>, Seq<char>)>::empty());
    loop
        invariant
            lo <= rest <= hi <= v.len(),
            key_value_pairs(v@.subrange(lo as int, hi as int)) == res.deep_view()
                + key_value_pairs(v@.subrange(rest as int, hi as int)),
        decreases hi - rest,
    {
        let ghost s = v@.subrange(rest as int, hi as int);
        let k0 = match find_char_in(v, rest, hi, '"') {
            None => {
                assert(res.deep_view() + key_value_pairs(s) =~= res.deep_view());
                return res;
            },
            Some(k) => k,
        };
        proof {
            lemma_find_first(s, eq_char('"'));
        }
        let r1 = k0 + 1;
        assert(s.skip(r1 - rest) =~= v@.subrange(r1 as int, hi as int));
        let k1 = match find_char_in(v, r1, hi, '"') {
            None => {
                assert(res.deep_view() + key_value_pairs(s) =~= res.deep_view());
                return res;
            },
            Some(k) => k,
        };
        let ghost sr1 = v@.subrange(r1 as int, hi as int);
        proof {
            lemma_find_first(sr1, eq_char('"'));
        }
        let key = string_of(v, r1, k1);
        assert(sr1.take(k1 - r1) =~= v@.subrange(r1 as int, k1 as int));
        let r2 = k1 + 1;
        assert(sr1.skip(r2 - r1) =~= v@.subrange(r2 as int, hi as int));
        let c = match find_char_in(v, r2, hi, ':') {
            None => {
                assert(res.deep_view() + key_value_pairs(s) =~= res.deep_view());
                return res;
            },
            Some(c) => c,
        };
        let ghost sr2 = v@.subrange(r2 as int, hi as int);
        proof {
            lemma_find_first(sr2, eq_char(':'));
        }
        assert(sr2.skip(c + 1 - r2) =~= v@.subrange(c + 1, hi as int));
        let r3 = skip_ws(v, c + 1, hi);
        let v0 = match find_char_in(v, r3, hi, '"') {
            None => {
                assert(res.deep_view() + key_value_pairs(s) =~= res.deep_view());
                return res;
            },
            Some(p) => p,
        };
        let ghost sr3 = v@.subrange(r3 as int, hi as int);
        proof {
            lemma_find_first(sr3, eq_char('"'));
        }
        let r4 = v0 + 1;
        assert(sr3.skip(r4 - r3) =~= v@.subrange(r4 as int, hi as int));
        let v1 = match find_char_in(v, r4, hi, '"') {
            None => {
                assert(res.deep_view() + key_value_pairs(s) =~= res.deep_view());
                return res;
            },
            Some(p) => p,
        };
        let ghost sr4 = v@.subrange(r4 as int, hi as int);
        proof {
            lemma_find_first(sr4, eq_char('"'));
        }
        let val = string_of(v, r4, v1);
        assert(sr4.take(v1 - r4) =~= v@.subrange(r4 as int, v1 as int));
        assert(sr4.skip(v1 + 1 - r4) =~= v@.subrange(v1 + 1, hi as int));
        let ghost before = res.deep_view();
        res.push((key, val));
        assert(res.deep_view() =~= before.push((key@, val@)));
        rest = v1 + 1;
        assert(key_value_pairs(s) == seq![(key@, val@)] + key_value_pairs(
            v@.subrange(rest as int, hi as int),
        ));
        assert(before + key_value_pairs(s) =~= res.deep_view() + key_value_pairs(
            v@.subrange(rest as int, hi as int),
        ));
    }
}

/// Reads the tenant → API key table from the auth filter's configuration.
pub fn parse_api_keys(s: &str) -> (r: Vec<(String, String)>)
    ensures
        r.deep_view() == api_keys_of(s@),
{
    let v = chars_of(s);
    let n = v.len();
    let lo = skip_ws(&v, 0, n);
    let hi = trim_end_at(&v, lo, n);
    assert(v@.subrange(0, n as int) =~= s@);
    let ghost t = v@.subrange(lo as int, hi as int);
    assert(t == trim(s@));
    let needle = chars_of("\"api_keys\"");
    let p = match find_seq_in(&v, lo, hi, &needle) {
        None => {
            return Vec::new();
        },
        Some(p) => p,
    };
    proof {
        lemma_find_seq(t, needle@);
    }
    let a = p + needle.len();
    assert(t.skip(a - lo) =~= v@.subrange(a as int, hi as int));
    let q = match find_char_in(&v, a, hi, '{') {
        None => {
            return Vec::new();
        },
        Some(q) => q,
    };
    let ghost sa = v@.subrange(a as int, hi as int);
    proof {
        lemma_find_first(sa, eq_char('{'));
    }
    let b = q + 1;
    assert(sa.skip(b - a) =~= v@.subrange(b as int, hi as int));
    let ghost sb = v@.subrange(b as int, hi as int);
    let e = match rfind_char_in(&v, b, hi, '}') {
        Some(r) => {
            proof {
                lemma_find_last(sb, eq_char('}'));
            }
            assert(sb.take(r - b) =~= v@.subrange(b as int, r as int));
            r
        },
        None => hi,
    };
    pairs_in(&v, b, e)
}

/// The key configured for `tenant`: the value of the first entry whose
/// key is `tenant`.
pub open spec fn configured_key(
    keys: Seq<(Seq<char>, Seq<char>)>,
    tenant: Seq<char>,
) -> Option<Seq<char>>
    decreases keys.len(),
{
    if keys.len() == 0 {
        None
    } else if keys[0].0 == tenant {
        Some(keys[0].1)
    } else {
        configured_key(keys.drop_first(), tenant)
    }
}

/// The first entry of `keys` whose key is `tenant`.
pub fn lookup_key(keys: &Vec<(String, String)>, tenant: &String) -> (r: Option<String>)
    ensures
        match r {
            Some(k) => configured_key(keys.deep_view(), tenant@) == Some(k@),
            None => configured_key(keys.deep_view(), tenant@) == None::<Seq<char>>,
        },
{
    let ghost all = keys.deep_view();
    let mut i: usize = 0;
    assert(all.skip(0) =~= all);
    while i < keys.len()
        invariant
            i <= keys.len(),
            all == keys.deep_view(),
            configured_key(all, tenant@) == configured_key(all.skip(i as int), tenant@),
        decreases keys.len() - i,
    {
        let ghost rest = all.skip(i as int);
        assert(rest[0] == (keys[i as int].0@, keys[i as int].1@));
        if keys[i].0 == *tenant {
            return Some(keys[i].1.clone());
        }
        assert(rest.drop_first() =~= all.skip(i + 1));
        i += 1;
    }
    assert(all.skip(i as int) =~= Seq::<(Seq<char>, Seq<char>)>::empty());
    None
}

/// What the auth filter does with a request.
pub enum AuthDecision {
    /// Answer 401 `unauthorized` and stop the chain.
    Reject,
    /// Let the request go on, stamping `x-auth-subject` with the tenant and
    /// `x-auth-method` with `x-api-key`.
    Admit,
}

/// The auth filter's decision: a tenant with a configured key must present
/// exactly that key; a tenant without one is let through.
pub fn auth_decision(keys: &Vec<(String, String)>, tenant: &String, api_key: &String) -> (d:
    AuthDecision)
    ensures
        d is Reject <==> match configured_key(keys.deep_view(), tenant@) {
            Some(k) => k != api_key@,
            None => false,
        },
{
    match lookup_key(keys, tenant) {
        Some(expected) => {
            if *api_key != expected {
                AuthDecision::Reject
            } else {
                AuthDecision::Admit
            }
        },
        None => AuthDecision::Admit,
    }
}

} // verus!
