//! The local providers of the admin daemon: the tenant → API key table
//! and the fixed-window rate limiter whose buckets persist between calls.
//! Both take tables already read from their JSON files; the files
//! themselves are read and written around them.

use vstd::prelude::*;
use crate::rate_limit::{route_key, service_key};
use crate::text::{push_str, string_of};

verus! {

/// The API keys of the tenants.
pub struct SecretConfig {
    pub api_keys: Vec<(String, String)>,
}

/// A limit: at most `requests` requests per `window_seconds` seconds.
pub struct RateLimitRule {
    pub requests: u64,
    pub window_seconds: u64,
}

impl DeepView for RateLimitRule {
    type V = (u64, u64);

    open spec fn deep_view(&self) -> (u64, u64) {
        (self.requests, self.window_seconds)
    }
}

impl Default for RateLimitRule {
    /// The rule of a configuration that names none: it admits nothing.
    fn default() -> (r: Self)
        ensures
            r.requests == 0,
            r.window_seconds == 0,
    {
        RateLimitRule { requests: 0, window_seconds: 0 }
    }
}

/// The limits by key (`tenant`, `tenant:service` or
/// `tenant:service:route`) and the fallback rule.
pub struct RateLimitConfig {
    pub default: RateLimitRule,
    pub limits: Vec<(String, RateLimitRule)>,
}

impl Default for RateLimitConfig {
    /// The configuration used when no configuration file exists.
    fn default() -> (r: Self)
        ensures
            r.default.requests == 0,
            r.default.window_seconds == 0,
            r.limits@.len() == 0,
    {
        RateLimitConfig { default: RateLimitRule::default(), limits: Vec::new() }
    }
}

/// The window one key is counted in.
pub struct BucketState {
    pub window_start: u64,
    pub count: u64,
}

impl DeepView for BucketState {
    type V = (u64, u64);

    open spec fn deep_view(&self) -> (u64, u64) {
        (self.window_start, self.count)
    }
}

/// The buckets by `tenant:service:route`.
pub struct RateLimitState {
    pub buckets: Vec<(String, BucketState)>,
}

impl Default for RateLimitState {
    /// No bucket yet.
    fn default() -> (r: Self)
        ensures
            r.buckets@.len() == 0,
    {
        RateLimitState { buckets: Vec::new() }
    }
}

/// The answer to one request.
pub struct RateLimitDecision {
    pub allowed: bool,
    pub limit: u64,
    pub remaining: u64,
    pub window_seconds: u64,
}

/// `requests` of a rule given without one.
pub fn default_requests() -> (n: u64)
    ensures
        n == 60,
{
    60
}

/// `window_seconds` of a rule given without one.
pub fn default_window_seconds() -> (n: u64)
    ensures
        n == 60,
{
    60
}

/// The value of the first entry keyed `key`.
pub open spec fn entry_value<V>(entries: Seq<(Seq<char>, V)>, key: Seq<char>) -> Option<V>
    decreases entries.len(),
{
    if entries.len() == 0 {
        None
    } else if entries[0].0 == key {
        Some(entries[0].1)
    } else {
        entry_value(entries.drop_first(), key)
    }
}

/// The index of the first entry keyed `key`.
pub open spec fn entry_index<V>(entries: Seq<(Seq<char>, V)>, key: Seq<char>) -> Option<int>
    decreases entries.len(),
{
    if entries.len() == 0 {
        None
    } else if entries[0].0 == key {
        Some(0)
    } else {
        match entry_index(entries.drop_first(), key) {
            Some(i) => Some(i + 1),
            None => None,
        }
    }
}

/// `entry_index` names the first entry with the key, and `entry_value`
/// is its value.
pub proof fn lemma_entry_index<V>(entries: Seq<(Seq<char>, V)>, key: Seq<char>)
    ensures
        match entry_index(entries, key) {
            Some(i) => {
                &&& 0 <= i < entries.len()
                &&& entries[i].0 == key
                &&& forall|j: int| 0 <= j < i ==> entries[j].0 != key
                &&& entry_value(entries, key) == Some(entries[i].1)
            },
            None => {
                &&& forall|j: int| 0 <= j < entries.len() ==> entries[j].0 != key
                &&& entry_value(entries, key) is None
            },
        },
    decreases entries.len(),
{
    if entries.len() > 0 && entries[0].0 != key {
        let rest = entries.drop_first();
        lemma_entry_index(rest, key);
        match entry_index(rest, key) {
            Some(i) => {
                assert forall|j: int| 0 <= j < i + 1 implies entries[j].0 != key by {
                    if j > 0 {
                        assert(entries[j] == rest[j - 1]);
                    }
                }
            },
            None => {
                assert forall|j: int| 0 <= j < entries.len() implies entries[j].0 != key by {
                    if j > 0 {
                        assert(entries[j] == rest[j - 1]);
                    }
                }
            },
        }
    }
}

/// A value is found by the first entry with its key: replacing the value
/// of that entry changes what `key` finds and nothing else.
pub proof fn lemma_entry_update<V>(entries: Seq<(Seq<char>, V)>, key: Seq<char>, v: V, i: int)
    requires
        entry_index(entries, key) == Some(i),
    ensures
        entry_value(entries.update(i, (key, v)), key) == Some(v),
        forall|k: Seq<char>|
            k != key ==> entry_value(entries.update(i, (key, v)), k) == entry_value(
                entries,
                k,
            ),
    decreases entries.len(),
{
    let rest = entries.drop_first();
    lemma_entry_index(entries, key);
    if i > 0 {
        assert(entries[0].0 != key);
        assert(entry_index(rest, key) == Some(i - 1));
        lemma_entry_update(rest, key, v, i - 1);
        let upd = entries.update(i, (key, v));
        assert(upd.drop_first() =~= rest.update(i - 1, (key, v)));
        assert forall|k: Seq<char>| k != key implies entry_value(upd, k) == entry_value(
            entries,
            k,
        ) by {
            assert(upd[0] == entries[0]);
            assert(upd.len() == entries.len());
            if entries[0].0 != k {
                assert(entry_value(upd, k) == entry_value(upd.drop_first(), k));
                assert(entry_value(entries, k) == entry_value(rest, k));
                assert(entry_value(rest.update(i - 1, (key, v)), k) == entry_value(rest, k));
            }
        }
    } else {
        assert(entries.update(i, (key, v)).drop_first() =~= rest);
    }
}

/// Appending an entry for a key that has none makes the key find it and
/// changes what no other key finds.
pub proof fn lemma_entry_push<V>(entries: Seq<(Seq<char>, V)>, key: Seq<char>, v: V)
    requires
        entry_value(entries, key) is None,
    ensures
        entry_value(entries.push((key, v)), key) == Some(v),
        forall|k: Seq<char>|
            k != key ==> entry_value(entries.push((key, v)), k) == entry_value(entries, k),
    decreases entries.len(),
{
    if entries.len() == 0 {
        assert(entries.push((key, v)).drop_first() =~= Seq::<(Seq<char>, V)>::empty());
        assert forall|k: Seq<char>| k != key implies entry_value(entries.push((key, v)), k)
            == entry_value(entries, k) by {
            assert(entry_value(Seq::<(Seq<char>, V)>::empty(), k) is None);
        }
    } else {
        let rest = entries.drop_first();
        assert(entries.push((key, v)).drop_first() =~= rest.push((key, v)));
        lemma_entry_push(rest, key, v);
        let pushed = entries.push((key, v));
        assert forall|k: Seq<char>| k != key implies entry_value(pushed, k) == entry_value(
            entries,
            k,
        ) by {
            assert(pushed[0] == entries[0]);
            assert(pushed.len() == entries.len() + 1);
            if entries[0].0 != k {
                assert(entry_value(pushed, k) == entry_value(pushed.drop_first(), k));
                assert(entry_value(entries, k) == entry_value(rest, k));
                assert(entry_value(rest.push((key, v)), k) == entry_value(rest, k));
            }
        }
        assert(pushed[0] == entries[0]);
    }
}

/// The index of the first entry keyed `key`.
fn find_entry<V: DeepView>(entries: &Vec<(String, V)>, key: &String) -> (r: Option<usize>)
    ensures
        match r {
            Some(i) => entry_index(entries.deep_view(), key@) == Some(i as int),
            None => entry_index(entries.deep_view(), key@) is None,
        },
{
    let ghost all = entries.deep_view();
    let mut i: usize = 0;
    assert(all.skip(0) =~= all);
    while i < entries.len()
        invariant
            i <= entries.len(),
            all == entries.deep_view(),
            entry_index(all, key@) == match entry_index(all.skip(i as int), key@) {
                Some(j) => Some(j + i),
                None => None,
            },
        decreases entries.len() - i,
    {
        let ghost rest = all.skip(i as int);
        assert(rest[0].0 == entries[i as int].0@);
        if entries[i].0 == *key {
            return Some(i);
        }
        assert(rest.drop_first() =~= all.skip(i + 1));
        i += 1;
    }
    assert(all.skip(i as int) =~= Seq::<(Seq<char>, V::V)>::empty());
    None
}

/// The key configured for `tenant_id`, if a key table was found.
pub fn load_secret(secrets: Option<&SecretConfig>, tenant_id: &String) -> (r: Option<String>)
    ensures
        match secrets {
            None => r is None,
            Some(c) => match entry_value(c.api_keys.deep_view(), tenant_id@) {
                Some(k) => r is Some && r->0@ == k,
                None => r is None,
            },
        },
{
    match secrets {
        None => None,
        Some(c) => {
            proof {
                lemma_entry_index(c.api_keys.deep_view(), tenant_id@);
            }
            match find_entry(&c.api_keys, tenant_id) {
                Some(i) => Some(c.api_keys[i].1.clone()),
                None => None,
            }
        },
    }
}

/// The rule of a request: the first of the limits for the route key, the
/// service key and the tenant that exists; else the fallback rule, or a
/// rule that admits nothing where the fallback admits nothing.
pub open spec fn effective_rule(
    limits: Seq<(Seq<char>, (u64, u64))>,
    fallback: (u64, u64),
    tenant: Seq<char>,
    service: Seq<char>,
    route: Seq<char>,
) -> (u64, u64) {
    match entry_value(limits, route_key(tenant, service, route)) {
        Some(r) => r,
        None => match entry_value(limits, service_key(tenant, service)) {
            Some(r) => r,
            None => match entry_value(limits, tenant) {
                Some(r) => r,
                None => if fallback.0 == 0 {
                    (0, 0)
                } else {
                    fallback
                },
            },
        },
    }
}

/// One request against a bucket `(window_start, count)` under the rule
/// `(requests, window_seconds)` at `now`: the window restarts at `now`
/// once `window_seconds` have passed since it started (a bucket that never
/// started starts at `now`), and the request is admitted and counted while
/// the count is under `requests`. Gives the new bucket and the admission.
pub open spec fn bucket_after(bucket: (u64, u64), rule: (u64, u64), now: u64) -> (
    u64,
    u64,
    bool,
) {
    let elapsed = if now >= bucket.0 {
        now - bucket.0
    } else {
        0
    };
    let (start, seen) = if elapsed >= rule.1 {
        (now, 0u64)
    } else {
        bucket
    };
    let start = if start == 0 {
        now
    } else {
        start
    };
    let allowed = seen < rule.0;
    let count = if allowed {
        (seen + 1) as u64
    } else {
        seen
    };
    (start, count, allowed)
}

/// The requests at the instants `nows`, one after the other, against the
/// bucket `b`: the final bucket and how many of them were admitted.
pub open spec fn run_requests(b: (u64, u64), rule: (u64, u64), nows: Seq<u64>) -> (u64, u64, nat)
    decreases nows.len(),
{
    if nows.len() == 0 {
        (b.0, b.1, 0)
    } else {
        let (start, count, allowed) = bucket_after(b, rule, nows[0]);
        let (s, c, n) = run_requests((start, count), rule, nows.drop_first());
        (s, c, n + if allowed {
            1nat
        } else {
            0nat
        })
    }
}

/// A counted request never takes the count past the limit, and a count
/// within the limit stays within it.
pub proof fn bucket_count_within_limit(bucket: (u64, u64), rule: (u64, u64), now: u64)
    ensures
        bucket_after(bucket, rule, now).2 ==> bucket_after(bucket, rule, now).1 <= rule.0,
        bucket.1 <= rule.0 ==> bucket_after(bucket, rule, now).1 <= rule.0,
{
}

/// One window admits at most `requests` requests: from a started bucket
/// whose count is within the limit, requests that all come before the
/// window ends are admitted at most as often as the limit leaves room,
/// and the window does not move.
pub proof fn window_admits_at_most_limit(b: (u64, u64), rule: (u64, u64), nows: Seq<u64>)
    requires
        b.0 > 0,
        b.1 <= rule.0,
        forall|i: int| 0 <= i < nows.len() ==> b.0 <= #[trigger] nows[i] < b.0 + rule.1,
    ensures
        run_requests(b, rule, nows).0 == b.0,
        run_requests(b, rule, nows).1 == b.1 + run_requests(b, rule, nows).2,
        run_requests(b, rule, nows).2 <= rule.0 - b.1,
    decreases nows.len(),
{
    if nows.len() > 0 {
        let (start, count, allowed) = bucket_after(b, rule, nows[0]);
        let rest = nows.drop_first();
        assert forall|i: int| 0 <= i < rest.len() implies b.0 <= #[trigger] rest[i] < b.0
            + rule.1 by {
            assert(rest[i] == nows[i + 1]);
        }
        window_admits_at_most_limit((start, count), rule, rest);
    }
}

/// A missing bucket counts as one that never started.
pub open spec fn bucket_or_new(b: Option<(u64, u64)>) -> (u64, u64) {
    match b {
        Some(b) => b,
        None => (0, 0),
    }
}

fn rule_lookup(limits: &Vec<(String, RateLimitRule)>, key: &String) -> (r: Option<(u64, u64)>)
    ensures
        r == entry_value(limits.deep_view(), key@),
{
    proof {
        lemma_entry_index(limits.deep_view(), key@);
    }
    match find_entry(limits, key) {
        Some(i) => Some((limits[i].1.requests, limits[i].1.window_seconds)),
        None => None,
    }
}

fn join3(a: &str, b: &str, c: &str) -> (r: String)
    ensures
        r@ == route_key(a@, b@, c@),
{
    let mut out: Vec<char> = Vec::new();
    push_str(&mut out, a);
    out.push(':');
    push_str(&mut out, b);
    out.push(':');
    push_str(&mut out, c);
    assert(out@ =~= route_key(a@, b@, c@));
    assert(out@.subrange(0, out@.len() as int) =~= out@);
    string_of(&out, 0, out.len())
}

fn join2(a: &str, b: &str) -> (r: String)
    ensures
        r@ == service_key(a@, b@),
{
    let mut out: Vec<char> = Vec::new();
    push_str(&mut out, a);
    out.push(':');
    push_str(&mut out, b);
    assert(out@ =~= service_key(a@, b@));
    assert(out@.subrange(0, out@.len() as int) =~= out@);
    string_of(&out, 0, out.len())
}

/// Counts one request of `tenant_id` to `route_id` of `service_id` at
/// `now_epoch_seconds` in the bucket of `tenant:service:route`, creating
/// the bucket when it is missing, and answers whether it is admitted.
pub fn consume_rate_limit(
    config: &RateLimitConfig,
    state: &mut RateLimitState,
    tenant_id: &str,
    service_id: &str,
    route_id: &str,
    now_epoch_seconds: u64,
) -> (d: RateLimitDecision)
    ensures
        ({
            let key = route_key(tenant_id@, service_id@, route_id@);
            let rule = effective_rule(
                config.limits.deep_view(),
                config.default.deep_view(),
                tenant_id@,
                service_id@,
                route_id@,
            );
            let old_bucket = bucket_or_new(entry_value(old(state).buckets.deep_view(), key));
            let (start, count, allowed) = bucket_after(old_bucket, rule, now_epoch_seconds);
            &&& entry_value(final(state).buckets.deep_view(), key) == Some((start, count))
            &&& forall|k: Seq<char>|
                k != key ==> entry_value(final(state).buckets.deep_view(), k) == entry_value(
                    old(state).buckets.deep_view(),
                    k,
                )
            &&& d.allowed == allowed
            &&& d.limit == rule.0
            &&& d.window_seconds == rule.1
            &&& d.remaining == if count <= rule.0 {
                rule.0 - count
            } else {
                0
            }
        }),
{
    let key = join3(tenant_id, service_id, route_id);
    let rule: (u64, u64) = match rule_lookup(&config.limits, &key) {
        Some(r) => r,
        None => {
            let skey = join2(tenant_id, service_id);
            match rule_lookup(&config.limits, &skey) {
                Some(r) => r,
                None => {
                    let tkey = string_of_str(tenant_id);
                    match rule_lookup(&config.limits, &tkey) {
                        Some(r) => r,
                        None => if config.default.requests == 0 {
                            let d = RateLimitRule::default();
                            (d.requests, d.window_seconds)
                        } else {
                            (config.default.requests, config.default.window_seconds)
                        },
                    }
                },
            }
        },
    };
    let ghost old_entries = state.buckets.deep_view();
    proof {
        lemma_entry_index(old_entries, key@);
    }
    let found = find_entry(&state.buckets, &key);
    let (mut window_start, mut count) = match found {
        Some(i) => (state.buckets[i].1.window_start, state.buckets[i].1.count),
        None => (0u64, 0u64),
    };
    if now_epoch_seconds.saturating_sub(window_start) >= rule.1 {
        window_start = now_epoch_seconds;
        count = 0;
    }
    if window_start == 0 {
        window_start = now_epoch_seconds;
    }
    let allowed = count < rule.0;
    if allowed {
        count += 1;
    }
    let remaining = rule.0.saturating_sub(count);
    let ghost new_bucket = (window_start, count);
    let ghost key_v = key@;
    match found {
        Some(i) => {
            state.buckets.set(i, (key, BucketState { window_start, count }));
            proof {
                lemma_entry_update(old_entries, key_v, new_bucket, i as int);
                assert(state.buckets.deep_view() =~= old_entries.update(
                    i as int,
                    (key_v, new_bucket),
                ));
            }
        },
        None => {
            state.buckets.push((key, BucketState { window_start, count }));
            proof {
                lemma_entry_push(old_entries, key_v, new_bucket);
                assert(state.buckets.deep_view() =~= old_entries.push((key_v, new_bucket)));
            }
        },
    }
    RateLimitDecision { allowed, limit: rule.0, remaining, window_seconds: rule.1 }
}

fn string_of_str(s: &str) -> (r: String)
    ensures
        r@ == s@,
{
    let mut out: Vec<char> = Vec::new();
    push_str(&mut out, s);
    assert(out@.subrange(0, out@.len() as int) =~= out@);
    string_of(&out, 0, out.len())
}

} // verus!
