//! Assembly of a revision bundle from the documents of its directory:
//! which files hold routers, services and policies, in which order they
//! are taken, how services with the same name replace one another, and
//! the ordering of policies. Reading and parsing the files happens around
//! these functions.

use vstd::prelude::*;
use crate::models::{
    GatewayDocument, ListenerDocument, PluginChainDocument, PolicyEntry, RevisionBundle,
    RevisionManifest, RouterDocument, ServiceDocument,
};
use crate::order::{is_permutation_of_range, stable_order, stable_order_of, stable_order_sorts};
use crate::runtime::is_resource_file;
use crate::text::chars_of;

verus! {

broadcast use vstd::seq_lib::group_to_multiset_ensures;

/// `a` sorts strictly before `b`: compared character by character, a
/// proper prefix first.
pub open spec fn lex_lt(a: Seq<char>, b: Seq<char>) -> bool
    decreases a.len(),
{
    if a.len() == 0 {
        b.len() > 0
    } else if b.len() == 0 {
        false
    } else if a[0] != b[0] {
        a[0] < b[0]
    } else {
        lex_lt(a.drop_first(), b.drop_first())
    }
}

/// No name sorts before one that precedes it.
pub open spec fn lex_sorted(s: Seq<Seq<char>>) -> bool {
    forall|i: int, j: int| 0 <= i < j < s.len() ==> !lex_lt(#[trigger] s[j], #[trigger] s[i])
}

pub proof fn lemma_lex_asym(a: Seq<char>, b: Seq<char>)
    ensures
        !(lex_lt(a, b) && lex_lt(b, a)),
    decreases a.len(),
{
    if a.len() > 0 && b.len() > 0 && a[0] == b[0] {
        lemma_lex_asym(a.drop_first(), b.drop_first());
    }
}

pub proof fn lemma_lex_trans(a: Seq<char>, b: Seq<char>, c: Seq<char>)
    requires
        lex_lt(a, b),
        lex_lt(b, c),
    ensures
        lex_lt(a, c),
    decreases a.len(),
{
    if a.len() > 0 && a[0] == b[0] && b[0] == c[0] {
        lemma_lex_trans(a.drop_first(), b.drop_first(), c.drop_first());
    }
}

pub proof fn lemma_lex_total(a: Seq<char>, b: Seq<char>)
    ensures
        a == b || lex_lt(a, b) || lex_lt(b, a),
    decreases a.len(),
{
    if a.len() == 0 && b.len() == 0 {
        assert(a =~= b);
    } else if a.len() > 0 && b.len() > 0 && a[0] == b[0] {
        lemma_lex_total(a.drop_first(), b.drop_first());
        if a.drop_first() == b.drop_first() {
            assert(a =~= seq![a[0]] + a.drop_first());
            assert(b =~= seq![b[0]] + b.drop_first());
        }
    }
}

fn lex_less(a: &str, b: &str) -> (r: bool)
    ensures
        r == lex_lt(a@, b@),
{
    let x = chars_of(a);
    let y = chars_of(b);
    let mut i: usize = 0;
    assert(x@.skip(0) =~= x@ && y@.skip(0) =~= y@);
    while i < x.len() && i < y.len()
        invariant
            x@ == a@,
            y@ == b@,
            i <= x.len(),
            i <= y.len(),
            lex_lt(a@, b@) == lex_lt(x@.skip(i as int), y@.skip(i as int)),
        decreases x.len() - i,
    {
        let ghost xs = x@.skip(i as int);
        let ghost ys = y@.skip(i as int);
        assert(xs[0] == x@[i as int] && ys[0] == y@[i as int]);
        if x[i] != y[i] {
            return x[i] < y[i];
        }
        assert(xs.drop_first() =~= x@.skip(i + 1));
        assert(ys.drop_first() =~= y@.skip(i + 1));
        i += 1;
    }
    i == x.len() && i < y.len()
}

/// The names with the prefix and the `.json` extension, in their order.
pub open spec fn resource_files(names: Seq<Seq<char>>, prefix: Seq<char>) -> Seq<Seq<char>>
    decreases names.len(),
{
    if names.len() == 0 {
        Seq::empty()
    } else {
        let n = names.len() - 1;
        resource_files(names.take(n), prefix) + if is_resource_file(names[n], prefix) {
            seq![names[n]]
        } else {
            Seq::empty()
        }
    }
}

proof fn lemma_insert_sorted(s: Seq<Seq<char>>, x: Seq<char>, p: int)
    requires
        lex_sorted(s),
        0 <= p <= s.len(),
        forall|k: int| 0 <= k < p ==> !lex_lt(x, #[trigger] s[k]),
        p < s.len() ==> lex_lt(x, s[p]),
    ensures
        lex_sorted(s.insert(p, x)),
{
    let r = s.insert(p, x);
    assert forall|i: int, j: int| 0 <= i < j < r.len() implies !lex_lt(#[trigger] r[j], #[trigger] r[i]) by {
        if i < p && j == p {
            assert(r[j] == x && r[i] == s[i]);
        } else if i == p {
            assert(r[i] == x && r[j] == s[j - 1]);
            assert(lex_lt(x, s[p]));
            if j - 1 > p {
                assert(!lex_lt(s[j - 1], s[p]));
                lemma_lex_total(s[p], s[j - 1]);
                if s[p] != s[j - 1] {
                    lemma_lex_trans(x, s[p], s[j - 1]);
                }
            }
            lemma_lex_asym(x, s[j - 1]);
        } else if j < p {
            assert(r[i] == s[i] && r[j] == s[j]);
        } else if i < p {
            assert(r[i] == s[i] && r[j] == s[j - 1]);
        } else {
            assert(r[i] == s[i - 1] && r[j] == s[j - 1]);
        }
    }
}

/// The resource files with the prefix among the names of a directory's
/// files, in name order.
pub fn sorted_resource_files(names: &Vec<String>, prefix: &str) -> (r: Vec<String>)
    ensures
        lex_sorted(r.deep_view()),
        r.deep_view().to_multiset() == resource_files(names.deep_view(), prefix@).to_multiset(),
{
    let ghost all = names.deep_view();
    let mut r: Vec<String> = Vec::new();
    let mut i: usize = 0;
    assert(all.take(0) =~= Seq::<Seq<char>>::empty());
    assert(r.deep_view() =~= Seq::<Seq<char>>::empty());
    while i < names.len()
        invariant
            i <= names.len(),
            all == names.deep_view(),
            lex_sorted(r.deep_view()),
            r.deep_view().to_multiset() == resource_files(all.take(i as int), prefix@).to_multiset(),
        decreases names.len() - i,
    {
        let name = names[i].as_str();
        let ghost upto = all.take(i + 1);
        assert(upto.take(i as int) =~= all.take(i as int));
        assert(upto[i as int] == name@);
        if crate::runtime::is_resource_name(name, prefix) {
            let ghost before = r.deep_view();
            let mut p: usize = 0;
            while p < r.len() && !lex_less(name, r[p].as_str())
                invariant
                    p <= r.len(),
                    before == r.deep_view(),
                    forall|k: int| 0 <= k < p ==> !lex_lt(name@, #[trigger] before[k]),
                decreases r.len() - p,
            {
                p += 1;
            }
            proof {
                lemma_insert_sorted(before, name@, p as int);
            }
            r.insert(p, names[i].clone());
            assert(r.deep_view() =~= before.insert(p as int, name@));
            assert(resource_files(upto, prefix@) =~= resource_files(all.take(i as int), prefix@).push(name@));
        } else {
            assert(resource_files(upto, prefix@) =~= resource_files(all.take(i as int), prefix@));
        }
        i += 1;
    }
    assert(all.take(i as int) =~= all);
    r
}

/// The index of the first service named `name`.
pub open spec fn service_index(s: Seq<ServiceDocument>, name: Seq<char>) -> Option<int>
    decreases s.len(),
{
    if s.len() == 0 {
        None
    } else if s[0].metadata.name@ == name {
        Some(0)
    } else {
        match service_index(s.drop_first(), name) {
            Some(i) => Some(i + 1),
            None => None,
        }
    }
}

proof fn lemma_service_index(s: Seq<ServiceDocument>, name: Seq<char>)
    ensures
        match service_index(s, name) {
            Some(i) => 0 <= i < s.len() && s[i].metadata.name@ == name,
            None => forall|j: int| 0 <= j < s.len() ==> s[j].metadata.name@ != name,
        },
    decreases s.len(),
{
    if s.len() > 0 && s[0].metadata.name@ != name {
        lemma_service_index(s.drop_first(), name);
        if service_index(s.drop_first(), name) is None {
            assert forall|j: int| 0 <= j < s.len() implies s[j].metadata.name@ != name by {
                if j > 0 {
                    assert(s[j] == s.drop_first()[j - 1]);
                }
            }
        }
    }
}

/// The services of a bundle from the service files in order: a service
/// whose name was already seen replaces the earlier one in its place.
pub open spec fn merge_services(docs: Seq<ServiceDocument>) -> Seq<ServiceDocument>
    decreases docs.len(),
{
    if docs.len() == 0 {
        Seq::empty()
    } else {
        let prev = merge_services(docs.drop_last());
        let d = docs.last();
        match service_index(prev, d.metadata.name@) {
            Some(i) => prev.update(i, d),
            None => prev.push(d),
        }
    }
}

/// The index-free view of "no two services share a name".
pub open spec fn names_unique(s: Seq<ServiceDocument>) -> bool {
    forall|i: int, j: int|
        0 <= i < j < s.len() ==> (#[trigger] s[i]).metadata.name@ != (#[trigger] s[j]).metadata.name@
}

/// No two merged services share a name.
pub proof fn merged_service_names_unique(docs: Seq<ServiceDocument>)
    ensures
        names_unique(merge_services(docs)),
    decreases docs.len(),
{
    if docs.len() > 0 {
        let rest = docs.drop_last();
        let prev = merge_services(rest);
        let d = docs.last();
        let m = merge_services(docs);
        merged_service_names_unique(rest);
        lemma_service_index(prev, d.metadata.name@);
        assert forall|i: int, j: int| 0 <= i < j < m.len() implies (#[trigger] m[i]).metadata.name@
            != (#[trigger] m[j]).metadata.name@ by {
            match service_index(prev, d.metadata.name@) {
                Some(x) => {
                    if i == x {
                        assert(m[j] == prev[j]);
                    } else if j == x {
                        assert(m[i] == prev[i]);
                    } else {
                        assert(m[i] == prev[i] && m[j] == prev[j]);
                    }
                },
                None => {
                    if j == prev.len() {
                        assert(m[i] == prev[i]);
                    } else {
                        assert(m[i] == prev[i] && m[j] == prev[j]);
                    }
                },
            }
        }
    }
}

/// Every name of a service file is among the merged services.
pub proof fn merged_services_keep_every_name(docs: Seq<ServiceDocument>)
    ensures
        forall|i: int|
            0 <= i < docs.len() ==> exists|j: int|
                0 <= j < merge_services(docs).len() && (#[trigger] merge_services(docs)[j]).metadata.name@
                    == (#[trigger] docs[i]).metadata.name@,
    decreases docs.len(),
{
    if docs.len() > 0 {
        let rest = docs.drop_last();
        let prev = merge_services(rest);
        let d = docs.last();
        let m = merge_services(docs);
        let last = docs.len() - 1;
        merged_services_keep_every_name(rest);
        lemma_service_index(prev, d.metadata.name@);
        assert forall|i: int| 0 <= i < docs.len() implies exists|j: int|
            0 <= j < m.len() && (#[trigger] m[j]).metadata.name@ == (#[trigger] docs[i]).metadata.name@ by {
            let n = docs[i].metadata.name@;
            if n == d.metadata.name@ {
                match service_index(prev, n) {
                    Some(x) => {
                        assert(m[x].metadata.name@ == n);
                    },
                    None => {
                        assert(m[prev.len() as int].metadata.name@ == n);
                    },
                }
            } else {
                assert(i < last);
                assert(rest[i] == docs[i]);
                let j = choose|j: int|
                    0 <= j < prev.len() && (#[trigger] prev[j]).metadata.name@ == (#[trigger] rest[i]).metadata.name@;
                match service_index(prev, d.metadata.name@) {
                    Some(x) => {
                        assert(j != x);
                        assert(m[j] == prev[j]);
                    },
                    None => {
                        assert(m[j] == prev[j]);
                    },
                }
            }
        }
    }
}

/// Each merged service is the last service file of its name: a later
/// file with the same name replaces an earlier one.
pub proof fn merged_services_are_last_of_their_name(docs: Seq<ServiceDocument>)
    ensures
        forall|j: int|
            0 <= j < merge_services(docs).len() ==> exists|i: int|
                0 <= i < docs.len() && docs[i] == #[trigger] merge_services(docs)[j] && forall|k: int|
                    i < k < docs.len() ==> (#[trigger] docs[k]).metadata.name@ != docs[i].metadata.name@,
    decreases docs.len(),
{
    if docs.len() > 0 {
        let rest = docs.drop_last();
        let prev = merge_services(rest);
        let d = docs.last();
        let m = merge_services(docs);
        let last = docs.len() - 1;
        merged_services_are_last_of_their_name(rest);
        merged_service_names_unique(rest);
        lemma_service_index(prev, d.metadata.name@);
        assert forall|j: int| 0 <= j < m.len() implies exists|i: int|
            0 <= i < docs.len() && docs[i] == #[trigger] m[j] && forall|k: int|
                i < k < docs.len() ==> (#[trigger] docs[k]).metadata.name@ != docs[i].metadata.name@ by {
            let is_new = match service_index(prev, d.metadata.name@) {
                Some(x) => j == x,
                None => j == prev.len(),
            };
            if is_new {
                assert(m[j] == d);
                assert(docs[last] == m[j]);
            } else {
                assert(j < prev.len() && m[j] == prev[j]);
                let i = choose|i: int|
                    0 <= i < rest.len() && rest[i] == #[trigger] prev[j] && forall|k: int|
                        i < k < rest.len() ==> (#[trigger] rest[k]).metadata.name@
                            != rest[i].metadata.name@;
                assert(docs[i] == rest[i]);
                match service_index(prev, d.metadata.name@) {
                    Some(x) => {
                        assert(prev[x].metadata.name@ != prev[j].metadata.name@);
                    },
                    None => {},
                }
                assert forall|k: int| i < k < docs.len() implies (#[trigger] docs[k]).metadata.name@
                    != docs[i].metadata.name@ by {
                    if k < last {
                        assert(docs[k] == rest[k]);
                    }
                }
            }
        }
    }
}

fn find_service(s: &Vec<ServiceDocument>, name: &String) -> (r: Option<usize>)
    ensures
        match r {
            Some(i) => service_index(s@, name@) == Some(i as int),
            None => service_index(s@, name@) is None,
        },
{
    let mut i: usize = 0;
    assert(s@.skip(0) =~= s@);
    while i < s.len()
        invariant
            i <= s.len(),
            service_index(s@, name@) == match service_index(s@.skip(i as int), name@) {
                Some(j) => Some(j + i),
                None => None,
            },
        decreases s.len() - i,
    {
        assert(s@.skip(i as int)[0] == s@[i as int]);
        if crate::text::same_text(s[i].metadata.name.as_str(), name.as_str()) {
            return Some(i);
        }
        assert(s@.skip(i as int).drop_first() =~= s@.skip(i + 1));
        i += 1;
    }
    None
}

/// The services of a bundle, from its service documents in file order.
pub fn merge_service_documents(docs: Vec<ServiceDocument>) -> (r: Vec<ServiceDocument>)
    ensures
        r@ == merge_services(docs@),
{
    let ghost all = docs@;
    let mut docs = docs;
    let mut r: Vec<ServiceDocument> = Vec::new();
    let mut k: usize = 0;
    assert(all.take(0) =~= Seq::<ServiceDocument>::empty());
    assert(all.skip(0) =~= all);
    assert(all.len() == docs.len());
    while docs.len() > 0
        invariant
            k + docs.len() == all.len(),
            all.len() <= usize::MAX,
            docs@ == all.skip(k as int),
            r@ == merge_services(all.take(k as int)),
        decreases docs.len(),
    {
        let d = docs.remove(0);
        assert(d == all[k as int]);
        assert(docs@ =~= all.skip(k + 1));
        let ghost upto = all.take(k + 1);
        assert(upto.drop_last() =~= all.take(k as int));
        assert(upto.last() == d);
        proof {
            lemma_service_index(r@, d.metadata.name@);
        }
        match find_service(&r, &d.metadata.name) {
            Some(i) => {
                r.set(i, d);
            },
            None => {
                r.push(d);
            },
        }
        k += 1;
    }
    assert(all.take(k as int) =~= all);
    r
}

/// The `order` of each policy.
pub open spec fn policy_keys(p: Seq<PolicyEntry>) -> Seq<u32> {
    Seq::new(p.len(), |i: int| p[i].document.spec.order as u32)
}

/// The policies by `order`, those of equal order in file order.
pub open spec fn ordered_policies(p: Seq<PolicyEntry>) -> Seq<PolicyEntry> {
    let idx = stable_order(policy_keys(p), p.len());
    Seq::new(p.len(), |k: int| p[idx[k] as int])
}

/// The ordered policies are the policies, each once, with `order`
/// ascending and policies of equal order in file order.
pub proof fn policies_ordered_stably(p: Seq<PolicyEntry>)
    requires
        p.len() <= usize::MAX,
    ensures
        ordered_policies(p).len() == p.len(),
        is_permutation_of_range(stable_order(policy_keys(p), p.len()), p.len()),
        forall|i: int, j: int|
            0 <= i < j < p.len() ==> (#[trigger] ordered_policies(p)[i]).document.spec.order
                <= (#[trigger] ordered_policies(p)[j]).document.spec.order,
        forall|i: int, j: int|
            0 <= i < j < p.len() && (#[trigger] ordered_policies(p)[i]).document.spec.order
                == (#[trigger] ordered_policies(p)[j]).document.spec.order ==> stable_order(
                policy_keys(p),
                p.len(),
            )[i] < stable_order(policy_keys(p), p.len())[j],
{
    let keys = policy_keys(p);
    let idx = stable_order(keys, p.len());
    stable_order_sorts(keys, p.len());
    let r = ordered_policies(p);
    assert forall|i: int, j: int| 0 <= i < j < p.len() implies (#[trigger] r[i]).document.spec.order
        <= (#[trigger] r[j]).document.spec.order && (r[i].document.spec.order
        == r[j].document.spec.order ==> idx[i] < idx[j]) by {
        assert(keys[idx[i] as int] == r[i].document.spec.order as u32);
        assert(keys[idx[j] as int] == r[j].document.spec.order as u32);
    }
}

/// The policies of a bundle, ordered by `order` (ties in file order).
pub fn order_policies(policies: Vec<PolicyEntry>) -> (r: Vec<PolicyEntry>)
    ensures
        r@ == ordered_policies(policies@),
{
    let ghost all = policies@;
    let n = policies.len();
    let mut keys: Vec<u32> = Vec::new();
    let mut i: usize = 0;
    while i < n
        invariant
            i <= n,
            n == policies.len(),
            policies@ == all,
            keys@ == policy_keys(all).take(i as int),
        decreases n - i,
    {
        keys.push(policies[i].document.spec.order as u32);
        assert(keys@ =~= policy_keys(all).take(i + 1));
        i += 1;
    }
    assert(keys@ =~= policy_keys(all));
    let idx = stable_order_of(&keys);
    proof {
        stable_order_sorts(keys@, n as nat);
    }
    let mut source = policies;
    let mut slots: Vec<Option<PolicyEntry>> = Vec::new();
    let mut k: usize = 0;
    assert(all.skip(0) =~= all);
    while source.len() > 0
        invariant
            k + source.len() == n,
            n == all.len(),
            source@ == all.skip(k as int),
            slots.len() == k,
            forall|m: int| 0 <= m < k ==> slots@[m] == Some(all[m]),
        decreases source.len(),
    {
        let e = source.remove(0);
        assert(source@ =~= all.skip(k + 1));
        slots.push(Some(e));
        k += 1;
    }
    let mut r: Vec<PolicyEntry> = Vec::new();
    let mut t: usize = 0;
    while t < n
        invariant
            t <= n,
            n == all.len(),
            idx@ == stable_order(policy_keys(all), n as nat),
            is_permutation_of_range(idx@, n as nat),
            slots.len() == n,
            forall|m: int|
                0 <= m < n ==> #[trigger] slots@[m] == if idx@.take(t as int).contains(m as usize) {
                    None
                } else {
                    Some(all[m])
                },
            r@ == ordered_policies(all).take(t as int),
        decreases n - t,
    {
        let m = idx[t];
        assert(!idx@.take(t as int).contains(m)) by {
            if idx@.take(t as int).contains(m) {
                let pre = idx@.take(t as int);
                let q = choose|q: int| 0 <= q < t && #[trigger] pre[q] == m;
                assert(idx@[q] == idx@[t as int]);
            }
        }
        let slot = slots[m].take();
        let e = match slot {
            Some(e) => e,
            None => {
                assert(false);
                return r;
            },
        };
        r.push(e);
        let ghost before = idx@.take(t as int);
        let ghost after = idx@.take(t + 1);
        assert forall|q: int| 0 <= q < n implies #[trigger] slots@[q] == if after.contains(
            q as usize,
        ) {
            None
        } else {
            Some(all[q])
        } by {
            if after.contains(q as usize) {
                let w = choose|w: int| 0 <= w < t + 1 && #[trigger] after[w] == q as usize;
                if w < t {
                    assert(before[w] == q as usize);
                }
            } else {
                assert(after[t as int] == m);
                assert(q != m as int);
                if before.contains(q as usize) {
                    let w = choose|w: int| 0 <= w < t && #[trigger] before[w] == q as usize;
                    assert(after[w] == q as usize);
                }
            }
        }
        assert(r@ =~= ordered_policies(all).take(t + 1));
        t += 1;
    }
    assert(r@ =~= ordered_policies(all));
    r
}

/// The bundle of the revision directory `root`, from its parsed files:
/// the manifest, the plugin chain, the gateway and listener, the routers
/// in file order, the services merged by name and the policies ordered.
pub fn load_revision_bundle(
    root: String,
    manifest: RevisionManifest,
    plugin_chain: PluginChainDocument,
    gateway: GatewayDocument,
    listener: ListenerDocument,
    routers: Vec<RouterDocument>,
    services: Vec<ServiceDocument>,
    policies: Vec<PolicyEntry>,
) -> (b: RevisionBundle)
    ensures
        b.root == root,
        b.manifest == manifest,
        b.gateway == gateway,
        b.listener == listener,
        b.routers == routers,
        b.services@ == merge_services(services@),
        b.policies@ == ordered_policies(policies@),
        b.plugin_chain == plugin_chain.plugins,
{
    RevisionBundle {
        root,
        manifest,
        gateway,
        listener,
        routers,
        services: merge_service_documents(services),
        policies: order_policies(policies),
        plugin_chain: plugin_chain.plugins,
    }
}

} // verus!
