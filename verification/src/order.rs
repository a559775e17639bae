//! Stable ordering of positions by integer keys (insertion sort), used
//! wherever the gateway orders resources (`sort_by_key` is stable).

use vstd::prelude::*;

verus! {

/// Inserts `x` into `s` after every element whose key is at most `x`'s.
pub open spec fn insert_by_key(s: Seq<usize>, x: usize, keys: Seq<u32>) -> Seq<usize>
    decreases s.len(),
{
    if s.len() == 0 {
        seq![x]
    } else if keys[s.last() as int] <= keys[x as int] {
        s.push(x)
    } else {
        insert_by_key(s.drop_last(), x, keys).push(s.last())
    }
}

/// The positions `0..n` stably ordered by `keys`.
pub open spec fn stable_order(keys: Seq<u32>, n: nat) -> Seq<usize>
    decreases n,
{
    if n == 0 {
        Seq::empty()
    } else {
        insert_by_key(stable_order(keys, (n - 1) as nat), (n - 1) as usize, keys)
    }
}

/// Keys ascend along `s`, and positions with equal keys keep their order.
pub open spec fn stably_sorted(s: Seq<usize>, keys: Seq<u32>) -> bool {
    forall|i: int, j: int|
        0 <= i < j < s.len() ==> (keys[s[i] as int] < keys[s[j] as int] || (keys[s[i] as int]
            == keys[s[j] as int] && s[i] < s[j]))
}

/// `s` holds each of `0..n` exactly once.
pub open spec fn is_permutation_of_range(s: Seq<usize>, n: nat) -> bool {
    &&& s.len() == n
    &&& forall|i: int| 0 <= i < s.len() ==> s[i] < n
    &&& forall|i: int, j: int| 0 <= i < j < s.len() ==> s[i] != s[j]
}

fn insert_idx(s: Vec<usize>, x: usize, keys: &Vec<u32>) -> (r: Vec<usize>)
    requires
        x < keys.len(),
        forall|i: int| 0 <= i < s.len() ==> s[i] < keys.len(),
    ensures
        r@ == insert_by_key(s@, x, keys@),
        forall|i: int| 0 <= i < r.len() ==> r[i] < keys.len(),
    decreases s.len(),
{
    let mut s = s;
    if s.len() == 0 {
        let mut r = Vec::new();
        r.push(x);
        assert(r@ =~= seq![x]);
        r
    } else {
        let last = s[s.len() - 1];
        if keys[last] <= keys[x] {
            s.push(x);
            s
        } else {
            let ghost old_s = s@;
            let l = s.pop().unwrap();
            assert(s@ =~= old_s.drop_last());
            let mut t = insert_idx(s, x, keys);
            t.push(l);
            t
        }
    }
}

/// The positions of `keys`, stably ordered by key.
pub fn stable_order_of(keys: &Vec<u32>) -> (r: Vec<usize>)
    ensures
        r@ == stable_order(keys@, keys.len() as nat),
{
    let mut r: Vec<usize> = Vec::new();
    let mut i: usize = 0;
    while i < keys.len()
        invariant
            i <= keys.len(),
            r@ == stable_order(keys@, i as nat),
            forall|k: int| 0 <= k < r.len() ==> r[k] < keys.len(),
        decreases keys.len() - i,
    {
        r = insert_idx(r, i, keys);
        i += 1;
    }
    r
}

proof fn lemma_insert_by_key(s: Seq<usize>, x: usize, keys: Seq<u32>)
    requires
        stably_sorted(s, keys),
        forall|i: int| 0 <= i < s.len() ==> s[i] < x,
        x < keys.len(),
        forall|i: int| 0 <= i < s.len() ==> s[i] < keys.len(),
    ensures
        stably_sorted(insert_by_key(s, x, keys), keys),
        insert_by_key(s, x, keys).len() == s.len() + 1,
        forall|v: usize| #[trigger] insert_by_key(s, x, keys).contains(v) <==> (s.contains(v) || v
            == x),
    decreases s.len(),
{
    let r = insert_by_key(s, x, keys);
    if s.len() == 0 {
        assert(r =~= seq![x]);
        assert forall|v: usize| r.contains(v) <==> (s.contains(v) || v == x) by {
            if v == x {
                assert(r[0] == v);
            }
        }
    } else if keys[s.last() as int] <= keys[x as int] {
        assert(r =~= s.push(x));
        assert forall|v: usize| r.contains(v) <==> (s.contains(v) || v == x) by {
            if r.contains(v) {
                let k = choose|k: int| 0 <= k < r.len() && r[k] == v;
                if k < s.len() {
                    assert(s[k] == v);
                }
            }
            if s.contains(v) {
                let k = choose|k: int| 0 <= k < s.len() && s[k] == v;
                assert(r[k] == v);
            }
            if v == x {
                assert(r[s.len() as int] == v);
            }
        }
        assert forall|i: int, j: int| 0 <= i < j < r.len() implies (keys[r[i] as int]
            < keys[r[j] as int] || (keys[r[i] as int] == keys[r[j] as int] && r[i] < r[j])) by {
            if j == s.len() {
                if i < s.len() - 1 {
                    assert(keys[s[i] as int] <= keys[s.last() as int]);
                }
            }
        }
    } else {
        let t = s.drop_last();
        let l = s.last();
        assert forall|i: int, j: int| 0 <= i < j < t.len() implies (keys[t[i] as int]
            < keys[t[j] as int] || (keys[t[i] as int] == keys[t[j] as int] && t[i] < t[j])) by {
            assert(t[i] == s[i] && t[j] == s[j]);
        }
        lemma_insert_by_key(t, x, keys);
        let u = insert_by_key(t, x, keys);
        assert(r =~= u.push(l));
        assert forall|v: usize| r.contains(v) <==> (s.contains(v) || v == x) by {
            if r.contains(v) {
                let k = choose|k: int| 0 <= k < r.len() && r[k] == v;
                if k < u.len() {
                    assert(u.contains(v));
                    if t.contains(v) {
                        let m = choose|m: int| 0 <= m < t.len() && t[m] == v;
                        assert(s[m] == v);
                    }
                } else {
                    assert(s[s.len() - 1] == v);
                }
            }
            if s.contains(v) {
                let k = choose|k: int| 0 <= k < s.len() && s[k] == v;
                if k < t.len() {
                    assert(t[k] == v);
                    assert(u.contains(v));
                    let m = choose|m: int| 0 <= m < u.len() && u[m] == v;
                    assert(r[m] == v);
                } else {
                    assert(r[u.len() as int] == v);
                }
            }
            if v == x {
                assert(u.contains(x));
                let m = choose|m: int| 0 <= m < u.len() && u[m] == x;
                assert(r[m] == v);
            }
        }
        assert forall|i: int, j: int| 0 <= i < j < r.len() implies (keys[r[i] as int]
            < keys[r[j] as int] || (keys[r[i] as int] == keys[r[j] as int] && r[i] < r[j])) by {
            if j == u.len() {
                assert(r[j] == l);
                assert(r[i] == u[i]);
                assert(u.contains(u[i]));
                if u[i] == x {
                    assert(keys[x as int] < keys[l as int]);
                } else {
                    assert(t.contains(u[i]));
                    let m = choose|m: int| 0 <= m < t.len() && t[m] == u[i];
                    assert(s[m] == u[i]);
                    assert(s[s.len() - 1] == l);
                }
            }
        }
    }
}

/// The stable order is a permutation of the positions, with keys ascending
/// and equal keys in the order of their positions.
pub proof fn stable_order_sorts(keys: Seq<u32>, n: nat)
    requires
        n <= keys.len(),
        keys.len() <= usize::MAX,
    ensures
        is_permutation_of_range(stable_order(keys, n), n),
        stably_sorted(stable_order(keys, n), keys),
    decreases n,
{
    if n > 0 {
        let m = (n - 1) as nat;
        stable_order_sorts(keys, m);
        let s = stable_order(keys, m);
        let x = (n - 1) as usize;
        lemma_insert_by_key(s, x, keys);
        let r = stable_order(keys, n);
        assert forall|i: int| 0 <= i < r.len() implies r[i] < n by {
            assert(r.contains(r[i]));
            if s.contains(r[i]) {
                let k = choose|k: int| 0 <= k < s.len() && s[k] == r[i];
            }
        }
        assert forall|i: int, j: int| 0 <= i < j < r.len() implies r[i] != r[j] by {
            assert(keys[r[i] as int] < keys[r[j] as int] || (keys[r[i] as int] == keys[r[j] as int]
                && r[i] < r[j]));
        }
    }
}

} // verus!
