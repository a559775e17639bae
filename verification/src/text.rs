//! Character-level model of the string operations the gateway relies on
//! (`find`, `rfind`, `trim`, `trim_start`, slicing), with executable
//! scanners over `Vec<char>` windows that are proved to compute them.
//!
//! All positions are character positions. Slicing a `&str` at the byte
//! offsets `find` returns always lands on character boundaries, so working
//! on characters gives the same substrings.

use vstd::prelude::*;

verus! {

broadcast use vstd::string::group_string_axioms;

/// Adds `k` to an optional position.
pub open spec fn shift(o: Option<int>, k: int) -> Option<int> {
    match o {
        Some(i) => Some(i + k),
        None => None,
    }
}

/// An executable optional position seen as an integer position.
pub open spec fn pos(o: Option<usize>) -> Option<int> {
    match o {
        Some(i) => Some(i as int),
        None => None,
    }
}

/// Position of the first character of `s` satisfying `p` (`str::find`
/// with a predicate).
pub open spec fn find_first(s: Seq<char>, p: spec_fn(char) -> bool) -> Option<int>
    decreases s.len(),
{
    if s.len() == 0 {
        None
    } else if p(s[0]) {
        Some(0)
    } else {
        shift(find_first(s.drop_first(), p), 1)
    }
}

/// Position of the last character of `s` satisfying `p` (`str::rfind`).
pub open spec fn find_last(s: Seq<char>, p: spec_fn(char) -> bool) -> Option<int>
    decreases s.len(),
{
    if s.len() == 0 {
        None
    } else if p(s.last()) {
        Some(s.len() - 1)
    } else {
        find_last(s.drop_last(), p)
    }
}

pub open spec fn is_first(s: Seq<char>, p: spec_fn(char) -> bool, i: int) -> bool {
    &&& 0 <= i < s.len()
    &&& p(s[i])
    &&& forall|j: int| 0 <= j < i ==> !p(#[trigger] s[j])
}

pub open spec fn is_last(s: Seq<char>, p: spec_fn(char) -> bool, i: int) -> bool {
    &&& 0 <= i < s.len()
    &&& p(s[i])
    &&& forall|j: int| i < j < s.len() ==> !p(#[trigger] s[j])
}

pub open spec fn none_match(s: Seq<char>, p: spec_fn(char) -> bool) -> bool {
    forall|j: int| 0 <= j < s.len() ==> !p(#[trigger] s[j])
}

/// The predicate "is the character `c`".
pub open spec fn eq_char(c: char) -> spec_fn(char) -> bool {
    |x: char| x == c
}

/// `char::is_whitespace`: the Unicode `White_Space` property.
pub open spec fn is_ws(c: char) -> bool {
    let u = c as u32;
    ||| u == 0x20
    ||| 0x09 <= u <= 0x0d
    ||| u == 0x85
    ||| u == 0xa0
    ||| u == 0x1680
    ||| 0x2000 <= u <= 0x200a
    ||| u == 0x2028
    ||| u == 0x2029
    ||| u == 0x202f
    ||| u == 0x205f
    ||| u == 0x3000
}

/// `char::is_ascii_digit`.
pub open spec fn is_digit(c: char) -> bool {
    '0' <= c <= '9'
}

pub open spec fn not_ws() -> spec_fn(char) -> bool {
    |x: char| !is_ws(x)
}

pub open spec fn not_digit() -> spec_fn(char) -> bool {
    |x: char| !is_digit(x)
}

/// `str::trim_start`.
pub open spec fn trim_start(s: Seq<char>) -> Seq<char> {
    match find_first(s, not_ws()) {
        Some(i) => s.skip(i),
        None => Seq::empty(),
    }
}

/// `str::trim_end`.
pub open spec fn trim_end(s: Seq<char>) -> Seq<char> {
    match find_last(s, not_ws()) {
        Some(i) => s.take(i + 1),
        None => Seq::empty(),
    }
}

/// `str::trim`.
pub open spec fn trim(s: Seq<char>) -> Seq<char> {
    trim_end(trim_start(s))
}

/// `pat` occurs in `s` starting at `i`.
pub open spec fn occurs_at(s: Seq<char>, pat: Seq<char>, i: int) -> bool {
    &&& 0 <= i
    &&& i + pat.len() <= s.len()
    &&& s.subrange(i, i + pat.len()) == pat
}

/// Position of the first occurrence of `pat` in `s` (`str::find` with a
/// string pattern).
pub open spec fn find_seq(s: Seq<char>, pat: Seq<char>) -> Option<int>
    decreases s.len(),
{
    if s.len() < pat.len() {
        None
    } else if s.take(pat.len() as int) == pat {
        Some(0)
    } else if s.len() == 0 {
        None
    } else {
        shift(find_seq(s.drop_first(), pat), 1)
    }
}

pub proof fn lemma_find_first(s: Seq<char>, p: spec_fn(char) -> bool)
    ensures
        match find_first(s, p) {
            Some(i) => is_first(s, p, i),
            None => none_match(s, p),
        },
    decreases s.len(),
{
    if s.len() > 0 && !p(s[0]) {
        let t = s.drop_first();
        lemma_find_first(t, p);
        match find_first(t, p) {
            Some(i) => {
                assert(s[i + 1] == t[i]);
                assert forall|j: int| 0 <= j < i + 1 implies !p(#[trigger] s[j]) by {
                    if j > 0 {
                        assert(s[j] == t[j - 1]);
                    }
                }
            },
            None => {
                assert forall|j: int| 0 <= j < s.len() implies !p(#[trigger] s[j]) by {
                    if j > 0 {
                        assert(s[j] == t[j - 1]);
                    }
                }
            },
        }
    }
}

/// The first position is determined by the "first match" property.
pub proof fn lemma_find_first_is(s: Seq<char>, p: spec_fn(char) -> bool, i: int)
    requires
        is_first(s, p, i),
    ensures
        find_first(s, p) == Some(i),
{
    lemma_find_first(s, p);
    match find_first(s, p) {
        Some(k) => {
            if k < i {
                assert(!p(s[k]));
            } else if k > i {
                assert(!p(s[i]));
            }
        },
        None => {
            assert(!p(s[i]));
        },
    }
}

pub proof fn lemma_find_first_none(s: Seq<char>, p: spec_fn(char) -> bool)
    requires
        none_match(s, p),
    ensures
        find_first(s, p) == None::<int>,
{
    lemma_find_first(s, p);
    if let Some(k) = find_first(s, p) {
        assert(p(s[k]));
    }
}

pub proof fn lemma_find_last(s: Seq<char>, p: spec_fn(char) -> bool)
    ensures
        match find_last(s, p) {
            Some(i) => is_last(s, p, i),
            None => none_match(s, p),
        },
    decreases s.len(),
{
    if s.len() > 0 && !p(s.last()) {
        let t = s.drop_last();
        lemma_find_last(t, p);
        match find_last(t, p) {
            Some(i) => {
                assert(s[i] == t[i]);
                assert forall|j: int| i < j < s.len() implies !p(#[trigger] s[j]) by {
                    if j < s.len() - 1 {
                        assert(s[j] == t[j]);
                    }
                }
            },
            None => {
                assert forall|j: int| 0 <= j < s.len() implies !p(#[trigger] s[j]) by {
                    if j < s.len() - 1 {
                        assert(s[j] == t[j]);
                    }
                }
            },
        }
    }
}

pub proof fn lemma_find_last_is(s: Seq<char>, p: spec_fn(char) -> bool, i: int)
    requires
        is_last(s, p, i),
    ensures
        find_last(s, p) == Some(i),
{
    lemma_find_last(s, p);
    match find_last(s, p) {
        Some(k) => {
            if k < i {
                assert(!p(s[i]));
            } else if k > i {
                assert(!p(s[k]));
            }
        },
        None => {
            assert(!p(s[i]));
        },
    }
}

pub proof fn lemma_find_last_none(s: Seq<char>, p: spec_fn(char) -> bool)
    requires
        none_match(s, p),
    ensures
        find_last(s, p) == None::<int>,
{
    lemma_find_last(s, p);
    if let Some(k) = find_last(s, p) {
        assert(p(s[k]));
    }
}

pub proof fn lemma_find_seq(s: Seq<char>, pat: Seq<char>)
    ensures
        match find_seq(s, pat) {
            Some(i) => occurs_at(s, pat, i) && forall|j: int| 0 <= j < i ==> !occurs_at(s, pat, j),
            None => forall|j: int| !occurs_at(s, pat, j),
        },
    decreases s.len(),
{
    if s.len() < pat.len() {
    } else if s.take(pat.len() as int) == pat {
        assert(s.subrange(0, pat.len() as int) =~= s.take(pat.len() as int));
    } else if s.len() == 0 {
        assert(pat.len() == 0);
        assert(s.take(0) =~= pat);
    } else {
        let t = s.drop_first();
        lemma_find_seq(t, pat);
        assert(!occurs_at(s, pat, 0)) by {
            if occurs_at(s, pat, 0) {
                assert(s.subrange(0, pat.len() as int) =~= s.take(pat.len() as int));
            }
        }
        assert forall|j: int| j > 0 implies occurs_at(s, pat, j) == occurs_at(t, pat, j - 1) by {
            if j + pat.len() <= s.len() {
                assert(s.subrange(j, j + pat.len()) =~= t.subrange(j - 1, j - 1 + pat.len()));
            }
        }
    }
}

pub proof fn lemma_find_seq_is(s: Seq<char>, pat: Seq<char>, i: int)
    requires
        occurs_at(s, pat, i),
        forall|j: int| 0 <= j < i ==> !occurs_at(s, pat, j),
    ensures
        find_seq(s, pat) == Some(i),
{
    lemma_find_seq(s, pat);
    match find_seq(s, pat) {
        Some(k) => {
            if k < i {
                assert(!occurs_at(s, pat, k));
            } else if k > i {
                assert(!occurs_at(s, pat, i));
            }
        },
        None => {
            assert(!occurs_at(s, pat, i));
        },
    }
}

pub proof fn lemma_find_seq_none(s: Seq<char>, pat: Seq<char>)
    requires
        forall|j: int| !occurs_at(s, pat, j),
    ensures
        find_seq(s, pat) == None::<int>,
{
    lemma_find_seq(s, pat);
    if let Some(k) = find_seq(s, pat) {
        assert(occurs_at(s, pat, k));
    }
}

/// The characters of a string slice.
pub fn chars_of(s: &str) -> (v: Vec<char>)
    ensures
        v@ == s@,
{
    let mut it = s.chars();
    let mut v: Vec<char> = Vec::new();
    assert(vstd::std_specs::iter::IteratorSpec::remaining(&it) == s@);
    loop
        invariant
            v@ + vstd::std_specs::iter::IteratorSpec::remaining(&it) == s@,
            vstd::std_specs::iter::IteratorSpec::obeys_prophetic_iter_laws(&it),
            vstd::std_specs::iter::IteratorSpec::decrease(&it) is Some,
        decreases vstd::std_specs::iter::IteratorSpec::decrease(&it)->0,
    {
        let ghost before = vstd::std_specs::iter::IteratorSpec::remaining(&it);
        match it.next() {
            Some(c) => {
                assert(before.len() > 0);
                v.push(c);
                assert(v@ + vstd::std_specs::iter::IteratorSpec::remaining(&it) =~= s@) by {
                    assert(before =~= seq![c] + vstd::std_specs::iter::IteratorSpec::remaining(&it));
                }
            },
            None => {
                assert(v@ =~= s@);
                return v;
            },
        }
    }
}

/// Appends `c` with `String::push`. The contract claims what std
/// documents: the string's characters are the old ones followed by `c`.
#[verifier::external_body]
fn push_char(s: &mut String, c: char)
    ensures
        final(s)@ == old(s)@.push(c),
{
    s.push(c);
}

/// The string made of the characters `v[lo..hi]`.
pub fn string_of(v: &Vec<char>, lo: usize, hi: usize) -> (r: String)
    requires
        lo <= hi <= v.len(),
    ensures
        r@ == v@.subrange(lo as int, hi as int),
{
    let mut r = String::new();
    let mut i = lo;
    while i < hi
        invariant
            lo <= i <= hi <= v.len(),
            r@ == v@.subrange(lo as int, i as int),
        decreases hi - i,
    {
        push_char(&mut r, v[i]);
        i += 1;
        assert(r@ =~= v@.subrange(lo as int, i as int));
    }
    r
}

/// Appends `v[lo..hi]` to `out`.
pub fn push_all(out: &mut Vec<char>, v: &Vec<char>, lo: usize, hi: usize)
    requires
        lo <= hi <= v.len(),
    ensures
        final(out)@ == old(out)@ + v@.subrange(lo as int, hi as int),
{
    let ghost start = out@;
    let mut i = lo;
    while i < hi
        invariant
            lo <= i <= hi <= v.len(),
            out@ == start + v@.subrange(lo as int, i as int),
        decreases hi - i,
    {
        out.push(v[i]);
        i += 1;
        assert(out@ =~= start + v@.subrange(lo as int, i as int));
    }
}

/// Appends the characters of `s` to `out`.
pub fn push_str(out: &mut Vec<char>, s: &str)
    ensures
        final(out)@ == old(out)@ + s@,
{
    let cs = chars_of(s);
    push_all(out, &cs, 0, cs.len());
    assert(cs@.subrange(0, cs@.len() as int) =~= cs@);
}

/// `char::is_whitespace`.
pub fn is_ws_char(c: char) -> (b: bool)
    ensures
        b == is_ws(c),
{
    let u = c as u32;
    u == 0x20 || (0x09 <= u && u <= 0x0d) || u == 0x85 || u == 0xa0 || u == 0x1680 || (0x2000
        <= u && u <= 0x200a) || u == 0x2028 || u == 0x2029 || u == 0x202f || u == 0x205f || u
        == 0x3000
}

/// `char::is_ascii_digit`.
pub fn is_digit_char(c: char) -> (b: bool)
    ensures
        b == is_digit(c),
{
    '0' <= c && c <= '9'
}

/// First position in `v[lo..hi]` holding `c`.
pub fn find_char_in(v: &Vec<char>, lo: usize, hi: usize, c: char) -> (r: Option<usize>)
    requires
        lo <= hi <= v.len(),
    ensures
        pos(r) == shift(find_first(v@.subrange(lo as int, hi as int), eq_char(c)), lo as int),
{
    let ghost sub = v@.subrange(lo as int, hi as int);
    let mut i = lo;
    while i < hi
        invariant
            lo <= i <= hi <= v.len(),
            sub == v@.subrange(lo as int, hi as int),
            forall|j: int| 0 <= j < i - lo ==> !eq_char(c)(#[trigger] sub[j]),
        decreases hi - i,
    {
        if v[i] == c {
            proof {
                assert(sub[i - lo] == v@[i as int]);
                lemma_find_first_is(sub, eq_char(c), i - lo);
            }
            return Some(i);
        }
        assert(sub[i - lo] == v@[i as int]);
        i += 1;
    }
    proof {
        lemma_find_first_none(sub, eq_char(c));
    }
    None
}

/// Last position in `v[lo..hi]` holding `c`.
pub fn rfind_char_in(v: &Vec<char>, lo: usize, hi: usize, c: char) -> (r: Option<usize>)
    requires
        lo <= hi <= v.len(),
    ensures
        pos(r) == shift(find_last(v@.subrange(lo as int, hi as int), eq_char(c)), lo as int),
{
    let ghost sub = v@.subrange(lo as int, hi as int);
    let mut i = hi;
    while i > lo
        invariant
            lo <= i <= hi <= v.len(),
            sub == v@.subrange(lo as int, hi as int),
            forall|j: int| i - lo <= j < sub.len() ==> !eq_char(c)(#[trigger] sub[j]),
        decreases i - lo,
    {
        i -= 1;
        assert(sub[i - lo] == v@[i as int]);
        if v[i] == c {
            proof {
                lemma_find_last_is(sub, eq_char(c), i - lo);
            }
            return Some(i);
        }
    }
    proof {
        lemma_find_last_none(sub, eq_char(c));
    }
    None
}

/// First position in `v[lo..hi]` holding a character that is not
/// whitespace, or `hi` when there is none: `v[r..hi]` is
/// `trim_start(v[lo..hi])`.
pub fn skip_ws(v: &Vec<char>, lo: usize, hi: usize) -> (r: usize)
    requires
        lo <= hi <= v.len(),
    ensures
        lo <= r <= hi,
        v@.subrange(r as int, hi as int) == trim_start(v@.subrange(lo as int, hi as int)),
{
    let ghost sub = v@.subrange(lo as int, hi as int);
    let mut i = lo;
    while i < hi
        invariant
            lo <= i <= hi <= v.len(),
            sub == v@.subrange(lo as int, hi as int),
            forall|j: int| 0 <= j < i - lo ==> !not_ws()(#[trigger] sub[j]),
        decreases hi - i,
    {
        assert(sub[i - lo] == v@[i as int]);
        if !is_ws_char(v[i]) {
            proof {
                lemma_find_first_is(sub, not_ws(), i - lo);
                assert(v@.subrange(i as int, hi as int) =~= sub.skip(i - lo));
            }
            return i;
        }
        i += 1;
    }
    proof {
        lemma_find_first_none(sub, not_ws());
        assert(v@.subrange(hi as int, hi as int) =~= Seq::<char>::empty());
    }
    hi
}

/// End of `v[lo..hi]` once trailing whitespace is removed:
/// `v[lo..r]` is `trim_end(v[lo..hi])`.
pub fn trim_end_at(v: &Vec<char>, lo: usize, hi: usize) -> (r: usize)
    requires
        lo <= hi <= v.len(),
    ensures
        lo <= r <= hi,
        v@.subrange(lo as int, r as int) == trim_end(v@.subrange(lo as int, hi as int)),
{
    let ghost sub = v@.subrange(lo as int, hi as int);
    let mut i = hi;
    while i > lo
        invariant
            lo <= i <= hi <= v.len(),
            sub == v@.subrange(lo as int, hi as int),
            forall|j: int| i - lo <= j < sub.len() ==> !not_ws()(#[trigger] sub[j]),
        decreases i - lo,
    {
        assert(sub[i - 1 - lo] == v@[i - 1]);
        if !is_ws_char(v[i - 1]) {
            proof {
                lemma_find_last_is(sub, not_ws(), i - 1 - lo);
                assert(v@.subrange(lo as int, i as int) =~= sub.take(i - lo));
            }
            return i;
        }
        i -= 1;
    }
    proof {
        lemma_find_last_none(sub, not_ws());
        assert(v@.subrange(lo as int, lo as int) =~= Seq::<char>::empty());
    }
    lo
}

/// First position in `v[lo..hi]` holding a character that is not an
/// ASCII digit.
pub fn find_non_digit_in(v: &Vec<char>, lo: usize, hi: usize) -> (r: Option<usize>)
    requires
        lo <= hi <= v.len(),
    ensures
        pos(r) == shift(find_first(v@.subrange(lo as int, hi as int), not_digit()), lo as int),
{
    let ghost sub = v@.subrange(lo as int, hi as int);
    let mut i = lo;
    while i < hi
        invariant
            lo <= i <= hi <= v.len(),
            sub == v@.subrange(lo as int, hi as int),
            forall|j: int| 0 <= j < i - lo ==> !not_digit()(#[trigger] sub[j]),
        decreases hi - i,
    {
        assert(sub[i - lo] == v@[i as int]);
        if !is_digit_char(v[i]) {
            proof {
                lemma_find_first_is(sub, not_digit(), i - lo);
            }
            return Some(i);
        }
        i += 1;
    }
    proof {
        lemma_find_first_none(sub, not_digit());
    }
    None
}

/// `pat` occurs in `v` at position `i`, checked character by character.
fn matches_at(v: &Vec<char>, i: usize, hi: usize, pat: &Vec<char>) -> (b: bool)
    requires
        i <= hi <= v.len(),
        i + pat.len() <= hi,
    ensures
        b == (v@.subrange(i as int, i + pat.len()) == pat@),
{
    let mut k: usize = 0;
    while k < pat.len()
        invariant
            i <= hi <= v.len(),
            i + pat.len() <= hi,
            k <= pat.len(),
            forall|m: int| 0 <= m < k ==> v@[i + m] == pat@[m],
        decreases pat.len() - k,
    {
        if v[i + k] != pat[k] {
            assert(v@.subrange(i as int, i + pat.len())[k as int] != pat@[k as int]);
            return false;
        }
        k += 1;
    }
    assert(v@.subrange(i as int, i + pat.len()) =~= pat@);
    true
}

/// First position in `v[lo..hi]` where `pat` occurs.
pub fn find_seq_in(v: &Vec<char>, lo: usize, hi: usize, pat: &Vec<char>) -> (r: Option<usize>)
    requires
        lo <= hi <= v.len(),
    ensures
        pos(r) == shift(find_seq(v@.subrange(lo as int, hi as int), pat@), lo as int),
{
    let ghost sub = v@.subrange(lo as int, hi as int);
    if hi - lo < pat.len() {
        proof {
            assert forall|j: int| !occurs_at(sub, pat@, j) by {}
            lemma_find_seq_none(sub, pat@);
        }
        return None;
    }
    let mut i = lo;
    while hi - i >= pat.len()
        invariant
            lo <= i <= hi,
            hi <= v.len(),
            sub == v@.subrange(lo as int, hi as int),
            forall|j: int| 0 <= j < i - lo ==> !occurs_at(sub, pat@, j),
        decreases hi - i,
    {
        let m = matches_at(v, i, hi, pat);
        assert(sub.subrange(i - lo, i - lo + pat.len()) =~= v@.subrange(i as int, i + pat.len()));
        if m {
            proof {
                lemma_find_seq_is(sub, pat@, i - lo);
            }
            return Some(i);
        }
        if i == hi {
            assert(v@.subrange(i as int, i + pat.len()) =~= pat@);
        }
        i += 1;
    }
    proof {
        assert forall|j: int| !occurs_at(sub, pat@, j) by {
            if 0 <= j && j + pat.len() <= sub.len() {
                assert(j < i - lo);
            }
        }
        lemma_find_seq_none(sub, pat@);
    }
    None
}

/// `Path::join` on Unix: an absolute `rel` replaces `base`; otherwise a
/// separator is put between them unless `base` is empty or already ends
/// with one.
pub open spec fn path_join(base: Seq<char>, rel: Seq<char>) -> Seq<char> {
    if rel.len() > 0 && rel[0] == '/' {
        rel
    } else if base.len() == 0 || base.last() == '/' {
        base + rel
    } else {
        base + seq!['/'] + rel
    }
}

/// Joins a relative path onto a base path.
pub fn join_path(base: &str, rel: &str) -> (r: String)
    ensures
        r@ == path_join(base@, rel@),
{
    let b = chars_of(base);
    let rv = chars_of(rel);
    let mut out: Vec<char> = Vec::new();
    if rv.len() > 0 && rv[0] == '/' {
        push_all(&mut out, &rv, 0, rv.len());
    } else {
        push_all(&mut out, &b, 0, b.len());
        if b.len() > 0 && b[b.len() - 1] != '/' {
            out.push('/');
        }
        push_all(&mut out, &rv, 0, rv.len());
    }
    assert(b@.subrange(0, b@.len() as int) =~= b@);
    assert(rv@.subrange(0, rv@.len() as int) =~= rv@);
    assert(out@ =~= path_join(base@, rel@));
    assert(out@.subrange(0, out@.len() as int) =~= out@);
    string_of(&out, 0, out.len())
}


/// `str::trim`, as an owned string.
pub fn trim_str(s: &str) -> (r: String)
    ensures
        r@ == trim(s@),
{
    let v = chars_of(s);
    let n = v.len();
    let lo = skip_ws(&v, 0, n);
    let hi = trim_end_at(&v, lo, n);
    assert(v@.subrange(0, n as int) =~= s@);
    string_of(&v, lo, hi)
}

/// `a`, `b` and `c` one after the other.
pub fn concat3(a: &str, b: &str, c: &str) -> (r: String)
    ensures
        r@ == a@ + b@ + c@,
{
    let mut out: Vec<char> = Vec::new();
    push_str(&mut out, a);
    push_str(&mut out, b);
    push_str(&mut out, c);
    assert(out@.subrange(0, out@.len() as int) =~= a@ + b@ + c@);
    string_of(&out, 0, out.len())
}

/// `a` then `b`.
pub fn concat2(a: &str, b: &str) -> (r: String)
    ensures
        r@ == a@ + b@,
{
    let mut out: Vec<char> = Vec::new();
    push_str(&mut out, a);
    push_str(&mut out, b);
    assert(out@.subrange(0, out@.len() as int) =~= a@ + b@);
    string_of(&out, 0, out.len())
}

/// An owned copy of `s`.
pub fn owned(s: &str) -> (r: String)
    ensures
        r@ == s@,
{
    let v = chars_of(s);
    assert(v@.subrange(0, v@.len() as int) =~= v@);
    string_of(&v, 0, v.len())
}

/// Whether two strings hold the same characters.
pub fn same_text(a: &str, b: &str) -> (r: bool)
    ensures
        r == (a@ == b@),
{
    let x = chars_of(a);
    let y = chars_of(b);
    if x.len() != y.len() {
        return false;
    }
    let mut i: usize = 0;
    while i < x.len()
        invariant
            x@ == a@,
            y@ == b@,
            x.len() == y.len(),
            i <= x.len(),
            forall|j: int| 0 <= j < i ==> x@[j] == y@[j],
        decreases x.len() - i,
    {
        if x[i] != y[i] {
            return false;
        }
        i += 1;
    }
    assert(x@ =~= y@);
    true
}


} // verus!
