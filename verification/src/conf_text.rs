//! Text building blocks for rendered configuration files: joining pieces
//! with a separator, replacing characters, and quoting.

use vstd::prelude::*;
use crate::text::{chars_of, push_all};

verus! {

/// The pieces, separated by `sep` (`[..].join(sep)`).
pub open spec fn join_with(items: Seq<Seq<char>>, sep: Seq<char>) -> Seq<char>
    decreases items.len(),
{
    if items.len() == 0 {
        Seq::empty()
    } else if items.len() == 1 {
        items[0]
    } else {
        join_with(items.drop_last(), sep) + sep + items.last()
    }
}

/// The character sequences held by a list of character vectors.
pub open spec fn views(items: Seq<Vec<char>>) -> Seq<Seq<char>> {
    Seq::new(items.len(), |i: int| items[i]@)
}

pub proof fn lemma_views_push(items: Seq<Vec<char>>, x: Vec<char>)
    ensures
        views(items.push(x)) == views(items).push(x@),
{
    assert(views(items.push(x)) =~= views(items).push(x@));
}

/// Appends `items` joined by `sep`.
pub fn push_joined(out: &mut Vec<char>, items: &Vec<Vec<char>>, sep: &str)
    ensures
        final(out)@ == old(out)@ + join_with(views(items@), sep@),
{
    let ghost start = out@;
    let ghost all = views(items@);
    let sep_chars = chars_of(sep);
    let mut i: usize = 0;
    assert(all.take(0) =~= Seq::<Seq<char>>::empty());
    while i < items.len()
        invariant
            i <= items.len(),
            all == views(items@),
            sep_chars@ == sep@,
            out@ == start + join_with(all.take(i as int), sep@),
        decreases items.len() - i,
    {
        let ghost before = out@;
        if i > 0 {
            push_all(out, &sep_chars, 0, sep_chars.len());
            assert(sep_chars@.subrange(0, sep_chars@.len() as int) =~= sep_chars@);
        }
        push_all(out, &items[i], 0, items[i].len());
        assert(items[i as int]@.subrange(0, items[i as int]@.len() as int) =~= items[i as int]@);
        assert(all[i as int] == items[i as int]@);
        assert(all.take(i + 1).drop_last() =~= all.take(i as int));
        if i == 0 {
            assert(all.take(1) =~= seq![all[0]]);
        }
        assert(out@ =~= start + join_with(all.take(i + 1), sep@));
        i += 1;
    }
    assert(all.take(i as int) =~= all);
}

/// `s` with every `'` escaped as `\'`.
pub open spec fn escape_single(s: Seq<char>) -> Seq<char>
    decreases s.len(),
{
    if s.len() == 0 {
        Seq::empty()
    } else {
        escape_single(s.drop_last()) + if s.last() == '\'' {
            seq!['\\', '\'']
        } else {
            seq![s.last()]
        }
    }
}

/// Appends `s` with its single quotes escaped.
pub fn push_escaped(out: &mut Vec<char>, s: &str)
    ensures
        final(out)@ == old(out)@ + escape_single(s@),
{
    let ghost start = out@;
    let v = chars_of(s);
    let mut i: usize = 0;
    assert(v@.take(0) =~= Seq::<char>::empty());
    while i < v.len()
        invariant
            i <= v.len(),
            v@ == s@,
            out@ == start + escape_single(v@.take(i as int)),
        decreases v.len() - i,
    {
        if v[i] == '\'' {
            out.push('\\');
            out.push('\'');
        } else {
            out.push(v[i]);
        }
        assert(v@.take(i + 1).drop_last() =~= v@.take(i as int));
        assert(out@ =~= start + escape_single(v@.take(i + 1)));
        i += 1;
    }
    assert(v@.take(i as int) =~= v@);
}

/// `s` with every `-` replaced by `_`.
pub open spec fn dashes_to_underscores(s: Seq<char>) -> Seq<char> {
    Seq::new(s.len(), |i: int| if s[i] == '-' { '_' } else { s[i] })
}

/// Appends `s` with its dashes replaced by underscores.
pub fn push_underscored(out: &mut Vec<char>, s: &str)
    ensures
        final(out)@ == old(out)@ + dashes_to_underscores(s@),
{
    let ghost start = out@;
    let v = chars_of(s);
    let mut i: usize = 0;
    while i < v.len()
        invariant
            i <= v.len(),
            v@ == s@,
            out@ == start + dashes_to_underscores(v@.take(i as int)),
        decreases v.len() - i,
    {
        if v[i] == '-' {
            out.push('_');
        } else {
            out.push(v[i]);
        }
        assert(out@ =~= start + dashes_to_underscores(v@.take(i + 1)));
        i += 1;
    }
    assert(v@.take(i as int) =~= v@);
}

/// `t` occurs in `s` starting at `k`.
pub open spec fn occurs_in_at(s: Seq<char>, t: Seq<char>, k: int) -> bool {
    0 <= k && k + t.len() <= s.len() && s.subrange(k, k + t.len()) == t
}

/// `t` occurs somewhere in `s`.
pub open spec fn contains_text(s: Seq<char>, t: Seq<char>) -> bool {
    exists|k: int| occurs_in_at(s, t, k)
}

/// A text contains itself.
pub proof fn lemma_contains_self(t: Seq<char>)
    ensures
        contains_text(t, t),
{
    assert(t.subrange(0, t.len() as int) =~= t);
    assert(occurs_in_at(t, t, 0));
}

/// What a text contains, a longer text made from it contains too.
pub proof fn lemma_contains_extend(a: Seq<char>, b: Seq<char>, t: Seq<char>)
    requires
        contains_text(a, t),
    ensures
        contains_text(a + b, t),
        contains_text(b + a, t),
{
    let k = choose|k: int| occurs_in_at(a, t, k);
    assert((a + b).subrange(k, k + t.len()) =~= a.subrange(k, k + t.len()));
    assert(occurs_in_at(a + b, t, k));
    assert((b + a).subrange(b.len() + k, b.len() + k + t.len()) =~= a.subrange(k, k + t.len()));
    assert(occurs_in_at(b + a, t, b.len() + k));
}

/// Containment is transitive.
pub proof fn lemma_contains_trans(s: Seq<char>, u: Seq<char>, t: Seq<char>)
    requires
        contains_text(s, u),
        contains_text(u, t),
    ensures
        contains_text(s, t),
{
    let k = choose|k: int| occurs_in_at(s, u, k);
    let j = choose|j: int| occurs_in_at(u, t, j);
    assert(s.subrange(k + j, k + j + t.len()) =~= u.subrange(j, j + t.len()));
    assert(occurs_in_at(s, t, k + j));
}

/// Each piece of a join occurs in the joined text.
pub proof fn lemma_join_contains(items: Seq<Seq<char>>, sep: Seq<char>, i: int)
    requires
        0 <= i < items.len(),
    ensures
        contains_text(join_with(items, sep), items[i]),
    decreases items.len(),
{
    if items.len() == 1 {
        lemma_contains_self(items[0]);
    } else if i == items.len() - 1 {
        lemma_contains_self(items[i]);
        lemma_contains_extend(items[i], join_with(items.drop_last(), sep) + sep, items[i]);
    } else {
        lemma_join_contains(items.drop_last(), sep, i);
        assert(items.drop_last()[i] == items[i]);
        lemma_contains_extend(join_with(items.drop_last(), sep), sep + items.last(), items[i]);
        assert(join_with(items.drop_last(), sep) + (sep + items.last()) =~= join_with(
            items.drop_last(),
            sep,
        ) + sep + items.last());
    }
}

} // verus!
