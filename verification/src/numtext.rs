//! Decimal and hexadecimal text for integers: the `Display` rendering of
//! unsigned integers, the `{:08x}` rendering of a `u32`, and parsing of a
//! run of ASCII digits as a `u64` (`str::parse::<u64>` on such a run).

use vstd::prelude::*;
use crate::text::is_digit;

verus! {

/// The character of a decimal digit.
pub open spec fn dec_digit(d: int) -> char {
    if d == 0 {
        '0'
    } else if d == 1 {
        '1'
    } else if d == 2 {
        '2'
    } else if d == 3 {
        '3'
    } else if d == 4 {
        '4'
    } else if d == 5 {
        '5'
    } else if d == 6 {
        '6'
    } else if d == 7 {
        '7'
    } else if d == 8 {
        '8'
    } else {
        '9'
    }
}

/// The character of a lower-case hexadecimal digit.
pub open spec fn hex_digit(d: int) -> char {
    if d < 10 {
        dec_digit(d)
    } else if d == 10 {
        'a'
    } else if d == 11 {
        'b'
    } else if d == 12 {
        'c'
    } else if d == 13 {
        'd'
    } else if d == 14 {
        'e'
    } else {
        'f'
    }
}

/// Decimal rendering of `n`, without leading zeros (`"0"` for zero).
pub open spec fn dec_chars(n: nat) -> Seq<char>
    decreases n,
{
    if n < 10 {
        seq![dec_digit(n as int)]
    } else {
        dec_chars(n / 10).push(dec_digit((n % 10) as int))
    }
}

/// The `k` low hexadecimal digits of `n`, most significant first.
pub open spec fn hex_digits(n: nat, k: nat) -> Seq<char>
    decreases k,
{
    if k == 0 {
        Seq::empty()
    } else {
        hex_digits(n / 16, (k - 1) as nat).push(hex_digit((n % 16) as int))
    }
}

/// Value of an ASCII digit.
pub open spec fn digit_value(c: char) -> nat {
    ((c as u32) - ('0' as u32)) as nat
}

/// Value of a run of decimal digits.
pub open spec fn dec_value(s: Seq<char>) -> nat
    decreases s.len(),
{
    if s.len() == 0 {
        0
    } else {
        dec_value(s.drop_last()) * 10 + digit_value(s.last())
    }
}

pub open spec fn all_digits(s: Seq<char>) -> bool {
    forall|i: int| 0 <= i < s.len() ==> is_digit(#[trigger] s[i])
}

/// `str::parse::<u64>` on a run of ASCII digits: no value for the empty
/// run or for a value above `u64::MAX`.
pub open spec fn parse_digits(s: Seq<char>) -> Option<u64> {
    if s.len() == 0 || !all_digits(s) || dec_value(s) > u64::MAX {
        None
    } else {
        Some(dec_value(s) as u64)
    }
}

fn dec_digit_of(d: u64) -> (c: char)
    requires
        d < 10,
    ensures
        c == dec_digit(d as int),
{
    if d == 0 {
        '0'
    } else if d == 1 {
        '1'
    } else if d == 2 {
        '2'
    } else if d == 3 {
        '3'
    } else if d == 4 {
        '4'
    } else if d == 5 {
        '5'
    } else if d == 6 {
        '6'
    } else if d == 7 {
        '7'
    } else if d == 8 {
        '8'
    } else {
        '9'
    }
}

/// The character of a hexadecimal digit.
pub fn hex_digit_of(d: u32) -> (c: char)
    requires
        d < 16,
    ensures
        c == hex_digit(d as int),
{
    if d < 10 {
        dec_digit_of(d as u64)
    } else if d == 10 {
        'a'
    } else if d == 11 {
        'b'
    } else if d == 12 {
        'c'
    } else if d == 13 {
        'd'
    } else if d == 14 {
        'e'
    } else {
        'f'
    }
}

/// Decimal rendering of `n` (`n.to_string()`).
pub fn dec_of(n: u64) -> (v: Vec<char>)
    ensures
        v@ == dec_chars(n as nat),
    decreases n,
{
    if n < 10 {
        let mut v = Vec::new();
        v.push(dec_digit_of(n));
        assert(v@ =~= seq![dec_digit(n as int)]);
        v
    } else {
        let mut v = dec_of(n / 10);
        v.push(dec_digit_of(n % 10));
        v
    }
}

/// Eight lower-case hexadecimal digits of `n` (`format!("{:08x}", n)`).
pub fn hex8_of(n: u32) -> (v: Vec<char>)
    ensures
        v@ == hex_digits(n as nat, 8),
{
    let mut acc: Vec<char> = Vec::new();
    let mut rest: u32 = n;
    let mut k: usize = 0;
    while k < 8
        invariant
            k <= 8,
            hex_digits(n as nat, 8) == hex_digits(rest as nat, (8 - k) as nat) + acc@,
        decreases 8 - k,
    {
        let ghost old_acc = acc@;
        let c = hex_digit_of(rest % 16);
        acc.insert(0, c);
        assert(hex_digits(rest as nat, (8 - k) as nat) == hex_digits(
            (rest / 16) as nat,
            (8 - k - 1) as nat,
        ).push(hex_digit((rest % 16) as int)));
        assert(hex_digits(rest as nat, (8 - k) as nat) + old_acc =~= hex_digits(
            (rest / 16) as nat,
            (8 - k - 1) as nat,
        ) + acc@);
        rest = rest / 16;
        k += 1;
    }
    assert(hex_digits(rest as nat, 0) =~= Seq::<char>::empty());
    assert(acc@ =~= hex_digits(n as nat, 8));
    acc
}

proof fn lemma_dec_value_grows(s: Seq<char>, i: int, j: int)
    requires
        0 <= i <= j <= s.len(),
    ensures
        dec_value(s.take(i)) <= dec_value(s.take(j)),
    decreases j - i,
{
    if i < j {
        lemma_dec_value_grows(s, i, j - 1);
        assert(s.take(j).drop_last() =~= s.take(j - 1));
    }
}

/// Value of the digit run `v[lo..hi]`, if it fits in a `u64`.
pub fn parse_digits_in(v: &Vec<char>, lo: usize, hi: usize) -> (r: Option<u64>)
    requires
        lo <= hi <= v.len(),
        all_digits(v@.subrange(lo as int, hi as int)),
    ensures
        r == parse_digits(v@.subrange(lo as int, hi as int)),
{
    let ghost sub = v@.subrange(lo as int, hi as int);
    if lo == hi {
        return None;
    }
    let mut acc: u64 = 0;
    let mut i = lo;
    assert(sub.take(0) =~= Seq::<char>::empty());
    while i < hi
        invariant
            lo <= i <= hi <= v.len(),
            sub == v@.subrange(lo as int, hi as int),
            all_digits(sub),
            acc as nat == dec_value(sub.take(i - lo)),
        decreases hi - i,
    {
        assert(sub[i - lo] == v@[i as int]);
        assert(is_digit(sub[i - lo]));
        let d = (v[i] as u32 - '0' as u32) as u64;
        assert(sub.take(i - lo + 1).drop_last() =~= sub.take(i - lo));
        assert(dec_value(sub.take(i - lo + 1)) == dec_value(sub.take(i - lo)) * 10 + d);
        match acc.checked_mul(10) {
            None => {
                proof {
                    lemma_dec_value_grows(sub, i - lo + 1, sub.len() as int);
                    assert(sub.take(sub.len() as int) =~= sub);
                }
                return None;
            },
            Some(m) => match m.checked_add(d) {
                None => {
                    proof {
                        lemma_dec_value_grows(sub, i - lo + 1, sub.len() as int);
                        assert(sub.take(sub.len() as int) =~= sub);
                    }
                    return None;
                },
                Some(a) => {
                    acc = a;
                },
            },
        }
        i += 1;
    }
    assert(sub.take(hi - lo) =~= sub);
    Some(acc)
}

/// `16^k`: the numbers that `k` hexadecimal digits can hold.
pub open spec fn hex_span(k: nat) -> nat
    decreases k,
{
    if k == 0 {
        1
    } else {
        16 * hex_span((k - 1) as nat)
    }
}

/// Different hexadecimal digits are different characters.
pub proof fn lemma_hex_digit_injective(a: int, b: int)
    requires
        0 <= a < 16,
        0 <= b < 16,
        hex_digit(a) == hex_digit(b),
    ensures
        a == b,
{
}

/// `hex_digits(n, k)` has `k` characters, and two numbers below `16^k`
/// with the same `k` digits are the same number.
pub proof fn lemma_hex_digits(n: nat, m: nat, k: nat)
    ensures
        hex_digits(n, k).len() == k,
        n < hex_span(k) && m < hex_span(k) && hex_digits(n, k) == hex_digits(m, k) ==> n == m,
    decreases k,
{
    if k > 0 {
        lemma_hex_digits(n / 16, m / 16, (k - 1) as nat);
        if n < hex_span(k) && m < hex_span(k) && hex_digits(n, k) == hex_digits(m, k) {
            let dn = hex_digits(n / 16, (k - 1) as nat);
            let dm = hex_digits(m / 16, (k - 1) as nat);
            assert(hex_digits(n, k).last() == hex_digit((n % 16) as int));
            assert(hex_digits(m, k).last() == hex_digit((m % 16) as int));
            lemma_hex_digit_injective((n % 16) as int, (m % 16) as int);
            assert(hex_digits(n, k).drop_last() == dn);
            assert(hex_digits(m, k).drop_last() == dm);
            assert(n / 16 < hex_span((k - 1) as nat));
            assert(m / 16 < hex_span((k - 1) as nat));
        }
    }
}

} // verus!
