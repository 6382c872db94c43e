//! Enumeration of every upper/lower-case pattern of a keyword.

use vstd::prelude::*;
use crate::text::{chars_of, push_char, upper_of, uppercase_first};

verus! {

/// `2` raised to `n`.
pub open spec fn two_pow(n: nat) -> nat
    decreases n,
{
    if n == 0 {
        1
    } else {
        2 * two_pow((n - 1) as nat)
    }
}

/// Whether bit `i` of `mask` is set.
pub open spec fn bit(mask: nat, i: nat) -> bool
    decreases i,
{
    if i == 0 {
        mask % 2 == 1
    } else {
        bit(mask / 2, (i - 1) as nat)
    }
}

/// The variation of `s` selected by `mask`: character `i` is uppercased
/// where bit `i` is set and kept where it is clear.
pub open spec fn variation(s: Seq<char>, mask: nat) -> Seq<char> {
    Seq::new(s.len(), |i: int| if bit(mask, i as nat) { upper_of(s[i]) } else { s[i] })
}

/// All variations of `s`, one per mask `0 .. 2^len`.
pub open spec fn variations(s: Seq<char>) -> Seq<Seq<char>> {
    Seq::new(two_pow(s.len()), |m: int| variation(s, m as nat))
}

proof fn lemma_two_pow_positive(n: nat)
    ensures
        two_pow(n) >= 1,
    decreases n,
{
    if n > 0 {
        lemma_two_pow_positive((n - 1) as nat);
    }
}

proof fn lemma_two_pow_monotone(a: nat, b: nat)
    requires
        a <= b,
    ensures
        1 <= two_pow(a) <= two_pow(b),
    decreases b,
{
    if b > a {
        lemma_two_pow_monotone(a, (b - 1) as nat);
    } else {
        lemma_two_pow_positive(a);
    }
}

/// `2^n` fits in a `u64` for `n < 64`.
proof fn lemma_two_pow_fits(n: nat)
    requires
        n < 64,
    ensures
        two_pow(n) <= 0x8000_0000_0000_0000,
{
    assert(two_pow(63) == 0x8000_0000_0000_0000) by {
        reveal_with_fuel(two_pow, 64);
    }
    lemma_two_pow_monotone(n, 63);
}

/// `2^n` as a machine integer.
pub fn variation_count(n: usize) -> (r: u64)
    requires
        n < 64,
    ensures
        r == two_pow(n as nat),
{
    let mut count: u64 = 1;
    for i in 0..n
        invariant
            n < 64,
            count == two_pow(i as nat),
    {
        proof {
            lemma_two_pow_monotone(i as nat, 62);
            lemma_two_pow_fits(63);
            assert(two_pow(63) == 2 * two_pow(62));
        }
        count = count * 2;
    }
    count
}

/// The variation of `chars` selected by `mask`.
pub fn case_variation(chars: &Vec<char>, mask: u64) -> (r: String)
    ensures
        r@ == variation(chars@, mask as nat),
{
    let mut out = String::new();
    let mut m: u64 = mask;
    for idx in 0..chars.len()
        invariant
            forall|j: nat| #[trigger] bit(m as nat, j) == bit(mask as nat, (j + idx) as nat),
            out@ == variation(chars@, mask as nat).take(idx as int),
    {
        let c = chars[idx];
        assert(bit(m as nat, 0) == bit(mask as nat, idx as nat));
        if m % 2 == 1 {
            push_char(&mut out, uppercase_first(c));
        } else {
            push_char(&mut out, c);
        }
        assert(out@ =~= variation(chars@, mask as nat).take(idx + 1));
        let ghost prev = m;
        m = m / 2;
        assert forall|j: nat| #[trigger] bit(m as nat, j) == bit(mask as nat, (j + idx + 1) as nat) by {
            assert(bit(prev as nat, (j + 1) as nat) == bit(m as nat, j));
            assert(bit(prev as nat, (j + 1) as nat) == bit(mask as nat, (j + 1 + idx) as nat));
        }
    }
    assert(out@ =~= variation(chars@, mask as nat));
    out
}

/// Every case variation of `keyword`, in mask order.
pub fn case_variations(keyword: &str) -> (r: Vec<String>)
    requires
        keyword@.len() < 64,
    ensures
        r@.len() == two_pow(keyword@.len()),
        forall|m: int| 0 <= m < r@.len() ==> #[trigger] r@[m]@ == variations(keyword@)[m],
{
    let chars = chars_of(keyword);
    let count = variation_count(chars.len());
    let mut out: Vec<String> = Vec::new();
    for mask in 0..count
        invariant
            chars@ == keyword@,
            count == two_pow(keyword@.len()),
            out@.len() == mask,
            forall|m: int| 0 <= m < mask ==> #[trigger] out@[m]@ == variations(keyword@)[m],
    {
        out.push(case_variation(&chars, mask));
    }
    out
}

proof fn lemma_masks_differ_in_a_bit(a: nat, b: nat, n: nat)
    requires
        a != b,
        a < two_pow(n),
        b < two_pow(n),
    ensures
        exists|i: nat| i < n && #[trigger] bit(a, i) != bit(b, i),
    decreases n,
{
    if n == 0 {
    } else if a % 2 != b % 2 {
        assert(bit(a, 0) != bit(b, 0));
    } else {
        let n1 = (n - 1) as nat;
        lemma_masks_differ_in_a_bit(a / 2, b / 2, n1);
        let i = choose|i: nat| i < n1 && #[trigger] bit(a / 2, i) != bit(b / 2, i);
        assert(bit(a, (i + 1) as nat) == bit(a / 2, i));
        assert(bit(b, (i + 1) as nat) == bit(b / 2, i));
    }
}

/// There are `2^len` variations of `s`; where uppercasing changes every
/// character of `s` (as for lowercase letters), no two of them are equal.
pub proof fn lemma_variations_distinct(s: Seq<char>)
    ensures
        variations(s).len() == two_pow(s.len()),
        (forall|i: int| 0 <= i < s.len() ==> upper_of(#[trigger] s[i]) != s[i]) ==> forall|
            a: int,
            b: int,
        | 0 <= a < b < two_pow(s.len()) ==> #[trigger] variations(s)[a] != #[trigger] variations(
            s,
        )[b],
{
    if forall|i: int| 0 <= i < s.len() ==> upper_of(#[trigger] s[i]) != s[i] {
        assert forall|a: int, b: int| 0 <= a < b < two_pow(s.len()) implies #[trigger] variations(
            s,
        )[a] != #[trigger] variations(s)[b] by {
            lemma_masks_differ_in_a_bit(a as nat, b as nat, s.len());
            let i = choose|i: nat| i < s.len() && #[trigger] bit(a as nat, i) != bit(b as nat, i);
            assert(variations(s)[a][i as int] != variations(s)[b][i as int]);
        }
    }
}

} // verus!
