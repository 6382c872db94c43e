//! The fixed leetspeak substitution table and the special-character set.

use vstd::prelude::*;
use crate::text::{chars_of, string_of};

verus! {

/// The special characters injected as tokens; the comma appears twice.
pub open spec fn special_seq() -> Seq<char> {
    seq!['!', '?', ',', ';', ',', '-', '_']
}

/// The substitution table as (alternative, classic) pairs, in the order in
/// which they are applied.
pub open spec fn alternative_pairs() -> Seq<(char, char)> {
    seq![
        ('@', 'a'),
        ('4', 'A'),
        ('1', 'I'),
        ('!', '1'),
        ('0', 'o'),
        ('5', 'S'),
        ('3', 'E'),
        ('7', 'T'),
        ('$', 'S'),
        ('2', 'Z'),
        ('8', 'B'),
    ]
}

/// `s` with every `from` replaced by `to`.
pub open spec fn replaced(s: Seq<char>, from: char, to: char) -> Seq<char> {
    s.map_values(|c: char| if c == from { to } else { c })
}

/// One pass for one table pair: `i` to `1`, `e` to `3`, then the pair's
/// classic character to its alternative, each on the result of the last.
pub open spec fn substitution_step(s: Seq<char>, pair: (char, char)) -> Seq<char> {
    replaced(replaced(replaced(s, 'i', '1'), 'e', '3'), pair.1, pair.0)
}

/// The passes of `table`, applied in order.
pub open spec fn substitute_with(s: Seq<char>, table: Seq<(char, char)>) -> Seq<char>
    decreases table.len(),
{
    if table.len() == 0 {
        s
    } else {
        substitution_step(substitute_with(s, table.drop_last()), table.last())
    }
}

/// A keyword after the whole substitution table.
pub open spec fn substituted(s: Seq<char>) -> Seq<char> {
    substitute_with(s, alternative_pairs())
}

/// The special-character set, duplicate included.
pub fn special_chars() -> (r: Vec<char>)
    ensures
        r@ == special_seq(),
{
    let r = vec!['!', '?', ',', ';', ',', '-', '_'];
    assert(r@ =~= special_seq());
    r
}

/// The substitution table, in application order.
pub fn human_alternatives() -> (r: Vec<(char, char)>)
    ensures
        r@ == alternative_pairs(),
{
    let r = vec![
        ('@', 'a'),
        ('4', 'A'),
        ('1', 'I'),
        ('!', '1'),
        ('0', 'o'),
        ('5', 'S'),
        ('3', 'E'),
        ('7', 'T'),
        ('$', 'S'),
        ('2', 'Z'),
        ('8', 'B'),
    ];
    assert(r@ =~= alternative_pairs());
    r
}

fn contains_char(v: &Vec<char>, c: char) -> (r: bool)
    ensures
        r == v@.contains(c),
{
    for i in 0..v.len()
        invariant
            forall|j: int| 0 <= j < i ==> v@[j] != c,
    {
        if v[i] == c {
            return true;
        }
    }
    false
}

/// Replaces every `to_check` in `keyword` by `replace_if`; a keyword
/// without `to_check` is left as it is.
pub fn if_contains_replace(keyword: &mut String, to_check: char, replace_if: char)
    ensures
        final(keyword)@ == replaced(old(keyword)@, to_check, replace_if),
{
    let chars = chars_of(keyword.as_str());
    if contains_char(&chars, to_check) {
        let mut out: Vec<char> = Vec::new();
        for i in 0..chars.len()
            invariant
                out@ == replaced(chars@.take(i as int), to_check, replace_if),
        {
            let c = chars[i];
            if c == to_check {
                out.push(replace_if);
            } else {
                out.push(c);
            }
            assert(out@ =~= replaced(chars@.take(i + 1), to_check, replace_if));
        }
        assert(chars@.take(chars@.len() as int) =~= chars@);
        *keyword = string_of(&out);
    } else {
        assert(replaced(chars@, to_check, replace_if) =~= chars@);
    }
}

/// `keyword` after every pass of the substitution table.
pub fn substitute(keyword: &str) -> (r: String)
    ensures
        r@ == substituted(keyword@),
{
    let table = human_alternatives();
    let mut cur = String::from_str(keyword);
    for k in 0..table.len()
        invariant
            table@ == alternative_pairs(),
            cur@ == substitute_with(keyword@, table@.take(k as int)),
    {
        let (alt, classic) = table[k];
        if_contains_replace(&mut cur, 'i', '1');
        if_contains_replace(&mut cur, 'e', '3');
        if_contains_replace(&mut cur, classic, alt);
        assert(table@.take(k + 1).drop_last() =~= table@.take(k as int));
    }
    assert(table@.take(table@.len() as int) =~= table@);
    cur
}

} // verus!
