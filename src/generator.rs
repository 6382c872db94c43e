//! The run: every keyword extends one cumulative pool, and after each
//! keyword the first keyword and the whole pool are emitted as lines.
//!
//! The pool is never cleared between keywords. Entries of earlier keywords
//! are emitted again after every later keyword, so the number of lines grows
//! faster than the number of keywords; this is the intended cumulative
//! corpus.

use vstd::prelude::*;
use crate::injection::{add_elements, inject_all, lemma_inject_all_len, lemma_views_push, views};
use crate::substitution::{special_chars, special_seq, substitute, substitute_with, substituted};
use crate::text::{chars_of, decimal, decimal_text, push_char};
use crate::variation::{case_variation, two_pow, variation, variation_count};
use crate::years::{gen_years, year_seq, YearRangeError};

verus! {

/// The years rendered as decimal tokens.
pub open spec fn year_token_seq(ys: Seq<u16>) -> Seq<Seq<char>> {
    ys.map_values(|y: u16| decimal(y as nat))
}

/// The special characters as one-character tokens.
pub open spec fn special_token_seq(cs: Seq<char>) -> Seq<Seq<char>> {
    cs.map_values(|c: char| seq![c])
}

/// The entries of the first `k` variations of `s`: for each, the year
/// tokens and then the special tokens.
pub open spec fn entries_upto(
    s: Seq<char>,
    yts: Seq<Seq<char>>,
    sts: Seq<Seq<char>>,
    k: nat,
) -> Seq<Seq<char>>
    decreases k,
{
    if k == 0 {
        seq![]
    } else {
        let v = variation(s, (k - 1) as nat);
        entries_upto(s, yts, sts, (k - 1) as nat) + inject_all(v, yts) + inject_all(v, sts)
    }
}

/// Everything that one keyword adds to the pool.
pub open spec fn keyword_entries(kw: Seq<char>, ys: Seq<u16>, cs: Seq<char>) -> Seq<Seq<char>> {
    let s = substituted(kw);
    entries_upto(s, year_token_seq(ys), special_token_seq(cs), two_pow(s.len()))
}

/// The pool once the first `k` keywords are processed.
pub open spec fn pool_after(kws: Seq<Seq<char>>, ys: Seq<u16>, cs: Seq<char>, k: nat) -> Seq<
    Seq<char>,
>
    decreases k,
{
    if k == 0 {
        seq![]
    } else {
        pool_after(kws, ys, cs, (k - 1) as nat) + keyword_entries(kws[k - 1], ys, cs)
    }
}

/// The lines emitted once the first `k` keywords are processed: after each
/// keyword, the first keyword and then the whole pool.
pub open spec fn output_upto(kws: Seq<Seq<char>>, ys: Seq<u16>, cs: Seq<char>, k: nat) -> Seq<
    Seq<char>,
>
    decreases k,
{
    if k == 0 {
        seq![]
    } else {
        output_upto(kws, ys, cs, (k - 1) as nat) + seq![kws[0]] + pool_after(kws, ys, cs, k)
    }
}

/// The lines of a whole run.
pub open spec fn run_output(kws: Seq<Seq<char>>, ys: Seq<u16>, cs: Seq<char>) -> Seq<Seq<char>> {
    output_upto(kws, ys, cs, kws.len())
}

proof fn lemma_substitute_with_len(s: Seq<char>, table: Seq<(char, char)>)
    ensures
        substitute_with(s, table).len() == s.len(),
    decreases table.len(),
{
    if table.len() > 0 {
        lemma_substitute_with_len(s, table.drop_last());
    }
}

/// Substitution keeps the length of a keyword.
proof fn lemma_substituted_len(s: Seq<char>)
    ensures
        substituted(s).len() == s.len(),
{
    lemma_substitute_with_len(s, crate::substitution::alternative_pairs());
}

/// The years as decimal tokens.
pub fn year_tokens(years: &Vec<u16>) -> (r: Vec<String>)
    ensures
        views(r@) == year_token_seq(years@),
{
    let mut out: Vec<String> = Vec::new();
    for i in 0..years.len()
        invariant
            views(out@) == year_token_seq(years@.take(i as int)),
    {
        let t = decimal_text(years[i]);
        proof {
            lemma_views_push(out@, t);
        }
        out.push(t);
        assert(views(out@) =~= year_token_seq(years@.take(i + 1)));
    }
    assert(years@.take(years@.len() as int) =~= years@);
    out
}

/// The special characters as one-character tokens.
pub fn special_tokens(specials: &Vec<char>) -> (r: Vec<String>)
    ensures
        views(r@) == special_token_seq(specials@),
{
    let mut out: Vec<String> = Vec::new();
    for i in 0..specials.len()
        invariant
            views(out@) == special_token_seq(specials@.take(i as int)),
    {
        let mut t = String::new();
        push_char(&mut t, specials[i]);
        assert(t@ =~= seq![specials@[i as int]]);
        proof {
            lemma_views_push(out@, t);
        }
        out.push(t);
        assert(views(out@) =~= special_token_seq(specials@.take(i + 1)));
    }
    assert(specials@.take(specials@.len() as int) =~= specials@);
    out
}

/// Substitutes `keyword`, enumerates its case variations and appends to
/// `password_pool` each variation injected with every year token and then
/// every special token. Earlier entries of the pool stay as they are.
pub fn extend_pool(
    password_pool: &mut Vec<String>,
    keyword: &str,
    year_tokens: &Vec<String>,
    special_tokens: &Vec<String>,
)
    requires
        keyword@.len() < 64,
    ensures
        views(final(password_pool)@) == views(old(password_pool)@) + entries_upto(
            substituted(keyword@),
            views(year_tokens@),
            views(special_tokens@),
            two_pow(keyword@.len()),
        ),
{
    let ghost before = views(password_pool@);
    let ghost yts = views(year_tokens@);
    let ghost sts = views(special_tokens@);
    let s = substitute(keyword);
    let chars = chars_of(s.as_str());
    proof {
        lemma_substituted_len(keyword@);
    }
    let count = variation_count(chars.len());
    for mask in 0..count
        invariant
            chars@ == s@,
            s@ == substituted(keyword@),
            yts == views(year_tokens@),
            sts == views(special_tokens@),
            views(password_pool@) == before + entries_upto(s@, yts, sts, mask as nat),
    {
        let v = case_variation(&chars, mask);
        add_elements(year_tokens, password_pool, v.as_str());
        add_elements(special_tokens, password_pool, v.as_str());
        assert(views(password_pool@) =~= before + entries_upto(s@, yts, sts, (mask + 1) as nat));
    }
}

/// The lines of a run over `keywords` with the given years and special
/// characters: after each keyword, the first keyword and then the whole
/// cumulative pool.
pub fn generate_lines(keywords: &Vec<String>, years: &Vec<u16>, specials: &Vec<char>) -> (r: Vec<
    String,
>)
    requires
        keywords@.len() > 0,
        forall|k: int| 0 <= k < keywords@.len() ==> #[trigger] keywords@[k]@.len() < 64,
    ensures
        views(r@) == run_output(views(keywords@), years@, specials@),
{
    let ghost kws = views(keywords@);
    let yt = year_tokens(years);
    let st = special_tokens(specials);
    let original = keywords[0].clone();
    let mut pool: Vec<String> = Vec::new();
    let mut lines: Vec<String> = Vec::new();
    for k in 0..keywords.len()
        invariant
            kws == views(keywords@),
            original@ == kws[0],
            views(yt@) == year_token_seq(years@),
            views(st@) == special_token_seq(specials@),
            forall|i: int| 0 <= i < keywords@.len() ==> #[trigger] keywords@[i]@.len() < 64,
            views(pool@) == pool_after(kws, years@, specials@, k as nat),
            views(lines@) == output_upto(kws, years@, specials@, k as nat),
    {
        proof {
            lemma_substituted_len(keywords@[k as int]@);
        }
        extend_pool(&mut pool, keywords[k].as_str(), &yt, &st);
        assert(views(pool@) =~= pool_after(kws, years@, specials@, (k + 1) as nat));
        let ghost head = views(lines@) + seq![kws[0]];
        proof {
            lemma_views_push(lines@, original);
        }
        lines.push(original.clone());
        assert(views(lines@) =~= head + views(pool@).take(0));
        for j in 0..pool.len()
            invariant
                views(lines@) == head + views(pool@).take(j as int),
        {
            let e = pool[j].clone();
            proof {
                lemma_views_push(lines@, e);
            }
            lines.push(e);
            assert(views(lines@) =~= head + views(pool@).take(j + 1));
        }
        assert(views(pool@).take(pool@.len() as int) =~= views(pool@));
    }
    lines
}

/// The lines of a run over `keywords`, the years `year_from ..= year_to`
/// and the full special-character set; an interval whose lower bound lies
/// above its upper bound is refused before anything is generated.
pub fn generate_passwords(keywords: &Vec<String>, year_from: u16, year_to: u16) -> (r: Result<
    Vec<String>,
    YearRangeError,
>)
    requires
        keywords@.len() > 0,
        forall|k: int| 0 <= k < keywords@.len() ==> #[trigger] keywords@[k]@.len() < 64,
    ensures
        year_from > year_to <==> r is Err,
        r matches Err(e) ==> e == (YearRangeError { from: year_from, to: year_to }),
        r matches Ok(lines) ==> views(lines@) == run_output(
            views(keywords@),
            year_seq(year_from as int, year_to as int),
            special_seq(),
        ),
{
    match gen_years(year_from, year_to) {
        Err(e) => Err(e),
        Ok(years) => {
            let specials = special_chars();
            Ok(generate_lines(keywords, &years, &specials))
        },
    }
}

/// The pool is never cleared: processing one more keyword keeps every
/// earlier entry in place and appends that keyword's entries, and the lines
/// emitted for it are the first keyword followed by the whole pool.
pub proof fn lemma_pool_cumulative(kws: Seq<Seq<char>>, ys: Seq<u16>, cs: Seq<char>, k: nat)
    requires
        k < kws.len(),
    ensures
        pool_after(kws, ys, cs, k + 1) == pool_after(kws, ys, cs, k) + keyword_entries(
            kws[k as int],
            ys,
            cs,
        ),
        pool_after(kws, ys, cs, k + 1).len() == pool_after(kws, ys, cs, k).len()
            + keyword_entries(kws[k as int], ys, cs).len(),
        output_upto(kws, ys, cs, k + 1) == output_upto(kws, ys, cs, k) + seq![kws[0]] + pool_after(
            kws,
            ys,
            cs,
            k + 1,
        ),
        output_upto(kws, ys, cs, k + 1).len() == output_upto(kws, ys, cs, k).len() + 1
            + pool_after(kws, ys, cs, k + 1).len(),
{
}

proof fn lemma_entries_upto_len(s: Seq<char>, yts: Seq<Seq<char>>, sts: Seq<Seq<char>>, k: nat)
    ensures
        entries_upto(s, yts, sts, k).len() == k * ((s.len() + 1) * (yts.len() + sts.len())),
    decreases k,
{
    if k > 0 {
        let v = variation(s, (k - 1) as nat);
        lemma_entries_upto_len(s, yts, sts, (k - 1) as nat);
        lemma_inject_all_len(v, yts);
        lemma_inject_all_len(v, sts);
        assert(v.len() == s.len());
        let l = s.len() + 1;
        let y = yts.len() as int;
        let c = sts.len() as int;
        let kk = k as int;
        assert(y * l + c * l == l * (y + c)) by (nonlinear_arith);
        assert((kk - 1) * (l * (y + c)) + l * (y + c) == kk * (l * (y + c))) by (nonlinear_arith);
        assert(entries_upto(s, yts, sts, k).len() == entries_upto(
            s,
            yts,
            sts,
            (k - 1) as nat,
        ).len() + inject_all(v, yts).len() + inject_all(v, sts).len());
    } else {
        let p = (s.len() + 1) * (yts.len() + sts.len());
        assert(0 * p == 0);
    }
}

/// A keyword of length `L` adds `2^L * (L + 1)` entries per token to the
/// pool: one per case variation, token and injection point.
pub proof fn lemma_keyword_entries_len(kw: Seq<char>, ys: Seq<u16>, cs: Seq<char>)
    ensures
        keyword_entries(kw, ys, cs).len() == two_pow(kw.len()) * ((kw.len() + 1) * (ys.len()
            + cs.len())),
{
    lemma_substituted_len(kw);
    lemma_entries_upto_len(
        substituted(kw),
        year_token_seq(ys),
        special_token_seq(cs),
        two_pow(kw.len()),
    );
}

} // verus!
