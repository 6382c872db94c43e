//! Injection of a token into a variation: appended at the end and inserted
//! before each character.

use vstd::prelude::*;
use vstd::string::{StrSliceExecFns, StringExecFns};

verus! {

/// The character sequences held by a sequence of strings.
pub open spec fn views(v: Seq<String>) -> Seq<Seq<char>> {
    v.map_values(|s: String| s@)
}

/// The entries produced from variation `v` and token `t`: `v + t` first,
/// then `t` inserted at each split point `k` of `0 .. v.len()`.
pub open spec fn inject_one(v: Seq<char>, t: Seq<char>) -> Seq<Seq<char>> {
    seq![v + t] + Seq::new(v.len(), |k: int| v.take(k) + t + v.skip(k))
}

/// The entries produced from `v` and each token of `ts`, token by token.
pub open spec fn inject_all(v: Seq<char>, ts: Seq<Seq<char>>) -> Seq<Seq<char>>
    decreases ts.len(),
{
    if ts.len() == 0 {
        seq![]
    } else {
        inject_all(v, ts.drop_last()) + inject_one(v, ts.last())
    }
}

pub(crate) proof fn lemma_views_push(v: Seq<String>, s: String)
    ensures
        views(v.push(s)) == views(v).push(s@),
{
    assert(views(v.push(s)) =~= views(v).push(s@));
}

/// Appends to `password_pool` the entries of `variation` and `token`.
pub fn inject_token(variation: &str, token: &str, password_pool: &mut Vec<String>)
    ensures
        views(final(password_pool)@) == views(old(password_pool)@) + inject_one(
            variation@,
            token@,
        ),
{
    let ghost v = variation@;
    let ghost t = token@;
    let ghost before = views(password_pool@);
    let mut whole = String::from_str(variation);
    whole.append(token);
    proof {
        lemma_views_push(password_pool@, whole);
    }
    password_pool.push(whole);
    assert(views(password_pool@) =~= before + inject_one(v, t).take(1));
    let n = variation.unicode_len();
    for k in 0..n
        invariant
            n == v.len(),
            v == variation@,
            t == token@,
            views(password_pool@) == before + inject_one(v, t).take(k + 1),
    {
        let mut entry = String::from_str(variation.substring_char(0, k));
        entry.append(token);
        entry.append(variation.substring_char(k, n));
        proof {
            lemma_views_push(password_pool@, entry);
        }
        password_pool.push(entry);
        assert(entry@ =~= v.take(k as int) + t + v.skip(k as int));
        assert(views(password_pool@) =~= before + inject_one(v, t).take(k + 2));
    }
    assert(inject_one(v, t).take(n + 1) =~= inject_one(v, t));
}

/// Appends to `password_pool` the entries of `variation` with each token of
/// `collection`, in order.
pub fn add_elements(collection: &Vec<String>, password_pool: &mut Vec<String>, variation: &str)
    ensures
        views(final(password_pool)@) == views(old(password_pool)@) + inject_all(
            variation@,
            views(collection@),
        ),
{
    let ghost before = views(password_pool@);
    for i in 0..collection.len()
        invariant
            views(password_pool@) == before + inject_all(
                variation@,
                views(collection@).take(i as int),
            ),
    {
        inject_token(variation, collection[i].as_str(), password_pool);
        assert(views(collection@).take(i + 1).drop_last() =~= views(collection@).take(i as int));
        assert(views(password_pool@) =~= before + inject_all(
            variation@,
            views(collection@).take(i + 1),
        ));
    }
    assert(views(collection@).take(collection@.len() as int) =~= views(collection@));
}

/// An injection of one token into a variation of length `n` yields `n + 1`
/// entries: the token appended, then the token inserted at each split point
/// `0 .. n`, each of length `n` plus the token's length.
pub proof fn lemma_injection_shape(v: Seq<char>, t: Seq<char>)
    ensures
        inject_all(v, seq![t]) == inject_one(v, t),
        inject_one(v, t).len() == v.len() + 1,
        inject_one(v, t)[0] == v + t,
        forall|k: int| 0 <= k < v.len() ==> #[trigger] inject_one(v, t)[k + 1] == v.take(k) + t + v.skip(k),
        forall|j: int| 0 <= j <= v.len() ==> #[trigger] inject_one(v, t)[j].len() == v.len() + t.len(),
{
    let ts = seq![t];
    assert(ts.drop_last() =~= Seq::<Seq<char>>::empty());
    assert(ts.last() == t);
    assert(inject_all(v, ts.drop_last()) =~= Seq::<Seq<char>>::empty());
    assert(inject_all(v, ts) =~= inject_one(v, t));
}

/// Injecting each of `ts` into `v` yields `v.len() + 1` entries per token.
pub proof fn lemma_inject_all_len(v: Seq<char>, ts: Seq<Seq<char>>)
    ensures
        inject_all(v, ts).len() == ts.len() * (v.len() + 1),
    decreases ts.len(),
{
    if ts.len() > 0 {
        lemma_inject_all_len(v, ts.drop_last());
        assert((ts.len() - 1) * (v.len() + 1) + (v.len() + 1) == ts.len() * (v.len() + 1))
            by (nonlinear_arith);
    }
}

} // verus!
