//! Autocomplete ranking: the registry is scored against the typed query by an
//! outside fuzzy matcher, and the matching candidates are ordered by
//! descending score, ties broken by reverse-lexical candidate name.

use vstd::prelude::*;
use vstd::seq_lib::lemma_multiset_commutative;

use fuzzy_matcher::FuzzyMatcher;
use fuzzy_matcher::skim::SkimMatcherV2;

use crate::text::view_lines;

verus! {

/// The score the fuzzy matcher gives `text` against `pattern`; `None` means
/// no match. The score is a function of the two texts alone.
pub uninterp spec fn fuzzy_score_of(text: Seq<char>, pattern: Seq<char>) -> Option<i64>;

/// Relies on `SkimMatcherV2::fuzzy_match` with default options: a pure
/// function of the candidate and query text, `None` when the query does not
/// fuzzy-match the candidate.
#[verifier::external_body]
fn fuzzy_score(text: &Vec<char>, pattern: &Vec<char>) -> (r: Option<i64>)
    ensures
        r == fuzzy_score_of(text@, pattern@),
{
    let t: String = text.iter().collect();
    let p: String = pattern.iter().collect();
    SkimMatcherV2::default().fuzzy_match(&t, &p)
}

/// Lexicographic order on text, by code point.
pub open spec fn lex_leq(a: Seq<char>, b: Seq<char>) -> bool
    decreases a.len(),
{
    if a.len() == 0 {
        true
    } else if b.len() == 0 {
        false
    } else if (a[0] as u32) < (b[0] as u32) {
        true
    } else if (a[0] as u32) > (b[0] as u32) {
        false
    } else {
        lex_leq(a.skip(1), b.skip(1))
    }
}

/// The lexicographic order is total.
pub proof fn lemma_lex_total(a: Seq<char>, b: Seq<char>)
    ensures
        lex_leq(a, b) || lex_leq(b, a),
    decreases a.len(),
{
    if a.len() != 0 && b.len() != 0 && (a[0] as u32) == (b[0] as u32) {
        lemma_lex_total(a.skip(1), b.skip(1));
    }
}

/// The lexicographic order is transitive.
pub proof fn lemma_lex_trans(a: Seq<char>, b: Seq<char>, c: Seq<char>)
    requires
        lex_leq(a, b),
        lex_leq(b, c),
    ensures
        lex_leq(a, c),
    decreases a.len(),
{
    if a.len() != 0 && b.len() != 0 && c.len() != 0 && (a[0] as u32) == (b[0] as u32) && (
    b[0] as u32) == (c[0] as u32) {
        lemma_lex_trans(a.skip(1), b.skip(1), c.skip(1));
    }
}

/// Computes [`lex_leq`].
pub fn lex_leq_chars(a: &Vec<char>, b: &Vec<char>) -> (r: bool)
    ensures
        r == lex_leq(a@, b@),
{
    let mut i: usize = 0;
    proof {
        assert(a@.skip(0) =~= a@);
        assert(b@.skip(0) =~= b@);
    }
    loop
        invariant
            i <= a@.len(),
            i <= b@.len(),
            lex_leq(a@, b@) == lex_leq(a@.skip(i as int), b@.skip(i as int)),
        decreases a@.len() - i,
    {
        proof {
            if i < a@.len() {
                assert(a@.skip(i as int).skip(1) =~= a@.skip(i + 1));
            }
            if i < b@.len() {
                assert(b@.skip(i as int).skip(1) =~= b@.skip(i + 1));
            }
        }
        if i == a.len() {
            return true;
        }
        if i == b.len() {
            return false;
        }
        let ca = a[i] as u32;
        let cb = b[i] as u32;
        if ca < cb {
            return true;
        }
        if ca > cb {
            return false;
        }
        i = i + 1;
    }
}

/// `a` may stand before `b` in the ranking: a higher score, or an equal score
/// and a name that is lexicographically no smaller.
pub open spec fn rank_geq(a: Seq<char>, b: Seq<char>, q: Seq<char>) -> bool {
    let sa = fuzzy_score_of(a, q);
    let sb = fuzzy_score_of(b, q);
    sa->0 > sb->0 || (sa->0 == sb->0 && lex_leq(b, a))
}

/// The candidates the matcher accepts, in registry order.
pub open spec fn matches_of(files: Seq<Seq<char>>, q: Seq<char>) -> Seq<Seq<char>>
    decreases files.len(),
{
    if files.len() == 0 {
        Seq::empty()
    } else {
        let rest = matches_of(files.drop_last(), q);
        if fuzzy_score_of(files.last(), q) is Some {
            rest.push(files.last())
        } else {
            rest
        }
    }
}

/// A ranking: descending score, ties by reverse-lexical name.
pub open spec fn ranked(out: Seq<Seq<char>>, q: Seq<char>) -> bool {
    forall|i: int, j: int|
        #![trigger out[i], out[j]]
        0 <= i < j < out.len() ==> rank_geq(out[i], out[j], q)
}

/// Rank the registry against a query: exactly the matching candidates, each
/// as often as the registry holds it, ordered by descending score with ties
/// broken by reverse-lexical name.
pub fn rank_candidates(files: &Vec<Vec<char>>, query: &Vec<char>) -> (out: Vec<Vec<char>>)
    ensures
        view_lines(out@).to_multiset() == matches_of(view_lines(files@), query@).to_multiset(),
        ranked(view_lines(out@), query@),
        forall|i: int|
            0 <= i < out@.len() ==> fuzzy_score_of(#[trigger] view_lines(out@)[i], query@) is Some,
{
    let ghost vf = view_lines(files@);
    let mut out: Vec<Vec<char>> = Vec::new();
    let mut scores: Vec<i64> = Vec::new();
    let mut i: usize = 0;
    proof {
        broadcast use vstd::prelude::Seq::to_multiset_ensures;

        assert(matches_of(vf.take(0), query@) =~= Seq::<Seq<char>>::empty());
        assert(view_lines(out@) =~= Seq::<Seq<char>>::empty());
        assert(view_lines(out@).to_multiset() =~= matches_of(vf.take(0), query@).to_multiset());
    }
    while i < files.len()
        invariant
            i <= files@.len(),
            vf == view_lines(files@),
            out@.len() == scores@.len(),
            view_lines(out@).to_multiset() == matches_of(vf.take(i as int), query@).to_multiset(),
            ranked(view_lines(out@), query@),
            forall|k: int|
                0 <= k < out@.len() ==> fuzzy_score_of(#[trigger] view_lines(out@)[k], query@)
                    == Some(scores@[k]),
        decreases files.len() - i,
    {
        let ghost out0 = view_lines(out@);
        match fuzzy_score(&files[i], query) {
            Option::None => {
                proof {
                    assert(vf.take(i + 1).drop_last() =~= vf.take(i as int));
                    assert(matches_of(vf.take(i + 1), query@) == matches_of(
                        vf.take(i as int),
                        query@,
                    ));
                }
            },
            Option::Some(sc) => {
                let name = crate::text::copy_line(&files[i]);
                // find the insertion point: past everything that may stand
                // before the new candidate
                let mut pos: usize = 0;
                loop
                    invariant_except_break
                        pos <= out@.len(),
                        out@.len() == scores@.len(),
                        view_lines(out@) == out0,
                        name@ == vf[i as int],
                        fuzzy_score_of(name@, query@) == Some(sc),
                        forall|k: int|
                            0 <= k < out@.len() ==> fuzzy_score_of(
                                #[trigger] view_lines(out@)[k],
                                query@,
                            ) == Some(scores@[k]),
                        forall|k: int| 0 <= k < pos ==> rank_geq(out0[k], name@, query@),
                    ensures
                        pos <= out@.len(),
                        out@.len() == scores@.len(),
                        view_lines(out@) == out0,
                        forall|k: int| 0 <= k < pos ==> rank_geq(out0[k], name@, query@),
                        pos < out@.len() ==> !rank_geq(out0[pos as int], name@, query@),
                    decreases out@.len() - pos,
                {
                    if pos == out.len() {
                        break ;
                    }
                    let better = if scores[pos] > sc {
                        true
                    } else if scores[pos] == sc {
                        lex_leq_chars(&name, &out[pos])
                    } else {
                        false
                    };
                    if !better {
                        proof {
                            assert(!rank_geq(out0[pos as int], name@, query@));
                        }
                        break ;
                    }
                    proof {
                        assert(rank_geq(out0[pos as int], name@, query@));
                    }
                    pos = pos + 1;
                }
                proof {
                    if pos < out@.len() {
                        assert(!rank_geq(out0[pos as int], name@, query@));
                        lemma_lex_total(name@, out0[pos as int]);
                        assert(rank_geq(name@, out0[pos as int], query@));
                    }
                }
                let ghost outv0 = out@;
                out.insert(pos, name);
                scores.insert(pos, sc);
                proof {
                    broadcast use vstd::prelude::Seq::to_multiset_ensures;
                    broadcast use vstd::multiset::group_multiset_axioms;

                    let newv = view_lines(out@);
                    let tk = out0.take(pos as int);
                    let sk = out0.skip(pos as int);
                    let e = vf[i as int];
                    assert(newv =~= tk.push(e) + sk);
                    lemma_multiset_commutative(tk.push(e), sk);
                    tk.to_multiset_ensures();
                    assert(tk.push(e).to_multiset() =~= tk.to_multiset().insert(e));
                    lemma_multiset_commutative(tk, sk);
                    assert(tk + sk =~= out0);
                    assert(newv.to_multiset() =~= out0.to_multiset().insert(e));
                    assert(vf.take(i + 1).drop_last() =~= vf.take(i as int));
                    assert(matches_of(vf.take(i + 1), query@) == matches_of(
                        vf.take(i as int),
                        query@,
                    ).push(e));
                    matches_of(vf.take(i as int), query@).to_multiset_ensures();
                    assert(matches_of(vf.take(i + 1), query@).to_multiset() =~= matches_of(
                        vf.take(i as int),
                        query@,
                    ).to_multiset().insert(e));
                    assert(newv.to_multiset() =~= matches_of(vf.take(i + 1), query@).to_multiset());
                    // the new list is still ranked
                    assert forall|x: int, y: int|
                        #![trigger newv[x], newv[y]]
                        0 <= x < y < newv.len() implies rank_geq(newv[x], newv[y], query@) by {
                        if y < pos {
                            assert(newv[x] == out0[x] && newv[y] == out0[y]);
                        } else if y == pos {
                            assert(newv[x] == out0[x]);
                            assert(rank_geq(out0[x], name@, query@));
                        } else if x < pos {
                            assert(newv[x] == out0[x] && newv[y] == out0[y - 1]);
                        } else if x == pos {
                            assert(newv[y] == out0[y - 1]);
                            assert(rank_geq(name@, out0[pos as int], query@));
                            if y - 1 > pos {
                                assert(rank_geq(out0[pos as int], out0[y - 1], query@));
                                if fuzzy_score_of(name@, query@)->0 == fuzzy_score_of(
                                    out0[y - 1],
                                    query@,
                                )->0 {
                                    lemma_lex_trans(out0[y - 1], out0[pos as int], name@);
                                }
                            }
                        } else {
                            assert(newv[x] == out0[x - 1] && newv[y] == out0[y - 1]);
                        }
                    }
                }
            },
        }
        i = i + 1;
    }
    proof {
        assert(vf.take(vf.len() as int) =~= vf);
    }
    out
}

} // verus!
