//! Ranking of candidates: best score first, and among equal scores the one
//! that was enumerated first.

use crate::fuzzy::{score, scored};
use itertools::Itertools;
use std::cmp::Ordering;
use vstd::prelude::*;

verus! {

/// Whether candidate `a` comes before candidate `b` in a ranking over `scores`.
pub open spec fn precedes(scores: Seq<Option<i64>>, a: usize, b: usize) -> bool
    recommends
        a < scores.len(),
        b < scores.len(),
        scores[a as int] is Some,
        scores[b as int] is Some,
{
    let x = scores[a as int]->0;
    let y = scores[b as int]->0;
    x > y || (x == y && a < b)
}

/// Whether `order` ranks the candidates that have a score: it holds each of
/// them, holds nothing else, and is sorted by descending score, with equal
/// scores in the order of enumeration.
pub open spec fn is_ranking(scores: Seq<Option<i64>>, order: Seq<usize>) -> bool {
    &&& forall|i: int|
        0 <= i < order.len() ==> (#[trigger] order[i]) < scores.len() && scores[order[i] as int]
            is Some
    &&& forall|k: int|
        0 <= k < scores.len() && (#[trigger] scores[k]) is Some ==> exists|i: int|
            0 <= i < order.len() && #[trigger] order[i] == k
    &&& forall|i: int, j: int|
        0 <= i < j < order.len() ==> precedes(scores, #[trigger] order[i], #[trigger] order[j])
}

/// A ranking without its first entry ranks the scores without that candidate.
proof fn lemma_ranking_tail(scores: Seq<Option<i64>>, order: Seq<usize>)
    requires
        is_ranking(scores, order),
        order.len() > 0,
    ensures
        is_ranking(scores.update(order[0] as int, None), order.drop_first()),
{
    let rest_scores = scores.update(order[0] as int, None);
    let rest = order.drop_first();
    assert forall|i: int| 0 <= i < rest.len() implies (#[trigger] rest[i]) < rest_scores.len()
        && rest_scores[rest[i] as int] is Some by {
        assert(rest[i] == order[i + 1]);
        assert(precedes(scores, order[0], order[i + 1]));
    }
    assert forall|k: int| 0 <= k < rest_scores.len() && (#[trigger] rest_scores[k]) is Some implies exists|
        i: int,
    |
        0 <= i < rest.len() && #[trigger] rest[i] == k by {
        assert(scores[k] is Some);
        let at = choose|at: int| 0 <= at < order.len() && #[trigger] order[at] == k;
        assert(rest[at - 1] == k);
    }
    assert forall|i: int, j: int| 0 <= i < j < rest.len() implies precedes(
        rest_scores,
        #[trigger] rest[i],
        #[trigger] rest[j],
    ) by {
        assert(rest[i] == order[i + 1]);
        assert(rest[j] == order[j + 1]);
        assert(precedes(scores, order[i + 1], order[j + 1]));
        assert(precedes(scores, order[0], order[i + 1]));
        assert(precedes(scores, order[0], order[j + 1]));
    }
}

/// Two rankings of the same scores begin with the same candidate.
proof fn lemma_ranking_head(scores: Seq<Option<i64>>, first: Seq<usize>, second: Seq<usize>)
    requires
        is_ranking(scores, first),
        is_ranking(scores, second),
        first.len() > 0,
    ensures
        second.len() > 0,
        first[0] == second[0],
{
    let head = first[0];
    assert(scores[head as int] is Some);
    let m = choose|m: int| 0 <= m < second.len() && #[trigger] second[m] == head;
    let other = second[0];
    assert(scores[other as int] is Some);
    let n = choose|n: int| 0 <= n < first.len() && #[trigger] first[n] == other;
    if m > 0 {
        assert(precedes(scores, second[0], second[m]));
        if n > 0 {
            assert(precedes(scores, first[0], first[n]));
        }
    }
}

/// The ranking of given scores is unique: whatever ranks them gives the same
/// order, so a search on the same candidates and query comes out the same each
/// time.
pub proof fn lemma_ranking_unique(scores: Seq<Option<i64>>, first: Seq<usize>, second: Seq<usize>)
    requires
        is_ranking(scores, first),
        is_ranking(scores, second),
    ensures
        first == second,
    decreases first.len(),
{
    if first.len() == 0 {
        if second.len() > 0 {
            lemma_ranking_head(scores, second, first);
        }
        assert(first =~= second);
    } else {
        lemma_ranking_head(scores, first, second);
        lemma_ranking_tail(scores, first);
        lemma_ranking_tail(scores, second);
        lemma_ranking_unique(
            scores.update(first[0] as int, None),
            first.drop_first(),
            second.drop_first(),
        );
        assert(first =~= seq![first[0]] + first.drop_first());
        assert(second =~= seq![second[0]] + second.drop_first());
    }
}

/// The number of candidates that have a score.
pub open spec fn scored_count(scores: Seq<Option<i64>>) -> nat
    decreases scores.len(),
{
    if scores.len() == 0 {
        0
    } else if scores.last() is Some {
        1 + scored_count(scores.drop_last())
    } else {
        scored_count(scores.drop_last())
    }
}

/// No more candidates have a score than there are candidates, and none has one
/// where every entry is empty.
proof fn lemma_scored_count_bounds(scores: Seq<Option<i64>>)
    ensures
        scored_count(scores) <= scores.len(),
        (forall|k: int| 0 <= k < scores.len() ==> (#[trigger] scores[k]) is None) ==> scored_count(
            scores,
        ) == 0,
    decreases scores.len(),
{
    if scores.len() > 0 {
        lemma_scored_count_bounds(scores.drop_last());
        if forall|k: int| 0 <= k < scores.len() ==> (#[trigger] scores[k]) is None {
            assert(scores.last() is None);
            assert forall|k: int| 0 <= k < scores.drop_last().len() implies (#[trigger] scores.drop_last()[k])
                is None by {
                assert(scores.drop_last()[k] == scores[k]);
            }
        }
    }
}

/// Taking the score of one candidate away leaves one scored candidate fewer.
proof fn lemma_scored_count_without(scores: Seq<Option<i64>>, k: int)
    requires
        0 <= k < scores.len(),
        scores[k] is Some,
    ensures
        scored_count(scores.update(k, None)) + 1 == scored_count(scores),
    decreases scores.len(),
{
    let without = scores.update(k, None);
    if k == scores.len() - 1 {
        assert(without.drop_last() =~= scores.drop_last());
    } else {
        assert(without.drop_last() =~= scores.drop_last().update(k, None));
        assert(without.last() == scores.last());
        lemma_scored_count_without(scores.drop_last(), k);
    }
}

/// A ranking holds each scored candidate once: it is as long as there are
/// scored candidates, and no longer than the list of scores.
pub proof fn lemma_ranking_len(scores: Seq<Option<i64>>, order: Seq<usize>)
    requires
        is_ranking(scores, order),
    ensures
        order.no_duplicates(),
        order.len() == scored_count(scores),
        order.len() <= scores.len(),
    decreases order.len(),
{
    assert forall|i: int, j: int| 0 <= i < order.len() && 0 <= j < order.len() && i != j implies order[i]
        != order[j] by {
        if i < j {
            assert(precedes(scores, order[i], order[j]));
        } else {
            assert(precedes(scores, order[j], order[i]));
        }
    }
    lemma_scored_count_bounds(scores);
    if order.len() > 0 {
        lemma_ranking_tail(scores, order);
        lemma_ranking_len(scores.update(order[0] as int, None), order.drop_first());
        lemma_scored_count_without(scores, order[0] as int);
    } else {
        assert forall|k: int| 0 <= k < scores.len() implies (#[trigger] scores[k]) is None by {
            if scores[k] is Some {
                let at = choose|at: int| 0 <= at < order.len() && #[trigger] order[at] == k;
            }
        }
    }
}

/// The ranking of `scores`: the one order that ranks them.
pub open spec fn ranking(scores: Seq<Option<i64>>) -> Seq<usize> {
    choose|order: Seq<usize>| is_ranking(scores, order)
}

/// Whatever ranks `scores` is their ranking.
pub proof fn lemma_ranking_is(scores: Seq<Option<i64>>, order: Seq<usize>)
    requires
        is_ranking(scores, order),
    ensures
        order == ranking(scores),
        is_ranking(scores, ranking(scores)),
{
    lemma_ranking_unique(scores, order, ranking(scores));
}

/// Whether the pair `a` is sorted before the pair `b`: by the greater second
/// component, then by the smaller first one.
pub open spec fn outranks(a: (usize, i64), b: (usize, i64)) -> bool {
    a.1 > b.1 || (a.1 == b.1 && a.0 < b.0)
}

/// Whether the first components of `pairs` grow strictly.
pub open spec fn is_enumerated(pairs: Seq<(usize, i64)>) -> bool {
    forall|i: int, j: int| 0 <= i < j < pairs.len() ==> (#[trigger] pairs[i]).0 < (#[trigger] pairs[j]).0
}

/// Whether `sorted` holds the pairs of `pairs`, best first.
pub open spec fn is_sorted_of(pairs: Seq<(usize, i64)>, sorted: Seq<(usize, i64)>) -> bool {
    &&& sorted.len() == pairs.len()
    &&& forall|i: int| 0 <= i < pairs.len() ==> sorted.contains(#[trigger] pairs[i])
    &&& forall|i: int| 0 <= i < sorted.len() ==> pairs.contains(#[trigger] sorted[i])
    &&& forall|i: int, j: int|
        0 <= i < j < sorted.len() ==> outranks(#[trigger] sorted[i], #[trigger] sorted[j])
}

/// Compares two scored candidates so that the greater score sorts first.
pub fn by_descending_score(a: &(usize, i64), b: &(usize, i64)) -> (o: Ordering)
    ensures
        o == Ordering::Less <==> a.1 > b.1,
        o == Ordering::Equal <==> a.1 == b.1,
        o == Ordering::Greater <==> a.1 < b.1,
{
    if a.1 > b.1 {
        Ordering::Less
    } else if a.1 == b.1 {
        Ordering::Equal
    } else {
        Ordering::Greater
    }
}

/// Calls `Itertools::sorted_by` of the crate itertools, which collects the items
/// and sorts them with the stable `sort_by` of `Vec`. The contract claims that
/// the result holds the same pairs by descending score, and that pairs of equal
/// score keep their order: since the first components of the input grow, they
/// come out by ascending first component.
#[verifier::external_body]
fn sorted_by_score(pairs: Vec<(usize, i64)>) -> (sorted: Vec<(usize, i64)>)
    requires
        is_enumerated(pairs@),
    ensures
        is_sorted_of(pairs@, sorted@),
{
    pairs.into_iter().sorted_by(|a, b| by_descending_score(a, b)).collect()
}

/// Ranks the candidates that have a score. The result holds their positions in
/// `scores`, best first; candidates of equal score stay in the order in which
/// they were enumerated.
pub fn rank_scores(scores: &Vec<Option<i64>>) -> (order: Vec<usize>)
    ensures
        is_ranking(scores@, order@),
        order@ == ranking(scores@),
        order@.len() == scored_count(scores@),
        order@.len() <= scores@.len(),
{
    let mut pairs: Vec<(usize, i64)> = Vec::new();
    let mut k: usize = 0;
    while k < scores.len()
        invariant
            k <= scores.len(),
            is_enumerated(pairs@),
            forall|i: int|
                0 <= i < pairs.len() ==> (#[trigger] pairs[i]).0 < k && scores[pairs[i].0 as int]
                    == Some(pairs[i].1),
            forall|j: int|
                0 <= j < k && (#[trigger] scores[j]) is Some ==> pairs@.contains(
                    (j as usize, scores[j]->0),
                ),
        decreases scores.len() - k,
    {
        match scores[k] {
            Some(s) => {
                let ghost before = pairs@;
                pairs.push((k, s));
                assert forall|j: int| 0 <= j <= k && (#[trigger] scores[j]) is Some implies pairs@.contains(
                    (j as usize, scores[j]->0),
                ) by {
                    if j < k {
                        let at = choose|at: int|
                            0 <= at < before.len() && before[at] == (j as usize, scores[j]->0);
                        assert(pairs@[at] == (j as usize, scores[j]->0));
                    } else {
                        assert(pairs@[pairs.len() - 1] == (j as usize, scores[j]->0));
                    }
                }
            },
            None => {},
        }
        k += 1;
    }
    let sorted = sorted_by_score(pairs);
    let mut order: Vec<usize> = Vec::new();
    let mut i: usize = 0;
    while i < sorted.len()
        invariant
            i <= sorted.len(),
            order.len() == i,
            forall|n: int| 0 <= n < i ==> (#[trigger] order[n]) == sorted[n].0,
        decreases sorted.len() - i,
    {
        order.push(sorted[i].0);
        i += 1;
    }
    proof {
        assert forall|n: int| 0 <= n < order.len() implies (#[trigger] order[n]) < scores.len()
            && scores[order[n] as int] == Some(sorted[n].1) by {
            let at = choose|at: int| 0 <= at < pairs.len() && pairs[at] == sorted[n];
            assert(pairs[at].0 < k);
        }
        assert forall|j: int| 0 <= j < scores.len() && (#[trigger] scores[j]) is Some implies exists|
            n: int,
        |
            0 <= n < order.len() && #[trigger] order[n] == j by {
            let pair = (j as usize, scores[j]->0);
            let at = choose|at: int| 0 <= at < pairs.len() && pairs[at] == pair;
            assert(sorted@.contains(pairs[at]));
            let n = choose|n: int| 0 <= n < sorted.len() && sorted[n] == pair;
            assert(order[n] == j);
        }
        assert forall|a: int, b: int| 0 <= a < b < order.len() implies precedes(
            scores@,
            #[trigger] order[a],
            #[trigger] order[b],
        ) by {
            assert(outranks(sorted[a], sorted[b]));
        }
        lemma_ranking_is(scores@, order@);
        lemma_ranking_len(scores@, order@);
    }
    order
}

/// The texts of a list of strings.
pub open spec fn texts(names: Seq<String>) -> Seq<Seq<char>> {
    names.map_values(|name: String| name@)
}

/// The score of each candidate for `query`, in the order of the candidates.
pub open spec fn scores_of(candidates: Seq<Seq<char>>, query: Seq<char>) -> Seq<Option<i64>> {
    candidates.map_values(|name: Seq<char>| scored(name, query, false))
}

/// The positions of the candidates that `query` matches, best first.
pub open spec fn ranked(candidates: Seq<Seq<char>>, query: Seq<char>) -> Seq<usize> {
    ranking(scores_of(candidates, query))
}

/// Scores each candidate for `query`.
pub fn score_all(candidates: &Vec<String>, query: &str) -> (scores: Vec<Option<i64>>)
    ensures
        scores@ == scores_of(texts(candidates@), query@),
{
    let mut scores: Vec<Option<i64>> = Vec::new();
    let mut i: usize = 0;
    while i < candidates.len()
        invariant
            i <= candidates.len(),
            scores.len() == i,
            forall|k: int|
                0 <= k < i ==> (#[trigger] scores[k]) == scored(candidates[k]@, query@, false),
        decreases candidates.len() - i,
    {
        scores.push(score(candidates[i].as_str(), query, false));
        i += 1;
    }
    assert(scores@ =~= scores_of(texts(candidates@), query@));
    scores
}

/// Finds the candidates that `query` matches and ranks them: the result holds
/// their positions among `candidates`, best first.
pub fn ranked_matches(candidates: &Vec<String>, query: &str) -> (order: Vec<usize>)
    ensures
        order@ == ranked(texts(candidates@), query@),
        is_ranking(scores_of(texts(candidates@), query@), order@),
        order@.len() <= candidates@.len(),
{
    let scores = score_all(candidates, query);
    rank_scores(&scores)
}

} // verus!
