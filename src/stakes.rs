use vstd::prelude::*;
use crate::types::Prediction;

verus! {

/// What one prediction adds to the total of outcome `k` of arena `a`.
pub open spec fn contribution(p: Prediction, a: u64, k: int) -> int {
    if p.arena_id == a && p.outcome_index == k {
        p.amount as int
    } else {
        0
    }
}

/// The sum of the amounts of the predictions in `ps` on outcome `k` of arena `a`.
pub open spec fn stake_sum(ps: Seq<Prediction>, a: u64, k: int) -> int
    decreases ps.len(),
{
    if ps.len() == 0 {
        0
    } else {
        stake_sum(ps.drop_last(), a, k) + contribution(ps.last(), a, k)
    }
}

/// Appending a record adds its contribution to every sum.
pub proof fn lemma_stake_sum_push(ps: Seq<Prediction>, p: Prediction, a: u64, k: int)
    ensures
        stake_sum(ps.push(p), a, k) == stake_sum(ps, a, k) + contribution(p, a, k),
{
    assert(ps.push(p).drop_last() =~= ps);
}

/// Sums of stakes are never negative.
pub proof fn lemma_stake_sum_nonneg(ps: Seq<Prediction>, a: u64, k: int)
    ensures
        stake_sum(ps, a, k) >= 0,
    decreases ps.len(),
{
    if ps.len() > 0 {
        lemma_stake_sum_nonneg(ps.drop_last(), a, k);
    }
}

/// Each record contributes at most the whole sum.
pub proof fn lemma_stake_sum_member(ps: Seq<Prediction>, j: int, a: u64, k: int)
    requires
        0 <= j < ps.len(),
    ensures
        contribution(ps[j], a, k) <= stake_sum(ps, a, k),
    decreases ps.len(),
{
    if j == ps.len() - 1 {
        lemma_stake_sum_nonneg(ps.drop_last(), a, k);
    } else {
        lemma_stake_sum_member(ps.drop_last(), j, a, k);
    }
}

/// Replacing a record swaps its contribution for that of the new one.
pub proof fn lemma_stake_sum_update(ps: Seq<Prediction>, j: int, p: Prediction, a: u64, k: int)
    requires
        0 <= j < ps.len(),
    ensures
        stake_sum(ps.update(j, p), a, k) == stake_sum(ps, a, k) - contribution(ps[j], a, k)
            + contribution(p, a, k),
    decreases ps.len(),
{
    let qs = ps.update(j, p);
    if j == ps.len() - 1 {
        assert(qs.drop_last() =~= ps.drop_last());
    } else {
        assert(qs.drop_last() =~= ps.drop_last().update(j, p));
        lemma_stake_sum_update(ps.drop_last(), j, p, a, k);
    }
}

/// Inserting a record anywhere adds its contribution to every sum.
pub proof fn lemma_stake_sum_insert(ps: Seq<Prediction>, i: int, p: Prediction, a: u64, k: int)
    requires
        0 <= i <= ps.len(),
    ensures
        stake_sum(ps.insert(i, p), a, k) == stake_sum(ps, a, k) + contribution(p, a, k),
    decreases ps.len(),
{
    let qs = ps.insert(i, p);
    if i == ps.len() {
        assert(qs =~= ps.push(p));
        lemma_stake_sum_push(ps, p, a, k);
    } else {
        assert(qs.drop_last() =~= ps.drop_last().insert(i, p));
        lemma_stake_sum_insert(ps.drop_last(), i, p, a, k);
    }
}

/// An arena without records has a zero sum on every outcome.
pub proof fn lemma_stake_sum_absent(ps: Seq<Prediction>, a: u64, k: int)
    requires
        forall|j: int| 0 <= j < ps.len() ==> ps[j].arena_id != a,
    ensures
        stake_sum(ps, a, k) == 0,
    decreases ps.len(),
{
    if ps.len() > 0 {
        lemma_stake_sum_absent(ps.drop_last(), a, k);
    }
}

} // verus!
