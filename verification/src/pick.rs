//! Picking one entry of a weighted list.
//!
//! A draw is a number from zero up to, but not including, the sum of the
//! weights. The list is walked from its start: an entry is picked when the
//! draw is at most its weight; otherwise its weight is taken off the draw and
//! the walk goes on.

use vstd::prelude::*;

verus! {

/// The weights of a list of weighted entries.
pub open spec fn weights_of<T>(entries: Seq<(T, u32)>) -> Seq<u32> {
    Seq::new(entries.len(), |i: int| entries[i].1)
}

/// The sum of the first `n` weights.
pub open spec fn weight_before(weights: Seq<u32>, n: int) -> int
    decreases n,
{
    if n <= 0 {
        0
    } else {
        weight_before(weights, n - 1) + weights[n - 1]
    }
}

/// The sum of all weights.
pub open spec fn total_weight(weights: Seq<u32>) -> int {
    weight_before(weights, weights.len() as int)
}

/// The walk from entry `from` on, with `draw` left: the first entry whose
/// weight is at least what is left of the draw when the walk reaches it.
pub open spec fn walk_from(weights: Seq<u32>, draw: int, from: int) -> Option<int>
    decreases weights.len() - from,
{
    if from < 0 || from >= weights.len() {
        None
    } else if draw <= weights[from] {
        Some(from)
    } else {
        walk_from(weights, draw - weights[from], from + 1)
    }
}

/// The entry that `draw` picks, if the walk picks one.
pub open spec fn weighted_index(weights: Seq<u32>, draw: int) -> Option<int> {
    walk_from(weights, draw, 0)
}

/// Entry `i` is the first at which what is left of `draw` is at most the
/// entry's weight.
pub open spec fn is_first_hit(weights: Seq<u32>, draw: int, i: int) -> bool {
    &&& 0 <= i < weights.len()
    &&& draw - weight_before(weights, i) <= weights[i]
    &&& forall|k: int| 0 <= k < i ==> draw - weight_before(weights, k) > #[trigger] weights[k]
}

/// The walk from `from` on, entered with what is left of `draw` there,
/// picks the first entry at or after `from` that the draw hits.
proof fn lemma_walk(weights: Seq<u32>, draw: int, from: int)
    requires
        0 <= from <= weights.len(),
        forall|k: int| 0 <= k < from ==> draw - weight_before(weights, k) > #[trigger] weights[k],
    ensures
        match walk_from(weights, draw - weight_before(weights, from), from) {
            Some(i) => is_first_hit(weights, draw, i),
            None => forall|k: int|
                0 <= k < weights.len() ==> draw - weight_before(weights, k) > #[trigger] weights[k],
        },
    decreases weights.len() - from,
{
    if from < weights.len() {
        if draw - weight_before(weights, from) > weights[from] {
            assert(weight_before(weights, from + 1) == weight_before(weights, from)
                + weights[from]);
            lemma_walk(weights, draw, from + 1);
        }
    }
}

/// The picked entry is the first one that the draw hits: the first entry
/// `i` for which the draw, less the weights before `i`, is at most the
/// weight of `i`. No entry is picked exactly when the draw hits none.
pub proof fn lemma_weighted_index_is_first_hit(weights: Seq<u32>, draw: int)
    ensures
        match weighted_index(weights, draw) {
            Some(i) => is_first_hit(weights, draw, i),
            None => forall|k: int|
                0 <= k < weights.len() ==> draw - weight_before(weights, k) > #[trigger] weights[k],
        },
{
    lemma_walk(weights, draw, 0);
}

/// A draw below the sum of the weights always picks an entry.
pub proof fn lemma_draw_below_total_picks(weights: Seq<u32>, draw: int)
    requires
        0 <= draw < total_weight(weights),
    ensures
        weighted_index(weights, draw).is_some(),
        is_first_hit(weights, draw, weighted_index(weights, draw).unwrap()),
{
    lemma_weighted_index_is_first_hit(weights, draw);
    if weighted_index(weights, draw).is_none() {
        let n = weights.len() as int;
        assert(n > 0);
        assert(draw - weight_before(weights, n - 1) > weights[n - 1]);
        assert(weight_before(weights, n) == weight_before(weights, n - 1) + weights[n - 1]);
    }
}

/// The sum of the first weights never falls when more weights are added.
pub proof fn lemma_weight_before_grows(weights: Seq<u32>, m: int, n: int)
    requires
        0 <= m <= n,
    ensures
        0 <= weight_before(weights, m) <= weight_before(weights, n),
    decreases n - m,
{
    if m < n {
        lemma_weight_before_grows(weights, m, n - 1);
    } else {
        lemma_weight_before_nonnegative(weights, m);
    }
}

/// The sum of the first weights is not negative.
proof fn lemma_weight_before_nonnegative(weights: Seq<u32>, n: int)
    ensures
        0 <= weight_before(weights, n),
    decreases n,
{
    if n > 0 {
        lemma_weight_before_nonnegative(weights, n - 1);
    }
}

/// Which draws pick which entry: the first entry is picked by the draws up
/// to its weight, and every later entry by the draws above the sum of the
/// weights before it, up to that sum and its own weight. So each entry after
/// the first is picked by as many draws as its weight says, and the first by
/// one more.
pub proof fn lemma_picked_interval(weights: Seq<u32>, draw: int, i: int)
    requires
        0 <= draw,
        0 <= i < weights.len(),
    ensures
        weighted_index(weights, draw) == Some(i) <==> (draw <= weight_before(weights, i + 1) && (i
            == 0 || draw > weight_before(weights, i))),
{
    lemma_weighted_index_is_first_hit(weights, draw);
    assert(weight_before(weights, i + 1) == weight_before(weights, i) + weights[i]);
    if draw <= weight_before(weights, i + 1) && (i == 0 || draw > weight_before(weights, i)) {
        assert forall|k: int| 0 <= k < i implies draw - weight_before(weights, k)
            > #[trigger] weights[k] by {
            assert(weight_before(weights, k + 1) == weight_before(weights, k) + weights[k]);
            lemma_weight_before_grows(weights, k + 1, i);
        }
        assert(is_first_hit(weights, draw, i));
        match weighted_index(weights, draw) {
            Some(j) => {
                if j < i {
                    assert(draw - weight_before(weights, j) > weights[j]);
                }
                if i < j {
                    assert(draw - weight_before(weights, i) > weights[i]);
                }
            },
            None => {
                assert(draw - weight_before(weights, i) > weights[i]);
            },
        }
    }
    if weighted_index(weights, draw) == Some(i) {
        assert(is_first_hit(weights, draw, i));
        if i > 0 {
            assert(draw - weight_before(weights, i - 1) > weights[i - 1]);
            assert(weight_before(weights, i) == weight_before(weights, i - 1) + weights[i - 1]);
        }
    }
}

/// The sum of the weights of a list of weighted entries.
pub fn sum_weights<T>(entries: &Vec<(T, u32)>) -> (total: u128)
    ensures
        total == total_weight(weights_of(entries@)),
{
    let ghost weights = weights_of(entries@);
    let mut total: u128 = 0;
    let mut i: usize = 0;
    while i < entries.len()
        invariant
            i <= entries.len(),
            weights == weights_of(entries@),
            total == weight_before(weights, i as int),
            total <= i * 0xffff_ffff,
        decreases entries.len() - i,
    {
        total = total + entries[i].1 as u128;
        i = i + 1;
    }
    total
}

/// Walks the list with the given draw and says which entry it picks, if
/// any.
pub fn weighted_pick<T>(entries: &Vec<(T, u32)>, draw: u128) -> (r: Option<usize>)
    ensures
        match r {
            Some(i) => weighted_index(weights_of(entries@), draw as int) == Some(i as int),
            None => weighted_index(weights_of(entries@), draw as int).is_none(),
        },
        r.is_some() ==> r.unwrap() < entries@.len(),
{
    let ghost weights = weights_of(entries@);
    let mut left: u128 = draw;
    let mut i: usize = 0;
    while i < entries.len()
        invariant
            i <= entries.len(),
            weights == weights_of(entries@),
            walk_from(weights, left as int, i as int) == weighted_index(weights, draw as int),
        decreases entries.len() - i,
    {
        let weight: u128 = entries[i].1 as u128;
        if left <= weight {
            return Some(i);
        }
        left = left - weight;
        i = i + 1;
    }
    None
}

} // verus!
