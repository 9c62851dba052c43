use vstd::prelude::*;
use crate::weight_bits::{greater, is_nan_bits, rank, weight_greater};
use crate::binary32::{encodes_finite, lemma_greater_is_numeric_order, scaled_value};

verus! {

/// Index kept by a left-to-right scan of the first `len` weights that starts at
/// index 0 and moves to a later index only when its weight is strictly greater.
pub open spec fn scan_best(weights: Seq<u32>, len: int) -> int
    decreases len,
{
    if len <= 1 {
        0
    } else {
        let b = scan_best(weights, len - 1);
        if greater(weights[len - 1], weights[b]) {
            len - 1
        } else {
            b
        }
    }
}

/// The index of the particle `map_particle` returns.
pub open spec fn map_index(weights: Seq<u32>) -> int {
    scan_best(weights, weights.len() as int)
}

/// No weight is NaN.
pub open spec fn no_nan(weights: Seq<u32>) -> bool {
    forall|i: int| 0 <= i < weights.len() ==> !is_nan_bits(#[trigger] weights[i])
}

/// `k` holds a largest weight, and no earlier index holds one as large.
pub open spec fn is_first_max(weights: Seq<u32>, k: int) -> bool {
    &&& 0 <= k < weights.len()
    &&& forall|i: int| 0 <= i < weights.len() ==> rank(#[trigger] weights[i]) <= rank(weights[k])
    &&& forall|i: int| 0 <= i < k ==> rank(#[trigger] weights[i]) < rank(weights[k])
}

proof fn lemma_scan_best_prefix(keys: Seq<u32>, len: int)
    requires
        0 <= len < keys.len(),
    ensures
        scan_best(keys, len) == scan_best(keys.drop_last(), len),
    decreases len,
{
    if len > 1 {
        lemma_scan_best_prefix(keys, len - 1);
        let b = scan_best(keys, len - 1);
        lemma_scan_best_range(keys, len - 1);
        assert(keys[len - 1] == keys.drop_last()[len - 1]);
        assert(keys[b] == keys.drop_last()[b]);
    }
}

proof fn lemma_scan_best_range(keys: Seq<u32>, len: int)
    requires
        1 <= len,
    ensures
        0 <= scan_best(keys, len) < len,
    decreases len,
{
    if len > 1 {
        lemma_scan_best_range(keys, len - 1);
    }
}

proof fn lemma_scan_best_first_max(weights: Seq<u32>, len: int)
    requires
        1 <= len <= weights.len(),
        no_nan(weights),
    ensures
        is_first_max(weights.take(len), scan_best(weights, len)),
    decreases len,
{
    if len > 1 {
        lemma_scan_best_first_max(weights, len - 1);
        assert(!is_nan_bits(weights[len - 1]));
    }
}

/// With no NaN among the weights, `map_particle` picks a largest weight, and among
/// equal largest weights the one with the lowest index.
pub proof fn lemma_map_index_is_first_max(weights: Seq<u32>)
    requires
        weights.len() > 0,
        no_nan(weights),
    ensures
        is_first_max(weights, map_index(weights)),
{
    lemma_scan_best_first_max(weights, weights.len() as int);
    assert(weights.take(weights.len() as int) =~= weights);
}

/// `keys` holds, slot by slot, bit patterns that `bits` gives for `weights`.
pub open spec fn read_as<W, F: Fn(&W) -> u32>(bits: F, weights: Seq<W>, keys: Seq<u32>) -> bool {
    &&& keys.len() == weights.len()
    &&& forall|i: int| 0 <= i < weights.len() ==> call_ensures(bits, (&weights[i],), #[trigger] keys[i])
}

/// With finite weights, `map_particle` picks a weight no other weight exceeds as a
/// number, and every earlier weight is a smaller number.
pub proof fn lemma_map_index_is_numeric_first_max(weights: Seq<u32>)
    requires
        weights.len() > 0,
        forall|i: int| 0 <= i < weights.len() ==> encodes_finite(#[trigger] weights[i]),
    ensures
        0 <= map_index(weights) < weights.len(),
        forall|i: int|
            0 <= i < weights.len() ==> scaled_value(#[trigger] weights[i]) <= scaled_value(
                weights[map_index(weights)],
            ),
        forall|i: int|
            0 <= i < map_index(weights) ==> scaled_value(#[trigger] weights[i]) < scaled_value(
                weights[map_index(weights)],
            ),
{
    let k = map_index(weights);
    assert forall|i: int| 0 <= i < weights.len() implies !is_nan_bits(#[trigger] weights[i]) by {
        crate::binary32::lemma_pattern_classes(weights[i]);
    }
    lemma_map_index_is_first_max(weights);
    assert forall|i: int| 0 <= i < weights.len() implies scaled_value(#[trigger] weights[i])
        <= scaled_value(weights[k]) by {
        lemma_greater_is_numeric_order(weights[i], weights[k]);
        crate::binary32::lemma_pattern_classes(weights[i]);
        crate::binary32::lemma_pattern_classes(weights[k]);
    }
    assert forall|i: int| 0 <= i < k implies scaled_value(#[trigger] weights[i]) < scaled_value(
        weights[k],
    ) by {
        lemma_greater_is_numeric_order(weights[k], weights[i]);
        crate::binary32::lemma_pattern_classes(weights[i]);
        crate::binary32::lemma_pattern_classes(weights[k]);
    }
}

/// A clone of the particle with the largest weight (the discrete MAP estimate),
/// ties broken by lower index. Each weight is read once, through `bits`, as its
/// binary32 bit pattern.
pub fn map_particle<S: Clone, W, F: Fn(&W) -> u32>(particles: &[S], weights: &[W], bits: F) -> (p: S)
    requires
        particles@.len() == weights@.len(),
        particles@.len() > 0,
        forall|w: &W| call_requires(bits, (w,)),
    ensures
        exists|keys: Seq<u32>|
            #[trigger] read_as(bits, weights@, keys) && 0 <= map_index(keys) < particles@.len()
                && cloned(particles@[map_index(keys)], p) && (no_nan(keys) ==> is_first_max(
                keys,
                map_index(keys),
            )),
{
    let n = weights.len();
    let mut best: usize = 0;
    let mut best_w: u32 = bits(&weights[0]);
    let ghost mut keys: Seq<u32> = seq![best_w];
    let mut i: usize = 1;
    while i < n
        invariant
            n == weights@.len(),
            1 <= i <= n,
            forall|w: &W| call_requires(bits, (w,)),
            read_as(bits, weights@.take(i as int), keys),
            best as int == scan_best(keys, i as int),
            0 <= best < i,
            best_w == keys[best as int],
        decreases n - i,
    {
        let w = bits(&weights[i]);
        proof {
            let old_keys = keys;
            keys = keys.push(w);
            assert(keys.drop_last() =~= old_keys);
            lemma_scan_best_prefix(keys, i as int);
            assert(keys[best as int] == best_w);
            assert(keys[i as int] == w);
            assert(weights@.take(i + 1) =~= weights@.take(i as int).push(weights@[i as int]));
        }
        if weight_greater(w, best_w) {
            best = i;
            best_w = w;
        }
        i = i + 1;
    }
    proof {
        assert(weights@.take(n as int) =~= weights@);
        if no_nan(keys) {
            lemma_map_index_is_first_max(keys);
        }
    }
    particles[best].clone()
}

} // verus!
