//! Histogram bin counting.
//!
//! The unverified shell classifies each sampled value: `None` for a value
//! that is skipped (nodata, or outside the requested range), `Some(i)` for
//! a value whose raw bin index is `i`. This module clamps raw indices to
//! the last bin and counts the samples per bin. The bin edges themselves
//! are floating-point values and are computed by the shell.

use vstd::prelude::*;

verus! {

/// The bin a classified sample lands in: raw indices at or beyond the last
/// bin clamp to the last bin.
pub open spec fn clamped_bin(c: Option<usize>, bin_count: nat) -> Option<int>
    recommends
        bin_count >= 1,
{
    match c {
        Some(idx) => Some(
            if idx < bin_count - 1 {
                idx as int
            } else {
                bin_count - 1
            },
        ),
        None => None,
    }
}

/// How many samples of `cls` land in bin `j`.
pub open spec fn count_in_bin(cls: Seq<Option<usize>>, bin_count: nat, j: int) -> nat
    decreases cls.len(),
{
    if cls.len() == 0 {
        0
    } else {
        count_in_bin(cls.drop_last(), bin_count, j) + if clamped_bin(cls.last(), bin_count)
            == Some(j) {
            1nat
        } else {
            0nat
        }
    }
}

/// How many samples of `cls` are classified at all.
pub open spec fn count_valid(cls: Seq<Option<usize>>) -> nat
    decreases cls.len(),
{
    if cls.len() == 0 {
        0
    } else {
        count_valid(cls.drop_last()) + if cls.last() is Some {
            1nat
        } else {
            0nat
        }
    }
}

/// The total of the first `j` bin counts.
pub open spec fn sum_bins(cls: Seq<Option<usize>>, bin_count: nat, j: nat) -> nat
    decreases j,
{
    if j == 0 {
        0
    } else {
        sum_bins(cls, bin_count, (j - 1) as nat) + count_in_bin(cls, bin_count, j - 1)
    }
}

proof fn lemma_sum_bins_empty(cls: Seq<Option<usize>>, bin_count: nat, j: nat)
    requires
        cls.len() == 0,
    ensures
        sum_bins(cls, bin_count, j) == 0,
    decreases j,
{
    if j > 0 {
        lemma_sum_bins_empty(cls, bin_count, (j - 1) as nat);
    }
}

proof fn lemma_sum_bins_drop_last(cls: Seq<Option<usize>>, bin_count: nat, j: nat)
    requires
        cls.len() > 0,
    ensures
        sum_bins(cls, bin_count, j) == sum_bins(cls.drop_last(), bin_count, j) + (
        match clamped_bin(cls.last(), bin_count) {
            Some(b) => if 0 <= b < j {
                1nat
            } else {
                0nat
            },
            None => 0nat,
        }),
    decreases j,
{
    if j > 0 {
        lemma_sum_bins_drop_last(cls, bin_count, (j - 1) as nat);
    }
}

/// The bin counts over any classification total exactly the number of
/// classified samples: no sample is dropped and none is counted twice.
pub proof fn lemma_counts_sum_to_valid(cls: Seq<Option<usize>>, bin_count: nat)
    requires
        bin_count >= 1,
    ensures
        sum_bins(cls, bin_count, bin_count) == count_valid(cls),
    decreases cls.len(),
{
    if cls.len() == 0 {
        lemma_sum_bins_empty(cls, bin_count, bin_count);
    } else {
        lemma_counts_sum_to_valid(cls.drop_last(), bin_count);
        lemma_sum_bins_drop_last(cls, bin_count, bin_count);
    }
}

/// When every classified sample has raw index 0 (the degenerate-range
/// case), bin 0 holds all classified samples and every other bin is empty.
pub proof fn lemma_degenerate_lands_in_bin_zero(cls: Seq<Option<usize>>, bin_count: nat)
    requires
        bin_count >= 1,
        forall|i: int| 0 <= i < cls.len() ==> (cls[i] is Some ==> cls[i] == Some(0usize)),
    ensures
        count_in_bin(cls, bin_count, 0) == count_valid(cls),
        forall|j: int| j != 0 ==> count_in_bin(cls, bin_count, j) == 0,
    decreases cls.len(),
{
    if cls.len() > 0 {
        assert forall|i: int|
            0 <= i < cls.drop_last().len() && cls.drop_last()[i] is Some implies cls.drop_last()[i]
            == Some(0usize) by {
            assert(cls.drop_last()[i] == cls[i]);
        }
        lemma_degenerate_lands_in_bin_zero(cls.drop_last(), bin_count);
        assert(cls.last() == cls[cls.len() - 1]);
        assert forall|j: int| j != 0 implies count_in_bin(cls, bin_count, j) == 0 by {
            assert(count_in_bin(cls.drop_last(), bin_count, j) == 0);
            assert(clamped_bin(cls.last(), bin_count) != Some(j));
            assert(count_in_bin(cls, bin_count, j) == count_in_bin(cls.drop_last(), bin_count, j));
        }
    }
}

/// Count classified samples into `bin_count` bins, clamping raw indices to
/// the last bin. The counts sum to the number of classified samples.
pub fn histogram_counts(classes: &Vec<Option<usize>>, bin_count: usize) -> (counts: Vec<u64>)
    requires
        bin_count >= 1,
    ensures
        counts@.len() == bin_count,
        forall|j: int|
            0 <= j < bin_count ==> counts@[j] == count_in_bin(
                classes@,
                bin_count as nat,
                j,
            ),
        sum_bins(classes@, bin_count as nat, bin_count as nat) == count_valid(classes@),
{
    let mut counts: Vec<u64> = Vec::new();
    let mut k: usize = 0;
    while k < bin_count
        invariant
            k <= bin_count,
            counts@.len() == k,
            forall|j: int| 0 <= j < k ==> counts@[j] == 0,
        decreases bin_count - k,
    {
        counts.push(0u64);
        k = k + 1;
    }
    let n = classes.len();
    let mut i: usize = 0;
    while i < n
        invariant
            i <= n,
            n == classes@.len(),
            bin_count >= 1,
            counts@.len() == bin_count,
            forall|j: int|
                0 <= j < bin_count ==> counts@[j] == count_in_bin(
                    classes@.take(i as int),
                    bin_count as nat,
                    j,
                ),
            forall|j: int| 0 <= j < bin_count ==> counts@[j] <= i,
        decreases n - i,
    {
        let ghost prefix = classes@.take(i as int);
        match classes[i] {
            Some(idx) => {
                let b = if idx < bin_count - 1 {
                    idx
                } else {
                    bin_count - 1
                };
                let old_c = counts[b];
                counts.set(b, old_c + 1);
            },
            None => {},
        }
        proof {
            assert(classes@.take(i + 1).drop_last() =~= prefix);
            assert(classes@.take(i + 1).last() == classes@[i as int]);
        }
        i = i + 1;
    }
    proof {
        assert(classes@.take(n as int) =~= classes@);
        lemma_counts_sum_to_valid(classes@, bin_count as nat);
    }
    counts
}

/// The bin counts of a degenerate range (max == min): every valid sample
/// lands in bin 0, every other bin is zero. The shell counts the valid
/// (non-nodata) samples and passes the tally in.
pub fn degenerate_histogram_counts(valid_count: u64, bin_count: usize) -> (counts: Vec<u64>)
    requires
        bin_count >= 1,
    ensures
        counts@.len() == bin_count,
        counts@[0] == valid_count,
        forall|j: int| 1 <= j < bin_count ==> counts@[j] == 0,
{
    let mut counts: Vec<u64> = Vec::new();
    counts.push(valid_count);
    let mut k: usize = 1;
    while k < bin_count
        invariant
            1 <= k <= bin_count || (bin_count < 1 && k == 1),
            counts@.len() == k,
            counts@[0] == valid_count,
            forall|j: int| 1 <= j < k ==> counts@[j] == 0,
        decreases bin_count - k,
    {
        counts.push(0u64);
        k = k + 1;
    }
    counts
}

} // verus!
