//! Line sampler bookkeeping for elevation profiles.
//!
//! Sampling along a polyline, the shell reads one raster value per sample
//! and classifies it valid or invalid (nodata or out of the raster). The
//! decisions verified here: rejecting a zero-length line before any raster
//! work, and selecting the pairs of samples between which elevation gain
//! and loss accumulate. An invalid sample breaks the previous-elevation
//! chain, so no gain/loss delta ever spans a gap.

use vstd::prelude::*;

verus! {

/// Every waypoint coincides with the first: the polyline has zero length.
pub open spec fn all_waypoints_equal(coords: Seq<(i32, i32)>) -> bool {
    forall|i: int| 0 <= i < coords.len() ==> #[trigger] coords[i] == coords[0]
}

/// Gate for profile sampling over pixel-space waypoints. A polyline with
/// fewer than two waypoints, or with all waypoints identical, has total
/// length zero and is rejected with an explicit input error before any
/// raster I/O.
///
/// The Euclidean length of a polyline with integer waypoints is zero
/// exactly when every segment's endpoints coincide, so this integer test
/// agrees with the zero-total-distance test on the summed segment lengths.
pub fn check_pixel_line(coords: &Vec<(i32, i32)>) -> (r: Result<(), String>)
    ensures
        r is Err <==> (coords@.len() < 2 || all_waypoints_equal(coords@)),
        r is Err ==> r.unwrap_err()@ == "Line has zero length"@,
{
    let n = coords.len();
    if n < 2 {
        return Err("Line has zero length".to_string());
    }
    let first = coords[0];
    let mut i: usize = 1;
    while i < n
        invariant
            1 <= i <= n,
            n == coords@.len(),
            first == coords@[0],
            forall|k: int| 0 <= k < i ==> #[trigger] coords@[k] == coords@[0],
        decreases n - i,
    {
        let c = coords[i];
        if c.0 != first.0 || c.1 != first.1 {
            assert(coords@[i as int] != coords@[0]);
            return Ok(());
        }
        i = i + 1;
    }
    Err("Line has zero length".to_string())
}

/// The index pairs between which gain/loss deltas are taken: each pair of
/// adjacent samples that are both valid. An invalid sample breaks the
/// previous-elevation chain and resets it at the next valid sample, so no
/// pair spans a gap.
pub open spec fn spec_gain_loss_pairs(valid: Seq<bool>, i: int) -> Seq<(int, int)>
    decreases valid.len() - i,
{
    if i < 0 || i + 1 >= valid.len() {
        Seq::empty()
    } else if valid[i] && valid[i + 1] {
        seq![(i, i + 1)] + spec_gain_loss_pairs(valid, i + 1)
    } else {
        spec_gain_loss_pairs(valid, i + 1)
    }
}

/// Samples `p` and `p + 1` are both valid.
pub open spec fn adjacent_valid_pair(valid: Seq<bool>, p: int) -> bool {
    0 <= p && p + 1 < valid.len() && valid[p] && valid[p + 1]
}

/// Gain and loss accumulate exactly between adjacent valid samples: every
/// selected pair is some (p, p + 1) with both samples valid, and every
/// adjacent valid pair from `i` on is selected. In particular no selected
/// pair spans an invalid sample.
pub proof fn lemma_gain_loss_pairs_exactly_adjacent(valid: Seq<bool>, i: int)
    requires
        0 <= i <= valid.len(),
    ensures
        forall|k: int|
            0 <= k < spec_gain_loss_pairs(valid, i).len() ==> (
            #[trigger] spec_gain_loss_pairs(valid, i)[k]).1 == spec_gain_loss_pairs(valid, i)[k].0
                + 1 && i <= spec_gain_loss_pairs(valid, i)[k].0 && adjacent_valid_pair(
                valid,
                spec_gain_loss_pairs(valid, i)[k].0,
            ),
        forall|j: int|
            i <= j && #[trigger] adjacent_valid_pair(valid, j) ==> spec_gain_loss_pairs(
                valid,
                i,
            ).contains((j, j + 1)),
    decreases valid.len() - i,
{
    if i + 1 < valid.len() {
        lemma_gain_loss_pairs_exactly_adjacent(valid, i + 1);
        let cur = spec_gain_loss_pairs(valid, i);
        let rest = spec_gain_loss_pairs(valid, i + 1);
        if valid[i] && valid[i + 1] {
            assert(cur == seq![(i, i + 1)] + rest);
            assert forall|k: int| 0 <= k < cur.len() implies cur[k].1 == cur[k].0 + 1 && i
                <= cur[k].0 && adjacent_valid_pair(valid, cur[k].0) by {
                if k == 0 {
                    assert(cur[0] == (i, i + 1));
                } else {
                    assert(cur[k] == rest[k - 1]);
                }
            }
            assert forall|j: int| i <= j && adjacent_valid_pair(valid, j) implies cur.contains(
                (j, j + 1),
            ) by {
                if j == i {
                    assert(cur[0] == (i, i + 1));
                } else {
                    assert(rest.contains((j, j + 1)));
                    let k = choose|k: int| 0 <= k < rest.len() && rest[k] == (j, j + 1);
                    assert(cur[k + 1] == (j, j + 1));
                }
            }
        } else {
            assert(cur =~= rest);
            assert forall|j: int| i <= j && adjacent_valid_pair(valid, j) implies cur.contains(
                (j, j + 1),
            ) by {
                assert(j != i);
                assert(rest.contains((j, j + 1)));
            }
        }
    }
}

/// Select the sample-index pairs between which the shell takes gain/loss
/// deltas: every adjacent pair of valid samples. An invalid sample breaks
/// the previous-elevation chain, so a delta never spans a gap.
pub fn gain_loss_pairs(valid: &Vec<bool>) -> (pairs: Vec<(usize, usize)>)
    ensures
        pairs@.len() == spec_gain_loss_pairs(valid@, 0).len(),
        forall|k: int|
            0 <= k < pairs@.len() ==> (pairs@[k].0 as int, pairs@[k].1 as int)
                == spec_gain_loss_pairs(valid@, 0)[k],
{
    let n = valid.len();
    let mut pairs: Vec<(usize, usize)> = Vec::new();
    if n < 2 {
        proof {
            assert(spec_gain_loss_pairs(valid@, 0) =~= Seq::<(int, int)>::empty());
            assert(pairs@.map_values(|pr: (usize, usize)| (pr.0 as int, pr.1 as int)).len() == 0);
        }
        return pairs;
    }
    let mut i: usize = 0;
    while i < n - 1
        invariant
            2 <= n,
            i <= n - 1,
            n == valid@.len(),
            spec_gain_loss_pairs(valid@, 0) == pairs@.map_values(
                |pr: (usize, usize)| (pr.0 as int, pr.1 as int),
            ) + spec_gain_loss_pairs(valid@, i as int),
        decreases n - i,
    {
        if valid[i] && valid[i + 1] {
            pairs.push((i, i + 1));
            proof {
                assert(pairs@.map_values(|pr: (usize, usize)| (pr.0 as int, pr.1 as int))
                    =~= pairs@.drop_last().map_values(
                    |pr: (usize, usize)| (pr.0 as int, pr.1 as int),
                ) + seq![(i as int, i + 1 as int)]);
            }
        }
        i = i + 1;
    }
    proof {
        assert(spec_gain_loss_pairs(valid@, i as int) =~= Seq::<(int, int)>::empty());
        assert(pairs@.map_values(|pr: (usize, usize)| (pr.0 as int, pr.1 as int)).len()
            == pairs@.len());
    }
    pairs
}

} // verus!
