//! The post-pass bucket selector.
//!
//! After the pass, every mixing bucket holds eight accumulated fixed-point
//! bit costs, one per model variant. Walking the buckets in index order,
//! the selector applies fixed penalties to the coarse and the disabled
//! stride variant, then runs a biased cascade: the advanced model wins only
//! if it beats everything by more than the bias, then the slow variant,
//! then the fast one, then the cheapest stride lag, else the baseline. A
//! bucket that accumulated no stride cost at all was never visited; it
//! receives the most popular choice among the buckets processed before it.

use crate::context_map::NUM_MIXING_VALUES;
use crate::models::NUM_PRIORS;
use vstd::prelude::*;

verus! {

/// Selection bias: a candidate must win by more than 6 bits (in 1/256-bit
/// units) to displace a lower-priority model.
pub const EPSILON: u64 = 1536;

/// Fixed cost penalty (16 bits) charged to the under-fit fast variant and
/// to the disabled stride slot during selection.
pub const PENALTY: u64 = 4096;

/// Total number of score lanes: one per mixing bucket and model variant.
pub const SCORE_SIZE: usize = NUM_MIXING_VALUES * NUM_PRIORS;

/// Largest value one accumulated score lane can carry when the evaluator's
/// literal limit is respected; leaves room for the selection penalties.
pub const LANE_BOUND: u64 = 0x10_0000_0000_0000;

/// The smaller of two values.
pub open spec fn imin(a: int, b: int) -> int {
    if a <= b {
        a
    } else {
        b
    }
}

/// One score lane of one bucket.
pub open spec fn spec_lane(scores: Seq<u64>, i: int, w: int) -> int {
    scores[8 * i + w] as int
}

/// The stride candidate score of a bucket: the cheapest of the four
/// stride-lag lanes, the third one penalized as disabled.
pub open spec fn spec_stride_score(scores: Seq<u64>, i: int) -> int {
    imin(
        imin(spec_lane(scores, i, 4), spec_lane(scores, i, 5)),
        imin(spec_lane(scores, i, 6) + PENALTY, spec_lane(scores, i, 7)),
    )
}

/// The biased selection cascade of one bucket, in priority order: advanced
/// model, slow variant, fast variant, cheapest stride lag (ties resolved
/// toward the shortest lag), else baseline. Labels are the model ordinals.
pub open spec fn spec_cascade(scores: Seq<u64>, i: int) -> u8 {
    let cm = spec_lane(scores, i, 0);
    let adv = spec_lane(scores, i, 1);
    let slow = spec_lane(scores, i, 2);
    let fast = spec_lane(scores, i, 3) + PENALTY;
    let s1 = spec_lane(scores, i, 4);
    let s2 = spec_lane(scores, i, 5);
    let s3 = spec_lane(scores, i, 6) + PENALTY;
    let s4 = spec_lane(scores, i, 7);
    let stride = spec_stride_score(scores, i);
    if adv + EPSILON < stride && adv + EPSILON < cm && adv + EPSILON < slow && adv + EPSILON
        < fast {
        1
    } else if slow + EPSILON < stride && slow + EPSILON < cm && slow + EPSILON < fast {
        2
    } else if fast + EPSILON < stride && fast + EPSILON < cm {
        3
    } else if EPSILON + stride < cm {
        if stride == s1 {
            4
        } else if stride == s2 {
            5
        } else if stride == s3 {
            6
        } else {
            7
        }
    } else {
        0
    }
}

/// The running popularity state after the first `upto` buckets: per-label
/// counts, the count of the running mode, and the running mode itself
/// (the baseline before any bucket contributed).
pub open spec fn spec_select_state(scores: Seq<u64>, upto: int) -> (Seq<int>, int, u8)
    decreases upto,
{
    if upto <= 0 {
        (Seq::new(8, |k: int| 0int), 0int, 0u8)
    } else {
        let prev = spec_select_state(scores, upto - 1);
        let i = upto - 1;
        if spec_stride_score(scores, i) == 0 {
            prev
        } else {
            let lab = spec_cascade(scores, i) as int;
            let pops = prev.0.update(lab, prev.0[lab] + 1);
            if pops[lab] > prev.1 {
                (pops, pops[lab], spec_cascade(scores, i))
            } else {
                (pops, prev.1, prev.2)
            }
        }
    }
}

/// The label the selector assigns to bucket `i`: the cascade's choice, or
/// the mode of the earlier buckets where no stride cost was accumulated.
pub open spec fn spec_bucket_label(scores: Seq<u64>, i: int) -> u8 {
    if spec_stride_score(scores, i) == 0 {
        spec_select_state(scores, i).2
    } else {
        spec_cascade(scores, i)
    }
}

/// The whole selection array: one label per mixing bucket, zero (the
/// baseline) for every bucket past the scored range.
pub open spec fn spec_mixing_values(scores: Seq<u64>) -> Seq<u8> {
    Seq::new(
        NUM_MIXING_VALUES as nat,
        |i: int|
            if i < scores.len() / 8 {
                spec_bucket_label(scores, i)
            } else {
                0u8
            },
    )
}

/// Selection range: every label the cascade can produce is a model ordinal.
pub proof fn lemma_cascade_range(scores: Seq<u64>, i: int)
    ensures
        spec_cascade(scores, i) < 8,
{
}

/// The running popularity state is internally consistent: the counts and
/// the mode's count only grow, every label's count is at most the mode's
/// count, the mode's count is exactly the count of the mode label (or
/// zero, for the initial baseline default), and the mode is a model
/// ordinal. This is the no-data fallback guarantee: a bucket that falls
/// back receives a label that no earlier choice outnumbers.
pub proof fn lemma_mode_is_majority(scores: Seq<u64>, upto: int)
    requires
        0 <= upto,
    ensures
        forall|lab: int| 0 <= lab < 8 ==> spec_select_state(scores, upto).0[lab]
            <= spec_select_state(scores, upto).1,
        spec_select_state(scores, upto).1 == spec_select_state(scores, upto).0[spec_select_state(
            scores,
            upto,
        ).2 as int] || spec_select_state(scores, upto).1 == 0,
        spec_select_state(scores, upto).2 < 8,
        spec_select_state(scores, upto).0.len() == 8,
        forall|lab: int| 0 <= lab < 8 ==> 0 <= #[trigger] spec_select_state(scores, upto).0[lab]
            <= upto,
        0 <= spec_select_state(scores, upto).1 <= upto,
    decreases upto,
{
    if upto > 0 {
        lemma_mode_is_majority(scores, upto - 1);
    }
}

/// The stride candidate score of bucket `i`, as accumulated.
fn stride_score_of(scores: &Vec<u64>, i: usize) -> (r: u64)
    requires
        8 * i + 8 <= scores@.len(),
        scores@.len() <= SCORE_SIZE,
        forall|j: int| 0 <= j < scores@.len() ==> #[trigger] scores@[j] <= LANE_BOUND,
    ensures
        r as int == spec_stride_score(scores@, i as int),
{
    let s1 = scores[8 * i + 4];
    let s2 = scores[8 * i + 5];
    let s3 = scores[8 * i + 6] + PENALTY;
    let s4 = scores[8 * i + 7];
    let a = if s1 <= s2 {
        s1
    } else {
        s2
    };
    let b = if s3 <= s4 {
        s3
    } else {
        s4
    };
    if a <= b {
        a
    } else {
        b
    }
}

/// The cascade's choice for bucket `i`.
fn cascade_of(scores: &Vec<u64>, i: usize) -> (lab: u8)
    requires
        8 * i + 8 <= scores@.len(),
        scores@.len() <= SCORE_SIZE,
        forall|j: int| 0 <= j < scores@.len() ==> #[trigger] scores@[j] <= LANE_BOUND,
    ensures
        lab == spec_cascade(scores@, i as int),
        lab < 8,
{
    let cm = scores[8 * i];
    let adv = scores[8 * i + 1];
    let slow = scores[8 * i + 2];
    let fast = scores[8 * i + 3] + PENALTY;
    let s1 = scores[8 * i + 4];
    let s2 = scores[8 * i + 5];
    let s3 = scores[8 * i + 6] + PENALTY;
    let s4 = scores[8 * i + 7];
    let stride = stride_score_of(scores, i);
    if adv + EPSILON < stride && adv + EPSILON < cm && adv + EPSILON < slow && adv + EPSILON
        < fast {
        1
    } else if slow + EPSILON < stride && slow + EPSILON < cm && slow + EPSILON < fast {
        2
    } else if fast + EPSILON < stride && fast + EPSILON < cm {
        3
    } else if EPSILON + stride < cm {
        if stride == s1 {
            4
        } else if stride == s2 {
            5
        } else if stride == s3 {
            6
        } else {
            7
        }
    } else {
        0
    }
}

/// Convert the accumulated per-bucket costs into one model label per
/// mixing bucket: the cascade's choice where the bucket was visited, the
/// running mode of the earlier choices where it was not, and the baseline
/// for buckets past the scored range.
pub fn choose_mixing_values(scores: &Vec<u64>) -> (bitmask: Vec<u8>)
    requires
        scores@.len() == SCORE_SIZE || scores@.len() == 0,
        forall|j: int| 0 <= j < scores@.len() ==> #[trigger] scores@[j] <= LANE_BOUND,
    ensures
        bitmask@ == spec_mixing_values(scores@),
        bitmask@.len() == NUM_MIXING_VALUES,
        forall|i: int| 0 <= i < NUM_MIXING_VALUES ==> #[trigger] bitmask@[i] < 8,
{
    let nb = scores.len() / 8;
    let mut bitmask: Vec<u8> = Vec::new();
    let mut k: usize = 0;
    while k < NUM_MIXING_VALUES
        invariant
            k <= NUM_MIXING_VALUES,
            bitmask@.len() == k,
            forall|i: int| 0 <= i < k ==> #[trigger] bitmask@[i] == 0,
        decreases NUM_MIXING_VALUES - k,
    {
        bitmask.push(0);
        k = k + 1;
    }
    let mut popularity: Vec<u32> = vec![0, 0, 0, 0, 0, 0, 0, 0];
    let mut max_popularity: u32 = 0;
    let mut max_popularity_index: u8 = 0;
    proof {
        assert(popularity@ =~= seq![0u32, 0, 0, 0, 0, 0, 0, 0]);
        assert(popularity@.map_values(|p: u32| p as int) =~= spec_select_state(scores@, 0).0);
    }
    let mut i: usize = 0;
    while i < nb
        invariant
            i <= nb,
            nb == scores@.len() / 8,
            scores@.len() == SCORE_SIZE || scores@.len() == 0,
            8 * nb == scores@.len(),
            forall|j: int| 0 <= j < scores@.len() ==> #[trigger] scores@[j] <= LANE_BOUND,
            bitmask@.len() == NUM_MIXING_VALUES,
            popularity@.len() == 8,
            forall|b: int| 0 <= b < i ==> #[trigger] bitmask@[b] == spec_bucket_label(scores@, b),
            forall|b: int| i <= b < NUM_MIXING_VALUES ==> #[trigger] bitmask@[b] == 0,
            popularity@.map_values(|p: u32| p as int) == spec_select_state(scores@, i as int).0,
            max_popularity as int == spec_select_state(scores@, i as int).1,
            max_popularity_index == spec_select_state(scores@, i as int).2,
            max_popularity_index < 8,
        decreases nb - i,
    {
        proof {
            lemma_mode_is_majority(scores@, i as int);
        }
        let stride_score = stride_score_of(scores, i);
        let lab = cascade_of(scores, i);
        if stride_score == 0 {
            bitmask.set(i, max_popularity_index);
        } else {
            bitmask.set(i, lab);
            proof {
                assert(popularity@.map_values(|p: u32| p as int)[lab as int]
                    == spec_select_state(scores@, i as int).0[lab as int]);
                assert(popularity@[lab as int] as int <= i as int);
            }
            let c = popularity[lab as usize] + 1;
            popularity.set(lab as usize, c);
            proof {
                assert(popularity@.map_values(|p: u32| p as int) =~= spec_select_state(
                    scores@,
                    i as int,
                ).0.update(lab as int, spec_select_state(scores@, i as int).0[lab as int] + 1));
            }
            if c > max_popularity {
                max_popularity = c;
                max_popularity_index = lab;
            }
        }
        i = i + 1;
    }
    proof {
        assert(bitmask@ =~= spec_mixing_values(scores@));
        assert forall|b: int| 0 <= b < NUM_MIXING_VALUES implies #[trigger] bitmask@[b] < 8 by {
            if b < nb && spec_stride_score(scores@, b) == 0 {
                lemma_mode_is_majority(scores@, b);
            }
        }
    }
    bitmask
}

} // verus!
