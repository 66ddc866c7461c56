//! The tournament driver.
//!
//! A `PriorEval` owns one prior table per model variant and one fixed-point
//! cost accumulator per mixing bucket and score lane. An upstream parser
//! pushes literal events at it; every model variant observes every literal
//! in the same fixed order, so the accumulated costs compare genuine
//! relative fit. After the pass the selector turns the accumulated costs
//! into one model label per bucket.

use crate::cdf::{
    cdf_wf, spec_cdf_update, spec_cost, spec_init_cdf, valid_speed, CDF, DEFAULT_SPEED,
};
use crate::context_map::{EncoderParams, PredictionModeContextMap, NUM_MIXING_VALUES};
use crate::models::{
    lower_score_index, spec_adv_lookup, spec_cm_lookup, spec_fast_cm_lookup,
    spec_lower_score_index, spec_stride_lookup, spec_upper_score_index, upper_score_index,
    AdvPrior, CMPrior, FastCMPrior, Prior, SlowCMPrior, Stride1Prior, Stride2Prior, Stride3Prior,
    Stride4Prior, ADV_PRIOR_SIZE, CONTEXT_MAP_PRIOR_SIZE, NUM_PRIORS, STRIDE_PRIOR_SIZE,
};
use crate::select::{choose_mixing_values, spec_mixing_values, LANE_BOUND, SCORE_SIZE};
use vstd::prelude::*;

verus! {

/// Fixed adaptation speed of the near-static slow context model.
pub const SLOW_CM_SPEED: (u16, u16) = (0, 1024);

/// Most literals one evaluator accepts in a single pass; keeps the 64-bit
/// score accumulators comfortably clear of overflow.
pub const LITERAL_LIMIT: u64 = 0x100_0000_0000;

/// Mathematical view of one prior table.
pub open spec fn table_view(t: Seq<CDF>) -> Seq<Seq<u16>> {
    Seq::new(t.len(), |i: int| t[i]@)
}

/// Every distribution of the table is well-formed.
pub open spec fn tablev_wf(t: Seq<Seq<u16>>) -> bool {
    forall|i: int| 0 <= i < t.len() ==> cdf_wf(#[trigger] t[i])
}

/// Both stages of one literal against one table: the unconditioned slot is
/// updated with the high nibble first, then the conditioned slot with the
/// low nibble.
pub open spec fn spec_two_updates(
    t: Seq<Seq<u16>>,
    hi: int,
    hn: u8,
    hs: (u16, u16),
    lo: int,
    ln: u8,
    ls: (u16, u16),
) -> Seq<Seq<u16>> {
    let t1 = t.update(hi, spec_cdf_update(t[hi], hn, hs));
    t1.update(lo, spec_cdf_update(t1[lo], ln, ls))
}

/// Index into the 8-deep stride-history ring, `back` positions behind
/// `offset`, with wraparound.
pub open spec fn spec_ring_index(offset: int, back: int) -> int {
    ((offset % 8) + 8 - (back % 8)) % 8
}

/// Resolution of one configured speed pair through its priority chain:
/// context-map-provided value, else configuration value, else the given
/// fallback, where `(0, 0)` means unset.
pub open spec fn spec_resolve_speed(
    primary: (u16, u16),
    secondary: (u16, u16),
    fallback: (u16, u16),
) -> (u16, u16) {
    if primary != ((0u16, 0u16)) {
        primary
    } else if secondary != ((0u16, 0u16)) {
        secondary
    } else {
        fallback
    }
}

/// Mathematical state of a whole evaluator.
#[verifier::ext_equal]
pub struct EvalState {
    pub cm: Seq<Seq<u16>>,
    pub slow_cm: Seq<Seq<u16>>,
    pub fast_cm: Seq<Seq<u16>>,
    pub stride1: Seq<Seq<u16>>,
    pub stride2: Seq<Seq<u16>>,
    pub stride3: Seq<Seq<u16>>,
    pub stride4: Seq<Seq<u16>>,
    pub adv: Seq<Seq<u16>>,
    pub score: Seq<u64>,
    pub cm_speed_low: (u16, u16),
    pub cm_speed_high: (u16, u16),
    pub stride_speed_low: (u16, u16),
    pub stride_speed_high: (u16, u16),
    pub block_type: u8,
    pub cur_stride: u8,
    pub local_byte_offset: int,
    pub literals_seen: int,
    pub input: Seq<u8>,
    pub stride_pyramid_leaves: Seq<u8>,
    pub cmap_literal_context_map: Seq<u8>,
    pub cmap_literal_prediction_mode: u8,
    pub cmap_cm_speed_low: (u16, u16),
    pub cmap_cm_speed_high: (u16, u16),
    pub cmap_stride_speed_low: (u16, u16),
    pub cmap_stride_speed_high: (u16, u16),
    pub cmap_mixing_values: Seq<u8>,
}

/// Whether the large tables were allocated (bitmask detection enabled).
pub open spec fn eval_enabled(s: EvalState) -> bool {
    s.cm.len() == CONTEXT_MAP_PRIOR_SIZE
}

/// Evaluator invariant: the tables are either all fully sized or all
/// empty, every distribution is well-formed, the resolved speeds are
/// valid, and every score lane is bounded by the literals seen so far.
pub open spec fn eval_wf(s: EvalState) -> bool {
    &&& valid_speed(s.cm_speed_low)
    &&& valid_speed(s.cm_speed_high)
    &&& valid_speed(s.stride_speed_low)
    &&& valid_speed(s.stride_speed_high)
    &&& 0 <= s.literals_seen <= LITERAL_LIMIT
    &&& 0 <= s.local_byte_offset
    &&& if eval_enabled(s) {
        &&& s.slow_cm.len() == CONTEXT_MAP_PRIOR_SIZE
        &&& s.fast_cm.len() == CONTEXT_MAP_PRIOR_SIZE
        &&& s.stride1.len() == STRIDE_PRIOR_SIZE
        &&& s.stride2.len() == STRIDE_PRIOR_SIZE
        &&& s.stride3.len() == STRIDE_PRIOR_SIZE
        &&& s.stride4.len() == STRIDE_PRIOR_SIZE
        &&& s.adv.len() == ADV_PRIOR_SIZE
        &&& s.score.len() == SCORE_SIZE
    } else {
        &&& s.cm.len() == 0
        &&& s.slow_cm.len() == 0
        &&& s.fast_cm.len() == 0
        &&& s.stride1.len() == 0
        &&& s.stride2.len() == 0
        &&& s.stride3.len() == 0
        &&& s.stride4.len() == 0
        &&& s.adv.len() == 0
        &&& s.score.len() == 0
    }
    &&& tablev_wf(s.cm)
    &&& tablev_wf(s.slow_cm)
    &&& tablev_wf(s.fast_cm)
    &&& tablev_wf(s.stride1)
    &&& tablev_wf(s.stride2)
    &&& tablev_wf(s.stride3)
    &&& tablev_wf(s.stride4)
    &&& tablev_wf(s.adv)
    &&& forall|j: int| 0 <= j < s.score.len() ==> #[trigger] s.score[j] <= 4096 * s.literals_seen
}

/// The shadow evaluator: one prior table per model variant, one fixed-point
/// score accumulator per mixing bucket and lane, the resolved adaptation
/// speeds, and the borrowed context-map collaborator.
pub struct PriorEval {
    input: Vec<u8>,
    context_map: PredictionModeContextMap,
    block_type: u8,
    local_byte_offset: usize,
    cm_priors: Vec<CDF>,
    slow_cm_priors: Vec<CDF>,
    fast_cm_priors: Vec<CDF>,
    stride_priors_1: Vec<CDF>,
    stride_priors_2: Vec<CDF>,
    stride_priors_3: Vec<CDF>,
    stride_priors_4: Vec<CDF>,
    adv_priors: Vec<CDF>,
    stride_pyramid_leaves: Vec<u8>,
    score: Vec<u64>,
    cm_speed_low: (u16, u16),
    cm_speed_high: (u16, u16),
    stride_speed_low: (u16, u16),
    stride_speed_high: (u16, u16),
    cur_stride: u8,
    literals_seen: u64,
}

impl View for PriorEval {
    type V = EvalState;

    closed spec fn view(&self) -> EvalState {
        EvalState {
            cm: table_view(self.cm_priors@),
            slow_cm: table_view(self.slow_cm_priors@),
            fast_cm: table_view(self.fast_cm_priors@),
            stride1: table_view(self.stride_priors_1@),
            stride2: table_view(self.stride_priors_2@),
            stride3: table_view(self.stride_priors_3@),
            stride4: table_view(self.stride_priors_4@),
            adv: table_view(self.adv_priors@),
            score: self.score@,
            cm_speed_low: self.cm_speed_low,
            cm_speed_high: self.cm_speed_high,
            stride_speed_low: self.stride_speed_low,
            stride_speed_high: self.stride_speed_high,
            block_type: self.block_type,
            cur_stride: self.cur_stride,
            local_byte_offset: self.local_byte_offset as int,
            literals_seen: self.literals_seen as int,
            input: self.input@,
            stride_pyramid_leaves: self.stride_pyramid_leaves@,
            cmap_literal_context_map: self.context_map.literal_context_map@,
            cmap_literal_prediction_mode: self.context_map.literal_prediction_mode,
            cmap_cm_speed_low: self.context_map.cm_speed_low,
            cmap_cm_speed_high: self.context_map.cm_speed_high,
            cmap_stride_speed_low: self.context_map.stride_speed_low,
            cmap_stride_speed_high: self.context_map.stride_speed_high,
            cmap_mixing_values: self.context_map.mixing_values@,
        }
    }
}

/// A freshly allocated prior table of `n` uniform distributions.
fn alloc_table(n: usize) -> (t: Vec<CDF>)
    ensures
        t@.len() == n,
        forall|i: int| 0 <= i < n ==> #[trigger] table_view(t@)[i] == spec_init_cdf(),
        tablev_wf(table_view(t@)),
{
    let mut t: Vec<CDF> = Vec::new();
    let mut i: usize = 0;
    while i < n
        invariant
            i <= n,
            t@.len() == i,
            forall|j: int| 0 <= j < i ==> #[trigger] t@[j]@ == spec_init_cdf(),
            forall|j: int| 0 <= j < i ==> cdf_wf(#[trigger] t@[j]@),
        decreases n - i,
    {
        t.push(CDF::new_uniform());
        i = i + 1;
    }
    proof {
        assert(forall|i: int| 0 <= i < n ==> table_view(t@)[i] == t@[i]@);
    }
    t
}

/// A zeroed score accumulator of `n` lanes.
fn alloc_scores(n: usize) -> (s: Vec<u64>)
    ensures
        s@.len() == n,
        forall|j: int| 0 <= j < n ==> #[trigger] s@[j] == 0,
{
    let mut s: Vec<u64> = Vec::new();
    let mut i: usize = 0;
    while i < n
        invariant
            i <= n,
            s@.len() == i,
            forall|j: int| 0 <= j < i ==> #[trigger] s@[j] == 0,
        decreases n - i,
    {
        s.push(0);
        i = i + 1;
    }
    s
}

/// One speed pair resolved through its priority chain.
fn resolve_speed(primary: (u16, u16), secondary: (u16, u16), fallback: (u16, u16)) -> (r: (
    u16,
    u16,
))
    ensures
        r == spec_resolve_speed(primary, secondary, fallback),
{
    if primary.0 != 0 || primary.1 != 0 {
        primary
    } else if secondary.0 != 0 || secondary.1 != 0 {
        secondary
    } else {
        fallback
    }
}

/// Byte `back` positions behind `offset` in the 8-deep stride-history ring.
fn ring_lookup(stride_prior: &[u8; 8], offset: usize, back: usize) -> (r: u8)
    ensures
        r == stride_prior@[spec_ring_index(offset as int, back as int)],
{
    let idx = ((offset % 8) + 8 - (back % 8)) % 8;
    stride_prior[idx]
}

/// Look up one distribution slot, price the observed nibble under it, then
/// update it with that nibble at the given speed.
fn cdf_cost_update(table: &mut Vec<CDF>, index: usize, nibble: u8, speed: (u16, u16)) -> (c: u32)
    requires
        tablev_wf(table_view(old(table)@)),
        index < old(table)@.len(),
        nibble < 16,
        valid_speed(speed),
    ensures
        final(table)@.len() == old(table)@.len(),
        table_view(final(table)@) == table_view(old(table)@).update(
            index as int,
            spec_cdf_update(old(table)@[index as int]@, nibble, speed),
        ),
        tablev_wf(table_view(final(table)@)),
        c as int == spec_cost(old(table)@[index as int]@, nibble),
        c <= 4095,
{
    proof {
        assert(table_view(table@)[index as int] == table@[index as int]@);
        assert(cdf_wf(table@[index as int]@));
    }
    let mut d = table[index].clone();
    let c = d.cost(nibble);
    d.update(nibble, speed);
    table.set(index, d);
    proof {
        assert(table_view(table@) =~= table_view(old(table)@).update(
            index as int,
            spec_cdf_update(old(table)@[index as int]@, nibble, speed),
        ));
    }
    c
}

/// Both coding stages of one literal against one prior table: price and
/// observe the high nibble at the unconditioned slot, then price and
/// observe the low nibble at the conditioned slot.
fn cdf_two_stage(
    table: &mut Vec<CDF>,
    hi: usize,
    lo: usize,
    h: u8,
    l: u8,
    hs: (u16, u16),
    ls: (u16, u16),
) -> (c: (u32, u32))
    requires
        tablev_wf(table_view(old(table)@)),
        hi < old(table)@.len(),
        lo < old(table)@.len(),
        hi != lo,
        h < 16,
        l < 16,
        valid_speed(hs),
        valid_speed(ls),
    ensures
        final(table)@.len() == old(table)@.len(),
        table_view(final(table)@) == spec_two_updates(
            table_view(old(table)@),
            hi as int,
            h,
            hs,
            lo as int,
            l,
            ls,
        ),
        tablev_wf(table_view(final(table)@)),
        c.0 as int == spec_cost(table_view(old(table)@)[hi as int], h),
        c.1 as int == spec_cost(table_view(old(table)@)[lo as int], l),
        c.0 <= 4095,
        c.1 <= 4095,
{
    let ghost t0 = table_view(table@);
    let hc = cdf_cost_update(table, hi, h, hs);
    let ghost t1 = table_view(table@);
    let lc = cdf_cost_update(table, lo, l, ls);
    proof {
        assert(t0[hi as int] == old(table)@[hi as int]@);
        assert(t0[lo as int] == old(table)@[lo as int]@);
        assert(t1 == t0.update(hi as int, spec_cdf_update(t0[hi as int], h, hs)));
        assert(t1[lo as int] == t0[lo as int]);
        assert(table_view(table@) == spec_two_updates(t0, hi as int, h, hs, lo as int, l, ls));
    }
    (hc, lc)
}

impl PriorEval {
    /// Build an evaluator over `input`, with the stride predictions of
    /// `stride_pyramid_leaves`, borrowing `prediction_mode` for the pass.
    ///
    /// The four adaptation speeds are resolved through their priority
    /// chains; the prior tables and the score accumulator are allocated
    /// and initialized only when `params.prior_bitmask_detection` is set,
    /// else every table stays empty and the pass is a no-op.
    pub fn new(
        input: Vec<u8>,
        stride_pyramid_leaves: Vec<u8>,
        prediction_mode: PredictionModeContextMap,
        params: &EncoderParams,
    ) -> (r: PriorEval)
        requires
            valid_speed(prediction_mode.cm_speed_low),
            valid_speed(prediction_mode.cm_speed_high),
            valid_speed(prediction_mode.stride_speed_low),
            valid_speed(prediction_mode.stride_speed_high),
            valid_speed(params.literal_adaptation@[0]),
            valid_speed(params.literal_adaptation@[1]),
            valid_speed(params.literal_adaptation@[2]),
            valid_speed(params.literal_adaptation@[3]),
        ensures
            eval_wf(r@),
            eval_enabled(r@) == params.prior_bitmask_detection,
            r@.cm_speed_low == spec_resolve_speed(
                prediction_mode.cm_speed_low,
                params.literal_adaptation@[2],
                DEFAULT_SPEED,
            ),
            r@.cm_speed_high == spec_resolve_speed(
                prediction_mode.cm_speed_high,
                params.literal_adaptation@[3],
                r@.cm_speed_low,
            ),
            r@.stride_speed_low == spec_resolve_speed(
                prediction_mode.stride_speed_low,
                params.literal_adaptation@[0],
                DEFAULT_SPEED,
            ),
            r@.stride_speed_high == spec_resolve_speed(
                prediction_mode.stride_speed_high,
                params.literal_adaptation@[1],
                r@.stride_speed_low,
            ),
            params.prior_bitmask_detection ==> {
                &&& forall|i: int|
                    0 <= i < CONTEXT_MAP_PRIOR_SIZE ==> #[trigger] r@.cm[i] == spec_init_cdf()
                &&& forall|i: int|
                    0 <= i < CONTEXT_MAP_PRIOR_SIZE ==> #[trigger] r@.slow_cm[i] == spec_init_cdf()
                &&& forall|i: int|
                    0 <= i < CONTEXT_MAP_PRIOR_SIZE ==> #[trigger] r@.fast_cm[i] == spec_init_cdf()
                &&& forall|i: int|
                    0 <= i < STRIDE_PRIOR_SIZE ==> #[trigger] r@.stride1[i] == spec_init_cdf()
                &&& forall|i: int|
                    0 <= i < STRIDE_PRIOR_SIZE ==> #[trigger] r@.stride2[i] == spec_init_cdf()
                &&& forall|i: int|
                    0 <= i < STRIDE_PRIOR_SIZE ==> #[trigger] r@.stride3[i] == spec_init_cdf()
                &&& forall|i: int|
                    0 <= i < STRIDE_PRIOR_SIZE ==> #[trigger] r@.stride4[i] == spec_init_cdf()
                &&& forall|i: int|
                    0 <= i < ADV_PRIOR_SIZE ==> #[trigger] r@.adv[i] == spec_init_cdf()
                &&& forall|j: int| 0 <= j < SCORE_SIZE ==> #[trigger] r@.score[j] == 0
            },
            r@.block_type == 0,
            r@.cur_stride == 1,
            r@.local_byte_offset == 0,
            r@.literals_seen == 0,
            r@.input == input@,
            r@.stride_pyramid_leaves == stride_pyramid_leaves@,
            r@.cmap_literal_context_map == prediction_mode.literal_context_map@,
            r@.cmap_literal_prediction_mode == prediction_mode.literal_prediction_mode,
            r@.cmap_cm_speed_low == prediction_mode.cm_speed_low,
            r@.cmap_cm_speed_high == prediction_mode.cm_speed_high,
            r@.cmap_stride_speed_low == prediction_mode.stride_speed_low,
            r@.cmap_stride_speed_high == prediction_mode.stride_speed_high,
            r@.cmap_mixing_values == prediction_mode.mixing_values@,
    {
        let do_alloc = params.prior_bitmask_detection;
        let cm_speed_low = resolve_speed(
            prediction_mode.cm_speed_low,
            params.literal_adaptation[2],
            DEFAULT_SPEED,
        );
        let cm_speed_high = resolve_speed(
            prediction_mode.cm_speed_high,
            params.literal_adaptation[3],
            cm_speed_low,
        );
        let stride_speed_low = resolve_speed(
            prediction_mode.stride_speed_low,
            params.literal_adaptation[0],
            DEFAULT_SPEED,
        );
        let stride_speed_high = resolve_speed(
            prediction_mode.stride_speed_high,
            params.literal_adaptation[1],
            stride_speed_low,
        );
        PriorEval {
            input,
            context_map: prediction_mode,
            block_type: 0,
            local_byte_offset: 0,
            cm_priors: if do_alloc {
                alloc_table(CONTEXT_MAP_PRIOR_SIZE)
            } else {
                Vec::new()
            },
            slow_cm_priors: if do_alloc {
                alloc_table(CONTEXT_MAP_PRIOR_SIZE)
            } else {
                Vec::new()
            },
            fast_cm_priors: if do_alloc {
                alloc_table(CONTEXT_MAP_PRIOR_SIZE)
            } else {
                Vec::new()
            },
            stride_priors_1: if do_alloc {
                alloc_table(STRIDE_PRIOR_SIZE)
            } else {
                Vec::new()
            },
            stride_priors_2: if do_alloc {
                alloc_table(STRIDE_PRIOR_SIZE)
            } else {
                Vec::new()
            },
            stride_priors_3: if do_alloc {
                alloc_table(STRIDE_PRIOR_SIZE)
            } else {
                Vec::new()
            },
            stride_priors_4: if do_alloc {
                alloc_table(STRIDE_PRIOR_SIZE)
            } else {
                Vec::new()
            },
            adv_priors: if do_alloc {
                alloc_table(ADV_PRIOR_SIZE)
            } else {
                Vec::new()
            },
            stride_pyramid_leaves,
            score: if do_alloc {
                alloc_scores(SCORE_SIZE)
            } else {
                Vec::new()
            },
            cm_speed_low,
            cm_speed_high,
            stride_speed_low,
            stride_speed_high,
            cur_stride: 1,
            literals_seen: 0,
        }
    }

    /// Record a block boundary: the new block type and its stride lag.
    pub fn update_block_type(&mut self, new_type: u8, stride: u8)
        ensures
            final(self)@ == (EvalState { block_type: new_type, cur_stride: stride, ..old(self)@ }),
    {
        self.block_type = new_type;
        self.cur_stride = stride;
    }

    /// Advance the local byte offset by `inc`.
    pub fn inc_local_byte_offset(&mut self, inc: usize)
        requires
            old(self)@.local_byte_offset + inc <= usize::MAX,
        ensures
            final(self)@ == (EvalState {
                local_byte_offset: old(self)@.local_byte_offset + inc,
                ..old(self)@
            }),
    {
        self.local_byte_offset = self.local_byte_offset + inc;
    }

    /// Current local byte offset.
    pub fn local_byte_offset(&self) -> (r: usize)
        ensures
            r == self@.local_byte_offset,
    {
        self.local_byte_offset
    }

    /// Current block type.
    pub fn block_type(&self) -> (r: u8)
        ensures
            r == self@.block_type,
    {
        self.block_type
    }

    /// Literal byte of the input at `index`.
    pub fn literal_data_at_offset(&self, index: usize) -> (r: u8)
        requires
            index < self@.input.len(),
        ensures
            r == self@.input[index as int],
    {
        self.input[index]
    }

    /// The borrowed context map's per-position bucket assignment.
    pub fn literal_context_map(&self) -> (r: &Vec<u8>)
        ensures
            r@ == self@.cmap_literal_context_map,
    {
        &self.context_map.literal_context_map
    }

    /// The borrowed context map's literal prediction mode.
    pub fn prediction_mode(&self) -> (r: u8)
        ensures
            r == self@.cmap_literal_prediction_mode,
    {
        self.context_map.literal_prediction_mode
    }

    /// Hand ownership of the borrowed context map back to the caller,
    /// leaving an empty placeholder so the evaluator never aliases it.
    pub fn take_prediction_mode(&mut self) -> (r: PredictionModeContextMap)
        ensures
            r.literal_context_map@ == old(self)@.cmap_literal_context_map,
            r.literal_prediction_mode == old(self)@.cmap_literal_prediction_mode,
            r.cm_speed_low == old(self)@.cmap_cm_speed_low,
            r.cm_speed_high == old(self)@.cmap_cm_speed_high,
            r.stride_speed_low == old(self)@.cmap_stride_speed_low,
            r.stride_speed_high == old(self)@.cmap_stride_speed_high,
            r.mixing_values@ == old(self)@.cmap_mixing_values,
            final(self)@ == (EvalState {
                cmap_literal_context_map: Seq::<u8>::empty(),
                cmap_literal_prediction_mode: 0,
                cmap_cm_speed_low: (0u16, 0u16),
                cmap_cm_speed_high: (0u16, 0u16),
                cmap_stride_speed_low: (0u16, 0u16),
                cmap_stride_speed_high: (0u16, 0u16),
                cmap_mixing_values: Seq::<u8>::empty(),
                ..old(self)@
            }),
    {
        let mut taken = PredictionModeContextMap::empty();
        core::mem::swap(&mut taken, &mut self.context_map);
        proof {
            assert(final(self)@.cmap_literal_context_map =~= Seq::<u8>::empty());
            assert(final(self)@.cmap_mixing_values =~= Seq::<u8>::empty());
        }
        taken
    }

    /// Release every owned buffer: all prior tables and the score
    /// accumulator become empty, as after a disabled construction.
    pub fn free(&mut self)
        ensures
            final(self)@ == (EvalState {
                cm: Seq::<Seq<u16>>::empty(),
                slow_cm: Seq::<Seq<u16>>::empty(),
                fast_cm: Seq::<Seq<u16>>::empty(),
                stride1: Seq::<Seq<u16>>::empty(),
                stride2: Seq::<Seq<u16>>::empty(),
                stride3: Seq::<Seq<u16>>::empty(),
                stride4: Seq::<Seq<u16>>::empty(),
                adv: Seq::<Seq<u16>>::empty(),
                score: Seq::<u64>::empty(),
                ..old(self)@
            }),
    {
        self.score = Vec::new();
        self.cm_priors = Vec::new();
        self.slow_cm_priors = Vec::new();
        self.fast_cm_priors = Vec::new();
        self.stride_priors_1 = Vec::new();
        self.stride_priors_2 = Vec::new();
        self.stride_priors_3 = Vec::new();
        self.stride_priors_4 = Vec::new();
        self.adv_priors = Vec::new();
        proof {
            assert(table_view(self.cm_priors@) =~= Seq::<Seq<u16>>::empty());
            assert(table_view(self.slow_cm_priors@) =~= Seq::<Seq<u16>>::empty());
            assert(table_view(self.fast_cm_priors@) =~= Seq::<Seq<u16>>::empty());
            assert(table_view(self.stride_priors_1@) =~= Seq::<Seq<u16>>::empty());
            assert(table_view(self.stride_priors_2@) =~= Seq::<Seq<u16>>::empty());
            assert(table_view(self.stride_priors_3@) =~= Seq::<Seq<u16>>::empty());
            assert(table_view(self.stride_priors_4@) =~= Seq::<Seq<u16>>::empty());
            assert(table_view(self.adv_priors@) =~= Seq::<Seq<u16>>::empty());
            assert(self.score@ =~= Seq::<u64>::empty());
        }
    }

    /// Whether the prior tables were allocated at construction.
    pub fn tables_allocated(&self) -> (r: bool)
        requires
            eval_wf(self@),
        ensures
            r == eval_enabled(self@),
    {
        self.cm_priors.len() == CONTEXT_MAP_PRIOR_SIZE
    }

    /// Accumulated fixed-point cost of model lane `lane` at mixing bucket
    /// `bucket`.
    pub fn accumulated_cost(&self, bucket: usize, lane: usize) -> (r: u64)
        requires
            bucket < NUM_MIXING_VALUES,
            lane < NUM_PRIORS,
            8 * bucket + lane < self@.score.len(),
        ensures
            r == self@.score[8 * bucket + lane],
    {
        self.score[8 * bucket + lane]
    }

    /// Run the post-pass selection once: convert the accumulated costs
    /// into one model label per mixing bucket and hand the array to the
    /// borrowed context map.
    pub fn choose_bitmask(&mut self)
        requires
            eval_wf(old(self)@),
        ensures
            eval_wf(final(self)@),
            final(self)@ == (EvalState {
                cmap_mixing_values: spec_mixing_values(old(self)@.score),
                ..old(self)@
            }),
    {
        proof {
            assert forall|j: int| 0 <= j < self.score@.len() implies #[trigger] self.score@[j]
                <= LANE_BOUND by {
                assert(self.score@[j] <= 4096 * self@.literals_seen);
            }
        }
        let bm = choose_mixing_values(&self.score);
        self.context_map.set_mixing_values(bm);
    }

    /// Evaluate one literal event: every model variant prices the high
    /// nibble against its unconditioned slot and observes it, then prices
    /// the low nibble against the slot conditioned on the observed high
    /// nibble and observes that too. The high-stage costs accumulate into
    /// the upper mixing bucket, the low-stage costs into the lower one.
    ///
    /// With bitmask detection disabled the evaluator has no tables and the
    /// event is a no-op.
    #[verifier::rlimit(100)]
    pub fn update_cost(
        &mut self,
        stride_prior: [u8; 8],
        stride_prior_offset: usize,
        selected_bits: u8,
        cm_prior: usize,
        literal: u8,
    )
        requires
            eval_wf(old(self)@),
            cm_prior < 256,
            old(self)@.literals_seen < LITERAL_LIMIT,
        ensures
            eval_wf(final(self)@),
            eval_enabled(old(self)@) ==> final(self)@ == spec_step(
                old(self)@,
                stride_prior@,
                stride_prior_offset as int,
                cm_prior as int,
                literal,
            ),
            !eval_enabled(old(self)@) ==> final(self)@ == old(self)@,
    {
        if self.cm_priors.len() != CONTEXT_MAP_PRIOR_SIZE {
            return ;
        }
        let ghost pre = self@;
        let ghost sp = stride_prior@;
        let ghost off = stride_prior_offset as int;
        let ghost ctx = cm_prior as int;
        let h: u8 = literal / 16;
        let l: u8 = literal % 16;
        let base_sb = ring_lookup(&stride_prior, stride_prior_offset, self.cur_stride as usize);
        let sb1 = ring_lookup(&stride_prior, stride_prior_offset, 0);
        let sb2 = ring_lookup(&stride_prior, stride_prior_offset, 1);
        let sb3 = ring_lookup(&stride_prior, stride_prior_offset, 2);
        let sb4 = ring_lookup(&stride_prior, stride_prior_offset, 3);
        proof {
            assert(base_sb == sp[spec_ring_index(off, pre.cur_stride as int)]);
        }
        let hb = upper_score_index(base_sb, selected_bits, cm_prior);
        let lb = lower_score_index(base_sb, selected_bits, cm_prior, h);

        let cm_hi = CMPrior::lookup_lin(base_sb, selected_bits, cm_prior, None);
        let cm_lo = CMPrior::lookup_lin(base_sb, selected_bits, cm_prior, Some(h));
        let (hc_cm, lc_cm) = cdf_two_stage(
            &mut self.cm_priors,
            cm_hi,
            cm_lo,
            h,
            l,
            self.cm_speed_high,
            self.cm_speed_low,
        );

        let slow_hi = SlowCMPrior::lookup_lin(base_sb, selected_bits, cm_prior, None);
        let slow_lo = SlowCMPrior::lookup_lin(base_sb, selected_bits, cm_prior, Some(h));
        let (hc_slow, lc_slow) = cdf_two_stage(
            &mut self.slow_cm_priors,
            slow_hi,
            slow_lo,
            h,
            l,
            SLOW_CM_SPEED,
            SLOW_CM_SPEED,
        );

        let fast_hi = FastCMPrior::lookup_lin(base_sb, selected_bits, cm_prior, None);
        let fast_lo = FastCMPrior::lookup_lin(base_sb, selected_bits, cm_prior, Some(h));
        let (hc_fast, lc_fast) = cdf_two_stage(
            &mut self.fast_cm_priors,
            fast_hi,
            fast_lo,
            h,
            l,
            self.cm_speed_low,
            self.cm_speed_low,
        );

        let s1_hi = Stride1Prior::lookup_lin(sb1, selected_bits, cm_prior, None);
        let s1_lo = Stride1Prior::lookup_lin(sb1, selected_bits, cm_prior, Some(h));
        let (hc_s1, lc_s1) = cdf_two_stage(
            &mut self.stride_priors_1,
            s1_hi,
            s1_lo,
            h,
            l,
            self.stride_speed_high,
            self.stride_speed_low,
        );

        let s2_hi = Stride2Prior::lookup_lin(sb2, selected_bits, cm_prior, None);
        let s2_lo = Stride2Prior::lookup_lin(sb2, selected_bits, cm_prior, Some(h));
        let (hc_s2, lc_s2) = cdf_two_stage(
            &mut self.stride_priors_2,
            s2_hi,
            s2_lo,
            h,
            l,
            self.stride_speed_high,
            self.stride_speed_low,
        );

        let s3_hi = Stride3Prior::lookup_lin(sb3, selected_bits, cm_prior, None);
        let s3_lo = Stride3Prior::lookup_lin(sb3, selected_bits, cm_prior, Some(h));
        let (hc_s3, lc_s3) = cdf_two_stage(
            &mut self.stride_priors_3,
            s3_hi,
            s3_lo,
            h,
            l,
            self.stride_speed_high,
            self.stride_speed_low,
        );

        let s4_hi = Stride4Prior::lookup_lin(sb4, selected_bits, cm_prior, None);
        let s4_lo = Stride4Prior::lookup_lin(sb4, selected_bits, cm_prior, Some(h));
        let (hc_s4, lc_s4) = cdf_two_stage(
            &mut self.stride_priors_4,
            s4_hi,
            s4_lo,
            h,
            l,
            self.stride_speed_high,
            self.stride_speed_low,
        );

        let adv_hi = AdvPrior::lookup_lin(base_sb, selected_bits, cm_prior, None);
        let adv_lo = AdvPrior::lookup_lin(base_sb, selected_bits, cm_prior, Some(h));
        let (hc_adv, lc_adv) = cdf_two_stage(
            &mut self.adv_priors,
            adv_hi,
            adv_lo,
            h,
            l,
            self.stride_speed_high,
            self.stride_speed_low,
        );

        let mut hcosts: Vec<u32> = Vec::new();
        hcosts.push(hc_cm);
        hcosts.push(hc_adv);
        hcosts.push(hc_slow);
        hcosts.push(hc_fast);
        hcosts.push(hc_s1);
        hcosts.push(hc_s2);
        hcosts.push(hc_s3);
        hcosts.push(hc_s4);
        let mut lcosts: Vec<u32> = Vec::new();
        lcosts.push(lc_cm);
        lcosts.push(lc_adv);
        lcosts.push(lc_slow);
        lcosts.push(lc_fast);
        lcosts.push(lc_s1);
        lcosts.push(lc_s2);
        lcosts.push(lc_s3);
        lcosts.push(lc_s4);
        proof {
            assert(hcosts@ =~= seq![hc_cm, hc_adv, hc_slow, hc_fast, hc_s1, hc_s2, hc_s3, hc_s4]);
            assert(lcosts@ =~= seq![lc_cm, lc_adv, lc_slow, lc_fast, lc_s1, lc_s2, lc_s3, lc_s4]);
            assert forall|ww: int| 0 <= ww < 8 implies #[trigger] hcosts@[ww] as int
                == spec_hi_costs(pre, sp, off, ctx, literal)[ww] by {
            }
            assert forall|ww: int| 0 <= ww < 8 implies #[trigger] lcosts@[ww] as int
                == spec_lo_costs(pre, sp, off, ctx, literal)[ww] by {
            }
        }

        let ghost score0 = self.score@;
        let mut sc: Vec<u64> = Vec::new();
        core::mem::swap(&mut sc, &mut self.score);
        let mut w: usize = 0;
        while w < 8
            invariant
                w <= 8,
                hb < 4096,
                sc@.len() == score0.len(),
                score0.len() == SCORE_SIZE,
                hcosts@.len() == 8,
                forall|ww: int| 0 <= ww < 8 ==> #[trigger] hcosts@[ww] <= 4095,
                forall|j: int| 0 <= j < score0.len() ==> #[trigger] score0[j] <= 4096
                    * pre.literals_seen,
                0 <= pre.literals_seen < LITERAL_LIMIT,
                forall|ww: int| 0 <= ww < w ==> #[trigger] sc@[8 * hb + ww] == ((score0[8 * hb
                    + ww] + hcosts@[ww]) as u64),
                forall|j: int|
                    0 <= j < score0.len() && !(8 * hb <= j < 8 * hb + w) ==> #[trigger] sc@[j]
                        == score0[j],
            decreases 8 - w,
        {
            let idx = 8 * hb + w;
            proof {
                assert(sc@[idx as int] == score0[idx as int]);
            }
            let nv = sc[idx] + hcosts[w] as u64;
            sc.set(idx, nv);
            w = w + 1;
        }

        let ghost score1 = sc@;
        let mut w: usize = 0;
        while w < 8
            invariant
                w <= 8,
                4096 <= lb < 8192,
                sc@.len() == score1.len(),
                score1.len() == SCORE_SIZE,
                lcosts@.len() == 8,
                forall|ww: int| 0 <= ww < 8 ==> #[trigger] lcosts@[ww] <= 4095,
                forall|j: int| 0 <= j < score1.len() && 8 * 4096 <= j ==> #[trigger] score1[j]
                    <= 4096 * pre.literals_seen,
                0 <= pre.literals_seen < LITERAL_LIMIT,
                forall|ww: int| 0 <= ww < w ==> #[trigger] sc@[8 * lb + ww] == ((score1[8 * lb
                    + ww] + lcosts@[ww]) as u64),
                forall|j: int|
                    0 <= j < score1.len() && !(8 * lb <= j < 8 * lb + w) ==> #[trigger] sc@[j]
                        == score1[j],
            decreases 8 - w,
        {
            let idx = 8 * lb + w;
            proof {
                assert(sc@[idx as int] == score1[idx as int]);
            }
            let nv = sc[idx] + lcosts[w] as u64;
            sc.set(idx, nv);
            w = w + 1;
        }
        self.score = sc;

        self.literals_seen = self.literals_seen + 1;

        proof {
            let post = spec_step(pre, sp, off, ctx, literal);
            assert(8 * hb + 8 <= 8 * lb);
            assert forall|j: int| 0 <= j < score0.len() implies #[trigger] self.score@[j]
                == post.score[j] by {
                if 8 * hb <= j < 8 * hb + 8 {
                    let ww = j - 8 * hb;
                    assert(score1[8 * hb + ww] == ((score0[8 * hb + ww] + hcosts@[ww]) as u64));
                    assert(self.score@[j] == score1[j]);
                } else if 8 * lb <= j < 8 * lb + 8 {
                    let ww = j - 8 * lb;
                    assert(score1[j] == score0[j]);
                    assert(self.score@[8 * lb + ww] == ((score1[8 * lb + ww]
                        + lcosts@[ww]) as u64));
                } else {
                    assert(score1[j] == score0[j]);
                    assert(self.score@[j] == score1[j]);
                }
            }
            assert(self.score@ =~= post.score);
            assert(self@ =~~= post);
            assert forall|j: int| 0 <= j < self.score@.len() implies #[trigger] self.score@[j]
                <= 4096 * self@.literals_seen by {
                if 8 * hb <= j < 8 * hb + 8 {
                    assert(score0[j] <= 4096 * pre.literals_seen);
                } else if 8 * lb <= j < 8 * lb + 8 {
                    assert(score0[j] <= 4096 * pre.literals_seen);
                } else {
                    assert(self.score@[j] == score0[j]);
                }
            }
        }
    }
}


/// The eight high-nibble-stage costs of one literal, one per score lane,
/// measured against the pre-state tables.
pub open spec fn spec_hi_costs(s: EvalState, sp: Seq<u8>, offset: int, ctx: int, literal: u8) -> Seq<int> {
    let h = (literal / 16) as u8;
    let base = sp[spec_ring_index(offset, s.cur_stride as int)];
    let sb1 = sp[spec_ring_index(offset, 0)];
    let sb2 = sp[spec_ring_index(offset, 1)];
    let sb3 = sp[spec_ring_index(offset, 2)];
    let sb4 = sp[spec_ring_index(offset, 3)];
    seq![
        spec_cost(s.cm[spec_cm_lookup(ctx, Option::None)], h),
        spec_cost(s.adv[spec_adv_lookup(base, ctx, Option::None)], h),
        spec_cost(s.slow_cm[spec_cm_lookup(ctx, Option::None)], h),
        spec_cost(s.fast_cm[spec_fast_cm_lookup(ctx, Option::None)], h),
        spec_cost(s.stride1[spec_stride_lookup(sb1, ctx, Option::None)], h),
        spec_cost(s.stride2[spec_stride_lookup(sb2, ctx, Option::None)], h),
        spec_cost(s.stride3[spec_stride_lookup(sb3, ctx, Option::None)], h),
        spec_cost(s.stride4[spec_stride_lookup(sb4, ctx, Option::None)], h),
    ]
}

/// The eight low-nibble-stage costs of one literal, conditioned on its high
/// nibble, measured against the pre-state tables.
pub open spec fn spec_lo_costs(s: EvalState, sp: Seq<u8>, offset: int, ctx: int, literal: u8) -> Seq<int> {
    let h = (literal / 16) as u8;
    let l = (literal % 16) as u8;
    let base = sp[spec_ring_index(offset, s.cur_stride as int)];
    let sb1 = sp[spec_ring_index(offset, 0)];
    let sb2 = sp[spec_ring_index(offset, 1)];
    let sb3 = sp[spec_ring_index(offset, 2)];
    let sb4 = sp[spec_ring_index(offset, 3)];
    seq![
        spec_cost(s.cm[spec_cm_lookup(ctx, Option::Some(h))], l),
        spec_cost(s.adv[spec_adv_lookup(base, ctx, Option::Some(h))], l),
        spec_cost(s.slow_cm[spec_cm_lookup(ctx, Option::Some(h))], l),
        spec_cost(s.fast_cm[spec_fast_cm_lookup(ctx, Option::Some(h))], l),
        spec_cost(s.stride1[spec_stride_lookup(sb1, ctx, Option::Some(h))], l),
        spec_cost(s.stride2[spec_stride_lookup(sb2, ctx, Option::Some(h))], l),
        spec_cost(s.stride3[spec_stride_lookup(sb3, ctx, Option::Some(h))], l),
        spec_cost(s.stride4[spec_stride_lookup(sb4, ctx, Option::Some(h))], l),
    ]
}

/// One whole literal event: every model variant prices and then observes
/// the two nibbles of `literal`, the high-stage costs accumulate into the
/// upper mixing bucket, the low-stage costs into the lower one, and the
/// literal counter advances. Everything else is untouched.
pub open spec fn spec_step(s: EvalState, sp: Seq<u8>, offset: int, ctx: int, literal: u8) -> EvalState {
    let h = (literal / 16) as u8;
    let l = (literal % 16) as u8;
    let base = sp[spec_ring_index(offset, s.cur_stride as int)];
    let sb1 = sp[spec_ring_index(offset, 0)];
    let sb2 = sp[spec_ring_index(offset, 1)];
    let sb3 = sp[spec_ring_index(offset, 2)];
    let sb4 = sp[spec_ring_index(offset, 3)];
    let hb = spec_upper_score_index(base, ctx);
    let lb = spec_lower_score_index(ctx, h);
    let hcosts = spec_hi_costs(s, sp, offset, ctx, literal);
    let lcosts = spec_lo_costs(s, sp, offset, ctx, literal);
    EvalState {
        cm: spec_two_updates(
            s.cm,
            spec_cm_lookup(ctx, Option::None),
            h,
            s.cm_speed_high,
            spec_cm_lookup(ctx, Option::Some(h)),
            l,
            s.cm_speed_low,
        ),
        slow_cm: spec_two_updates(
            s.slow_cm,
            spec_cm_lookup(ctx, Option::None),
            h,
            SLOW_CM_SPEED,
            spec_cm_lookup(ctx, Option::Some(h)),
            l,
            SLOW_CM_SPEED,
        ),
        fast_cm: spec_two_updates(
            s.fast_cm,
            spec_fast_cm_lookup(ctx, Option::None),
            h,
            s.cm_speed_low,
            spec_fast_cm_lookup(ctx, Option::Some(h)),
            l,
            s.cm_speed_low,
        ),
        stride1: spec_two_updates(
            s.stride1,
            spec_stride_lookup(sb1, ctx, Option::None),
            h,
            s.stride_speed_high,
            spec_stride_lookup(sb1, ctx, Option::Some(h)),
            l,
            s.stride_speed_low,
        ),
        stride2: spec_two_updates(
            s.stride2,
            spec_stride_lookup(sb2, ctx, Option::None),
            h,
            s.stride_speed_high,
            spec_stride_lookup(sb2, ctx, Option::Some(h)),
            l,
            s.stride_speed_low,
        ),
        stride3: spec_two_updates(
            s.stride3,
            spec_stride_lookup(sb3, ctx, Option::None),
            h,
            s.stride_speed_high,
            spec_stride_lookup(sb3, ctx, Option::Some(h)),
            l,
            s.stride_speed_low,
        ),
        stride4: spec_two_updates(
            s.stride4,
            spec_stride_lookup(sb4, ctx, Option::None),
            h,
            s.stride_speed_high,
            spec_stride_lookup(sb4, ctx, Option::Some(h)),
            l,
            s.stride_speed_low,
        ),
        adv: spec_two_updates(
            s.adv,
            spec_adv_lookup(base, ctx, Option::None),
            h,
            s.stride_speed_high,
            spec_adv_lookup(base, ctx, Option::Some(h)),
            l,
            s.stride_speed_low,
        ),
        score: Seq::new(
            s.score.len(),
            |j: int|
                if 8 * hb <= j < 8 * hb + 8 {
                    ((s.score[j] + hcosts[j - 8 * hb]) as u64)
                } else if 8 * lb <= j < 8 * lb + 8 {
                    ((s.score[j] + lcosts[j - 8 * lb]) as u64)
                } else {
                    s.score[j]
                },
        ),
        literals_seen: s.literals_seen + 1,
        ..s
    }
}

/// One literal event, as handed to the evaluator by the upstream parser.
pub struct LiteralEvent {
    pub stride_prior: Seq<u8>,
    pub stride_prior_offset: int,
    pub cm_prior: int,
    pub literal: u8,
}

/// The evaluator state after a whole stream of literal events.
pub open spec fn spec_run(s: EvalState, events: Seq<LiteralEvent>) -> EvalState
    decreases events.len(),
{
    if events.len() == 0 {
        s
    } else {
        let e = events[0];
        spec_run(
            spec_step(s, e.stride_prior, e.stride_prior_offset, e.cm_prior, e.literal),
            events.skip(1),
        )
    }
}

/// Determinism of the whole pass: two evaluators in equal states that are
/// fed the same literal-event stream end in equal states, with bit-equal
/// distributions, scores, and hence selection arrays. Together with the
/// contracts of `update_cost` and `choose_bitmask` — each pins its
/// post-state to a function of the pre-state and the event alone — this
/// carries over to the executable pass.
pub proof fn lemma_run_deterministic(s1: EvalState, s2: EvalState, events: Seq<LiteralEvent>)
    requires
        s1 == s2,
    ensures
        spec_run(s1, events) == spec_run(s2, events),
        spec_mixing_values(spec_run(s1, events).score) == spec_mixing_values(
            spec_run(s2, events).score,
        ),
{
}

} // verus!
