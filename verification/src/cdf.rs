//! Adaptive cumulative distribution over the 16 nibble values.
//!
//! A `CDF` holds 16 cumulative counters: `counters[k]` is the accumulated
//! observation weight of symbols `0..=k`, strictly increasing in `k`, with
//! `counters[15]` the total weight. Costs are estimated in fixed-point
//! 1/256-bit units; updates add a per-speed increment to the tail of the
//! table and decay it once the total reaches the speed's rescale threshold.

use crate::fixed_log::{
    lemma_log2_fix_monotone, lemma_log2_fix_range, log2_fix, spec_log2_fix,
};
use vstd::prelude::*;

verus! {

/// Fallback adaptation speed `(increment, rescale_threshold)` used when
/// neither the context map nor the configuration provides one.
pub const DEFAULT_SPEED: (u16, u16) = (8, 8192);

/// Largest total weight a well-formed distribution may carry.
pub const MAX_TOTAL: u16 = 49152;

/// Largest per-update increment a speed pair may carry.
pub const MAX_SPEED_INC: u16 = 16368;

/// A speed pair the update arithmetic can accommodate without overflowing
/// the 16-bit counters: after one raise the total stays within `u16`, and
/// after one decay it returns below `MAX_TOTAL`.
pub open spec fn valid_speed(speed: (u16, u16)) -> bool {
    speed.0 <= MAX_SPEED_INC && speed.1 <= MAX_TOTAL
}

/// Well-formed distribution: 16 strictly increasing counters, a strictly
/// positive floor, and a bounded total.
pub open spec fn cdf_wf(c: Seq<u16>) -> bool {
    &&& c.len() == 16
    &&& c[0] >= 1
    &&& forall|k: int| 1 <= k < 16 ==> c[k - 1] < #[trigger] c[k]
    &&& c[15] <= MAX_TOTAL
}

/// The linear-ramp prior `{4, 8, ..., 64}` every fresh distribution starts
/// from: uniform, with nonzero mass everywhere.
pub open spec fn spec_init_cdf() -> Seq<u16> {
    seq![4u16, 8, 12, 16, 20, 24, 28, 32, 36, 40, 44, 48, 52, 56, 60, 64]
}

/// Raw (non-cumulative) weight of `nib` under `c`.
pub open spec fn spec_pdf(c: Seq<u16>, nib: u8) -> int {
    if nib == 0 {
        c[0] as int
    } else {
        c[nib as int] - c[nib as int - 1]
    }
}

/// Estimated bit length (times 256) to encode `nib` under `c`.
#[verifier::opaque]
pub open spec fn spec_cost(c: Seq<u16>, nib: u8) -> int {
    spec_log2_fix(c[15] as nat) - spec_log2_fix(spec_pdf(c, nib) as nat)
}

/// The raise half of an update: every counter from the observed nibble
/// upward gains `inc`.
pub open spec fn spec_cdf_raise(c: Seq<u16>, nib: u8, inc: u16) -> Seq<u16> {
    Seq::new(16, |k: int| if k >= (nib & 0xf) as int { ((c[k] + inc) as u16) } else { c[k] })
}

/// One decayed bin: bias the counter by its ascending offset, then keep
/// three quarters of it.
pub open spec fn spec_rescale_bin(x: u16, bias: int) -> u16 {
    (((x + bias) - (x + bias) / 4) as u16)
}

/// The decay half of an update, applied once the total reaches the
/// threshold: multiplies effective weight by 3/4 while the ascending bias
/// `1..=16` keeps every bin strictly positive.
pub open spec fn spec_cdf_rescale(c: Seq<u16>) -> Seq<u16> {
    Seq::new(16, |k: int| spec_rescale_bin(c[k], k + 1))
}

/// A whole update step: raise, then decay if the total reached the
/// threshold (the decay is eager).
#[verifier::opaque]
pub open spec fn spec_cdf_update(c: Seq<u16>, nib: u8, speed: (u16, u16)) -> Seq<u16> {
    let raised = spec_cdf_raise(c, nib, speed.0);
    if raised[15] >= speed.1 {
        spec_cdf_rescale(raised)
    } else {
        raised
    }
}

/// Counters of a well-formed distribution are ordered across any distance.
pub proof fn lemma_cdf_ordered(c: Seq<u16>, i: int, j: int)
    requires
        cdf_wf(c),
        0 <= i <= j < 16,
    ensures
        c[i] <= c[j],
    decreases j - i,
{
    if i < j {
        lemma_cdf_ordered(c, i, j - 1);
    }
}

/// Every reachable update preserves well-formedness: the counters stay
/// strictly increasing (the monotone cumulative invariant), keep a positive
/// floor, and the total stays bounded.
pub proof fn lemma_update_preserves_wf(c: Seq<u16>, nib: u8, speed: (u16, u16))
    requires
        cdf_wf(c),
        valid_speed(speed),
    ensures
        cdf_wf(spec_cdf_update(c, nib, speed)),
{
    reveal(spec_cdf_update);
    let raised = spec_cdf_raise(c, nib, speed.0);
    assert forall|k: int| 0 <= k < 16 implies #[trigger] c[k] <= c[15] by {
        lemma_cdf_ordered(c, k, 15);
    }
    assert(forall|k: int| 0 <= k < 16 ==> #[trigger] raised[k] <= 65520);
    assert(forall|k: int| 1 <= k < 16 ==> raised[k - 1] < #[trigger] raised[k]);
    if raised[15] >= speed.1 {
        let r = spec_cdf_rescale(raised);
        assert forall|k: int| 1 <= k < 16 implies r[k - 1] < #[trigger] r[k] by {
            let t1 = raised[k - 1] + k;
            let t2 = raised[k] + k + 1;
            assert(t2 >= t1 + 2);
            assert(t2 / 4 <= (t1 + (t2 - t1)) / 4);
            assert((t1 - t1 / 4) < (t2 - t2 / 4));
        }
        assert(r[0] >= 1) by {
            let t = raised[0] + 1;
            assert(t >= 2);
            assert(t - t / 4 >= 1);
        }
        assert(r[15] <= MAX_TOTAL) by {
            let t = raised[15] + 16;
            assert(t <= 65536);
            assert(t - t / 4 <= 49152);
        }
    }
}

/// Non-negative cost: under any well-formed distribution, encoding any
/// nibble is estimated at between 0 and 16 bits (4095 fixed-point units).
pub proof fn lemma_cost_nonneg(c: Seq<u16>, nib: u8)
    requires
        cdf_wf(c),
        nib < 16,
    ensures
        0 <= spec_cost(c, nib) <= 4095,
{
    reveal(spec_cost);
    let pdf = spec_pdf(c, nib);
    if nib == 0 {
        lemma_cdf_ordered(c, 0, 15);
    } else {
        lemma_cdf_ordered(c, nib as int, 15);
    }
    assert(1 <= pdf <= c[15]);
    lemma_log2_fix_monotone(pdf as nat, c[15] as nat);
    lemma_log2_fix_range(pdf as nat);
    lemma_log2_fix_range(c[15] as nat);
}

/// A distribution updated any number of times with one fixed speed pair.
pub open spec fn spec_cdf_update_seq(c: Seq<u16>, nibs: Seq<u8>, speed: (u16, u16)) -> Seq<u16>
    decreases nibs.len(),
{
    if nibs.len() == 0 {
        c
    } else {
        spec_cdf_update_seq(spec_cdf_update(c, nibs[0], speed), nibs.skip(1), speed)
    }
}

/// Bounded growth for one step: the raised total peaks at no more than
/// `threshold + increment` before the (eager) decay runs, and after the
/// whole step the total is back at or below the threshold.
///
/// The threshold must dominate the increment (`3 * inc + 51 <= threshold`),
/// else one decay cannot restore the bound.
pub proof fn lemma_bounded_growth(c: Seq<u16>, nib: u8, speed: (u16, u16))
    requires
        cdf_wf(c),
        valid_speed(speed),
        3 * speed.0 + 51 <= speed.1,
        c[15] <= speed.1,
    ensures
        spec_cdf_raise(c, nib, speed.0)[15] <= speed.1 + speed.0,
        spec_cdf_update(c, nib, speed)[15] <= speed.1,
        cdf_wf(spec_cdf_update(c, nib, speed)),
{
    reveal(spec_cdf_update);
    lemma_update_preserves_wf(c, nib, speed);
    let raised = spec_cdf_raise(c, nib, speed.0);
    assert(nib & 0xf < 16) by (bit_vector);
    assert(raised[15] == (c[15] + speed.0) as u16);
    assert(raised[15] == c[15] + speed.0);
    if raised[15] >= speed.1 {
        let t = raised[15] + 16;
        assert(t <= speed.1 + speed.0 + 16);
        assert(4 * (t / 4) >= t - 3);
        assert(t - t / 4 <= speed.1);
    }
}

/// Bounded growth over any update sequence with one fixed speed pair: the
/// total never exceeds `threshold + increment`, not even transiently at the
/// peak of a step, and stays at or below the threshold between steps.
pub proof fn lemma_bounded_growth_seq(c: Seq<u16>, nibs: Seq<u8>, speed: (u16, u16))
    requires
        cdf_wf(c),
        valid_speed(speed),
        3 * speed.0 + 51 <= speed.1,
        c[15] <= speed.1,
    ensures
        cdf_wf(spec_cdf_update_seq(c, nibs, speed)),
        spec_cdf_update_seq(c, nibs, speed)[15] <= speed.1,
    decreases nibs.len(),
{
    if nibs.len() == 0 {
    } else {
        lemma_bounded_growth(c, nibs[0], speed);
        lemma_bounded_growth_seq(spec_cdf_update(c, nibs[0], speed), nibs.skip(1), speed);
    }
}

/// One adaptive distribution: 16 cumulative 16-bit counters.
pub struct CDF {
    counters: Vec<u16>,
}

impl View for CDF {
    type V = Seq<u16>;

    closed spec fn view(&self) -> Seq<u16> {
        self.counters@
    }
}

impl Clone for CDF {
    fn clone(&self) -> (c: Self)
        ensures
            c@ == self@,
    {
        let mut counters: Vec<u16> = Vec::new();
        let mut k: usize = 0;
        while k < self.counters.len()
            invariant
                k <= self.counters.len(),
                counters@ == self.counters@.take(k as int),
            decreases self.counters.len() - k,
        {
            counters.push(self.counters[k]);
            k = k + 1;
        }
        proof {
            assert(counters@ =~= self.counters@);
        }
        CDF { counters }
    }
}

impl CDF {
    /// A fresh distribution holding the uniform linear-ramp prior.
    pub fn new_uniform() -> (c: CDF)
        ensures
            c@ == spec_init_cdf(),
            cdf_wf(c@),
    {
        let counters: Vec<u16> = vec![4, 8, 12, 16, 20, 24, 28, 32, 36, 40, 44, 48, 52, 56, 60, 64];
        proof {
            assert(counters@ =~= spec_init_cdf());
        }
        CDF { counters }
    }

    /// The cumulative counter at bin `k`.
    pub fn counter(&self, k: usize) -> (r: u16)
        requires
            k < self@.len(),
        ensures
            r == self@[k as int],
    {
        self.counters[k]
    }

    /// Estimated bit length (times 256) to encode `nibble_u8` under the
    /// current counters: `log2(total) - log2(weight of the nibble)`.
    pub fn cost(&self, nibble_u8: u8) -> (r: u32)
        requires
            cdf_wf(self@),
            nibble_u8 < 16,
        ensures
            r as int == spec_cost(self@, nibble_u8),
            r <= 4095,
    {
        let total = self.counters[15];
        let pdf = if nibble_u8 == 0 {
            self.counters[0]
        } else {
            self.counters[nibble_u8 as usize] - self.counters[nibble_u8 as usize - 1]
        };
        proof {
            reveal(spec_cost);
            if nibble_u8 == 0 {
                lemma_cdf_ordered(self@, 0, 15);
            } else {
                lemma_cdf_ordered(self@, nibble_u8 as int, 15);
            }
            assert(1 <= pdf <= total);
            lemma_log2_fix_monotone(pdf as nat, total as nat);
        }
        log2_fix(total) - log2_fix(pdf)
    }

    /// Observe `nibble_u8` (its low 4 bits): raise the tail of the table by
    /// the speed's increment, then decay once the total reaches the speed's
    /// threshold.
    pub fn update(&mut self, nibble_u8: u8, speed: (u16, u16))
        requires
            cdf_wf(old(self)@),
            valid_speed(speed),
        ensures
            final(self)@ == spec_cdf_update(old(self)@, nibble_u8, speed),
            cdf_wf(final(self)@),
    {
        let ghost c0 = self@;
        let nib = (nibble_u8 & 0xf) as usize;
        proof {
            assert(nibble_u8 & 0xf < 16) by (bit_vector);
            assert forall|k: int| 0 <= k < 16 implies #[trigger] c0[k] <= c0[15] by {
                lemma_cdf_ordered(c0, k, 15);
            }
        }
        let mut k: usize = nib;
        while k < 16
            invariant
                nib <= k <= 16,
                nib < 16,
                self@.len() == 16,
                cdf_wf(c0),
                valid_speed(speed),
                forall|j: int| 0 <= j < 16 ==> #[trigger] c0[j] <= c0[15],
                forall|j: int| nib <= j < k ==> self@[j] == ((c0[j] + speed.0) as u16),
                forall|j: int| 0 <= j < nib ==> self@[j] == c0[j],
                forall|j: int| k <= j < 16 ==> self@[j] == c0[j],
            decreases 16 - k,
        {
            let v = self.counters[k] + speed.0;
            self.counters.set(k, v);
            k = k + 1;
        }
        let ghost raised = spec_cdf_raise(c0, nibble_u8, speed.0);
        proof {
            assert(self@ =~= raised);
        }
        if self.counters[15] >= speed.1 {
            let mut k: usize = 0;
            while k < 16
                invariant
                    k <= 16,
                    self@.len() == 16,
                    forall|j: int| 0 <= j < k ==> self@[j] == spec_rescale_bin(raised[j], j + 1),
                    forall|j: int| k <= j < 16 ==> self@[j] == raised[j],
                    forall|j: int| 0 <= j < 16 ==> raised[j] <= 65520,
                decreases 16 - k,
            {
                let t: u32 = self.counters[k] as u32 + (k as u32 + 1);
                let v: u32 = t - t / 4;
                proof {
                    assert(v <= 49164);
                }
                self.counters.set(k, v as u16);
                k = k + 1;
            }
            proof {
                assert(self@ =~= spec_cdf_rescale(raised));
            }
        }
        proof {
            reveal(spec_cdf_update);
            lemma_update_preserves_wf(c0, nibble_u8, speed);
        }
    }
}

/// Reset every distribution in a table to the uniform linear-ramp prior.
pub fn init_cdfs(cdfs: &mut Vec<CDF>)
    ensures
        final(cdfs)@.len() == old(cdfs)@.len(),
        forall|i: int| 0 <= i < final(cdfs)@.len() ==> #[trigger] final(cdfs)@[i]@ == spec_init_cdf(),
{
    let mut i: usize = 0;
    while i < cdfs.len()
        invariant
            i <= cdfs@.len(),
            cdfs@.len() == old(cdfs)@.len(),
            forall|j: int| 0 <= j < i ==> #[trigger] cdfs@[j]@ == spec_init_cdf(),
        decreases cdfs.len() - i,
    {
        cdfs.set(i, CDF::new_uniform());
        i = i + 1;
    }
}

} // verus!
