//! The competing model variants.
//!
//! Each variant defines only an index function mapping `(predicted stride
//! byte, selected context bits, context byte, optionally the already-decoded
//! high nibble)` to a slot of its prior table; distribution handling and the
//! tournament are shared. The two-stage scheme looks up an unconditioned
//! slot for the high nibble (`high_nibble == None`) and a slot conditioned
//! on the observed high nibble for the low nibble (`high_nibble == Some(h)`).

use vstd::prelude::*;

verus! {

/// Slots per context-model table: 256 context bytes times 17 conditioning
/// slots (1 unconditioned + 16 conditioned on the high nibble).
pub const CONTEXT_MAP_PRIOR_SIZE: usize = 256 * 17;

/// Slots per stride-lag table: 256 contexts times 256 stride bytes times
/// the two coding stages.
pub const STRIDE_PRIOR_SIZE: usize = 256 * 256 * 2;

/// Slots of the advanced table: two disjoint regions, a coarse high-nibble
/// region and a fine low-nibble region with full joint resolution.
pub const ADV_PRIOR_SIZE: usize = 256 * 256 * 16 * 2;

/// Number of competing model variants (also the score-lane count).
pub const NUM_PRIORS: usize = 8;

/// Identity of one model variant; doubles as its score-lane ordinal.
#[allow(non_camel_case_types)]
#[derive(Clone, Copy, Debug, PartialEq, Eq, Structural)]
pub enum WhichPrior {
    CM,
    ADV,
    SLOW_CM,
    FAST_CM,
    STRIDE1,
    STRIDE2,
    STRIDE3,
    STRIDE4,
}

/// Score-lane ordinal of a model variant.
pub open spec fn spec_which_index(w: WhichPrior) -> int {
    match w {
        WhichPrior::CM => 0,
        WhichPrior::ADV => 1,
        WhichPrior::SLOW_CM => 2,
        WhichPrior::FAST_CM => 3,
        WhichPrior::STRIDE1 => 4,
        WhichPrior::STRIDE2 => 5,
        WhichPrior::STRIDE3 => 6,
        WhichPrior::STRIDE4 => 7,
    }
}

impl WhichPrior {
    /// Score-lane ordinal of this variant.
    pub fn as_index(&self) -> (r: usize)
        ensures
            r == spec_which_index(*self),
            r < NUM_PRIORS,
    {
        match *self {
            WhichPrior::CM => 0,
            WhichPrior::ADV => 1,
            WhichPrior::SLOW_CM => 2,
            WhichPrior::FAST_CM => 3,
            WhichPrior::STRIDE1 => 4,
            WhichPrior::STRIDE2 => 5,
            WhichPrior::STRIDE3 => 6,
            WhichPrior::STRIDE4 => 7,
        }
    }
}

/// A nibble argument is either absent (high-nibble stage) or an already
/// observed high nibble below 16.
pub open spec fn nibble_arg_ok(high_nibble: Option<u8>) -> bool {
    match high_nibble {
        Option::Some(n) => n < 16,
        Option::None => true,
    }
}

/// One model variant's slot addressing: a total map from model input to a
/// slot inside a table of `spec_table_size()` distributions.
pub trait Prior {
    /// Number of slots in this variant's prior table.
    spec fn spec_table_size() -> int;

    /// The slot this variant files the given model input under.
    spec fn spec_lookup(stride_byte: u8, actual_context: int, high_nibble: Option<u8>) -> int;

    /// Which variant this is.
    spec fn spec_which() -> WhichPrior;

    /// Table slot for the given model input.
    fn lookup_lin(
        stride_byte: u8,
        selected_context: u8,
        actual_context: usize,
        high_nibble: Option<u8>,
    ) -> (r: usize)
        requires
            actual_context < 256,
            nibble_arg_ok(high_nibble),
        ensures
            r == Self::spec_lookup(stride_byte, actual_context as int, high_nibble),
            0 <= r < Self::spec_table_size(),
    ;

    /// Identity of this variant.
    fn which() -> (w: WhichPrior)
        ensures
            w == Self::spec_which(),
    ;
}

/// Shared slot addressing of the four stride-lag variants: the high stage
/// is keyed by context and full stride byte, the low stage by context, the
/// low stride nibble and the observed high nibble.
pub open spec fn spec_stride_lookup(stride_byte: u8, actual_context: int, high_nibble: Option<u8>) -> int {
    match high_nibble {
        Option::Some(n) => 1 + 2 * (actual_context + 256 * (stride_byte as int % 16) + 4096 * n),
        Option::None => 2 * (actual_context + 256 * stride_byte as int),
    }
}

/// Table slot used by every stride-lag variant for the given model input.
pub fn stride_lookup_lin(
    stride_byte: u8,
    selected_context: u8,
    actual_context: usize,
    high_nibble: Option<u8>,
) -> (r: usize)
    requires
        actual_context < 256,
        nibble_arg_ok(high_nibble),
    ensures
        r == spec_stride_lookup(stride_byte, actual_context as int, high_nibble),
        r < STRIDE_PRIOR_SIZE,
{
    match high_nibble {
        Option::Some(nibble) => {
            1 + 2 * (actual_context + 256 * ((stride_byte % 16) as usize) + 4096 * (nibble as usize))
        },
        Option::None => 2 * (actual_context + 256 * (stride_byte as usize)),
    }
}

/// Stride-lag variant looking back 1 position.
pub struct Stride1Prior {}

impl Stride1Prior {
    /// How far back in the stride-history ring this variant looks, minus 1.
    pub fn offset() -> (r: usize)
        ensures
            r == 0,
    {
        0
    }
}

impl Prior for Stride1Prior {
    open spec fn spec_table_size() -> int {
        STRIDE_PRIOR_SIZE as int
    }

    open spec fn spec_lookup(stride_byte: u8, actual_context: int, high_nibble: Option<u8>) -> int {
        spec_stride_lookup(stride_byte, actual_context, high_nibble)
    }

    open spec fn spec_which() -> WhichPrior {
        WhichPrior::STRIDE1
    }

    fn lookup_lin(
        stride_byte: u8,
        selected_context: u8,
        actual_context: usize,
        high_nibble: Option<u8>,
    ) -> usize {
        stride_lookup_lin(stride_byte, selected_context, actual_context, high_nibble)
    }

    fn which() -> WhichPrior {
        WhichPrior::STRIDE1
    }
}

/// Stride-lag variant looking back 2 positions.
pub struct Stride2Prior {}

impl Stride2Prior {
    /// How far back in the stride-history ring this variant looks, minus 1.
    pub fn offset() -> (r: usize)
        ensures
            r == 1,
    {
        1
    }
}

impl Prior for Stride2Prior {
    open spec fn spec_table_size() -> int {
        STRIDE_PRIOR_SIZE as int
    }

    open spec fn spec_lookup(stride_byte: u8, actual_context: int, high_nibble: Option<u8>) -> int {
        spec_stride_lookup(stride_byte, actual_context, high_nibble)
    }

    open spec fn spec_which() -> WhichPrior {
        WhichPrior::STRIDE2
    }

    fn lookup_lin(
        stride_byte: u8,
        selected_context: u8,
        actual_context: usize,
        high_nibble: Option<u8>,
    ) -> usize {
        stride_lookup_lin(stride_byte, selected_context, actual_context, high_nibble)
    }

    fn which() -> WhichPrior {
        WhichPrior::STRIDE2
    }
}

/// Stride-lag variant looking back 3 positions.
pub struct Stride3Prior {}

impl Stride3Prior {
    /// How far back in the stride-history ring this variant looks, minus 1.
    pub fn offset() -> (r: usize)
        ensures
            r == 2,
    {
        2
    }
}

impl Prior for Stride3Prior {
    open spec fn spec_table_size() -> int {
        STRIDE_PRIOR_SIZE as int
    }

    open spec fn spec_lookup(stride_byte: u8, actual_context: int, high_nibble: Option<u8>) -> int {
        spec_stride_lookup(stride_byte, actual_context, high_nibble)
    }

    open spec fn spec_which() -> WhichPrior {
        WhichPrior::STRIDE3
    }

    fn lookup_lin(
        stride_byte: u8,
        selected_context: u8,
        actual_context: usize,
        high_nibble: Option<u8>,
    ) -> usize {
        stride_lookup_lin(stride_byte, selected_context, actual_context, high_nibble)
    }

    fn which() -> WhichPrior {
        WhichPrior::STRIDE3
    }
}

/// Stride-lag variant looking back 4 positions.
pub struct Stride4Prior {}

impl Stride4Prior {
    /// How far back in the stride-history ring this variant looks, minus 1.
    pub fn offset() -> (r: usize)
        ensures
            r == 3,
    {
        3
    }
}

impl Prior for Stride4Prior {
    open spec fn spec_table_size() -> int {
        STRIDE_PRIOR_SIZE as int
    }

    open spec fn spec_lookup(stride_byte: u8, actual_context: int, high_nibble: Option<u8>) -> int {
        spec_stride_lookup(stride_byte, actual_context, high_nibble)
    }

    open spec fn spec_which() -> WhichPrior {
        WhichPrior::STRIDE4
    }

    fn lookup_lin(
        stride_byte: u8,
        selected_context: u8,
        actual_context: usize,
        high_nibble: Option<u8>,
    ) -> usize {
        stride_lookup_lin(stride_byte, selected_context, actual_context, high_nibble)
    }

    fn which() -> WhichPrior {
        WhichPrior::STRIDE4
    }
}

/// Shared slot addressing of the two-stage context models: slot 0 of each
/// context's group of 17 holds the unconditioned high-nibble distribution,
/// slots 1..=16 the low-nibble distributions conditioned on the high nibble.
pub open spec fn spec_cm_lookup(actual_context: int, high_nibble: Option<u8>) -> int {
    match high_nibble {
        Option::Some(n) => 17 * actual_context + 1 + n,
        Option::None => 17 * actual_context,
    }
}

/// Slot addressing of the coarse context model: two slots per context,
/// distinguishing only whether the high nibble is known.
pub open spec fn spec_fast_cm_lookup(actual_context: int, high_nibble: Option<u8>) -> int {
    match high_nibble {
        Option::Some(n) => 2 * actual_context,
        Option::None => 2 * actual_context + 1,
    }
}

/// Slot addressing of the advanced variant: a coarse high-nibble region
/// below 65536 and a fine low-nibble region above it.
pub open spec fn spec_adv_lookup(stride_byte: u8, actual_context: int, high_nibble: Option<u8>) -> int {
    match high_nibble {
        Option::Some(n) => 65536 + actual_context + 256 * stride_byte as int + 65536 * n,
        Option::None => actual_context + 256 * (stride_byte as int - stride_byte as int % 16),
    }
}

/// Baseline two-stage context model.
pub struct CMPrior {}

impl Prior for CMPrior {
    open spec fn spec_table_size() -> int {
        CONTEXT_MAP_PRIOR_SIZE as int
    }

    open spec fn spec_lookup(stride_byte: u8, actual_context: int, high_nibble: Option<u8>) -> int {
        spec_cm_lookup(actual_context, high_nibble)
    }

    open spec fn spec_which() -> WhichPrior {
        WhichPrior::CM
    }

    fn lookup_lin(
        stride_byte: u8,
        selected_context: u8,
        actual_context: usize,
        high_nibble: Option<u8>,
    ) -> usize {
        match high_nibble {
            Option::Some(nibble) => 17 * actual_context + 1 + nibble as usize,
            Option::None => 17 * actual_context,
        }
    }

    fn which() -> WhichPrior {
        WhichPrior::CM
    }
}

/// Near-static variant of the context model: same addressing as the
/// baseline, in a table of its own, driven at a fixed very slow speed.
pub struct SlowCMPrior {}

impl Prior for SlowCMPrior {
    open spec fn spec_table_size() -> int {
        CONTEXT_MAP_PRIOR_SIZE as int
    }

    open spec fn spec_lookup(stride_byte: u8, actual_context: int, high_nibble: Option<u8>) -> int {
        spec_cm_lookup(actual_context, high_nibble)
    }

    open spec fn spec_which() -> WhichPrior {
        WhichPrior::SLOW_CM
    }

    fn lookup_lin(
        stride_byte: u8,
        selected_context: u8,
        actual_context: usize,
        high_nibble: Option<u8>,
    ) -> usize {
        match high_nibble {
            Option::Some(nibble) => 17 * actual_context + 1 + nibble as usize,
            Option::None => 17 * actual_context,
        }
    }

    fn which() -> WhichPrior {
        WhichPrior::SLOW_CM
    }
}

/// Coarse context model: only two slots per context, distinguishing "high
/// nibble known" from "unknown" but not its value. Cheaper and under-fit,
/// so selection charges it a fixed penalty.
pub struct FastCMPrior {}

impl Prior for FastCMPrior {
    open spec fn spec_table_size() -> int {
        CONTEXT_MAP_PRIOR_SIZE as int
    }

    open spec fn spec_lookup(stride_byte: u8, actual_context: int, high_nibble: Option<u8>) -> int {
        spec_fast_cm_lookup(actual_context, high_nibble)
    }

    open spec fn spec_which() -> WhichPrior {
        WhichPrior::FAST_CM
    }

    fn lookup_lin(
        stride_byte: u8,
        selected_context: u8,
        actual_context: usize,
        high_nibble: Option<u8>,
    ) -> usize {
        match high_nibble {
            Option::Some(nibble) => 2 * actual_context,
            Option::None => 2 * actual_context + 1,
        }
    }

    fn which() -> WhichPrior {
        WhichPrior::FAST_CM
    }
}

/// Advanced combined variant: one table split into two disjoint address
/// regions. The high-nibble region is keyed by context and the coarse
/// stride bits; the low-nibble region has full joint resolution over
/// context, stride byte and observed high nibble.
pub struct AdvPrior {}

impl Prior for AdvPrior {
    open spec fn spec_table_size() -> int {
        ADV_PRIOR_SIZE as int
    }

    open spec fn spec_lookup(stride_byte: u8, actual_context: int, high_nibble: Option<u8>) -> int {
        spec_adv_lookup(stride_byte, actual_context, high_nibble)
    }

    open spec fn spec_which() -> WhichPrior {
        WhichPrior::ADV
    }

    fn lookup_lin(
        stride_byte: u8,
        selected_context: u8,
        actual_context: usize,
        high_nibble: Option<u8>,
    ) -> usize {
        match high_nibble {
            Option::Some(nibble) => {
                65536 + actual_context + 256 * (stride_byte as usize) + 65536 * (nibble as usize)
            },
            Option::None => {
                actual_context + 256 * ((stride_byte as usize) - (stride_byte % 16) as usize)
            },
        }
    }

    fn which() -> WhichPrior {
        WhichPrior::ADV
    }
}

/// Mixing bucket scored by the high-nibble stage of a literal: coarse
/// grouping over the context byte and the top bits of the predicted stride
/// byte.
pub open spec fn spec_upper_score_index(stride_byte: u8, actual_context: int) -> int {
    actual_context + 256 * (stride_byte as int / 16)
}

/// Mixing bucket scored by the low-nibble stage: grouped by the context
/// byte and the observed high nibble, in a region of its own above the
/// high-stage buckets.
pub open spec fn spec_lower_score_index(actual_context: int, high_nibble: u8) -> int {
    actual_context + 4096 + 256 * high_nibble as int
}

/// Mixing bucket accumulating the high-nibble stage costs of a literal.
pub fn upper_score_index(stride_byte: u8, selected_context: u8, actual_context: usize) -> (r: usize)
    requires
        actual_context < 256,
    ensures
        r == spec_upper_score_index(stride_byte, actual_context as int),
        r < 4096,
{
    actual_context + 256 * ((stride_byte / 16) as usize)
}

/// Mixing bucket accumulating the low-nibble stage costs of a literal.
pub fn lower_score_index(
    stride_byte: u8,
    selected_context: u8,
    actual_context: usize,
    high_nibble: u8,
) -> (r: usize)
    requires
        actual_context < 256,
        high_nibble < 16,
    ensures
        r == spec_lower_score_index(actual_context as int, high_nibble),
        4096 <= r < 8192,
{
    actual_context + 4096 + 256 * (high_nibble as usize)
}

} // verus!
