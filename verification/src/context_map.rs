//! Plain-data views of the evaluator's collaborators.
//!
//! The surrounding encoder owns a context map (per-position context-bucket
//! assignment, literal prediction mode, configured adaptation speeds) and a
//! set of encoder parameters. The evaluator only reads plain values from
//! them and writes the final per-bucket selection back, so they are carried
//! here as plain structs.

use vstd::prelude::*;

verus! {

/// Number of mixing buckets a pass scores and the selector labels: 4096
/// high-stage buckets followed by 4096 low-stage buckets.
pub const NUM_MIXING_VALUES: usize = 8192;

/// The borrowed context-map collaborator: everything the evaluator reads
/// from it, and the selection array it receives back.
pub struct PredictionModeContextMap {
    /// Per-position context-bucket assignment for literals.
    pub literal_context_map: Vec<u8>,
    /// Literal prediction mode nibble.
    pub literal_prediction_mode: u8,
    /// Configured context-model speed for the low-nibble stage; `(0, 0)`
    /// means unset.
    pub cm_speed_low: (u16, u16),
    /// Configured context-model speed for the high-nibble stage; `(0, 0)`
    /// means unset.
    pub cm_speed_high: (u16, u16),
    /// Configured stride-model speed for the low-nibble stage; `(0, 0)`
    /// means unset.
    pub stride_speed_low: (u16, u16),
    /// Configured stride-model speed for the high-nibble stage; `(0, 0)`
    /// means unset.
    pub stride_speed_high: (u16, u16),
    /// Final per-bucket model selection, one label per mixing bucket, as
    /// written by the selector.
    pub mixing_values: Vec<u8>,
}

impl PredictionModeContextMap {
    /// The empty placeholder left behind when the collaborator's ownership
    /// is handed back to the caller.
    pub fn empty() -> (r: Self)
        ensures
            r.literal_context_map@.len() == 0,
            r.literal_prediction_mode == 0,
            r.cm_speed_low == ((0u16, 0u16)),
            r.cm_speed_high == ((0u16, 0u16)),
            r.stride_speed_low == ((0u16, 0u16)),
            r.stride_speed_high == ((0u16, 0u16)),
            r.mixing_values@.len() == 0,
    {
        PredictionModeContextMap {
            literal_context_map: Vec::new(),
            literal_prediction_mode: 0,
            cm_speed_low: (0, 0),
            cm_speed_high: (0, 0),
            stride_speed_low: (0, 0),
            stride_speed_high: (0, 0),
            mixing_values: Vec::new(),
        }
    }

    /// Record the final per-bucket selection array.
    pub fn set_mixing_values(&mut self, values: Vec<u8>)
        ensures
            final(self).mixing_values == values,
            final(self).literal_context_map == old(self).literal_context_map,
            final(self).literal_prediction_mode == old(self).literal_prediction_mode,
            final(self).cm_speed_low == old(self).cm_speed_low,
            final(self).cm_speed_high == old(self).cm_speed_high,
            final(self).stride_speed_low == old(self).stride_speed_low,
            final(self).stride_speed_high == old(self).stride_speed_high,
    {
        self.mixing_values = values;
    }
}

/// The encoder configuration the evaluator reads.
pub struct EncoderParams {
    /// Gates the whole tournament: when false no prior table is allocated
    /// and the pass degenerates to a no-op with a well-defined selection.
    pub prior_bitmask_detection: bool,
    /// Configured adaptation speeds, in order: stride low stage, stride
    /// high stage, context-model low stage, context-model high stage;
    /// `(0, 0)` means unset.
    pub literal_adaptation: [(u16, u16); 4],
}

} // verus!
