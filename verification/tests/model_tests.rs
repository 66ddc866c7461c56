//! Slot addressing of the model variants and the score-bucket keys.

use prior_eval::models::{
    lower_score_index, stride_lookup_lin, upper_score_index, AdvPrior, CMPrior, FastCMPrior,
    Prior, SlowCMPrior, Stride1Prior, Stride2Prior, Stride3Prior, Stride4Prior, WhichPrior,
};

#[test]
fn stride_offsets_are_the_four_lags() {
    assert_eq!(Stride1Prior::offset(), 0);
    assert_eq!(Stride2Prior::offset(), 1);
    assert_eq!(Stride3Prior::offset(), 2);
    assert_eq!(Stride4Prior::offset(), 3);
}

#[test]
fn which_prior_ordinals() {
    assert_eq!(WhichPrior::CM.as_index(), 0);
    assert_eq!(WhichPrior::ADV.as_index(), 1);
    assert_eq!(WhichPrior::SLOW_CM.as_index(), 2);
    assert_eq!(WhichPrior::FAST_CM.as_index(), 3);
    assert_eq!(WhichPrior::STRIDE1.as_index(), 4);
    assert_eq!(WhichPrior::STRIDE2.as_index(), 5);
    assert_eq!(WhichPrior::STRIDE3.as_index(), 6);
    assert_eq!(WhichPrior::STRIDE4.as_index(), 7);
    assert_eq!(Stride1Prior::which().as_index(), 4);
    assert_eq!(CMPrior::which().as_index(), 0);
    assert_eq!(AdvPrior::which().as_index(), 1);
}

#[test]
fn context_model_addressing() {
    // Slot 0 of each group of 17 is the unconditioned high-nibble slot.
    assert_eq!(CMPrior::lookup_lin(0x7f, 0, 0x41, None), 17 * 0x41);
    assert_eq!(CMPrior::lookup_lin(0x7f, 0, 0x41, Some(9)), 17 * 0x41 + 10);
    assert_eq!(SlowCMPrior::lookup_lin(0, 0, 255, Some(15)), 17 * 255 + 16);
    // The stride byte never matters for the context models.
    assert_eq!(
        CMPrior::lookup_lin(0x00, 0, 0x41, None),
        CMPrior::lookup_lin(0xff, 0, 0x41, None)
    );
}

#[test]
fn fast_context_model_ignores_the_nibble_value() {
    assert_eq!(FastCMPrior::lookup_lin(0, 0, 10, None), 21);
    assert_eq!(FastCMPrior::lookup_lin(0, 0, 10, Some(3)), 20);
    assert_eq!(
        FastCMPrior::lookup_lin(0, 0, 10, Some(3)),
        FastCMPrior::lookup_lin(0, 0, 10, Some(12))
    );
}

#[test]
fn stride_model_addressing() {
    assert_eq!(stride_lookup_lin(0xab, 0, 0x41, None), 2 * (0x41 | 0xab00));
    assert_eq!(
        stride_lookup_lin(0xab, 0, 0x41, Some(0x6)),
        1 + 2 * (0x41 | 0x0b00 | 0x6000)
    );
    assert_eq!(
        Stride1Prior::lookup_lin(0xab, 0, 0x41, None),
        Stride4Prior::lookup_lin(0xab, 0, 0x41, None)
    );
    assert_eq!(
        Stride2Prior::lookup_lin(0xab, 0, 0x41, Some(2)),
        Stride3Prior::lookup_lin(0xab, 0, 0x41, Some(2))
    );
}

#[test]
fn advanced_model_addressing_splits_two_regions() {
    // High stage: context plus the coarse stride bits, below 65536.
    assert_eq!(AdvPrior::lookup_lin(0xab, 0, 0x41, None), 0x41 | 0xa000);
    // Low stage: full joint resolution, at or above 65536.
    assert_eq!(
        AdvPrior::lookup_lin(0xab, 0, 0x41, Some(0xe)),
        65536 + (0x41 | 0xab00 | 0xe0000)
    );
    assert!(AdvPrior::lookup_lin(0xff, 0, 255, None) < 65536);
}

#[test]
fn score_bucket_keys() {
    assert_eq!(upper_score_index(0xab, 0, 0x41), 0x41 + 256 * 0xa);
    assert_eq!(lower_score_index(0xab, 0, 0x41, 0x6), 0x41 + 4096 + 256 * 0x6);
    // The two stages score into disjoint bucket ranges.
    assert!(upper_score_index(0xff, 0, 255) < 4096);
    assert!(lower_score_index(0x00, 0, 0, 0) >= 4096);
}
