//! Behavior of the fixed-point logarithm and the adaptive distribution.

use prior_eval::cdf::{init_cdfs, CDF};
use prior_eval::fixed_log::log2_fix;

#[test]
fn log2_fix_exact_values() {
    assert_eq!(log2_fix(1), 0);
    assert_eq!(log2_fix(2), 256);
    // Inside the octave the fraction interpolates linearly: 3 sits halfway
    // between 2 and 4.
    assert_eq!(log2_fix(3), 384);
    assert_eq!(log2_fix(4), 512);
    assert_eq!(log2_fix(64), 1536);
    assert_eq!(log2_fix(65535), 4095);
}

#[test]
fn fresh_distribution_is_uniform() {
    let c = CDF::new_uniform();
    for k in 0..16 {
        assert_eq!(c.counter(k), 4 * (k as u16 + 1));
    }
    // Uniform prior: every nibble costs log2(64) - log2(4) = 4 bits.
    for nib in 0..16 {
        assert_eq!(c.cost(nib), 1024);
    }
}

#[test]
fn update_raises_the_tail_and_cheapens_the_symbol() {
    let mut c = CDF::new_uniform();
    c.update(3, (8, 8192));
    // Counters below the observed nibble are untouched, the tail gains 8.
    assert_eq!(c.counter(2), 12);
    assert_eq!(c.counter(3), 24);
    assert_eq!(c.counter(15), 72);
    // pdf(3) = 24 - 12 = 12, total = 72.
    assert_eq!(c.cost(3), 672);
    // Everything else got more expensive than the uniform 4 bits.
    assert!(c.cost(2) > 1024);
}

#[test]
fn rescale_is_eager_and_decays_by_a_quarter() {
    let mut c = CDF::new_uniform();
    // Threshold 64 is already reached by the raise, so the decay runs at
    // once: counter[15] = (72 + 16) - (88 >> 2) = 66.
    c.update(15, (8, 64));
    assert_eq!(c.counter(15), 66);
    assert_eq!(c.counter(14), 57);
    assert_eq!(c.cost(15), 744);
}

#[test]
fn counters_stay_monotone_under_many_updates() {
    let mut c = CDF::new_uniform();
    for i in 0..3000u32 {
        let nib = ((i * 7 + 3) % 16) as u8;
        c.update(nib, (8, 8192));
        for k in 1..16 {
            assert!(c.counter(k - 1) < c.counter(k));
        }
        assert!(c.counter(0) >= 1);
    }
}

#[test]
fn repeated_symbol_dominates_the_distribution() {
    let mut c = CDF::new_uniform();
    for _ in 0..100 {
        c.update(7, (8, 8192));
    }
    assert!(c.cost(7) < 1024);
    assert!(c.cost(0) > 1024);
}

#[test]
fn zero_increment_speed_leaves_the_distribution_static() {
    let mut c = CDF::new_uniform();
    for _ in 0..500 {
        c.update(9, (0, 1024));
    }
    for k in 0..16 {
        assert_eq!(c.counter(k), 4 * (k as u16 + 1));
    }
}

#[test]
fn growth_stays_under_threshold_plus_increment() {
    let mut c = CDF::new_uniform();
    for i in 0..5000u32 {
        c.update((i % 16) as u8, (8, 8192));
        assert!(c.counter(15) <= 8192 + 8);
    }
}

#[test]
fn init_cdfs_resets_every_table_entry() {
    let mut table = vec![CDF::new_uniform(), CDF::new_uniform(), CDF::new_uniform()];
    table[1].update(5, (8, 8192));
    table[2].update(0, (8, 64));
    init_cdfs(&mut table);
    for c in &table {
        for k in 0..16 {
            assert_eq!(c.counter(k), 4 * (k as u16 + 1));
        }
    }
}
