//! End-to-end behavior of the shadow evaluator and the bucket selector.

use prior_eval::context_map::{EncoderParams, PredictionModeContextMap};
use prior_eval::eval::PriorEval;

fn enabled_params() -> EncoderParams {
    EncoderParams { prior_bitmask_detection: true, literal_adaptation: [(0, 0); 4] }
}

fn fresh_map() -> PredictionModeContextMap {
    PredictionModeContextMap::empty()
}

#[test]
fn repeated_byte_prefers_a_context_model() {
    // 10,000 repetitions of byte 0x41, all routed to one bucket: no stride
    // or cross-context signal exists, so the bucket must settle on the
    // baseline or the fast context variant, never a stride variant.
    let mut ev = PriorEval::new(Vec::new(), Vec::new(), fresh_map(), &enabled_params());
    for _ in 0..10000 {
        ev.update_cost([0; 8], 0, 0, 10, 0x41);
    }
    // Cost per symbol stabilizes: the late cost of the baseline lane is a
    // tiny fraction of its early cost.
    let upper_bucket = 10;
    let cm_total = ev.accumulated_cost(upper_bucket, 0);
    assert!(cm_total < 10000 * 256, "baseline cost should trend to a minimum");
    ev.choose_bitmask();
    let map = ev.take_prediction_mode();
    let label = map.mixing_values[upper_bucket];
    assert!(label == 0 || label == 3, "expected a context model, got {}", label);
    ev.free();
}

#[test]
fn matching_stride_prediction_selects_a_stride_variant() {
    // The stride-predicted byte equals every literal byte; the literals
    // cycle through 0x40..=0x4f so the context models see a uniform low
    // nibble while the stride models predict it exactly.
    let mut ev = PriorEval::new(Vec::new(), Vec::new(), fresh_map(), &enabled_params());
    for i in 0..4096u32 {
        let lit = 0x40u8 + (i % 16) as u8;
        ev.update_cost([lit; 8], 0, 0, 5, lit);
    }
    let lower_bucket = 5 + 4096 + 256 * 4;
    let stride_cost = ev.accumulated_cost(lower_bucket, 4);
    let baseline_cost = ev.accumulated_cost(lower_bucket, 0);
    assert!(
        stride_cost < baseline_cost,
        "stride lane must be strictly cheaper: {} vs {}",
        stride_cost,
        baseline_cost
    );
    ev.choose_bitmask();
    let map = ev.take_prediction_mode();
    let label = map.mixing_values[lower_bucket];
    assert_eq!(label, 4, "tie over the stride lags resolves to lag 1");
    ev.free();
}

#[test]
fn disabled_detection_allocates_nothing_and_selects_baseline() {
    let params = EncoderParams { prior_bitmask_detection: false, literal_adaptation: [(0, 0); 4] };
    let mut ev = PriorEval::new(Vec::new(), Vec::new(), fresh_map(), &params);
    assert!(!ev.tables_allocated());
    // The pass completes without touching any distribution.
    for i in 0..100u32 {
        ev.update_cost([7; 8], i as usize, 0, (i % 256) as usize, (i % 256) as u8);
    }
    ev.choose_bitmask();
    let map = ev.take_prediction_mode();
    assert_eq!(map.mixing_values.len(), 8192);
    assert!(map.mixing_values.iter().all(|&v| v == 0));
}

#[test]
fn identical_streams_give_identical_results() {
    let run = || {
        let mut ev = PriorEval::new(Vec::new(), Vec::new(), fresh_map(), &enabled_params());
        let mut ring = [0u8; 8];
        for i in 0..2000u32 {
            let lit = ((i * 7 + 3) % 256) as u8;
            let ctx = ((i * 13) % 256) as usize;
            ev.update_cost(ring, i as usize, 0, ctx, lit);
            ring[(i % 8) as usize] = lit;
        }
        let probes: Vec<u64> =
            (0..8).map(|w| ev.accumulated_cost(3, w)).collect();
        ev.choose_bitmask();
        let map = ev.take_prediction_mode();
        ev.free();
        (probes, map.mixing_values)
    };
    let (probes_a, mix_a) = run();
    let (probes_b, mix_b) = run();
    assert_eq!(probes_a, probes_b, "accumulated costs must be bit-identical");
    assert_eq!(mix_a, mix_b, "selection arrays must be identical");
}

#[test]
fn every_selected_label_is_a_model_ordinal() {
    let mut ev = PriorEval::new(Vec::new(), Vec::new(), fresh_map(), &enabled_params());
    for i in 0..3000u32 {
        let lit = ((i * 31 + 17) % 256) as u8;
        let ctx = ((i * 5) % 256) as usize;
        let sb = ((i * 11) % 256) as u8;
        ev.update_cost([sb; 8], i as usize, 0, ctx, lit);
    }
    ev.choose_bitmask();
    let map = ev.take_prediction_mode();
    assert_eq!(map.mixing_values.len(), 8192);
    assert!(map.mixing_values.iter().all(|&v| v < 8));
}

#[test]
fn unvisited_buckets_inherit_the_running_majority() {
    // Visit only context 9; every other upper bucket falls back to the
    // majority selection, which is whatever bucket 9 chose.
    let mut ev = PriorEval::new(Vec::new(), Vec::new(), fresh_map(), &enabled_params());
    for _ in 0..500 {
        ev.update_cost([0; 8], 0, 0, 9, 0x33);
    }
    ev.choose_bitmask();
    let map = ev.take_prediction_mode();
    let chosen = map.mixing_values[9];
    for b in [0usize, 1, 100, 4095, 4096, 8191] {
        assert_eq!(map.mixing_values[b], chosen);
    }
}

#[test]
fn block_and_offset_bookkeeping() {
    let mut ev = PriorEval::new(
        vec![0x10, 0x20, 0x30],
        vec![1, 2],
        fresh_map(),
        &EncoderParams { prior_bitmask_detection: false, literal_adaptation: [(0, 0); 4] },
    );
    assert_eq!(ev.block_type(), 0);
    assert_eq!(ev.local_byte_offset(), 0);
    ev.update_block_type(3, 2);
    assert_eq!(ev.block_type(), 3);
    ev.inc_local_byte_offset(5);
    ev.inc_local_byte_offset(2);
    assert_eq!(ev.local_byte_offset(), 7);
    assert_eq!(ev.literal_data_at_offset(1), 0x20);
}

#[test]
fn take_prediction_mode_leaves_an_empty_placeholder() {
    let mut map = PredictionModeContextMap::empty();
    map.literal_context_map = vec![1, 2, 3];
    map.literal_prediction_mode = 2;
    map.cm_speed_low = (4, 1024);
    let params = EncoderParams { prior_bitmask_detection: false, literal_adaptation: [(0, 0); 4] };
    let mut ev = PriorEval::new(Vec::new(), Vec::new(), map, &params);
    assert_eq!(ev.prediction_mode(), 2);
    assert_eq!(ev.literal_context_map().len(), 3);
    let taken = ev.take_prediction_mode();
    assert_eq!(taken.literal_context_map, vec![1, 2, 3]);
    assert_eq!(taken.cm_speed_low, (4, 1024));
    // The evaluator now holds only the placeholder.
    let placeholder = ev.take_prediction_mode();
    assert_eq!(placeholder.literal_context_map.len(), 0);
    assert_eq!(placeholder.cm_speed_low, (0, 0));
}
