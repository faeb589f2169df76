pub mod buster;
pub mod calibrate;
pub mod classify;
pub mod containers;
pub mod edges;
pub mod estimate;
pub mod laws;
pub mod lcd;
pub mod letters;
pub mod manager;
pub mod types;

pub use buster::be_busted;
pub use calibrate::{calc_digital_cutoffs, cutoffs_of, isum};
pub use classify::{
    best_error, best_morse, best_of, calc_error, cand_err, candidate_to_morse,
    lemma_best_props, lemma_classify_state_and_score, mc_to_morse, morse_candidates,
    tle_to_best_morse,
};
pub use containers::{
    key_model, morse_queue_model, sample_buf_model, sample_queue_model, tle_batch_model,
    tle_queue_model, MorseKey, MorseQueue, SampleBuf, SampleQueue, TleBatch, TleQueue,
};
pub use edges::{
    detect_spans, detect_step, edge_next, hysteresis_next, intensities_to_tles,
    lemma_detect_ranges, samples_ok, ConsumeSamplesInfo,
};
pub use estimate::{
    batch_ok, best_grid_upto, estimate_unit_time, grid_point, lemma_best_grid_props,
    lemma_sum_scores_bound, score_possible_unit_millis, sum_scores,
};
pub use laws::{
    lemma_assemble_fusion, lemma_definitive_fusion, lemma_detect_fusion, lemma_flush_composes,
    lemma_manager_flush_composes,
    lemma_second_flush_empty, lemma_second_flush_empty_manager, lemma_sustained_light_no_chars,
    mgr_feed_all, settled,
};
pub use lcd::{numeric_of, Delay, InternalLcdCommand, LcdCommand, PrivateLcdCommand};
pub use letters::{
    bits_nat, boundary_pos, construct_key, consume_step, definitive_consume_morses_produce_letter,
    definitive_spec, is_boundary, is_mark, lemma_symbol_table_round_trip, letter_morse,
    morse_table, private_consume_morses_produce_letter, serialize_morse, serialize_spec,
    validate_morse_letter_tiny_spaces, validate_spec,
};
pub use manager::{
    assemble_all, conv_classify, conv_feed, conv_flush, conv_init, conv_inv, conv_run_unit,
    conv_spill, feed_all, mgr_add, mgr_flush, mgr_init, mgr_inv, ConvState, MgrState,
    MorseConverter, MorseManager,
};
pub use types::{
    CalcDigitalCutoffsErrs, ConvertErrs, DeriveUnitTimeConfig, IntensityCutoffs, LightIntensity,
    LightState, Morse, MorseCandidate, MorseErr, MorseSequenceSerialization,
    MorseUnitTimeDecision, Scored, SampledLightIntensity, Time, TimedLightEvent, MAX_SCORE_BATCH,
    MAX_TIME_MS,
};
