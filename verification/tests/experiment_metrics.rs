use spectra::ai::tactical::AiConfig;
use spectra::experiments::metrics::ExperimentMetrics;
use spectra::experiments::runner::{run_totals, ExperimentConfig, ExperimentResult};
use spectra::model::metrics::Metrics;

#[test]
fn metrics_tick_recording() {
    let mut m: ExperimentMetrics<f64> = ExperimentMetrics::new();
    let core = Metrics::default();
    m.record_tick(0, &core, 0);
    assert_eq!(m.total_ticks, 1);
    assert_eq!(m.tick_metrics.len(), 1);
}

#[test]
fn experiment_metrics_start_at_zero() {
    let m: ExperimentMetrics<f64> = ExperimentMetrics::default();
    assert_eq!(m.total_ticks, 0);
    assert_eq!(m.ai_decisions, 0);
    assert_eq!(m.ai_errors, 0);
    assert_eq!(m.ew_effects_deployed, 0);
    assert_eq!(m.ew_effects_expired, 0);
    assert_eq!(m.avg_ai_confidence, 0.0);
    assert_eq!(m.avg_decision_latency, 0.0);
    assert!(m.tick_metrics.is_empty());
    assert!(!m.spectrum_control_achieved);
}

#[test]
fn record_tick_keeps_snapshot_of_core_metrics() {
    let mut m: ExperimentMetrics<f64> = ExperimentMetrics::new();
    let mut core: Metrics<f64> = Metrics::default();
    core.total_observations = 7;
    core.usable_observations = 4;
    core.signals_detected = 3;
    core.avg_confidence = 0.25;
    m.record_tick(0, &core, 2);
    m.record_tick(5, &core, 9);
    assert_eq!(m.total_ticks, 6);
    assert_eq!(m.tick_metrics.len(), 2);
    let snap = m.tick_metrics[1];
    assert_eq!(snap.tick, 5);
    assert_eq!(snap.observations, 7);
    assert_eq!(snap.usable, 4);
    assert_eq!(snap.signals_detected, 3);
    assert_eq!(snap.interference_count, 9);
    assert_eq!(snap.avg_confidence, 0.25);
    assert_eq!(m.tick_metrics[0].interference_count, 2);
}

#[test]
fn experiment_counters_count_one_each() {
    let mut m: ExperimentMetrics<f64> = ExperimentMetrics::new();
    m.record_ai_error();
    m.record_correct_classification();
    m.record_correct_classification();
    m.record_misclassification();
    m.record_ew_effect_deployed();
    m.record_ew_effect_deployed();
    m.record_ew_effect_expired();
    assert_eq!(m.ai_errors, 1);
    assert_eq!(m.correct_classifications, 2);
    assert_eq!(m.misclassifications, 1);
    assert_eq!(m.ew_effects_deployed, 2);
    assert_eq!(m.ew_effects_expired, 1);
    assert_eq!(m.ai_decisions, 0);
}

#[test]
fn spectrum_control_flag_is_set() {
    let mut m: ExperimentMetrics<f64> = ExperimentMetrics::new();
    m.set_spectrum_control();
    assert!(m.spectrum_control_achieved);
    m.set_spectrum_control();
    assert!(m.spectrum_control_achieved);
}

#[test]
fn observation_counters_follow_usability() {
    let mut m: Metrics<f64> = Metrics::default();
    m.count_observation(true);
    m.count_observation(false);
    m.count_observation(true);
    assert_eq!(m.total_observations, 3);
    assert_eq!(m.usable_observations, 2);
    assert_eq!(m.confidence_count, 3);
    assert_eq!(m.total_actions, 0);
}

#[test]
fn decision_and_latency_counters() {
    let mut m: ExperimentMetrics<f64> = ExperimentMetrics::new();
    m.count_ai_decision();
    m.count_ai_decision();
    m.count_decision_latency(2);
    m.count_decision_latency(4);
    assert_eq!(m.ai_decisions, 2);
    assert_eq!(m.decision_latency_sum, 6);
    assert_eq!(m.decision_latency_count, 2);
    assert_eq!(m.ai_errors, 0);
}

fn result(observations: u64, detected: u64, control: bool) -> ExperimentResult<f64> {
    let mut core: Metrics<f64> = Metrics::default();
    core.total_observations = observations;
    core.signals_detected = detected;
    let mut metrics: ExperimentMetrics<f64> = ExperimentMetrics::new();
    if control {
        metrics.set_spectrum_control();
    }
    ExperimentResult {
        config: ExperimentConfig {
            name: "t".to_string(),
            seed: 1,
            ai_config: AiConfig {
                miss_rate: 0.0,
                misclassify_rate: 0.0,
                false_detection_rate: 0.0,
                response_delay: 0,
                observe_threshold: 0.15,
                countermeasure_threshold: 0.35,
            },
            enable_ew_effects: true,
        },
        metrics,
        core_metrics: core,
        final_tick: 10,
        events_count: 0,
    }
}

#[test]
fn batch_totals_add_up() {
    let results = vec![result(5, 2, true), result(7, 0, false), result(1, 1, true)];
    let t = run_totals(&results);
    assert_eq!(t.run_count, 3);
    assert_eq!(t.total_observations, 13);
    assert_eq!(t.total_signals_detected, 3);
    assert_eq!(t.spectrum_control_count, 2);
    let empty = run_totals::<f64>(&[]);
    assert_eq!(empty.run_count, 0);
    assert_eq!(empty.total_observations, 0);
}
