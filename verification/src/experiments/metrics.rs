//! Experiment-level metrics: AI decision quality, EW use and outcomes.

use vstd::prelude::*;

use crate::ai::decision::DecisionError;
use crate::model::metrics::Metrics;
use crate::model::scalar::{is_real_of, real_of};

verus! {

/// Metrics at a single tick.
#[derive(Debug, Clone, Copy)]
pub struct TickSnapshot<R> {
    pub tick: u64,
    pub observations: u64,
    pub usable: u64,
    pub signals_detected: u64,
    pub interference_count: u64,
    pub avg_confidence: R,
}

/// Metrics of a whole experiment run. The AI's confidence is summed in
/// `ai_confidence_sum` over `ai_decisions` decisions, whose mean is
/// `avg_ai_confidence`; decision latencies are summed in
/// `decision_latency_sum` over `decision_latency_count` decisions, whose
/// mean is `avg_decision_latency`.
#[derive(Debug, Clone)]
pub struct ExperimentMetrics<R> {
    pub total_ticks: u64,
    pub ai_decisions: u64,
    pub ai_errors: u64,
    pub ew_effects_deployed: u64,
    pub ew_effects_expired: u64,
    pub avg_ai_confidence: R,
    pub ai_confidence_sum: R,
    pub tick_metrics: Vec<TickSnapshot<R>>,
    pub avg_decision_latency: R,
    pub decision_latency_sum: u64,
    pub decision_latency_count: u64,
    pub correct_classifications: u64,
    pub misclassifications: u64,
    pub spectrum_control_achieved: bool,
}

impl<R: From<i32>> ExperimentMetrics<R> {
    /// Metrics of a run that has not started.
    pub fn new() -> (m: Self)
        ensures
            m.total_ticks == 0,
            m.ai_decisions == 0,
            m.ai_errors == 0,
            m.ew_effects_deployed == 0,
            m.ew_effects_expired == 0,
            is_real_of(m.avg_ai_confidence, 0),
            is_real_of(m.ai_confidence_sum, 0),
            m.tick_metrics@.len() == 0,
            is_real_of(m.avg_decision_latency, 0),
            m.decision_latency_sum == 0,
            m.decision_latency_count == 0,
            m.correct_classifications == 0,
            m.misclassifications == 0,
            !m.spectrum_control_achieved,
    {
        ExperimentMetrics {
            total_ticks: 0,
            ai_decisions: 0,
            ai_errors: 0,
            ew_effects_deployed: 0,
            ew_effects_expired: 0,
            avg_ai_confidence: real_of(0),
            ai_confidence_sum: real_of(0),
            tick_metrics: Vec::new(),
            avg_decision_latency: real_of(0),
            decision_latency_sum: 0,
            decision_latency_count: 0,
            correct_classifications: 0,
            misclassifications: 0,
            spectrum_control_achieved: false,
        }
    }
}

/// Whether `after` is `before` once the snapshot of tick `tick` is
/// recorded, taken from the core metrics `metrics` and `interference_count`
/// active interferences: the run is then `tick + 1` ticks long, and the
/// other counters and means, the count of expired effects aside, stay as they
/// are.
pub open spec fn records_tick<R>(
    before: ExperimentMetrics<R>,
    after: ExperimentMetrics<R>,
    tick: u64,
    metrics: Metrics<R>,
    interference_count: usize,
) -> bool {
    &&& after.total_ticks == tick + 1
    &&& after.tick_metrics@ == before.tick_metrics@.push(
        TickSnapshot {
            tick,
            observations: metrics.total_observations,
            usable: metrics.usable_observations,
            signals_detected: metrics.signals_detected,
            interference_count: interference_count as u64,
            avg_confidence: metrics.avg_confidence,
        },
    )
    &&& after.ai_decisions == before.ai_decisions
    &&& after.ai_errors == before.ai_errors
    &&& after.ew_effects_deployed == before.ew_effects_deployed
    &&& after.avg_ai_confidence == before.avg_ai_confidence
    &&& after.ai_confidence_sum == before.ai_confidence_sum
    &&& after.avg_decision_latency == before.avg_decision_latency
    &&& after.decision_latency_sum == before.decision_latency_sum
    &&& after.decision_latency_count == before.decision_latency_count
    &&& after.correct_classifications == before.correct_classifications
    &&& after.misclassifications == before.misclassifications
    &&& after.spectrum_control_achieved == before.spectrum_control_achieved
}

impl<R: Copy> ExperimentMetrics<R> {
    /// Records the snapshot of tick `tick`, which makes the run `tick + 1`
    /// ticks long.
    pub fn record_tick(&mut self, tick: u64, metrics: &Metrics<R>, interference_count: usize)
        requires
            tick < u64::MAX,
        ensures
            records_tick(*old(self), *final(self), tick, *metrics, interference_count),
            final(self).ew_effects_expired == old(self).ew_effects_expired,
    {
        self.total_ticks = tick + 1;
        self.tick_metrics.push(
            TickSnapshot {
                tick,
                observations: metrics.total_observations,
                usable: metrics.usable_observations,
                signals_detected: metrics.signals_detected,
                interference_count: interference_count as u64,
                avg_confidence: metrics.avg_confidence,
            },
        );
    }
}

/// No prefix of `errors` holds more errors at `tick` than `errors` does.
proof fn lemma_prefix_filter_shorter(errors: Seq<DecisionError>, i: int, tick: u64)
    requires
        0 <= i <= errors.len(),
    ensures
        errors.take(i).filter(|e: DecisionError| e.spec_tick() == tick).len() <= errors.filter(
            |e: DecisionError| e.spec_tick() == tick,
        ).len(),
    decreases errors.len() - i,
{
    reveal_with_fuel(Seq::<_>::filter, 1);
    if i < errors.len() {
        lemma_prefix_filter_shorter(errors, i + 1, tick);
        assert(errors.take(i + 1).drop_last() =~= errors.take(i));
    } else {
        assert(errors.take(i) =~= errors);
    }
}

impl<R> ExperimentMetrics<R> {
    /// Counts an AI decision; the running mean of the AI's confidence is
    /// kept by the caller, which picks the number type.
    pub fn count_ai_decision(&mut self)
        requires
            old(self).ai_decisions < u64::MAX,
        ensures
            *final(self) == (ExperimentMetrics {
                ai_decisions: (old(self).ai_decisions + 1) as u64,
                ..*old(self)
            }),
    {
        self.ai_decisions = self.ai_decisions + 1;
    }

    /// Adds the latency of one decision to the latency total; the mean is
    /// kept by the caller, which picks the number type.
    pub fn count_decision_latency(&mut self, latency: u64)
        requires
            old(self).decision_latency_sum + latency <= u64::MAX,
            old(self).decision_latency_count < u64::MAX,
        ensures
            *final(self) == (ExperimentMetrics {
                decision_latency_sum: (old(self).decision_latency_sum + latency) as u64,
                decision_latency_count: (old(self).decision_latency_count + 1) as u64,
                ..*old(self)
            }),
    {
        self.decision_latency_sum = self.decision_latency_sum + latency;
        self.decision_latency_count = self.decision_latency_count + 1;
    }

    /// Counts an AI error.
    pub fn record_ai_error(&mut self)
        requires
            old(self).ai_errors < u64::MAX,
        ensures
            *final(self) == (ExperimentMetrics {
                ai_errors: (old(self).ai_errors + 1) as u64,
                ..*old(self)
            }),
    {
        self.ai_errors = self.ai_errors + 1;
    }

    /// Counts, one by one, the errors of `errors` that show at `tick`.
    pub fn record_ai_errors_at(&mut self, errors: &[DecisionError], tick: u64)
        requires
            old(self).ai_errors + errors@.filter(|e: DecisionError| e.spec_tick() == tick).len()
                <= u64::MAX,
        ensures
            *final(self) == (ExperimentMetrics {
                ai_errors: (old(self).ai_errors + errors@.filter(
                    |e: DecisionError| e.spec_tick() == tick,
                ).len()) as u64,
                ..*old(self)
            }),
    {
        let ghost start = self.ai_errors;
        let mut i: usize = 0;
        while i < errors.len()
            invariant
                i <= errors@.len(),
                start + errors@.filter(|e: DecisionError| e.spec_tick() == tick).len()
                    <= u64::MAX,
                self.ai_errors == start + errors@.take(i as int).filter(
                    |e: DecisionError| e.spec_tick() == tick,
                ).len(),
                *self == (ExperimentMetrics { ai_errors: self.ai_errors, ..*old(self) }),
            decreases errors@.len() - i,
        {
            proof {
                assert(errors@.take(i as int + 1).drop_last() =~= errors@.take(i as int));
                reveal_with_fuel(Seq::<_>::filter, 1);
                lemma_prefix_filter_shorter(errors@, i as int + 1, tick);
            }
            if errors[i].tick() == tick {
                self.record_ai_error();
            }
            i = i + 1;
        }
        proof {
            assert(errors@.take(errors@.len() as int) =~= errors@);
        }
    }

    /// Counts a correct classification.
    pub fn record_correct_classification(&mut self)
        requires
            old(self).correct_classifications < u64::MAX,
        ensures
            *final(self) == (ExperimentMetrics {
                correct_classifications: (old(self).correct_classifications + 1) as u64,
                ..*old(self)
            }),
    {
        self.correct_classifications = self.correct_classifications + 1;
    }

    /// Counts a misclassification.
    pub fn record_misclassification(&mut self)
        requires
            old(self).misclassifications < u64::MAX,
        ensures
            *final(self) == (ExperimentMetrics {
                misclassifications: (old(self).misclassifications + 1) as u64,
                ..*old(self)
            }),
    {
        self.misclassifications = self.misclassifications + 1;
    }

    /// Counts a deployed EW effect.
    pub fn record_ew_effect_deployed(&mut self)
        requires
            old(self).ew_effects_deployed < u64::MAX,
        ensures
            *final(self) == (ExperimentMetrics {
                ew_effects_deployed: (old(self).ew_effects_deployed + 1) as u64,
                ..*old(self)
            }),
    {
        self.ew_effects_deployed = self.ew_effects_deployed + 1;
    }

    /// Counts an EW effect that ran out.
    pub fn record_ew_effect_expired(&mut self)
        requires
            old(self).ew_effects_expired < u64::MAX,
        ensures
            *final(self) == (ExperimentMetrics {
                ew_effects_expired: (old(self).ew_effects_expired + 1) as u64,
                ..*old(self)
            }),
    {
        self.ew_effects_expired = self.ew_effects_expired + 1;
    }

    /// Counts `n` EW effects that ran out.
    pub fn record_ew_effects_expired(&mut self, n: u64)
        requires
            old(self).ew_effects_expired + n <= u64::MAX,
        ensures
            *final(self) == (ExperimentMetrics {
                ew_effects_expired: (old(self).ew_effects_expired + n) as u64,
                ..*old(self)
            }),
    {
        self.ew_effects_expired = self.ew_effects_expired + n;
    }

    /// Marks that spectrum control was achieved.
    pub fn set_spectrum_control(&mut self)
        ensures
            *final(self) == (ExperimentMetrics {
                spectrum_control_achieved: true,
                ..*old(self)
            }),
    {
        self.spectrum_control_achieved = true;
    }
}

impl<R: From<i32>> Default for ExperimentMetrics<R> {
    fn default() -> (m: Self)
        ensures
            m.total_ticks == 0,
            m.ai_decisions == 0,
            m.ai_errors == 0,
            m.tick_metrics@.len() == 0,
            !m.spectrum_control_achieved,
    {
        ExperimentMetrics::new()
    }
}

} // verus!
