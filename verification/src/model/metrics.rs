//! Running counts of what happened during a simulation.

use vstd::prelude::*;

use crate::model::event::{Event, EventKind};
use crate::model::scalar::{is_real_of, real_of};

verus! {

/// Counters kept while the simulation runs. The confidence of the
/// observations is summed in `confidence_sum` over `confidence_count`
/// observations, whose mean is `avg_confidence`.
#[derive(Debug, Clone)]
pub struct Metrics<R> {
    pub total_observations: u64,
    pub usable_observations: u64,
    pub total_actions: u64,
    pub successful_actions: u64,
    pub interference_events: u64,
    pub signals_detected: u64,
    pub signals_lost: u64,
    pub avg_confidence: R,
    pub confidence_sum: R,
    pub confidence_count: u64,
}

impl<R: From<i32>> Default for Metrics<R> {
    /// All counts zero.
    fn default() -> (m: Self)
        ensures
            m.total_observations == 0,
            m.usable_observations == 0,
            m.total_actions == 0,
            m.successful_actions == 0,
            m.interference_events == 0,
            m.signals_detected == 0,
            m.signals_lost == 0,
            is_real_of(m.avg_confidence, 0),
            is_real_of(m.confidence_sum, 0),
            m.confidence_count == 0,
    {
        Metrics {
            total_observations: 0,
            usable_observations: 0,
            total_actions: 0,
            successful_actions: 0,
            interference_events: 0,
            signals_detected: 0,
            signals_lost: 0,
            avg_confidence: real_of(0),
            confidence_sum: real_of(0),
            confidence_count: 0,
        }
    }
}

impl<R> Metrics<R> {
    /// Counts an observation, and whether it was usable; the running mean
    /// of the confidence is kept by the caller, which picks the number type.
    pub fn count_observation(&mut self, usable: bool)
        requires
            old(self).total_observations < u64::MAX,
            old(self).usable_observations < u64::MAX,
            old(self).confidence_count < u64::MAX,
        ensures
            *final(self) == (Metrics {
                total_observations: (old(self).total_observations + 1) as u64,
                usable_observations: if usable {
                    (old(self).usable_observations + 1) as u64
                } else {
                    old(self).usable_observations
                },
                confidence_count: (old(self).confidence_count + 1) as u64,
                ..*old(self)
            }),
    {
        self.total_observations = self.total_observations + 1;
        if usable {
            self.usable_observations = self.usable_observations + 1;
        }
        self.confidence_count = self.confidence_count + 1;
    }

    /// Counts an action, and whether it succeeded.
    pub fn record_action(&mut self, success: bool)
        requires
            old(self).total_actions < u64::MAX,
            old(self).successful_actions < u64::MAX,
        ensures
            *final(self) == (Metrics {
                total_actions: (old(self).total_actions + 1) as u64,
                successful_actions: if success {
                    (old(self).successful_actions + 1) as u64
                } else {
                    old(self).successful_actions
                },
                ..*old(self)
            }),
    {
        self.total_actions = self.total_actions + 1;
        if success {
            self.successful_actions = self.successful_actions + 1;
        }
    }

    /// Counts an event: detections, losses, and interference that starts
    /// or ends; other events leave the counts as they are.
    pub fn record_event(&mut self, event: &Event<R>)
        requires
            event.kind == EventKind::SignalDetected ==> old(self).signals_detected < u64::MAX,
            event.kind == EventKind::SignalLost ==> old(self).signals_lost < u64::MAX,
            event.kind == EventKind::InterferenceStarted || event.kind
                == EventKind::InterferenceEnded ==> old(self).interference_events < u64::MAX,
        ensures
            *final(self) == (match event.kind {
                EventKind::SignalDetected => Metrics {
                    signals_detected: (old(self).signals_detected + 1) as u64,
                    ..*old(self)
                },
                EventKind::SignalLost => Metrics {
                    signals_lost: (old(self).signals_lost + 1) as u64,
                    ..*old(self)
                },
                EventKind::InterferenceStarted | EventKind::InterferenceEnded => Metrics {
                    interference_events: (old(self).interference_events + 1) as u64,
                    ..*old(self)
                },
                _ => *old(self),
            }),
    {
        match event.kind {
            EventKind::SignalDetected => {
                self.signals_detected = self.signals_detected + 1;
            },
            EventKind::SignalLost => {
                self.signals_lost = self.signals_lost + 1;
            },
            EventKind::InterferenceStarted | EventKind::InterferenceEnded => {
                self.interference_events = self.interference_events + 1;
            },
            _ => {},
        }
    }
}

} // verus!

verus! {

/// Recording an action keeps the successful actions within the total.
pub proof fn lemma_successes_within_total<R>(before: Metrics<R>, after: Metrics<R>, success: bool)
    requires
        before.successful_actions <= before.total_actions,
        before.total_actions < u64::MAX,
        after == (Metrics {
            total_actions: (before.total_actions + 1) as u64,
            successful_actions: if success {
                (before.successful_actions + 1) as u64
            } else {
                before.successful_actions
            },
            ..before
        }),
    ensures
        after.successful_actions <= after.total_actions,
{
}

} // verus!
