//! The discrete side of the tactical AI: its rule table and the queue of
//! responses that wait out the response delay.

use vstd::prelude::*;

use std::collections::VecDeque;
use vstd::string::*;

use crate::ai::policy::Decision;
use crate::model::action::EwAction;
use crate::model::observation::ObservationQuality;
use crate::model::text::{decimal, decimal_string};

verus! {

/// Configuration of the tactical AI: the chances of its errors, its
/// response delay, and the confidence thresholds of its rule table.
#[derive(Debug, Clone)]
pub struct AiConfig<R> {
    /// Chance of missing a signal per usable observation.
    pub miss_rate: R,
    /// Chance of misclassifying a signal.
    pub misclassify_rate: R,
    /// Chance of a false detection per usable observation.
    pub false_detection_rate: R,
    /// Ticks between a decision and the action it queues.
    pub response_delay: u64,
    /// Confidence below which the AI only observes.
    pub observe_threshold: R,
    /// Confidence from which the AI deploys countermeasures.
    pub countermeasure_threshold: R,
}

/// Where the confidence of the strongest usable observation stands with
/// respect to the AI's two thresholds.
#[derive(Debug, Clone, Copy, PartialEq, Eq, Hash, Structural)]
pub enum ConfidenceTier {
    /// Below the observe threshold.
    Low,
    /// At or above the observe threshold, below the countermeasure threshold.
    Medium,
    /// At or above the countermeasure threshold.
    High,
}

/// The rule table of the tactical AI: what to do about the strongest usable
/// observation, given the tier of its confidence and its quality.
pub open spec fn spec_response(tier: ConfidenceTier, quality: ObservationQuality) -> EwAction {
    match tier {
        ConfidenceTier::Low => EwAction::Observe,
        ConfidenceTier::Medium => if quality == ObservationQuality::Noisy || quality
            == ObservationQuality::Degraded {
            EwAction::ProtectChannel
        } else {
            EwAction::Monitor
        },
        ConfidenceTier::High => match quality {
            ObservationQuality::Clear => EwAction::SuppressSignal,
            ObservationQuality::Noisy => EwAction::ProtectChannel,
            ObservationQuality::Degraded => EwAction::ChangeChannel,
            ObservationQuality::Unreliable => EwAction::Observe,
        },
    }
}

/// Applies the rule table.
pub fn response_for(tier: ConfidenceTier, quality: ObservationQuality) -> (a: EwAction)
    ensures
        a == spec_response(tier, quality),
{
    match tier {
        ConfidenceTier::Low => EwAction::Observe,
        ConfidenceTier::Medium => {
            if quality == ObservationQuality::Noisy || quality == ObservationQuality::Degraded {
                EwAction::ProtectChannel
            } else {
                EwAction::Monitor
            }
        },
        ConfidenceTier::High => match quality {
            ObservationQuality::Clear => EwAction::SuppressSignal,
            ObservationQuality::Noisy => EwAction::ProtectChannel,
            ObservationQuality::Degraded => EwAction::ChangeChannel,
            ObservationQuality::Unreliable => EwAction::Observe,
        },
    }
}

/// The alternatives listed beside the chosen `action`: observing, then
/// monitoring, each unless it is the chosen action itself.
pub open spec fn spec_alternatives(action: EwAction) -> Seq<EwAction> {
    (if action != EwAction::Observe {
        seq![EwAction::Observe]
    } else {
        Seq::empty()
    }) + (if action != EwAction::Monitor {
        seq![EwAction::Monitor]
    } else {
        Seq::empty()
    })
}

/// The text that explains a decision for `action` taken on `count`
/// relevant observations.
pub open spec fn explanation_text(count: nat, action: EwAction) -> Seq<char> {
    "Evaluated "@ + decimal(count) + " observations, chose "@ + action.label()
}

/// The alternatives listed beside the chosen `action`.
pub fn alternatives_for(action: EwAction) -> (v: Vec<EwAction>)
    ensures
        v@ == spec_alternatives(action),
{
    let mut v: Vec<EwAction> = Vec::new();
    if action != EwAction::Observe {
        v.push(EwAction::Observe);
    }
    if action != EwAction::Monitor {
        v.push(EwAction::Monitor);
    }
    proof {
        assert(v@ =~= spec_alternatives(action));
    }
    v
}

/// Explains a decision for `action` taken on `count` relevant observations.
pub fn explanation_for(count: usize, action: EwAction) -> (s: String)
    ensures
        s@ == explanation_text(count as nat, action),
{
    let mut s = String::from_str("Evaluated ");
    let digits = decimal_string(count as u64);
    s.append(digits.as_str());
    s.append(" observations, chose ");
    s.append(action.as_str());
    s
}

/// The decision of the tactical AI for `action`, taken on `count` relevant
/// observations whose mean confidence is `confidence`.
pub fn tactical_decision<R>(action: EwAction, count: usize, confidence: R) -> (d: Decision<R>)
    ensures
        d.action == action,
        d.confidence == confidence,
        d.explanation@ == explanation_text(count as nat, action),
        d.alternatives@ == spec_alternatives(action),
{
    Decision {
        action,
        confidence,
        explanation: explanation_for(count, action),
        alternatives: alternatives_for(action),
    }
}

/// How many entries at the front of `q` are due at `tick`.
pub open spec fn due_count(q: Seq<(u64, EwAction)>, tick: u64) -> nat
    decreases q.len(),
{
    if q.len() == 0 || q[0].0 > tick {
        0
    } else {
        1 + due_count(q.drop_first(), tick)
    }
}

/// The responses due at `tick` are a prefix of the queue: every one of them
/// is due, and the first one left, if any, is not.
pub proof fn lemma_due_count_bounds(q: Seq<(u64, EwAction)>, tick: u64)
    ensures
        due_count(q, tick) <= q.len(),
        forall|i: int| 0 <= i < due_count(q, tick) ==> q[i].0 <= tick,
        due_count(q, tick) < q.len() ==> q[due_count(q, tick) as int].0 > tick,
    decreases q.len(),
{
    if q.len() > 0 && q[0].0 <= tick {
        lemma_due_count_bounds(q.drop_first(), tick);
        assert forall|i: int| 0 <= i < due_count(q, tick) implies q[i].0 <= tick by {
            if i > 0 {
                assert(q[i] == q.drop_first()[i - 1]);
            }
        }
    }
}

/// Responses waiting for the tick at which they are executed, in the order
/// they were queued.
#[derive(Debug, Clone)]
pub struct ResponseQueue {
    pending: VecDeque<(u64, EwAction)>,
}

impl ResponseQueue {
    /// The waiting responses: each with the tick at which it becomes ready.
    pub closed spec fn entries(&self) -> Seq<(u64, EwAction)> {
        self.pending@
    }

    pub fn new() -> (q: Self)
        ensures
            q.entries() == Seq::<(u64, EwAction)>::empty(),
    {
        ResponseQueue { pending: VecDeque::new() }
    }

    /// Queues `action`, to be executed `response_delay` ticks after
    /// `current_tick`.
    pub fn queue_action(&mut self, action: EwAction, current_tick: u64, response_delay: u64)
        requires
            current_tick + response_delay <= u64::MAX,
        ensures
            final(self).entries() == old(self).entries().push(
                ((current_tick + response_delay) as u64, action),
            ),
    {
        let execute_tick = current_tick + response_delay;
        self.pending.push_back((execute_tick, action));
    }

    /// Takes the responses at the front of the queue whose tick has come,
    /// stopping at the first one that is not due yet.
    pub fn ready_actions(&mut self, tick: u64) -> (ready: Vec<EwAction>)
        ensures
            ready@ == old(self).entries().take(due_count(old(self).entries(), tick) as int).map_values(
                |e: (u64, EwAction)| e.1,
            ),
            final(self).entries() == old(self).entries().skip(
                due_count(old(self).entries(), tick) as int,
            ),
    {
        let ghost orig = self.pending@;
        proof {
            lemma_due_count_bounds(orig, tick);
        }
        let mut ready: Vec<EwAction> = Vec::new();
        let ghost mut k: int = 0;
        while self.pending.len() > 0 && self.pending[0].0 <= tick
            invariant
                0 <= k <= due_count(orig, tick),
                due_count(orig, tick) <= orig.len(),
                forall|i: int| 0 <= i < due_count(orig, tick) ==> orig[i].0 <= tick,
                due_count(orig, tick) < orig.len() ==> orig[due_count(orig, tick) as int].0
                    > tick,
                self.pending@ == orig.skip(k),
                ready@ == orig.take(k).map_values(|e: (u64, EwAction)| e.1),
            decreases self.pending@.len(),
        {
            proof {
                assert(self.pending@[0] == orig[k]);
                if k == due_count(orig, tick) {
                    assert(false);
                }
            }
            let front = self.pending.pop_front();
            match front {
                Some(entry) => {
                    ready.push(entry.1);
                    proof {
                        assert(orig.take(k + 1).map_values(|e: (u64, EwAction)| e.1)
                            =~= orig.take(k).map_values(|e: (u64, EwAction)| e.1).push(entry.1));
                        assert(self.pending@ =~= orig.skip(k + 1));
                        k = k + 1;
                    }
                },
                None => {},
            }
        }
        proof {
            if k < due_count(orig, tick) {
                assert(self.pending@.len() > 0);
                assert(self.pending@[0] == orig[k]);
            }
        }
        ready
    }
}

/// A response queued with delay `d` at `now` into an empty queue is not
/// released before `now + d`, and is released at every tick from then on.
pub proof fn lemma_response_released_after_delay(now: u64, d: u64, action: EwAction, tick: u64)
    requires
        now + d <= u64::MAX,
    ensures
        due_count(seq![((now + d) as u64, action)], tick) == (if tick >= now + d {
            1nat
        } else {
            0nat
        }),
{
    let q = seq![((now + d) as u64, action)];
    assert(q[0].0 == now + d);
    assert(q.drop_first().len() == 0);
    assert(due_count(q.drop_first(), tick) == 0);
}

/// Released responses come out in the order they were queued, and every one
/// of them is due.
pub proof fn lemma_released_in_order_and_due(q: Seq<(u64, EwAction)>, tick: u64)
    ensures
        q.take(due_count(q, tick) as int) + q.skip(due_count(q, tick) as int) == q,
        forall|i: int| 0 <= i < due_count(q, tick) ==> q[i].0 <= tick,
{
    lemma_due_count_bounds(q, tick);
    assert(q.take(due_count(q, tick) as int) + q.skip(due_count(q, tick) as int) =~= q);
}

/// The alternatives beside a chosen action are the other two of observing
/// and monitoring: each is listed exactly when it is not the chosen action,
/// nothing else is listed, nothing twice, and observing comes first.
pub proof fn lemma_alternatives_are_the_others(action: EwAction)
    ensures
        forall|x: EwAction|
            #[trigger] spec_alternatives(action).contains(x) <==> ((x == EwAction::Observe || x
                == EwAction::Monitor) && x != action),
        spec_alternatives(action).no_duplicates(),
        spec_alternatives(action).len() == (if action == EwAction::Observe || action
            == EwAction::Monitor {
            1int
        } else {
            2int
        }),
        action != EwAction::Observe ==> spec_alternatives(action)[0] == EwAction::Observe,
{
    let s = spec_alternatives(action);
    if action == EwAction::Observe {
        assert(s =~= seq![EwAction::Monitor]);
    } else if action == EwAction::Monitor {
        assert(s =~= seq![EwAction::Observe]);
    } else {
        assert(s =~= seq![EwAction::Observe, EwAction::Monitor]);
    }
    assert forall|x: EwAction| #[trigger] s.contains(x) <==> ((x == EwAction::Observe || x
        == EwAction::Monitor) && x != action) by {
        if (x == EwAction::Observe || x == EwAction::Monitor) && x != action {
            if x == EwAction::Observe {
                assert(s[0] == x);
            } else if action == EwAction::Observe {
                assert(s[0] == x);
            } else {
                assert(s[1] == x);
            }
        }
    }
}

} // verus!
