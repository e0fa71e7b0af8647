//! Errors that the tactical AI makes while deciding under fog of war.

use vstd::prelude::*;
use vstd::string::*;

use crate::model::action::EwAction;
use crate::model::id::EntityId;
use crate::model::text::{decimal, decimal_string};

verus! {

/// An error in AI decision-making; simulates imperfect reasoning under fog
/// of war.
#[derive(Debug, Clone)]
pub enum DecisionError {
    /// The AI missed a signal that was present (false negative).
    MissedSignal { observer_id: EntityId, tick: u64 },
    /// The AI classified a signal incorrectly.
    MisclassifiedSignal {
        observer_id: EntityId,
        tick: u64,
        actual_action: EwAction,
        chosen_action: EwAction,
    },
    /// The AI responded some ticks late.
    DelayedResponse {
        observer_id: EntityId,
        intended_tick: u64,
        actual_tick: u64,
        action: EwAction,
    },
    /// The AI decided on stale information.
    StaleInformation { observer_id: EntityId, tick: u64, staleness_ticks: u64 },
    /// The AI saw a signal that was not there.
    FalseDetection { observer_id: EntityId, tick: u64 },
}

impl DecisionError {
    /// The observer that made the error.
    pub open spec fn spec_observer(self) -> EntityId {
        match self {
            DecisionError::MissedSignal { observer_id, .. } => observer_id,
            DecisionError::MisclassifiedSignal { observer_id, .. } => observer_id,
            DecisionError::DelayedResponse { observer_id, .. } => observer_id,
            DecisionError::StaleInformation { observer_id, .. } => observer_id,
            DecisionError::FalseDetection { observer_id, .. } => observer_id,
        }
    }

    /// The tick at which the error shows; for a delayed response, the tick
    /// at which the action was actually taken.
    pub open spec fn spec_tick(self) -> u64 {
        match self {
            DecisionError::MissedSignal { tick, .. } => tick,
            DecisionError::MisclassifiedSignal { tick, .. } => tick,
            DecisionError::DelayedResponse { actual_tick, .. } => actual_tick,
            DecisionError::StaleInformation { tick, .. } => tick,
            DecisionError::FalseDetection { tick, .. } => tick,
        }
    }

    /// The one-line description of the error.
    pub open spec fn message(self) -> Seq<char> {
        let head = "["@ + decimal(self.spec_tick() as nat) + "] "@ + "EID-"@
            + decimal(self.spec_observer().0 as nat);
        match self {
            DecisionError::MissedSignal { .. } => head + " missed a signal"@,
            DecisionError::MisclassifiedSignal { actual_action, chosen_action, .. } => head
                + " misclassified: chose "@ + chosen_action.label() + ", should have been "@
                + actual_action.label(),
            DecisionError::DelayedResponse { intended_tick, action, .. } => head
                + " delayed response to "@ + action.label() + " (intended at "@ + decimal(
                intended_tick as nat,
            ) + ")"@,
            DecisionError::StaleInformation { staleness_ticks, .. } => head
                + " made decision based on "@ + decimal(staleness_ticks as nat)
                + "-tick-old information"@,
            DecisionError::FalseDetection { .. } => head + " detected a false signal"@,
        }
    }

    pub fn observer_id(&self) -> (id: EntityId)
        ensures
            id == self.spec_observer(),
    {
        match self {
            DecisionError::MissedSignal { observer_id, .. } => *observer_id,
            DecisionError::MisclassifiedSignal { observer_id, .. } => *observer_id,
            DecisionError::DelayedResponse { observer_id, .. } => *observer_id,
            DecisionError::StaleInformation { observer_id, .. } => *observer_id,
            DecisionError::FalseDetection { observer_id, .. } => *observer_id,
        }
    }

    pub fn tick(&self) -> (t: u64)
        ensures
            t == self.spec_tick(),
    {
        match self {
            DecisionError::MissedSignal { tick, .. } => *tick,
            DecisionError::MisclassifiedSignal { tick, .. } => *tick,
            DecisionError::DelayedResponse { actual_tick, .. } => *actual_tick,
            DecisionError::StaleInformation { tick, .. } => *tick,
            DecisionError::FalseDetection { tick, .. } => *tick,
        }
    }

    /// The one-line description of the error, as logs show it.
    pub fn to_string(&self) -> (s: String)
        ensures
            s@ == self.message(),
    {
        let mut s = String::from_str("[");
        let tick = decimal_string(self.tick());
        s.append(tick.as_str());
        s.append("] ");
        let observer = self.observer_id().to_string();
        s.append(observer.as_str());
        match self {
            DecisionError::MissedSignal { .. } => {
                s.append(" missed a signal");
            },
            DecisionError::MisclassifiedSignal { actual_action, chosen_action, .. } => {
                s.append(" misclassified: chose ");
                s.append(chosen_action.as_str());
                s.append(", should have been ");
                s.append(actual_action.as_str());
            },
            DecisionError::DelayedResponse { intended_tick, action, .. } => {
                s.append(" delayed response to ");
                s.append(action.as_str());
                s.append(" (intended at ");
                let intended = decimal_string(*intended_tick);
                s.append(intended.as_str());
                s.append(")");
            },
            DecisionError::StaleInformation { staleness_ticks, .. } => {
                s.append(" made decision based on ");
                let staleness = decimal_string(*staleness_ticks);
                s.append(staleness.as_str());
                s.append("-tick-old information");
            },
            DecisionError::FalseDetection { .. } => {
                s.append(" detected a false signal");
            },
        }
        s
    }
}

/// The error that screening one usable observation records, given the
/// draws: a missed signal if the miss was drawn; otherwise a false
/// detection if one was drawn; otherwise none. (A missed observation is
/// not drawn for a false detection.)
pub open spec fn screening_outcome(
    observer_id: EntityId,
    tick: u64,
    missed: bool,
    false_detection: bool,
) -> Option<DecisionError> {
    if missed {
        Some(DecisionError::MissedSignal { observer_id, tick })
    } else if false_detection {
        Some(DecisionError::FalseDetection { observer_id, tick })
    } else {
        None
    }
}

/// Records in `errors` the error that screening one usable observation of
/// `observer_id` at `tick` gives, for the drawn `missed` and
/// `false_detection`.
pub fn record_screening(
    errors: &mut Vec<DecisionError>,
    observer_id: EntityId,
    tick: u64,
    missed: bool,
    false_detection: bool,
)
    ensures
        final(errors)@ == match screening_outcome(observer_id, tick, missed, false_detection) {
            Some(e) => old(errors)@.push(e),
            None => old(errors)@,
        },
{
    if missed {
        errors.push(DecisionError::MissedSignal { observer_id, tick });
    } else if false_detection {
        errors.push(DecisionError::FalseDetection { observer_id, tick });
    }
}

} // verus!
