//! Decisions, and the trait of the policies that make them.

use vstd::prelude::*;

use crate::model::action::EwAction;
use crate::model::observation::Observation;

verus! {

/// The outcome of evaluating a set of observations.
#[derive(Debug, Clone)]
pub struct Decision<R> {
    pub action: EwAction,
    pub confidence: R,
    pub explanation: String,
    pub alternatives: Vec<EwAction>,
}

/// A decision policy: turns the observations it is shown into a decision.
pub trait DecisionPolicy<R> {
    fn evaluate(&self, observations: &[Observation<R>]) -> Decision<R>;
}

} // verus!
