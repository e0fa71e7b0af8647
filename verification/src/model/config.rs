//! The scenario description from which a world is built.

use vstd::prelude::*;

use crate::model::emitter::SignalCategory;
use crate::model::entity::EntityKind;
use crate::model::scalar::{is_real_of, real_of};
use crate::model::world::{Faction, Position, WorldConfig};

verus! {

/// A named scenario: a world configuration and the entities to place in it.
#[derive(Debug, Clone)]
pub struct ScenarioFile<R> {
    pub name: String,
    pub description: String,
    pub world: WorldConfig<R>,
    pub entities: Vec<ScenarioEntity<R>>,
}

/// One entity of a scenario, with the emitters it carries and whether it
/// carries a receiver.
#[derive(Debug, Clone)]
pub struct ScenarioEntity<R> {
    pub kind: EntityKind,
    pub faction: Faction,
    pub position: Position<R>,
    pub label: String,
    pub emits: Vec<ScenarioEmitter<R>>,
    pub receives: bool,
}

/// One emitter of a scenario entity.
#[derive(Debug, Clone)]
pub struct ScenarioEmitter<R> {
    pub channel: u32,
    pub frequency_mhz: R,
    pub category: SignalCategory,
    pub power_db: R,
    pub bandwidth_mhz: R,
}

/// A scenario entity carries a receiver unless it says otherwise.
pub fn default_true() -> (b: bool)
    ensures
        b,
{
    true
}

/// The power of a scenario emitter that gives none: 30 dB.
pub fn default_power<R: From<i32>>() -> (p: R)
    ensures
        is_real_of(p, 30),
{
    real_of(30)
}

/// The bandwidth of a scenario emitter that gives none: 1 MHz.
pub fn default_bandwidth<R: From<i32>>() -> (b: R)
    ensures
        is_real_of(b, 1),
{
    real_of(1)
}

} // verus!
