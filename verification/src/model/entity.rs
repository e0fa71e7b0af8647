//! Entities: platforms that carry emitters and receivers.

use vstd::prelude::*;
use vstd::string::*;

use crate::model::id::EntityId;
use crate::model::scalar::{is_real_of, real_of};
use crate::model::world::{Faction, Position};

verus! {

#[derive(Debug, Clone, Copy, PartialEq, Eq, Hash, Structural)]
pub enum EntityKind {
    Platform,
    Aircraft,
    Ship,
    GroundStation,
    Satellite,
    Drone,
}

#[derive(Debug, Clone, Copy, PartialEq, Eq, Hash, Structural)]
pub enum ActivityState {
    Active,
    Idle,
    Degraded,
    Disabled,
}

/// What an entity is able to do.
#[derive(Debug, Clone)]
pub struct Capabilities<R> {
    pub can_emit: bool,
    pub can_receive: bool,
    pub can_jam: bool,
    pub can_deceive: bool,
    pub max_power_db: R,
}

impl<R: From<i32>> Default for Capabilities<R> {
    /// No capability at all, and no power.
    fn default() -> (c: Self)
        ensures
            !c.can_emit,
            !c.can_receive,
            !c.can_jam,
            !c.can_deceive,
            is_real_of(c.max_power_db, 0),
    {
        Capabilities {
            can_emit: false,
            can_receive: false,
            can_jam: false,
            can_deceive: false,
            max_power_db: real_of(0),
        }
    }
}

/// A platform on the map.
#[derive(Debug, Clone)]
pub struct Entity<R> {
    pub id: EntityId,
    pub kind: EntityKind,
    pub faction: Faction,
    pub position: Position<R>,
    pub capabilities: Capabilities<R>,
    pub state: ActivityState,
    pub label: String,
}

impl<R: From<i32>> Entity<R> {
    /// An active entity with no capabilities and an empty label.
    pub fn new(id: EntityId, kind: EntityKind, faction: Faction, position: Position<R>) -> (e:
        Self)
        ensures
            e.id == id,
            e.kind == kind,
            e.faction == faction,
            e.position == position,
            !e.capabilities.can_emit,
            !e.capabilities.can_receive,
            !e.capabilities.can_jam,
            !e.capabilities.can_deceive,
            is_real_of(e.capabilities.max_power_db, 0),
            e.state == ActivityState::Active,
            e.label@ == Seq::<char>::empty(),
    {
        Entity {
            id,
            kind,
            faction,
            position,
            capabilities: Capabilities::default(),
            state: ActivityState::Active,
            label: String::new(),
        }
    }
}

impl<R> Entity<R> {
    /// The same entity under the label `label`.
    pub fn with_label(self, label: &str) -> (e: Self)
        ensures
            e.label@ == label@,
            e.id == self.id,
            e.kind == self.kind,
            e.faction == self.faction,
            e.position == self.position,
            e.capabilities == self.capabilities,
            e.state == self.state,
    {
        let mut e = self;
        e.label = String::from_str(label);
        e
    }

    /// The same entity with capabilities `caps`.
    pub fn with_capabilities(self, caps: Capabilities<R>) -> (e: Self)
        ensures
            e == (Entity { capabilities: caps, ..self }),
    {
        let mut e = self;
        e.capabilities = caps;
        e
    }

    pub fn is_active(&self) -> (b: bool)
        ensures
            b == (self.state == ActivityState::Active),
    {
        self.state == ActivityState::Active
    }
}

} // verus!
