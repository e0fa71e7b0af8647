//! Electronic-warfare actions and the record of an action performed.

use vstd::prelude::*;
use vstd::string::*;

use crate::model::id::EntityId;

verus! {

/// What an actor may do in the electromagnetic environment.
#[derive(Debug, Clone, Copy, PartialEq, Eq, Hash, Structural)]
pub enum EwAction {
    Observe,
    Monitor,
    ProtectChannel,
    ChangeChannel,
    DeployDecoy,
    SuppressSignal,
    Disengage,
}

impl EwAction {
    /// The upper-case name under which the action is shown.
    pub open spec fn label(self) -> Seq<char> {
        match self {
            EwAction::Observe => "OBSERVE"@,
            EwAction::Monitor => "MONITOR"@,
            EwAction::ProtectChannel => "PROTECT_CHANNEL"@,
            EwAction::ChangeChannel => "CHANGE_CHANNEL"@,
            EwAction::DeployDecoy => "DEPLOY_DECOY"@,
            EwAction::SuppressSignal => "SUPPRESS_SIGNAL"@,
            EwAction::Disengage => "DISENGAGE"@,
        }
    }

    /// The action's name, as shown in logs and panels.
    pub fn as_str(&self) -> (s: &'static str)
        ensures
            s@ == self.label(),
    {
        match self {
            EwAction::Observe => "OBSERVE",
            EwAction::Monitor => "MONITOR",
            EwAction::ProtectChannel => "PROTECT_CHANNEL",
            EwAction::ChangeChannel => "CHANGE_CHANNEL",
            EwAction::DeployDecoy => "DEPLOY_DECOY",
            EwAction::SuppressSignal => "SUPPRESS_SIGNAL",
            EwAction::Disengage => "DISENGAGE",
        }
    }

    /// The action's name as an owned string.
    pub fn to_string(&self) -> (s: String)
        ensures
            s@ == self.label(),
    {
        String::from_str(self.as_str())
    }
}

/// What an action was aimed at; every part is optional.
#[derive(Debug, Clone)]
pub struct ActionTarget<R> {
    pub channel: Option<u32>,
    pub entity_id: Option<EntityId>,
    pub frequency_mhz: Option<R>,
}

/// An action that an actor carried out at a given tick.
#[derive(Debug, Clone)]
pub struct PerformedAction<R> {
    pub actor_id: EntityId,
    pub action: EwAction,
    pub target: ActionTarget<R>,
    pub timestamp: u64,
    pub success: bool,
}

impl<R> PerformedAction<R> {
    /// A successful action with no target.
    pub fn new(actor_id: EntityId, action: EwAction, timestamp: u64) -> (p: Self)
        ensures
            p.actor_id == actor_id,
            p.action == action,
            p.timestamp == timestamp,
            p.success,
            p.target.channel is None,
            p.target.entity_id is None,
            p.target.frequency_mhz is None,
    {
        PerformedAction {
            actor_id,
            action,
            target: ActionTarget { channel: None, entity_id: None, frequency_mhz: None },
            timestamp,
            success: true,
        }
    }

    /// The same action, aimed at `channel`.
    pub fn with_target_channel(self, channel: u32) -> (p: Self)
        ensures
            p == (PerformedAction {
                target: ActionTarget { channel: Some(channel), ..self.target },
                ..self
            }),
    {
        let mut p = self;
        p.target.channel = Some(channel);
        p
    }

    /// The same action, aimed at the entity `entity_id`.
    pub fn with_target_entity(self, entity_id: EntityId) -> (p: Self)
        ensures
            p == (PerformedAction {
                target: ActionTarget { entity_id: Some(entity_id), ..self.target },
                ..self
            }),
    {
        let mut p = self;
        p.target.entity_id = Some(entity_id);
        p
    }

    /// The same action, marked as failed.
    pub fn failed(self) -> (p: Self)
        ensures
            p == (PerformedAction { success: false, ..self }),
    {
        let mut p = self;
        p.success = false;
        p
    }
}

} // verus!
