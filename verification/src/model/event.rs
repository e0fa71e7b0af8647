//! Events recorded while the simulation runs.

use vstd::prelude::*;

use crate::model::action::EwAction;
use crate::model::id::{EntityId, EventId};
use crate::model::interference::InterferenceKind;

verus! {

#[derive(Debug, Clone, Copy, PartialEq, Eq, Hash, Structural)]
pub enum EventKind {
    SignalDetected,
    SignalLost,
    InterferenceStarted,
    InterferenceEnded,
    ActionPerformed,
    ActionFailed,
    ChannelChanged,
    DecoyDeployed,
    ObservationGenerated,
}

/// Something that happened at a tick, caused by an actor.
#[derive(Debug, Clone)]
pub struct Event<R> {
    pub id: EventId,
    pub kind: EventKind,
    pub tick: u64,
    pub actor_id: EntityId,
    pub details: EventDetails<R>,
}

/// What is known of an event beyond its kind.
#[derive(Debug, Clone)]
pub enum EventDetails<R> {
    Signal { channel: u32, frequency_mhz: R },
    Interference { kind: InterferenceKind, intensity_db: R },
    Action { action: EwAction, success: bool },
    ChannelChange { old_channel: u32, new_channel: u32 },
    Observation { confidence: R },
    /// No further details.
    Unspecified,
}

impl<R> Event<R> {
    /// An event without details.
    pub fn new(id: EventId, kind: EventKind, tick: u64, actor_id: EntityId) -> (e: Self)
        ensures
            e.id == id,
            e.kind == kind,
            e.tick == tick,
            e.actor_id == actor_id,
            e.details is Unspecified,
    {
        Event { id, kind, tick, actor_id, details: EventDetails::Unspecified }
    }

    /// The same event with `details`.
    pub fn with_details(self, details: EventDetails<R>) -> (e: Self)
        ensures
            e == (Event { details, ..self }),
    {
        let mut e = self;
        e.details = details;
        e
    }
}

} // verus!
