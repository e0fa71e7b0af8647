//! Identifiers of entities, signals and events, and the generator that
//! hands out entity identifiers in sequence.

use vstd::prelude::*;
use vstd::string::*;

use crate::model::text::{decimal, prefixed_decimal};

verus! {

/// Identifies an entity, emitter, receiver or interference source.
#[derive(Debug, Clone, Copy, PartialEq, Eq, Hash, Structural)]
pub struct EntityId(pub u64);

impl EntityId {
    pub fn from_raw(raw: u64) -> (id: EntityId)
        ensures
            id.0 == raw,
    {
        EntityId(raw)
    }

    pub fn raw(self) -> (r: u64)
        ensures
            r == self.0,
    {
        self.0
    }

    /// The text `EID-<raw>`.
    pub fn to_string(&self) -> (s: String)
        ensures
            s@ == "EID-"@ + decimal(self.0 as nat),
    {
        prefixed_decimal("EID-", self.0)
    }
}

/// Identifies a signal observed at a receiver.
#[derive(Debug, Clone, Copy, PartialEq, Eq, Hash, Structural)]
pub struct SignalId(pub u64);

impl SignalId {
    pub fn from_raw(raw: u64) -> (id: SignalId)
        ensures
            id.0 == raw,
    {
        SignalId(raw)
    }

    pub fn raw(self) -> (r: u64)
        ensures
            r == self.0,
    {
        self.0
    }

    /// The text `SIG-<raw>`.
    pub fn to_string(&self) -> (s: String)
        ensures
            s@ == "SIG-"@ + decimal(self.0 as nat),
    {
        prefixed_decimal("SIG-", self.0)
    }
}

/// Identifies a recorded simulation event.
#[derive(Debug, Clone, Copy, PartialEq, Eq, Hash, Structural)]
pub struct EventId(pub u64);

impl EventId {
    pub fn from_raw(raw: u64) -> (id: EventId)
        ensures
            id.0 == raw,
    {
        EventId(raw)
    }

    pub fn raw(self) -> (r: u64)
        ensures
            r == self.0,
    {
        self.0
    }

    /// The text `EVT-<raw>`.
    pub fn to_string(&self) -> (s: String)
        ensures
            s@ == "EVT-"@ + decimal(self.0 as nat),
    {
        prefixed_decimal("EVT-", self.0)
    }
}

/// Generates deterministic sequential entity identifiers, starting at 1.
#[derive(Debug)]
pub struct IdGenerator {
    next: u64,
}

impl IdGenerator {
    /// The raw value of the identifier that the next call of `next_id` returns.
    pub closed spec fn upcoming(&self) -> u64 {
        self.next
    }

    pub fn new() -> (g: IdGenerator)
        ensures
            g.upcoming() == 1,
    {
        IdGenerator { next: 1 }
    }

    /// Returns the upcoming identifier and moves on to the one after it.
    pub fn next_id(&mut self) -> (id: EntityId)
        requires
            old(self).upcoming() < u64::MAX,
        ensures
            id.0 == old(self).upcoming(),
            final(self).upcoming() == old(self).upcoming() + 1,
    {
        let id = EntityId(self.next);
        self.next = self.next + 1;
        id
    }
}

impl Default for IdGenerator {
    fn default() -> (g: IdGenerator)
        ensures
            g.upcoming() == 1,
    {
        IdGenerator::new()
    }
}

/// Raw values survive a round trip through an entity identifier, and
/// identifiers with the same raw value are the same identifier.
pub proof fn lemma_entity_id_raw_roundtrip(raw: u64, id: EntityId)
    ensures
        EntityId(raw).0 == raw,
        EntityId(id.0) == id,
{
}

} // verus!
