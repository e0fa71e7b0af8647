//! Emitters: transmitters carried by entities.

use vstd::prelude::*;

use crate::model::id::{EntityId, SignalId};
use crate::model::scalar::{is_real_of, real_of};
use crate::model::world::Position;

verus! {

#[derive(Debug, Clone, Copy, PartialEq, Eq, Hash, Structural)]
pub enum SignalCategory {
    Communication,
    Radar,
    Navigation,
    DataLink,
    Unknown,
}

#[derive(Debug, Clone, Copy, PartialEq, Eq, Hash, Structural)]
pub enum EmitterState {
    Transmitting,
    Silent,
    Degraded,
}

/// A transmitter on one channel and frequency.
#[derive(Debug, Clone)]
pub struct Emitter<R> {
    pub id: EntityId,
    pub owner_id: EntityId,
    pub channel: u32,
    pub frequency_mhz: R,
    pub bandwidth_mhz: R,
    pub power_db: R,
    pub category: SignalCategory,
    pub state: EmitterState,
    pub position: Position<R>,
}

impl<R: From<i32>> Emitter<R> {
    /// A transmitting emitter with a bandwidth of 1 MHz and a power of 30 dB.
    pub fn new(
        id: EntityId,
        owner_id: EntityId,
        channel: u32,
        frequency_mhz: R,
        category: SignalCategory,
        position: Position<R>,
    ) -> (e: Self)
        ensures
            e.id == id,
            e.owner_id == owner_id,
            e.channel == channel,
            e.frequency_mhz == frequency_mhz,
            is_real_of(e.bandwidth_mhz, 1),
            is_real_of(e.power_db, 30),
            e.category == category,
            e.state == EmitterState::Transmitting,
            e.position == position,
    {
        Emitter {
            id,
            owner_id,
            channel,
            frequency_mhz,
            bandwidth_mhz: real_of(1),
            power_db: real_of(30),
            category,
            state: EmitterState::Transmitting,
            position,
        }
    }
}

impl<R> Emitter<R> {
    /// The same emitter at power `power`.
    pub fn with_power_db(self, power: R) -> (e: Self)
        ensures
            e == (Emitter { power_db: power, ..self }),
    {
        let mut e = self;
        e.power_db = power;
        e
    }

    /// The same emitter with bandwidth `bw`.
    pub fn with_bandwidth(self, bw: R) -> (e: Self)
        ensures
            e == (Emitter { bandwidth_mhz: bw, ..self }),
    {
        let mut e = self;
        e.bandwidth_mhz = bw;
        e
    }

    pub fn is_transmitting(&self) -> (b: bool)
        ensures
            b == (self.state == EmitterState::Transmitting),
    {
        self.state == EmitterState::Transmitting
    }
}

/// A signal as it arrives at a receiver.
#[derive(Debug, Clone)]
pub struct ActiveSignal<R> {
    pub signal_id: SignalId,
    pub source_emitter_id: EntityId,
    pub channel: u32,
    pub frequency_mhz: R,
    pub power_at_receiver_db: R,
}

} // verus!
