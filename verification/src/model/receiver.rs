//! Receivers: sensors carried by entities.

use vstd::prelude::*;

use crate::model::id::EntityId;
use crate::model::scalar::{is_real_of, real_of};
use crate::model::world::Position;

verus! {

/// A receiver; an empty channel list means that it listens on every channel.
#[derive(Debug, Clone)]
pub struct Receiver<R> {
    pub id: EntityId,
    pub owner_id: EntityId,
    pub sensitivity_db: R,
    pub noise_figure_db: R,
    pub bandwidth_mhz: R,
    pub position: Position<R>,
    pub monitored_channels: Vec<u32>,
}

impl<R: From<i32>> Receiver<R> {
    /// A receiver with a noise figure of 3 dB and a bandwidth of 1 MHz that
    /// listens on every channel.
    pub fn new(id: EntityId, owner_id: EntityId, sensitivity_db: R, position: Position<R>) -> (r:
        Self)
        ensures
            r.id == id,
            r.owner_id == owner_id,
            r.sensitivity_db == sensitivity_db,
            is_real_of(r.noise_figure_db, 3),
            is_real_of(r.bandwidth_mhz, 1),
            r.position == position,
            r.monitored_channels@.len() == 0,
    {
        Receiver {
            id,
            owner_id,
            sensitivity_db,
            noise_figure_db: real_of(3),
            bandwidth_mhz: real_of(1),
            position,
            monitored_channels: Vec::new(),
        }
    }
}

impl<R> Receiver<R> {
    /// The same receiver with noise figure `nf`.
    pub fn with_noise_figure(self, nf: R) -> (r: Self)
        ensures
            r == (Receiver { noise_figure_db: nf, ..self }),
    {
        let mut r = self;
        r.noise_figure_db = nf;
        r
    }

    /// The same receiver, listening on `channels` only.
    pub fn with_monitored_channels(self, channels: Vec<u32>) -> (r: Self)
        ensures
            r == (Receiver { monitored_channels: channels, ..self }),
    {
        let mut r = self;
        r.monitored_channels = channels;
        r
    }
}

} // verus!
