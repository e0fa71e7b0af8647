//! Interference: areas of raised noise with a limited lifetime.

use vstd::prelude::*;

use crate::model::id::EntityId;
use crate::model::world::Position;

verus! {

#[derive(Debug, Clone, Copy, PartialEq, Eq, Hash, Structural)]
pub enum InterferenceKind {
    NoiseJamming,
    DeceptionJamming,
    ChannelFlooding,
    CrossChannelInterference,
    EnvironmentalNoise,
}

/// Whether a channel list covers `channel`: an empty list covers every channel.
pub open spec fn covers_channel(channels: Seq<u32>, channel: u32) -> bool {
    channels.len() == 0 || channels.contains(channel)
}

/// Whether the channel list `channels` covers `channel`.
pub fn channel_listed(channels: &Vec<u32>, channel: u32) -> (b: bool)
    ensures
        b == covers_channel(channels@, channel),
{
    if channels.len() == 0 {
        return true;
    }
    let mut i: usize = 0;
    while i < channels.len()
        invariant
            i <= channels@.len(),
            forall|j: int| 0 <= j < i ==> channels@[j] != channel,
        decreases channels@.len() - i,
    {
        if channels[i] == channel {
            proof {
                assert(channels@[i as int] == channel);
            }
            return true;
        }
        i = i + 1;
    }
    false
}

/// Interference around a center, on some channels, for some ticks.
#[derive(Debug, Clone)]
pub struct Interference<R> {
    pub id: EntityId,
    pub source_id: EntityId,
    pub kind: InterferenceKind,
    pub affected_center: Position<R>,
    pub affected_radius: R,
    pub intensity_db: R,
    pub duration_ticks: u64,
    pub remaining_ticks: u64,
    pub affected_channels: Vec<u32>,
}

impl<R> Interference<R> {
    /// An interference on every channel that lasts `duration_ticks` ticks.
    pub fn new(
        id: EntityId,
        source_id: EntityId,
        kind: InterferenceKind,
        center: Position<R>,
        radius: R,
        intensity_db: R,
        duration_ticks: u64,
    ) -> (ix: Self)
        ensures
            ix.id == id,
            ix.source_id == source_id,
            ix.kind == kind,
            ix.affected_center == center,
            ix.affected_radius == radius,
            ix.intensity_db == intensity_db,
            ix.duration_ticks == duration_ticks,
            ix.remaining_ticks == duration_ticks,
            ix.affected_channels@.len() == 0,
    {
        Interference {
            id,
            source_id,
            kind,
            affected_center: center,
            affected_radius: radius,
            intensity_db,
            duration_ticks,
            remaining_ticks: duration_ticks,
            affected_channels: Vec::new(),
        }
    }

    /// The same interference, restricted to `channels`.
    pub fn with_affected_channels(self, channels: Vec<u32>) -> (ix: Self)
        ensures
            ix == (Interference { affected_channels: channels, ..self }),
    {
        let mut ix = self;
        ix.affected_channels = channels;
        ix
    }

    pub fn is_active(&self) -> (b: bool)
        ensures
            b == (self.remaining_ticks > 0),
    {
        self.remaining_ticks > 0
    }

    /// Counts one tick down, stopping at zero.
    pub fn tick(&mut self)
        ensures
            *final(self) == (Interference {
                remaining_ticks: if old(self).remaining_ticks > 0 {
                    (old(self).remaining_ticks - 1) as u64
                } else {
                    0
                },
                ..*old(self)
            }),
    {
        if self.remaining_ticks > 0 {
            self.remaining_ticks = self.remaining_ticks - 1;
        }
    }

    pub fn affects_channel(&self, channel: u32) -> (b: bool)
        ensures
            b == covers_channel(self.affected_channels@, channel),
    {
        channel_listed(&self.affected_channels, channel)
    }
}

/// A channel list covers every channel it lists, wherever in the list it
/// stands; an empty list covers every channel; and a list that is not
/// empty covers only channels it lists.
pub proof fn lemma_channel_coverage(channels: Seq<u32>, channel: u32)
    ensures
        forall|i: int| 0 <= i < channels.len() ==> covers_channel(channels, #[trigger] channels[i]),
        channels.len() == 0 ==> covers_channel(channels, channel),
        channels.len() > 0 && covers_channel(channels, channel) ==> exists|i: int|
            0 <= i < channels.len() && channels[i] == channel,
{
    assert forall|i: int| 0 <= i < channels.len() implies covers_channel(
        channels,
        #[trigger] channels[i],
    ) by {
        assert(channels.contains(channels[i]));
    }
}

} // verus!
