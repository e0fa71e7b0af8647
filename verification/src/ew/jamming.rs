//! The concrete electronic-warfare effects.

use vstd::prelude::*;

use crate::ew::effect::{in_window, within_window, EwEffect};
use crate::model::emitter::{Emitter, EmitterState, SignalCategory};
use crate::model::id::EntityId;
use crate::model::interference::{Interference, InterferenceKind};
use crate::model::scalar::is_real_of;
use crate::model::world::{Position, World};

verus! {

/// The identifier given to the interference that an effect adds to a world
/// that already holds `count` interferences: `count + base`, held at
/// `u64::MAX` should it go beyond.
pub open spec fn interference_id(count: nat, base: u64) -> EntityId {
    if count + base <= u64::MAX {
        EntityId((count + base) as u64)
    } else {
        EntityId(u64::MAX)
    }
}

fn next_interference_id<R>(world: &World<R>, base: u64) -> (id: EntityId)
    ensures
        id == interference_id(world.active_interference@.len(), base),
{
    let count = world.active_interference.len() as u64;
    EntityId::from_raw(count.saturating_add(base))
}

/// `after` is `before` with one interference added at the end, with the
/// given parameters and with its full duration still to run.
pub open spec fn adds_interference<R>(
    before: World<R>,
    after: World<R>,
    id: EntityId,
    source: EntityId,
    kind: InterferenceKind,
    center: Position<R>,
    radius: R,
    intensity: R,
    duration: u64,
    channels: Seq<u32>,
) -> bool {
    let ix = after.active_interference@.last();
    &&& after.active_interference@.len() == before.active_interference@.len() + 1
    &&& after.active_interference@.drop_last() == before.active_interference@
    &&& ix.id == id
    &&& ix.source_id == source
    &&& ix.kind == kind
    &&& ix.affected_center == center
    &&& ix.affected_radius == radius
    &&& ix.intensity_db == intensity
    &&& ix.duration_ticks == duration
    &&& ix.remaining_ticks == duration
    &&& ix.affected_channels@ == channels
    &&& after.config == before.config
    &&& after.tick == before.tick
    &&& after.entities@ == before.entities@
    &&& after.emitters@ == before.emitters@
    &&& after.receivers@ == before.receivers@
}

/// Configuration of a deception effect.
#[derive(Debug, Clone)]
pub struct DeceptionConfig<R> {
    pub source_id: EntityId,
    pub false_emitter_id: EntityId,
    pub owner_id: EntityId,
    pub channel: u32,
    pub frequency_mhz: R,
    pub power_db: R,
    pub position: Position<R>,
    pub duration_ticks: u64,
    pub start_tick: u64,
}

/// Configuration of a cross-channel interference effect.
#[derive(Debug, Clone)]
pub struct CrossChannelConfig<R> {
    pub source_id: EntityId,
    pub center: Position<R>,
    pub radius: R,
    pub intensity_db: R,
    pub duration_ticks: u64,
    pub start_tick: u64,
    pub source_channel: u32,
    pub affected_channels: Vec<u32>,
}

/// Noise jamming: broadband interference around a position, raising the
/// noise floor of every receiver within the radius.
#[derive(Debug, Clone)]
pub struct NoiseJamming<R> {
    pub source_id: EntityId,
    pub center: Position<R>,
    pub radius: R,
    pub intensity_db: R,
    pub duration_ticks: u64,
    pub start_tick: u64,
    pub affected_channels: Vec<u32>,
}

impl<R> NoiseJamming<R> {
    /// Noise jamming on every channel.
    pub fn new(
        source_id: EntityId,
        center: Position<R>,
        radius: R,
        intensity_db: R,
        duration_ticks: u64,
        start_tick: u64,
    ) -> (j: Self)
        ensures
            j.source_id == source_id,
            j.center == center,
            j.radius == radius,
            j.intensity_db == intensity_db,
            j.duration_ticks == duration_ticks,
            j.start_tick == start_tick,
            j.affected_channels@.len() == 0,
    {
        NoiseJamming {
            source_id,
            center,
            radius,
            intensity_db,
            duration_ticks,
            start_tick,
            affected_channels: Vec::new(),
        }
    }

    /// The same jamming, restricted to `channels`.
    pub fn with_channels(self, channels: Vec<u32>) -> (j: Self)
        ensures
            j == (NoiseJamming { affected_channels: channels, ..self }),
    {
        let mut j = self;
        j.affected_channels = channels;
        j
    }
}

impl<R: Copy> EwEffect<R> for NoiseJamming<R> {
    open spec fn display_name(&self) -> &str {
        "NoiseJamming"
    }

    open spec fn active_at(&self, tick: u64) -> bool {
        in_window(self.start_tick, self.duration_ticks, tick)
    }

    open spec fn transforms(&self, before: World<R>, after: World<R>, tick: u64) -> bool {
        adds_interference(
            before,
            after,
            interference_id(before.active_interference@.len(), 1000),
            self.source_id,
            InterferenceKind::NoiseJamming,
            self.center,
            self.radius,
            self.intensity_db,
            self.duration_ticks,
            self.affected_channels@,
        )
    }

    /// Adds noise-jamming interference, numbered from 1000 on.
    fn apply(&self, world: &mut World<R>, _tick: u64)
        ensures
            adds_interference(
                *old(world),
                *final(world),
                interference_id(old(world).active_interference@.len(), 1000),
                self.source_id,
                InterferenceKind::NoiseJamming,
                self.center,
                self.radius,
                self.intensity_db,
                self.duration_ticks,
                self.affected_channels@,
            ),
    {
        let id = next_interference_id(world, 1000);
        let mut ix = Interference::new(
            id,
            self.source_id,
            InterferenceKind::NoiseJamming,
            self.center,
            self.radius,
            self.intensity_db,
            self.duration_ticks,
        );
        if self.affected_channels.len() > 0 {
            ix = ix.with_affected_channels(self.affected_channels.clone());
        }
        proof {
            assert(ix.affected_channels@ =~= self.affected_channels@);
        }
        world.add_interference(ix);
        proof {
            assert(world.active_interference@.drop_last() =~= old(world).active_interference@);
        }
    }

    fn source(&self) -> (id: EntityId)
        ensures
            id == self.source_id,
    {
        self.source_id
    }

    fn is_active(&self, tick: u64) -> (b: bool)
        ensures
            b == in_window(self.start_tick, self.duration_ticks, tick),
    {
        within_window(self.start_tick, self.duration_ticks, tick)
    }

    fn name(&self) -> (n: &str)
        ensures
            n@ == "NoiseJamming"@,
    {
        proof {
            reveal_strlit("NoiseJamming");
        }
        "NoiseJamming"
    }
}

/// Deception jamming: a false emitter that sensors take for a real signal.
#[derive(Debug, Clone)]
pub struct DeceptionJamming<R> {
    pub config: DeceptionConfig<R>,
}

impl<R> DeceptionJamming<R> {
    pub fn new(config: DeceptionConfig<R>) -> (j: Self)
        ensures
            j.config == config,
    {
        DeceptionJamming { config }
    }
}

/// Whether an emitter with identifier `id` is among `emitters`.
pub open spec fn has_emitter<R>(emitters: Seq<Emitter<R>>, id: EntityId) -> bool {
    exists|i: int| 0 <= i < emitters.len() && emitters[i].id == id
}

impl<R: Copy + From<i32>> EwEffect<R> for DeceptionJamming<R> {
    open spec fn display_name(&self) -> &str {
        "DeceptionJamming"
    }

    open spec fn active_at(&self, tick: u64) -> bool {
        in_window(self.config.start_tick, self.config.duration_ticks, tick)
    }

    open spec fn transforms(&self, before: World<R>, after: World<R>, tick: u64) -> bool {
        &&& has_emitter(before.emitters@, self.config.false_emitter_id) ==> after == before
        &&& !has_emitter(before.emitters@, self.config.false_emitter_id) ==> {
            let e = after.emitters@.last();
            &&& after.emitters@.len() == before.emitters@.len() + 1
            &&& after.emitters@.drop_last() == before.emitters@
            &&& e.id == self.config.false_emitter_id
            &&& e.owner_id == self.config.owner_id
            &&& e.channel == self.config.channel
            &&& e.frequency_mhz == self.config.frequency_mhz
            &&& is_real_of(e.bandwidth_mhz, 1)
            &&& e.power_db == self.config.power_db
            &&& e.category == SignalCategory::Unknown
            &&& e.state == EmitterState::Transmitting
            &&& e.position == self.config.position
            &&& after.config == before.config
            &&& after.tick == before.tick
            &&& after.entities@ == before.entities@
            &&& after.receivers@ == before.receivers@
            &&& after.active_interference@ == before.active_interference@
        }
    }

    /// Adds the false emitter, unless the world already has an emitter with
    /// its identifier.
    fn apply(&self, world: &mut World<R>, _tick: u64)
        ensures
            has_emitter(old(world).emitters@, self.config.false_emitter_id) ==> *final(world)
                == *old(world),
            !has_emitter(old(world).emitters@, self.config.false_emitter_id) ==> {
                let e = final(world).emitters@.last();
                &&& final(world).emitters@.len() == old(world).emitters@.len() + 1
                &&& final(world).emitters@.drop_last() == old(world).emitters@
                &&& e.id == self.config.false_emitter_id
                &&& e.owner_id == self.config.owner_id
                &&& e.channel == self.config.channel
                &&& e.frequency_mhz == self.config.frequency_mhz
                &&& is_real_of(e.bandwidth_mhz, 1)
                &&& e.power_db == self.config.power_db
                &&& e.category == SignalCategory::Unknown
                &&& e.state == EmitterState::Transmitting
                &&& e.position == self.config.position
                &&& final(world).config == old(world).config
                &&& final(world).tick == old(world).tick
                &&& final(world).entities@ == old(world).entities@
                &&& final(world).receivers@ == old(world).receivers@
                &&& final(world).active_interference@ == old(world).active_interference@
            },
    {
        let mut already_has = false;
        let mut i: usize = 0;
        while i < world.emitters.len()
            invariant
                i <= world.emitters@.len(),
                already_has == exists|j: int|
                    0 <= j < i && world.emitters@[j].id == self.config.false_emitter_id,
            decreases world.emitters@.len() - i,
        {
            if world.emitters[i].id == self.config.false_emitter_id {
                already_has = true;
            }
            i = i + 1;
        }
        if !already_has {
            let emitter = Emitter::new(
                self.config.false_emitter_id,
                self.config.owner_id,
                self.config.channel,
                self.config.frequency_mhz,
                SignalCategory::Unknown,
                self.config.position,
            ).with_power_db(self.config.power_db);
            world.add_emitter(emitter);
            proof {
                assert(world.emitters@.drop_last() =~= old(world).emitters@);
            }
        }
    }

    fn source(&self) -> (id: EntityId)
        ensures
            id == self.config.source_id,
    {
        self.config.source_id
    }

    fn is_active(&self, tick: u64) -> (b: bool)
        ensures
            b == in_window(self.config.start_tick, self.config.duration_ticks, tick),
    {
        within_window(self.config.start_tick, self.config.duration_ticks, tick)
    }

    fn name(&self) -> (n: &str)
        ensures
            n@ == "DeceptionJamming"@,
    {
        proof {
            reveal_strlit("DeceptionJamming");
        }
        "DeceptionJamming"
    }
}

/// Channel flooding: noise on a chosen set of channels, more targeted than
/// broadband noise jamming.
#[derive(Debug, Clone)]
pub struct ChannelFlooding<R> {
    pub source_id: EntityId,
    pub center: Position<R>,
    pub radius: R,
    pub intensity_db: R,
    pub duration_ticks: u64,
    pub start_tick: u64,
    pub target_channels: Vec<u32>,
}

impl<R> ChannelFlooding<R> {
    pub fn new(
        source_id: EntityId,
        center: Position<R>,
        radius: R,
        intensity_db: R,
        duration_ticks: u64,
        start_tick: u64,
        target_channels: Vec<u32>,
    ) -> (f: Self)
        ensures
            f == (ChannelFlooding {
                source_id,
                center,
                radius,
                intensity_db,
                duration_ticks,
                start_tick,
                target_channels,
            }),
    {
        ChannelFlooding {
            source_id,
            center,
            radius,
            intensity_db,
            duration_ticks,
            start_tick,
            target_channels,
        }
    }
}

impl<R: Copy> EwEffect<R> for ChannelFlooding<R> {
    open spec fn display_name(&self) -> &str {
        "ChannelFlooding"
    }

    open spec fn active_at(&self, tick: u64) -> bool {
        in_window(self.start_tick, self.duration_ticks, tick)
    }

    open spec fn transforms(&self, before: World<R>, after: World<R>, tick: u64) -> bool {
        adds_interference(
            before,
            after,
            interference_id(before.active_interference@.len(), 2000),
            self.source_id,
            InterferenceKind::ChannelFlooding,
            self.center,
            self.radius,
            self.intensity_db,
            self.duration_ticks,
            self.target_channels@,
        )
    }

    /// Adds flooding interference on the target channels, numbered from
    /// 2000 on.
    fn apply(&self, world: &mut World<R>, _tick: u64)
        ensures
            adds_interference(
                *old(world),
                *final(world),
                interference_id(old(world).active_interference@.len(), 2000),
                self.source_id,
                InterferenceKind::ChannelFlooding,
                self.center,
                self.radius,
                self.intensity_db,
                self.duration_ticks,
                self.target_channels@,
            ),
    {
        let id = next_interference_id(world, 2000);
        let ix = Interference::new(
            id,
            self.source_id,
            InterferenceKind::ChannelFlooding,
            self.center,
            self.radius,
            self.intensity_db,
            self.duration_ticks,
        ).with_affected_channels(self.target_channels.clone());
        proof {
            assert(ix.affected_channels@ =~= self.target_channels@);
        }
        world.add_interference(ix);
        proof {
            assert(world.active_interference@.drop_last() =~= old(world).active_interference@);
        }
    }

    fn source(&self) -> (id: EntityId)
        ensures
            id == self.source_id,
    {
        self.source_id
    }

    fn is_active(&self, tick: u64) -> (b: bool)
        ensures
            b == in_window(self.start_tick, self.duration_ticks, tick),
    {
        within_window(self.start_tick, self.duration_ticks, tick)
    }

    fn name(&self) -> (n: &str)
        ensures
            n@ == "ChannelFlooding"@,
    {
        proof {
            reveal_strlit("ChannelFlooding");
        }
        "ChannelFlooding"
    }
}

/// Cross-channel interference: intermodulation and harmonics that spill
/// from one channel into others.
#[derive(Debug, Clone)]
pub struct CrossChannelInterference<R> {
    pub config: CrossChannelConfig<R>,
}

impl<R> CrossChannelInterference<R> {
    pub fn new(config: CrossChannelConfig<R>) -> (c: Self)
        ensures
            c.config == config,
    {
        CrossChannelInterference { config }
    }
}

impl<R: Copy> EwEffect<R> for CrossChannelInterference<R> {
    open spec fn display_name(&self) -> &str {
        "CrossChannelInterference"
    }

    open spec fn active_at(&self, tick: u64) -> bool {
        in_window(self.config.start_tick, self.config.duration_ticks, tick)
    }

    open spec fn transforms(&self, before: World<R>, after: World<R>, tick: u64) -> bool {
        adds_interference(
            before,
            after,
            interference_id(before.active_interference@.len(), 3000),
            self.config.source_id,
            InterferenceKind::CrossChannelInterference,
            self.config.center,
            self.config.radius,
            self.config.intensity_db,
            self.config.duration_ticks,
            self.config.affected_channels@,
        )
    }

    /// Adds cross-channel interference on the affected channels, numbered
    /// from 3000 on.
    fn apply(&self, world: &mut World<R>, _tick: u64)
        ensures
            adds_interference(
                *old(world),
                *final(world),
                interference_id(old(world).active_interference@.len(), 3000),
                self.config.source_id,
                InterferenceKind::CrossChannelInterference,
                self.config.center,
                self.config.radius,
                self.config.intensity_db,
                self.config.duration_ticks,
                self.config.affected_channels@,
            ),
    {
        let id = next_interference_id(world, 3000);
        let ix = Interference::new(
            id,
            self.config.source_id,
            InterferenceKind::CrossChannelInterference,
            self.config.center,
            self.config.radius,
            self.config.intensity_db,
            self.config.duration_ticks,
        ).with_affected_channels(self.config.affected_channels.clone());
        proof {
            assert(ix.affected_channels@ =~= self.config.affected_channels@);
        }
        world.add_interference(ix);
        proof {
            assert(world.active_interference@.drop_last() =~= old(world).active_interference@);
        }
    }

    fn source(&self) -> (id: EntityId)
        ensures
            id == self.config.source_id,
    {
        self.config.source_id
    }

    fn is_active(&self, tick: u64) -> (b: bool)
        ensures
            b == in_window(self.config.start_tick, self.config.duration_ticks, tick),
    {
        within_window(self.config.start_tick, self.config.duration_ticks, tick)
    }

    fn name(&self) -> (n: &str)
        ensures
            n@ == "CrossChannelInterference"@,
    {
        proof {
            reveal_strlit("CrossChannelInterference");
        }
        "CrossChannelInterference"
    }
}

/// Sensor confusion: raises the ambient noise floor, degrading every
/// sensor's observations.
#[derive(Debug, Clone)]
pub struct SensorConfusion<R> {
    pub source_id: EntityId,
    pub center: Position<R>,
    pub radius: R,
    pub noise_floor_increase_db: R,
    pub duration_ticks: u64,
    pub start_tick: u64,
}

impl<R> SensorConfusion<R> {
    pub fn new(
        source_id: EntityId,
        center: Position<R>,
        radius: R,
        noise_floor_increase_db: R,
        duration_ticks: u64,
        start_tick: u64,
    ) -> (c: Self)
        ensures
            c == (SensorConfusion {
                source_id,
                center,
                radius,
                noise_floor_increase_db,
                duration_ticks,
                start_tick,
            }),
    {
        SensorConfusion {
            source_id,
            center,
            radius,
            noise_floor_increase_db,
            duration_ticks,
            start_tick,
        }
    }

    pub fn source(&self) -> (id: EntityId)
        ensures
            id == self.source_id,
    {
        self.source_id
    }

    pub fn is_active(&self, tick: u64) -> (b: bool)
        ensures
            b == in_window(self.start_tick, self.duration_ticks, tick),
    {
        within_window(self.start_tick, self.duration_ticks, tick)
    }

    pub fn name(&self) -> (n: &str)
        ensures
            n@ == "SensorConfusion"@,
    {
        "SensorConfusion"
    }
}

/// A deception effect adds its false emitter once: whichever case of
/// `apply` a first application falls in, the world then holds an emitter
/// with the false identifier, so every further application leaves the
/// world as it is.
pub proof fn lemma_deception_adds_once<R>(d: DeceptionJamming<R>, before: World<R>, after: World<R>)
    requires
        has_emitter(before.emitters@, d.config.false_emitter_id) ==> after == before,
        !has_emitter(before.emitters@, d.config.false_emitter_id) ==> {
            &&& after.emitters@.len() == before.emitters@.len() + 1
            &&& after.emitters@.last().id == d.config.false_emitter_id
        },
    ensures
        has_emitter(after.emitters@, d.config.false_emitter_id),
{
    if !has_emitter(before.emitters@, d.config.false_emitter_id) {
        let k = after.emitters@.len() - 1;
        assert(after.emitters@[k].id == d.config.false_emitter_id);
    }
}

} // verus!
