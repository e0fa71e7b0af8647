//! The world: positions, the environment, factions, and the registry of
//! entities, emitters, receivers and active interference.

use vstd::prelude::*;

use crate::model::emitter::Emitter;
use crate::model::entity::Entity;
use crate::model::id::EntityId;
use crate::model::interference::Interference;
use crate::model::scalar::{is_real_of, real_of};
use crate::model::receiver::Receiver;

verus! {

/// A point on the two-dimensional map.
#[derive(Debug, Clone, Copy, PartialEq)]
pub struct Position<R> {
    pub x: R,
    pub y: R,
}

impl<R> Position<R> {
    pub fn new(x: R, y: R) -> (p: Self)
        ensures
            p.x == x,
            p.y == y,
    {
        Position { x, y }
    }
}

/// Environmental parameters of signal propagation.
#[derive(Debug, Clone)]
pub struct Environment<R> {
    pub propagation_loss_exponent: R,
    pub ambient_noise_db: R,
    pub weather_attenuation: R,
    pub terrain_masking: bool,
}

impl<R: From<i32>> Default for Environment<R> {
    /// Free-space propagation, an ambient noise of -100 dB, no weather,
    /// no terrain masking.
    fn default() -> (env: Self)
        ensures
            is_real_of(env.propagation_loss_exponent, 2),
            is_real_of(env.ambient_noise_db, -100i32),
            is_real_of(env.weather_attenuation, 0),
            !env.terrain_masking,
    {
        Environment {
            propagation_loss_exponent: real_of(2),
            ambient_noise_db: real_of(-100),
            weather_attenuation: real_of(0),
            terrain_masking: false,
        }
    }
}

#[derive(Debug, Clone, Copy, PartialEq, Eq, Hash, Structural)]
pub enum Faction {
    Blue,
    Red,
    Neutral,
}

/// The fixed parameters of a simulated world.
#[derive(Debug, Clone)]
pub struct WorldConfig<R> {
    pub map_width: R,
    pub map_height: R,
    pub max_ticks: u64,
    pub environment: Environment<R>,
}

impl<R: From<i32>> Default for WorldConfig<R> {
    /// A 1000 by 1000 map, run for 1000 ticks, in the default environment.
    fn default() -> (c: Self)
        ensures
            is_real_of(c.map_width, 1000),
            is_real_of(c.map_height, 1000),
            c.max_ticks == 1000,
            is_real_of(c.environment.propagation_loss_exponent, 2),
            is_real_of(c.environment.ambient_noise_db, -100i32),
            is_real_of(c.environment.weather_attenuation, 0),
            !c.environment.terrain_masking,
    {
        WorldConfig {
            map_width: real_of(1000),
            map_height: real_of(1000),
            max_ticks: 1000,
            environment: Environment::default(),
        }
    }
}

/// The entities of `s` that belong to `faction`, in order.
pub open spec fn of_faction<R>(s: Seq<Entity<R>>, faction: Faction) -> Seq<Entity<R>> {
    s.filter(|e: Entity<R>| e.faction == faction)
}

/// The emitters of `s` owned by `owner`, in order.
pub open spec fn emitters_of<R>(s: Seq<Emitter<R>>, owner: EntityId) -> Seq<Emitter<R>> {
    s.filter(|e: Emitter<R>| e.owner_id == owner)
}

/// The receivers of `s` owned by `owner`, in order.
pub open spec fn receivers_of<R>(s: Seq<Receiver<R>>, owner: EntityId) -> Seq<Receiver<R>> {
    s.filter(|r: Receiver<R>| r.owner_id == owner)
}

/// An interference one tick later.
pub open spec fn ticked<R>(ix: Interference<R>) -> Interference<R> {
    Interference {
        remaining_ticks: if ix.remaining_ticks > 0 {
            (ix.remaining_ticks - 1) as u64
        } else {
            0
        },
        ..ix
    }
}

/// What remains of the interference list `s` one tick later: every entry
/// counts down by one tick and those that reach zero are gone, the others
/// keeping their order.
pub open spec fn after_tick<R>(s: Seq<Interference<R>>) -> Seq<Interference<R>>
    decreases s.len(),
{
    if s.len() == 0 {
        Seq::empty()
    } else {
        let rest = after_tick(s.drop_last());
        if s.last().remaining_ticks > 1 {
            rest.push(ticked(s.last()))
        } else {
            rest
        }
    }
}

/// The complete state of the simulated world.
#[derive(Debug, Clone)]
pub struct World<R> {
    pub config: WorldConfig<R>,
    pub tick: u64,
    pub entities: Vec<Entity<R>>,
    pub emitters: Vec<Emitter<R>>,
    pub receivers: Vec<Receiver<R>>,
    pub active_interference: Vec<Interference<R>>,
}

impl<R> World<R> {
    /// An empty world at tick 0.
    pub fn new(config: WorldConfig<R>) -> (w: Self)
        ensures
            w.config == config,
            w.tick == 0,
            w.entities@.len() == 0,
            w.emitters@.len() == 0,
            w.receivers@.len() == 0,
            w.active_interference@.len() == 0,
    {
        World {
            config,
            tick: 0,
            entities: Vec::new(),
            emitters: Vec::new(),
            receivers: Vec::new(),
            active_interference: Vec::new(),
        }
    }

    pub fn advance_tick(&mut self)
        requires
            old(self).tick < u64::MAX,
        ensures
            *final(self) == (World { tick: (old(self).tick + 1) as u64, ..*old(self) }),
    {
        self.tick = self.tick + 1;
    }

    /// Registers an entity and returns its identifier.
    pub fn add_entity(&mut self, entity: Entity<R>) -> (id: EntityId)
        ensures
            id == entity.id,
            final(self).entities@ == old(self).entities@.push(entity),
            final(self).config == old(self).config,
            final(self).tick == old(self).tick,
            final(self).emitters@ == old(self).emitters@,
            final(self).receivers@ == old(self).receivers@,
            final(self).active_interference@ == old(self).active_interference@,
    {
        let id = entity.id;
        self.entities.push(entity);
        id
    }

    /// Registers an emitter and returns its identifier.
    pub fn add_emitter(&mut self, emitter: Emitter<R>) -> (id: EntityId)
        ensures
            id == emitter.id,
            final(self).emitters@ == old(self).emitters@.push(emitter),
            final(self).config == old(self).config,
            final(self).tick == old(self).tick,
            final(self).entities@ == old(self).entities@,
            final(self).receivers@ == old(self).receivers@,
            final(self).active_interference@ == old(self).active_interference@,
    {
        let id = emitter.id;
        self.emitters.push(emitter);
        id
    }

    /// Registers a receiver and returns its identifier.
    pub fn add_receiver(&mut self, receiver: Receiver<R>) -> (id: EntityId)
        ensures
            id == receiver.id,
            final(self).receivers@ == old(self).receivers@.push(receiver),
            final(self).config == old(self).config,
            final(self).tick == old(self).tick,
            final(self).entities@ == old(self).entities@,
            final(self).emitters@ == old(self).emitters@,
            final(self).active_interference@ == old(self).active_interference@,
    {
        let id = receiver.id;
        self.receivers.push(receiver);
        id
    }

    /// Registers an interference and returns its identifier.
    pub fn add_interference(&mut self, interference: Interference<R>) -> (id: EntityId)
        ensures
            id == interference.id,
            final(self).active_interference@ == old(self).active_interference@.push(
                interference,
            ),
            final(self).config == old(self).config,
            final(self).tick == old(self).tick,
            final(self).entities@ == old(self).entities@,
            final(self).emitters@ == old(self).emitters@,
            final(self).receivers@ == old(self).receivers@,
    {
        let id = interference.id;
        self.active_interference.push(interference);
        id
    }

    /// The first registered entity with identifier `id`.
    pub fn entity_by_id(&self, id: EntityId) -> (r: Option<&Entity<R>>)
        ensures
            match r {
                Some(e) => exists|i: int|
                    0 <= i < self.entities@.len() && self.entities@[i] == *e && e.id == id
                        && forall|j: int| 0 <= j < i ==> self.entities@[j].id != id,
                None => forall|i: int| 0 <= i < self.entities@.len() ==> self.entities@[i].id != id,
            },
    {
        let mut i: usize = 0;
        while i < self.entities.len()
            invariant
                i <= self.entities@.len(),
                forall|j: int| 0 <= j < i ==> self.entities@[j].id != id,
            decreases self.entities@.len() - i,
        {
            if self.entities[i].id == id {
                return Some(&self.entities[i]);
            }
            i = i + 1;
        }
        None
    }

    /// The entities of `faction`, in registration order.
    pub fn entities_by_faction(&self, faction: Faction) -> (r: Vec<&Entity<R>>)
        ensures
            r@.map_values(|e: &Entity<R>| *e) == of_faction(self.entities@, faction),
    {
        let mut r: Vec<&Entity<R>> = Vec::new();
        let mut i: usize = 0;
        while i < self.entities.len()
            invariant
                i <= self.entities@.len(),
                r@.map_values(|e: &Entity<R>| *e) == of_faction(
                    self.entities@.take(i as int),
                    faction,
                ),
            decreases self.entities@.len() - i,
        {
            proof {
                assert(self.entities@.take(i as int + 1).drop_last() =~= self.entities@.take(
                    i as int,
                ));
                reveal_with_fuel(Seq::<_>::filter, 1);
            }
            if self.entities[i].faction == faction {
                r.push(&self.entities[i]);
            }
            proof {
                assert(r@.map_values(|e: &Entity<R>| *e) =~= of_faction(
                    self.entities@.take(i as int + 1),
                    faction,
                ));
            }
            i = i + 1;
        }
        proof {
            assert(self.entities@.take(self.entities@.len() as int) =~= self.entities@);
        }
        r
    }

    /// The emitters owned by `owner_id`, in registration order.
    pub fn emitters_for_entity(&self, owner_id: EntityId) -> (r: Vec<&Emitter<R>>)
        ensures
            r@.map_values(|e: &Emitter<R>| *e) == emitters_of(self.emitters@, owner_id),
    {
        let mut r: Vec<&Emitter<R>> = Vec::new();
        let mut i: usize = 0;
        while i < self.emitters.len()
            invariant
                i <= self.emitters@.len(),
                r@.map_values(|e: &Emitter<R>| *e) == emitters_of(
                    self.emitters@.take(i as int),
                    owner_id,
                ),
            decreases self.emitters@.len() - i,
        {
            proof {
                assert(self.emitters@.take(i as int + 1).drop_last() =~= self.emitters@.take(
                    i as int,
                ));
                reveal_with_fuel(Seq::<_>::filter, 1);
            }
            if self.emitters[i].owner_id == owner_id {
                r.push(&self.emitters[i]);
            }
            proof {
                assert(r@.map_values(|e: &Emitter<R>| *e) =~= emitters_of(
                    self.emitters@.take(i as int + 1),
                    owner_id,
                ));
            }
            i = i + 1;
        }
        proof {
            assert(self.emitters@.take(self.emitters@.len() as int) =~= self.emitters@);
        }
        r
    }

    /// The receivers owned by `owner_id`, in registration order.
    pub fn receivers_for_entity(&self, owner_id: EntityId) -> (r: Vec<&Receiver<R>>)
        ensures
            r@.map_values(|x: &Receiver<R>| *x) == receivers_of(self.receivers@, owner_id),
    {
        let mut r: Vec<&Receiver<R>> = Vec::new();
        let mut i: usize = 0;
        while i < self.receivers.len()
            invariant
                i <= self.receivers@.len(),
                r@.map_values(|x: &Receiver<R>| *x) == receivers_of(
                    self.receivers@.take(i as int),
                    owner_id,
                ),
            decreases self.receivers@.len() - i,
        {
            proof {
                assert(self.receivers@.take(i as int + 1).drop_last() =~= self.receivers@.take(
                    i as int,
                ));
                reveal_with_fuel(Seq::<_>::filter, 1);
            }
            if self.receivers[i].owner_id == owner_id {
                r.push(&self.receivers[i]);
            }
            proof {
                assert(r@.map_values(|x: &Receiver<R>| *x) =~= receivers_of(
                    self.receivers@.take(i as int + 1),
                    owner_id,
                ));
            }
            i = i + 1;
        }
        proof {
            assert(self.receivers@.take(self.receivers@.len() as int) =~= self.receivers@);
        }
        r
    }

    /// Counts every active interference down by one tick and drops those
    /// that have run out, keeping the others in order.
    pub fn tick_interference(&mut self)
        ensures
            final(self).active_interference@ == after_tick(old(self).active_interference@),
            final(self).config == old(self).config,
            final(self).tick == old(self).tick,
            final(self).entities@ == old(self).entities@,
            final(self).emitters@ == old(self).emitters@,
            final(self).receivers@ == old(self).receivers@,
    {
        let mut pending: Vec<Interference<R>> = Vec::new();
        std::mem::swap(&mut pending, &mut self.active_interference);
        let ghost orig = pending@;
        let mut kept: Vec<Interference<R>> = Vec::new();
        proof {
            assert(orig.skip(0) =~= orig);
            assert(orig.take(0) =~= Seq::<Interference<R>>::empty());
        }
        while pending.len() > 0
            invariant
                pending@.len() <= orig.len(),
                pending@ == orig.skip(orig.len() - pending@.len()),
                kept@ == after_tick(orig.take(orig.len() - pending@.len())),
            decreases pending@.len(),
        {
            let ghost k = orig.len() - pending@.len();
            let mut ix = pending.remove(0);
            proof {
                assert(ix == orig[k]);
                assert(orig.take(k + 1).drop_last() =~= orig.take(k));
                assert(orig.take(k + 1).last() == orig[k]);
                assert(pending@ =~= orig.skip(k + 1));
            }
            ix.tick();
            if ix.is_active() {
                kept.push(ix);
            }
        }
        proof {
            assert(orig.take(orig.len() as int) =~= orig);
        }
        self.active_interference = kept;
    }

    /// Whether the world has run for its configured number of ticks.
    pub fn is_complete(&self) -> (b: bool)
        ensures
            b == (self.tick >= self.config.max_ticks),
    {
        self.tick >= self.config.max_ticks
    }
}

} // verus!

verus! {

/// The interference list `s` after `n` ticks.
pub open spec fn after_ticks<R>(s: Seq<Interference<R>>, n: nat) -> Seq<Interference<R>>
    decreases n,
{
    if n == 0 {
        s
    } else {
        after_tick(after_ticks(s, (n - 1) as nat))
    }
}

/// Ticking never adds interference, and whatever remains is still active.
pub proof fn lemma_after_tick_shrinks<R>(s: Seq<Interference<R>>)
    ensures
        after_tick(s).len() <= s.len(),
        forall|i: int| 0 <= i < after_tick(s).len() ==> after_tick(s)[i].remaining_ticks >= 1,
    decreases s.len(),
{
    if s.len() > 0 {
        lemma_after_tick_shrinks(s.drop_last());
        let rest = after_tick(s.drop_last());
        if s.last().remaining_ticks > 1 {
            assert forall|i: int| 0 <= i < after_tick(s).len() implies after_tick(
                s,
            )[i].remaining_ticks >= 1 by {
                if i < rest.len() {
                    assert(after_tick(s)[i] == rest[i]);
                }
            }
        }
    }
}

/// An interference with `r` ticks to run survives exactly `r - 1` ticks of
/// the world: after `n < r` ticks it is still there with `r - n` ticks to
/// run, and after `r` ticks or more (at least one) it is gone.
pub proof fn lemma_interference_lifetime<R>(ix: Interference<R>, n: nat)
    ensures
        n < ix.remaining_ticks ==> after_ticks(seq![ix], n) == seq![
            Interference { remaining_ticks: (ix.remaining_ticks - n) as u64, ..ix },
        ],
        n >= 1 && n >= ix.remaining_ticks ==> after_ticks(seq![ix], n).len() == 0,
    decreases n,
{
    if n > 0 {
        lemma_interference_lifetime(ix, (n - 1) as nat);
        let prev = after_ticks(seq![ix], (n - 1) as nat);
        if n - 1 < ix.remaining_ticks {
            let cur = Interference { remaining_ticks: (ix.remaining_ticks - (n - 1)) as u64, ..ix };
            assert(prev == seq![cur]);
            assert(seq![cur].drop_last() =~= Seq::<Interference<R>>::empty());
            assert(after_tick(Seq::<Interference<R>>::empty()) == Seq::<Interference<R>>::empty());
            if n < ix.remaining_ticks {
                assert(after_tick(seq![cur]) =~= seq![ticked(cur)]);
            } else {
                assert(after_tick(seq![cur]) =~= Seq::<Interference<R>>::empty());
            }
        } else if n == 1 {
            assert(prev == seq![ix]);
            assert(seq![ix].drop_last() =~= Seq::<Interference<R>>::empty());
            assert(after_tick(Seq::<Interference<R>>::empty()) == Seq::<Interference<R>>::empty());
            assert(after_tick(seq![ix]) =~= Seq::<Interference<R>>::empty());
        } else {
            assert(prev.len() == 0);
            assert(after_tick(prev) =~= Seq::<Interference<R>>::empty());
        }
    } else {
        if ix.remaining_ticks > 0 {
            assert(seq![Interference { remaining_ticks: (ix.remaining_ticks - n) as u64, ..ix }]
                =~= seq![ix]);
        }
    }
}

} // verus!
