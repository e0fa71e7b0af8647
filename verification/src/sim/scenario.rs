//! Assembles a world from a scenario description, numbering every entity,
//! emitter and receiver in sequence.

use vstd::prelude::*;
use vstd::std_specs::convert::FromSpec;

use crate::model::config::{ScenarioEmitter, ScenarioEntity, ScenarioFile};
use crate::model::emitter::{Emitter, EmitterState};
use crate::model::entity::{ActivityState, Entity};
use crate::model::id::{EntityId, IdGenerator};
use crate::model::receiver::Receiver;
use crate::model::scalar::{is_real_of, real_of};
use crate::model::world::World;

verus! {

/// How many identifiers a scenario entity takes: one for itself, one per
/// emitter, and one for its receiver if it has one.
pub open spec fn id_span<R>(se: ScenarioEntity<R>) -> nat {
    1 + se.emits@.len() + if se.receives {
        1nat
    } else {
        0nat
    }
}

/// How many identifiers the scenario entities `s` take together.
pub open spec fn ids_used<R>(s: Seq<ScenarioEntity<R>>) -> nat
    decreases s.len(),
{
    if s.len() == 0 {
        0
    } else {
        ids_used(s.drop_last()) + id_span(s.last())
    }
}

/// How many emitters the scenario entities `s` carry together.
pub open spec fn emitters_in<R>(s: Seq<ScenarioEntity<R>>) -> nat
    decreases s.len(),
{
    if s.len() == 0 {
        0
    } else {
        emitters_in(s.drop_last()) + s.last().emits@.len()
    }
}

/// How many of the scenario entities `s` carry a receiver.
pub open spec fn receivers_in<R>(s: Seq<ScenarioEntity<R>>) -> nat
    decreases s.len(),
{
    if s.len() == 0 {
        0
    } else {
        receivers_in(s.drop_last()) + if s.last().receives {
            1nat
        } else {
            0nat
        }
    }
}

/// The raw identifier of the `i`-th scenario entity: identifiers are handed
/// out from 1 on, entity by entity, each entity before its emitters and its
/// receiver.
pub open spec fn entity_raw_id<R>(s: Seq<ScenarioEntity<R>>, i: int) -> int {
    1 + ids_used(s.take(i)) as int
}

/// `e` is the entity built from `se` under identifier `id`.
pub open spec fn entity_built<R: From<i32>>(e: Entity<R>, se: ScenarioEntity<R>, id: int) -> bool {
    &&& e.id.0 == id
    &&& e.kind == se.kind
    &&& e.faction == se.faction
    &&& e.position == se.position
    &&& e.label@ == se.label@
    &&& e.state == ActivityState::Active
    &&& !e.capabilities.can_emit
    &&& !e.capabilities.can_receive
    &&& !e.capabilities.can_jam
    &&& !e.capabilities.can_deceive
    &&& is_real_of(e.capabilities.max_power_db, 0)
}

/// `m` is the emitter built from `em`, carried by `se` whose identifier is
/// `owner`, under identifier `id`; it is silent when `se` has no receiver.
pub open spec fn emitter_built<R: From<i32>>(
    m: Emitter<R>,
    se: ScenarioEntity<R>,
    em: ScenarioEmitter<R>,
    id: int,
    owner: int,
) -> bool {
    &&& m.id.0 == id
    &&& m.owner_id.0 == owner
    &&& m.channel == em.channel
    &&& m.frequency_mhz == em.frequency_mhz
    &&& m.power_db == em.power_db
    &&& m.bandwidth_mhz == em.bandwidth_mhz
    &&& m.category == em.category
    &&& m.state == if se.receives {
        EmitterState::Transmitting
    } else {
        EmitterState::Silent
    }
    &&& m.position == se.position
}

/// `r` is the receiver of `se`, whose identifier is `owner`, built under
/// identifier `id`: sensitivity -90 dB, default noise figure and bandwidth,
/// listening on every channel.
pub open spec fn receiver_built<R: From<i32>>(
    r: Receiver<R>,
    se: ScenarioEntity<R>,
    id: int,
    owner: int,
) -> bool {
    &&& r.id.0 == id
    &&& r.owner_id.0 == owner
    &&& is_real_of(r.sensitivity_db, -90i32)
    &&& is_real_of(r.noise_figure_db, 3)
    &&& is_real_of(r.bandwidth_mhz, 1)
    &&& r.position == se.position
    &&& r.monitored_channels@.len() == 0
}

/// The first `n` scenario entities of `s` are built into `w`.
pub open spec fn built_upto<R: From<i32>>(s: Seq<ScenarioEntity<R>>, n: int, w: World<R>) -> bool {
    &&& w.entities@.len() == n
    &&& w.emitters@.len() == emitters_in(s.take(n))
    &&& w.receivers@.len() == receivers_in(s.take(n))
    &&& w.active_interference@.len() == 0
    &&& forall|i: int|
        0 <= i < n ==> entity_built(w.entities@[i], s[i], entity_raw_id(s, i))
    &&& forall|i: int, j: int|
        0 <= i < n && 0 <= j < s[i].emits@.len() ==> emitter_built(
            #[trigger] w.emitters@[emitters_in(s.take(i)) + j],
            s[i],
            s[i].emits@[j],
            entity_raw_id(s, i) + 1 + j,
            entity_raw_id(s, i),
        )
    &&& forall|i: int|
        0 <= i < n && s[i].receives ==> receiver_built(
            #[trigger] w.receivers@[receivers_in(s.take(i)) as int],
            s[i],
            entity_raw_id(s, i) + 1 + s[i].emits@.len(),
            entity_raw_id(s, i),
        )
}

/// Adds the entity `se` to `world`, followed by its emitters and its
/// receiver, numbered in sequence by `ids`.
fn add_scenario_entity<R: Copy + From<i32>>(
    world: &mut World<R>,
    ids: &mut IdGenerator,
    se: &ScenarioEntity<R>,
)
    requires
        old(ids).upcoming() + id_span(*se) <= u64::MAX,
    ensures
        final(ids).upcoming() == old(ids).upcoming() + id_span(*se),
        final(world).config == old(world).config,
        final(world).tick == old(world).tick,
        final(world).active_interference@ == old(world).active_interference@,
        final(world).entities@.len() == old(world).entities@.len() + 1,
        forall|x: int|
            0 <= x < old(world).entities@.len() ==> final(world).entities@[x] == old(
                world,
            ).entities@[x],
        entity_built(
            final(world).entities@[old(world).entities@.len() as int],
            *se,
            old(ids).upcoming() as int,
        ),
        final(world).emitters@.len() == old(world).emitters@.len() + se.emits@.len(),
        forall|x: int|
            0 <= x < old(world).emitters@.len() ==> final(world).emitters@[x] == old(
                world,
            ).emitters@[x],
        forall|m: int|
            0 <= m < se.emits@.len() ==> emitter_built(
                #[trigger] final(world).emitters@[old(world).emitters@.len() + m],
                *se,
                se.emits@[m],
                old(ids).upcoming() + 1 + m,
                old(ids).upcoming() as int,
            ),
        final(world).receivers@.len() == old(world).receivers@.len() + if se.receives {
            1nat
        } else {
            0nat
        },
        forall|x: int|
            0 <= x < old(world).receivers@.len() ==> final(world).receivers@[x] == old(
                world,
            ).receivers@[x],
        se.receives ==> receiver_built(
            final(world).receivers@[old(world).receivers@.len() as int],
            *se,
            old(ids).upcoming() + 1 + se.emits@.len(),
            old(ids).upcoming() as int,
        ),
{
    let ghost base = ids.upcoming();
    let ghost w0 = *world;
    let entity_id = ids.next_id();
    let entity = Entity::new(entity_id, se.kind, se.faction, se.position).with_label(
        se.label.as_str(),
    );
    world.add_entity(entity);
    let mut j: usize = 0;
    while j < se.emits.len()
        invariant
            base + id_span(*se) <= u64::MAX,
            j <= se.emits@.len(),
            ids.upcoming() == base + 1 + j,
            entity_id.0 == base,
            world.config == w0.config,
            world.tick == w0.tick,
            world.active_interference@ == w0.active_interference@,
            world.entities@.len() == w0.entities@.len() + 1,
            forall|x: int|
                0 <= x < w0.entities@.len() ==> world.entities@[x] == w0.entities@[x],
            entity_built(world.entities@[w0.entities@.len() as int], *se, base as int),
            world.receivers@ == w0.receivers@,
            world.emitters@.len() == w0.emitters@.len() + j,
            forall|x: int| 0 <= x < w0.emitters@.len() ==> world.emitters@[x] == w0.emitters@[x],
            forall|m: int|
                0 <= m < j ==> emitter_built(
                    #[trigger] world.emitters@[w0.emitters@.len() + m],
                    *se,
                    se.emits@[m],
                    base + 1 + m,
                    base as int,
                ),
        decreases se.emits@.len() - j,
    {
        let emit = &se.emits[j];
        let emitter_id = ids.next_id();
        let mut emitter = Emitter::new(
            emitter_id,
            entity_id,
            emit.channel,
            emit.frequency_mhz,
            emit.category,
            se.position,
        ).with_power_db(emit.power_db).with_bandwidth(emit.bandwidth_mhz);
        if !se.receives {
            emitter.state = EmitterState::Silent;
        }
        world.add_emitter(emitter);
        j = j + 1;
    }
    if se.receives {
        let receiver_id = ids.next_id();
        let receiver = Receiver::new(receiver_id, entity_id, real_of(-90), se.position);
        world.add_receiver(receiver);
    }
}

/// Builds worlds from scenario descriptions.
pub struct ScenarioLoader;

impl ScenarioLoader {
    /// The world that `scenario` describes, at tick 0, with no interference.
    #[verifier::rlimit(40)]
    pub fn build_world<R: Copy + From<i32>>(scenario: ScenarioFile<R>) -> (world: World<R>)
        requires
            ids_used(scenario.entities@) < u64::MAX,
        ensures
            world.config == scenario.world,
            world.tick == 0,
            built_upto(scenario.entities@, scenario.entities@.len() as int, world),
    {
        let entities = scenario.entities;
        let ghost s = entities@;
        let mut world = World::new(scenario.world);
        let mut ids = IdGenerator::new();
        let mut i: usize = 0;
        proof {
            assert(s.take(0) =~= Seq::<ScenarioEntity<R>>::empty());
        }
        while i < entities.len()
            invariant
                s == entities@,
                i <= s.len(),
                ids_used(s) < u64::MAX,
                ids.upcoming() == entity_raw_id(s, i as int),
                world.config == scenario.world,
                world.tick == 0,
                built_upto(s, i as int, world),
            decreases s.len() - i,
        {
            proof {
                lemma_ids_used_prefix(s, i as int + 1);
                lemma_counts_step(s, i as int);
            }
            let ghost w0 = world;
            add_scenario_entity(&mut world, &mut ids, &entities[i]);
            proof {
                lemma_built_step(s, i as int, w0, world);
            }
            i = i + 1;
        }
        proof {
            assert(s.take(s.len() as int) =~= s);
        }
        world
    }
}

proof fn lemma_prefix_counts_grow<R>(s: Seq<ScenarioEntity<R>>, k: int, i: int)
    requires
        0 <= k < i <= s.len(),
    ensures
        emitters_in(s.take(k)) + s[k].emits@.len() <= emitters_in(s.take(i)),
        receivers_in(s.take(k)) + (if s[k].receives {
            1nat
        } else {
            0nat
        }) <= receivers_in(s.take(i)),
    decreases i - k,
{
    lemma_counts_step(s, i - 1);
    if k < i - 1 {
        lemma_prefix_counts_grow(s, k, i - 1);
    }
}

#[verifier::rlimit(40)]
proof fn lemma_built_step<R: From<i32>>(
    s: Seq<ScenarioEntity<R>>,
    i: int,
    w0: World<R>,
    w1: World<R>,
)
    requires
        0 <= i < s.len(),
        built_upto(s, i, w0),
        w1.active_interference@ == w0.active_interference@,
        w1.entities@.len() == w0.entities@.len() + 1,
        forall|x: int| 0 <= x < w0.entities@.len() ==> w1.entities@[x] == w0.entities@[x],
        entity_built(w1.entities@[w0.entities@.len() as int], s[i], entity_raw_id(s, i)),
        w1.emitters@.len() == w0.emitters@.len() + s[i].emits@.len(),
        forall|x: int| 0 <= x < w0.emitters@.len() ==> w1.emitters@[x] == w0.emitters@[x],
        forall|m: int|
            0 <= m < s[i].emits@.len() ==> emitter_built(
                #[trigger] w1.emitters@[w0.emitters@.len() + m],
                s[i],
                s[i].emits@[m],
                entity_raw_id(s, i) + 1 + m,
                entity_raw_id(s, i),
            ),
        w1.receivers@.len() == w0.receivers@.len() + if s[i].receives {
            1nat
        } else {
            0nat
        },
        forall|x: int| 0 <= x < w0.receivers@.len() ==> w1.receivers@[x] == w0.receivers@[x],
        s[i].receives ==> receiver_built(
            w1.receivers@[w0.receivers@.len() as int],
            s[i],
            entity_raw_id(s, i) + 1 + s[i].emits@.len(),
            entity_raw_id(s, i),
        ),
    ensures
        built_upto(s, i + 1, w1),
{
    lemma_counts_step(s, i);
    assert forall|k: int, j: int|
        0 <= k < i + 1 && 0 <= j < s[k].emits@.len() implies emitter_built(
        #[trigger] w1.emitters@[emitters_in(s.take(k)) + j],
        s[k],
        s[k].emits@[j],
        entity_raw_id(s, k) + 1 + j,
        entity_raw_id(s, k),
    ) by {
        if k < i {
            lemma_prefix_counts_grow(s, k, i);
            assert(w1.emitters@[emitters_in(s.take(k)) + j] == w0.emitters@[emitters_in(
                s.take(k),
            ) + j]);
        }
    }
    assert forall|k: int|
        0 <= k < i + 1 && s[k].receives implies receiver_built(
        #[trigger] w1.receivers@[receivers_in(s.take(k)) as int],
        s[k],
        entity_raw_id(s, k) + 1 + s[k].emits@.len(),
        entity_raw_id(s, k),
    ) by {
        if k < i {
            lemma_prefix_counts_grow(s, k, i);
            assert(w1.receivers@[receivers_in(s.take(k)) as int]
                == w0.receivers@[receivers_in(s.take(k)) as int]);
        }
    }
}

proof fn lemma_ids_used_prefix<R>(s: Seq<ScenarioEntity<R>>, n: int)
    requires
        0 <= n <= s.len(),
    ensures
        ids_used(s.take(n)) <= ids_used(s),
    decreases s.len(),
{
    if n < s.len() {
        assert(s.drop_last().take(n) =~= s.take(n));
        lemma_ids_used_prefix(s.drop_last(), n);
    } else {
        assert(s.take(n) =~= s);
    }
}

proof fn lemma_counts_step<R>(s: Seq<ScenarioEntity<R>>, i: int)
    requires
        0 <= i < s.len(),
    ensures
        emitters_in(s.take(i + 1)) == emitters_in(s.take(i)) + s[i].emits@.len(),
        receivers_in(s.take(i + 1)) == receivers_in(s.take(i)) + if s[i].receives {
            1nat
        } else {
            0nat
        },
        ids_used(s.take(i + 1)) == ids_used(s.take(i)) + id_span(s[i]),
{
    assert(s.take(i + 1).drop_last() =~= s.take(i));
    assert(s.take(i + 1).last() == s[i]);
}

} // verus!

verus! {

/// Identifiers start at 1, and every scenario entity owns a block of
/// consecutive identifiers (itself, its emitters, its receiver) that ends
/// before the block of the next entity begins: no identifier is handed out
/// twice.
pub proof fn lemma_identifier_blocks_disjoint<R>(s: Seq<ScenarioEntity<R>>, i: int, k: int)
    requires
        0 <= i < k <= s.len(),
    ensures
        entity_raw_id(s, 0) == 1,
        entity_raw_id(s, i) + id_span(s[i]) <= entity_raw_id(s, k),
    decreases k - i,
{
    assert(s.take(0) =~= Seq::<ScenarioEntity<R>>::empty());
    lemma_counts_step(s, k - 1);
    if i < k - 1 {
        lemma_identifier_blocks_disjoint(s, i, k - 1);
    }
}

/// Whether two entities agree on everything a scenario decides about them:
/// identifier, kind, faction, position, label, state and capabilities.
pub open spec fn same_entity<R>(a: Entity<R>, b: Entity<R>) -> bool {
    &&& a.id == b.id
    &&& a.kind == b.kind
    &&& a.faction == b.faction
    &&& a.position == b.position
    &&& a.label@ == b.label@
    &&& a.state == b.state
    &&& a.capabilities.can_emit == b.capabilities.can_emit
    &&& a.capabilities.can_receive == b.capabilities.can_receive
    &&& a.capabilities.can_jam == b.capabilities.can_jam
    &&& a.capabilities.can_deceive == b.capabilities.can_deceive
}

/// Building is deterministic: two worlds built from the same scenario hold
/// the same entities (identifiers, kinds, factions, positions, labels,
/// states, capabilities), the very same emitters, and receivers with the
/// same identifiers, owners, positions and channels, in the same order;
/// where the real-number type converts integers as specified, their
/// constant powers and noise figures agree too.
pub proof fn lemma_build_deterministic<R: From<i32>>(
    s: Seq<ScenarioEntity<R>>,
    w1: World<R>,
    w2: World<R>,
)
    requires
        built_upto(s, s.len() as int, w1),
        built_upto(s, s.len() as int, w2),
    ensures
        w1.entities@.len() == w2.entities@.len(),
        w1.emitters@.len() == w2.emitters@.len(),
        w1.receivers@.len() == w2.receivers@.len(),
        forall|i: int|
            0 <= i < w1.entities@.len() ==> same_entity(
                #[trigger] w1.entities@[i],
                w2.entities@[i],
            ),
        forall|i: int, j: int|
            0 <= i < s.len() && 0 <= j < s[i].emits@.len() ==> (#[trigger] w1.emitters@[emitters_in(
                s.take(i),
            ) + j]) == w2.emitters@[emitters_in(s.take(i)) + j],
        forall|i: int|
            0 <= i < s.len() && s[i].receives ==> {
                let a = #[trigger] w1.receivers@[receivers_in(s.take(i)) as int];
                let b = w2.receivers@[receivers_in(s.take(i)) as int];
                &&& a.id == b.id
                &&& a.owner_id == b.owner_id
                &&& a.position == b.position
                &&& a.monitored_channels@ == b.monitored_channels@
                &&& <R as FromSpec<i32>>::obeys_from_spec() ==> {
                    &&& a.sensitivity_db == b.sensitivity_db
                    &&& a.noise_figure_db == b.noise_figure_db
                    &&& a.bandwidth_mhz == b.bandwidth_mhz
                }
            },
{
    assert forall|i: int| 0 <= i < w1.entities@.len() implies same_entity(
        #[trigger] w1.entities@[i],
        w2.entities@[i],
    ) by {
        assert(entity_built(w1.entities@[i], s[i], entity_raw_id(s, i)));
        assert(entity_built(w2.entities@[i], s[i], entity_raw_id(s, i)));
    }
    assert forall|i: int, j: int|
        0 <= i < s.len() && 0 <= j < s[i].emits@.len() implies (#[trigger] w1.emitters@[emitters_in(
        s.take(i),
    ) + j]) == w2.emitters@[emitters_in(s.take(i)) + j] by {
        let k = emitters_in(s.take(i)) + j;
        let id = entity_raw_id(s, i) + 1 + j;
        let owner = entity_raw_id(s, i);
        assert(emitter_built(w1.emitters@[k], s[i], s[i].emits@[j], id, owner));
        assert(emitter_built(w2.emitters@[k], s[i], s[i].emits@[j], id, owner));
        assert(w1.emitters@[k].id == w2.emitters@[k].id);
        assert(w1.emitters@[k].owner_id == w2.emitters@[k].owner_id);
    }
}

} // verus!
