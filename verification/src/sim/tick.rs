//! The discrete steps of a simulation tick: interference that runs out is
//! reported, emitters of inactive platforms fall silent, and usable
//! observations with an estimated source are reported as detections.

use vstd::prelude::*;

use crate::model::emitter::{Emitter, EmitterState};
use crate::model::entity::{ActivityState, Entity};
use crate::model::event::{Event, EventDetails, EventKind};
use crate::model::id::{EntityId, EventId};
use crate::model::interference::Interference;
use crate::model::metrics::Metrics;
use crate::model::observation::Observation;
use crate::model::scalar::{is_real_of, real_of};
use crate::model::world::{after_tick, World};

verus! {

/// Whether the events `s` are numbered 1, 2, 3, ... in the order in which
/// they were recorded.
pub open spec fn numbered_in_order<R>(s: Seq<Event<R>>) -> bool {
    forall|k: int| 0 <= k < s.len() ==> (#[trigger] s[k]).id == EventId((k + 1) as u64)
}

/// Whether the events of `s` from index `start` on are numbered by their
/// place (the event at index `i` is numbered `i + 1`) and happened at `tick`.
pub open spec fn stamped_from<R>(s: Seq<Event<R>>, start: int, tick: u64) -> bool {
    forall|i: int|
        start <= i < s.len() ==> (#[trigger] s[i]).id == EventId((i + 1) as u64) && s[i].tick
            == tick
}

/// The interference of `s` that runs out on the next tick: the entries with
/// exactly one tick left, in order.
pub open spec fn expiring<R>(s: Seq<Interference<R>>) -> Seq<Interference<R>> {
    s.filter(|ix: Interference<R>| ix.remaining_ticks == 1)
}

/// The event numbered `id` that reports, at `tick`, the end of `ix`.
pub open spec fn ended_event<R>(ix: Interference<R>, id: u64, tick: u64) -> Event<R> {
    Event {
        id: EventId(id),
        kind: EventKind::InterferenceEnded,
        tick,
        actor_id: ix.id,
        details: EventDetails::Interference { kind: ix.kind, intensity_db: ix.intensity_db },
    }
}

/// The events that report the end of each entry of `s` at `tick`,
/// numbered on from `first`.
pub open spec fn ended_events<R>(s: Seq<Interference<R>>, first: nat, tick: u64) -> Seq<Event<R>> {
    Seq::new(s.len(), |k: int| ended_event(s[k], (first + k) as u64, tick))
}

/// Ticks the world's interference and reports, at the world's current tick,
/// the end of every entry that runs out: each report is numbered one past
/// the number of events recorded before it.
pub fn expire_interference<R: Copy>(world: &mut World<R>, events: &mut Vec<Event<R>>)
    requires
        old(events)@.len() + old(world).active_interference@.len() < u64::MAX,
    ensures
        final(world).active_interference@ == after_tick(old(world).active_interference@),
        final(world).config == old(world).config,
        final(world).tick == old(world).tick,
        final(world).entities@ == old(world).entities@,
        final(world).emitters@ == old(world).emitters@,
        final(world).receivers@ == old(world).receivers@,
        final(events)@ == old(events)@ + ended_events(
            expiring(old(world).active_interference@),
            old(events)@.len() + 1,
            old(world).tick,
        ),
        numbered_in_order(old(events)@) ==> numbered_in_order(final(events)@),
        final(events)@.take(old(events)@.len() as int) == old(events)@,
        stamped_from(final(events)@, old(events)@.len() as int, old(world).tick),
{
    let tick = world.tick;
    let ghost base = events@;
    let ghost all = world.active_interference@;
    let mut i: usize = 0;
    while i < world.active_interference.len()
        invariant
            i <= all.len(),
            world.active_interference@ == all,
            world.tick == tick,
            base.len() + all.len() < u64::MAX,
            expiring(all.take(i as int)).len() <= i,
            events@ == base + ended_events(expiring(all.take(i as int)), base.len() + 1, tick),
        decreases all.len() - i,
    {
        proof {
            assert(all.take(i as int + 1).drop_last() =~= all.take(i as int));
            reveal_with_fuel(Seq::<_>::filter, 1);
        }
        if world.active_interference[i].remaining_ticks == 1 {
            let ix = &world.active_interference[i];
            let id = events.len() as u64 + 1;
            let event = Event::new(
                EventId::from_raw(id),
                EventKind::InterferenceEnded,
                tick,
                ix.id,
            ).with_details(EventDetails::Interference { kind: ix.kind, intensity_db: ix.intensity_db });
            events.push(event);
        }
        proof {
            let prev = expiring(all.take(i as int));
            let next = expiring(all.take(i as int + 1));
            if all[i as int].remaining_ticks == 1 {
                assert(next =~= prev.push(all[i as int]));
            } else {
                assert(next =~= prev);
            }
            assert(events@ =~= base + ended_events(next, base.len() + 1, tick));
        }
        i = i + 1;
    }
    proof {
        assert(all.take(all.len() as int) =~= all);
    }
    world.tick_interference();
}

/// The last entity of `s` with identifier `id`: the one a lookup by
/// identifier finds when later entries replace earlier ones.
pub open spec fn last_with_id<R>(s: Seq<Entity<R>>, id: EntityId) -> Option<Entity<R>>
    decreases s.len(),
{
    if s.len() == 0 {
        None
    } else if s.last().id == id {
        Some(s.last())
    } else {
        last_with_id(s.drop_last(), id)
    }
}

/// `em` once the state of its owner among `entities` is taken into account:
/// a transmitting emitter whose owner is registered but not active falls
/// silent; every other emitter stays as it is.
pub open spec fn with_owner_state<R>(em: Emitter<R>, entities: Seq<Entity<R>>) -> Emitter<R> {
    match last_with_id(entities, em.owner_id) {
        Some(owner) => if owner.state != ActivityState::Active && em.state
            == EmitterState::Transmitting {
            Emitter { state: EmitterState::Silent, ..em }
        } else {
            em
        },
        None => em,
    }
}

/// Whether the last entity of `entities` with identifier `id` is active, or
/// `None` if there is no such entity.
fn owner_activity<R>(entities: &Vec<Entity<R>>, id: EntityId) -> (r: Option<bool>)
    ensures
        r == (match last_with_id(entities@, id) {
            Some(e) => Some(e.state == ActivityState::Active),
            None => None::<bool>,
        }),
{
    let ghost all = entities@;
    let mut j: usize = entities.len();
    proof {
        assert(all.take(j as int) =~= all);
    }
    while j > 0
        invariant
            j <= all.len(),
            entities@ == all,
            last_with_id(all, id) == last_with_id(all.take(j as int), id),
        decreases j,
    {
        proof {
            assert(all.take(j as int).drop_last() =~= all.take(j as int - 1));
            assert(all.take(j as int).last() == all[j as int - 1]);
        }
        if entities[j - 1].id == id {
            return Some(entities[j - 1].is_active());
        }
        j = j - 1;
    }
    None
}

/// Silences every transmitting emitter whose owner is registered but not
/// active.
pub fn silence_inactive_emitters<R>(world: &mut World<R>)
    ensures
        final(world).emitters@ == old(world).emitters@.map_values(
            |em: Emitter<R>| with_owner_state(em, old(world).entities@),
        ),
        final(world).config == old(world).config,
        final(world).tick == old(world).tick,
        final(world).entities@ == old(world).entities@,
        final(world).receivers@ == old(world).receivers@,
        final(world).active_interference@ == old(world).active_interference@,
{
    let mut pending: Vec<Emitter<R>> = Vec::new();
    std::mem::swap(&mut pending, &mut world.emitters);
    let ghost orig = pending@;
    let ghost ents = world.entities@;
    let mut done: Vec<Emitter<R>> = Vec::new();
    proof {
        assert(orig.skip(0) =~= orig);
    }
    while pending.len() > 0
        invariant
            pending@.len() <= orig.len(),
            pending@ == orig.skip(orig.len() - pending@.len()),
            world.entities@ == ents,
            done@ == orig.take(orig.len() - pending@.len()).map_values(
                |em: Emitter<R>| with_owner_state(em, ents),
            ),
        decreases pending@.len(),
    {
        let ghost k = orig.len() - pending@.len();
        let mut em = pending.remove(0);
        proof {
            assert(em == orig[k]);
            assert(pending@ =~= orig.skip(k + 1));
        }
        match owner_activity(&world.entities, em.owner_id) {
            Some(active) => {
                if !active && em.state == EmitterState::Transmitting {
                    em.state = EmitterState::Silent;
                }
            },
            None => {},
        }
        done.push(em);
        proof {
            assert(done@ =~= orig.take(k + 1).map_values(
                |em: Emitter<R>| with_owner_state(em, ents),
            ));
        }
    }
    proof {
        assert(orig.take(orig.len() as int) =~= orig);
    }
    world.emitters = done;
}

/// The discrete opening of a tick: the world's interference runs down and
/// the end of what runs out is reported, numbered on from the events
/// already recorded; then the emitters of inactive platforms fall silent.
pub fn begin_tick<R: Copy>(world: &mut World<R>, events: &mut Vec<Event<R>>)
    requires
        old(events)@.len() + old(world).active_interference@.len() < u64::MAX,
    ensures
        final(world).active_interference@ == after_tick(old(world).active_interference@),
        final(world).emitters@ == old(world).emitters@.map_values(
            |em: Emitter<R>| with_owner_state(em, old(world).entities@),
        ),
        final(world).config == old(world).config,
        final(world).tick == old(world).tick,
        final(world).entities@ == old(world).entities@,
        final(world).receivers@ == old(world).receivers@,
        final(events)@ == old(events)@ + ended_events(
            expiring(old(world).active_interference@),
            old(events)@.len() + 1,
            old(world).tick,
        ),
        numbered_in_order(old(events)@) ==> numbered_in_order(final(events)@),
        final(events)@.take(old(events)@.len() as int) == old(events)@,
        stamped_from(final(events)@, old(events)@.len() as int, old(world).tick),
{
    expire_interference(world, events);
    silence_inactive_emitters(world);
}

/// Whether `e` is the event numbered `id` that reports, at `tick`, the
/// detection that `obs` makes: on the estimated channel and frequency, or
/// on channel 0 at frequency 0 where none was estimated.
pub open spec fn is_detection_event<R: From<i32>>(
    e: Event<R>,
    obs: Observation<R>,
    id: u64,
    tick: u64,
) -> bool {
    &&& e.id == EventId(id)
    &&& e.kind == EventKind::SignalDetected
    &&& e.tick == tick
    &&& e.actor_id == obs.observer_id
    &&& e.details matches EventDetails::Signal { channel, frequency_mhz }
    &&& channel == (match obs.estimated_channel {
        Some(c) => c,
        None => 0u32,
    })
    &&& match obs.estimated_frequency_mhz {
        Some(f) => frequency_mhz == f,
        None => is_real_of(frequency_mhz, 0),
    }
}

/// Reports the detection that `obs` makes at `tick`, if it was judged
/// `usable` and names an estimated source; the report is numbered one past
/// the number of events recorded before it.
pub fn record_detection<R: Copy + From<i32>>(
    events: &mut Vec<Event<R>>,
    obs: &Observation<R>,
    usable: bool,
    tick: u64,
)
    requires
        old(events)@.len() < u64::MAX,
    ensures
        if usable && obs.estimated_source_id is Some {
            &&& final(events)@.len() == old(events)@.len() + 1
            &&& final(events)@.drop_last() == old(events)@
            &&& is_detection_event(
                final(events)@.last(),
                *obs,
                (old(events)@.len() + 1) as u64,
                tick,
            )
        } else {
            final(events)@ == old(events)@
        },
        numbered_in_order(old(events)@) ==> numbered_in_order(final(events)@),
        final(events)@.take(old(events)@.len() as int) == old(events)@,
        stamped_from(final(events)@, old(events)@.len() as int, tick),
{
    if usable && obs.estimated_source_id.is_some() {
        let channel = match obs.estimated_channel {
            Some(c) => c,
            None => 0,
        };
        let frequency_mhz = match obs.estimated_frequency_mhz {
            Some(f) => f,
            None => real_of(0),
        };
        let id = events.len() as u64 + 1;
        let event = Event::new(EventId::from_raw(id), EventKind::SignalDetected, tick, obs.observer_id)
            .with_details(EventDetails::Signal { channel, frequency_mhz });
        events.push(event);
        proof {
            assert(events@.drop_last() =~= old(events)@);
        }
    }
}

/// Every interference is accounted for by a tick: it either runs on, is
/// reported as ending (exactly one tick left), or had already run out (no
/// tick left) and is dropped without a report.
pub proof fn lemma_tick_accounts_for_interference<R>(s: Seq<Interference<R>>)
    ensures
        after_tick(s).len() + expiring(s).len() + s.filter(
            |ix: Interference<R>| ix.remaining_ticks == 0,
        ).len() == s.len(),
    decreases s.len(),
{
    reveal_with_fuel(Seq::<_>::filter, 1);
    if s.len() > 0 {
        lemma_tick_accounts_for_interference(s.drop_last());
    }
}

/// Once the owners' states are applied, no emitter whose owner is
/// registered and inactive is still transmitting, and applying them a
/// second time changes nothing.
pub proof fn lemma_silencing_settles<R>(emitters: Seq<Emitter<R>>, entities: Seq<Entity<R>>)
    ensures
        ({
            let after = emitters.map_values(|em: Emitter<R>| with_owner_state(em, entities));
            &&& forall|i: int|
                0 <= i < after.len() ==> match #[trigger] last_with_id(
                    entities,
                    after[i].owner_id,
                ) {
                    Some(owner) => owner.state != ActivityState::Active ==> after[i].state
                        != EmitterState::Transmitting,
                    None => true,
                }
            &&& after.map_values(|em: Emitter<R>| with_owner_state(em, entities)) == after
        }),
{
    let after = emitters.map_values(|em: Emitter<R>| with_owner_state(em, entities));
    assert(after.map_values(|em: Emitter<R>| with_owner_state(em, entities)) =~= after);
}

/// The observations of `obs` that are reported as detections: those judged
/// usable in `usable` (by position) that name an estimated source, in order.
pub open spec fn reported<R>(obs: Seq<Observation<R>>, usable: Seq<bool>) -> Seq<Observation<R>>
    decreases obs.len(),
{
    if obs.len() == 0 {
        Seq::empty()
    } else {
        let rest = reported(obs.drop_last(), usable);
        if usable[obs.len() - 1] && obs.last().estimated_source_id is Some {
            rest.push(obs.last())
        } else {
            rest
        }
    }
}

/// How many flags of `usable` are set.
pub open spec fn usable_count(usable: Seq<bool>) -> nat {
    usable.filter(|b: bool| b).len()
}

proof fn lemma_reported_short<R>(obs: Seq<Observation<R>>, usable: Seq<bool>)
    ensures
        reported(obs, usable).len() <= obs.len(),
    decreases obs.len(),
{
    if obs.len() > 0 {
        lemma_reported_short(obs.drop_last(), usable);
    }
}

proof fn lemma_usable_count_prefix(usable: Seq<bool>, i: int)
    requires
        0 <= i <= usable.len(),
    ensures
        usable_count(usable.take(i)) <= i,
    decreases i,
{
    reveal_with_fuel(Seq::<_>::filter, 1);
    if i > 0 {
        assert(usable.take(i).drop_last() =~= usable.take(i - 1));
        lemma_usable_count_prefix(usable, i - 1);
    } else {
        assert(usable.take(0) =~= Seq::<bool>::empty());
    }
}

/// Records a tick's observations, judged usable or not by `usable` (one
/// flag per observation): each is counted in the core metrics, and each
/// usable one that names a source is reported as a detection at `tick`,
/// numbered on from the events already recorded. The running mean of the
/// confidence is kept by the caller, which picks the number type.
pub fn record_observations<R: Copy + From<i32>>(
    events: &mut Vec<Event<R>>,
    metrics: &mut Metrics<R>,
    observations: &[Observation<R>],
    usable: &[bool],
    tick: u64,
)
    requires
        usable@.len() == observations@.len(),
        old(metrics).total_observations + observations@.len() <= u64::MAX,
        old(metrics).usable_observations + observations@.len() <= u64::MAX,
        old(metrics).confidence_count + observations@.len() <= u64::MAX,
        old(events)@.len() + observations@.len() < u64::MAX,
    ensures
        *final(metrics) == (Metrics {
            total_observations: (old(metrics).total_observations + observations@.len()) as u64,
            usable_observations: (old(metrics).usable_observations + usable_count(usable@)) as u64,
            confidence_count: (old(metrics).confidence_count + observations@.len()) as u64,
            ..*old(metrics)
        }),
        ({
            let found = reported(observations@, usable@);
            let n = old(events)@.len();
            &&& final(events)@.len() == n + found.len()
            &&& final(events)@.take(n as int) == old(events)@
            &&& forall|k: int|
                0 <= k < found.len() ==> is_detection_event(
                    #[trigger] final(events)@[n + k],
                    found[k],
                    (n + k + 1) as u64,
                    tick,
                )
        }),
        numbered_in_order(old(events)@) ==> numbered_in_order(final(events)@),
        stamped_from(final(events)@, old(events)@.len() as int, tick),
{
    let ghost m0 = *metrics;
    let ghost e0 = events@;
    let ghost obs = observations@;
    let ghost us = usable@;
    let mut i: usize = 0;
    proof {
        assert(obs.take(0) =~= Seq::<Observation<R>>::empty());
        assert(us.take(0) =~= Seq::<bool>::empty());
        assert(events@.take(e0.len() as int) =~= e0);
    }
    while i < observations.len()
        invariant
            i <= obs.len(),
            obs == observations@,
            us == usable@,
            us.len() == obs.len(),
            m0.total_observations + obs.len() <= u64::MAX,
            m0.usable_observations + obs.len() <= u64::MAX,
            m0.confidence_count + obs.len() <= u64::MAX,
            e0.len() + obs.len() < u64::MAX,
            *metrics == (Metrics {
                total_observations: (m0.total_observations + i) as u64,
                usable_observations: (m0.usable_observations + usable_count(us.take(i as int))) as u64,
                confidence_count: (m0.confidence_count + i) as u64,
                ..m0
            }),
            usable_count(us.take(i as int)) <= i,
            reported(obs.take(i as int), us).len() <= i,
            events@.len() == e0.len() + reported(obs.take(i as int), us).len(),
            events@.take(e0.len() as int) == e0,
            forall|k: int|
                0 <= k < reported(obs.take(i as int), us).len() ==> is_detection_event(
                    #[trigger] events@[e0.len() + k],
                    reported(obs.take(i as int), us)[k],
                    (e0.len() + k + 1) as u64,
                    tick,
                ),
            numbered_in_order(e0) ==> numbered_in_order(events@),
            stamped_from(events@, e0.len() as int, tick),
        decreases obs.len() - i,
    {
        proof {
            assert(obs.take(i as int + 1).drop_last() =~= obs.take(i as int));
            assert(obs.take(i as int + 1).last() == obs[i as int]);
            assert(us.take(i as int + 1).drop_last() =~= us.take(i as int));
            reveal_with_fuel(Seq::<_>::filter, 1);
            lemma_usable_count_prefix(us, i as int + 1);
        }
        let ghost before = events@;
        metrics.count_observation(usable[i]);
        record_detection(events, &observations[i], usable[i], tick);
        proof {
            lemma_tick_stamps_compose(e0, before, events@, tick);
            let prev = reported(obs.take(i as int), us);
            let next = reported(obs.take(i as int + 1), us);
            if usable@[i as int] && obs[i as int].estimated_source_id is Some {
                assert(next == prev.push(obs[i as int]));
                assert(events@.drop_last() == before);
                assert forall|k: int| 0 <= k < next.len() implies is_detection_event(
                    #[trigger] events@[e0.len() + k],
                    next[k],
                    (e0.len() + k + 1) as u64,
                    tick,
                ) by {
                    if k < prev.len() {
                        assert(events@[e0.len() + k] == before[e0.len() + k]);
                    }
                }
                assert(events@.take(e0.len() as int) =~= before.take(e0.len() as int));
            } else {
                assert(next == prev);
            }
        }
        i = i + 1;
    }
    proof {
        assert(obs.take(obs.len() as int) =~= obs);
        assert(us.take(us.len() as int) =~= us);
    }
}

/// The steps of a tick compose: where each step keeps the events recorded
/// before it and stamps those it adds with their place and the tick, the
/// tick as a whole keeps the events recorded before it and stamps all the
/// events it adds.
pub proof fn lemma_tick_stamps_compose<R>(
    e0: Seq<Event<R>>,
    e1: Seq<Event<R>>,
    e2: Seq<Event<R>>,
    tick: u64,
)
    requires
        e0.len() <= e1.len(),
        e1.take(e0.len() as int) == e0,
        stamped_from(e1, e0.len() as int, tick),
        e1.len() <= e2.len(),
        e2.take(e1.len() as int) == e1,
        stamped_from(e2, e1.len() as int, tick),
    ensures
        e2.take(e0.len() as int) == e0,
        stamped_from(e2, e0.len() as int, tick),
{
    assert(e2.take(e0.len() as int) =~= e0) by {
        assert forall|i: int| 0 <= i < e0.len() implies e2.take(e0.len() as int)[i] == e0[i] by {
            assert(e2[i] == e2.take(e1.len() as int)[i]);
            assert(e1[i] == e1.take(e0.len() as int)[i]);
        }
    }
    assert forall|i: int| e0.len() <= i < e2.len() implies (#[trigger] e2[i]).id == EventId(
        (i + 1) as u64,
    ) && e2[i].tick == tick by {
        if i < e1.len() {
            assert(e2[i] == e2.take(e1.len() as int)[i]);
        }
    }
}

} // verus!
