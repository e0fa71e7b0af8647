//! How an experiment turns the AI's decisions into electronic-warfare
//! effects.

use vstd::prelude::*;

use crate::ai::decision::DecisionError;
use crate::ai::policy::Decision;
use crate::ai::tactical::AiConfig;
use crate::ew::effect::EwEffect;
use crate::ew::manager::{lemma_cleanup_never_grows, live_at, EwManager};
use crate::experiments::metrics::{records_tick, ExperimentMetrics};
use crate::model::event::{Event, EventKind};
use crate::model::id::EventId;
use crate::ew::jamming::{
    ChannelFlooding, DeceptionConfig, DeceptionJamming, NoiseJamming, SensorConfusion,
};
use crate::model::action::EwAction;
use crate::model::entity::Entity;
use crate::model::id::EntityId;
use crate::model::metrics::Metrics;
use crate::model::receiver::Receiver;
use crate::model::scalar::{is_real_of, real_of};
use crate::model::world::{of_faction, Faction, Position, World};
use crate::sim::tick::{lemma_tick_stamps_compose, stamped_from};

verus! {

/// An effect that a decision calls for, ready to be deployed.
#[derive(Debug, Clone)]
pub enum PlannedEffect<R> {
    Noise(NoiseJamming<R>),
    Deception(DeceptionJamming<R>),
    Flooding(ChannelFlooding<R>),
    Confusion(SensorConfusion<R>),
}

/// Whether an entity with identifier `id` owns one of `receivers`.
pub open spec fn owns_receiver<R>(receivers: Seq<Receiver<R>>, id: EntityId) -> bool {
    exists|k: int| 0 <= k < receivers.len() && receivers[k].owner_id == id
}

/// Whether `e` can serve as the AI's observer: a Blue entity that owns one
/// of `receivers`.
pub open spec fn observes<R>(e: Entity<R>, receivers: Seq<Receiver<R>>) -> bool {
    e.faction == Faction::Blue && owns_receiver(receivers, e.id)
}

/// The identifier of the observer whose observations drive the AI: the
/// first Blue entity that owns a receiver, or identifier 0 if there is none.
pub open spec fn blue_observer<R>(entities: Seq<Entity<R>>, receivers: Seq<Receiver<R>>) -> EntityId {
    let candidates = entities.filter(|e: Entity<R>| observes(e, receivers));
    if candidates.len() > 0 {
        candidates[0].id
    } else {
        EntityId(0)
    }
}

/// Whether an entity with identifier `id` owns one of `receivers`.
fn has_receiver<R>(receivers: &Vec<Receiver<R>>, id: EntityId) -> (b: bool)
    ensures
        b == owns_receiver(receivers@, id),
{
    let mut k: usize = 0;
    while k < receivers.len()
        invariant
            k <= receivers@.len(),
            forall|j: int| 0 <= j < k ==> receivers@[j].owner_id != id,
        decreases receivers@.len() - k,
    {
        if receivers[k].owner_id == id {
            return true;
        }
        k = k + 1;
    }
    false
}

/// Finds the first Blue entity that has a receiver: the AI listens to its
/// observations.
pub fn find_blue_receiver<R>(world: &World<R>) -> (id: EntityId)
    ensures
        id == blue_observer(world.entities@, world.receivers@),
{
    let ents = &world.entities;
    let ghost rxs = world.receivers@;
    let mut found: Option<EntityId> = None;
    let mut i: usize = 0;
    while i < ents.len()
        invariant
            i <= ents@.len(),
            rxs == world.receivers@,
            ({
                let c = ents@.take(i as int).filter(|e: Entity<R>| observes(e, rxs));
                found == if c.len() > 0 {
                    Some(c[0].id)
                } else {
                    None::<EntityId>
                }
            }),
        decreases ents@.len() - i,
    {
        proof {
            assert(ents@.take(i as int + 1).drop_last() =~= ents@.take(i as int));
            assert(ents@.take(i as int + 1).last() == ents@[i as int]);
            reveal_with_fuel(Seq::<_>::filter, 1);
        }
        if found.is_none() && ents[i].faction == Faction::Blue && has_receiver(
            &world.receivers,
            ents[i].id,
        ) {
            found = Some(ents[i].id);
        }
        i = i + 1;
    }
    proof {
        assert(ents@.take(ents@.len() as int) =~= ents@);
    }
    match found {
        Some(id) => id,
        None => EntityId::from_raw(0),
    }
}

/// The identifier of the false emitter deployed among `count` emitters:
/// `count + 5000`, held at `u64::MAX` should it go beyond.
pub open spec fn decoy_id(count: nat) -> EntityId {
    if count + 5000 <= u64::MAX {
        EntityId((count + 5000) as u64)
    } else {
        EntityId(u64::MAX)
    }
}

/// Whether `plan` is the effect that `action` calls for, deployed at `tick`
/// by `source` against `target`, with `emitter_count` emitters in the world.
pub open spec fn is_plan_for<R: From<i32>>(
    plan: PlannedEffect<R>,
    action: EwAction,
    source: EntityId,
    target: Position<R>,
    emitter_count: nat,
    tick: u64,
) -> bool {
    match action {
        EwAction::SuppressSignal => plan matches PlannedEffect::Noise(j) && j.source_id == source
            && j.center == target && is_real_of(j.radius, 200) && is_real_of(j.intensity_db, 40)
            && j.duration_ticks == 5 && j.start_tick == tick && j.affected_channels@.len() == 0,
        EwAction::Monitor => plan matches PlannedEffect::Noise(j) && j.source_id == source
            && j.center == target && is_real_of(j.radius, 150) && is_real_of(j.intensity_db, 25)
            && j.duration_ticks == 3 && j.start_tick == tick && j.affected_channels@.len() == 0,
        EwAction::DeployDecoy => plan matches PlannedEffect::Deception(d) && d.config.source_id
            == source && d.config.false_emitter_id == decoy_id(emitter_count)
            && d.config.owner_id == source && d.config.channel == 1 && is_real_of(
            d.config.frequency_mhz,
            2400,
        ) && is_real_of(d.config.power_db, 30) && d.config.position == target
            && d.config.duration_ticks == 10 && d.config.start_tick == tick,
        EwAction::ProtectChannel => plan matches PlannedEffect::Flooding(f) && f.source_id
            == source && f.center == target && is_real_of(f.radius, 150) && is_real_of(
            f.intensity_db,
            30,
        ) && f.duration_ticks == 3 && f.start_tick == tick && f.target_channels@ == seq![
            1u32,
            2u32,
            3u32,
        ],
        EwAction::ChangeChannel => plan matches PlannedEffect::Confusion(c) && c.source_id
            == source && c.center == target && is_real_of(c.radius, 300) && is_real_of(
            c.noise_floor_increase_db,
            5,
        ) && c.duration_ticks == 3 && c.start_tick == tick,
        _ => false,
    }
}

/// Whether `action` deploys an effect at all; observing and disengaging
/// deploy none.
pub open spec fn deploys(action: EwAction) -> bool {
    !(action == EwAction::Observe || action == EwAction::Disengage)
}

/// Maps an AI decision to the effect it calls for: deployed by the first
/// Blue entity against the position of the first Red entity, starting at
/// `tick`. There is none if either entity is missing or the action deploys
/// nothing.
pub fn decision_to_effect<R: Copy + From<i32>>(
    decision: &Decision<R>,
    world: &World<R>,
    tick: u64,
) -> (plan: Option<PlannedEffect<R>>)
    ensures
        ({
            let blue = of_faction(world.entities@, Faction::Blue);
            let red = of_faction(world.entities@, Faction::Red);
            if blue.len() == 0 || red.len() == 0 || !deploys(decision.action) {
                plan is None
            } else {
                plan matches Some(p) && is_plan_for(
                    p,
                    decision.action,
                    blue[0].id,
                    red[0].position,
                    world.emitters@.len(),
                    tick,
                )
            }
        }),
{
    let blue = world.entities_by_faction(Faction::Blue);
    let red = world.entities_by_faction(Faction::Red);
    proof {
        assert(blue@.len() == blue@.map_values(|e: &Entity<R>| *e).len());
        assert(red@.len() == red@.map_values(|e: &Entity<R>| *e).len());
    }
    if blue.len() == 0 || red.len() == 0 {
        return None;
    }
    proof {
        assert(*blue@[0] == blue@.map_values(|e: &Entity<R>| *e)[0]);
        assert(*red@[0] == red@.map_values(|e: &Entity<R>| *e)[0]);
    }
    let source = blue[0].id;
    let red_pos = red[0].position;
    match decision.action {
        EwAction::SuppressSignal => Some(
            PlannedEffect::Noise(
                NoiseJamming::new(source, red_pos, real_of(200), real_of(40), 5, tick),
            ),
        ),
        EwAction::DeployDecoy => {
            let count = world.emitters.len() as u64;
            let false_id = EntityId::from_raw(count.saturating_add(5000));
            Some(
                PlannedEffect::Deception(
                    DeceptionJamming::new(
                        DeceptionConfig {
                            source_id: source,
                            false_emitter_id: false_id,
                            owner_id: source,
                            channel: 1,
                            frequency_mhz: real_of(2400),
                            power_db: real_of(30),
                            position: red_pos,
                            duration_ticks: 10,
                            start_tick: tick,
                        },
                    ),
                ),
            )
        },
        EwAction::ProtectChannel => {
            let channels: Vec<u32> = vec![1, 2, 3];
            let flooding = ChannelFlooding::new(
                source,
                red_pos,
                real_of(150),
                real_of(30),
                3,
                tick,
                channels,
            );
            proof {
                assert(flooding.target_channels@ =~= seq![1u32, 2u32, 3u32]);
            }
            Some(PlannedEffect::Flooding(flooding))
        },
        EwAction::ChangeChannel => Some(
            PlannedEffect::Confusion(
                SensorConfusion::new(source, red_pos, real_of(300), real_of(5), 3, tick),
            ),
        ),
        EwAction::Monitor => Some(
            PlannedEffect::Noise(
                NoiseJamming::new(source, red_pos, real_of(150), real_of(25), 3, tick),
            ),
        ),
        _ => None,
    }
}

/// The discrete close of an experiment tick, at the world's current tick:
/// the tick's snapshot is recorded from the core metrics and the active
/// interference, the effects of no more use from the next tick on are
/// dropped and counted as expired, the observation round is recorded in the
/// core metrics (which leaves their counts as they are), and the world moves
/// on one tick.
pub fn close_experiment_tick<R: Copy, E: EwEffect<R>>(
    world: &mut World<R>,
    manager: &mut EwManager<R, E>,
    metrics: &mut Metrics<R>,
    experiment: &mut ExperimentMetrics<R>,
)
    requires
        old(world).tick < u64::MAX - 1,
        old(experiment).ew_effects_expired + old(manager).effects().len() <= u64::MAX,
    ensures
        records_tick(
            *old(experiment),
            *final(experiment),
            old(world).tick,
            *old(metrics),
            old(world).active_interference@.len() as usize,
        ),
        final(manager).effects() == old(manager).effects().filter(
            |e: E| live_at(e, (old(world).tick + 1) as u64),
        ),
        final(experiment).ew_effects_expired == old(experiment).ew_effects_expired + (old(
            manager,
        ).effects().len() - final(manager).effects().len()),
        *final(metrics) == *old(metrics),
        *final(world) == (World { tick: (old(world).tick + 1) as u64, ..*old(world) }),
{
    let tick = world.tick;
    let interference_count = world.active_interference.len();
    experiment.record_tick(tick, metrics, interference_count);
    let before = manager.total_count();
    manager.cleanup(tick + 1);
    let after = manager.total_count();
    proof {
        lemma_cleanup_never_grows(old(manager).effects(), (tick + 1) as u64);
    }
    experiment.record_ew_effects_expired((before - after) as u64);
    metrics.record_event(
        &Event::new(EventId::from_raw(0), EventKind::ObservationGenerated, tick, EntityId::from_raw(0)),
    );
    world.advance_tick();
}

/// Whether `decision` deploys an effect in `world`: it calls for one, and
/// there is a Blue entity to deploy it and a Red entity to aim it at.
pub open spec fn deployment_due<R>(decision: Decision<R>, world: World<R>) -> bool {
    &&& of_faction(world.entities@, Faction::Blue).len() > 0
    &&& of_faction(world.entities@, Faction::Red).len() > 0
    &&& deploys(decision.action)
}

/// The discrete rest of an experiment tick once the AI has decided, at the
/// world's current tick: the AI's errors of this tick are counted; if EW
/// effects are enabled and the decision deploys one, the effect it calls
/// for is made ready by `deploy`, added to the manager and counted; then
/// the tick is closed as `close_experiment_tick` does.
pub fn conclude_experiment_tick<R: Copy + From<i32>, E: EwEffect<R>, F: Fn(PlannedEffect<R>) -> E>(
    world: &mut World<R>,
    manager: &mut EwManager<R, E>,
    metrics: &mut Metrics<R>,
    experiment: &mut ExperimentMetrics<R>,
    decision: &Decision<R>,
    errors: &[DecisionError],
    enable_ew_effects: bool,
    deploy: F,
)
    requires
        forall|p: PlannedEffect<R>| call_requires(deploy, (p,)),
        old(world).tick < u64::MAX - 1,
        old(experiment).ai_errors + errors@.filter(
            |e: DecisionError| e.spec_tick() == old(world).tick,
        ).len() <= u64::MAX,
        old(experiment).ew_effects_deployed < u64::MAX,
        old(experiment).ew_effects_expired + old(manager).effects().len() + 1 <= u64::MAX,
    ensures
        ({
            let tick = old(world).tick;
            let due = enable_ew_effects && deployment_due(*decision, *old(world));
            let blue = of_faction(old(world).entities@, Faction::Blue);
            let red = of_faction(old(world).entities@, Faction::Red);
            let kept = final(manager).effects();
            &&& final(experiment).ai_errors == old(experiment).ai_errors + errors@.filter(
                |e: DecisionError| e.spec_tick() == tick,
            ).len()
            &&& final(experiment).ew_effects_deployed == old(experiment).ew_effects_deployed + if due {
                1int
            } else {
                0int
            }
            &&& records_tick(
                ExperimentMetrics {
                    ai_errors: final(experiment).ai_errors,
                    ew_effects_deployed: final(experiment).ew_effects_deployed,
                    ..*old(experiment)
                },
                *final(experiment),
                tick,
                *old(metrics),
                old(world).active_interference@.len() as usize,
            )
            &&& exists|added: Seq<E>|
                {
                    &&& added.len() == (if due {
                        1int
                    } else {
                        0int
                    })
                    &&& due ==> exists|p: PlannedEffect<R>|
                        is_plan_for(
                            p,
                            decision.action,
                            blue[0].id,
                            red[0].position,
                            old(world).emitters@.len(),
                            tick,
                        ) && call_ensures(deploy, (p,), added[0])
                    &&& final(manager).effects() == (old(manager).effects() + added).filter(
                        |e: E| live_at(e, (tick + 1) as u64),
                    )
                    &&& final(experiment).ew_effects_expired == old(experiment).ew_effects_expired
                        + (old(manager).effects().len() + added.len() - kept.len())
                }
        }),
        *final(metrics) == *old(metrics),
        *final(world) == (World { tick: (old(world).tick + 1) as u64, ..*old(world) }),
{
    let tick = world.tick;
    let ghost w0 = *world;
    let ghost m0 = manager.effects();
    experiment.record_ai_errors_at(errors, tick);
    let ghost mut added: Seq<E> = Seq::empty();
    let ghost mut plan_made: Option<PlannedEffect<R>> = None;
    if enable_ew_effects {
        match decision_to_effect(decision, world, tick) {
            Some(plan) => {
                let ghost p = plan;
                let effect = deploy(plan);
                proof {
                    added = seq![effect];
                    plan_made = Some(p);
                }
                manager.add_effect(effect);
                experiment.record_ew_effect_deployed();
            },
            None => {},
        }
    }
    proof {
        assert(manager.effects() =~= m0 + added);
    }
    close_experiment_tick(world, manager, metrics, experiment);
    proof {
        let due = enable_ew_effects && deployment_due(*decision, w0);
        if due {
            let p = plan_made->0;
            assert(call_ensures(deploy, (p,), added[0]));
        }
    }
}

/// Configuration of one experiment run.
#[derive(Debug, Clone)]
pub struct ExperimentConfig<R> {
    /// Name of the experiment.
    pub name: String,
    /// Seed that makes the run replayable.
    pub seed: u64,
    /// Configuration of the tactical AI.
    pub ai_config: AiConfig<R>,
    /// Whether the AI's decisions are deployed as effects.
    pub enable_ew_effects: bool,
}

/// What one experiment run produced.
#[derive(Debug, Clone)]
pub struct ExperimentResult<R> {
    pub config: ExperimentConfig<R>,
    pub metrics: ExperimentMetrics<R>,
    pub core_metrics: Metrics<R>,
    pub final_tick: u64,
    pub events_count: usize,
}

/// The counts that a batch of runs adds up to.
#[derive(Debug, Clone, Copy, PartialEq, Eq)]
pub struct RunTotals {
    /// How many runs there were.
    pub run_count: usize,
    /// Observations over all runs.
    pub total_observations: u64,
    /// Detected signals over all runs.
    pub total_signals_detected: u64,
    /// How many runs achieved spectrum control.
    pub spectrum_control_count: usize,
}

/// Observations over all runs of `rs`.
pub open spec fn observations_total<R>(rs: Seq<ExperimentResult<R>>) -> nat
    decreases rs.len(),
{
    if rs.len() == 0 {
        0
    } else {
        observations_total(rs.drop_last()) + rs.last().core_metrics.total_observations as nat
    }
}

/// Detected signals over all runs of `rs`.
pub open spec fn detections_total<R>(rs: Seq<ExperimentResult<R>>) -> nat
    decreases rs.len(),
{
    if rs.len() == 0 {
        0
    } else {
        detections_total(rs.drop_last()) + rs.last().core_metrics.signals_detected as nat
    }
}

/// How many runs of `rs` achieved spectrum control.
pub open spec fn control_count<R>(rs: Seq<ExperimentResult<R>>) -> nat {
    rs.filter(|r: ExperimentResult<R>| r.metrics.spectrum_control_achieved).len()
}

proof fn lemma_control_count_grows<R>(rs: Seq<ExperimentResult<R>>, i: int)
    requires
        0 <= i < rs.len(),
    ensures
        control_count(rs.take(i + 1)) <= control_count(rs.take(i)) + 1,
{
    reveal_with_fuel(Seq::<_>::filter, 1);
    assert(rs.take(i + 1).drop_last() =~= rs.take(i));
}

proof fn lemma_control_count_bound<R>(rs: Seq<ExperimentResult<R>>, i: int)
    requires
        0 <= i <= rs.len(),
    ensures
        control_count(rs.take(i)) <= i,
    decreases i,
{
    if i == 0 {
        assert(rs.take(0) =~= Seq::<ExperimentResult<R>>::empty());
    } else {
        lemma_control_count_bound(rs, i - 1);
        lemma_control_count_grows(rs, i - 1);
    }
}

proof fn lemma_totals_grow<R>(rs: Seq<ExperimentResult<R>>, i: int)
    requires
        0 <= i <= rs.len(),
    ensures
        observations_total(rs.take(i)) <= observations_total(rs),
        detections_total(rs.take(i)) <= detections_total(rs),
    decreases rs.len() - i,
{
    if i < rs.len() {
        lemma_totals_grow(rs, i + 1);
        assert(rs.take(i + 1).drop_last() =~= rs.take(i));
    } else {
        assert(rs.take(i) =~= rs);
    }
}

/// Adds up the counts of a batch of runs.
pub fn run_totals<R>(results: &[ExperimentResult<R>]) -> (t: RunTotals)
    requires
        observations_total(results@) <= u64::MAX,
        detections_total(results@) <= u64::MAX,
    ensures
        t.run_count == results@.len(),
        t.total_observations == observations_total(results@),
        t.total_signals_detected == detections_total(results@),
        t.spectrum_control_count == control_count(results@),
{
    let mut observations: u64 = 0;
    let mut detections: u64 = 0;
    let mut controlled: usize = 0;
    let mut i: usize = 0;
    while i < results.len()
        invariant
            i <= results@.len(),
            observations_total(results@) <= u64::MAX,
            detections_total(results@) <= u64::MAX,
            observations == observations_total(results@.take(i as int)),
            detections == detections_total(results@.take(i as int)),
            controlled == control_count(results@.take(i as int)),
            controlled <= i,
        decreases results@.len() - i,
    {
        proof {
            assert(results@.take(i as int + 1).drop_last() =~= results@.take(i as int));
            lemma_totals_grow(results@, i as int + 1);
            lemma_control_count_bound(results@, i as int + 1);
            reveal_with_fuel(Seq::<_>::filter, 1);
        }
        observations = observations + results[i].core_metrics.total_observations;
        detections = detections + results[i].core_metrics.signals_detected;
        if results[i].metrics.spectrum_control_achieved {
            controlled = controlled + 1;
        }
        i = i + 1;
    }
    proof {
        assert(results@.take(results@.len() as int) =~= results@);
    }
    RunTotals {
        run_count: results.len(),
        total_observations: observations,
        total_signals_detected: detections,
        spectrum_control_count: controlled,
    }
}

/// An experiment tick, as its steps compose: where opening the tick keeps
/// the events `e0` and stamps those it adds, recording `n` observations
/// keeps the events `e1`, stamps those it adds and counts the observations,
/// the AI's decision is counted, and concluding the tick records it, the
/// tick as a whole keeps the events it found, stamps every event it adds
/// with its place and the tick, counts one AI decision, and appends one
/// snapshot, of tick `t`, holding the observations counted so far.
pub proof fn lemma_experiment_tick_accounts<R>(
    e0: Seq<Event<R>>,
    e1: Seq<Event<R>>,
    e2: Seq<Event<R>>,
    m0: Metrics<R>,
    m1: Metrics<R>,
    x0: ExperimentMetrics<R>,
    x1: ExperimentMetrics<R>,
    x2: ExperimentMetrics<R>,
    t: u64,
    n: nat,
    interference_count: usize,
)
    requires
        e0.len() <= e1.len(),
        e1.take(e0.len() as int) == e0,
        stamped_from(e1, e0.len() as int, t),
        e1.len() <= e2.len(),
        e2.take(e1.len() as int) == e1,
        stamped_from(e2, e1.len() as int, t),
        m1.total_observations == m0.total_observations + n,
        x1.ai_decisions == x0.ai_decisions + 1,
        x1.tick_metrics@ == x0.tick_metrics@,
        records_tick(
            (ExperimentMetrics {
                ai_errors: x2.ai_errors,
                ew_effects_deployed: x2.ew_effects_deployed,
                ..x1
            }),
            x2,
            t,
            m1,
            interference_count,
        ),
    ensures
        e2.take(e0.len() as int) == e0,
        stamped_from(e2, e0.len() as int, t),
        x2.ai_decisions == x0.ai_decisions + 1,
        x2.total_ticks == t + 1,
        x2.tick_metrics@.len() == x0.tick_metrics@.len() + 1,
        x2.tick_metrics@.take(x0.tick_metrics@.len() as int) == x0.tick_metrics@,
        x2.tick_metrics@.last().tick == t,
        x2.tick_metrics@.last().observations == m0.total_observations + n,
{
    lemma_tick_stamps_compose(e0, e1, e2, t);
    assert(x2.tick_metrics@.take(x0.tick_metrics@.len() as int) =~= x0.tick_metrics@);
}

/// A filter that no element of `s` passes keeps nothing.
proof fn lemma_filter_none<A>(s: Seq<A>, pred: spec_fn(A) -> bool)
    requires
        forall|j: int| 0 <= j < s.len() ==> !pred(#[trigger] s[j]),
    ensures
        s.filter(pred).len() == 0,
    decreases s.len(),
{
    reveal_with_fuel(Seq::<_>::filter, 1);
    if s.len() > 0 {
        let d = s.drop_last();
        assert forall|j: int| 0 <= j < d.len() implies !pred(#[trigger] d[j]) by {
            assert(d[j] == s[j]);
        }
        lemma_filter_none(d, pred);
        assert(!pred(s[s.len() - 1]));
    }
}

/// The first element of `s` that satisfies `pred` is the first of those
/// that the filter keeps.
proof fn lemma_filter_first<A>(s: Seq<A>, pred: spec_fn(A) -> bool, i: int)
    requires
        0 <= i < s.len(),
        pred(s[i]),
        forall|j: int| 0 <= j < i ==> !pred(#[trigger] s[j]),
    ensures
        s.filter(pred).len() > 0,
        s.filter(pred)[0] == s[i],
    decreases s.len(),
{
    reveal_with_fuel(Seq::<_>::filter, 1);
    let d = s.drop_last();
    if i < s.len() - 1 {
        assert forall|j: int| 0 <= j < i implies !pred(#[trigger] d[j]) by {
            assert(d[j] == s[j]);
        }
        lemma_filter_first(d, pred, i);
    } else {
        assert forall|j: int| 0 <= j < d.len() implies !pred(#[trigger] d[j]) by {
            assert(d[j] == s[j]);
        }
        lemma_filter_none(d, pred);
        assert(s.filter(pred) == d.filter(pred).push(s.last()));
    }
}

/// The AI's observer is the earliest registered entity that can serve as
/// one: a Blue entity that owns a receiver, with no such entity before it.
/// When there is none, the observer is identifier 0.
pub proof fn lemma_observer_is_first_qualifying<R>(
    entities: Seq<Entity<R>>,
    receivers: Seq<Receiver<R>>,
)
    ensures
        (exists|i: int| 0 <= i < entities.len() && observes(#[trigger] entities[i], receivers))
            ==> exists|i: int|
            0 <= i < entities.len() && observes(#[trigger] entities[i], receivers)
                && blue_observer(entities, receivers) == entities[i].id && forall|j: int|
                0 <= j < i ==> !observes(#[trigger] entities[j], receivers),
        (forall|i: int| 0 <= i < entities.len() ==> !observes(#[trigger] entities[i], receivers))
            ==> blue_observer(entities, receivers) == EntityId(0),
{
    let pred = |e: Entity<R>| observes(e, receivers);
    if exists|i: int| 0 <= i < entities.len() && observes(#[trigger] entities[i], receivers) {
        let i0 = choose|i: int| 0 <= i < entities.len() && observes(#[trigger] entities[i], receivers);
        let first = lemma_first_index(entities, receivers, i0);
        lemma_filter_first(entities, pred, first);
        assert(blue_observer(entities, receivers) == entities[first].id);
    } else {
        lemma_filter_none(entities, pred);
    }
}

/// Among entities of which the one at `i` can observe, the earliest one that can.
proof fn lemma_first_index<R>(entities: Seq<Entity<R>>, receivers: Seq<Receiver<R>>, i: int) -> (f: int)
    requires
        0 <= i < entities.len(),
        observes(entities[i], receivers),
    ensures
        0 <= f <= i,
        observes(entities[f], receivers),
        forall|j: int| 0 <= j < f ==> !observes(#[trigger] entities[j], receivers),
    decreases i,
{
    if exists|j: int| 0 <= j < i && observes(#[trigger] entities[j], receivers) {
        let j = choose|j: int| 0 <= j < i && observes(#[trigger] entities[j], receivers);
        lemma_first_index(entities, receivers, j)
    } else {
        i
    }
}

} // verus!
