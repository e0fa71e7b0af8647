use spectra::ew::effect::EwEffect;
use spectra::ew::jamming::{
    ChannelFlooding, CrossChannelConfig, CrossChannelInterference, DeceptionConfig,
    DeceptionJamming, NoiseJamming, SensorConfusion,
};
use spectra::ew::manager::EwManager;
use spectra::model::emitter::SignalCategory;
use spectra::model::entity::{Entity, EntityKind};
use spectra::model::id::{EntityId, IdGenerator};
use spectra::model::interference::{Interference, InterferenceKind};
use spectra::model::world::{Faction, Position, World, WorldConfig};

struct TestEffect {
    source: EntityId,
}

impl EwEffect<f64> for TestEffect {
    fn display_name(&self) -> &str {
        "TestEffect"
    }
    fn active_at(&self, _tick: u64) -> bool {
        true
    }
    fn transforms(&self, before: World<f64>, after: World<f64>, _tick: u64) -> bool {
        after.active_interference.len() == before.active_interference.len() + 1
    }
    fn apply(&self, world: &mut World<f64>, _tick: u64) {
        world.add_interference(Interference::new(
            EntityId::from_raw(999),
            self.source,
            InterferenceKind::NoiseJamming,
            Position::new(0.0, 0.0),
            50.0,
            30.0,
            5,
        ));
    }
    fn source(&self) -> EntityId {
        self.source
    }
    fn is_active(&self, _tick: u64) -> bool {
        true
    }
    fn name(&self) -> &str {
        "TestEffect"
    }
}

struct TimedEffect {
    source: EntityId,
    start: u64,
    end: u64,
}

impl EwEffect<f64> for TimedEffect {
    fn display_name(&self) -> &str {
        "TimedEffect"
    }
    fn active_at(&self, tick: u64) -> bool {
        tick >= self.start && tick < self.end
    }
    fn transforms(&self, before: World<f64>, after: World<f64>, _tick: u64) -> bool {
        after.active_interference.len() == before.active_interference.len() + 1
    }
    fn apply(&self, world: &mut World<f64>, _tick: u64) {
        world.add_interference(Interference::new(
            EntityId::from_raw(999),
            self.source,
            InterferenceKind::NoiseJamming,
            Position::new(0.0, 0.0),
            50.0,
            30.0,
            5,
        ));
    }
    fn source(&self) -> EntityId {
        self.source
    }
    fn is_active(&self, tick: u64) -> bool {
        tick >= self.start && tick < self.end
    }
    fn name(&self) -> &str {
        "TimedEffect"
    }
}

#[test]
fn effect_apply() {
    let config = WorldConfig::default();
    let mut world = World::new(config);
    let effect = TestEffect {
        source: EntityId::from_raw(1),
    };
    effect.apply(&mut world, 0);
    assert_eq!(world.active_interference.len(), 1);
}

#[test]
fn effect_source() {
    let effect = TestEffect {
        source: EntityId::from_raw(5),
    };
    assert_eq!(effect.source(), EntityId::from_raw(5));
}

fn make_world() -> World<f64> {
    let config = WorldConfig::default();
    let mut world = World::new(config);
    let mut ids = IdGenerator::new();
    world.add_entity(Entity::new(
        ids.next_id(),
        EntityKind::Aircraft,
        Faction::Blue,
        Position::new(0.0, 0.0),
    ));
    world.add_entity(Entity::new(
        ids.next_id(),
        EntityKind::Aircraft,
        Faction::Red,
        Position::new(100.0, 0.0),
    ));
    world
}

#[test]
fn noise_jamming_adds_interference() {
    let mut world = make_world();
    let effect = NoiseJamming::new(
        EntityId::from_raw(1),
        Position::new(50.0, 50.0),
        100.0,
        40.0,
        5,
        0,
    );
    effect.apply(&mut world, 0);
    assert_eq!(world.active_interference.len(), 1);
    assert_eq!(
        world.active_interference[0].kind,
        InterferenceKind::NoiseJamming
    );
}

#[test]
fn noise_jamming_with_channels() {
    let mut world = make_world();
    let effect = NoiseJamming::new(
        EntityId::from_raw(1),
        Position::new(50.0, 50.0),
        100.0,
        40.0,
        5,
        0,
    )
    .with_channels(vec![1, 2]);
    effect.apply(&mut world, 0);
    assert_eq!(world.active_interference[0].affected_channels, vec![1, 2]);
}

#[test]
fn noise_jamming_active_period() {
    let effect = NoiseJamming::new(
        EntityId::from_raw(1),
        Position::new(0.0, 0.0),
        50.0,
        30.0,
        10,
        5,
    );
    assert!(!effect.is_active(0));
    assert!(!effect.is_active(4));
    assert!(effect.is_active(5));
    assert!(effect.is_active(14));
    assert!(!effect.is_active(15));
}

#[test]
fn noise_jamming_interference_ids_and_parameters() {
    let mut world = make_world();
    let effect = NoiseJamming::new(
        EntityId::from_raw(1),
        Position::new(50.0, 50.0),
        100.0,
        40.0,
        5,
        0,
    );
    effect.apply(&mut world, 0);
    effect.apply(&mut world, 1);
    assert_eq!(world.active_interference[0].id, EntityId::from_raw(1000));
    assert_eq!(world.active_interference[1].id, EntityId::from_raw(1001));
    assert_eq!(world.active_interference[1].remaining_ticks, 5);
    assert_eq!(world.active_interference[1].intensity_db, 40.0);
    assert_eq!(world.active_interference[1].source_id, EntityId::from_raw(1));
}

fn deception_config(position: Position<f64>) -> DeceptionConfig<f64> {
    DeceptionConfig {
        source_id: EntityId::from_raw(1),
        false_emitter_id: EntityId::from_raw(100),
        owner_id: EntityId::from_raw(2),
        channel: 1,
        frequency_mhz: 2400.0,
        power_db: 30.0,
        position,
        duration_ticks: 10,
        start_tick: 0,
    }
}

#[test]
fn deception_jamming_adds_false_emitter() {
    let mut world = make_world();
    let effect = DeceptionJamming::new(DeceptionConfig {
        source_id: EntityId::from_raw(1),
        false_emitter_id: EntityId::from_raw(100),
        owner_id: EntityId::from_raw(2),
        channel: 1,
        frequency_mhz: 2400.0,
        power_db: 30.0,
        position: Position::new(75.0, 0.0),
        duration_ticks: 10,
        start_tick: 0,
    });
    effect.apply(&mut world, 0);
    assert_eq!(world.emitters.len(), 1);
    assert_eq!(world.emitters[0].id, EntityId::from_raw(100));
    assert_eq!(world.emitters[0].category, SignalCategory::Unknown);
}

#[test]
fn deception_jamming_does_not_duplicate() {
    let mut world = make_world();
    let effect = DeceptionJamming::new(deception_config(Position::new(75.0, 0.0)));
    effect.apply(&mut world, 0);
    effect.apply(&mut world, 1);
    assert_eq!(world.emitters.len(), 1);
}

#[test]
fn channel_flooding_adds_interference() {
    let mut world = make_world();
    let effect = ChannelFlooding::new(
        EntityId::from_raw(1),
        Position::new(50.0, 50.0),
        80.0,
        50.0,
        5,
        0,
        vec![1, 3],
    );
    effect.apply(&mut world, 0);
    assert_eq!(world.active_interference.len(), 1);
    assert_eq!(
        world.active_interference[0].kind,
        InterferenceKind::ChannelFlooding
    );
    assert_eq!(world.active_interference[0].affected_channels, vec![1, 3]);
}

#[test]
fn cross_channel_interference_adds() {
    let mut world = make_world();
    let effect = CrossChannelInterference::new(CrossChannelConfig {
        source_id: EntityId::from_raw(1),
        center: Position::new(50.0, 50.0),
        radius: 80.0,
        intensity_db: 20.0,
        duration_ticks: 5,
        start_tick: 0,
        source_channel: 1,
        affected_channels: vec![2, 3],
    });
    effect.apply(&mut world, 0);
    assert_eq!(world.active_interference.len(), 1);
    assert_eq!(
        world.active_interference[0].kind,
        InterferenceKind::CrossChannelInterference
    );
    assert_eq!(world.active_interference[0].id, EntityId::from_raw(3000));
}

#[test]
fn effect_names() {
    let noise = NoiseJamming::new(
        EntityId::from_raw(1),
        Position::new(0.0, 0.0),
        50.0,
        30.0,
        5,
        0,
    );
    assert_eq!(noise.name(), "NoiseJamming");

    let deception = DeceptionJamming::new(DeceptionConfig {
        source_id: EntityId::from_raw(1),
        false_emitter_id: EntityId::from_raw(100),
        owner_id: EntityId::from_raw(2),
        channel: 1,
        frequency_mhz: 2400.0,
        power_db: 30.0,
        position: Position::new(0.0, 0.0),
        duration_ticks: 5,
        start_tick: 0,
    });
    assert_eq!(deception.name(), "DeceptionJamming");

    let flooding = ChannelFlooding::new(
        EntityId::from_raw(1),
        Position::new(0.0, 0.0),
        50.0,
        30.0,
        5,
        0,
        vec![1],
    );
    assert_eq!(flooding.name(), "ChannelFlooding");

    let cross = CrossChannelInterference::new(CrossChannelConfig {
        source_id: EntityId::from_raw(1),
        center: Position::new(0.0, 0.0),
        radius: 50.0,
        intensity_db: 20.0,
        duration_ticks: 5,
        start_tick: 0,
        source_channel: 1,
        affected_channels: vec![2],
    });
    assert_eq!(cross.name(), "CrossChannelInterference");

    let confusion = SensorConfusion::new(
        EntityId::from_raw(1),
        Position::new(0.0, 0.0),
        100.0,
        5.0,
        5,
        0,
    );
    assert_eq!(confusion.name(), "SensorConfusion");
}

#[test]
fn sensor_confusion_window_and_source() {
    let confusion = SensorConfusion::new(
        EntityId::from_raw(6),
        Position::new(0.0, 0.0),
        100.0,
        5.0,
        3,
        2,
    );
    assert_eq!(confusion.source(), EntityId::from_raw(6));
    assert!(!confusion.is_active(1));
    assert!(confusion.is_active(4));
    assert!(!confusion.is_active(5));
}

#[test]
fn manager_apply_active_effects() {
    let mut manager = EwManager::<f64>::new();
    manager.add_effect(Box::new(TimedEffect {
        source: EntityId::from_raw(1),
        start: 0,
        end: 5,
    }));

    let config = WorldConfig::default();
    let mut world = World::new(config);
    manager.apply_effects(&mut world, 2);
    assert_eq!(world.active_interference.len(), 1);
}

#[test]
fn manager_skips_inactive_effects() {
    let mut manager = EwManager::<f64>::new();
    manager.add_effect(Box::new(TimedEffect {
        source: EntityId::from_raw(1),
        start: 5,
        end: 10,
    }));

    let config = WorldConfig::default();
    let mut world = World::new(config);
    manager.apply_effects(&mut world, 0);
    assert_eq!(world.active_interference.len(), 0);
}

#[test]
fn manager_active_count() {
    let mut manager = EwManager::<f64>::new();
    manager.add_effect(Box::new(TimedEffect {
        source: EntityId::from_raw(1),
        start: 0,
        end: 5,
    }));
    manager.add_effect(Box::new(TimedEffect {
        source: EntityId::from_raw(2),
        start: 3,
        end: 10,
    }));

    assert_eq!(manager.active_count(0), 1);
    assert_eq!(manager.active_count(3), 2);
    assert_eq!(manager.active_count(5), 1);
    assert_eq!(manager.active_count(10), 0);
}

#[test]
fn manager_cleanup() {
    let mut manager = EwManager::<f64>::new();
    manager.add_effect(Box::new(TimedEffect {
        source: EntityId::from_raw(1),
        start: 0,
        end: 3,
    }));
    manager.add_effect(Box::new(TimedEffect {
        source: EntityId::from_raw(2),
        start: 0,
        end: 10,
    }));
    assert_eq!(manager.total_count(), 2);
    manager.cleanup(5);
    assert_eq!(manager.total_count(), 1);
}

#[test]
fn manager_clear() {
    let mut manager = EwManager::<f64>::new();
    manager.add_effect(Box::new(TimedEffect {
        source: EntityId::from_raw(1),
        start: 0,
        end: 5,
    }));
    manager.add_effect(Box::new(TimedEffect {
        source: EntityId::from_raw(2),
        start: 0,
        end: 5,
    }));
    manager.clear();
    assert_eq!(manager.total_count(), 0);
}

#[test]
fn manager_effect_names() {
    let mut manager = EwManager::<f64>::new();
    manager.add_effect(Box::new(TimedEffect {
        source: EntityId::from_raw(1),
        start: 0,
        end: 5,
    }));
    assert_eq!(manager.effect_names(), vec!["TimedEffect"]);
}

#[test]
fn manager_cleanup_keeps_effect_starting_next_tick() {
    let mut manager = EwManager::<f64>::default();
    manager.add_effect(Box::new(TimedEffect {
        source: EntityId::from_raw(1),
        start: 6,
        end: 9,
    }));
    manager.add_effect(Box::new(NoiseJamming::new(
        EntityId::from_raw(2),
        Position::new(0.0, 0.0),
        10.0,
        10.0,
        2,
        0,
    )));
    manager.cleanup(5);
    assert_eq!(manager.effect_names(), vec!["TimedEffect"]);
}

fn jamming(source: u64, duration: u64, start: u64) -> NoiseJamming<f64> {
    NoiseJamming::new(
        EntityId::from_raw(source),
        Position::new(0.0, 0.0),
        10.0,
        10.0,
        duration,
        start,
    )
}

#[test]
fn manager_of_one_effect_kind_counts_cleans_and_names() {
    let mut manager: EwManager<f64, NoiseJamming<f64>> = EwManager::empty();
    manager.add_effect(jamming(1, 3, 0));
    manager.add_effect(jamming(2, 4, 5));
    assert_eq!(manager.active_count(1), 1);
    assert_eq!(manager.active_count(4), 0);
    assert_eq!(manager.active_count(6), 1);
    assert_eq!(manager.effect_names(), vec!["NoiseJamming", "NoiseJamming"]);

    let mut world: World<f64> = World::new(WorldConfig::default());
    manager.apply_effects(&mut world, 2);
    assert_eq!(world.active_interference.len(), 1);
    assert_eq!(world.active_interference[0].source_id, EntityId::from_raw(1));

    manager.cleanup(4);
    assert_eq!(manager.total_count(), 1);
    manager.cleanup(9);
    assert_eq!(manager.total_count(), 0);
}

#[test]
fn boxed_effects_keep_their_own_names_in_order() {
    let mut manager = EwManager::<f64>::new();
    manager.add_effect(Box::new(jamming(1, 3, 0)));
    manager.add_effect(Box::new(TestEffect {
        source: EntityId::from_raw(2),
    }));
    assert_eq!(manager.effect_names(), vec!["NoiseJamming", "TestEffect"]);
    let mut world: World<f64> = World::new(WorldConfig::default());
    manager.apply_effects(&mut world, 1);
    assert_eq!(world.active_interference.len(), 2);
}
