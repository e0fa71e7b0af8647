use spectra::ai::policy::Decision;
use spectra::experiments::runner::{decision_to_effect, find_blue_receiver, PlannedEffect};
use spectra::model::action::EwAction;
use spectra::model::config::{
    default_bandwidth, default_power, default_true, ScenarioEmitter, ScenarioEntity, ScenarioFile,
};
use spectra::model::emitter::{Emitter, EmitterState, SignalCategory};
use spectra::model::entity::{Entity, EntityKind};
use spectra::model::id::{EntityId, IdGenerator};
use spectra::model::receiver::Receiver;
use spectra::model::world::{Faction, Position, World, WorldConfig};
use spectra::sim::scenario::ScenarioLoader;

fn make_world() -> World<f64> {
    let mut ids = IdGenerator::new();
    let config = WorldConfig {
        max_ticks: 10,
        ..Default::default()
    };
    let mut world = World::new(config);

    let blue_id = ids.next_id();
    world.add_entity(Entity::new(
        blue_id,
        EntityKind::Aircraft,
        Faction::Blue,
        Position::new(0.0, 0.0),
    ));

    let red_id = ids.next_id();
    world.add_entity(Entity::new(
        red_id,
        EntityKind::Aircraft,
        Faction::Red,
        Position::new(100.0, 0.0),
    ));

    let em_id = ids.next_id();
    world.add_emitter(Emitter::new(
        em_id,
        red_id,
        1,
        2400.0,
        SignalCategory::Communication,
        Position::new(100.0, 0.0),
    ));

    let rx_id = ids.next_id();
    world.add_receiver(Receiver::new(
        rx_id,
        blue_id,
        -90.0,
        Position::new(0.0, 0.0),
    ));

    world
}

fn decision(action: EwAction, confidence: f64) -> Decision<f64> {
    Decision {
        action,
        confidence,
        explanation: "test".to_string(),
        alternatives: vec![],
    }
}

#[test]
fn decision_to_effect_suppress() {
    let world = make_world();
    let decision = Decision {
        action: EwAction::SuppressSignal,
        confidence: 0.9,
        explanation: "test".to_string(),
        alternatives: vec![],
    };
    let effect = decision_to_effect(&decision, &world, 0);
    assert!(effect.is_some());
}

#[test]
fn decision_to_effect_observe() {
    let world = make_world();
    let decision = Decision {
        action: EwAction::Observe,
        confidence: 0.3,
        explanation: "test".to_string(),
        alternatives: vec![],
    };
    let effect = decision_to_effect(&decision, &world, 0);
    assert!(effect.is_none());
}

#[test]
fn decision_to_effect_parameters() {
    let world = make_world();
    match decision_to_effect(&decision(EwAction::SuppressSignal, 0.9), &world, 4) {
        Some(PlannedEffect::Noise(j)) => {
            assert_eq!(j.source_id, EntityId::from_raw(1));
            assert_eq!(j.center.x, 100.0);
            assert_eq!(j.radius, 200.0);
            assert_eq!(j.intensity_db, 40.0);
            assert_eq!(j.duration_ticks, 5);
            assert_eq!(j.start_tick, 4);
        }
        _ => panic!("expected noise jamming"),
    }
    match decision_to_effect(&decision(EwAction::Monitor, 0.2), &world, 1) {
        Some(PlannedEffect::Noise(j)) => {
            assert_eq!(j.radius, 150.0);
            assert_eq!(j.intensity_db, 25.0);
            assert_eq!(j.duration_ticks, 3);
        }
        _ => panic!("expected noise jamming"),
    }
    match decision_to_effect(&decision(EwAction::DeployDecoy, 0.5), &world, 2) {
        Some(PlannedEffect::Deception(d)) => {
            assert_eq!(d.config.false_emitter_id, EntityId::from_raw(5001));
            assert_eq!(d.config.owner_id, EntityId::from_raw(1));
            assert_eq!(d.config.frequency_mhz, 2400.0);
            assert_eq!(d.config.duration_ticks, 10);
        }
        _ => panic!("expected deception"),
    }
    match decision_to_effect(&decision(EwAction::ProtectChannel, 0.5), &world, 2) {
        Some(PlannedEffect::Flooding(f)) => {
            assert_eq!(f.target_channels, vec![1, 2, 3]);
            assert_eq!(f.radius, 150.0);
        }
        _ => panic!("expected flooding"),
    }
    match decision_to_effect(&decision(EwAction::ChangeChannel, 0.5), &world, 2) {
        Some(PlannedEffect::Confusion(c)) => {
            assert_eq!(c.radius, 300.0);
            assert_eq!(c.noise_floor_increase_db, 5.0);
        }
        _ => panic!("expected sensor confusion"),
    }
    assert!(decision_to_effect(&decision(EwAction::Disengage, 0.5), &world, 2).is_none());
}

#[test]
fn decision_to_effect_needs_both_sides() {
    let mut world = World::new(WorldConfig::<f64>::default());
    world.add_entity(Entity::new(
        EntityId::from_raw(1),
        EntityKind::Ship,
        Faction::Blue,
        Position::new(0.0, 0.0),
    ));
    assert!(decision_to_effect(&decision(EwAction::SuppressSignal, 0.9), &world, 0).is_none());
}

#[test]
fn blue_receiver_lookup() {
    let world = make_world();
    assert_eq!(find_blue_receiver(&world), EntityId::from_raw(1));
    let empty = World::new(WorldConfig::<f64>::default());
    assert_eq!(find_blue_receiver(&empty), EntityId::from_raw(0));
}

fn scenario() -> ScenarioFile<f64> {
    ScenarioFile {
        name: "test".to_string(),
        description: "test".to_string(),
        world: WorldConfig {
            max_ticks: 5,
            ..Default::default()
        },
        entities: vec![
            ScenarioEntity {
                kind: EntityKind::Drone,
                faction: Faction::Blue,
                position: Position::new(0.0, 0.0),
                label: "Drone-A".to_string(),
                emits: vec![ScenarioEmitter {
                    channel: 1,
                    frequency_mhz: 2400.0,
                    category: SignalCategory::Communication,
                    power_db: 30.0,
                    bandwidth_mhz: 1.0,
                }],
                receives: true,
            },
            ScenarioEntity {
                kind: EntityKind::Ship,
                faction: Faction::Red,
                position: Position::new(400.0, 200.0),
                label: "Destroyer".to_string(),
                emits: vec![
                    ScenarioEmitter {
                        channel: 3,
                        frequency_mhz: 9000.0,
                        category: SignalCategory::Radar,
                        power_db: 50.0,
                        bandwidth_mhz: 2.0,
                    },
                    ScenarioEmitter {
                        channel: 4,
                        frequency_mhz: 5800.0,
                        category: SignalCategory::DataLink,
                        power_db: 20.0,
                        bandwidth_mhz: 1.0,
                    },
                ],
                receives: false,
            },
        ],
    }
}

#[test]
fn build_world_numbers_everything_in_sequence() {
    let world = ScenarioLoader::build_world(scenario());
    let entity_ids: Vec<u64> = world.entities.iter().map(|e| e.id.raw()).collect();
    let emitter_ids: Vec<u64> = world.emitters.iter().map(|e| e.id.raw()).collect();
    let receiver_ids: Vec<u64> = world.receivers.iter().map(|r| r.id.raw()).collect();
    assert_eq!(entity_ids, vec![1, 4]);
    assert_eq!(emitter_ids, vec![2, 5, 6]);
    assert_eq!(receiver_ids, vec![3]);
    assert_eq!(world.entities[1].label, "Destroyer");
    assert_eq!(world.emitters[0].owner_id, EntityId::from_raw(1));
    assert_eq!(world.emitters[1].owner_id, EntityId::from_raw(4));
    assert_eq!(world.emitters[1].power_db, 50.0);
    assert_eq!(world.emitters[1].bandwidth_mhz, 2.0);
    assert_eq!(world.emitters[0].state, EmitterState::Transmitting);
    assert_eq!(world.emitters[2].state, EmitterState::Silent);
    assert_eq!(world.receivers[0].sensitivity_db, -90.0);
    assert_eq!(world.receivers[0].owner_id, EntityId::from_raw(1));
    assert_eq!(world.config.max_ticks, 5);
    assert_eq!(world.tick, 0);
    assert!(world.active_interference.is_empty());
}

#[test]
fn build_world_is_deterministic() {
    let w1 = ScenarioLoader::build_world(scenario());
    let w2 = ScenarioLoader::build_world(scenario());
    assert_eq!(w1.entities[0].id, w2.entities[0].id);
    assert_eq!(w1.emitters[0].id, w2.emitters[0].id);
    assert_eq!(w1.receivers.len(), w2.receivers.len());
}

#[test]
fn scenario_defaults() {
    assert!(default_true());
    assert_eq!(default_power::<f64>(), 30.0);
    assert_eq!(default_bandwidth::<f64>(), 1.0);
}

#[test]
fn blue_observer_is_first_blue_entity_with_receiver() {
    let p = Position::new(0.0, 0.0);
    let mut w: World<f64> = World::new(WorldConfig::default());
    w.add_entity(Entity::new(EntityId::from_raw(1), EntityKind::Aircraft, Faction::Blue, p));
    w.add_entity(Entity::new(EntityId::from_raw(2), EntityKind::Aircraft, Faction::Blue, p));
    w.add_receiver(Receiver::new(EntityId::from_raw(3), EntityId::from_raw(2), -90.0, p));
    assert_eq!(find_blue_receiver(&w), EntityId::from_raw(2));

    let mut red_only: World<f64> = World::new(WorldConfig::default());
    red_only.add_entity(Entity::new(EntityId::from_raw(1), EntityKind::Ship, Faction::Red, p));
    red_only.add_receiver(Receiver::new(EntityId::from_raw(2), EntityId::from_raw(1), -90.0, p));
    assert_eq!(find_blue_receiver(&red_only), EntityId::from_raw(0));

    let mut deaf: World<f64> = World::new(WorldConfig::default());
    deaf.add_entity(Entity::new(EntityId::from_raw(1), EntityKind::Ship, Faction::Blue, p));
    assert_eq!(find_blue_receiver(&deaf), EntityId::from_raw(0));
}
