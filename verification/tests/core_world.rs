use spectra::model::emitter::{Emitter, EmitterState, SignalCategory};
use spectra::model::entity::{ActivityState, Capabilities, Entity, EntityKind};
use spectra::model::event::{Event, EventKind};
use spectra::model::id::{EntityId, EventId};
use spectra::model::interference::{Interference, InterferenceKind};
use spectra::model::metrics::Metrics;
use spectra::model::receiver::Receiver;
use spectra::model::world::{Faction, Position, World, WorldConfig};

#[test]
fn emitter_creation() {
    let id = EntityId::from_raw(10);
    let owner = EntityId::from_raw(1);
    let emitter = Emitter::new(
        id,
        owner,
        1,
        2400.0,
        SignalCategory::Communication,
        Position::new(0.0, 0.0),
    );
    assert_eq!(emitter.channel, 1);
    assert!(emitter.is_transmitting());
}

#[test]
fn emitter_with_config() {
    let id = EntityId::from_raw(11);
    let owner = EntityId::from_raw(1);
    let emitter = Emitter::new(
        id,
        owner,
        5,
        9000.0,
        SignalCategory::Radar,
        Position::new(10.0, 10.0),
    )
    .with_power_db(50.0)
    .with_bandwidth(5.0);
    assert_eq!(emitter.power_db, 50.0);
    assert_eq!(emitter.bandwidth_mhz, 5.0);
}

#[test]
fn emitter_silent_state() {
    let id = EntityId::from_raw(12);
    let owner = EntityId::from_raw(1);
    let mut emitter = Emitter::new(
        id,
        owner,
        1,
        2400.0,
        SignalCategory::Communication,
        Position::new(0.0, 0.0),
    );
    emitter.state = EmitterState::Silent;
    assert!(!emitter.is_transmitting());
}

#[test]
fn emitter_defaults() {
    let emitter = Emitter::new(
        EntityId::from_raw(3),
        EntityId::from_raw(1),
        2,
        5800.0,
        SignalCategory::Radar,
        Position::new(1.0, 2.0),
    );
    assert_eq!(emitter.bandwidth_mhz, 1.0);
    assert_eq!(emitter.power_db, 30.0);
    assert_eq!(emitter.state, EmitterState::Transmitting);
}

#[test]
fn entity_creation() {
    let id = EntityId::from_raw(1);
    let entity = Entity::new(
        id,
        EntityKind::Aircraft,
        Faction::Blue,
        Position::new(10.0, 20.0),
    );
    assert_eq!(entity.id, EntityId::from_raw(1));
    assert_eq!(entity.kind, EntityKind::Aircraft);
    assert_eq!(entity.faction, Faction::Blue);
    assert!(entity.is_active());
}

#[test]
fn entity_with_label() {
    let id = EntityId::from_raw(2);
    let entity = Entity::new(id, EntityKind::Ship, Faction::Red, Position::new(0.0, 0.0))
        .with_label("Destroyer-1");
    assert_eq!(entity.label, "Destroyer-1");
}

#[test]
fn entity_state() {
    let id = EntityId::from_raw(3);
    let mut entity = Entity::new(
        id,
        EntityKind::Drone,
        Faction::Blue,
        Position::new(0.0, 0.0),
    );
    assert!(entity.is_active());
    entity.state = ActivityState::Degraded;
    assert!(!entity.is_active());
}

#[test]
fn entity_capabilities_default() {
    let caps = Capabilities::<f64>::default();
    assert!(!caps.can_emit);
    assert!(!caps.can_jam);
}

#[test]
fn entity_with_capabilities_keeps_identity() {
    let caps = Capabilities {
        can_emit: true,
        can_receive: false,
        can_jam: true,
        can_deceive: false,
        max_power_db: 45.0,
    };
    let entity = Entity::new(
        EntityId::from_raw(7),
        EntityKind::GroundStation,
        Faction::Neutral,
        Position::new(3.0, 4.0),
    )
    .with_capabilities(caps);
    assert!(entity.capabilities.can_jam);
    assert_eq!(entity.capabilities.max_power_db, 45.0);
    assert_eq!(entity.id, EntityId::from_raw(7));
}

#[test]
fn interference_creation() {
    let id = EntityId::from_raw(30);
    let source = EntityId::from_raw(1);
    let ix = Interference::new(
        id,
        source,
        InterferenceKind::NoiseJamming,
        Position::new(50.0, 50.0),
        100.0,
        60.0,
        10,
    );
    assert!(ix.is_active());
    assert_eq!(ix.remaining_ticks, 10);
}

#[test]
fn interference_tick() {
    let id = EntityId::from_raw(31);
    let source = EntityId::from_raw(1);
    let mut ix = Interference::new(
        id,
        source,
        InterferenceKind::NoiseJamming,
        Position::new(0.0, 0.0),
        50.0,
        40.0,
        3,
    );
    ix.tick();
    assert_eq!(ix.remaining_ticks, 2);
    ix.tick();
    assert_eq!(ix.remaining_ticks, 1);
    ix.tick();
    assert_eq!(ix.remaining_ticks, 0);
    assert!(!ix.is_active());
}

#[test]
fn interference_tick_stops_at_zero() {
    let mut ix = Interference::new(
        EntityId::from_raw(35),
        EntityId::from_raw(1),
        InterferenceKind::EnvironmentalNoise,
        Position::new(0.0, 0.0),
        10.0,
        5.0,
        0,
    );
    assert!(!ix.is_active());
    ix.tick();
    assert_eq!(ix.remaining_ticks, 0);
}

#[test]
fn interference_channel_filter() {
    let id = EntityId::from_raw(33);
    let source = EntityId::from_raw(1);
    let ix = Interference::new(
        id,
        source,
        InterferenceKind::NoiseJamming,
        Position::new(0.0, 0.0),
        100.0,
        50.0,
        5,
    )
    .with_affected_channels(vec![1, 2]);
    assert!(ix.affects_channel(1));
    assert!(!ix.affects_channel(3));
}

#[test]
fn interference_channel_filter_empty() {
    let id = EntityId::from_raw(34);
    let source = EntityId::from_raw(1);
    let ix = Interference::new(
        id,
        source,
        InterferenceKind::NoiseJamming,
        Position::new(0.0, 0.0),
        100.0,
        50.0,
        5,
    );
    assert!(ix.affects_channel(999));
}

#[test]
fn receiver_creation() {
    let id = EntityId::from_raw(20);
    let owner = EntityId::from_raw(1);
    let rx = Receiver::new(id, owner, -90.0, Position::new(0.0, 0.0));
    assert_eq!(rx.sensitivity_db, -90.0);
    assert!(rx.monitored_channels.is_empty());
}

#[test]
fn receiver_builders() {
    let rx = Receiver::new(
        EntityId::from_raw(20),
        EntityId::from_raw(1),
        -85.0,
        Position::new(0.0, 0.0),
    )
    .with_noise_figure(6.0)
    .with_monitored_channels(vec![4]);
    assert_eq!(rx.noise_figure_db, 6.0);
    assert_eq!(rx.bandwidth_mhz, 1.0);
    assert_eq!(rx.monitored_channels, vec![4]);
}

#[test]
fn metrics_event_tracking() {
    let mut m = Metrics::<f64>::default();
    let actor = EntityId::from_raw(1);
    let e1 = Event::new(EventId::from_raw(1), EventKind::SignalDetected, 0, actor);
    let e2 = Event::new(EventId::from_raw(2), EventKind::SignalDetected, 0, actor);
    let e3 = Event::new(EventId::from_raw(3), EventKind::SignalLost, 1, actor);
    m.record_event(&e1);
    m.record_event(&e2);
    m.record_event(&e3);
    assert_eq!(m.signals_detected, 2);
    assert_eq!(m.signals_lost, 1);
}

#[test]
fn metrics_interference_and_other_events() {
    let mut m = Metrics::<f64>::default();
    let actor = EntityId::from_raw(1);
    m.record_event(&Event::new(EventId::from_raw(1), EventKind::InterferenceStarted, 0, actor));
    m.record_event(&Event::new(EventId::from_raw(2), EventKind::InterferenceEnded, 1, actor));
    m.record_event(&Event::new(EventId::from_raw(3), EventKind::DecoyDeployed, 1, actor));
    assert_eq!(m.interference_events, 2);
    assert_eq!(m.signals_detected, 0);
    assert_eq!(m.signals_lost, 0);
}

#[test]
fn metrics_action_counts() {
    let mut m = Metrics::<f64>::default();
    m.record_action(true);
    m.record_action(true);
    m.record_action(false);
    assert_eq!(m.total_actions, 3);
    assert_eq!(m.successful_actions, 2);
}

#[test]
fn world_creation() {
    let config = WorldConfig::<f64>::default();
    let world = World::new(config);
    assert_eq!(world.tick, 0);
    assert!(world.entities.is_empty());
}

#[test]
fn world_tick_advance() {
    let config = WorldConfig::<f64>::default();
    let mut world = World::new(config);
    world.advance_tick();
    assert_eq!(world.tick, 1);
}

#[test]
fn world_add_entity() {
    let config = WorldConfig::default();
    let mut world = World::new(config);
    let entity = Entity::new(
        EntityId::from_raw(1),
        EntityKind::Platform,
        Faction::Blue,
        Position::new(0.0, 0.0),
    );
    let id = world.add_entity(entity);
    assert_eq!(world.entities.len(), 1);
    assert_eq!(world.entity_by_id(id).unwrap().kind, EntityKind::Platform);
}

#[test]
fn world_add_emitter() {
    let config = WorldConfig::default();
    let mut world = World::new(config);
    let emitter = Emitter::new(
        EntityId::from_raw(10),
        EntityId::from_raw(1),
        1,
        2400.0,
        SignalCategory::Communication,
        Position::new(0.0, 0.0),
    );
    let id = world.add_emitter(emitter);
    assert_eq!(world.emitters.len(), 1);
    assert_eq!(world.emitters[0].id, id);
}

#[test]
fn world_emitters_for_entity() {
    let config = WorldConfig::default();
    let mut world = World::new(config);
    let owner = EntityId::from_raw(1);
    let other = EntityId::from_raw(2);
    world.add_emitter(Emitter::new(
        EntityId::from_raw(10),
        owner,
        1,
        2400.0,
        SignalCategory::Communication,
        Position::new(0.0, 0.0),
    ));
    world.add_emitter(Emitter::new(
        EntityId::from_raw(11),
        other,
        2,
        5800.0,
        SignalCategory::Radar,
        Position::new(0.0, 0.0),
    ));
    assert_eq!(world.emitters_for_entity(owner).len(), 1);
    assert_eq!(world.emitters_for_entity(other).len(), 1);
}

#[test]
fn world_tick_interference() {
    let config = WorldConfig::default();
    let mut world = World::new(config);
    world.add_interference(Interference::new(
        EntityId::from_raw(30),
        EntityId::from_raw(1),
        InterferenceKind::NoiseJamming,
        Position::new(0.0, 0.0),
        100.0,
        40.0,
        2,
    ));
    assert_eq!(world.active_interference.len(), 1);
    world.tick_interference();
    assert_eq!(world.active_interference.len(), 1);
    world.tick_interference();
    assert_eq!(world.active_interference.len(), 0);
}

#[test]
fn world_completion() {
    let config: WorldConfig<f64> = WorldConfig {
        max_ticks: 5,
        ..Default::default()
    };
    let mut world = World::new(config);
    for _ in 0..5 {
        assert!(!world.is_complete());
        world.advance_tick();
    }
    assert!(world.is_complete());
}

#[test]
fn world_config_defaults() {
    let config = WorldConfig::<f64>::default();
    assert_eq!(config.map_width, 1000.0);
    assert_eq!(config.map_height, 1000.0);
    assert_eq!(config.max_ticks, 1000);
    assert_eq!(config.environment.propagation_loss_exponent, 2.0);
    assert_eq!(config.environment.ambient_noise_db, -100.0);
    assert_eq!(config.environment.weather_attenuation, 0.0);
    assert!(!config.environment.terrain_masking);
}

#[test]
fn world_tick_interference_keeps_order_and_counts_down() {
    let mut world = World::new(WorldConfig::default());
    for (raw, duration) in [(1u64, 3u64), (2, 1), (3, 2), (4, 0)] {
        world.add_interference(Interference::new(
            EntityId::from_raw(raw),
            EntityId::from_raw(9),
            InterferenceKind::ChannelFlooding,
            Position::new(0.0, 0.0),
            10.0,
            5.0,
            duration,
        ));
    }
    world.tick_interference();
    let left: Vec<(u64, u64)> = world
        .active_interference
        .iter()
        .map(|ix| (ix.id.raw(), ix.remaining_ticks))
        .collect();
    assert_eq!(left, vec![(1, 2), (3, 1)]);
}

#[test]
fn world_queries_by_faction_owner_and_id() {
    let mut world = World::new(WorldConfig::default());
    world.add_entity(Entity::new(
        EntityId::from_raw(1),
        EntityKind::Aircraft,
        Faction::Blue,
        Position::new(0.0, 0.0),
    ));
    world.add_entity(Entity::new(
        EntityId::from_raw(2),
        EntityKind::Ship,
        Faction::Red,
        Position::new(5.0, 0.0),
    ));
    world.add_entity(
        Entity::new(
            EntityId::from_raw(3),
            EntityKind::Drone,
            Faction::Blue,
            Position::new(9.0, 0.0),
        )
        .with_label("second"),
    );
    world.add_receiver(Receiver::new(
        EntityId::from_raw(4),
        EntityId::from_raw(1),
        -90.0,
        Position::new(0.0, 0.0),
    ));
    let blue: Vec<u64> = world
        .entities_by_faction(Faction::Blue)
        .iter()
        .map(|e| e.id.raw())
        .collect();
    assert_eq!(blue, vec![1, 3]);
    assert!(world.entities_by_faction(Faction::Neutral).is_empty());
    assert_eq!(world.receivers_for_entity(EntityId::from_raw(1)).len(), 1);
    assert!(world.receivers_for_entity(EntityId::from_raw(2)).is_empty());
    assert_eq!(world.entity_by_id(EntityId::from_raw(3)).unwrap().label, "second");
    assert!(world.entity_by_id(EntityId::from_raw(8)).is_none());
}
