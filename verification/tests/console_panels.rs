use spectra::ai::decision::DecisionError;
use spectra::console::controls::{command_for, Command, Controls, Key};
use spectra::console::panels::{faction_strength, keep_last, latest_error_at, quality_code};
use spectra::model::entity::{ActivityState, Entity, EntityKind};
use spectra::model::id::EntityId;
use spectra::model::observation::ObservationQuality;
use spectra::model::world::{Faction, Position, World, WorldConfig};

#[test]
fn controls_start_paused_at_default_speed() {
    let c = Controls::new();
    assert!(!c.running);
    assert_eq!(c.tick_delay, 100);
    assert!(!c.show_help);
}

#[test]
fn controls_follow_commands() {
    let mut c = Controls::new();
    assert!(c.apply(Command::Step));
    assert!(!c.apply(Command::ToggleRun));
    assert!(c.running);
    c.apply(Command::ToggleHelp);
    assert!(c.show_help);
    c.apply(Command::Faster);
    assert_eq!(c.tick_delay, 80);
    c.apply(Command::Slower);
    c.apply(Command::Slower);
    assert_eq!(c.tick_delay, 120);
    assert!(!c.apply(Command::Ignore));
    assert_eq!(c.tick_delay, 120);
    c.apply(Command::Quit);
    assert!(!c.running);
}

#[test]
fn speed_stays_between_limits() {
    let mut c = Controls::new();
    for _ in 0..50 {
        c.apply(Command::Faster);
    }
    assert_eq!(c.tick_delay, 20);
    for _ in 0..50 {
        c.apply(Command::Slower);
    }
    assert_eq!(c.tick_delay, 500);
}

#[test]
fn quality_codes() {
    assert_eq!(quality_code(ObservationQuality::Clear), "CLR");
    assert_eq!(quality_code(ObservationQuality::Noisy), "NOS");
    assert_eq!(quality_code(ObservationQuality::Degraded), "DGR");
    assert_eq!(quality_code(ObservationQuality::Unreliable), "UNR");
}

#[test]
fn faction_strength_counts_active_and_total() {
    let mut world: World<f64> = World::new(WorldConfig::default());
    let pos = Position::new(0.0, 0.0);
    world.add_entity(Entity::new(EntityId::from_raw(1), EntityKind::Ship, Faction::Blue, pos));
    let mut hit = Entity::new(EntityId::from_raw(2), EntityKind::Ship, Faction::Blue, pos);
    hit.state = ActivityState::Disabled;
    world.add_entity(hit);
    world.add_entity(Entity::new(EntityId::from_raw(3), EntityKind::Drone, Faction::Red, pos));
    assert_eq!(faction_strength(&world, Faction::Blue), (1, 2));
    assert_eq!(faction_strength(&world, Faction::Red), (1, 1));
    assert_eq!(faction_strength(&world, Faction::Neutral), (0, 0));
}

#[test]
fn logs_keep_their_newest_entries() {
    let mut log: Vec<u32> = (0..60).collect();
    keep_last(&mut log, 50);
    assert_eq!(log.len(), 50);
    assert_eq!(log[0], 10);
    assert_eq!(log[49], 59);
    let mut short = vec![1, 2, 3];
    keep_last(&mut short, 50);
    assert_eq!(short, vec![1, 2, 3]);
}

#[test]
fn error_log_takes_latest_error_of_the_tick() {
    let errors = vec![
        DecisionError::MissedSignal { observer_id: EntityId::from_raw(1), tick: 3 },
        DecisionError::FalseDetection { observer_id: EntityId::from_raw(1), tick: 4 },
    ];
    assert_eq!(
        latest_error_at(&errors, 4),
        Some("[4] EID-1 detected a false signal".to_string())
    );
    assert_eq!(latest_error_at(&errors, 3), None);
    assert_eq!(latest_error_at(&[], 3), None);
}

#[test]
fn any_key_closes_the_help_overlay() {
    let mut c = Controls::new();
    c.apply(Command::ToggleHelp);
    assert!(c.show_help);
    assert!(!c.apply(Command::Ignore));
    assert!(!c.show_help);

    c.apply(Command::ToggleHelp);
    assert!(c.apply(Command::Step));
    assert!(!c.show_help);

    c.apply(Command::ToggleHelp);
    c.apply(Command::Faster);
    assert!(!c.show_help);
    assert_eq!(c.tick_delay, 80);

    c.apply(Command::ToggleHelp);
    c.apply(Command::ToggleHelp);
    assert!(!c.show_help);
}

#[test]
fn keys_map_to_commands() {
    assert_eq!(command_for(Key::Char('q')), Command::Quit);
    assert_eq!(command_for(Key::Esc), Command::Quit);
    assert_eq!(command_for(Key::Char(' ')), Command::Step);
    assert_eq!(command_for(Key::Char('n')), Command::Step);
    assert_eq!(command_for(Key::Char('r')), Command::ToggleRun);
    assert_eq!(command_for(Key::Char('+')), Command::Faster);
    assert_eq!(command_for(Key::Char('=')), Command::Faster);
    assert_eq!(command_for(Key::Char('-')), Command::Slower);
    assert_eq!(command_for(Key::Char('?')), Command::ToggleHelp);
    assert_eq!(command_for(Key::Char('h')), Command::ToggleHelp);
    assert_eq!(command_for(Key::Char('x')), Command::Ignore);
    assert_eq!(command_for(Key::Other), Command::Ignore);
}
