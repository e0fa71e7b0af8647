use spectra::ai::decision::{record_screening, DecisionError};
use spectra::console::map::{map_grid, MapCell, MapEmitter, MapEntity, MapZone, Tint};
use spectra::console::panels::{log_tick, ObsEntry};
use spectra::model::id::{EntityId, SignalId};
use spectra::model::observation::{Observation, ObservationQuality};
use spectra::model::world::Faction;

fn blank() -> MapCell {
    MapCell { glyph: ' ', tint: Tint::Blank }
}

fn zone_mark() -> MapCell {
    MapCell { glyph: '\u{2591}', tint: Tint::Zone }
}

fn entity(x: usize, y: usize, faction: Faction, active: bool, label: &str) -> MapEntity {
    MapEntity { x, y, faction, active, label: label.chars().collect() }
}

#[test]
fn empty_map_is_blank() {
    let grid = map_grid(5, 6, &[], &[], &[], &[]);
    assert_eq!(grid.len(), 6);
    for row in &grid {
        assert_eq!(row.len(), 5);
        for cell in row {
            assert_eq!(*cell, blank());
        }
    }
}

#[test]
fn zone_marks_two_quarter_discs() {
    let zones = [MapZone { x: 2, y: 2, radius: 2 }];
    let grid = map_grid(5, 5, &zones, &[], &[], &[]);
    let marked = [(2, 2), (3, 2), (2, 3), (3, 3), (1, 1), (2, 1), (1, 2)];
    for y in 0..5 {
        for x in 0..5 {
            let expected = if marked.contains(&(x, y)) { zone_mark() } else { blank() };
            assert_eq!(grid[y][x], expected, "cell ({}, {})", x, y);
        }
    }
}

#[test]
fn zone_offsets_are_held_at_the_edges() {
    let zones = [MapZone { x: 4, y: 0, radius: 3 }];
    let grid = map_grid(5, 5, &zones, &[], &[], &[]);
    assert_eq!(grid[0][4], zone_mark());
    assert_eq!(grid[2][4], zone_mark());
    assert_eq!(grid[0][2], zone_mark());
    assert_eq!(grid[0][3], zone_mark());
    assert_eq!(grid[1][4], zone_mark());
    assert_eq!(grid[1][3], blank());
    assert_eq!(grid[3][4], blank());
    assert_eq!(grid[0][1], blank());
    let none = map_grid(5, 5, &[MapZone { x: 2, y: 2, radius: 0 }], &[], &[], &[]);
    assert_eq!(none[2][2], blank());
}

#[test]
fn transmitting_emitters_take_their_owner_tint() {
    let emitters = [
        MapEmitter { x: 1, y: 1, transmitting: true, owner: Some(Faction::Red) },
        MapEmitter { x: 3, y: 1, transmitting: true, owner: None },
        MapEmitter { x: 0, y: 3, transmitting: false, owner: Some(Faction::Blue) },
        MapEmitter { x: 4, y: 4, transmitting: true, owner: Some(Faction::Blue) },
    ];
    let zones = [MapZone { x: 1, y: 1, radius: 1 }];
    let grid = map_grid(5, 5, &zones, &emitters, &[], &[]);
    assert_eq!(grid[1][1], MapCell { glyph: '\u{25C6}', tint: Tint::RedBright });
    assert_eq!(grid[1][3], MapCell { glyph: '\u{25C6}', tint: Tint::NeutralBright });
    assert_eq!(grid[3][0], blank());
    assert_eq!(grid[4][4], MapCell { glyph: '\u{25C6}', tint: Tint::BlueBright });
}

#[test]
fn entities_draw_over_emitters_with_their_labels() {
    let emitters = [MapEmitter { x: 0, y: 4, transmitting: true, owner: Some(Faction::Red) }];
    let entities = [
        entity(0, 4, Faction::Blue, true, "AB"),
        entity(0, 0, Faction::Red, false, ""),
        entity(3, 2, Faction::Neutral, true, "NO"),
        entity(2, 1, Faction::Neutral, false, "XYZW"),
        entity(7, 1, Faction::Blue, true, "OFF"),
    ];
    let grid = map_grid(5, 5, &[], &emitters, &entities, &[]);
    assert_eq!(grid[4][0], MapCell { glyph: '\u{25B2}', tint: Tint::BlueBright });
    assert_eq!(grid[4][1], MapCell { glyph: 'A', tint: Tint::BlueBright });
    assert_eq!(grid[4][2], MapCell { glyph: 'B', tint: Tint::BlueBright });
    assert_eq!(grid[4][3], blank());
    assert_eq!(grid[0][0], MapCell { glyph: '\u{25BD}', tint: Tint::RedDim });
    assert_eq!(grid[2][3], MapCell { glyph: '\u{25CF}', tint: Tint::NeutralBright });
    assert_eq!(grid[2][4], blank());
    assert_eq!(grid[1][2], MapCell { glyph: '\u{25CB}', tint: Tint::NeutralDim });
    assert_eq!(grid[1][3], MapCell { glyph: 'X', tint: Tint::NeutralDim });
    assert_eq!(grid[1][4], MapCell { glyph: 'Y', tint: Tint::NeutralDim });
}

#[test]
fn later_entities_draw_over_earlier_ones() {
    let entities = [
        entity(0, 0, Faction::Blue, true, "LONG"),
        entity(2, 0, Faction::Red, true, ""),
    ];
    let grid = map_grid(6, 5, &[], &[], &entities, &[]);
    assert_eq!(grid[0][1], MapCell { glyph: 'L', tint: Tint::BlueBright });
    assert_eq!(grid[0][2], MapCell { glyph: '\u{25BC}', tint: Tint::RedBright });
    assert_eq!(grid[0][3], MapCell { glyph: 'N', tint: Tint::BlueBright });
}

#[test]
fn receivers_show_only_on_blank_cells() {
    let zones = [MapZone { x: 4, y: 4, radius: 1 }];
    let emitters = [MapEmitter { x: 2, y: 2, transmitting: true, owner: None }];
    let entities = [entity(0, 3, Faction::Red, true, "A B")];
    let receivers = [(0, 0), (2, 2), (4, 4), (2, 3), (9, 9)];
    let grid = map_grid(5, 5, &zones, &emitters, &entities, &receivers);
    let receiver = MapCell { glyph: '\u{25CE}', tint: Tint::Receiver };
    assert_eq!(grid[0][0], receiver);
    assert_eq!(grid[2][2], MapCell { glyph: '\u{25C6}', tint: Tint::NeutralBright });
    assert_eq!(grid[4][4], zone_mark());
    assert_eq!(grid[3][2], receiver);
    assert_eq!(grid[3][1], MapCell { glyph: 'A', tint: Tint::RedBright });
}

fn observation(channel: u32, confidence: f64, quality: ObservationQuality) -> Observation<f64> {
    Observation {
        observer_id: EntityId::from_raw(1),
        estimated_source_id: Some(EntityId::from_raw(2)),
        signal_id: Some(SignalId::from_raw(7)),
        estimated_channel: Some(channel),
        estimated_frequency_mhz: Some(2400.0 + channel as f64),
        signal_strength_db: -60.0,
        noise_level_db: -100.0,
        confidence,
        quality,
        timestamp: 3,
        position_estimate: None,
        uncertainty_position: 1.0,
    }
}

fn entry(tick: u64) -> ObsEntry<f64> {
    ObsEntry { tick, quality: "CLR".to_string(), confidence: 1.0, channel: None, freq: None }
}

#[test]
fn tick_logs_usable_observations_and_keeps_last_fifty() {
    let mut obs_log: Vec<ObsEntry<f64>> = (0..49).map(entry).collect();
    let mut error_log: Vec<String> = Vec::new();
    let observations = vec![
        observation(3, 0.9, ObservationQuality::Noisy),
        observation(4, 0.2, ObservationQuality::Unreliable),
        observation(5, 0.6, ObservationQuality::Degraded),
    ];
    let usable = vec![true, false, true];
    log_tick(&mut obs_log, &mut error_log, &observations, &usable, &[], 12);
    assert_eq!(obs_log.len(), 50);
    assert_eq!(obs_log[0].tick, 1);
    assert_eq!(obs_log[47].tick, 48);
    assert_eq!(obs_log[48].tick, 12);
    assert_eq!(obs_log[48].quality, "NOS");
    assert_eq!(obs_log[48].confidence, 0.9);
    assert_eq!(obs_log[48].channel, Some(3));
    assert_eq!(obs_log[48].freq, Some(2403.0));
    assert_eq!(obs_log[49].quality, "DGR");
    assert_eq!(obs_log[49].channel, Some(5));
    assert!(error_log.is_empty());
}

#[test]
fn tick_logs_only_an_error_made_at_that_tick() {
    let mut obs_log: Vec<ObsEntry<f64>> = Vec::new();
    let mut error_log: Vec<String> = (0..20).map(|i| format!("old {}", i)).collect();
    let errors = vec![
        DecisionError::MissedSignal { observer_id: EntityId::from_raw(1), tick: 3 },
        DecisionError::FalseDetection { observer_id: EntityId::from_raw(1), tick: 4 },
    ];
    log_tick(&mut obs_log, &mut error_log, &[], &[], &errors, 4);
    assert!(obs_log.is_empty());
    assert_eq!(error_log.len(), 20);
    assert_eq!(error_log[0], "old 1");
    assert_eq!(error_log[19], "[4] EID-1 detected a false signal");
    log_tick(&mut obs_log, &mut error_log, &[], &[], &errors, 5);
    assert_eq!(error_log.len(), 20);
    assert_eq!(error_log[0], "old 1");
}

#[test]
fn screening_records_a_miss_before_a_false_detection() {
    let observer = EntityId::from_raw(3);
    let mut errors: Vec<DecisionError> = Vec::new();
    record_screening(&mut errors, observer, 6, false, false);
    assert!(errors.is_empty());
    record_screening(&mut errors, observer, 6, true, true);
    record_screening(&mut errors, observer, 7, false, true);
    assert_eq!(errors.len(), 2);
    assert!(matches!(errors[0], DecisionError::MissedSignal { tick: 6, .. }));
    assert!(matches!(errors[1], DecisionError::FalseDetection { tick: 7, .. }));
    assert_eq!(errors[0].observer_id(), observer);
}
