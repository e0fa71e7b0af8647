use spectra::ai::decision::DecisionError;
use spectra::model::action::{EwAction, PerformedAction};
use spectra::model::id::{EntityId, EventId, IdGenerator, SignalId};

#[test]
fn id_generator_sequential() {
    let mut gen = IdGenerator::new();
    let a = gen.next_id();
    let b = gen.next_id();
    let c = gen.next_id();
    assert_eq!(a, EntityId::from_raw(1));
    assert_eq!(b, EntityId::from_raw(2));
    assert_eq!(c, EntityId::from_raw(3));
}

#[test]
fn entity_id_display() {
    let id = EntityId::from_raw(42);
    assert_eq!(id.to_string(), "EID-42");
}

#[test]
fn signal_id_display() {
    let id = SignalId::from_raw(7);
    assert_eq!(id.to_string(), "SIG-7");
}

#[test]
fn event_id_display() {
    let id = EventId::from_raw(99);
    assert_eq!(id.to_string(), "EVT-99");
}

#[test]
fn entity_id_raw_roundtrip() {
    let id = EntityId::from_raw(999);
    assert_eq!(id.raw(), 999);
}

#[test]
fn id_display_zero_and_large() {
    assert_eq!(EntityId::from_raw(0).to_string(), "EID-0");
    assert_eq!(EventId::from_raw(10).to_string(), "EVT-10");
    assert_eq!(
        SignalId::from_raw(u64::MAX).to_string(),
        "SIG-18446744073709551615"
    );
}

#[test]
fn id_generator_default_starts_at_one() {
    let mut gen = IdGenerator::default();
    assert_eq!(gen.next_id().raw(), 1);
    assert_eq!(gen.next_id().raw(), 2);
}

#[test]
fn action_display() {
    assert_eq!(EwAction::ProtectChannel.to_string(), "PROTECT_CHANNEL");
    assert_eq!(EwAction::Disengage.to_string(), "DISENGAGE");
}

#[test]
fn action_display_all() {
    assert_eq!(EwAction::Observe.to_string(), "OBSERVE");
    assert_eq!(EwAction::Monitor.to_string(), "MONITOR");
    assert_eq!(EwAction::ChangeChannel.to_string(), "CHANGE_CHANNEL");
    assert_eq!(EwAction::DeployDecoy.to_string(), "DEPLOY_DECOY");
    assert_eq!(EwAction::SuppressSignal.to_string(), "SUPPRESS_SIGNAL");
}

#[test]
fn performed_action_creation() {
    let actor = EntityId::from_raw(1);
    let action = PerformedAction::<f64>::new(actor, EwAction::Observe, 0);
    assert!(action.success);
    assert_eq!(action.timestamp, 0);
}

#[test]
fn performed_action_with_targets() {
    let actor = EntityId::from_raw(1);
    let target_entity = EntityId::from_raw(2);
    let action = PerformedAction::<f64>::new(actor, EwAction::SuppressSignal, 5)
        .with_target_channel(3)
        .with_target_entity(target_entity);
    assert_eq!(action.target.channel, Some(3));
    assert_eq!(action.target.entity_id, Some(target_entity));
}

#[test]
fn performed_action_failure() {
    let actor = EntityId::from_raw(1);
    let action = PerformedAction::<f64>::new(actor, EwAction::ChangeChannel, 1).failed();
    assert!(!action.success);
}

#[test]
fn error_observer_ids() {
    let e1 = DecisionError::MissedSignal {
        observer_id: EntityId::from_raw(1),
        tick: 5,
    };
    assert_eq!(e1.observer_id(), EntityId::from_raw(1));
    assert_eq!(e1.tick(), 5);

    let e2 = DecisionError::DelayedResponse {
        observer_id: EntityId::from_raw(2),
        intended_tick: 3,
        actual_tick: 7,
        action: EwAction::SuppressSignal,
    };
    assert_eq!(e2.observer_id(), EntityId::from_raw(2));
    assert_eq!(e2.tick(), 7);
}

#[test]
fn error_display() {
    let e = DecisionError::FalseDetection {
        observer_id: EntityId::from_raw(1),
        tick: 10,
    };
    let msg = e.to_string();
    assert!(msg.contains("EID-1"));
    assert!(msg.contains("10"));
}

#[test]
fn error_messages_exact() {
    let observer_id = EntityId::from_raw(4);
    assert_eq!(
        DecisionError::MissedSignal { observer_id, tick: 3 }.to_string(),
        "[3] EID-4 missed a signal"
    );
    assert_eq!(
        DecisionError::MisclassifiedSignal {
            observer_id,
            tick: 8,
            actual_action: EwAction::Monitor,
            chosen_action: EwAction::DeployDecoy,
        }
        .to_string(),
        "[8] EID-4 misclassified: chose DEPLOY_DECOY, should have been MONITOR"
    );
    assert_eq!(
        DecisionError::DelayedResponse {
            observer_id,
            intended_tick: 3,
            actual_tick: 7,
            action: EwAction::SuppressSignal,
        }
        .to_string(),
        "[7] EID-4 delayed response to SUPPRESS_SIGNAL (intended at 3)"
    );
    assert_eq!(
        DecisionError::StaleInformation {
            observer_id,
            tick: 12,
            staleness_ticks: 6,
        }
        .to_string(),
        "[12] EID-4 made decision based on 6-tick-old information"
    );
    assert_eq!(
        DecisionError::FalseDetection { observer_id, tick: 0 }.to_string(),
        "[0] EID-4 detected a false signal"
    );
}

#[test]
fn error_ticks_per_variant() {
    let observer_id = EntityId::from_raw(9);
    assert_eq!(
        DecisionError::StaleInformation {
            observer_id,
            tick: 12,
            staleness_ticks: 6
        }
        .tick(),
        12
    );
    assert_eq!(
        DecisionError::MisclassifiedSignal {
            observer_id,
            tick: 2,
            actual_action: EwAction::Observe,
            chosen_action: EwAction::Monitor,
        }
        .observer_id(),
        observer_id
    );
}
