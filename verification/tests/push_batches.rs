use openmgmt::protocol::ProtocolErrorCode;
use openmgmt::server::plan_push;
use openmgmt::sync::{SyncEntityType, SyncEvent, SyncOperation};

fn event(id: &str, sequence: i64) -> SyncEvent {
    SyncEvent {
        event_id: id.into(),
        device_id: "device-1".into(),
        actor_user_id: None,
        target_user_id: None,
        workspace_id: None,
        sequence,
        entity_type: SyncEntityType::Task,
        entity_id: "task-1".into(),
        operation: SyncOperation::Created,
        payload_json: "{}".into(),
        created_at: 0,
        synced_at: None,
    }
}

#[test]
fn a_batch_sees_its_own_earlier_events() {
    let events = [event("a", 1), event("a", 1), event("b", 1), event("c", 2), event("x", 9)];
    let plan = plan_push(&events, vec!["x".into()], vec![("device-1".into(), 5, "x".into())]);
    assert_eq!(plan.accepted_event_ids, vec!["a", "a", "c", "x"]);
    assert_eq!(plan.to_store, vec![0, 3]);
    assert_eq!(plan.rejected_events.len(), 1);
    let rejected = &plan.rejected_events[0];
    assert_eq!(rejected.event_id, "b");
    assert_eq!(rejected.error.code, ProtocolErrorCode::Conflict);
    assert!(!rejected.error.retryable);
    assert_eq!(rejected.error.message, "device sequence already belongs to event a");
}

#[test]
fn a_sequence_held_before_the_batch_is_refused() {
    let plan = plan_push(&[event("n", 5)], vec!["x".into()], vec![("device-1".into(), 5, "x".into())]);
    assert!(plan.accepted_event_ids.is_empty());
    assert!(plan.to_store.is_empty());
    assert_eq!(plan.rejected_events[0].error.message, "device sequence already belongs to event x");
}
