use relayer::codec::encode_entry;
use relayer::consumer::QueueKey;
use relayer::data::{
    get_events, get_history_point, pop_from_queue, queue_event, set_history_point, StoreCommand,
    HISTORY_POINT_KEY,
};
use relayer::types::{HistoryEvent, HistoryEventEntry, HistoryEventKind};

fn entry(position: u64, payload: &[u8]) -> HistoryEventEntry {
    HistoryEventEntry {
        position,
        event: HistoryEvent { kind: "group_role_changed".to_string(), payload: payload.to_vec() },
    }
}

fn key() -> QueueKey {
    QueueKey::from(HistoryEventKind::GroupRoleChanged)
}

#[test]
fn checkpoint_commands() {
    assert_eq!(HISTORY_POINT_KEY, "history_point");
    assert_eq!(get_history_point(), StoreCommand::Get { key: "history_point".to_string() });
    assert_eq!(
        set_history_point(42),
        StoreCommand::Put { key: "history_point".to_string(), value: 42 }
    );
}

#[test]
fn queue_event_appends_the_encoding() {
    let e = entry(9, &[1, 2]);
    assert_eq!(
        queue_event(key(), &e),
        StoreCommand::Append { key: "queue_group_role_changed".to_string(), bytes: encode_entry(&e) }
    );
}

#[test]
fn get_events_reads_from_the_head() {
    assert_eq!(
        get_events(key(), 100),
        Some(StoreCommand::ReadRange {
            key: "queue_group_role_changed".to_string(),
            start: 0,
            stop: 99
        })
    );
    assert_eq!(
        get_events(key(), 1),
        Some(StoreCommand::ReadRange {
            key: "queue_group_role_changed".to_string(),
            start: 0,
            stop: 0
        })
    );
}

#[test]
fn get_events_refuses_limits_out_of_range() {
    assert_eq!(get_events(key(), 0), None);
    assert_eq!(get_events(key(), u64::MAX), None);
    assert!(get_events(key(), isize::MAX as u64 + 1).is_some());
    assert_eq!(get_events(key(), isize::MAX as u64 + 2), None);
}

#[test]
fn pop_removes_the_head() {
    assert_eq!(
        pop_from_queue(key()),
        StoreCommand::PopHead { key: "queue_group_role_changed".to_string() }
    );
}
