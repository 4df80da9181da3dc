use relayer::codec::{encode_entry, DecodeError};
use relayer::config::{default_ic_url, default_interval, default_limit, default_log_filter, Config};
use relayer::consumer::{DispatchError, DispatchStep, Dispatcher, QueueKey};
use relayer::data::StoreCommand;
use relayer::types::{HistoryEvent, HistoryEventEntry, HistoryEventKind, PrincipalId, UnknownKind};

fn entry(position: u64, kind: &str) -> HistoryEventEntry {
    HistoryEventEntry {
        position,
        event: HistoryEvent { kind: kind.to_string(), payload: vec![position as u8] },
    }
}

fn dispatcher() -> Dispatcher {
    Dispatcher::new(HistoryEventKind::GroupRoleChanged, 100).unwrap()
}

fn raw(entries: &[HistoryEventEntry]) -> Vec<Vec<u8>> {
    entries.iter().map(encode_entry).collect()
}

#[test]
fn dispatcher_needs_a_readable_limit() {
    assert!(Dispatcher::new(HistoryEventKind::GroupRoleChanged, 0).is_none());
    assert!(Dispatcher::new(HistoryEventKind::GroupRoleChanged, u64::MAX).is_none());
    assert!(Dispatcher::new(HistoryEventKind::GroupRoleChanged, 1).is_some());
}

#[test]
fn dispatcher_reads_its_queue() {
    let d = dispatcher();
    assert_eq!(d.key(), QueueKey::from(HistoryEventKind::GroupRoleChanged));
    assert_eq!(
        d.read(),
        StoreCommand::ReadRange {
            key: "queue_group_role_changed".to_string(),
            start: 0,
            stop: 99
        }
    );
}

#[test]
fn empty_queue_sleeps() {
    assert_eq!(dispatcher().on_events(Vec::new()), DispatchStep::Sleep(dispatcher()));
}

#[test]
fn entries_are_handled_in_order_and_popped_after_success() {
    let entries = vec![entry(4, "group_role_changed"), entry(5, "group_role_changed")];
    let mut step = dispatcher().on_events(raw(&entries));
    let mut handled = Vec::new();
    let mut pops = 0;
    loop {
        step = match step {
            DispatchStep::Handle(state) => {
                handled.push(state.entry().position);
                assert_eq!(pops + 1, handled.len());
                state.on_handled(true)
            }
            DispatchStep::Pop(state) => {
                assert_eq!(
                    state.command(),
                    StoreCommand::PopHead { key: "queue_group_role_changed".to_string() }
                );
                assert_eq!(state.entry().position, *handled.last().unwrap());
                pops += 1;
                state.on_popped()
            }
            DispatchStep::Read(d) => {
                assert_eq!(d, dispatcher());
                break;
            }
            other => panic!("unexpected step {other:?}"),
        };
    }
    assert_eq!(handled, vec![4, 5]);
    assert_eq!(pops, 2);
}

#[test]
fn handler_failure_stops_without_a_pop() {
    let entries = vec![entry(4, "group_role_changed"), entry(5, "group_role_changed")];
    let step = dispatcher().on_events(raw(&entries));
    let state = match step {
        DispatchStep::Handle(state) => state,
        other => panic!("unexpected step {other:?}"),
    };
    assert_eq!(state.entry(), &entries[0]);
    assert_eq!(state.on_handled(false), DispatchStep::Failed(DispatchError::Handler));
}

#[test]
fn unknown_kind_stops_the_dispatcher() {
    let entries = vec![entry(4, "group_role_changed"), entry(5, "other")];
    let step = dispatcher().on_events(raw(&entries));
    let step = match step {
        DispatchStep::Handle(state) => state.on_handled(true),
        other => panic!("unexpected step {other:?}"),
    };
    let step = match step {
        DispatchStep::Pop(state) => state.on_popped(),
        other => panic!("unexpected step {other:?}"),
    };
    assert_eq!(
        step,
        DispatchStep::Failed(DispatchError::UnknownKind(UnknownKind { kind: "other".to_string() }))
    );
}

#[test]
fn undecodable_item_stops_the_dispatcher_when_it_is_reached() {
    let first = entry(4, "group_role_changed");
    let items = vec![encode_entry(&first), vec![1, 2, 3], encode_entry(&first)];
    let step = match dispatcher().on_events(items) {
        DispatchStep::Handle(state) => {
            assert_eq!(state.entry(), &first);
            state.on_handled(true)
        }
        other => panic!("unexpected step {other:?}"),
    };
    let step = match step {
        DispatchStep::Pop(state) => state.on_popped(),
        other => panic!("unexpected step {other:?}"),
    };
    assert_eq!(step, DispatchStep::Failed(DispatchError::Decode(DecodeError::Truncated)));
}

#[test]
fn undecodable_head_stops_the_dispatcher_at_once() {
    let mut trailing = encode_entry(&entry(4, "group_role_changed"));
    trailing.push(0);
    assert_eq!(
        dispatcher().on_events(vec![trailing]),
        DispatchStep::Failed(DispatchError::Decode(DecodeError::TrailingBytes))
    );
}

#[test]
fn config_defaults() {
    assert_eq!(default_interval(), 300);
    assert_eq!(default_limit(), 100);
    assert_eq!(default_ic_url(), "https://icp0.io");
    assert_eq!(
        default_log_filter(),
        "debug,reqwest=info,rustls=info,hyper_util=info,hyper=info,h2=info,matrix_sdk=info,eyeball=info"
    );
    let config = Config::new(
        PrincipalId::from_slice(&[1]).unwrap(),
        PrincipalId::from_slice(&[2]).unwrap(),
        "redis://localhost".to_string(),
        "https://matrix.example.org".to_string(),
        "secret".to_string(),
    );
    assert_eq!(config.interval, 300);
    assert_eq!(config.limit, 100);
    assert_eq!(config.ic_url, "https://icp0.io");
    assert!(!config.skip_catchup);
    assert_eq!(config.matrix_url, "https://matrix.example.org");
    assert_eq!(config.dispatcher(HistoryEventKind::GroupRoleChanged), Some(dispatcher()));
}
