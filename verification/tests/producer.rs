use relayer::consumer::QueueKey;
use relayer::data::{queue_event, set_history_point, StoreCommand};
use relayer::producer::{
    get_last_history_point, Mode, Producer, ProducerError, ProducerStep, Resume,
    INITIAL_HISTORY_POINT,
};
use relayer::types::{HistoryEvent, HistoryEventEntry, HistoryEventKind, UnknownKind};

fn entry(position: u64) -> HistoryEventEntry {
    HistoryEventEntry {
        position,
        event: HistoryEvent {
            kind: "group_role_changed".to_string(),
            payload: position.to_be_bytes().to_vec(),
        },
    }
}

fn stray(position: u64) -> HistoryEventEntry {
    HistoryEventEntry {
        position,
        event: HistoryEvent { kind: "something_else".to_string(), payload: vec![] },
    }
}

fn appended(e: &HistoryEventEntry) -> StoreCommand {
    queue_event(QueueKey::from(HistoryEventKind::GroupRoleChanged), e)
}

#[test]
fn resume_without_checkpoint() {
    assert_eq!(INITIAL_HISTORY_POINT, 1);
    assert_eq!(
        get_last_history_point(50, None),
        Resume { from: 1, store: Some(1), mode: Mode::Catchup }
    );
    assert_eq!(
        get_last_history_point(1, None),
        Resume { from: 1, store: Some(1), mode: Mode::Catchup }
    );
}

#[test]
fn resume_from_checkpoint() {
    assert_eq!(
        get_last_history_point(50, Some(50)),
        Resume { from: 50, store: None, mode: Mode::Listening }
    );
    assert_eq!(
        get_last_history_point(50, Some(20)),
        Resume { from: 20, store: None, mode: Mode::Catchup }
    );
    assert_eq!(
        get_last_history_point(50, Some(70)),
        Resume { from: 70, store: None, mode: Mode::Catchup }
    );
}

#[test]
fn start_modes() {
    assert_eq!(
        Producer::start(Some(50), 50, false),
        (Producer { position: 50, actual: 50, mode: Mode::Listening }, None)
    );
    assert_eq!(
        Producer::start(Some(20), 50, false),
        (Producer { position: 20, actual: 50, mode: Mode::Catchup }, None)
    );
    assert_eq!(
        Producer::start(None, 1, false),
        (Producer { position: 1, actual: 1, mode: Mode::Catchup }, Some(set_history_point(1)))
    );
    let (producer, _) = Producer::start(None, 1, false);
    let (producer, _) = producer.on_batch(&vec![entry(1)]);
    assert_eq!(producer, Producer { position: 2, actual: 1, mode: Mode::Listening });
}

#[test]
fn start_skipping_catchup() {
    assert_eq!(
        Producer::start(Some(20), 50, true),
        (Producer { position: 50, actual: 50, mode: Mode::Listening }, Some(set_history_point(50)))
    );
    assert_eq!(
        Producer::start(None, 50, true),
        (Producer { position: 50, actual: 50, mode: Mode::Listening }, Some(set_history_point(50)))
    );
}

#[test]
fn mode_labels() {
    assert_eq!(Mode::Catchup.as_str(), "catchup");
    assert_eq!(Mode::Listening.as_str(), "listening");
}

#[test]
fn catchup_from_nothing_reaches_the_head() {
    let (mut producer, first) = Producer::start(None, 50, false);
    assert_eq!(first, Some(set_history_point(1)));
    assert_eq!(producer, Producer { position: 1, actual: 50, mode: Mode::Catchup });

    let mut stored = 1;
    while producer.position < 50 {
        assert_eq!(producer.mode, Mode::Catchup);
        let from = producer.position;
        let batch: Vec<HistoryEventEntry> = (from..(from + 10).min(50)).map(entry).collect();
        let (next, step) = producer.on_batch(&batch);
        match step {
            ProducerStep::Store { commands } => {
                assert_eq!(commands.len(), batch.len() + 1);
                let last = batch.last().unwrap().position + 1;
                assert_eq!(commands.last(), Some(&set_history_point(last)));
                assert!(last >= stored);
                stored = last;
            }
            other => panic!("unexpected step {other:?}"),
        }
        producer = next;
    }
    assert_eq!(stored, 50);
    assert_eq!(producer, Producer { position: 50, actual: 50, mode: Mode::Listening });

    let (idle, step) = producer.on_batch(&Vec::new());
    assert_eq!(step, ProducerStep::Wait);
    assert_eq!(idle, producer);
}

#[test]
fn batch_is_appended_in_order_then_checkpointed() {
    let producer = Producer { position: 5, actual: 100, mode: Mode::Catchup };
    let batch = vec![entry(5), entry(6), entry(9)];
    let (next, step) = producer.on_batch(&batch);
    assert_eq!(next, Producer { position: 10, actual: 100, mode: Mode::Catchup });
    assert_eq!(
        step,
        ProducerStep::Store {
            commands: vec![
                appended(&batch[0]),
                appended(&batch[1]),
                appended(&batch[2]),
                set_history_point(10),
            ]
        }
    );
}

#[test]
fn checkpoint_is_one_past_the_highest_position() {
    let producer = Producer { position: 7, actual: 7, mode: Mode::Listening };
    let (next, _) = producer.on_batch(&vec![entry(7), entry(8), entry(11)]);
    assert_eq!(next.position, 12);
    assert!(next.position >= producer.position);
    assert_eq!(next.mode, Mode::Listening);
}

#[test]
fn checkpoint_follows_the_last_entry() {
    let producer = Producer { position: 10, actual: 20, mode: Mode::Catchup };
    let (next, _) = producer.on_batch(&vec![entry(12), entry(3)]);
    assert_eq!(next.position, 4);
}

#[test]
fn mode_flips_once_the_head_is_reached() {
    let producer = Producer { position: 10, actual: 12, mode: Mode::Catchup };
    let (next, _) = producer.on_batch(&vec![entry(10)]);
    assert_eq!(next, Producer { position: 11, actual: 12, mode: Mode::Catchup });
    let (next, _) = next.on_batch(&vec![entry(11)]);
    assert_eq!(next, Producer { position: 12, actual: 12, mode: Mode::Listening });
    let (next, _) = next.on_batch(&vec![entry(12), entry(13)]);
    assert_eq!(next, Producer { position: 14, actual: 12, mode: Mode::Listening });
}

#[test]
fn empty_batch_waits() {
    let producer = Producer { position: 10, actual: 12, mode: Mode::Catchup };
    assert_eq!(producer.on_batch(&Vec::new()), (producer, ProducerStep::Wait));
}

#[test]
fn unknown_kind_stops_the_producer() {
    let producer = Producer { position: 1, actual: 12, mode: Mode::Catchup };
    let batch = vec![entry(1), entry(2), stray(3), entry(4)];
    let (next, step) = producer.on_batch(&batch);
    assert_eq!(next, producer);
    assert_eq!(
        step,
        ProducerStep::Abort {
            commands: vec![appended(&batch[0]), appended(&batch[1])],
            error: ProducerError::UnknownKind(UnknownKind { kind: "something_else".to_string() }),
        }
    );
}

#[test]
fn last_position_of_all_stops_the_producer() {
    let producer = Producer { position: u64::MAX, actual: 12, mode: Mode::Listening };
    let batch = vec![entry(u64::MAX)];
    let (next, step) = producer.on_batch(&batch);
    assert_eq!(next, producer);
    assert_eq!(
        step,
        ProducerStep::Abort {
            commands: vec![appended(&batch[0])],
            error: ProducerError::PositionOverflow,
        }
    );
}

#[test]
fn replayed_batch_is_queued_again() {
    let producer = Producer { position: 5, actual: 100, mode: Mode::Catchup };
    let batch = vec![entry(5), entry(6)];
    let first = producer.on_batch(&batch);
    let second = producer.on_batch(&batch);
    assert_eq!(first, second);
}
