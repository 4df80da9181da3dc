//! What the relay asks of the durable store, as plain commands: the caller
//! carries each one out and hands the answer back.
use crate::codec::{encodable, encode_entry, encoding};
use crate::consumer::key::QueueKey;
use crate::types::event::{EntryView, HistoryEventEntry};
use vstd::prelude::*;
use vstd::string::*;

verus! {

/// The key under which the checkpoint lies in the store.
pub const HISTORY_POINT_KEY: &'static str = "history_point";

/// One request to the store.
#[derive(Debug, PartialEq, Eq)]
pub enum StoreCommand {
    /// Read the number stored under `key`, if there is one.
    Get { key: String },
    /// Store `value` under `key`.
    Put { key: String, value: u64 },
    /// Append `bytes` to the tail of the list `key`.
    Append { key: String, bytes: Vec<u8> },
    /// Read the items of the list `key` from index `start` to index `stop`,
    /// both included, without removing them.
    ReadRange { key: String, start: isize, stop: isize },
    /// Remove the item at the head of the list `key`.
    PopHead { key: String },
}

/// What a command says.
pub enum StoreCommandView {
    Get { key: Seq<char> },
    Put { key: Seq<char>, value: u64 },
    Append { key: Seq<char>, bytes: Seq<u8> },
    ReadRange { key: Seq<char>, start: int, stop: int },
    PopHead { key: Seq<char> },
}

impl View for StoreCommand {
    type V = StoreCommandView;

    open spec fn view(&self) -> StoreCommandView {
        match self {
            StoreCommand::Get { key } => StoreCommandView::Get { key: key@ },
            StoreCommand::Put { key, value } => StoreCommandView::Put { key: key@, value: *value },
            StoreCommand::Append { key, bytes } => StoreCommandView::Append {
                key: key@,
                bytes: bytes@,
            },
            StoreCommand::ReadRange { key, start, stop } => StoreCommandView::ReadRange {
                key: key@,
                start: *start as int,
                stop: *stop as int,
            },
            StoreCommand::PopHead { key } => StoreCommandView::PopHead { key: key@ },
        }
    }
}

/// The command that appends an entry to the queue of a kind.
pub open spec fn append_of(key: QueueKey, entry: EntryView) -> StoreCommandView {
    StoreCommandView::Append { key: key@, bytes: encoding(entry) }
}

/// The command that stores a checkpoint.
pub open spec fn checkpoint_of(point: u64) -> StoreCommandView {
    StoreCommandView::Put { key: HISTORY_POINT_KEY@, value: point }
}

/// The command that reads the checkpoint.
pub fn get_history_point() -> (out: StoreCommand)
    ensures
        out@ == (StoreCommandView::Get { key: HISTORY_POINT_KEY@ }),
{
    StoreCommand::Get { key: String::from_str(HISTORY_POINT_KEY) }
}

/// The command that stores `point` as the checkpoint.
pub fn set_history_point(point: u64) -> (out: StoreCommand)
    ensures
        out@ == checkpoint_of(point),
{
    StoreCommand::Put { key: String::from_str(HISTORY_POINT_KEY), value: point }
}

/// The command that puts an entry at the tail of the queue `key`, in the
/// wire format.
pub fn queue_event(key: QueueKey, event: &HistoryEventEntry) -> (out: StoreCommand)
    ensures
        encodable(event@),
        out@ == append_of(key, event@),
{
    StoreCommand::Append { key: key.to_string(), bytes: encode_entry(event) }
}

/// Whether a batch size can be asked of the store: it is at least one, and
/// the index of the last item wanted can be written as an `isize`.
pub open spec fn readable(limit: u64) -> bool {
    1 <= limit && limit - 1 <= isize::MAX
}

/// The command that reads up to `limit` items from the head of the queue
/// `key` and leaves them where they are: the items 0 to `limit - 1`. Each
/// item is an entry in the wire format. There is no such command for a limit
/// that is not `readable`.
pub fn get_events(key: QueueKey, limit: u64) -> (out: Option<StoreCommand>)
    ensures
        readable(limit) <==> out is Some,
        out is Some ==> out->Some_0@ == (StoreCommandView::ReadRange {
            key: key@,
            start: 0,
            stop: limit - 1,
        }),
{
    if limit >= 1 && limit - 1 <= isize::MAX as u64 {
        Some(StoreCommand::ReadRange { key: key.to_string(), start: 0, stop: (limit - 1) as isize })
    } else {
        None
    }
}

/// The command that removes the entry at the head of the queue `key`.
pub fn pop_from_queue(key: QueueKey) -> (out: StoreCommand)
    ensures
        out@ == (StoreCommandView::PopHead { key: key@ }),
{
    StoreCommand::PopHead { key: key.to_string() }
}

} // verus!
