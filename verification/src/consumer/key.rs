use crate::types::event::{HistoryEventKind, UnknownKind};
use vstd::prelude::*;
use vstd::std_specs::convert::FromSpecImpl;
use vstd::string::*;

verus! {

/// The key of the queue that holds the events of one kind. Each kind has a
/// queue of its own, so the backlog of one never holds up another.
#[derive(Debug, Clone, Copy, PartialEq, Eq, Structural)]
pub struct QueueKey {
    event_kind: HistoryEventKind,
}

impl View for QueueKey {
    type V = Seq<char>;

    /// The key as the store sees it: `queue_` and the identifier of the kind.
    open spec fn view(&self) -> Seq<char> {
        "queue_"@ + self.kind().name()
    }
}

impl From<HistoryEventKind> for QueueKey {
    fn from(event_kind: HistoryEventKind) -> (out: Self) {
        Self { event_kind }
    }
}

impl FromSpecImpl<HistoryEventKind> for QueueKey {
    open spec fn obeys_from_spec() -> bool {
        true
    }

    open spec fn from_spec(event_kind: HistoryEventKind) -> Self {
        QueueKey::of_kind(event_kind)
    }
}

impl QueueKey {
    /// The key of the queue of a kind.
    pub closed spec fn of_kind(event_kind: HistoryEventKind) -> QueueKey {
        QueueKey { event_kind }
    }

    /// The kind whose events the queue holds.
    pub closed spec fn kind(self) -> HistoryEventKind {
        self.event_kind
    }

    /// A key is made of its kind and nothing else.
    pub broadcast proof fn of_kind_kind(event_kind: HistoryEventKind)
        ensures
            #[trigger] QueueKey::of_kind(event_kind).kind() == event_kind,
    {
    }

    /// Two keys of the same kind are the same key.
    pub broadcast proof fn kind_of_kind(key: QueueKey)
        ensures
            QueueKey::of_kind(#[trigger] key.kind()) == key,
    {
    }

    /// The kind whose events the queue holds.
    pub fn event_kind(&self) -> (out: HistoryEventKind)
        ensures
            out == self.kind(),
    {
        self.event_kind
    }

    /// The key as the store sees it.
    pub fn to_string(&self) -> (out: String)
        ensures
            out@ == self@,
    {
        let mut out = String::from_str("queue_");
        out.append(self.event_kind.as_str());
        out
    }

    /// The key of the queue to which an event with this kind identifier
    /// belongs. An identifier that names no kind has no queue.
    pub fn from_str(s: &str) -> (out: Result<QueueKey, UnknownKind>)
        ensures
            match HistoryEventKind::named(s@) {
                Some(kind) => out == Ok::<QueueKey, UnknownKind>(QueueKey::of_kind(kind)),
                None => out is Err && out->Err_0.kind@ == s@,
            },
    {
        match HistoryEventKind::from_str(s) {
            Ok(event_kind) => Ok(QueueKey { event_kind }),
            Err(error) => Err(error),
        }
    }
}

} // verus!
