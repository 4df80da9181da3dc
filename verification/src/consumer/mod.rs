//! The consumer side of the relay: queue keys, the dispatcher, and the
//! handlers that it drives.
//!
//! The dispatcher of a kind reads a batch from the queue of that kind and
//! goes through it from the head, decoding one item after the other. Each
//! entry of the kind is handed to the handler, and leaves the queue only
//! after the handler has succeeded. The dispatcher does none of this itself:
//! each step names what the caller does next, and holds the state that takes
//! the outcome.
use crate::codec::{
    decode_entry, decoding, decoding_inverts_encoding, encodable, encoding, DecodeError,
};
use crate::data::{
    append_of, get_events, pop_from_queue, readable, StoreCommand, StoreCommandView,
};
use crate::types::event::{EntryView, HistoryEventEntry, HistoryEventKind, UnknownKind};
use vstd::prelude::*;

pub mod group_role_change;
pub mod key;

pub use group_role_change::handle_group_role;
pub use key::QueueKey;

verus! {

/// Why a dispatcher stops.
#[derive(Debug, PartialEq, Eq)]
pub enum DispatchError {
    /// An item of the queue is no entry.
    Decode(DecodeError),
    /// An entry names a kind that is not known.
    UnknownKind(UnknownKind),
    /// The handler failed for an entry. The entry stays in the queue.
    Handler,
}

/// What a dispatch error says.
pub enum DispatchErrorView {
    Decode(DecodeError),
    UnknownKind(Seq<char>),
    Handler,
}

impl View for DispatchError {
    type V = DispatchErrorView;

    open spec fn view(&self) -> DispatchErrorView {
        match self {
            DispatchError::Decode(error) => DispatchErrorView::Decode(*error),
            DispatchError::UnknownKind(error) => DispatchErrorView::UnknownKind(error.kind@),
            DispatchError::Handler => DispatchErrorView::Handler,
        }
    }
}

/// The dispatcher of one kind of event, between two batches.
#[derive(Debug, Clone, Copy, PartialEq, Eq, Structural)]
pub struct Dispatcher {
    target_kind: HistoryEventKind,
    limit: u64,
}

/// A batch under way: the items read, and the index of the one at hand.
#[derive(Debug, PartialEq, Eq)]
struct Batch {
    dispatcher: Dispatcher,
    items: Vec<Vec<u8>>,
    next: usize,
}

/// The state that waits for the handler to deal with the entry at hand.
#[derive(Debug, PartialEq, Eq)]
pub struct AwaitHandler {
    batch: Batch,
    entry: HistoryEventEntry,
}

/// The state that waits for the entry at the head of the queue to be
/// removed.
#[derive(Debug, PartialEq, Eq)]
pub struct AwaitPop {
    batch: Batch,
    entry: HistoryEventEntry,
}

/// The state that waits for the caller to take note of an entry of another
/// kind, which is passed over and stays in the queue.
#[derive(Debug, PartialEq, Eq)]
pub struct Mismatch {
    batch: Batch,
    entry: HistoryEventEntry,
}

/// What the caller does next.
#[derive(Debug, PartialEq, Eq)]
pub enum DispatchStep {
    /// The queue is empty: sleep for the configured interval, then read
    /// again.
    Sleep(Dispatcher),
    /// The batch is done: read again.
    Read(Dispatcher),
    /// The entry at hand is of another kind than the dispatcher's: warn, then
    /// [`Mismatch::on_noted`].
    Skip(Mismatch),
    /// Hand the entry to the handler; then [`AwaitHandler::on_handled`].
    Handle(AwaitHandler),
    /// Remove the head of the queue; then [`AwaitPop::on_popped`].
    Pop(AwaitPop),
    /// Stop with the error.
    Failed(DispatchError),
}

/// What a batch under way holds.
pub struct BatchView {
    pub dispatcher: Dispatcher,
    pub items: Seq<Seq<u8>>,
    pub next: int,
}

impl View for Batch {
    type V = BatchView;

    closed spec fn view(&self) -> BatchView {
        BatchView {
            dispatcher: self.dispatcher,
            items: self.items.deep_view(),
            next: self.next as int,
        }
    }
}

impl View for AwaitHandler {
    type V = BatchView;

    closed spec fn view(&self) -> BatchView {
        self.batch@
    }
}

impl View for AwaitPop {
    type V = BatchView;

    closed spec fn view(&self) -> BatchView {
        self.batch@
    }
}

impl View for Mismatch {
    type V = BatchView;

    closed spec fn view(&self) -> BatchView {
        self.batch@
    }
}

/// What a step says.
pub enum DispatchStepView {
    Sleep(Dispatcher),
    Read(Dispatcher),
    Skip(BatchView),
    Handle(BatchView),
    Pop(BatchView),
    Failed(DispatchErrorView),
}

impl View for DispatchStep {
    type V = DispatchStepView;

    open spec fn view(&self) -> DispatchStepView {
        match self {
            DispatchStep::Sleep(dispatcher) => DispatchStepView::Sleep(*dispatcher),
            DispatchStep::Read(dispatcher) => DispatchStepView::Read(*dispatcher),
            DispatchStep::Skip(state) => DispatchStepView::Skip(state@),
            DispatchStep::Handle(state) => DispatchStepView::Handle(state@),
            DispatchStep::Pop(state) => DispatchStepView::Pop(state@),
            DispatchStep::Failed(error) => DispatchStepView::Failed(error@),
        }
    }
}

impl BatchView {
    /// The entry that the item at index `i` holds.
    pub open spec fn entry_at(self, i: int) -> EntryView {
        decoding(self.items[i])->Ok_0
    }

    /// The entry at hand.
    pub open spec fn entry(self) -> EntryView {
        self.entry_at(self.next)
    }

    /// The batch with the item after the one at hand.
    pub open spec fn moved_on(self) -> BatchView {
        BatchView { dispatcher: self.dispatcher, items: self.items, next: self.next + 1 }
    }

    /// The step for the item at hand. Past the last item the batch is done.
    /// An item that is no entry stops the dispatcher, and so does an entry
    /// whose kind is not known. An entry of another kind than the
    /// dispatcher's is passed over; one of the dispatcher's kind goes to the
    /// handler.
    pub open spec fn look(self) -> DispatchStepView {
        if self.next >= self.items.len() {
            DispatchStepView::Read(self.dispatcher)
        } else {
            match decoding(self.items[self.next]) {
                Err(error) => DispatchStepView::Failed(DispatchErrorView::Decode(error)),
                Ok(entry) => match HistoryEventKind::named(entry.kind) {
                    None => DispatchStepView::Failed(DispatchErrorView::UnknownKind(entry.kind)),
                    Some(kind) => if kind != self.dispatcher.kind() {
                        DispatchStepView::Skip(self)
                    } else {
                        DispatchStepView::Handle(self)
                    },
                },
            }
        }
    }

    /// The step after the handler has dealt with the entry at hand: the
    /// entry leaves the queue if, and only if, the handler succeeded.
    pub open spec fn after_handled(self, succeeded: bool) -> DispatchStepView {
        if succeeded {
            DispatchStepView::Pop(self)
        } else {
            DispatchStepView::Failed(DispatchErrorView::Handler)
        }
    }
}

impl Dispatcher {
    /// The kind of event that the dispatcher handles.
    pub closed spec fn kind(self) -> HistoryEventKind {
        self.target_kind
    }

    /// The largest number of entries that the dispatcher reads at once.
    pub closed spec fn batch_size(self) -> u64 {
        self.limit
    }

    /// The queue that the dispatcher drains.
    pub open spec fn queue(self) -> QueueKey {
        QueueKey::of_kind(self.kind())
    }

    #[verifier::type_invariant]
    spec fn can_read(self) -> bool {
        readable(self.limit)
    }

    /// The step after a batch was read: an empty batch has the dispatcher
    /// sleep; else the first item is at hand.
    pub open spec fn after_events(self, items: Seq<Seq<u8>>) -> DispatchStepView {
        if items.len() == 0 {
            DispatchStepView::Sleep(self)
        } else {
            (BatchView { dispatcher: self, items, next: 0 }).look()
        }
    }

    /// A dispatcher for the events of one kind, which reads up to `limit`
    /// entries at once. There is none for a limit that the store cannot be
    /// asked for.
    pub fn new(target_kind: HistoryEventKind, limit: u64) -> (out: Option<Dispatcher>)
        ensures
            readable(limit) <==> out is Some,
            out matches Some(dispatcher) ==> dispatcher.kind() == target_kind
                && dispatcher.batch_size() == limit,
    {
        if limit >= 1 && limit - 1 <= isize::MAX as u64 {
            Some(Dispatcher { target_kind, limit })
        } else {
            None
        }
    }

    /// The queue that the dispatcher drains.
    pub fn key(&self) -> (out: QueueKey)
        ensures
            out == self.queue(),
    {
        QueueKey::from(self.target_kind)
    }

    /// The command that reads the next batch: up to `batch_size` entries from
    /// the head of the queue, which stay where they are.
    pub fn read(&self) -> (out: StoreCommand)
        ensures
            out@ == (StoreCommandView::ReadRange {
                key: self.queue()@,
                start: 0,
                stop: self.batch_size() - 1,
            }),
    {
        proof {
            use_type_invariant(self);
        }
        get_events(self.key(), self.limit).unwrap()
    }

    /// Takes the items that the store returned for [`Dispatcher::read`].
    pub fn on_events(self, items: Vec<Vec<u8>>) -> (out: DispatchStep)
        ensures
            out@ == self.after_events(items.deep_view()),
    {
        if items.len() == 0 {
            DispatchStep::Sleep(self)
        } else {
            Batch { dispatcher: self, items, next: 0 }.look()
        }
    }
}

impl Batch {
    /// The step for the item at hand.
    fn look(self) -> (out: DispatchStep)
        requires
            self.next <= self.items@.len(),
        ensures
            out@ == self@.look(),
    {
        if self.next >= self.items.len() {
            return DispatchStep::Read(self.dispatcher);
        }
        assert(self@.items[self.next as int] == self.items@[self.next as int]@);
        let entry = match decode_entry(self.items[self.next].as_slice()) {
            Err(error) => {
                return DispatchStep::Failed(DispatchError::Decode(error));
            },
            Ok(entry) => entry,
        };
        match HistoryEventKind::from_str(entry.event.kind.as_str()) {
            Err(error) => DispatchStep::Failed(DispatchError::UnknownKind(error)),
            Ok(kind) => {
                if kind != self.dispatcher.target_kind {
                    DispatchStep::Skip(Mismatch { batch: self, entry })
                } else {
                    DispatchStep::Handle(AwaitHandler { batch: self, entry })
                }
            },
        }
    }

    /// The batch with the item after the one at hand.
    fn moved_on(self) -> (out: Batch)
        requires
            self.next < self.items@.len(),
        ensures
            out@ == self@.moved_on(),
            out.next <= out.items@.len(),
    {
        let n = self.items.len();
        Batch { dispatcher: self.dispatcher, items: self.items, next: self.next + 1 }
    }

    /// Whether `entry` is what the item at hand holds.
    spec fn at_hand(self, entry: HistoryEventEntry) -> bool {
        &&& self.next < self.items@.len()
        &&& decoding(self.items.deep_view()[self.next as int]) == Ok::<EntryView, DecodeError>(
            entry@,
        )
    }
}

impl Mismatch {
    #[verifier::type_invariant]
    spec fn at_hand(self) -> bool {
        self.batch.at_hand(self.entry)
    }

    /// The entry that is passed over.
    pub fn entry(&self) -> (out: &HistoryEventEntry)
        ensures
            0 <= self@.next < self@.items.len(),
            decoding(self@.items[self@.next]) is Ok,
            out@ == self@.entry(),
    {
        proof {
            use_type_invariant(self);
        }
        &self.entry
    }

    /// Goes on to the next item. The entry passed over stays in the queue.
    pub fn on_noted(self) -> (out: DispatchStep)
        ensures
            out@ == self@.moved_on().look(),
    {
        proof {
            use_type_invariant(&self);
        }
        self.batch.moved_on().look()
    }
}

impl AwaitHandler {
    #[verifier::type_invariant]
    spec fn at_hand(self) -> bool {
        self.batch.at_hand(self.entry)
    }

    /// The entry that the handler is to deal with.
    pub fn entry(&self) -> (out: &HistoryEventEntry)
        ensures
            0 <= self@.next < self@.items.len(),
            decoding(self@.items[self@.next]) is Ok,
            out@ == self@.entry(),
    {
        proof {
            use_type_invariant(self);
        }
        &self.entry
    }

    /// Takes the outcome of the handler.
    pub fn on_handled(self, succeeded: bool) -> (out: DispatchStep)
        ensures
            out@ == self@.after_handled(succeeded),
    {
        proof {
            use_type_invariant(&self);
        }
        if succeeded {
            DispatchStep::Pop(AwaitPop { batch: self.batch, entry: self.entry })
        } else {
            DispatchStep::Failed(DispatchError::Handler)
        }
    }
}

impl AwaitPop {
    #[verifier::type_invariant]
    spec fn at_hand(self) -> bool {
        self.batch.at_hand(self.entry)
    }

    /// The entry that was handled.
    pub fn entry(&self) -> (out: &HistoryEventEntry)
        ensures
            0 <= self@.next < self@.items.len(),
            decoding(self@.items[self@.next]) is Ok,
            out@ == self@.entry(),
    {
        proof {
            use_type_invariant(self);
        }
        &self.entry
    }

    /// The command that removes one entry from the head of the queue.
    pub fn command(&self) -> (out: StoreCommand)
        ensures
            out@ == (StoreCommandView::PopHead { key: self@.dispatcher.queue()@ }),
    {
        pop_from_queue(self.batch.dispatcher.key())
    }

    /// Goes on to the next item, once the head of the queue is removed.
    pub fn on_popped(self) -> (out: DispatchStep)
        ensures
            out@ == self@.moved_on().look(),
    {
        proof {
            use_type_invariant(&self);
        }
        self.batch.moved_on().look()
    }
}

/// What a dispatcher did with a batch, from some step on.
pub struct Drain {
    /// The indices of the entries that were handed to the handler, in the
    /// order in which they were handed over.
    pub handled: Seq<int>,
    /// The indices of the entries that were passed over.
    pub skipped: Seq<int>,
    /// How many entries were removed from the head of the queue.
    pub popped: int,
    /// The error with which the dispatcher stopped, if it did.
    pub end: Option<DispatchErrorView>,
}

impl DispatchStepView {
    /// How many entries of the batch are still to be looked at.
    pub open spec fn entries_left(self) -> int {
        match self {
            DispatchStepView::Skip(batch)
            | DispatchStepView::Handle(batch)
            | DispatchStepView::Pop(batch) => if batch.next < batch.items.len() {
                batch.items.len() - batch.next
            } else {
                0
            },
            _ => 0,
        }
    }

    /// How many steps the entry at hand can still take.
    pub open spec fn phase(self) -> int {
        match self {
            DispatchStepView::Handle(_) => 2,
            DispatchStepView::Skip(_) | DispatchStepView::Pop(_) => 1,
            _ => 0,
        }
    }

    /// The rest of the batch from this step on, with a handler that succeeds
    /// on the entries for which `handler` holds.
    pub open spec fn drain(self, handler: spec_fn(EntryView) -> bool) -> Drain
        decreases self.entries_left(), self.phase(),
    {
        match self {
            DispatchStepView::Handle(batch) => {
                let rest = batch.after_handled(handler(batch.entry())).drain(handler);
                Drain {
                    handled: seq![batch.next] + rest.handled,
                    skipped: rest.skipped,
                    popped: rest.popped,
                    end: rest.end,
                }
            },
            DispatchStepView::Pop(batch) => {
                let rest = batch.moved_on().look().drain(handler);
                Drain {
                    handled: rest.handled,
                    skipped: rest.skipped,
                    popped: rest.popped + 1,
                    end: rest.end,
                }
            },
            DispatchStepView::Skip(batch) => {
                let rest = batch.moved_on().look().drain(handler);
                Drain {
                    handled: rest.handled,
                    skipped: seq![batch.next] + rest.skipped,
                    popped: rest.popped,
                    end: rest.end,
                }
            },
            DispatchStepView::Failed(error) => Drain {
                handled: Seq::empty(),
                skipped: Seq::empty(),
                popped: 0,
                end: Some(error),
            },
            _ => Drain { handled: Seq::empty(), skipped: Seq::empty(), popped: 0, end: None },
        }
    }
}

/// Whatever the handler does, and whatever the items hold, a batch is gone
/// through from the head: the entries reach the handler in the order of the
/// queue, each at most once;
/// all but the last of them were handled with success, and the last one
/// failed exactly where the dispatcher stops on the handler; and as many
/// entries leave the queue as were handled with success. Where no entry is
/// passed over, the entries handled are those at the head of the batch, one
/// after the other, so each entry that leaves the head of the queue is the
/// one for which the handler has just succeeded.
pub proof fn queue_is_drained_in_order(batch: BatchView, handler: spec_fn(EntryView) -> bool)
    requires
        0 <= batch.next <= batch.items.len(),
    ensures
        ({
            let drain = batch.look().drain(handler);
            let stopped = drain.end == Some(DispatchErrorView::Handler);
            &&& forall|i: int|
                0 <= i < drain.handled.len() ==> batch.next <= #[trigger] drain.handled[i]
                    < batch.items.len()
            &&& forall|i: int, j: int|
                0 <= i < j < drain.handled.len() ==> drain.handled[i] < drain.handled[j]
            &&& forall|i: int|
                0 <= i < drain.handled.len() - 1 ==> handler(
                    batch.entry_at(#[trigger] drain.handled[i]),
                )
            &&& stopped ==> drain.handled.len() > 0 && !handler(
                batch.entry_at(drain.handled.last()),
            )
            &&& !stopped && drain.handled.len() > 0 ==> handler(
                batch.entry_at(drain.handled.last()),
            )
            &&& drain.popped == if stopped {
                drain.handled.len() - 1
            } else {
                drain.handled.len() as int
            }
            &&& drain.skipped.len() == 0 ==> forall|i: int|
                0 <= i < drain.handled.len() ==> #[trigger] drain.handled[i] == batch.next + i
        }),
    decreases batch.items.len() - batch.next,
{
    let step = batch.look();
    let drain = step.drain(handler);
    match step {
        DispatchStepView::Skip(_) => {
            let rest = batch.moved_on().look().drain(handler);
            queue_is_drained_in_order(batch.moved_on(), handler);
            assert(drain.handled == rest.handled);
            assert(drain.skipped == seq![batch.next] + rest.skipped);
        },
        DispatchStepView::Handle(_) => {
            let next = batch.after_handled(handler(batch.entry()));
            assert(drain.handled == seq![batch.next] + next.drain(handler).handled);
            if handler(batch.entry()) {
                let rest = batch.moved_on().look().drain(handler);
                queue_is_drained_in_order(batch.moved_on(), handler);
                assert(next.drain(handler).handled == rest.handled);
                assert(drain.popped == rest.popped + 1);
                assert(drain.end == rest.end);
                assert forall|i: int, j: int| 0 <= i < j < drain.handled.len() implies drain.handled[i]
                    < drain.handled[j] by {
                    assert(drain.handled[j] == rest.handled[j - 1]);
                    if i > 0 {
                        assert(drain.handled[i] == rest.handled[i - 1]);
                    }
                }
                assert forall|i: int| 0 <= i < drain.handled.len() - 1 implies handler(
                    batch.entry_at(#[trigger] drain.handled[i]),
                ) by {
                    if i > 0 {
                        assert(drain.handled[i] == rest.handled[i - 1]);
                    }
                }
                assert forall|i: int| 0 <= i < drain.handled.len() implies batch.next
                    <= #[trigger] drain.handled[i] < batch.items.len() by {
                    if i > 0 {
                        assert(drain.handled[i] == rest.handled[i - 1]);
                    }
                }
                if rest.handled.len() > 0 {
                    assert(drain.handled.last() == rest.handled.last());
                }
                assert(drain.skipped == rest.skipped);
                if drain.skipped.len() == 0 {
                    assert forall|i: int| 0 <= i < drain.handled.len() implies #[trigger] drain.handled[i]
                        == batch.next + i by {
                        if i > 0 {
                            assert(drain.handled[i] == rest.handled[i - 1]);
                        }
                    }
                }
            } else {
                assert(next.drain(handler).handled.len() == 0);
                assert(drain.handled.last() == batch.next);
            }
        },
        _ => {},
    }
}

/// What the producer appends to the queue of a kind reaches the handler of
/// that kind as it was: the dispatcher reads the entry back from the item,
/// with its position, its kind and its payload.
pub proof fn appended_entry_reaches_the_handler(dispatcher: Dispatcher, entry: EntryView)
    requires
        encodable(entry),
        HistoryEventKind::named(entry.kind) == Some(dispatcher.kind()),
    ensures
        append_of(dispatcher.queue(), entry) == (StoreCommandView::Append {
            key: dispatcher.queue()@,
            bytes: encoding(entry),
        }),
        dispatcher.after_events(seq![encoding(entry)]) == DispatchStepView::Handle(
            BatchView { dispatcher, items: seq![encoding(entry)], next: 0 },
        ),
        (BatchView { dispatcher, items: seq![encoding(entry)], next: 0 }).entry()
            == entry,
{
    decoding_inverts_encoding(entry);
}

} // verus!
