//! The producer: where to resume reading the remote log, and what to do with
//! each batch that it hands out.
//!
//! The producer itself never reads or writes. [`Producer::start`] says where
//! to begin and what to store first; [`Producer::on_batch`] takes the batch
//! that the caller fetched from [`Producer::position`] and answers with the
//! commands for the store.
use crate::consumer::key::QueueKey;
use crate::data::{append_of, checkpoint_of, queue_event, set_history_point, StoreCommand, StoreCommandView};
use crate::types::event::{entries_view, EntryView, HistoryEventEntry, HistoryEventKind, UnknownKind};
use vstd::prelude::*;

verus! {

/// The position from which a relay that has never run begins.
pub const INITIAL_HISTORY_POINT: u64 = 1;

/// Whether the relay is still behind the head that the log had at startup. A
/// label for the observer: both modes work alike.
#[derive(Debug, Clone, Copy, PartialEq, Eq, Structural)]
pub enum Mode {
    Catchup,
    Listening,
}

impl Mode {
    /// The label as text.
    pub fn as_str(&self) -> (out: &'static str)
        ensures
            out@ == match self {
                Mode::Catchup => "catchup"@,
                Mode::Listening => "listening"@,
            },
    {
        match self {
            Mode::Catchup => "catchup",
            Mode::Listening => "listening",
        }
    }
}

/// Where to resume, the checkpoint to store before the first fetch, if one
/// has to be stored, and the mode to begin in.
#[derive(Debug, Clone, Copy, PartialEq, Eq, Structural)]
pub struct Resume {
    pub from: u64,
    pub store: Option<u64>,
    pub mode: Mode,
}

/// The point to resume from, given the head of the log and the checkpoint
/// found in the store. Without a checkpoint the relay begins at the initial
/// position, stores it, and catches up. With the checkpoint at the head it
/// listens from there; with the checkpoint anywhere else it catches up from
/// the checkpoint.
pub open spec fn resume_point(actual: u64, last: Option<u64>) -> Resume {
    match last {
        None => Resume {
            from: INITIAL_HISTORY_POINT,
            store: Some(INITIAL_HISTORY_POINT),
            mode: Mode::Catchup,
        },
        Some(last) => Resume {
            from: last,
            store: None,
            mode: if last == actual {
                Mode::Listening
            } else {
                Mode::Catchup
            },
        },
    }
}

/// Decides where to resume reading the log.
pub fn get_last_history_point(actual: u64, last: Option<u64>) -> (out: Resume)
    ensures
        out == resume_point(actual, last),
{
    match last {
        Some(last) => {
            if last == actual {
                Resume { from: actual, store: None, mode: Mode::Listening }
            } else {
                Resume { from: last, store: None, mode: Mode::Catchup }
            }
        },
        None => Resume {
            from: INITIAL_HISTORY_POINT,
            store: Some(INITIAL_HISTORY_POINT),
            mode: Mode::Catchup,
        },
    }
}

/// Why the producer gives up.
#[derive(Debug, PartialEq, Eq)]
pub enum ProducerError {
    /// An entry names a kind for which there is no queue.
    UnknownKind(UnknownKind),
    /// The last entry stands at the highest position there is: no checkpoint
    /// can follow it.
    PositionOverflow,
}

/// What a producer error says.
pub enum ProducerErrorView {
    UnknownKind(Seq<char>),
    PositionOverflow,
}

impl View for ProducerError {
    type V = ProducerErrorView;

    open spec fn view(&self) -> ProducerErrorView {
        match self {
            ProducerError::UnknownKind(error) => ProducerErrorView::UnknownKind(error.kind@),
            ProducerError::PositionOverflow => ProducerErrorView::PositionOverflow,
        }
    }
}

/// What the caller does after a batch.
#[derive(Debug, PartialEq, Eq)]
pub enum ProducerStep {
    /// The batch was empty: sleep for the configured interval, then fetch
    /// again from the same position.
    Wait,
    /// Carry out the commands in order, then fetch again. The last command
    /// stores the new checkpoint; the others append the entries of the batch
    /// to their queues.
    Store { commands: Vec<StoreCommand> },
    /// Carry out the commands in order, then stop with the error. No
    /// checkpoint is stored.
    Abort { commands: Vec<StoreCommand>, error: ProducerError },
}

/// What a step says.
pub enum ProducerStepView {
    Wait,
    Store { commands: Seq<StoreCommandView> },
    Abort { commands: Seq<StoreCommandView>, error: ProducerErrorView },
}

/// The views of a list of commands, in order.
pub open spec fn commands_view(commands: Seq<StoreCommand>) -> Seq<StoreCommandView> {
    commands.map_values(|c: StoreCommand| c@)
}

impl View for ProducerStep {
    type V = ProducerStepView;

    open spec fn view(&self) -> ProducerStepView {
        match self {
            ProducerStep::Wait => ProducerStepView::Wait,
            ProducerStep::Store { commands } => ProducerStepView::Store {
                commands: commands_view(commands@),
            },
            ProducerStep::Abort { commands, error } => ProducerStepView::Abort {
                commands: commands_view(commands@),
                error: error@,
            },
        }
    }
}

/// Whether there is a queue for the entry.
pub open spec fn routable(entry: EntryView) -> bool {
    HistoryEventKind::named(entry.kind) is Some
}

/// The command that appends an entry to the queue of its kind.
pub open spec fn routed(entry: EntryView) -> StoreCommandView {
    append_of(QueueKey::of_kind(HistoryEventKind::named(entry.kind)->Some_0), entry)
}

/// The number of entries at the head of the batch for which there is a queue.
pub open spec fn routable_prefix(batch: Seq<EntryView>) -> int
    decreases batch.len(),
{
    if batch.len() == 0 || !routable(batch[0]) {
        0
    } else {
        1 + routable_prefix(batch.drop_first())
    }
}

/// The routable prefix ends at the first entry without a queue, or with the
/// batch; and only there.
pub proof fn routable_prefix_is_first_stop(batch: Seq<EntryView>, n: int)
    ensures
        0 <= routable_prefix(batch) <= batch.len(),
        forall|i: int| 0 <= i < routable_prefix(batch) ==> routable(#[trigger] batch[i]),
        routable_prefix(batch) < batch.len() ==> !routable(batch[routable_prefix(batch)]),
        ({
            &&& 0 <= n <= batch.len()
            &&& forall|i: int| 0 <= i < n ==> routable(#[trigger] batch[i])
            &&& n < batch.len() ==> !routable(batch[n])
        }) ==> n == routable_prefix(batch),
    decreases batch.len(),
{
    if batch.len() == 0 || !routable(batch[0]) {
    } else {
        let rest = batch.drop_first();
        routable_prefix_is_first_stop(rest, n - 1);
        assert(forall|i: int| 0 <= i < rest.len() ==> rest[i] == batch[i + 1]);
        assert forall|i: int| 0 <= i < routable_prefix(batch) implies routable(
            #[trigger] batch[i],
        ) by {
            if i > 0 {
                assert(routable(rest[i - 1]));
            }
        }
        if 0 <= n <= batch.len() && (forall|i: int| 0 <= i < n ==> routable(#[trigger] batch[i]))
            && (n < batch.len() ==> !routable(batch[n])) {
            assert(n > 0);
            assert forall|i: int| 0 <= i < n - 1 implies routable(#[trigger] rest[i]) by {
                assert(routable(batch[i + 1]));
            }
        }
    }
}

/// The highest position in a batch; 0 where the batch is empty.
pub open spec fn max_position(batch: Seq<EntryView>) -> int
    decreases batch.len(),
{
    if batch.len() == 0 {
        0
    } else if batch.last().position >= max_position(batch.drop_last()) {
        batch.last().position as int
    } else {
        max_position(batch.drop_last())
    }
}

/// No entry of a batch stands above its highest position, and one stands at it.
pub proof fn max_position_bounds(batch: Seq<EntryView>)
    ensures
        forall|i: int| 0 <= i < batch.len() ==> (#[trigger] batch[i]).position <= max_position(batch),
        batch.len() > 0 ==> exists|i: int|
            0 <= i < batch.len() && (#[trigger] batch[i]).position == max_position(batch),
    decreases batch.len(),
{
    if batch.len() > 0 {
        let front = batch.drop_last();
        max_position_bounds(front);
        assert(forall|i: int| 0 <= i < front.len() ==> front[i] == batch[i]);
        if batch.last().position >= max_position(front) {
            assert(batch[batch.len() - 1].position == max_position(batch));
        } else {
            let i = choose|i: int|
                0 <= i < front.len() && (#[trigger] front[i]).position == max_position(front);
            assert(batch[i].position == max_position(batch));
        }
    }
}

/// The state of the producer between two fetches.
#[derive(Debug, Clone, Copy, PartialEq, Eq, Structural)]
pub struct Producer {
    /// The next position to fetch: the checkpoint.
    pub position: u64,
    /// The head of the log when the producer started.
    pub actual: u64,
    /// Whether the producer has reached that head.
    pub mode: Mode,
}

impl Producer {
    /// The producer at startup, and the checkpoint to store before the first
    /// fetch. With `skip_catchup` the producer begins at the head of the log,
    /// stores that, and listens; without it the producer resumes as
    /// [`resume_point`] says.
    pub open spec fn boot(last: Option<u64>, actual: u64, skip_catchup: bool) -> (Producer, Option<u64>) {
        let resume = if skip_catchup {
            Resume { from: actual, store: Some(actual), mode: Mode::Listening }
        } else {
            resume_point(actual, last)
        };
        (Producer { position: resume.from, actual, mode: resume.mode }, resume.store)
    }

    /// The producer after a batch, and what the caller is to do with it.
    ///
    /// An empty batch changes nothing. Else the entries are appended to the
    /// queues of their kinds, in the order of the batch, and the checkpoint
    /// moves to the position after that of the last entry, once for the whole
    /// batch. An entry without a queue stops the producer: what came before
    /// it is appended, the checkpoint stays. The mode turns to listening once
    /// the checkpoint has reached the head recorded at startup.
    pub open spec fn after_batch(self, batch: Seq<EntryView>) -> (Producer, ProducerStepView) {
        let stop = routable_prefix(batch);
        if batch.len() == 0 {
            (self, ProducerStepView::Wait)
        } else if stop < batch.len() {
            (
                self,
                ProducerStepView::Abort {
                    commands: batch.take(stop).map_values(|e: EntryView| routed(e)),
                    error: ProducerErrorView::UnknownKind(batch[stop].kind),
                },
            )
        } else if batch.last().position == u64::MAX {
            (
                self,
                ProducerStepView::Abort {
                    commands: batch.map_values(|e: EntryView| routed(e)),
                    error: ProducerErrorView::PositionOverflow,
                },
            )
        } else {
            let checkpoint = (batch.last().position + 1) as u64;
            (
                Producer {
                    position: checkpoint,
                    actual: self.actual,
                    mode: if checkpoint >= self.actual {
                        Mode::Listening
                    } else {
                        self.mode
                    },
                },
                ProducerStepView::Store {
                    commands: batch.map_values(|e: EntryView| routed(e)).push(
                        checkpoint_of(checkpoint),
                    ),
                },
            )
        }
    }

    /// Starts the producer from the checkpoint found in the store, if any,
    /// and the head of the remote log. The second result is the command to
    /// carry out before the first fetch.
    pub fn start(last: Option<u64>, actual: u64, skip_catchup: bool) -> (out: (
        Producer,
        Option<StoreCommand>,
    ))
        ensures
            out.0 == Producer::boot(last, actual, skip_catchup).0,
            match Producer::boot(last, actual, skip_catchup).1 {
                Some(point) => out.1 is Some && out.1->Some_0@ == checkpoint_of(point),
                None => out.1 is None,
            },
    {
        let resume = if skip_catchup {
            Resume { from: actual, store: Some(actual), mode: Mode::Listening }
        } else {
            get_last_history_point(actual, last)
        };
        let command = match resume.store {
            Some(point) => Some(set_history_point(point)),
            None => None,
        };
        (Producer { position: resume.from, actual, mode: resume.mode }, command)
    }

    /// Takes the batch that the log returned for `self.position`.
    pub fn on_batch(self, batch: &Vec<HistoryEventEntry>) -> (out: (Producer, ProducerStep))
        ensures
            out.0 == self.after_batch(entries_view(batch@)).0,
            out.1@ == self.after_batch(entries_view(batch@)).1,
    {
        let ghost entries = entries_view(batch@);
        if batch.len() == 0 {
            return (self, ProducerStep::Wait);
        }
        let mut commands: Vec<StoreCommand> = Vec::new();
        let mut i: usize = 0;
        while i < batch.len()
            invariant
                i <= batch@.len(),
                entries == entries_view(batch@),
                forall|j: int| 0 <= j < i ==> routable(#[trigger] entries[j]),
                commands_view(commands@) =~= entries.take(i as int).map_values(
                    |e: EntryView| routed(e),
                ),
            decreases batch@.len() - i,
        {
            let entry = &batch[i];
            assert(entry@ == entries[i as int]);
            match QueueKey::from_str(entry.event.kind.as_str()) {
                Err(error) => {
                    proof {
                        routable_prefix_is_first_stop(entries, i as int);
                    }
                    return (
                        self,
                        ProducerStep::Abort { commands, error: ProducerError::UnknownKind(error) },
                    );
                },
                Ok(key) => {
                    let command = queue_event(key, entry);
                    proof {
                        assert(entries.take(i + 1) =~= entries.take(i as int).push(
                            entries[i as int],
                        ));
                        assert(commands_view(commands@.push(command)) =~= commands_view(
                            commands@,
                        ).push(command@));
                    }
                    commands.push(command);
                },
            }
            i += 1;
        }
        proof {
            routable_prefix_is_first_stop(entries, i as int);
            assert(entries.take(i as int) =~= entries);
        }
        let last = batch[batch.len() - 1].position;
        assert(last == entries.last().position);
        if last == u64::MAX {
            return (self, ProducerStep::Abort { commands, error: ProducerError::PositionOverflow });
        }
        let checkpoint = last + 1;
        let command = set_history_point(checkpoint);
        proof {
            assert(commands_view(commands@.push(command)) =~= commands_view(commands@).push(
                command@,
            ));
        }
        commands.push(command);
        let mode = if checkpoint >= self.actual {
            Mode::Listening
        } else {
            self.mode
        };
        (Producer { position: checkpoint, actual: self.actual, mode }, ProducerStep::Store { commands })
    }
}

/// After a batch that ends with its highest position, holds no entry without
/// a queue and leaves room for a checkpoint behind it, the checkpoint is one
/// more than the highest position of the batch; and where that is no less
/// than the checkpoint before, the checkpoint has not gone back. A batch that
/// the log returns in order, for the position asked, is of that kind.
pub proof fn checkpoint_follows_batch(producer: Producer, batch: Seq<EntryView>)
    requires
        batch.len() > 0,
        routable_prefix(batch) == batch.len(),
        batch.last().position == max_position(batch),
        max_position(batch) < u64::MAX,
        producer.position <= max_position(batch) + 1,
    ensures
        producer.after_batch(batch).0.position == max_position(batch) + 1,
        producer.after_batch(batch).0.position >= producer.position,
        producer.after_batch(batch).1 is Store,
        producer.after_batch(batch).1->Store_commands.last() == checkpoint_of(
            producer.after_batch(batch).0.position,
        ),
{
}

impl Producer {
    /// The producer after a run of batches, each fetched after the one
    /// before was dealt with.
    pub open spec fn after_batches(self, batches: Seq<Seq<EntryView>>) -> Producer
        decreases batches.len(),
    {
        if batches.len() == 0 {
            self
        } else {
            self.after_batches(batches.drop_last()).after_batch(batches.last()).0
        }
    }

    /// Whether a batch ends no more than one position behind the checkpoint:
    /// the log answered for the position it was asked for, or a later one.
    pub open spec fn is_answered_by(self, batch: Seq<EntryView>) -> bool {
        batch.len() > 0 ==> self.position <= batch.last().position + 1
    }
}

/// Over a run of batches, each of which the log returned for the checkpoint
/// of its time, the checkpoint never goes back: at every point of the run it
/// is at least what it was at any earlier point.
pub proof fn checkpoint_never_decreases(producer: Producer, batches: Seq<Seq<EntryView>>, n: int)
    requires
        0 <= n <= batches.len(),
        forall|i: int|
            0 <= i < batches.len() ==> producer.after_batches(#[trigger] batches.take(i)).is_answered_by(
                batches[i],
            ),
    ensures
        producer.after_batches(batches.take(n)).position <= producer.after_batches(batches).position,
    decreases batches.len() - n,
{
    if n == batches.len() {
        assert(batches.take(n) =~= batches);
    } else {
        let before = producer.after_batches(batches.take(n));
        assert(batches.take(n + 1).drop_last() =~= batches.take(n));
        assert(batches.take(n + 1).last() == batches[n]);
        assert(before.is_answered_by(batches[n]));
        assert(producer.after_batches(batches.take(n + 1)) == before.after_batch(batches[n]).0);
        checkpoint_never_decreases(producer, batches, n + 1);
    }
}

/// Whatever the batch, the producer keeps the head recorded at startup,
/// never falls back from listening to catchup, listens wherever a new
/// checkpoint has reached that head, and stays as it was unless a checkpoint
/// is stored.
pub proof fn producer_keeps_course(producer: Producer, batch: Seq<EntryView>)
    ensures
        producer.after_batch(batch).0.actual == producer.actual,
        producer.mode == Mode::Listening ==> producer.after_batch(batch).0.mode == Mode::Listening,
        producer.after_batch(batch).1 is Store && producer.after_batch(batch).0.position
            >= producer.actual ==> producer.after_batch(batch).0.mode == Mode::Listening,
        !(producer.after_batch(batch).1 is Store) ==> producer.after_batch(batch).0 == producer,
{
}

} // verus!
