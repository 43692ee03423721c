//! The traffic task: bytes from the server go to the decoding task, messages go to the server.

use crate::client::decoding::SendOutcome;
use crate::types::ClientMsg;
use vstd::prelude::*;

verus! {

/// How many bytes the task reads from the transport at once, at most.
pub const READ_SIZE: usize = 65535;

/// What the task is waiting for.
#[derive(Debug, Clone, Copy, PartialEq, Eq, Structural)]
pub enum TrafficPhase {
    /// Bytes are offered to the decoding task: just read ones, or ones that it had no room for.
    Offering { fresh: bool },
    /// Whatever comes first: the stop signal, bytes of the server, or a message to it.
    Selecting,
    /// A message is being written.
    Writing,
    /// The decoding task is being told that no bytes will come.
    Notifying,
    /// The task is over.
    Finished,
}

/// Where the task stands, and the bytes that it has read and not got rid of.
#[derive(Debug)]
pub struct Traffic {
    phase: TrafficPhase,
    pending: Vec<u8>,
}

/// The meaning of a [`Traffic`].
pub ghost struct TrafficView {
    pub phase: TrafficPhase,
    pub pending: Seq<u8>,
}

impl View for Traffic {
    type V = TrafficView;

    closed spec fn view(&self) -> TrafficView {
        TrafficView { phase: self.phase, pending: self.pending@ }
    }
}

/// What the task is to do. `E` is the error of a write.
#[derive(Debug)]
pub enum TrafficAction<E> {
    /// Offer these bytes to the decoding task, without waiting.
    Offer(Vec<u8>),
    /// Wait for the stop signal and for messages to the server, and, where `reading`, for bytes of
    /// the server.
    Select { reading: bool },
    /// Write this message to the server.
    Write(ClientMsg),
    /// Tell the decoding task that the transport has ended.
    NotifyEof,
    /// End.
    Finish,
    /// End with this error of a write.
    Fail(E),
}

/// The meaning of a [`TrafficAction`].
pub ghost enum TrafficActionView<E> {
    Offer(Seq<u8>),
    Select { reading: bool },
    Write(ClientMsg),
    NotifyEof,
    Finish,
    Fail(E),
}

impl<E> View for TrafficAction<E> {
    type V = TrafficActionView<E>;

    open spec fn view(&self) -> TrafficActionView<E> {
        match *self {
            TrafficAction::Offer(bytes) => TrafficActionView::Offer(bytes@),
            TrafficAction::Select { reading } => TrafficActionView::Select { reading },
            TrafficAction::Write(msg) => TrafficActionView::Write(msg),
            TrafficAction::NotifyEof => TrafficActionView::NotifyEof,
            TrafficAction::Finish => TrafficActionView::Finish,
            TrafficAction::Fail(error) => TrafficActionView::Fail(error),
        }
    }
}

/// What has come of it.
#[derive(Debug)]
pub enum TrafficEvent<E> {
    Offered(SendOutcome),
    /// The stop signal has come, or its sender is gone.
    Stopped,
    /// These bytes of the server; none at the end of the transport.
    Read(Vec<u8>),
    ReadFailed,
    /// A message to the server.
    Input(ClientMsg),
    Written,
    WriteFailed(E),
    /// The decoding task is told, or gone.
    Notified,
}

/// The meaning of a [`TrafficEvent`].
pub ghost enum TrafficEventView<E> {
    Offered(SendOutcome),
    Stopped,
    Read(Seq<u8>),
    ReadFailed,
    Input(ClientMsg),
    Written,
    WriteFailed(E),
    Notified,
}

impl<E> View for TrafficEvent<E> {
    type V = TrafficEventView<E>;

    open spec fn view(&self) -> TrafficEventView<E> {
        match *self {
            TrafficEvent::Offered(outcome) => TrafficEventView::Offered(outcome),
            TrafficEvent::Stopped => TrafficEventView::Stopped,
            TrafficEvent::Read(bytes) => TrafficEventView::Read(bytes@),
            TrafficEvent::ReadFailed => TrafficEventView::ReadFailed,
            TrafficEvent::Input(msg) => TrafficEventView::Input(msg),
            TrafficEvent::Written => TrafficEventView::Written,
            TrafficEvent::WriteFailed(error) => TrafficEventView::WriteFailed(error),
            TrafficEvent::Notified => TrafficEventView::Notified,
        }
    }
}

/// Whether `event` can come of what the task was told to do last. While the decoding task has
/// no room, nothing is read.
pub open spec fn traffic_expects<E>(state: TrafficView, event: TrafficEventView<E>) -> bool {
    match state.phase {
        TrafficPhase::Offering { fresh } => event is Offered,
        TrafficPhase::Selecting => {
            ||| event is Stopped
            ||| event is Input
            ||| (event is Read || event is ReadFailed) && state.pending.len() == 0
        },
        TrafficPhase::Writing => event is Written || event is WriteFailed,
        TrafficPhase::Notifying => event is Notified,
        TrafficPhase::Finished => false,
    }
}

/// The task in `phase`, with the bytes `pending`.
pub open spec fn traffic_in(phase: TrafficPhase, pending: Seq<u8>) -> TrafficView {
    TrafficView { phase, pending }
}

/// How a round of the task begins: pending bytes are offered again.
pub open spec fn traffic_round<E>(pending: Seq<u8>) -> (TrafficView, TrafficActionView<E>) {
    if pending.len() > 0 {
        (
            traffic_in(TrafficPhase::Offering { fresh: false }, pending),
            TrafficActionView::Offer(pending),
        )
    } else {
        (
            traffic_in(TrafficPhase::Selecting, pending),
            TrafficActionView::Select { reading: true },
        )
    }
}

/// How the task breaks off.
pub open spec fn traffic_break<E>(pending: Seq<u8>) -> (TrafficView, TrafficActionView<E>) {
    (traffic_in(TrafficPhase::Notifying, pending), TrafficActionView::NotifyEof)
}

/// How the task goes on when `event` has come.
pub open spec fn traffic_step<E>(state: TrafficView, event: TrafficEventView<E>) -> (
    TrafficView,
    TrafficActionView<E>,
) {
    let pending = state.pending;
    match (state.phase, event) {
        (TrafficPhase::Offering { fresh }, TrafficEventView::Offered(SendOutcome::Sent)) => (
            traffic_in(TrafficPhase::Selecting, Seq::empty()),
            TrafficActionView::Select { reading: true },
        ),
        (TrafficPhase::Offering { fresh }, TrafficEventView::Offered(SendOutcome::Full)) => {
            if fresh {
                traffic_round(pending)
            } else {
                (
                    traffic_in(TrafficPhase::Selecting, pending),
                    TrafficActionView::Select { reading: false },
                )
            }
        },
        (TrafficPhase::Selecting, TrafficEventView::Read(bytes)) => {
            if bytes.len() > 0 {
                (
                    traffic_in(TrafficPhase::Offering { fresh: true }, bytes),
                    TrafficActionView::Offer(bytes),
                )
            } else {
                traffic_break(pending)
            }
        },
        (TrafficPhase::Selecting, TrafficEventView::Input(msg)) => (
            traffic_in(TrafficPhase::Writing, pending),
            TrafficActionView::Write(msg),
        ),
        (TrafficPhase::Writing, TrafficEventView::Written) => traffic_round(pending),
        (TrafficPhase::Writing, TrafficEventView::WriteFailed(error)) => (
            traffic_in(TrafficPhase::Finished, pending),
            TrafficActionView::Fail(error),
        ),
        (TrafficPhase::Notifying, TrafficEventView::Notified) => (
            traffic_in(TrafficPhase::Finished, pending),
            TrafficActionView::Finish,
        ),
        _ => traffic_break(pending),
    }
}

impl Traffic {
    /// The start of the task.
    pub fn start<E>() -> (step: (Traffic, TrafficAction<E>))
        ensures
            (step.0@, step.1@) == traffic_round::<E>(Seq::empty()),
    {
        let pending: Vec<u8> = Vec::new();
        Traffic::round(pending)
    }

    /// Begins a round.
    fn round<E>(pending: Vec<u8>) -> (step: (Traffic, TrafficAction<E>))
        ensures
            (step.0@, step.1@) == traffic_round::<E>(pending@),
    {
        if pending.len() > 0 {
            let bytes = pending.clone();
            assert(bytes@ =~= pending@);
            (
                Traffic { phase: TrafficPhase::Offering { fresh: false }, pending },
                TrafficAction::Offer(bytes),
            )
        } else {
            (
                Traffic { phase: TrafficPhase::Selecting, pending },
                TrafficAction::Select { reading: true },
            )
        }
    }

    /// Breaks off.
    fn break_off<E>(pending: Vec<u8>) -> (step: (Traffic, TrafficAction<E>))
        ensures
            (step.0@, step.1@) == traffic_break::<E>(pending@),
    {
        (Traffic { phase: TrafficPhase::Notifying, pending }, TrafficAction::NotifyEof)
    }

    /// Takes the task one step further.
    pub fn step<E>(self, event: TrafficEvent<E>) -> (step: (Traffic, TrafficAction<E>))
        requires
            traffic_expects(self@, event@),
        ensures
            (step.0@, step.1@) == traffic_step(self@, event@),
    {
        let Traffic { phase, pending } = self;
        match (phase, event) {
            (TrafficPhase::Offering { fresh: _ }, TrafficEvent::Offered(SendOutcome::Sent)) => {
                let pending: Vec<u8> = Vec::new();
                (
                    Traffic { phase: TrafficPhase::Selecting, pending },
                    TrafficAction::Select { reading: true },
                )
            },
            (TrafficPhase::Offering { fresh }, TrafficEvent::Offered(SendOutcome::Full)) => {
                if fresh {
                    Traffic::round(pending)
                } else {
                    (
                        Traffic { phase: TrafficPhase::Selecting, pending },
                        TrafficAction::Select { reading: false },
                    )
                }
            },
            (TrafficPhase::Selecting, TrafficEvent::Read(bytes)) => {
                if bytes.len() > 0 {
                    let offered = bytes.clone();
                    assert(offered@ =~= bytes@);
                    (
                        Traffic { phase: TrafficPhase::Offering { fresh: true }, pending: bytes },
                        TrafficAction::Offer(offered),
                    )
                } else {
                    Traffic::break_off(pending)
                }
            },
            (TrafficPhase::Selecting, TrafficEvent::Input(msg)) => {
                (Traffic { phase: TrafficPhase::Writing, pending }, TrafficAction::Write(msg))
            },
            (TrafficPhase::Writing, TrafficEvent::Written) => Traffic::round(pending),
            (TrafficPhase::Writing, TrafficEvent::WriteFailed(error)) => {
                (Traffic { phase: TrafficPhase::Finished, pending }, TrafficAction::Fail(error))
            },
            (TrafficPhase::Notifying, TrafficEvent::Notified) => {
                (Traffic { phase: TrafficPhase::Finished, pending }, TrafficAction::Finish)
            },
            _ => Traffic::break_off(pending),
        }
    }
}

/// Whether `event` tells what has come of `action`.
pub open spec fn traffic_answers<E>(
    action: TrafficActionView<E>,
    event: TrafficEventView<E>,
) -> bool {
    match action {
        TrafficActionView::Offer(_) => event is Offered,
        TrafficActionView::Select { reading } => {
            ||| event is Stopped
            ||| event is Input
            ||| reading && (event is Read || event is ReadFailed)
        },
        TrafficActionView::Write(_) => event is Written || event is WriteFailed,
        TrafficActionView::NotifyEof => event is Notified,
        TrafficActionView::Finish => false,
        TrafficActionView::Fail(_) => false,
    }
}

/// Whoever does what the task says can take it one step further with what has come of it, until
/// it ends.
pub proof fn traffic_can_go_on<E>(
    state: TrafficView,
    event: TrafficEventView<E>,
    answer: TrafficEventView<E>,
)
    requires
        traffic_expects(state, event),
    ensures
        traffic_answers(traffic_step(state, event).1, answer) ==> traffic_expects(
            traffic_step(state, event).0,
            answer,
        ),
        traffic_step(state, event).0.phase is Finished <==> (traffic_step(state, event).1 is Finish
            || traffic_step(state, event).1 is Fail),
{
}

/// Whether each of `events` can come of what the task was told to do before it.
pub open spec fn traffic_accepts<E>(state: TrafficView, events: Seq<TrafficEventView<E>>) -> bool
    decreases events.len(),
{
    events.len() > 0 ==> {
        &&& traffic_expects(state, events[0])
        &&& traffic_accepts(traffic_step(state, events[0]).0, events.drop_first())
    }
}

/// Where a run of the task over `events` ends.
pub open spec fn traffic_run<E>(state: TrafficView, events: Seq<TrafficEventView<E>>) -> TrafficView
    decreases events.len(),
{
    if events.len() == 0 {
        state
    } else {
        traffic_run(traffic_step(state, events[0]).0, events.drop_first())
    }
}

/// All bytes that came from the server in a run.
pub open spec fn bytes_read<E>(events: Seq<TrafficEventView<E>>) -> Seq<u8>
    decreases events.len(),
{
    if events.len() == 0 {
        Seq::empty()
    } else {
        let rest = bytes_read(events.drop_first());
        match events[0] {
            TrafficEventView::Read(bytes) => bytes + rest,
            _ => rest,
        }
    }
}

/// All bytes that the decoding task took in a run, from what it was offered.
pub open spec fn bytes_taken<E>(state: TrafficView, events: Seq<TrafficEventView<E>>) -> Seq<u8>
    decreases events.len(),
{
    if events.len() == 0 {
        Seq::empty()
    } else {
        let rest = bytes_taken(traffic_step(state, events[0]).0, events.drop_first());
        if events[0] == TrafficEventView::<E>::Offered(SendOutcome::Sent) {
            state.pending + rest
        } else {
            rest
        }
    }
}

/// The decoding task gets the bytes of the server in their order, none twice and none left out:
/// what it has taken and what is still pending are together what was read.
pub proof fn bytes_are_passed_on_in_order<E>(state: TrafficView, events: Seq<TrafficEventView<E>>)
    requires
        traffic_accepts(state, events),
    ensures
        bytes_taken(state, events) + traffic_run(state, events).pending == state.pending
            + bytes_read(events),
    decreases events.len(),
{
    if events.len() > 0 {
        let next = traffic_step(state, events[0]).0;
        bytes_are_passed_on_in_order(next, events.drop_first());
        let rest_taken = bytes_taken(next, events.drop_first());
        let rest_read = bytes_read(events.drop_first());
        let last = traffic_run(state, events).pending;
        assert(rest_taken + last == next.pending + rest_read);
        match events[0] {
            TrafficEventView::Offered(SendOutcome::Sent) => {
                assert(next.pending + rest_read =~= rest_read);
                assert((state.pending + rest_taken) + last =~= state.pending + (rest_taken
                    + last));
            },
            TrafficEventView::Read(bytes) => {
                assert(next.pending + rest_read =~= state.pending + (bytes + rest_read));
            },
            _ => {},
        }
    } else {
        assert(bytes_taken(state, events) + state.pending =~= state.pending + bytes_read(events));
    }
}

/// The messages that came from the user in a run, in their order.
pub open spec fn messages_taken<E>(events: Seq<TrafficEventView<E>>) -> Seq<ClientMsg>
    decreases events.len(),
{
    if events.len() == 0 {
        Seq::empty()
    } else {
        let rest = messages_taken(events.drop_first());
        match events[0] {
            TrafficEventView::Input(msg) => seq![msg] + rest,
            _ => rest,
        }
    }
}

/// The messages that are written to the server in a run, in their order.
pub open spec fn messages_written<E>(
    state: TrafficView,
    events: Seq<TrafficEventView<E>>,
) -> Seq<ClientMsg>
    decreases events.len(),
{
    if events.len() == 0 {
        Seq::empty()
    } else {
        let (next, action) = traffic_step(state, events[0]);
        let rest = messages_written(next, events.drop_first());
        match action {
            TrafficActionView::Write(msg) => seq![msg] + rest,
            _ => rest,
        }
    }
}

/// The messages of the user are written to the server as they are and in their order, none twice
/// and none left out.
pub proof fn messages_are_written_unchanged<E>(
    state: TrafficView,
    events: Seq<TrafficEventView<E>>,
)
    requires
        traffic_accepts(state, events),
    ensures
        messages_written(state, events) == messages_taken(events),
    decreases events.len(),
{
    if events.len() > 0 {
        messages_are_written_unchanged(traffic_step(state, events[0]).0, events.drop_first());
    }
}

/// The task breaks off just where it is stopped, the transport ends or fails, or the decoding task
/// is gone; in particular a queue that is full for a while does not end it.
pub proof fn when_traffic_breaks_off<E>(state: TrafficView, event: TrafficEventView<E>)
    requires
        traffic_expects(state, event),
    ensures
        traffic_step(state, event).1 is NotifyEof <==> (event is Stopped || event is ReadFailed
            || (event matches TrafficEventView::Read(bytes) && bytes.len() == 0) || event
            == TrafficEventView::<E>::Offered(SendOutcome::Closed)),
        traffic_step(state, event).1 is Finish <==> event is Notified,
        traffic_step(state, event).1 is Fail <==> event is WriteFailed,
{
}

/// Bytes just read are offered at once as they are; where there is no room they are kept and
/// offered again, before the task waits and after every message. The task reads just where it
/// keeps none.
pub proof fn how_bytes_are_offered<E>(
    state: TrafficView,
    event: TrafficEventView<E>,
    next: TrafficView,
    action: TrafficActionView<E>,
)
    requires
        traffic_expects(state, event),
        (next, action) == traffic_step(state, event),
    ensures
        event matches TrafficEventView::Read(bytes) ==> (bytes.len() > 0 ==> action
            == TrafficActionView::<E>::Offer(bytes) && next.pending == bytes),
        event == TrafficEventView::<E>::Offered(SendOutcome::Full) ==> next.pending
            == state.pending,
        event == TrafficEventView::<E>::Offered(SendOutcome::Full) && state.pending.len() > 0
            && state.phase == (TrafficPhase::Offering { fresh: true }) ==> action
            == TrafficActionView::<E>::Offer(state.pending),
        event == TrafficEventView::<E>::Offered(SendOutcome::Full) && state.phase == (
        TrafficPhase::Offering { fresh: false }) ==> action == (TrafficActionView::<E>::Select {
            reading: false,
        }),
        event == TrafficEventView::<E>::Offered(SendOutcome::Sent) ==> next.pending.len() == 0
            && action == (TrafficActionView::<E>::Select { reading: true }),
        event is Written && state.pending.len() > 0 ==> action == TrafficActionView::<E>::Offer(
            state.pending,
        ),
        event is Written && state.pending.len() == 0 ==> action == (
        TrafficActionView::<E>::Select { reading: true }),
        event matches TrafficEventView::Input(msg) ==> action == TrafficActionView::<E>::Write(msg)
            && next.pending == state.pending,
{
}

/// The chunks that are offered to the decoding task in a run, each as often as it is offered.
pub open spec fn chunks_offered<E>(
    state: TrafficView,
    events: Seq<TrafficEventView<E>>,
) -> Seq<Seq<u8>>
    decreases events.len(),
{
    if events.len() == 0 {
        Seq::empty()
    } else {
        let (next, action) = traffic_step(state, events[0]);
        let rest = chunks_offered(next, events.drop_first());
        match action {
            TrafficActionView::Offer(bytes) => seq![bytes] + rest,
            _ => rest,
        }
    }
}

/// Whether every read among `events` fits into the buffer of the task.
pub open spec fn reads_fit<E>(events: Seq<TrafficEventView<E>>) -> bool {
    forall|i: int|
        0 <= i < events.len() ==> (#[trigger] events[i] matches TrafficEventView::Read(bytes)
            ==> bytes.len() <= READ_SIZE)
}

/// No chunk is empty, and none is larger than the buffer of the task.
pub proof fn chunks_fit_the_buffer<E>(state: TrafficView, events: Seq<TrafficEventView<E>>)
    requires
        traffic_accepts(state, events),
        state.pending.len() <= READ_SIZE,
        reads_fit(events),
    ensures
        forall|i: int|
            0 <= i < chunks_offered(state, events).len() ==> 1 <= (#[trigger] chunks_offered(
                state,
                events,
            )[i]).len() <= READ_SIZE,
        traffic_run(state, events).pending.len() <= READ_SIZE,
    decreases events.len(),
{
    if events.len() > 0 {
        let (next, action) = traffic_step(state, events[0]);
        let tail = events.drop_first();
        assert forall|i: int| 0 <= i < tail.len() implies (
        #[trigger] tail[i] matches TrafficEventView::Read(bytes) ==> bytes.len() <= READ_SIZE) by {
            assert(tail[i] == events[i + 1]);
        }
        chunks_fit_the_buffer(next, tail);
        let rest = chunks_offered(next, tail);
        assert forall|i: int| 0 <= i < chunks_offered(state, events).len() implies 1 <= (
        #[trigger] chunks_offered(state, events)[i]).len() <= READ_SIZE by {
            if action is Offer {
                if i > 0 {
                    assert(chunks_offered(state, events)[i] == rest[i - 1]);
                }
            } else {
                assert(chunks_offered(state, events)[i] == rest[i]);
            }
        }
    }
}

/// What is offered is always what is pending, and nothing is read while anything is.
pub proof fn offers_are_pending_bytes<E>(state: TrafficView, event: TrafficEventView<E>)
    requires
        traffic_expects(state, event),
    ensures
        traffic_step(state, event).1 matches TrafficActionView::Offer(bytes) ==> bytes
            == traffic_step(state, event).0.pending,
        traffic_step(state, event).1 matches TrafficActionView::Select { reading } ==> (reading
            ==> traffic_step(state, event).0.pending.len() == 0),
{
}

/// The task ends either because a message could not be written, and then with the error of the
/// write, or after the decoding task was told that the transport has ended.
pub proof fn decoding_task_is_told_of_the_end<E>(state: TrafficView, event: TrafficEventView<E>)
    requires
        traffic_expects(state, event),
    ensures
        traffic_step(state, event).0.phase is Finished ==> event is WriteFailed
            || state.phase is Notifying,
        traffic_step(state, event).0.phase is Notifying <==> traffic_step(state, event).1
            is NotifyEof,
        event matches TrafficEventView::WriteFailed(error) ==> traffic_step(state, event).1
            == TrafficActionView::Fail(error),
        traffic_step(state, event).1 is Fail ==> event is WriteFailed,
{
}

/// Once the stop signal comes, the task does nothing but tell the decoding task, and ends.
pub proof fn stop_signal_ends_traffic<E>(state: TrafficView)
    requires
        state.phase is Selecting,
    ensures
        ({
            let (stopping, first) = traffic_step(state, TrafficEventView::<E>::Stopped);
            let (last, second) = traffic_step(stopping, TrafficEventView::<E>::Notified);
            &&& first is NotifyEof
            &&& last.phase is Finished
            &&& second is Finish
        }),
{
}

} // verus!
