//! What holds of every history of a pipeline.
//!
//! A history is a sequence of steps, each taken by one thread: a producer
//! sends a message, or the worker receives one. Producers and the worker run
//! side by side, so any order of steps is a history; what is proved here is
//! proved of all of them.

use crate::capture::{captured, EventView};
use crate::worker::{
    holds_shutdown, lemma_shutdown_terminates, record_of, worker_step, Message, SystemState,
    WorkerCommandView, WorkerPhase, WorkerStepView,
};
use vstd::prelude::*;

verus! {

/// One step of a history.
pub enum Step {
    /// The producer of this number sends this message.
    Send(nat, Message),
    /// The worker receives, and acts on what it received.
    Receive,
}

/// The pipeline after one more step.
pub open spec fn apply(s: SystemState, step: Step) -> SystemState {
    match step {
        Step::Send(_, message) => s.send(message),
        Step::Receive => s.receive(),
    }
}

/// The pipeline `s` after the steps of `history`.
pub open spec fn after(s: SystemState, history: Seq<Step>) -> SystemState
    decreases history.len(),
{
    if history.len() == 0 {
        s
    } else {
        apply(after(s, history.drop_last()), history.last())
    }
}

/// Whether the producers of `history` send statements only: the sentinel is
/// left to the shutdown operation.
pub open spec fn sends_statements_only(history: Seq<Step>) -> bool {
    forall|i: int|
        0 <= i < history.len() ==> (#[trigger] history[i] matches Step::Send(_, message)
            ==> message is Sql)
}

/// The records of the statements sent in `history`, in the order of sending.
pub open spec fn records_sent(history: Seq<Step>) -> Seq<Seq<char>>
    decreases history.len(),
{
    if history.len() == 0 {
        Seq::empty()
    } else {
        let earlier = records_sent(history.drop_last());
        match history.last() {
            Step::Send(_, Message::Sql(text)) => earlier.push(record_of(text)),
            _ => earlier,
        }
    }
}

/// For each record of `records_sent`, the producer that sent it.
pub open spec fn senders(history: Seq<Step>) -> Seq<nat>
    decreases history.len(),
{
    if history.len() == 0 {
        Seq::empty()
    } else {
        let earlier = senders(history.drop_last());
        match history.last() {
            Step::Send(producer, Message::Sql(_)) => earlier.push(producer),
            _ => earlier,
        }
    }
}

/// The records of the statements that `producer` sent in `history`, in the
/// order in which it sent them.
pub open spec fn records_sent_by(history: Seq<Step>, producer: nat) -> Seq<Seq<char>>
    decreases history.len(),
{
    if history.len() == 0 {
        Seq::empty()
    } else {
        let earlier = records_sent_by(history.drop_last(), producer);
        match history.last() {
            Step::Send(p, Message::Sql(text)) => if p == producer {
                earlier.push(record_of(text))
            } else {
                earlier
            },
            _ => earlier,
        }
    }
}

/// How many statements the producers below `producers` sent in `history`.
pub open spec fn count_sent(history: Seq<Step>, producers: nat) -> nat
    decreases producers,
{
    if producers == 0 {
        0
    } else {
        count_sent(history, (producers - 1) as nat) + records_sent_by(
            history,
            (producers - 1) as nat,
        ).len()
    }
}

/// Those of `records` that `owners` ascribes to `producer`, in the order of
/// `records`.
pub open spec fn records_from(records: Seq<Seq<char>>, owners: Seq<nat>, producer: nat) -> Seq<
    Seq<char>,
>
    decreases records.len(),
{
    if records.len() == 0 || owners.len() != records.len() {
        Seq::empty()
    } else {
        let earlier = records_from(records.drop_last(), owners.drop_last(), producer);
        if owners.last() == producer {
            earlier.push(records.last())
        } else {
            earlier
        }
    }
}

/// The records that the worker writes for the statements at the head of
/// `queue`, up to the first sentinel.
pub open spec fn records_queued(queue: Seq<Message>) -> Seq<Seq<char>>
    decreases queue.len(),
{
    if queue.len() == 0 {
        Seq::empty()
    } else {
        match queue[0] {
            Message::Sql(text) => seq![record_of(text)] + records_queued(queue.drop_first()),
            Message::Shutdown => Seq::empty(),
        }
    }
}

/// Every step keeps a pipeline well formed.
pub proof fn lemma_step_keeps_wf(s: SystemState, step: Step)
    requires
        s.wf(),
    ensures
        apply(s, step).wf(),
{
}

/// Every history leaves a pipeline well formed.
pub proof fn lemma_history_keeps_wf(history: Seq<Step>)
    ensures
        after(SystemState::initial(), history).wf(),
    decreases history.len(),
{
    if history.len() > 0 {
        lemma_history_keeps_wf(history.drop_last());
        lemma_step_keeps_wf(after(SystemState::initial(), history.drop_last()), history.last());
    }
}

/// A worker that runs writes the records of the statements queued before the
/// first sentinel, in order, after those it wrote before. If the queue holds
/// a sentinel, the worker then terminates with everything flushed.
proof fn lemma_drain_writes_the_queue(s: SystemState)
    requires
        s.receiving,
    ensures
        s.drain().records == s.records + records_queued(s.queue),
        s.drain().joinable == s.joinable,
        holds_shutdown(s.queue) ==> !s.drain().receiving && s.drain().durable
            == s.drain().records.len() && s.drain().queue.len() == 0,
    decreases s.queue.len(),
{
    if s.queue.len() == 0 {
        assert(s.records + Seq::<Seq<char>>::empty() =~= s.records);
    } else {
        match s.queue[0] {
            Message::Sql(text) => {
                let next = s.receive();
                lemma_drain_writes_the_queue(next);
                assert(s.records.push(record_of(text)) + records_queued(next.queue) =~= s.records
                    + (seq![record_of(text)] + records_queued(next.queue)));
                if holds_shutdown(s.queue) {
                    let i = choose|i: int|
                        0 <= i < s.queue.len() && s.queue[i] == Message::Shutdown;
                    assert(next.queue[i - 1] == Message::Shutdown);
                }
            },
            Message::Shutdown => {
                assert(s.receive().drain() == s.receive());
                assert(s.records + Seq::<Seq<char>>::empty() =~= s.records);
            },
        }
    }
}

/// Appending a message behind statements only: the records queued are those
/// of the statements, and of the new message if it is one.
#[verifier::rlimit(50)]
proof fn lemma_records_queued_push(queue: Seq<Message>, message: Message)
    requires
        forall|i: int| 0 <= i < queue.len() ==> (#[trigger] queue[i]) is Sql,
    ensures
        records_queued(queue.push(message)) == (match message {
            Message::Sql(text) => records_queued(queue).push(record_of(text)),
            Message::Shutdown => records_queued(queue),
        }),
    decreases queue.len(),
{
    if queue.len() == 0 {
        assert(queue.push(message).drop_first() =~= Seq::<Message>::empty());
        assert(records_queued(Seq::<Message>::empty()) == Seq::<Seq<char>>::empty());
        assert(records_queued(queue) == Seq::<Seq<char>>::empty());
        match message {
            Message::Sql(text) => {
                assert(seq![record_of(text)] + Seq::<Seq<char>>::empty() =~= Seq::<
                    Seq<char>,
                >::empty().push(record_of(text)));
            },
            Message::Shutdown => {},
        }
    } else {
        assert(queue[0] is Sql);
        assert(queue.push(message).drop_first() =~= queue.drop_first().push(message));
        assert forall|i: int| 0 <= i < queue.drop_first().len() implies (
        #[trigger] queue.drop_first()[i]) is Sql by {
            assert(queue.drop_first()[i] == queue[i + 1]);
        }
        lemma_records_queued_push(queue.drop_first(), message);
        let head = seq![record_of(queue[0]->Sql_0)];
        match message {
            Message::Sql(text) => {
                assert(head + records_queued(queue.drop_first()).push(record_of(text)) =~= (head
                    + records_queued(queue.drop_first())).push(record_of(text)));
            },
            Message::Shutdown => {},
        }
    }
}

/// While producers send statements only, the worker keeps receiving, and
/// what it has written, followed by what is queued, is what was sent.
#[verifier::rlimit(50)]
proof fn lemma_nothing_is_lost(history: Seq<Step>)
    requires
        sends_statements_only(history),
    ensures
        ({
            let s = after(SystemState::initial(), history);
            &&& s.receiving
            &&& s.joinable
            &&& forall|i: int| 0 <= i < s.queue.len() ==> (#[trigger] s.queue[i]) is Sql
            &&& s.records + records_queued(s.queue) == records_sent(history)
        }),
    decreases history.len(),
{
    let start = SystemState::initial();
    if history.len() == 0 {
        assert(start.records + records_queued(start.queue) =~= Seq::<Seq<char>>::empty());
    } else {
        let earlier = history.drop_last();
        assert forall|i: int| 0 <= i < earlier.len() implies (#[trigger] earlier[i] matches Step::Send(
            _,
            message,
        ) ==> message is Sql) by {
            assert(earlier[i] == history[i]);
        }
        lemma_nothing_is_lost(earlier);
        let before = after(start, earlier);
        let s = after(start, history);
        assert(history[history.len() - 1] == history.last());
        match history.last() {
            Step::Send(_, message) => {
                assert(message is Sql);
                lemma_records_queued_push(before.queue, message);
                assert(before.records + records_queued(before.queue).push(
                    record_of(message->Sql_0),
                ) =~= (before.records + records_queued(before.queue)).push(
                    record_of(message->Sql_0),
                ));
            },
            Step::Receive => {
                if before.queue.len() > 0 {
                    assert(before.queue[0] is Sql);
                    let text = before.queue[0]->Sql_0;
                    assert(before.records.push(record_of(text)) + records_queued(
                        before.queue.drop_first(),
                    ) =~= before.records + (seq![record_of(text)] + records_queued(
                        before.queue.drop_first(),
                    )));
                    assert forall|i: int| 0 <= i < s.queue.len() implies (
                    #[trigger] s.queue[i]) is Sql by {
                        assert(s.queue[i] == before.queue[i + 1]);
                    }
                }
            },
        }
    }
}

/// Statements sent before a shutdown are all persisted. However the sends of
/// the producers and the receives of the worker fall in time, when the
/// shutdown returns the backend holds one record for each statement sent, in
/// the order of sending, and every one of them is durable.
pub proof fn lemma_shutdown_persists_what_was_sent(history: Seq<Step>)
    requires
        sends_statements_only(history),
    ensures
        ({
            let end = after(SystemState::initial(), history).shutdown();
            &&& end.records == records_sent(history)
            &&& end.durable == end.records.len()
            &&& !end.receiving
            &&& !end.joinable
        }),
{
    lemma_nothing_is_lost(history);
    let s = after(SystemState::initial(), history);
    let sent = s.send(Message::Shutdown);
    lemma_records_queued_push(s.queue, Message::Shutdown);
    assert(sent.queue[sent.queue.len() - 1] == Message::Shutdown);
    lemma_drain_writes_the_queue(sent);
}

/// A step of one producer adds to what that producer sent, and to nothing
/// that another sent.
proof fn lemma_records_from_senders(history: Seq<Step>, producer: nat)
    ensures
        senders(history).len() == records_sent(history).len(),
        records_from(records_sent(history), senders(history), producer) == records_sent_by(
            history,
            producer,
        ),
    decreases history.len(),
{
    if history.len() > 0 {
        lemma_records_from_senders(history.drop_last(), producer);
        let earlier_records = records_sent(history.drop_last());
        let earlier_senders = senders(history.drop_last());
        match history.last() {
            Step::Send(p, Message::Sql(text)) => {
                assert(earlier_records.push(record_of(text)).drop_last() =~= earlier_records);
                assert(earlier_senders.push(p).drop_last() =~= earlier_senders);
            },
            _ => {},
        }
    }
}

/// The statements sent are those that the producers sent, each counted once.
proof fn lemma_count_sent(history: Seq<Step>, producers: nat)
    requires
        forall|i: int|
            0 <= i < history.len() ==> (#[trigger] history[i] matches Step::Send(p, _) ==> p
                < producers),
    ensures
        count_sent(history, producers) == records_sent(history).len(),
    decreases history.len(),
{
    if history.len() == 0 {
        lemma_count_sent_none(history, producers);
    } else {
        let earlier = history.drop_last();
        assert forall|i: int| 0 <= i < earlier.len() implies (#[trigger] earlier[i] matches Step::Send(
            p,
            _,
        ) ==> p < producers) by {
            assert(earlier[i] == history[i]);
        }
        lemma_count_sent(earlier, producers);
        assert(history[history.len() - 1] == history.last());
        match history.last() {
            Step::Send(p, Message::Sql(_)) => {
                lemma_count_sent_one_more(history, producers, p);
            },
            _ => {
                lemma_count_sent_same(history, producers);
            },
        }
    }
}

/// An empty history holds no statement of any producer.
proof fn lemma_count_sent_none(history: Seq<Step>, producers: nat)
    requires
        history.len() == 0,
    ensures
        count_sent(history, producers) == 0,
    decreases producers,
{
    if producers > 0 {
        lemma_count_sent_none(history, (producers - 1) as nat);
    }
}

/// A last step that sends no statement leaves the count as it was.
proof fn lemma_count_sent_same(history: Seq<Step>, producers: nat)
    requires
        history.len() > 0,
        !(history.last() matches Step::Send(_, Message::Sql(_))),
    ensures
        count_sent(history, producers) == count_sent(history.drop_last(), producers),
    decreases producers,
{
    if producers > 0 {
        lemma_count_sent_same(history, (producers - 1) as nat);
    }
}

/// A last step in which `sender` sends a statement adds one to the count of
/// the producers that `sender` is among, and nothing to the others'.
proof fn lemma_count_sent_one_more(history: Seq<Step>, producers: nat, sender: nat)
    requires
        history.len() > 0,
        history.last() matches Step::Send(p, Message::Sql(_)) && p == sender,
    ensures
        count_sent(history, producers) == count_sent(history.drop_last(), producers) + (if sender
            < producers {
            1nat
        } else {
            0nat
        }),
    decreases producers,
{
    if producers > 0 {
        lemma_count_sent_one_more(history, (producers - 1) as nat, sender);
    }
}

/// With any number of producers sending side by side, nothing is lost and no
/// producer's statements change places. When the shutdown returns, the
/// backend holds as many records as the producers sent statements, all of
/// them together; and the records of each producer's statements stand in the
/// order in which that producer sent them.
pub proof fn lemma_producers_keep_their_order(history: Seq<Step>, producers: nat)
    requires
        sends_statements_only(history),
        forall|i: int|
            0 <= i < history.len() ==> (#[trigger] history[i] matches Step::Send(p, _) ==> p
                < producers),
    ensures
        ({
            let end = after(SystemState::initial(), history).shutdown();
            &&& end.records.len() == count_sent(history, producers)
            &&& end.durable == end.records.len()
            &&& forall|p: nat|
                p < producers ==> #[trigger] records_from(end.records, senders(history), p)
                    == records_sent_by(history, p)
        }),
{
    lemma_shutdown_persists_what_was_sent(history);
    lemma_count_sent(history, producers);
    assert forall|p: nat| p < producers implies #[trigger] records_from(
        records_sent(history),
        senders(history),
        p,
    ) == records_sent_by(history, p) by {
        lemma_records_from_senders(history, p);
    }
}

/// A message sent after a shutdown has returned is ignored: the send changes
/// nothing, so nothing more is queued or written.
pub proof fn lemma_send_after_shutdown_is_ignored(s: SystemState, message: Message)
    requires
        s.wf(),
    ensures
        s.shutdown().send(message) == s.shutdown(),
{
    lemma_shutdown_terminates(s);
}

/// A second shutdown does nothing: it finds the handle empty, so it neither
/// sends a sentinel nor joins a thread.
pub proof fn lemma_second_shutdown_does_nothing(s: SystemState)
    ensures
        !s.shutdown().joinable,
        s.shutdown().shutdown() == s.shutdown(),
{
}

/// An event that the hook sees after a shutdown has returned is ignored,
/// whatever it is: the hook changes nothing.
pub proof fn lemma_capture_after_shutdown_is_ignored(s: SystemState, event: EventView)
    requires
        s.wf(),
    ensures
        captured(s.shutdown(), event) == s.shutdown(),
{
    lemma_shutdown_terminates(s);
}

/// The steps that a worker takes in answer to `replies`, one for each,
/// starting in `phase`.
pub open spec fn worker_run(
    phase: WorkerPhase,
    replies: Seq<Result<Option<Message>, Seq<char>>>,
) -> Seq<WorkerStepView>
    decreases replies.len(),
{
    if replies.len() == 0 {
        Seq::empty()
    } else {
        let (next, step) = worker_step(phase, replies[0]);
        seq![step] + worker_run(next, replies.drop_first())
    }
}

/// Where a worker stands after `replies`, starting in `phase`.
pub open spec fn worker_phase_after(
    phase: WorkerPhase,
    replies: Seq<Result<Option<Message>, Seq<char>>>,
) -> WorkerPhase
    decreases replies.len(),
{
    if replies.len() == 0 {
        phase
    } else {
        worker_phase_after(worker_step(phase, replies[0]).0, replies.drop_first())
    }
}

/// The records that `steps` command to write, in order.
pub open spec fn records_written(steps: Seq<WorkerStepView>) -> Seq<Seq<char>>
    decreases steps.len(),
{
    if steps.len() == 0 {
        Seq::empty()
    } else {
        let rest = records_written(steps.drop_first());
        match steps[0].command {
            WorkerCommandView::Write(record) => seq![record] + rest,
            _ => rest,
        }
    }
}

/// What a worker is told while it takes the messages of `queue` one by one
/// and its backend never fails: each receive returns the next message, and
/// the write or flush that follows succeeds.
pub open spec fn replies_while_receiving(queue: Seq<Message>) -> Seq<
    Result<Option<Message>, Seq<char>>,
>
    decreases queue.len(),
{
    if queue.len() == 0 {
        Seq::empty()
    } else {
        seq![Ok(Some(queue[0])), Ok(None)] + replies_while_receiving(queue.drop_first())
    }
}

/// A worker that has terminated commands no write, whatever it is told.
proof fn lemma_stopped_worker_writes_nothing(replies: Seq<Result<Option<Message>, Seq<char>>>)
    ensures
        records_written(worker_run(WorkerPhase::Stopped, replies)) == Seq::<Seq<char>>::empty(),
        worker_phase_after(WorkerPhase::Stopped, replies) == WorkerPhase::Stopped,
    decreases replies.len(),
{
    if replies.len() > 0 {
        let (next, step) = worker_step(WorkerPhase::Stopped, replies[0]);
        lemma_stopped_worker_writes_nothing(replies.drop_first());
        assert((seq![step] + worker_run(next, replies.drop_first())).drop_first() =~= worker_run(
            next,
            replies.drop_first(),
        ));
    }
}

/// The worker's thread writes what the pipeline's worker writes. Told the
/// messages of `queue` one by one by a backend that never fails, a worker
/// that receives commands the writing of the records of the statements
/// before the first sentinel, in order, and of nothing else; and if the
/// queue holds a sentinel, the worker ends terminated.
#[verifier::rlimit(50)]
pub proof fn lemma_worker_writes_the_queue(queue: Seq<Message>)
    ensures
        records_written(worker_run(WorkerPhase::Receiving, replies_while_receiving(queue)))
            == records_queued(queue),
        holds_shutdown(queue) ==> worker_phase_after(
            WorkerPhase::Receiving,
            replies_while_receiving(queue),
        ) == WorkerPhase::Stopped,
    decreases queue.len(),
{
    if queue.len() > 0 {
        let replies = replies_while_receiving(queue);
        let rest = replies_while_receiving(queue.drop_first());
        let (second_phase, first) = worker_step(WorkerPhase::Receiving, replies[0]);
        let (third_phase, second) = worker_step(second_phase, replies[1]);
        assert(replies.drop_first().drop_first() =~= rest);
        assert(replies.drop_first()[0] == replies[1]);
        let tail = worker_run(third_phase, rest);
        assert(worker_run(second_phase, replies.drop_first()) == seq![second] + tail);
        assert(worker_run(WorkerPhase::Receiving, replies) == seq![first] + (seq![second] + tail));
        assert((seq![first] + (seq![second] + tail)).drop_first() =~= seq![second] + tail);
        assert((seq![second] + tail).drop_first() =~= tail);
        assert(worker_phase_after(second_phase, replies.drop_first()) == worker_phase_after(
            third_phase,
            rest,
        ));
        assert(worker_phase_after(WorkerPhase::Receiving, replies) == worker_phase_after(
            third_phase,
            rest,
        ));
        let written = records_written(worker_run(WorkerPhase::Receiving, replies));
        assert(records_written(seq![second] + tail) == records_written(tail));
        match queue[0] {
            Message::Sql(text) => {
                assert(written == seq![record_of(text)] + records_written(tail));
                lemma_worker_writes_the_queue(queue.drop_first());
                if holds_shutdown(queue) {
                    let i = choose|i: int| 0 <= i < queue.len() && queue[i] == Message::Shutdown;
                    assert(queue.drop_first()[i - 1] == Message::Shutdown);
                }
            },
            Message::Shutdown => {
                assert(written == records_written(tail));
                lemma_stopped_worker_writes_nothing(rest);
            },
        }
    } else {
        assert(replies_while_receiving(queue) =~= Seq::empty());
    }
}

} // verus!
