//! The hand-off queue's messages, the logging worker's decisions, and the
//! pipeline that both form.
//!
//! Threads, the channel and the log file are out of reach here. The worker's
//! decisions are functions from what it received to what it does, and
//! `LoggingSystem` is the pipeline as one value that changes step by step:
//! each step is something that one of the pipeline's threads does.

use crate::text::texts;
use std::collections::VecDeque;
use vstd::prelude::*;

verus! {

/// The name of the flat log file, relative to the working directory.
pub const LOG_FILE: &'static str = "testicall.log";

/// What ends a record of the flat log file.
pub const LINE_TERMINATOR: char = '\n';

/// A message travelling through the hand-off queue to the logging worker.
#[derive(Debug)]
pub enum LogMessage {
    /// One statement's text, to be persisted as one record.
    Sql(String),
    /// The sentinel that asks the worker to flush and terminate.
    Shutdown,
}

/// A `LogMessage` by what its text holds.
pub enum Message {
    Sql(Seq<char>),
    Shutdown,
}

impl View for LogMessage {
    type V = Message;

    open spec fn view(&self) -> Message {
        match self {
            LogMessage::Sql(text) => Message::Sql(text@),
            LogMessage::Shutdown => Message::Shutdown,
        }
    }
}

/// What the worker does with the backend after a receive.
#[derive(Debug)]
pub enum WorkerAction {
    /// Append this record, and receive again. Nothing is flushed.
    Write(String),
    /// Flush what was written, and terminate.
    FlushAndStop,
}

/// A `WorkerAction` by what its record holds.
pub enum Action {
    Write(Seq<char>),
    FlushAndStop,
}

impl View for WorkerAction {
    type V = Action;

    open spec fn view(&self) -> Action {
        match self {
            WorkerAction::Write(record) => Action::Write(record@),
            WorkerAction::FlushAndStop => Action::FlushAndStop,
        }
    }
}

/// The record that persists a statement's text: the text and a line
/// terminator.
pub open spec fn record_of(text: Seq<char>) -> Seq<char> {
    text.push(LINE_TERMINATOR)
}

/// What the worker does after a blocking receive returned `received`: a
/// message, or nothing because every producer is gone.
///
/// Records are buffered: a write flushes nothing. The backend is flushed
/// once, when the worker terminates, on the sentinel or on disconnection.
pub open spec fn action_after(received: Option<Message>) -> Action {
    match received {
        Some(Message::Sql(text)) => Action::Write(record_of(text)),
        Some(Message::Shutdown) => Action::FlushAndStop,
        None => Action::FlushAndStop,
    }
}

/// The view of what a receive returned.
pub open spec fn received_view(received: Option<LogMessage>) -> Option<Message> {
    match received {
        Some(message) => Some(message@),
        None => None,
    }
}

/// What the worker does after a blocking receive returned `received`.
pub fn worker_action(received: Option<LogMessage>) -> (action: WorkerAction)
    ensures
        action@ == action_after(received_view(received)),
{
    match received {
        Some(LogMessage::Sql(text)) => {
            let mut record = text;
            record.push(LINE_TERMINATOR);
            WorkerAction::Write(record)
        },
        Some(LogMessage::Shutdown) => WorkerAction::FlushAndStop,
        None => WorkerAction::FlushAndStop,
    }
}

/// The line for the operator's error stream when a write failed with `error`.
pub open spec fn write_failure(error: Seq<char>) -> Seq<char> {
    "Failed to write to log: "@ + error
}

/// The line for the operator's error stream when the flush failed with
/// `error`.
pub open spec fn flush_failure(error: Seq<char>) -> Seq<char> {
    "Failed to flush log: "@ + error
}

/// The message with which the worker gives up when the log file could not be
/// opened, with `error`.
pub open spec fn open_failure(error: Seq<char>) -> Seq<char> {
    "Failed to open "@ + LOG_FILE@ + ": "@ + error
}

/// Where the worker stands.
#[derive(Clone, Copy, Debug, PartialEq, Eq, Structural)]
pub enum WorkerPhase {
    /// It opens the log file.
    Opening,
    /// It waits for a message.
    Receiving,
    /// It writes a record.
    Writing,
    /// It flushes the log file before it terminates.
    Flushing,
    /// It has terminated.
    Stopped,
}

/// How a log file is opened.
#[derive(Clone, Copy, Debug, PartialEq, Eq, Structural)]
pub struct OpenMode {
    /// Whether a file that does not exist is created.
    pub create: bool,
    /// Whether every write goes to the end of the file, so that what the
    /// file held is kept.
    pub append: bool,
}

/// How the worker opens its log file: it creates the file if need be, and
/// only ever appends to it.
pub open spec fn log_mode() -> OpenMode {
    OpenMode { create: true, append: true }
}

/// What the worker's thread does next.
#[derive(Debug)]
pub enum WorkerCommand {
    /// Open the log file of this name in this mode, and keep it open.
    Open(String, OpenMode),
    /// Wait until a message arrives or every producer is gone.
    Receive,
    /// Append this record to the log file. Nothing is flushed.
    Write(String),
    /// Flush what was written.
    Flush,
    /// Terminate.
    Stop,
    /// Give up at once, with this message.
    Abort(String),
}

/// A `WorkerCommand` by what its strings hold.
pub enum WorkerCommandView {
    Open(Seq<char>, OpenMode),
    Receive,
    Write(Seq<char>),
    Flush,
    Stop,
    Abort(Seq<char>),
}

impl View for WorkerCommand {
    type V = WorkerCommandView;

    open spec fn view(&self) -> WorkerCommandView {
        match self {
            WorkerCommand::Open(name, mode) => WorkerCommandView::Open(name@, *mode),
            WorkerCommand::Receive => WorkerCommandView::Receive,
            WorkerCommand::Write(record) => WorkerCommandView::Write(record@),
            WorkerCommand::Flush => WorkerCommandView::Flush,
            WorkerCommand::Stop => WorkerCommandView::Stop,
            WorkerCommand::Abort(message) => WorkerCommandView::Abort(message@),
        }
    }
}

/// One step of the worker: a line for the operator's error stream, where
/// there is one, and then the command.
#[derive(Debug)]
pub struct WorkerStep {
    /// The line to report before the command is carried out.
    pub report: Option<String>,
    /// What to do.
    pub command: WorkerCommand,
}

/// A `WorkerStep` by what its strings hold.
pub struct WorkerStepView {
    pub report: Option<Seq<char>>,
    pub command: WorkerCommandView,
}

impl View for WorkerStep {
    type V = WorkerStepView;

    open spec fn view(&self) -> WorkerStepView {
        WorkerStepView {
            report: match self.report {
                Some(line) => Some(line@),
                None => None,
            },
            command: self.command@,
        }
    }
}

/// What a reply holds: the error of a command that failed, or success, with
/// the message where one was received.
pub open spec fn worker_reply_view(reply: Result<Option<LogMessage>, String>) -> Result<
    Option<Message>,
    Seq<char>,
> {
    match reply {
        Ok(received) => Ok(received_view(received)),
        Err(error) => Err(error@),
    }
}

/// A step with nothing to report.
pub open spec fn quiet(command: WorkerCommandView) -> WorkerStepView {
    WorkerStepView { report: None, command }
}

/// The worker's next phase and step, given how the last command went: it
/// failed with an error, or it succeeded, and where it was a receive, with
/// the message received or with none because every producer is gone.
///
/// A log file that cannot be opened makes the worker give up at once. After
/// that the worker receives, and acts on what it received as `action_after`
/// says. A write that fails is reported, and the worker goes on to receive.
/// A flush that fails is reported, and the worker terminates as it would
/// have.
pub open spec fn worker_step(phase: WorkerPhase, reply: Result<Option<Message>, Seq<char>>) -> (
    WorkerPhase,
    WorkerStepView,
) {
    match phase {
        WorkerPhase::Opening => match reply {
            Ok(_) => (WorkerPhase::Receiving, quiet(WorkerCommandView::Receive)),
            Err(error) => (
                WorkerPhase::Stopped,
                quiet(WorkerCommandView::Abort(open_failure(error))),
            ),
        },
        WorkerPhase::Receiving => {
            let received = match reply {
                Ok(received) => received,
                Err(_) => None,
            };
            match action_after(received) {
                Action::Write(record) => (
                    WorkerPhase::Writing,
                    quiet(WorkerCommandView::Write(record)),
                ),
                Action::FlushAndStop => (WorkerPhase::Flushing, quiet(WorkerCommandView::Flush)),
            }
        },
        WorkerPhase::Writing => (
            WorkerPhase::Receiving,
            WorkerStepView {
                report: match reply {
                    Ok(_) => None,
                    Err(error) => Some(write_failure(error)),
                },
                command: WorkerCommandView::Receive,
            },
        ),
        WorkerPhase::Flushing => (
            WorkerPhase::Stopped,
            WorkerStepView {
                report: match reply {
                    Ok(_) => None,
                    Err(error) => Some(flush_failure(error)),
                },
                command: WorkerCommandView::Stop,
            },
        ),
        WorkerPhase::Stopped => (WorkerPhase::Stopped, quiet(WorkerCommandView::Stop)),
    }
}

/// The logging worker, by telling its thread what to do next.
pub struct LoggingWorker {
    phase: WorkerPhase,
}

impl View for LoggingWorker {
    type V = WorkerPhase;

    closed spec fn view(&self) -> WorkerPhase {
        self.phase
    }
}

impl LoggingWorker {
    /// Starts a worker: the first step is to open the log file.
    pub fn start() -> (r: (LoggingWorker, WorkerStep))
        ensures
            r.0@ == WorkerPhase::Opening,
            r.1@ == quiet(WorkerCommandView::Open(LOG_FILE@, log_mode())),
    {
        (
            LoggingWorker { phase: WorkerPhase::Opening },
            WorkerStep {
                report: None,
                command: WorkerCommand::Open(
                    String::from_str(LOG_FILE),
                    OpenMode { create: true, append: true },
                ),
            },
        )
    }

    /// Where the worker stands.
    pub fn phase(&self) -> (phase: WorkerPhase)
        ensures
            phase == self@,
    {
        self.phase
    }

    /// Takes how the last command went and gives the next step.
    pub fn step(&mut self, reply: Result<Option<LogMessage>, String>) -> (next: WorkerStep)
        ensures
            (final(self)@, next@) == worker_step(old(self)@, worker_reply_view(reply)),
    {
        match self.phase {
            WorkerPhase::Opening => match reply {
                Ok(_) => {
                    self.phase = WorkerPhase::Receiving;
                    WorkerStep { report: None, command: WorkerCommand::Receive }
                },
                Err(error) => {
                    self.phase = WorkerPhase::Stopped;
                    let mut message = String::from_str("Failed to open ");
                    message.append(LOG_FILE);
                    message.append(": ");
                    message.append(error.as_str());
                    WorkerStep { report: None, command: WorkerCommand::Abort(message) }
                },
            },
            WorkerPhase::Receiving => {
                let received = match reply {
                    Ok(received) => received,
                    Err(_) => None,
                };
                match worker_action(received) {
                    WorkerAction::Write(record) => {
                        self.phase = WorkerPhase::Writing;
                        WorkerStep { report: None, command: WorkerCommand::Write(record) }
                    },
                    WorkerAction::FlushAndStop => {
                        self.phase = WorkerPhase::Flushing;
                        WorkerStep { report: None, command: WorkerCommand::Flush }
                    },
                }
            },
            WorkerPhase::Writing => {
                self.phase = WorkerPhase::Receiving;
                let report = match reply {
                    Ok(_) => None,
                    Err(error) => {
                        let mut line = String::from_str("Failed to write to log: ");
                        line.append(error.as_str());
                        Some(line)
                    },
                };
                WorkerStep { report, command: WorkerCommand::Receive }
            },
            WorkerPhase::Flushing => {
                self.phase = WorkerPhase::Stopped;
                let report = match reply {
                    Ok(_) => None,
                    Err(error) => {
                        let mut line = String::from_str("Failed to flush log: ");
                        line.append(error.as_str());
                        Some(line)
                    },
                };
                WorkerStep { report, command: WorkerCommand::Stop }
            },
            WorkerPhase::Stopped => WorkerStep { report: None, command: WorkerCommand::Stop },
        }
    }
}

/// The views of the messages in `queue`.
pub open spec fn messages(queue: Seq<LogMessage>) -> Seq<Message> {
    queue.map_values(|message: LogMessage| message@)
}

/// The state of a pipeline.
pub struct SystemState {
    /// The messages that were sent and not yet received, oldest first.
    pub queue: Seq<Message>,
    /// Whether the worker still holds the queue's consumer end.
    pub receiving: bool,
    /// The records written to the backend, oldest first.
    pub records: Seq<Seq<char>>,
    /// How many of them, counted from the oldest, have been flushed.
    pub durable: nat,
    /// Whether the handle still holds the worker's thread, to be joined.
    pub joinable: bool,
}

impl SystemState {
    /// What holds of every pipeline. No more is durable than was written. A
    /// worker that has terminated has flushed everything and left no queue
    /// behind. The thread is given up for joining only by a shutdown, which
    /// returns when the worker has terminated.
    pub open spec fn wf(self) -> bool {
        &&& self.durable <= self.records.len()
        &&& !self.receiving ==> self.queue.len() == 0 && self.durable == self.records.len()
        &&& !self.joinable ==> !self.receiving
    }

    /// A pipeline that was just started.
    pub open spec fn initial() -> SystemState {
        SystemState {
            queue: Seq::empty(),
            receiving: true,
            records: Seq::empty(),
            durable: 0,
            joinable: true,
        }
    }

    /// A producer sends `message` without blocking. Where the worker has
    /// terminated, the message is dropped and nothing changes.
    pub open spec fn send(self, message: Message) -> SystemState {
        if self.receiving {
            SystemState { queue: self.queue.push(message), ..self }
        } else {
            self
        }
    }

    /// The worker receives the oldest message and acts on it. Where the queue
    /// is empty the worker waits, and where the worker has terminated nothing
    /// receives: nothing changes. The sentinel makes the worker flush and
    /// terminate, and what is queued behind it is dropped.
    pub open spec fn receive(self) -> SystemState {
        if !self.receiving || self.queue.len() == 0 {
            self
        } else {
            match action_after(Some(self.queue[0])) {
                Action::Write(record) => SystemState {
                    queue: self.queue.drop_first(),
                    records: self.records.push(record),
                    ..self
                },
                Action::FlushAndStop => SystemState {
                    queue: Seq::empty(),
                    receiving: false,
                    durable: self.records.len(),
                    ..self
                },
            }
        }
    }

    /// The worker runs until it terminates or has nothing left to receive.
    pub open spec fn drain(self) -> SystemState
        decreases self.queue.len(),
    {
        if !self.receiving || self.queue.len() == 0 {
            self
        } else {
            self.receive().drain()
        }
    }

    /// The shutdown operation. The first call takes the worker's thread out
    /// of the handle, sends the sentinel and joins the thread, so it returns
    /// when the worker has terminated. A later call finds the handle empty
    /// and does nothing.
    pub open spec fn shutdown(self) -> SystemState {
        if self.joinable {
            SystemState { joinable: false, ..self.send(Message::Shutdown).drain() }
        } else {
            self
        }
    }
}

/// A pipeline: the hand-off queue, the worker with its backend, and the
/// handle that guards the worker's thread.
pub struct LoggingSystem {
    queue: VecDeque<LogMessage>,
    receiving: bool,
    records: Vec<String>,
    durable: usize,
    joinable: bool,
}

impl View for LoggingSystem {
    type V = SystemState;

    closed spec fn view(&self) -> SystemState {
        SystemState {
            queue: messages(self.queue@),
            receiving: self.receiving,
            records: texts(self.records@),
            durable: self.durable as nat,
            joinable: self.joinable,
        }
    }
}

/// Starts a pipeline: an empty queue, a worker that receives, nothing
/// written, and a handle that holds the worker's thread.
pub fn initialize() -> (system: LoggingSystem)
    ensures
        system@ == SystemState::initial(),
        system@.wf(),
{
    let system = LoggingSystem {
        queue: VecDeque::new(),
        receiving: true,
        records: Vec::new(),
        durable: 0,
        joinable: true,
    };
    assert(system@.queue =~= Seq::empty());
    assert(system@.records =~= Seq::empty());
    system
}

impl LoggingSystem {
    /// Sends `message` without blocking; tells whether it was queued. A
    /// message sent after the worker has terminated is dropped.
    pub fn send(&mut self, message: LogMessage) -> (queued: bool)
        ensures
            final(self)@ == old(self)@.send(message@),
            old(self)@.wf() ==> final(self)@.wf(),
            queued == old(self)@.receiving,
    {
        if self.receiving {
            proof {
                assert(messages(self.queue@.push(message)) =~= messages(self.queue@).push(
                    message@,
                ));
            }
            self.queue.push_back(message);
            true
        } else {
            false
        }
    }

    /// Lets the worker receive one message and act on it; tells whether it
    /// received one.
    pub fn receive(&mut self) -> (received: bool)
        ensures
            final(self)@ == old(self)@.receive(),
            old(self)@.wf() ==> final(self)@.wf(),
            received == (old(self)@.receiving && old(self)@.queue.len() > 0),
    {
        if !self.receiving || self.queue.len() == 0 {
            return false;
        }
        let ghost before = self.queue@;
        let message = self.queue.pop_front();
        proof {
            assert(messages(before)[0] == before[0]@);
            assert(messages(before.subrange(1, before.len() as int)) =~= messages(
                before,
            ).drop_first());
        }
        match worker_action(message) {
            WorkerAction::Write(record) => {
                proof {
                    assert(texts(self.records@.push(record)) =~= texts(self.records@).push(
                        record@,
                    ));
                }
                self.records.push(record);
            },
            WorkerAction::FlushAndStop => {
                self.queue.clear();
                self.receiving = false;
                self.durable = self.records.len();
                proof {
                    assert(messages(self.queue@) =~= Seq::empty());
                }
            },
        }
        true
    }

    /// Shuts the pipeline down; tells whether this call did. The first call
    /// returns when the worker has terminated; a later call does nothing.
    pub fn shutdown(&mut self) -> (first: bool)
        ensures
            final(self)@ == old(self)@.shutdown(),
            old(self)@.wf() ==> final(self)@.wf(),
            first == old(self)@.joinable,
    {
        if !self.joinable {
            return false;
        }
        self.send(LogMessage::Shutdown);
        let ghost sent = self@;
        while self.receiving && self.queue.len() > 0
            invariant
                self@.joinable,
                self@.drain() == sent.drain(),
            decreases self@.queue.len(),
        {
            self.receive();
        }
        self.joinable = false;
        proof {
            if old(self)@.wf() {
                lemma_shutdown_terminates(old(self)@);
            }
        }
        true
    }

    /// The records written to the backend, oldest first.
    pub fn records(&self) -> (records: &Vec<String>)
        ensures
            texts(records@) == self@.records,
    {
        &self.records
    }

    /// How many records, counted from the oldest, have been flushed.
    pub fn durable(&self) -> (durable: usize)
        ensures
            durable == self@.durable,
    {
        self.durable
    }

    /// How many messages wait in the queue.
    pub fn pending(&self) -> (pending: usize)
        ensures
            pending == self@.queue.len(),
    {
        self.queue.len()
    }

    /// Whether the worker still receives.
    pub fn is_receiving(&self) -> (receiving: bool)
        ensures
            receiving == self@.receiving,
    {
        self.receiving
    }

    /// Whether the handle still holds the worker's thread.
    pub fn is_joinable(&self) -> (joinable: bool)
        ensures
            joinable == self@.joinable,
    {
        self.joinable
    }
}

/// Whether `queue` holds the sentinel.
pub open spec fn holds_shutdown(queue: Seq<Message>) -> bool {
    exists|i: int| 0 <= i < queue.len() && queue[i] == Message::Shutdown
}

/// A worker whose queue holds the sentinel terminates when it runs.
pub proof fn lemma_drain_terminates(s: SystemState)
    requires
        s.wf(),
        !s.receiving || holds_shutdown(s.queue),
    ensures
        !s.drain().receiving,
        s.drain().wf(),
        s.drain().joinable == s.joinable,
    decreases s.queue.len(),
{
    if s.receiving && s.queue.len() > 0 {
        let i = choose|i: int| 0 <= i < s.queue.len() && s.queue[i] == Message::Shutdown;
        if s.queue[0] != Message::Shutdown {
            assert(s.receive().queue[i - 1] == Message::Shutdown);
            lemma_drain_terminates(s.receive());
        }
    }
}

/// When a shutdown returns, the worker has terminated: it receives no more,
/// the queue is gone, and every record written is durable.
pub proof fn lemma_shutdown_terminates(s: SystemState)
    requires
        s.wf(),
    ensures
        s.shutdown().wf(),
        !s.shutdown().receiving,
        !s.shutdown().joinable,
        s.shutdown().queue.len() == 0,
        s.shutdown().durable == s.shutdown().records.len(),
{
    if s.joinable {
        let sent = s.send(Message::Shutdown);
        if s.receiving {
            assert(sent.queue[sent.queue.len() - 1] == Message::Shutdown);
        }
        lemma_drain_terminates(sent);
    }
}

} // verus!
