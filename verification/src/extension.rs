//! The load sequence of the extension: what is set up, in which order, and
//! what the host is told at the end.
//!
//! The connection, the store and the worker's thread are out of reach here.
//! `ExtensionLoad` decides what is done next; its caller does that and
//! reports how it went.

use crate::error::SqliteInstrumentError;
use crate::path::{create_trace_db_path, trace_db_path};
use vstd::prelude::*;

verus! {

/// What the host is told after a load that succeeded: whether to keep the
/// extension registered for later connections. It is not kept.
pub const LOAD_PERMANENTLY: bool = false;

/// The kinds of events that a capture hook is registered for.
#[derive(Clone, Copy, Debug, PartialEq, Eq, Structural)]
pub struct TraceMask {
    /// A statement begins to run.
    pub statements: bool,
    /// A statement has finished.
    pub profiles: bool,
    /// A statement has produced a row.
    pub rows: bool,
    /// The connection closes.
    pub closes: bool,
}

/// The kinds of events that the pipeline records: statements that begin and
/// statements that have finished.
pub open spec fn recorded_events() -> TraceMask {
    TraceMask { statements: true, profiles: true, rows: false, closes: false }
}

/// How far a load has come.
#[derive(Clone, Copy, Debug, PartialEq, Eq, Structural)]
pub enum LoadPhase {
    /// The primary store's location is being looked up.
    ResolvingPath,
    /// The trace store is being initialized.
    PreparingStore,
    /// The logging worker is being started.
    StartingWorker,
    /// The capture hook is being registered.
    RegisteringCapture,
    /// The load has ended.
    Finished,
}

/// What the caller does next.
#[derive(Debug)]
pub enum LoadCommand {
    /// Find the location of the connection's primary store.
    ResolvePath,
    /// Initialize the trace store at this location.
    PrepareStore(String),
    /// Start the logging worker.
    StartWorker,
    /// Register the capture hook for these kinds of events.
    RegisterCapture(TraceMask),
    /// Stop, and return this to the host.
    Finish(Result<bool, SqliteInstrumentError>),
}

/// A `LoadCommand` by what its strings hold.
pub enum LoadCommandView {
    ResolvePath,
    PrepareStore(Seq<char>),
    StartWorker,
    RegisterCapture(TraceMask),
    Finish(Result<bool, SqliteInstrumentError>),
}

impl View for LoadCommand {
    type V = LoadCommandView;

    open spec fn view(&self) -> LoadCommandView {
        match self {
            LoadCommand::ResolvePath => LoadCommandView::ResolvePath,
            LoadCommand::PrepareStore(path) => LoadCommandView::PrepareStore(path@),
            LoadCommand::StartWorker => LoadCommandView::StartWorker,
            LoadCommand::RegisterCapture(mask) => LoadCommandView::RegisterCapture(*mask),
            LoadCommand::Finish(outcome) => LoadCommandView::Finish(*outcome),
        }
    }
}

/// One step of a load: a line for the host's log, where there is one, and
/// then the command.
#[derive(Debug)]
pub struct LoadStep {
    /// The line to log before the command is carried out.
    pub diagnostic: Option<String>,
    /// What to do.
    pub command: LoadCommand,
}

/// A `LoadStep` by what its strings hold.
pub struct LoadStepView {
    pub diagnostic: Option<Seq<char>>,
    pub command: LoadCommandView,
}

impl View for LoadStep {
    type V = LoadStepView;

    open spec fn view(&self) -> LoadStepView {
        LoadStepView {
            diagnostic: match self.diagnostic {
                Some(line) => Some(line@),
                None => None,
            },
            command: self.command@,
        }
    }
}

/// The line logged when a load begins.
pub open spec fn start_message() -> Seq<char> {
    "Initializing SQLite Instrumentation Extension"@
}

/// The line logged when a load has succeeded.
pub open spec fn ready_message() -> Seq<char> {
    "SQLite Instrumentation Extension initialized successfully"@
}

/// The first step of a load.
pub open spec fn first_step() -> LoadStepView {
    LoadStepView { diagnostic: Some(start_message()), command: LoadCommandView::ResolvePath }
}

/// The last step of a load that succeeded: it logs that the pipeline is
/// ready and tells the host not to keep the extension.
pub open spec fn ready_step() -> LoadStepView {
    LoadStepView {
        diagnostic: Some(ready_message()),
        command: LoadCommandView::Finish(Ok(LOAD_PERMANENTLY)),
    }
}

/// A step without a line to log.
pub open spec fn silent(command: LoadCommandView) -> LoadStepView {
    LoadStepView { diagnostic: None, command }
}

/// What a reply holds: a failure, or success and the location found, if one
/// was looked up.
pub open spec fn reply_view(reply: Result<Option<String>, SqliteInstrumentError>) -> Result<
    Option<Seq<char>>,
    SqliteInstrumentError,
> {
    match reply {
        Ok(Some(path)) => Ok(Some(path@)),
        Ok(None) => Ok(None),
        Err(e) => Err(e),
    }
}

/// The next phase and step, given how the last command went: it failed, or
/// it succeeded, with the location found where it was to find one.
///
/// The setup runs in this order: the primary store's location, the trace
/// store beside it, the worker, the capture hook. The first failure ends the
/// load with that failure, and nothing further is set up; a location that
/// was not found counts as `MainNotFound`. After the hook is registered the
/// load ends with success, and the host is told not to keep the extension.
pub open spec fn next_step(
    phase: LoadPhase,
    reply: Result<Option<Seq<char>>, SqliteInstrumentError>,
) -> (LoadPhase, LoadStepView) {
    match reply {
        Err(e) => (LoadPhase::Finished, silent(LoadCommandView::Finish(Err(e)))),
        Ok(found) => match phase {
            LoadPhase::ResolvingPath => match found {
                Some(path) => (
                    LoadPhase::PreparingStore,
                    silent(LoadCommandView::PrepareStore(trace_db_path(path))),
                ),
                None => (
                    LoadPhase::Finished,
                    silent(LoadCommandView::Finish(Err(SqliteInstrumentError::MainNotFound))),
                ),
            },
            LoadPhase::PreparingStore => (
                LoadPhase::StartingWorker,
                silent(LoadCommandView::StartWorker),
            ),
            LoadPhase::StartingWorker => (
                LoadPhase::RegisteringCapture,
                silent(LoadCommandView::RegisterCapture(recorded_events())),
            ),
            LoadPhase::RegisteringCapture => (LoadPhase::Finished, ready_step()),
            LoadPhase::Finished => (
                LoadPhase::Finished,
                silent(LoadCommandView::Finish(Ok(LOAD_PERMANENTLY))),
            ),
        },
    }
}

/// The load of the extension into one connection, by telling its caller what
/// to set up next.
pub struct ExtensionLoad {
    phase: LoadPhase,
}

impl View for ExtensionLoad {
    type V = LoadPhase;

    closed spec fn view(&self) -> LoadPhase {
        self.phase
    }
}

impl ExtensionLoad {
    /// How far the load has come.
    pub fn phase(&self) -> (phase: LoadPhase)
        ensures
            phase == self@,
    {
        self.phase
    }

    /// Takes how the last command went and gives the next step.
    pub fn step(&mut self, reply: Result<Option<String>, SqliteInstrumentError>) -> (next: LoadStep)
        ensures
            (final(self)@, next@) == next_step(old(self)@, reply_view(reply)),
    {
        let (phase, command, ready) = match reply {
            Err(e) => (LoadPhase::Finished, LoadCommand::Finish(Err(e)), false),
            Ok(found) => match self.phase {
                LoadPhase::ResolvingPath => match found {
                    Some(path) => (
                        LoadPhase::PreparingStore,
                        LoadCommand::PrepareStore(create_trace_db_path(path.as_str())),
                        false,
                    ),
                    None => (
                        LoadPhase::Finished,
                        LoadCommand::Finish(Err(SqliteInstrumentError::MainNotFound)),
                        false,
                    ),
                },
                LoadPhase::PreparingStore => (
                    LoadPhase::StartingWorker,
                    LoadCommand::StartWorker,
                    false,
                ),
                LoadPhase::StartingWorker => (
                    LoadPhase::RegisteringCapture,
                    LoadCommand::RegisterCapture(
                        TraceMask { statements: true, profiles: true, rows: false, closes: false },
                    ),
                    false,
                ),
                LoadPhase::RegisteringCapture => (
                    LoadPhase::Finished,
                    LoadCommand::Finish(Ok(LOAD_PERMANENTLY)),
                    true,
                ),
                LoadPhase::Finished => (
                    LoadPhase::Finished,
                    LoadCommand::Finish(Ok(LOAD_PERMANENTLY)),
                    false,
                ),
            },
        };
        self.phase = phase;
        let diagnostic = if ready {
            Some(String::from_str("SQLite Instrumentation Extension initialized successfully"))
        } else {
            None
        };
        LoadStep { diagnostic, command }
    }
}

/// Begins the load of the extension: the first step logs that the load has
/// begun and asks for the primary store's location.
pub fn extension_init() -> (r: (ExtensionLoad, LoadStep))
    ensures
        r.0@ == LoadPhase::ResolvingPath,
        r.1@ == first_step(),
{
    (
        ExtensionLoad { phase: LoadPhase::ResolvingPath },
        LoadStep {
            diagnostic: Some(String::from_str("Initializing SQLite Instrumentation Extension")),
            command: LoadCommand::ResolvePath,
        },
    )
}

/// The steps given in answer to `replies`, one for each, starting in `phase`.
pub open spec fn load_run(
    phase: LoadPhase,
    replies: Seq<Result<Option<Seq<char>>, SqliteInstrumentError>>,
) -> Seq<LoadStepView>
    decreases replies.len(),
{
    if replies.len() == 0 {
        Seq::empty()
    } else {
        let (next, step) = next_step(phase, replies[0]);
        seq![step] + load_run(next, replies.drop_first())
    }
}

/// A load in which nothing fails sets everything up once, in this order:
/// given the primary store's location, it has the trace store beside it
/// initialized, the worker started and the capture hook registered for
/// statements and profiles, and then tells the host that the load succeeded
/// and that the extension is not to be kept.
pub proof fn lemma_load_sets_up_in_order(main_db_path: Seq<char>)
    ensures
        load_run(
            LoadPhase::ResolvingPath,
            seq![Ok(Some(main_db_path)), Ok(None), Ok(None), Ok(None)],
        ) == seq![
            silent(LoadCommandView::PrepareStore(trace_db_path(main_db_path))),
            silent(LoadCommandView::StartWorker),
            silent(LoadCommandView::RegisterCapture(recorded_events())),
            ready_step(),
        ],
{
    let replies: Seq<Result<Option<Seq<char>>, SqliteInstrumentError>> = seq![
        Ok(Some(main_db_path)),
        Ok(None),
        Ok(None),
        Ok(None),
    ];
    let r1 = replies.drop_first();
    let r2 = r1.drop_first();
    let r3 = r2.drop_first();
    let r4 = r3.drop_first();
    assert(r4.len() == 0);
    assert(load_run(LoadPhase::Finished, r4) =~= Seq::empty());
    assert(load_run(LoadPhase::RegisteringCapture, r3) =~= seq![
        ready_step(),
    ]);
    assert(load_run(LoadPhase::StartingWorker, r2) =~= seq![
        silent(LoadCommandView::RegisterCapture(recorded_events())),
        ready_step(),
    ]);
    assert(load_run(LoadPhase::PreparingStore, r1) =~= seq![
        silent(LoadCommandView::StartWorker),
        silent(LoadCommandView::RegisterCapture(recorded_events())),
        ready_step(),
    ]);
    assert(load_run(LoadPhase::ResolvingPath, replies) =~= seq![
        silent(LoadCommandView::PrepareStore(trace_db_path(main_db_path))),
        silent(LoadCommandView::StartWorker),
        silent(LoadCommandView::RegisterCapture(recorded_events())),
        ready_step(),
    ]);
}

/// A failure ends a load wherever it stands: the host is told that failure,
/// and whatever the load is told afterwards, it sets up nothing more.
pub proof fn lemma_failure_ends_the_load(
    phase: LoadPhase,
    e: SqliteInstrumentError,
    later: Seq<Result<Option<Seq<char>>, SqliteInstrumentError>>,
)
    ensures
        next_step(phase, Err(e)) == (LoadPhase::Finished, silent(LoadCommandView::Finish(Err(e)))),
        forall|i: int|
            0 <= i < later.len() ==> (#[trigger] load_run(LoadPhase::Finished, later)[i]).command
                is Finish,
        load_run(LoadPhase::Finished, later).len() == later.len(),
    decreases later.len(),
{
    if later.len() > 0 {
        let (next, step) = next_step(LoadPhase::Finished, later[0]);
        lemma_failure_ends_the_load(LoadPhase::Finished, e, later.drop_first());
        let rest = load_run(LoadPhase::Finished, later.drop_first());
        assert forall|i: int| 0 <= i < later.len() implies (#[trigger] load_run(
            LoadPhase::Finished,
            later,
        )[i]).command is Finish by {
            if i > 0 {
                assert((seq![step] + rest)[i] == rest[i - 1]);
            }
        }
    }
}

} // verus!
