//! Schema bootstrap: applying a DDL script to the trace store, one command at
//! a time, and judging what the store's catalog holds afterwards.
//!
//! The store itself is out of reach here. `SchemaInitializer` decides what is
//! done to it next; its caller does that and reports how the store answered.

use crate::schema::{schema_statements, statements};
use crate::text::{decimal, push_decimal, texts};
use vstd::prelude::*;

verus! {

/// How many tables a bootstrapped trace store is expected to hold.
pub const EXPECTED_TABLE_COUNT: i32 = 2;

/// The names of the tables that a bootstrapped trace store is expected to hold.
pub open spec fn expected_table_names() -> Seq<Seq<char>> {
    seq!["ExecutionCount"@, "Profile"@]
}

/// A list of `n` parameter placeholders.
pub open spec fn placeholders(n: nat) -> Seq<char>
    decreases n,
{
    if n == 0 {
        Seq::empty()
    } else if n == 1 {
        "?"@
    } else {
        placeholders((n - 1) as nat) + ", ?"@
    }
}

/// The catalog query that counts how many of `n` named tables exist.
pub open spec fn verification_query_text(n: nat) -> Seq<char> {
    "SELECT COUNT(*) FROM sqlite_master WHERE type='table' AND name IN ("@ + placeholders(n)
        + ")"@
}

/// The diagnostic for a store that holds every expected table.
pub open spec fn created_message(trace_db_path: Seq<char>) -> Seq<char> {
    "Created trace database: "@ + trace_db_path
}

/// The warning for a store that holds `count` of the expected tables.
pub open spec fn partial_message(count: int) -> Seq<char> {
    "Warning: Only created "@ + decimal(count) + " of "@ + decimal(EXPECTED_TABLE_COUNT as int)
        + " expected tables in trace database"@
}

/// The diagnostic that ends an initialization whose catalog query counted
/// `count` expected tables.
pub open spec fn verification_message(trace_db_path: Seq<char>, count: int) -> Seq<char> {
    if count == EXPECTED_TABLE_COUNT {
        created_message(trace_db_path)
    } else {
        partial_message(count)
    }
}

/// The names of the expected tables, as the parameters of the catalog query.
pub fn expected_tables() -> (names: Vec<String>)
    ensures
        texts(names@) == expected_table_names(),
{
    let mut names: Vec<String> = Vec::new();
    names.push(String::from_str("ExecutionCount"));
    names.push(String::from_str("Profile"));
    assert(texts(names@) =~= expected_table_names());
    names
}

/// The catalog query for `n` table names.
pub fn verification_query(n: usize) -> (query: String)
    ensures
        query@ == verification_query_text(n as nat),
{
    let mut list = String::new();
    let mut i: usize = 0;
    while i < n
        invariant
            i <= n,
            list@ == placeholders(i as nat),
        decreases n - i,
    {
        if i == 0 {
            list.append("?");
            assert(Seq::<char>::empty() + "?"@ == "?"@);
        } else {
            list.append(", ?");
        }
        i += 1;
    }
    let mut query = String::from_str(
        "SELECT COUNT(*) FROM sqlite_master WHERE type='table' AND name IN (",
    );
    query.append(list.as_str());
    query.append(")");
    query
}

/// The diagnostic for a catalog query that counted `count` expected tables in
/// the store at `trace_db_path`.
pub fn verification_diagnostic(trace_db_path: &str, count: i32) -> (message: String)
    ensures
        message@ == verification_message(trace_db_path@, count as int),
{
    if count == EXPECTED_TABLE_COUNT {
        let mut message = String::from_str("Created trace database: ");
        message.append(trace_db_path);
        message
    } else {
        let mut message = String::from_str("Warning: Only created ");
        push_decimal(&mut message, count);
        message.append(" of ");
        push_decimal(&mut message, EXPECTED_TABLE_COUNT);
        message.append(" expected tables in trace database");
        message
    }
}

/// How far an initialization has come.
#[derive(Clone, Copy, Debug, PartialEq, Eq, Structural)]
pub enum InitPhase {
    /// The store is being opened.
    Opening,
    /// A statement of the script is being executed.
    Applying,
    /// The catalog is being queried for the expected tables.
    Verifying,
    /// The initialization has ended.
    Finished,
}

/// What the caller does to the store next.
#[derive(Debug)]
pub enum InitCommand {
    /// Open, or create, the store at this location.
    Open(String),
    /// Execute this statement.
    Execute(String),
    /// Run this catalog query with these table names as its parameters.
    CountTables(String, Vec<String>),
    /// Stop: emit the diagnostic, if there is one, and return the outcome.
    Finish(Option<String>, Result<(), rusqlite::Error>),
}

/// An `InitCommand` by what its strings hold.
pub enum InitCommandView {
    Open(Seq<char>),
    Execute(Seq<char>),
    CountTables(Seq<char>, Seq<Seq<char>>),
    Finish(Option<Seq<char>>, Result<(), rusqlite::Error>),
}

impl View for InitCommand {
    type V = InitCommandView;

    open spec fn view(&self) -> InitCommandView {
        match self {
            InitCommand::Open(path) => InitCommandView::Open(path@),
            InitCommand::Execute(statement) => InitCommandView::Execute(statement@),
            InitCommand::CountTables(query, names) => InitCommandView::CountTables(
                query@,
                texts(names@),
            ),
            InitCommand::Finish(diagnostic, outcome) => InitCommandView::Finish(
                match diagnostic {
                    Some(message) => Some(message@),
                    None => None,
                },
                *outcome,
            ),
        }
    }
}

/// The state of an initialization.
pub struct InitState {
    /// Where the store lives.
    pub trace_db_path: Seq<char>,
    /// The statements of the script, in order.
    pub statements: Seq<Seq<char>>,
    /// How many of them have been handed out for execution.
    pub issued: nat,
    /// How far the initialization has come.
    pub phase: InitPhase,
}

impl InitState {
    /// No more statements have been handed out than the script holds.
    pub open spec fn wf(self) -> bool {
        self.issued <= self.statements.len()
    }
}

/// The initialization of the store at `trace_db_path` from `script`, before
/// anything has been done.
pub open spec fn initial_state(trace_db_path: Seq<char>, script: Seq<char>) -> InitState {
    InitState {
        trace_db_path,
        statements: statements(script),
        issued: 0,
        phase: InitPhase::Opening,
    }
}

/// The command that checks the catalog.
pub open spec fn count_command() -> InitCommandView {
    InitCommandView::CountTables(
        verification_query_text(expected_table_names().len()),
        expected_table_names(),
    )
}

/// What follows a success while opening or applying: the next statement, or
/// the catalog query once every statement has been executed.
pub open spec fn advance(pre: InitState) -> (InitState, InitCommandView) {
    if pre.issued < pre.statements.len() {
        (
            InitState { issued: pre.issued + 1, phase: InitPhase::Applying, ..pre },
            InitCommandView::Execute(pre.statements[pre.issued as int]),
        )
    } else {
        (InitState { phase: InitPhase::Verifying, ..pre }, count_command())
    }
}

/// The next state and command, given how the store answered the last
/// command: with a failure, or with success and a number. The number is read
/// only in answer to the catalog query, where it is the count.
///
/// A failure ends the initialization with that failure. A count ends it with
/// success and a diagnostic, whatever the count is.
pub open spec fn init_step(pre: InitState, reply: Result<i32, rusqlite::Error>) -> (
    InitState,
    InitCommandView,
) {
    let finished = InitState { phase: InitPhase::Finished, ..pre };
    match reply {
        Err(e) => (finished, InitCommandView::Finish(None, Err(e))),
        Ok(number) => match pre.phase {
            InitPhase::Opening | InitPhase::Applying => advance(pre),
            InitPhase::Verifying => (
                finished,
                InitCommandView::Finish(
                    Some(verification_message(pre.trace_db_path, number as int)),
                    Ok(()),
                ),
            ),
            InitPhase::Finished => (finished, InitCommandView::Finish(None, Ok(()))),
        },
    }
}

/// The commands given in answer to `replies`, one for each, starting in `pre`.
pub open spec fn run(pre: InitState, replies: Seq<Result<i32, rusqlite::Error>>) -> Seq<
    InitCommandView,
>
    decreases replies.len(),
{
    if replies.len() == 0 {
        Seq::empty()
    } else {
        let (next, command) = init_step(pre, replies[0]);
        seq![command] + run(next, replies.drop_first())
    }
}

/// The statements among `commands` that are to be executed, in order.
pub open spec fn executed(commands: Seq<InitCommandView>) -> Seq<Seq<char>>
    decreases commands.len(),
{
    if commands.len() == 0 {
        Seq::empty()
    } else {
        let rest = executed(commands.drop_first());
        match commands[0] {
            InitCommandView::Execute(statement) => seq![statement] + rest,
            _ => rest,
        }
    }
}

/// Applies a DDL script to the trace store and checks that the expected
/// tables exist, by telling its caller what to do to the store.
pub struct SchemaInitializer {
    trace_db_path: String,
    statements: Vec<String>,
    issued: usize,
    phase: InitPhase,
}

impl View for SchemaInitializer {
    type V = InitState;

    closed spec fn view(&self) -> InitState {
        InitState {
            trace_db_path: self.trace_db_path@,
            statements: texts(self.statements@),
            issued: self.issued as nat,
            phase: self.phase,
        }
    }
}

impl SchemaInitializer {
    /// How far the initialization has come.
    pub fn phase(&self) -> (phase: InitPhase)
        ensures
            phase == self@.phase,
    {
        self.phase
    }

    /// Takes the store's answer to the last command and gives the next one.
    pub fn step(&mut self, reply: Result<i32, rusqlite::Error>) -> (command: InitCommand)
        ensures
            old(self)@.wf() ==> final(self)@.wf(),
            (final(self)@, command@) == init_step(old(self)@, reply),
    {
        match reply {
            Err(e) => {
                self.phase = InitPhase::Finished;
                InitCommand::Finish(None, Err(e))
            },
            Ok(number) => match self.phase {
                InitPhase::Opening | InitPhase::Applying => {
                    if self.issued < self.statements.len() {
                        let statement = self.statements[self.issued].clone();
                        self.issued = self.issued + 1;
                        self.phase = InitPhase::Applying;
                        InitCommand::Execute(statement)
                    } else {
                        self.phase = InitPhase::Verifying;
                        let names = expected_tables();
                        let query = verification_query(names.len());
                        InitCommand::CountTables(query, names)
                    }
                },
                InitPhase::Verifying => {
                    self.phase = InitPhase::Finished;
                    let message = verification_diagnostic(self.trace_db_path.as_str(), number);
                    InitCommand::Finish(Some(message), Ok(()))
                },
                InitPhase::Finished => InitCommand::Finish(None, Ok(())),
            },
        }
    }
}

/// Begins the initialization of the trace store at `trace_db_path` from the
/// DDL script `schema_sql`: the first command is to open the store.
pub fn create_trace_database(trace_db_path: &str, schema_sql: &str) -> (r: (
    SchemaInitializer,
    InitCommand,
))
    ensures
        r.0@.wf(),
        r.0@ == initial_state(trace_db_path@, schema_sql@),
        r.1@ == InitCommandView::Open(trace_db_path@),
{
    let initializer = SchemaInitializer {
        trace_db_path: String::from_str(trace_db_path),
        statements: schema_statements(schema_sql),
        issued: 0,
        phase: InitPhase::Opening,
    };
    (initializer, InitCommand::Open(String::from_str(trace_db_path)))
}

/// How many of `replies` come before the first failure.
pub open spec fn leading_successes(replies: Seq<Result<i32, rusqlite::Error>>) -> nat
    decreases replies.len(),
{
    if replies.len() == 0 || replies[0] is Err {
        0
    } else {
        1 + leading_successes(replies.drop_first())
    }
}

/// `n`, but no more than `limit`.
pub open spec fn at_most(n: int, limit: int) -> int {
    if n <= limit {
        n
    } else {
        limit
    }
}

/// The commands that execute `statements`, one each, in order.
pub open spec fn execute_commands(statements: Seq<Seq<char>>) -> Seq<InitCommandView> {
    statements.map_values(|statement: Seq<char>| InitCommandView::Execute(statement))
}

/// From any state, the statements executed in answer to `replies` are the
/// next ones of the script, one for each success until the first failure or
/// the end of the script.
#[verifier::rlimit(50)]
proof fn lemma_executed_from(pre: InitState, replies: Seq<Result<i32, rusqlite::Error>>)
    requires
        pre.wf(),
    ensures
        executed(run(pre, replies)) == (match pre.phase {
            InitPhase::Opening | InitPhase::Applying => pre.statements.subrange(
                pre.issued as int,
                pre.issued + at_most(
                    leading_successes(replies) as int,
                    pre.statements.len() - pre.issued,
                ),
            ),
            _ => Seq::empty(),
        }),
    decreases replies.len(),
{
    if replies.len() == 0 {
        assert(pre.statements.subrange(pre.issued as int, pre.issued as int) =~= Seq::empty());
    } else {
        let (next, command) = init_step(pre, replies[0]);
        let rest = run(next, replies.drop_first());
        lemma_executed_from(next, replies.drop_first());
        assert((seq![command] + rest).drop_first() =~= rest);
        match pre.phase {
            InitPhase::Opening | InitPhase::Applying => {
                if replies[0] is Err {
                    assert(pre.statements.subrange(pre.issued as int, pre.issued as int)
                        =~= Seq::empty());
                } else if pre.issued < pre.statements.len() {
                    let remaining = pre.statements.len() - pre.issued;
                    let later = leading_successes(replies.drop_first());
                    let count = if later <= remaining - 1 {
                        later as int
                    } else {
                        remaining - 1
                    };
                    assert(seq![pre.statements[pre.issued as int]] + pre.statements.subrange(
                        pre.issued as int + 1,
                        pre.issued + 1 + count,
                    ) =~= pre.statements.subrange(pre.issued as int, pre.issued + 1 + count));
                } else {
                    assert(pre.statements.subrange(pre.issued as int, pre.issued as int)
                        =~= Seq::empty());
                }
            },
            _ => {},
        }
    }
}

/// The initializer has exactly the statements of the script executed, in the
/// script's order: one for each success of the store, until the store fails
/// or the script ends. So a store that never fails executes every statement,
/// and a failure keeps every later statement from being executed.
pub proof fn lemma_executes_the_statements_in_order(
    trace_db_path: Seq<char>,
    script: Seq<char>,
    replies: Seq<Result<i32, rusqlite::Error>>,
)
    ensures
        executed(run(initial_state(trace_db_path, script), replies)) == statements(script).take(
            at_most(leading_successes(replies) as int, statements(script).len() as int),
        ),
{
    lemma_executed_from(initial_state(trace_db_path, script), replies);
}

/// From a state that is opening or applying, with `replies` all successes,
/// one for the command in flight and each statement left and one more for the
/// catalog query: the commands are those statements, the catalog query, and
/// the end with success and the diagnostic for the count.
#[verifier::rlimit(50)]
proof fn lemma_run_from(pre: InitState, replies: Seq<Result<i32, rusqlite::Error>>)
    requires
        pre.wf(),
        pre.phase == InitPhase::Opening || pre.phase == InitPhase::Applying,
        replies.len() == pre.statements.len() - pre.issued + 2,
        forall|i: int| 0 <= i < replies.len() ==> (#[trigger] replies[i]) is Ok,
    ensures
        run(pre, replies) == execute_commands(
            pre.statements.subrange(pre.issued as int, pre.statements.len() as int),
        ) + seq![
            count_command(),
            InitCommandView::Finish(
                Some(verification_message(pre.trace_db_path, replies.last()->Ok_0 as int)),
                Ok(()),
            ),
        ],
    decreases replies.len(),
{
    let (next, command) = init_step(pre, replies[0]);
    let later = replies.drop_first();
    let left = pre.statements.subrange(pre.issued as int, pre.statements.len() as int);
    assert(replies[0] is Ok);
    assert forall|i: int| 0 <= i < later.len() implies (#[trigger] later[i]) is Ok by {
        assert(later[i] == replies[i + 1]);
    }
    if pre.issued < pre.statements.len() {
        lemma_run_from(next, later);
        let after = pre.statements.subrange(pre.issued as int + 1, pre.statements.len() as int);
        assert(seq![command] + execute_commands(after) =~= execute_commands(left));
        assert(later.last() == replies.last());
    } else {
        assert(left =~= Seq::empty());
        assert(later.len() == 1);
        assert(later[0] is Ok);
        let (end, last) = init_step(next, later[0]);
        assert(later.drop_first().len() == 0);
        assert(run(end, later.drop_first()) =~= Seq::empty());
        assert(run(next, later) =~= seq![last]);
        assert(later[0] == replies.last());
        assert(run(pre, replies) =~= execute_commands(left) + seq![command, last]);
    }
}

/// On a store that never fails, the initializer runs to its end in the same
/// way whatever the catalog holds: it has each statement of the script
/// executed, in order, has the expected tables counted, and ends with success
/// and the diagnostic for the count.
pub proof fn lemma_runs_to_success(
    trace_db_path: Seq<char>,
    script: Seq<char>,
    replies: Seq<Result<i32, rusqlite::Error>>,
)
    requires
        replies.len() == statements(script).len() + 2,
        forall|i: int| 0 <= i < replies.len() ==> (#[trigger] replies[i]) is Ok,
    ensures
        run(initial_state(trace_db_path, script), replies) == execute_commands(statements(script))
            + seq![
            count_command(),
            InitCommandView::Finish(
                Some(verification_message(trace_db_path, replies.last()->Ok_0 as int)),
                Ok(()),
            ),
        ],
{
    let pre = initial_state(trace_db_path, script);
    lemma_run_from(pre, replies);
    assert(pre.statements.subrange(0, pre.statements.len() as int) =~= pre.statements);
}

/// A count that falls short of, or exceeds, the expected one does not fail
/// the initialization: it ends with success and a warning that names the
/// count.
pub proof fn lemma_count_mismatch_is_not_fatal(pre: InitState, count: i32)
    requires
        pre.phase == InitPhase::Verifying,
        count != EXPECTED_TABLE_COUNT,
    ensures
        init_step(pre, Ok(count)).1 == InitCommandView::Finish(Some(partial_message(count as int)), Ok(())),
        init_step(pre, Ok(count)).0.phase == InitPhase::Finished,
{
}

} // verus!
