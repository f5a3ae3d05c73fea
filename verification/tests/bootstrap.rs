use sqlite_instrument::bootstrap::{
    create_trace_database, expected_tables, verification_diagnostic, verification_query,
    InitCommand, InitPhase, EXPECTED_TABLE_COUNT,
};

/// A store that remembers what it was told, and counts the expected tables
/// among the `CREATE TABLE` statements it executed.
struct Store {
    opened: Vec<String>,
    executed: Vec<String>,
    queries: Vec<(String, Vec<String>)>,
    fail_on: Option<usize>,
}

impl Store {
    fn new() -> Store {
        Store { opened: Vec::new(), executed: Vec::new(), queries: Vec::new(), fail_on: None }
    }

    fn count(&self, names: &[String]) -> i32 {
        let mut count = 0;
        for name in names {
            let wanted = format!("CREATE TABLE {}(", name);
            if self.executed.iter().any(|statement| statement.starts_with(&wanted)) {
                count += 1;
            }
        }
        count
    }
}

/// Runs an initialization to its end against `store`.
fn run(store: &mut Store, path: &str, script: &str) -> (Option<String>, Result<(), rusqlite::Error>) {
    let (mut initializer, mut command) = create_trace_database(path, script);
    assert_eq!(initializer.phase(), InitPhase::Opening);
    for _ in 0..1000 {
        let reply = match command {
            InitCommand::Open(path) => {
                store.opened.push(path);
                Ok(0)
            }
            InitCommand::Execute(statement) => {
                store.executed.push(statement);
                if store.fail_on == Some(store.executed.len()) {
                    Err(rusqlite::Error::InvalidQuery)
                } else {
                    Ok(0)
                }
            }
            InitCommand::CountTables(query, names) => {
                let count = store.count(&names);
                store.queries.push((query, names));
                Ok(count)
            }
            InitCommand::Finish(diagnostic, outcome) => {
                assert_eq!(initializer.phase(), InitPhase::Finished);
                return (diagnostic, outcome);
            }
        };
        command = initializer.step(reply);
    }
    panic!("the initialization did not end");
}

#[test]
fn executes_the_two_statements_of_the_script() {
    let mut store = Store::new();
    let (_, outcome) =
        run(&mut store, "t.db", "-- note\nCREATE TABLE A(x);\n \nCREATE TABLE B(y);");
    assert!(outcome.is_ok());
    assert_eq!(store.opened, vec!["t.db"]);
    assert_eq!(store.executed, vec!["CREATE TABLE A(x)", "CREATE TABLE B(y)"]);
}

#[test]
fn full_schema_reports_the_created_store() {
    let mut store = Store::new();
    let script = "CREATE TABLE ExecutionCount(sql TEXT, count INTEGER);\n\
                  CREATE TABLE Profile(sql TEXT, duration INTEGER, at INTEGER);\n";
    let (diagnostic, outcome) = run(&mut store, "/data/app.trace.db", script);
    assert!(outcome.is_ok());
    assert_eq!(diagnostic.unwrap(), "Created trace database: /data/app.trace.db");
    assert_eq!(store.executed.len(), 2);
    assert_eq!(
        store.queries,
        vec![(
            "SELECT COUNT(*) FROM sqlite_master WHERE type='table' AND name IN (?, ?)".to_string(),
            vec!["ExecutionCount".to_string(), "Profile".to_string()]
        )]
    );
}

#[test]
fn missing_table_warns_and_still_succeeds() {
    let mut store = Store::new();
    let script = "CREATE TABLE ExecutionCount(sql TEXT, count INTEGER);";
    let (diagnostic, outcome) = run(&mut store, "app.trace.db", script);
    assert!(outcome.is_ok());
    assert_eq!(
        diagnostic.unwrap(),
        "Warning: Only created 1 of 2 expected tables in trace database"
    );
}

#[test]
fn empty_script_goes_straight_to_the_catalog() {
    let mut store = Store::new();
    let (diagnostic, outcome) = run(&mut store, "app.trace.db", "-- nothing\n;;");
    assert!(outcome.is_ok());
    assert!(store.executed.is_empty());
    assert_eq!(store.queries.len(), 1);
    assert_eq!(
        diagnostic.unwrap(),
        "Warning: Only created 0 of 2 expected tables in trace database"
    );
}

#[test]
fn failing_statement_aborts() {
    let mut store = Store::new();
    store.fail_on = Some(2);
    let (diagnostic, outcome) = run(&mut store, "app.trace.db", "A;B;C;D");
    assert!(matches!(outcome, Err(rusqlite::Error::InvalidQuery)));
    assert!(diagnostic.is_none());
    assert_eq!(store.executed, vec!["A", "B"]);
    assert!(store.queries.is_empty());
}

#[test]
fn failing_open_executes_nothing() {
    let (mut initializer, command) = create_trace_database("/no/such/dir/t.db", "A;B");
    assert!(matches!(command, InitCommand::Open(ref path) if path == "/no/such/dir/t.db"));
    match initializer.step(Err(rusqlite::Error::InvalidQuery)) {
        InitCommand::Finish(None, Err(rusqlite::Error::InvalidQuery)) => {}
        other => panic!("unexpected {:?}", other),
    }
    assert_eq!(initializer.phase(), InitPhase::Finished);
}

#[test]
fn failing_catalog_query_is_the_error() {
    let (mut initializer, _) = create_trace_database("t.db", "A");
    assert!(matches!(initializer.step(Ok(0)), InitCommand::Execute(ref s) if s == "A"));
    assert_eq!(initializer.phase(), InitPhase::Applying);
    assert!(matches!(initializer.step(Ok(1)), InitCommand::CountTables(_, _)));
    assert_eq!(initializer.phase(), InitPhase::Verifying);
    match initializer.step(Err(rusqlite::Error::QueryReturnedNoRows)) {
        InitCommand::Finish(None, Err(rusqlite::Error::QueryReturnedNoRows)) => {}
        other => panic!("unexpected {:?}", other),
    }
}

#[test]
fn finished_initializer_stays_finished() {
    let (mut initializer, _) = create_trace_database("t.db", "");
    assert!(matches!(initializer.step(Ok(0)), InitCommand::CountTables(_, _)));
    assert!(matches!(initializer.step(Ok(2)), InitCommand::Finish(Some(_), Ok(()))));
    assert!(matches!(initializer.step(Ok(5)), InitCommand::Finish(None, Ok(()))));
    assert!(matches!(
        initializer.step(Err(rusqlite::Error::InvalidQuery)),
        InitCommand::Finish(None, Err(rusqlite::Error::InvalidQuery))
    ));
    assert_eq!(initializer.phase(), InitPhase::Finished);
}

#[test]
fn expected_tables_and_query() {
    assert_eq!(EXPECTED_TABLE_COUNT, 2);
    assert_eq!(expected_tables(), vec!["ExecutionCount", "Profile"]);
    assert_eq!(
        verification_query(0),
        "SELECT COUNT(*) FROM sqlite_master WHERE type='table' AND name IN ()"
    );
    assert_eq!(
        verification_query(1),
        "SELECT COUNT(*) FROM sqlite_master WHERE type='table' AND name IN (?)"
    );
    assert_eq!(
        verification_query(3),
        "SELECT COUNT(*) FROM sqlite_master WHERE type='table' AND name IN (?, ?, ?)"
    );
}

#[test]
fn diagnostics_for_every_count() {
    assert_eq!(verification_diagnostic("x.db", 2), "Created trace database: x.db");
    assert_eq!(
        verification_diagnostic("x.db", 0),
        "Warning: Only created 0 of 2 expected tables in trace database"
    );
    assert_eq!(
        verification_diagnostic("x.db", 3),
        "Warning: Only created 3 of 2 expected tables in trace database"
    );
    assert_eq!(
        verification_diagnostic("x.db", -1),
        "Warning: Only created -1 of 2 expected tables in trace database"
    );
}
