use sqlite_instrument::extension::{
    extension_init, LoadCommand, LoadPhase, TraceMask, LOAD_PERMANENTLY,
};
use sqlite_instrument::SqliteInstrumentError;

#[test]
fn load_sets_everything_up_in_order() {
    assert!(!LOAD_PERMANENTLY);
    let (mut load, first) = extension_init();
    assert_eq!(load.phase(), LoadPhase::ResolvingPath);
    assert_eq!(first.diagnostic.unwrap(), "Initializing SQLite Instrumentation Extension");
    assert!(matches!(first.command, LoadCommand::ResolvePath));

    let step = load.step(Ok(Some("/data/app.db".to_string())));
    assert!(step.diagnostic.is_none());
    assert!(matches!(step.command, LoadCommand::PrepareStore(ref p) if p == "/data/app.trace.db"));
    assert_eq!(load.phase(), LoadPhase::PreparingStore);

    let step = load.step(Ok(None));
    assert!(step.diagnostic.is_none());
    assert!(matches!(step.command, LoadCommand::StartWorker));
    assert_eq!(load.phase(), LoadPhase::StartingWorker);

    let step = load.step(Ok(None));
    assert!(step.diagnostic.is_none());
    match step.command {
        LoadCommand::RegisterCapture(mask) => assert_eq!(
            mask,
            TraceMask { statements: true, profiles: true, rows: false, closes: false }
        ),
        other => panic!("unexpected {:?}", other),
    }
    assert_eq!(load.phase(), LoadPhase::RegisteringCapture);

    let step = load.step(Ok(None));
    assert_eq!(
        step.diagnostic.unwrap(),
        "SQLite Instrumentation Extension initialized successfully"
    );
    assert!(matches!(step.command, LoadCommand::Finish(Ok(false))));
    assert_eq!(load.phase(), LoadPhase::Finished);

    let step = load.step(Ok(None));
    assert!(step.diagnostic.is_none());
    assert!(matches!(step.command, LoadCommand::Finish(Ok(false))));
}

#[test]
fn in_memory_primary_store_gets_the_fallback_location() {
    let (mut load, _) = extension_init();
    let step = load.step(Ok(Some(":memory:".to_string())));
    assert!(matches!(step.command, LoadCommand::PrepareStore(ref p) if p == ":memory:.trace.db"));
}

#[test]
fn unknown_location_fails_the_load() {
    let (mut load, _) = extension_init();
    let step = load.step(Err(SqliteInstrumentError::MainNotFound));
    assert!(step.diagnostic.is_none());
    assert!(matches!(step.command, LoadCommand::Finish(Err(SqliteInstrumentError::MainNotFound))));
    assert_eq!(load.phase(), LoadPhase::Finished);

    let (mut load, _) = extension_init();
    let step = load.step(Ok(None));
    assert!(matches!(step.command, LoadCommand::Finish(Err(SqliteInstrumentError::MainNotFound))));
    assert_eq!(load.phase(), LoadPhase::Finished);
}

#[test]
fn failure_at_any_stage_ends_the_load() {
    for stage in 0..4 {
        let (mut load, _) = extension_init();
        let mut replies: Vec<Result<Option<String>, SqliteInstrumentError>> = Vec::new();
        replies.push(Ok(Some("app.db".to_string())));
        replies.push(Ok(None));
        replies.push(Ok(None));
        replies.push(Ok(None));
        replies.truncate(stage);
        for reply in replies {
            let step = load.step(reply);
            assert!(!matches!(step.command, LoadCommand::Finish(_)));
        }
        let step = load.step(Err(SqliteInstrumentError::Sql(rusqlite::Error::InvalidQuery)));
        assert!(step.diagnostic.is_none());
        assert!(matches!(
            step.command,
            LoadCommand::Finish(Err(SqliteInstrumentError::Sql(rusqlite::Error::InvalidQuery)))
        ));
        assert_eq!(load.phase(), LoadPhase::Finished);
    }
}
