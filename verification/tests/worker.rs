use sqlite_instrument::worker::{
    initialize, worker_action, LogMessage, LoggingWorker, OpenMode, WorkerAction, WorkerCommand,
    WorkerPhase, LINE_TERMINATOR, LOG_FILE,
};

fn sql(text: &str) -> LogMessage {
    LogMessage::Sql(text.to_string())
}

#[test]
fn statement_becomes_one_line() {
    assert_eq!(LINE_TERMINATOR, '\n');
    match worker_action(Some(sql("SELECT 1"))) {
        WorkerAction::Write(record) => assert_eq!(record, "SELECT 1\n"),
        other => panic!("unexpected {:?}", other),
    }
}

#[test]
fn sentinel_and_disconnection_flush_and_stop() {
    assert!(matches!(worker_action(Some(LogMessage::Shutdown)), WorkerAction::FlushAndStop));
    assert!(matches!(worker_action(None), WorkerAction::FlushAndStop));
}

#[test]
fn worker_opens_receives_writes_and_stops() {
    assert_eq!(LOG_FILE, "testicall.log");
    let (mut worker, first) = LoggingWorker::start();
    assert_eq!(worker.phase(), WorkerPhase::Opening);
    assert!(first.report.is_none());
    match first.command {
        WorkerCommand::Open(name, mode) => {
            assert_eq!(name, "testicall.log");
            assert_eq!(mode, OpenMode { create: true, append: true });
        }
        other => panic!("unexpected {:?}", other),
    }

    let step = worker.step(Ok(None));
    assert!(matches!(step.command, WorkerCommand::Receive));
    assert_eq!(worker.phase(), WorkerPhase::Receiving);

    let step = worker.step(Ok(Some(sql("INSERT INTO t VALUES (1)"))));
    assert!(step.report.is_none());
    assert!(
        matches!(step.command, WorkerCommand::Write(ref r) if r == "INSERT INTO t VALUES (1)\n")
    );
    assert_eq!(worker.phase(), WorkerPhase::Writing);

    let step = worker.step(Ok(None));
    assert!(step.report.is_none());
    assert!(matches!(step.command, WorkerCommand::Receive));

    let step = worker.step(Ok(Some(LogMessage::Shutdown)));
    assert!(matches!(step.command, WorkerCommand::Flush));
    assert_eq!(worker.phase(), WorkerPhase::Flushing);

    let step = worker.step(Ok(None));
    assert!(step.report.is_none());
    assert!(matches!(step.command, WorkerCommand::Stop));
    assert_eq!(worker.phase(), WorkerPhase::Stopped);

    let step = worker.step(Ok(Some(sql("late"))));
    assert!(matches!(step.command, WorkerCommand::Stop));
    assert_eq!(worker.phase(), WorkerPhase::Stopped);
}

#[test]
fn worker_gives_up_when_the_log_cannot_be_opened() {
    let (mut worker, _) = LoggingWorker::start();
    let step = worker.step(Err("permission denied".to_string()));
    assert!(step.report.is_none());
    match step.command {
        WorkerCommand::Abort(message) => {
            assert_eq!(message, "Failed to open testicall.log: permission denied")
        }
        other => panic!("unexpected {:?}", other),
    }
    assert_eq!(worker.phase(), WorkerPhase::Stopped);
}

#[test]
fn worker_reports_a_failed_write_and_goes_on() {
    let (mut worker, _) = LoggingWorker::start();
    worker.step(Ok(None));
    worker.step(Ok(Some(sql("a"))));
    let step = worker.step(Err("disk full".to_string()));
    assert_eq!(step.report.unwrap(), "Failed to write to log: disk full");
    assert!(matches!(step.command, WorkerCommand::Receive));
    assert_eq!(worker.phase(), WorkerPhase::Receiving);
    let step = worker.step(Ok(Some(sql("b"))));
    assert!(matches!(step.command, WorkerCommand::Write(ref r) if r == "b\n"));
}

#[test]
fn worker_reports_a_failed_flush_and_stops() {
    let (mut worker, _) = LoggingWorker::start();
    worker.step(Ok(None));
    let step = worker.step(Ok(None));
    assert!(matches!(step.command, WorkerCommand::Flush));
    let step = worker.step(Err("disk full".to_string()));
    assert_eq!(step.report.unwrap(), "Failed to flush log: disk full");
    assert!(matches!(step.command, WorkerCommand::Stop));
    assert_eq!(worker.phase(), WorkerPhase::Stopped);
}

#[test]
fn new_pipeline_is_empty_and_running() {
    let system = initialize();
    assert!(system.is_receiving());
    assert!(system.is_joinable());
    assert_eq!(system.pending(), 0);
    assert_eq!(system.durable(), 0);
    assert!(system.records().is_empty());
}

#[test]
fn messages_then_shutdown_are_all_persisted_in_order() {
    let mut system = initialize();
    let texts: Vec<String> = (0..25).map(|i| format!("INSERT INTO t VALUES ({})", i)).collect();
    for text in &texts {
        assert!(system.send(LogMessage::Sql(text.clone())));
    }
    assert_eq!(system.pending(), 25);
    assert!(system.shutdown());
    let expected: Vec<String> = texts.iter().map(|t| format!("{}\n", t)).collect();
    assert_eq!(system.records(), &expected);
    assert_eq!(system.durable(), 25);
    assert_eq!(system.pending(), 0);
    assert!(!system.is_receiving());
    assert!(!system.is_joinable());
}

#[test]
fn writes_are_buffered_until_the_worker_terminates() {
    let mut system = initialize();
    system.send(sql("a"));
    system.send(sql("b"));
    assert!(system.receive());
    assert!(system.receive());
    assert!(!system.receive());
    assert_eq!(system.records(), &vec!["a\n".to_string(), "b\n".to_string()]);
    assert_eq!(system.durable(), 0);
    system.shutdown();
    assert_eq!(system.durable(), 2);
}

#[test]
fn producers_side_by_side_keep_their_own_order() {
    let producers = 4;
    let per_producer = 10;
    let mut system = initialize();
    let mut next = vec![0; producers];
    let mut turn = 7usize;
    let mut sent = 0;
    while sent < producers * per_producer {
        turn = (turn * 31 + 11) % 101;
        let p = turn % producers;
        if next[p] < per_producer {
            system.send(LogMessage::Sql(format!("p{} m{}", p, next[p])));
            next[p] += 1;
            sent += 1;
        }
        if turn % 3 == 0 {
            system.receive();
        }
    }
    system.shutdown();
    assert_eq!(system.records().len(), producers * per_producer);
    assert_eq!(system.durable(), producers * per_producer);
    for p in 0..producers {
        let prefix = format!("p{} ", p);
        let own: Vec<&String> =
            system.records().iter().filter(|r| r.starts_with(&prefix)).collect();
        let expected: Vec<String> =
            (0..per_producer).map(|m| format!("p{} m{}\n", p, m)).collect();
        assert_eq!(own, expected.iter().collect::<Vec<_>>());
    }
}

#[test]
fn send_after_shutdown_is_silently_dropped() {
    let mut system = initialize();
    system.send(sql("before"));
    system.shutdown();
    assert!(!system.send(sql("after")));
    assert!(!system.receive());
    assert_eq!(system.pending(), 0);
    assert_eq!(system.records(), &vec!["before\n".to_string()]);
    assert_eq!(system.durable(), 1);
}

#[test]
fn second_shutdown_does_nothing() {
    let mut system = initialize();
    system.send(sql("only"));
    assert!(system.shutdown());
    assert!(!system.shutdown());
    assert!(!system.shutdown());
    assert_eq!(system.records(), &vec!["only\n".to_string()]);
    assert_eq!(system.durable(), 1);
    assert!(!system.is_joinable());
}

#[test]
fn messages_behind_the_sentinel_are_dropped() {
    let mut system = initialize();
    system.send(sql("kept"));
    system.send(LogMessage::Shutdown);
    system.send(sql("lost"));
    assert_eq!(system.pending(), 3);
    assert!(system.receive());
    assert!(system.receive());
    assert!(!system.is_receiving());
    assert_eq!(system.pending(), 0);
    assert_eq!(system.records(), &vec!["kept\n".to_string()]);
    assert_eq!(system.durable(), 1);
    assert!(system.is_joinable());
    assert!(system.shutdown());
    assert_eq!(system.records(), &vec!["kept\n".to_string()]);
}

#[test]
fn shutdown_of_an_idle_pipeline() {
    let mut system = initialize();
    assert!(system.shutdown());
    assert!(system.records().is_empty());
    assert_eq!(system.durable(), 0);
    assert!(!system.is_receiving());
}
