use sqlite_instrument::database::{get_database_path, DatabaseEntry, MAIN_DATABASE};
use sqlite_instrument::SqliteInstrumentError;

fn entry(seq: i32, name: &str, file: Option<&str>) -> Result<DatabaseEntry, rusqlite::Error> {
    Ok(DatabaseEntry { seq, name: name.to_string(), file: file.map(|f| f.to_string()) })
}

#[test]
fn main_database_with_a_file() {
    assert_eq!(MAIN_DATABASE, "main");
    let rows = vec![entry(0, "main", Some("/data/app.db")), entry(2, "aux", Some("/data/aux.db"))];
    assert_eq!(get_database_path(rows).unwrap(), "/data/app.db");
}

#[test]
fn main_database_without_a_file_is_in_memory() {
    let rows = vec![entry(0, "main", None)];
    assert_eq!(get_database_path(rows).unwrap(), ":memory:");
}

#[test]
fn main_database_with_an_empty_file_name() {
    let rows = vec![entry(0, "main", Some(""))];
    assert_eq!(get_database_path(rows).unwrap(), "");
}

#[test]
fn no_rows_means_main_not_found() {
    assert!(matches!(get_database_path(Vec::new()), Err(SqliteInstrumentError::MainNotFound)));
}

#[test]
fn other_databases_do_not_count() {
    let rows = vec![
        entry(1, "temp", Some("/tmp/t.db")),
        entry(1, "main", Some("/data/wrong-seq.db")),
        entry(0, "aux", Some("/data/wrong-name.db")),
        entry(0, "Main", Some("/data/wrong-case.db")),
    ];
    assert!(matches!(get_database_path(rows), Err(SqliteInstrumentError::MainNotFound)));
}

#[test]
fn first_main_row_wins() {
    let rows = vec![
        entry(1, "temp", None),
        entry(0, "main", Some("first.db")),
        entry(0, "main", Some("second.db")),
    ];
    assert_eq!(get_database_path(rows).unwrap(), "first.db");
}

#[test]
fn unreadable_row_before_main_is_the_error() {
    let rows = vec![
        entry(1, "temp", None),
        Err(rusqlite::Error::InvalidColumnIndex(7)),
        entry(0, "main", Some("app.db")),
    ];
    match get_database_path(rows) {
        Err(SqliteInstrumentError::Sql(rusqlite::Error::InvalidColumnIndex(7))) => {}
        other => panic!("unexpected {:?}", other),
    }
}

#[test]
fn unreadable_row_behind_main_is_not_looked_at() {
    let rows = vec![entry(0, "main", Some("app.db")), Err(rusqlite::Error::InvalidColumnIndex(7))];
    assert_eq!(get_database_path(rows).unwrap(), "app.db");
}
