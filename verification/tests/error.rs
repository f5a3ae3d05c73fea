use sqlite_instrument::SqliteInstrumentError;

#[test]
fn main_not_found_message() {
    assert_eq!(SqliteInstrumentError::MainNotFound.message(), "`main` database not found");
}

#[test]
fn store_error_message_has_the_store_text() {
    let text = rusqlite::Error::QueryReturnedNoRows.to_string();
    assert!(!text.is_empty());
    let error = SqliteInstrumentError::Sql(rusqlite::Error::QueryReturnedNoRows);
    assert_eq!(error.message(), format!("rusqlite error: {}", text));
}

#[test]
fn store_error_converts() {
    let error: SqliteInstrumentError = rusqlite::Error::InvalidColumnIndex(3).into();
    assert!(matches!(error, SqliteInstrumentError::Sql(rusqlite::Error::InvalidColumnIndex(3))));
    let error = SqliteInstrumentError::from(rusqlite::Error::InvalidQuery);
    assert!(matches!(error, SqliteInstrumentError::Sql(rusqlite::Error::InvalidQuery)));
}
