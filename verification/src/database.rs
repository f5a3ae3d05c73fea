//! Finding the primary store among the databases that a connection lists.

use crate::error::SqliteInstrumentError;
use crate::path::IN_MEMORY;
use vstd::prelude::*;

verus! {

/// The name under which a connection lists its primary database.
pub const MAIN_DATABASE: &'static str = "main";

/// One row of a connection's database list.
#[derive(Debug)]
pub struct DatabaseEntry {
    /// The position of the database on the connection.
    pub seq: i32,
    /// The name under which the database is attached.
    pub name: String,
    /// The file that backs the database, if one does.
    pub file: Option<String>,
}

impl DatabaseEntry {
    /// Whether this row lists the primary database: the one named `main`, in
    /// the first position.
    pub open spec fn is_main(self) -> bool {
        self.seq == 0 && self.name@ == MAIN_DATABASE@
    }

    /// The location of the database: its file, or the in-memory sentinel
    /// where no file backs it.
    pub open spec fn location(self) -> Seq<char> {
        match self.file {
            Some(file) => file@,
            None => IN_MEMORY@,
        }
    }
}

/// Whether the search ends at `row`: it could not be read, or it lists the
/// primary database.
pub open spec fn decides(row: Result<DatabaseEntry, rusqlite::Error>) -> bool {
    match row {
        Ok(entry) => entry.is_main(),
        Err(_) => true,
    }
}

/// The index of the first row at which the search ends, or `rows.len()` where
/// it ends at none.
pub open spec fn first_deciding(rows: Seq<Result<DatabaseEntry, rusqlite::Error>>) -> int
    decreases rows.len(),
{
    if rows.len() == 0 || decides(rows[0]) {
        0
    } else {
        1 + first_deciding(rows.drop_first())
    }
}

/// The location of the primary database, given the rows of the connection's
/// database list in the order in which they were read.
///
/// The rows are searched in order. A row that could not be read ends the
/// search with its error; the row of the primary database ends it with that
/// database's location. Rows behind the one that ends the search are not
/// looked at. A list without such a row gives `MainNotFound`.
pub fn get_database_path(rows: Vec<Result<DatabaseEntry, rusqlite::Error>>) -> (r: Result<
    String,
    SqliteInstrumentError,
>)
    ensures
        ({
            let i = first_deciding(rows@);
            if i >= rows@.len() {
                r == Err::<String, SqliteInstrumentError>(SqliteInstrumentError::MainNotFound)
            } else {
                match rows@[i] {
                    Ok(entry) => r matches Ok(path) && path@ == entry.location(),
                    Err(e) => r == Err::<String, SqliteInstrumentError>(
                        SqliteInstrumentError::Sql(e),
                    ),
                }
            }
        }),
{
    let main = String::from_str(MAIN_DATABASE);
    let mut rows = rows;
    let ghost all = rows@;
    let mut i: usize = 0;
    assert(all.skip(0) == all);
    while i < rows.len()
        invariant
            i <= rows.len(),
            rows@ == all,
            main@ == MAIN_DATABASE@,
            first_deciding(all) == i + first_deciding(all.skip(i as int)),
        ensures
            i <= rows.len(),
            rows@ == all,
            first_deciding(all) == i,
        decreases rows.len() - i,
    {
        let ends = match &rows[i] {
            Ok(entry) => entry.seq == 0 && entry.name == main,
            Err(_) => true,
        };
        assert(all.skip(i as int)[0] == all[i as int]);
        if ends {
            break ;
        }
        assert(all.skip(i as int).drop_first() == all.skip(i + 1));
        i += 1;
    }
    if i < rows.len() {
        match rows.remove(i) {
            Ok(entry) => match entry.file {
                Some(file) => Ok(file),
                None => Ok(String::from_str(IN_MEMORY)),
            },
            Err(e) => Err(SqliteInstrumentError::Sql(e)),
        }
    } else {
        Err(SqliteInstrumentError::MainNotFound)
    }
}

} // verus!
