//! The errors that setup can end in.

use vstd::prelude::*;
use vstd::string::to_string_from_display_ensures;

verus! {

/// The store's native error, `rusqlite::Error`. Nothing is claimed of what is
/// inside it: it is carried from the store's reply to the caller, and shown
/// by its own `Display`.
#[verifier::external_type_specification]
#[verifier::external_body]
pub struct ExStoreError(rusqlite::Error);

/// Why setup failed.
#[derive(Debug)]
pub enum SqliteInstrumentError {
    /// The underlying store failed while it was opened, changed or queried.
    Sql(rusqlite::Error),
    /// The connection lists no `main` database, so no primary location is known.
    MainNotFound,
}

impl SqliteInstrumentError {
    /// What the error displays as, given the text `store_text` that a store
    /// error displays as.
    pub open spec fn message_text(self, store_text: Seq<char>) -> Seq<char> {
        match self {
            SqliteInstrumentError::Sql(_) => "rusqlite error: "@ + store_text,
            SqliteInstrumentError::MainNotFound => "`main` database not found"@,
        }
    }

    /// The text shown to the operator for this error.
    pub fn message(&self) -> (out: String)
        ensures
            self is MainNotFound ==> out@ == self.message_text(Seq::empty()),
            self matches SqliteInstrumentError::Sql(e) ==> exists|text: String|
                to_string_from_display_ensures::<rusqlite::Error>(&e, text) && out@
                    == self.message_text(text@),
    {
        match self {
            SqliteInstrumentError::Sql(e) => {
                let text = e.to_string();
                let mut out = String::from_str("rusqlite error: ");
                out.append(text.as_str());
                out
            },
            SqliteInstrumentError::MainNotFound => String::from_str("`main` database not found"),
        }
    }
}

impl From<rusqlite::Error> for SqliteInstrumentError {
    fn from(e: rusqlite::Error) -> (out: SqliteInstrumentError) {
        SqliteInstrumentError::Sql(e)
    }
}

impl vstd::std_specs::convert::FromSpecImpl<rusqlite::Error> for SqliteInstrumentError {
    open spec fn obeys_from_spec() -> bool {
        true
    }

    open spec fn from_spec(e: rusqlite::Error) -> SqliteInstrumentError {
        SqliteInstrumentError::Sql(e)
    }
}

} // verus!
