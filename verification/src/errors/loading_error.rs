use rusqlite::Error as WrappedError;
use vstd::prelude::*;
use vstd::std_specs::convert::FromSpecImpl;

use super::database_error::description_of;
use super::DatabaseError;
use crate::store::failure_of;

verus! {

/// An error occurring during the loading of a file from the virtual file system.
#[derive(Debug, PartialEq)]
pub enum LoadingError {
    /// The requested file is not found in the virtual file system.
    FileNotFound,
    /// A general database error from SQLite.
    DatabaseError(DatabaseError),
}

impl LoadingError {
    /// The text that describes the error.
    pub open spec fn text(self) -> Seq<char> {
        "Error during file loading: "@ + match self {
            LoadingError::FileNotFound => "The requested file does not exist"@,
            LoadingError::DatabaseError(cause) => "The underlying database failed ('"@
                + description_of(cause@) + "')"@,
        }
    }
}

impl From<WrappedError> for LoadingError {
    fn from(error: WrappedError) -> (converted: LoadingError) {
        LoadingError::DatabaseError(DatabaseError::from_store(error))
    }
}

impl FromSpecImpl<WrappedError> for LoadingError {
    open spec fn obeys_from_spec() -> bool {
        true
    }

    open spec fn from_spec(error: WrappedError) -> LoadingError {
        LoadingError::DatabaseError(DatabaseError::of(failure_of(error)))
    }
}

impl super::Error for LoadingError {
    open spec fn message(&self) -> Seq<char> {
        self.text()
    }

    fn error_message(&self) -> (text: String) {
        let mut text = String::from_str("Error during file loading: ");
        match self {
            LoadingError::FileNotFound => {
                text.append("The requested file does not exist");
            },
            LoadingError::DatabaseError(cause) => {
                text.append("The underlying database failed ('");
                text.append(cause.description().as_str());
                text.append("')");
            },
        }
        text
    }
}

} // verus!
