use std::io::ErrorKind;

use rusqlite::Error as WrappedError;
use vstd::prelude::*;
use vstd::std_specs::convert::FromSpecImpl;

use super::database_error::{
    database_error_of, description_of, is_constraint_code, SQLITE_CONSTRAINT,
};
use super::DatabaseError;
use crate::store::{failure_of, StoreFailure};
use crate::stream::{debug_name, error_kind, kind_name, kind_of};

verus! {

/// An error occurring during the creation of a file in the virtual file system.
#[derive(Debug, PartialEq)]
pub enum CreationError {
    /// A file already exists under this path.
    FileExists,
    /// The data source raised an error.
    SourceError(ErrorKind),
    /// A general database error from SQLite.
    DatabaseError(DatabaseError),
}

/// Whether `error` is the error for a failed insertion of a file's entry, read off the
/// failure of the store: a violated constraint means that the path is taken, anything
/// else is the store's own failure.
pub open spec fn is_entry_refusal(failure: StoreFailure, error: CreationError) -> bool {
    if failure matches StoreFailure::Sqlite { code, .. } && is_constraint_code(code) {
        error is FileExists
    } else {
        error matches CreationError::DatabaseError(cause) && cause@ == database_error_of(failure)
    }
}

/// The error for a failed insertion of a file's entry, as a value: a violated constraint
/// means that the path is taken, anything else is the store's own failure.
pub open spec fn entry_refusal(failure: StoreFailure) -> CreationError {
    if failure matches StoreFailure::Sqlite { code, .. } && is_constraint_code(code) {
        CreationError::FileExists
    } else {
        CreationError::DatabaseError(DatabaseError::of(failure))
    }
}

impl CreationError {
    /// The error for a failed insertion of a file's entry.
    pub fn from_entry_failure(failure: StoreFailure) -> (error: CreationError)
        ensures
            error == entry_refusal(failure),
            is_entry_refusal(failure, error),
    {
        match failure {
            StoreFailure::Sqlite { code, message } => {
                if (code & 0xff) == SQLITE_CONSTRAINT {
                    CreationError::FileExists
                } else {
                    CreationError::DatabaseError(DatabaseError::new(code, message))
                }
            },
            StoreFailure::Binding { description } => CreationError::DatabaseError(
                DatabaseError::from_failure(StoreFailure::Binding { description }),
            ),
        }
    }

    /// The text that describes the error.
    pub open spec fn text(self) -> Seq<char> {
        "Error during file creation: "@ + match self {
            CreationError::FileExists => "File does already exists"@,
            CreationError::SourceError(kind) => "The data source failed ('"@ + kind_name(kind)
                + "')"@,
            CreationError::DatabaseError(cause) => "The underlying database failed ('"@
                + description_of(cause@) + "')"@,
        }
    }
}

impl From<WrappedError> for CreationError {
    fn from(error: WrappedError) -> (converted: CreationError) {
        CreationError::DatabaseError(DatabaseError::from_store(error))
    }
}

impl FromSpecImpl<WrappedError> for CreationError {
    open spec fn obeys_from_spec() -> bool {
        true
    }

    open spec fn from_spec(error: WrappedError) -> CreationError {
        CreationError::DatabaseError(DatabaseError::of(failure_of(error)))
    }
}

impl From<std::io::Error> for CreationError {
    fn from(error: std::io::Error) -> (converted: CreationError) {
        CreationError::SourceError(error_kind(&error))
    }
}

impl FromSpecImpl<std::io::Error> for CreationError {
    open spec fn obeys_from_spec() -> bool {
        true
    }

    open spec fn from_spec(error: std::io::Error) -> CreationError {
        CreationError::SourceError(kind_of(error))
    }
}

impl super::Error for CreationError {
    open spec fn message(&self) -> Seq<char> {
        self.text()
    }

    fn error_message(&self) -> (text: String) {
        let mut text = String::from_str("Error during file creation: ");
        match self {
            CreationError::FileExists => {
                text.append("File does already exists");
            },
            CreationError::SourceError(kind) => {
                text.append("The data source failed ('");
                text.append(debug_name(*kind).as_str());
                text.append("')");
            },
            CreationError::DatabaseError(cause) => {
                text.append("The underlying database failed ('");
                text.append(cause.description().as_str());
                text.append("')");
            },
        }
        text
    }
}

} // verus!
