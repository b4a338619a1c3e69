use std::io::ErrorKind;

use rusqlite::Error as WrappedError;
use vstd::prelude::*;
use vstd::std_specs::convert::FromSpecImpl;

use super::database_error::description_of;
use super::DatabaseError;
use crate::store::failure_of;
use crate::stream::{debug_name, error_kind, kind_name, kind_of};

verus! {

/// An error occurring during reading a file from the virtual file system.
#[derive(Debug, PartialEq)]
pub enum ReadError {
    /// The specified indices are out of bounds.
    OutOfBounds,
    /// The size of the indices or virtual files extend the bounds imposed by SQLite.
    FileSystemLimits,
    /// The sink written to raised an error.
    SinkError(ErrorKind),
    /// A general database error from SQLite.
    DatabaseError(DatabaseError),
}

impl ReadError {
    /// The text that describes the error.
    pub open spec fn text(self) -> Seq<char> {
        "Error during file reading: "@ + match self {
            ReadError::OutOfBounds => "The specified indices are out of bounds"@,
            ReadError::FileSystemLimits =>
                "The underlying database does not allow files of such size"@,
            ReadError::SinkError(kind) => "The data destination failed ('"@ + kind_name(kind)
                + "')"@,
            ReadError::DatabaseError(cause) => "The underlying database failed ('"@
                + description_of(cause@) + "')"@,
        }
    }
}

impl From<WrappedError> for ReadError {
    fn from(error: WrappedError) -> (converted: ReadError) {
        ReadError::DatabaseError(DatabaseError::from_store(error))
    }
}

impl FromSpecImpl<WrappedError> for ReadError {
    open spec fn obeys_from_spec() -> bool {
        true
    }

    open spec fn from_spec(error: WrappedError) -> ReadError {
        ReadError::DatabaseError(DatabaseError::of(failure_of(error)))
    }
}

impl From<std::io::Error> for ReadError {
    fn from(error: std::io::Error) -> (converted: ReadError) {
        ReadError::SinkError(error_kind(&error))
    }
}

impl FromSpecImpl<std::io::Error> for ReadError {
    open spec fn obeys_from_spec() -> bool {
        true
    }

    open spec fn from_spec(error: std::io::Error) -> ReadError {
        ReadError::SinkError(kind_of(error))
    }
}

impl super::Error for ReadError {
    open spec fn message(&self) -> Seq<char> {
        self.text()
    }

    fn error_message(&self) -> (text: String) {
        let mut text = String::from_str("Error during file reading: ");
        match self {
            ReadError::OutOfBounds => {
                text.append("The specified indices are out of bounds");
            },
            ReadError::FileSystemLimits => {
                text.append("The underlying database does not allow files of such size");
            },
            ReadError::SinkError(kind) => {
                text.append("The data destination failed ('");
                text.append(debug_name(*kind).as_str());
                text.append("')");
            },
            ReadError::DatabaseError(cause) => {
                text.append("The underlying database failed ('");
                text.append(cause.description().as_str());
                text.append("')");
            },
        }
        text
    }
}

} // verus!
