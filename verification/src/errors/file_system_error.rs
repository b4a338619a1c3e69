use rusqlite::Error as WrappedError;
use vstd::prelude::*;
use vstd::std_specs::convert::FromSpecImpl;

use super::database_error::description_of;
use super::DatabaseError;
use crate::store::failure_of;
use crate::text::{decimal, push_decimal};

verus! {

/// An error occurring during the access of the virtual file system.
#[derive(Debug, PartialEq)]
pub enum FileSystemError {
    /// The database neither contains a virtual file system nor should one be created.
    NoFileSystem,
    /// One of the underlying SQL statements is invalid. Should not occur in the wild.
    InvalidBaseCommand(&'static str, WrappedError),
    /// The virtual file system has a version not supported by this version of the library.
    UnsupportedVersion(u32),
    /// A general database error from SQLite.
    DatabaseError(DatabaseError),
}

impl FileSystemError {
    /// The text that describes the error.
    pub open spec fn text(self) -> Seq<char> {
        "Error during loading of virtual file system from database: "@ + match self {
            FileSystemError::NoFileSystem =>
                "No virtual file system exists neither should it be created"@,
            FileSystemError::InvalidBaseCommand(sql, _) => "Preparing an base SQL command '"@
                + sql@ + "' failed"@,
            FileSystemError::UnsupportedVersion(version) =>
                "The version of the virtual file system '"@ + decimal(version as nat)
                    + "' is not compatible with the current library version"@,
            FileSystemError::DatabaseError(cause) => "The underlying database failed ('"@
                + description_of(cause@) + "')"@,
        }
    }
}

impl From<WrappedError> for FileSystemError {
    fn from(error: WrappedError) -> (converted: FileSystemError) {
        FileSystemError::DatabaseError(DatabaseError::from_store(error))
    }
}

impl FromSpecImpl<WrappedError> for FileSystemError {
    open spec fn obeys_from_spec() -> bool {
        true
    }

    open spec fn from_spec(error: WrappedError) -> FileSystemError {
        FileSystemError::DatabaseError(DatabaseError::of(failure_of(error)))
    }
}

impl super::Error for FileSystemError {
    open spec fn message(&self) -> Seq<char> {
        self.text()
    }

    fn error_message(&self) -> (text: String) {
        let mut text = String::from_str(
            "Error during loading of virtual file system from database: ",
        );
        match self {
            FileSystemError::NoFileSystem => {
                text.append("No virtual file system exists neither should it be created");
            },
            FileSystemError::InvalidBaseCommand(sql, _) => {
                text.append("Preparing an base SQL command '");
                text.append(sql);
                text.append("' failed");
            },
            FileSystemError::UnsupportedVersion(version) => {
                text.append("The version of the virtual file system '");
                push_decimal(&mut text, *version);
                text.append("' is not compatible with the current library version");
            },
            FileSystemError::DatabaseError(cause) => {
                text.append("The underlying database failed ('");
                text.append(cause.description().as_str());
                text.append("')");
            },
        }
        text
    }
}

} // verus!
