use rusqlite::Error as WrappedError;
use vstd::prelude::*;

use crate::store::{failure_of, read_failure, StoreFailure};

verus! {

/// The primary result code of SQLite for an internal malfunction.
pub const SQLITE_INTERNAL: i32 = 2;

/// The primary result code of SQLite for a constraint violation.
pub const SQLITE_CONSTRAINT: i32 = 19;

/// The primary result code of SQLite for a string or blob beyond the size limit.
pub const SQLITE_TOOBIG: i32 = 18;

/// The primary result code of SQLite for an interface used incorrectly.
pub const SQLITE_MISUSE: i32 = 21;

/// Whether a result code of SQLite, extended or not, reports a constraint violation: the
/// primary code is its lowest byte.
pub open spec fn is_constraint_code(code: i32) -> bool {
    code & 0xff == SQLITE_CONSTRAINT
}

/// An error raised and described by SQLite: its result code and, if SQLite gave one, its
/// message.
#[derive(Debug, Clone, PartialEq, Eq)]
pub struct DatabaseError {
    code: i32,
    message: Option<String>,
}

impl View for DatabaseError {
    type V = (i32, Option<Seq<char>>);

    closed spec fn view(&self) -> (i32, Option<Seq<char>>) {
        (
            self.code,
            match self.message {
                Some(text) => Some(text@),
                None => None,
            },
        )
    }
}

/// The database error that stands for a failure of the store. A failure of the binding
/// layer has no result code of its own: it is reported as a misuse of the interface,
/// described by the text of the failure.
pub open spec fn database_error_of(failure: StoreFailure) -> (i32, Option<Seq<char>>) {
    match failure {
        StoreFailure::Sqlite { code, message } => (
            code,
            match message {
                Some(text) => Some(text@),
                None => None,
            },
        ),
        StoreFailure::Binding { description } => (SQLITE_MISUSE, Some(description@)),
    }
}

/// The text shown for a database error: its message, or a fixed text where SQLite gave
/// none.
pub open spec fn description_of(error: (i32, Option<Seq<char>>)) -> Seq<char> {
    match error.1 {
        Some(text) => text,
        None => DatabaseError::MISSING_MESSAGE@,
    }
}

/// What the engine hands on of an answer of the store: the answer itself, or its failure
/// as a database error.
pub open spec fn reported<T>(answer: Result<T, WrappedError>) -> Result<T, DatabaseError> {
    match answer {
        Ok(value) => Ok(value),
        Err(error) => Err(DatabaseError::of(failure_of(error))),
    }
}

impl DatabaseError {
    /// Message returned if SQLite does not specify an error.
    pub const MISSING_MESSAGE: &'static str = "<Unknown SQLite error>";

    /// Message for a failure of the database access that SQLite itself did not report. A
    /// caller that takes such a failure for fatal ends with this message.
    pub const LOGIC_ERROR_MESSAGE: &'static str = "Logic error during database access";

    /// An error with the given result code and message.
    pub fn new(code: i32, message: Option<String>) -> (error: DatabaseError)
        ensures
            error == DatabaseError::of(StoreFailure::Sqlite { code, message }),
            error@ == (
                code,
                match message {
                    Some(text) => Some(text@),
                    None => None,
                },
            ),
    {
        DatabaseError { code, message }
    }

    /// The error that stands for a failure of the store, as a value.
    pub closed spec fn of(failure: StoreFailure) -> DatabaseError {
        match failure {
            StoreFailure::Sqlite { code, message } => DatabaseError { code, message },
            StoreFailure::Binding { description } => DatabaseError {
                code: SQLITE_MISUSE,
                message: Some(description),
            },
        }
    }

    /// What [`DatabaseError::of`] holds: the code and the message of the failure.
    pub proof fn lemma_view_of(failure: StoreFailure)
        ensures
            DatabaseError::of(failure)@ == database_error_of(failure),
    {
    }

    /// The error that stands for a failure of the store, whatever the failure is.
    pub fn from_failure(failure: StoreFailure) -> (error: DatabaseError)
        ensures
            error == DatabaseError::of(failure),
            error@ == database_error_of(failure),
    {
        match failure {
            StoreFailure::Sqlite { code, message } => DatabaseError { code, message },
            StoreFailure::Binding { description } => DatabaseError {
                code: SQLITE_MISUSE,
                message: Some(description),
            },
        }
    }

    /// The error that stands for a failure of `rusqlite`, whatever the failure is.
    pub fn from_store(error: WrappedError) -> (converted: DatabaseError)
        ensures
            converted == DatabaseError::of(failure_of(error)),
            converted@ == database_error_of(failure_of(error)),
    {
        DatabaseError::from_failure(read_failure(error))
    }

    /// Hands on an answer of the store: the answer itself, or its failure as a database
    /// error.
    pub fn report<T>(answer: Result<T, WrappedError>) -> (handed: Result<T, DatabaseError>)
        ensures
            handed == reported(answer),
    {
        match answer {
            Ok(value) => Ok(value),
            Err(error) => Err(DatabaseError::from_store(error)),
        }
    }

    /// Converts a failure that SQLite itself reported; any other failure of `rusqlite` is
    /// refused.
    pub fn try_from(value: WrappedError) -> (converted: Result<DatabaseError, ()>)
        ensures
            failure_of(value) is Sqlite ==> (converted matches Ok(error) && error@
                == database_error_of(failure_of(value))),
            failure_of(value) is Binding ==> converted is Err,
    {
        match read_failure(value) {
            StoreFailure::Sqlite { code, message } => Ok(DatabaseError { code, message }),
            StoreFailure::Binding { .. } => Err(()),
        }
    }

    /// The result code that SQLite reported, extended where SQLite extended it.
    pub fn code(&self) -> (code: i32)
        ensures
            code == self@.0,
    {
        self.code
    }

    /// Whether the error reports a violated constraint.
    pub fn is_constraint_violation(&self) -> (yes: bool)
        ensures
            yes == is_constraint_code(self@.0),
    {
        (self.code & 0xff) == SQLITE_CONSTRAINT
    }

    /// The text shown for the error.
    pub fn description(&self) -> (text: String)
        ensures
            text@ == description_of(self@),
    {
        match &self.message {
            Some(message) => message.clone(),
            None => String::from_str(DatabaseError::MISSING_MESSAGE),
        }
    }
}

} // verus!
