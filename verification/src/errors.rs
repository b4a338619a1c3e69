//! Various errors occurring during access of the file system.
pub mod creation_error;
pub mod database_error;
pub mod file_system_error;
pub mod loading_error;
pub mod read_error;

pub use self::creation_error::CreationError;
pub use self::database_error::DatabaseError;
pub use self::file_system_error::FileSystemError;
pub use self::loading_error::LoadingError;
pub use self::read_error::ReadError;

use vstd::prelude::*;

verus! {

/// An error occurring while accessing the virtual file system.
pub trait Error {
    /// The human-readable description of the error.
    spec fn message(&self) -> Seq<char>;

    /// Generate a human-readable version of the error.
    fn error_message(&self) -> (text: String)
        ensures
            text@ == self.message(),
    ;
}

} // verus!
