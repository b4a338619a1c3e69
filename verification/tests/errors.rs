use matryoshka_sqlite::errors::{
    CreationError, DatabaseError, Error, FileSystemError, LoadingError, ReadError,
};
use matryoshka_sqlite::store::StoreFailure;

fn constraint() -> rusqlite::Error {
    rusqlite::Error::SqliteFailure(
        rusqlite::ffi::Error::new(2067),
        Some(String::from("UNIQUE constraint failed")),
    )
}

#[test]
fn test_database_error_from_sqlite_failure() {
    let error = DatabaseError::try_from(constraint()).expect("A failure of SQLite");
    assert_eq!(error.code(), 2067);
    assert!(error.is_constraint_violation());
    assert_eq!(error.description(), "UNIQUE constraint failed");
}

#[test]
fn test_database_error_without_message() {
    let error = DatabaseError::try_from(rusqlite::Error::SqliteFailure(
        rusqlite::ffi::Error::new(5),
        None,
    ))
    .expect("A failure of SQLite");
    assert_eq!(error.code(), 5);
    assert!(!error.is_constraint_violation());
    assert_eq!(error.description(), "<Unknown SQLite error>");
    assert_eq!(error, DatabaseError::new(5, None));
}

#[test]
fn test_database_error_refuses_other_failures() {
    assert_eq!(DatabaseError::try_from(rusqlite::Error::QueryReturnedNoRows), Err(()));
    assert_eq!(DatabaseError::try_from(rusqlite::Error::InvalidQuery), Err(()));
}

#[test]
fn test_binding_failure_is_reported_as_misuse() {
    let error = DatabaseError::from_store(rusqlite::Error::InvalidColumnIndex(7));
    assert_eq!(error.code(), 21);
    assert_eq!(
        error.description(),
        rusqlite::Error::InvalidColumnIndex(7).to_string()
    );
    let same = DatabaseError::from_failure(StoreFailure::Binding {
        description: String::from("broken"),
    });
    assert_eq!(same, DatabaseError::new(21, Some(String::from("broken"))));
}

#[test]
fn test_entry_failure() {
    assert_eq!(
        CreationError::from_entry_failure(StoreFailure::Sqlite { code: 19, message: None }),
        CreationError::FileExists
    );
    assert_eq!(
        CreationError::from_entry_failure(StoreFailure::Sqlite { code: 2067, message: None }),
        CreationError::FileExists
    );
    assert_eq!(
        CreationError::from_entry_failure(StoreFailure::Sqlite { code: 13, message: None }),
        CreationError::DatabaseError(DatabaseError::new(13, None))
    );
    assert_eq!(
        CreationError::from_entry_failure(StoreFailure::Binding {
            description: String::from("broken")
        }),
        CreationError::DatabaseError(DatabaseError::new(21, Some(String::from("broken"))))
    );
}

#[test]
fn test_conversions() {
    assert_eq!(
        CreationError::from(constraint()),
        CreationError::DatabaseError(DatabaseError::new(
            2067,
            Some(String::from("UNIQUE constraint failed"))
        ))
    );
    assert_eq!(
        CreationError::from(std::io::Error::from(std::io::ErrorKind::NotFound)),
        CreationError::SourceError(std::io::ErrorKind::NotFound)
    );
    assert_eq!(
        ReadError::from(std::io::Error::from(std::io::ErrorKind::BrokenPipe)),
        ReadError::SinkError(std::io::ErrorKind::BrokenPipe)
    );
    assert_eq!(
        ReadError::from(constraint()),
        ReadError::DatabaseError(DatabaseError::new(
            2067,
            Some(String::from("UNIQUE constraint failed"))
        ))
    );
    assert_eq!(
        LoadingError::from(constraint()),
        LoadingError::DatabaseError(DatabaseError::new(
            2067,
            Some(String::from("UNIQUE constraint failed"))
        ))
    );
    assert_eq!(
        FileSystemError::from(constraint()),
        FileSystemError::DatabaseError(DatabaseError::new(
            2067,
            Some(String::from("UNIQUE constraint failed"))
        ))
    );
}

#[test]
fn test_creation_error_messages() {
    assert_eq!(
        CreationError::FileExists.error_message(),
        "Error during file creation: File does already exists"
    );
    assert_eq!(
        CreationError::SourceError(std::io::ErrorKind::NotFound).error_message(),
        "Error during file creation: The data source failed ('NotFound')"
    );
    assert_eq!(
        CreationError::DatabaseError(DatabaseError::new(1, Some(String::from("no such table"))))
            .error_message(),
        "Error during file creation: The underlying database failed ('no such table')"
    );
    assert_eq!(
        CreationError::DatabaseError(DatabaseError::new(1, None)).error_message(),
        "Error during file creation: The underlying database failed ('<Unknown SQLite error>')"
    );
}

#[test]
fn test_loading_error_messages() {
    assert_eq!(
        LoadingError::FileNotFound.error_message(),
        "Error during file loading: The requested file does not exist"
    );
    assert_eq!(
        LoadingError::DatabaseError(DatabaseError::new(1, Some(String::from("locked"))))
            .error_message(),
        "Error during file loading: The underlying database failed ('locked')"
    );
}

#[test]
fn test_read_error_messages() {
    assert_eq!(
        ReadError::OutOfBounds.error_message(),
        "Error during file reading: The specified indices are out of bounds"
    );
    assert_eq!(
        ReadError::FileSystemLimits.error_message(),
        "Error during file reading: The underlying database does not allow files of such size"
    );
    assert_eq!(
        ReadError::SinkError(std::io::ErrorKind::WriteZero).error_message(),
        "Error during file reading: The data destination failed ('WriteZero')"
    );
    assert_eq!(
        ReadError::DatabaseError(DatabaseError::new(1, Some(String::from("locked"))))
            .error_message(),
        "Error during file reading: The underlying database failed ('locked')"
    );
}

#[test]
fn test_file_system_error_messages() {
    assert_eq!(
        FileSystemError::NoFileSystem.error_message(),
        "Error during loading of virtual file system from database: No virtual file system exists neither should it be created"
    );
    assert_eq!(
        FileSystemError::InvalidBaseCommand("SELECT 1", rusqlite::Error::InvalidQuery)
            .error_message(),
        "Error during loading of virtual file system from database: Preparing an base SQL command 'SELECT 1' failed"
    );
    assert_eq!(
        FileSystemError::UnsupportedVersion(42).error_message(),
        "Error during loading of virtual file system from database: The version of the virtual file system '42' is not compatible with the current library version"
    );
    assert_eq!(
        FileSystemError::DatabaseError(DatabaseError::new(1, Some(String::from("locked"))))
            .error_message(),
        "Error during loading of virtual file system from database: The underlying database failed ('locked')"
    );
}

#[test]
fn test_report_hands_the_answer_on() {
    assert_eq!(DatabaseError::report(Ok(7usize)), Ok(7));
    assert_eq!(
        DatabaseError::report(Ok(vec![String::from("a/b")])),
        Ok(vec![String::from("a/b")])
    );
    assert_eq!(
        DatabaseError::report::<usize>(Err(constraint())),
        Err(DatabaseError::new(
            2067,
            Some(String::from("UNIQUE constraint failed"))
        ))
    );
    assert_eq!(
        DatabaseError::report::<usize>(Err(rusqlite::Error::InvalidQuery)),
        Err(DatabaseError::from_store(rusqlite::Error::InvalidQuery))
    );
}

#[test]
fn test_messages_of_the_database_error() {
    assert_eq!(DatabaseError::MISSING_MESSAGE, "<Unknown SQLite error>");
    assert_eq!(DatabaseError::LOGIC_ERROR_MESSAGE, "Logic error during database access");
}
