//! A virtual file system stored in a single SQLite database.
//!
//! Paths, file metadata and file content all live in one database file. A file is
//! addressed by a [`Handle`]; its content is cut into chunks of a fixed size, one row
//! each, and read back across chunk borders.
pub mod errors;
pub mod file_system;
pub mod layout;
pub mod pattern;
pub mod store;
pub mod stream;
pub mod text;
pub mod util;

pub use self::file_system::{File, FileSystem};
pub use self::util::Handle;
pub use rusqlite::Connection as Database;
