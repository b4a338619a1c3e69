//! The boundary to SQLite.
//!
//! Every call into `rusqlite` is made here, in a function whose body Verus does not read.
//! What such a call returns depends on the database behind the connection, so these
//! functions promise nothing of their results beyond what `rusqlite` itself guarantees
//! for every database. The decisions taken on the results live in the verified modules.
use std::borrow::BorrowMut;

use rusqlite::blob::Blob;
use rusqlite::Error as WrappedError;
use rusqlite::{Connection, DatabaseName, OptionalExtension, Transaction};
use vstd::prelude::*;

verus! {

/// `rusqlite::Connection`, carried through as an opaque value.
#[verifier::external_type_specification]
#[verifier::external_body]
pub struct ExConnection(rusqlite::Connection);

/// `rusqlite::Transaction`, carried through as an opaque value.
#[verifier::external_type_specification]
#[verifier::external_body]
pub struct ExTransaction<'conn>(rusqlite::Transaction<'conn>);

/// `rusqlite::blob::Blob`, carried through as an opaque value.
#[verifier::external_type_specification]
#[verifier::external_body]
pub struct ExBlob<'conn>(rusqlite::blob::Blob<'conn>);

/// `rusqlite::Error`, carried through as an opaque value.
#[verifier::external_type_specification]
#[verifier::external_body]
pub struct ExStoreError(WrappedError);

/// What the engine reads from a failure reported by `rusqlite`.
#[derive(Debug, Clone, PartialEq, Eq)]
pub enum StoreFailure {
    /// SQLite itself returned a result code, possibly with a message.
    Sqlite { code: i32, message: Option<String> },
    /// The binding layer failed without a result code of SQLite.
    Binding { description: String },
}

/// The reading of a `rusqlite::Error` as a [`StoreFailure`]: the extended result code and
/// the message of `Error::SqliteFailure`, the displayed text of any other variant.
pub uninterp spec fn failure_of(error: WrappedError) -> StoreFailure;

/// Takes a `rusqlite::Error` apart. The result is a function of the error alone and is
/// named by [`failure_of`]; nothing else is claimed of it.
#[verifier::external_body]
pub(crate) fn read_failure(error: WrappedError) -> (failure: StoreFailure)
    ensures
        failure == failure_of(error),
{
    match error {
        WrappedError::SqliteFailure(cause, message) => StoreFailure::Sqlite {
            code: cause.extended_code,
            message,
        },
        other => StoreFailure::Binding { description: other.to_string() },
    }
}

/// `BorrowMut::borrow` on the owner of the connection.
#[verifier::external_body]
pub(crate) fn connection<D: BorrowMut<Connection>>(database: &D) -> &Connection {
    database.borrow()
}

/// `Connection::transaction`: opens a deferred transaction that rolls back when it is
/// dropped without a commit.
#[verifier::external_body]
pub(crate) fn begin<'a, D: BorrowMut<Connection>>(database: &'a mut D) -> Result<
    Transaction<'a>,
    WrappedError,
> {
    database.borrow_mut().transaction()
}

/// `Deref` of a `Transaction`: the connection the transaction runs on.
#[verifier::external_body]
pub(crate) fn inside<'a, 'conn>(transaction: &'a Transaction<'conn>) -> &'a Connection {
    transaction
}

/// `Transaction::commit`.
#[verifier::external_body]
pub(crate) fn commit(transaction: Transaction<'_>) -> Result<(), WrappedError> {
    transaction.commit()
}

/// `Connection::execute` without parameters; the number of rows changed.
#[verifier::external_body]
pub(crate) fn execute(connection: &Connection, sql: &str) -> Result<usize, WrappedError> {
    connection.execute(sql, ())
}

/// `Connection::set_db_config` for `SQLITE_DBCONFIG_ENABLE_FKEY`: asks the connection to
/// enforce foreign keys, and returns whether it enforces them afterwards.
#[verifier::external_body]
pub(crate) fn enforce_foreign_keys(connection: &Connection) -> Result<bool, WrappedError> {
    connection.set_db_config(rusqlite::config::DbConfig::SQLITE_DBCONFIG_ENABLE_FKEY, true)
}

/// `Connection::prepare_cached`: compiles the statement and leaves it in the cache.
#[verifier::external_body]
pub(crate) fn prepare(connection: &Connection, sql: &str) -> Result<(), WrappedError> {
    connection.prepare_cached(sql).map(|_| ())
}

/// `Connection::set_prepared_statement_cache_capacity`.
#[verifier::external_body]
pub(crate) fn set_cache_capacity(connection: &Connection, capacity: usize) {
    connection.set_prepared_statement_cache_capacity(capacity)
}

/// `Connection::limit` for `SQLITE_LIMIT_LENGTH`: the largest blob the connection takes.
#[verifier::external_body]
pub(crate) fn length_limit(connection: &Connection) -> i32 {
    connection.limit(rusqlite::limits::Limit::SQLITE_LIMIT_LENGTH)
}

/// `Statement::insert` on the cached statement, with a text and two integers bound; the
/// row identifier of the one row inserted.
#[verifier::external_body]
pub(crate) fn insert_entry(
    connection: &Connection,
    sql: &str,
    path: &str,
    kind: u32,
    chunk_size: i32,
) -> Result<i64, WrappedError> {
    connection.prepare_cached(sql)?.insert((path, kind, chunk_size))
}

/// `Statement::execute` on the cached statement, with two integers and a blob bound; the
/// number of rows changed.
#[verifier::external_body]
pub(crate) fn insert_chunk(
    connection: &Connection,
    sql: &str,
    entry: i64,
    number: u32,
    data: &[u8],
) -> Result<usize, WrappedError> {
    connection.prepare_cached(sql)?.execute((entry, number, data))
}

/// `Statement::execute` on the cached statement, with one integer bound; the number of
/// rows changed.
#[verifier::external_body]
pub(crate) fn execute_for(connection: &Connection, sql: &str, entry: i64) -> Result<
    usize,
    WrappedError,
> {
    connection.prepare_cached(sql)?.execute((entry,))
}

/// `Statement::query_row` with `OptionalExtension::optional`, with a text and an integer
/// bound: the integer in the first column of the first row, if there is a row.
#[verifier::external_body]
pub(crate) fn find_entry(connection: &Connection, sql: &str, path: &str, kind: u32) -> Result<
    Option<i64>,
    WrappedError,
> {
    connection.prepare_cached(sql)?.query_row((path, kind), |row| row.get(0)).optional()
}

/// `Statement::query_row` with one integer bound: the integer in the first column of the
/// first row.
#[verifier::external_body]
pub(crate) fn integer_for(connection: &Connection, sql: &str, entry: i64) -> Result<
    i64,
    WrappedError,
> {
    connection.prepare_cached(sql)?.query_row((entry,), |row| row.get(0))
}

/// `Statement::query_map` with a text and an integer bound: the text in the first column
/// of each row, in the order the rows came.
#[verifier::external_body]
pub(crate) fn texts_for(connection: &Connection, sql: &str, pattern: &str, kind: u32) -> Result<
    Vec<String>,
    WrappedError,
> {
    connection.prepare_cached(sql)?.query_map((pattern, kind), |row| row.get(0))?.collect()
}

/// `Connection::prepare` and `Statement::query_map` with one text bound: for each row the
/// text in its first column, or the failure to read it, in the order the rows came.
#[verifier::external_body]
pub(crate) fn texts_like(connection: &Connection, sql: &str, pattern: &str) -> Result<
    Vec<Result<String, WrappedError>>,
    WrappedError,
> {
    let mut statement = connection.prepare(sql)?;
    let rows = statement.query_map((pattern,), |row| row.get(0))?;
    Ok(rows.collect())
}

/// `Statement::query_map` with three integers bound: the integers in the first three
/// columns of each row, in the order the rows came.
#[verifier::external_body]
pub(crate) fn triples_for(
    connection: &Connection,
    sql: &str,
    entry: i64,
    index: i64,
    length: i64,
) -> Result<Vec<(i64, i64, i64)>, WrappedError> {
    connection.prepare_cached(sql)?.query_map(
        (entry, index, length),
        |row| Ok((row.get(0)?, row.get(1)?, row.get(2)?)),
    )?.collect()
}

/// `Connection::blob_open` on the main database, read-only.
#[verifier::external_body]
pub(crate) fn open_blob<'a>(connection: &'a Connection, table: &str, column: &str, row: i64) -> Result<
    Blob<'a>,
    WrappedError,
> {
    connection.blob_open(DatabaseName::Main, table, column, row, true)
}

/// `Blob::reopen`: moves the handle to another row of the same table and column.
#[verifier::external_body]
pub(crate) fn reopen_blob<'a>(blob: Blob<'a>, row: i64) -> Result<Blob<'a>, WrappedError> {
    let mut blob = blob;
    blob.reopen(row).map(|_| blob)
}

/// `Blob::size`: the length of the blob in bytes, as SQLite reports it.
#[verifier::external_body]
pub(crate) fn blob_size(blob: &Blob<'_>) -> i32 {
    blob.size()
}

/// `Blob::read_at_exact` into the first `length` bytes of `buffer`. The buffer keeps its
/// length; `rusqlite` fails with `BlobSizeError` where the blob holds fewer than `length`
/// bytes from `offset` on.
#[verifier::external_body]
pub(crate) fn read_blob(blob: &Blob<'_>, buffer: &mut Vec<u8>, length: usize, offset: usize) -> (outcome:
    Result<(), WrappedError>)
    requires
        length <= old(buffer)@.len(),
        length <= i32::MAX,
    ensures
        final(buffer)@.len() == old(buffer)@.len(),
{
    blob.read_at_exact(&mut buffer[..length], offset)
}

} // verus!
