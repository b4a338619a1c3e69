//! The virtual file system and the files in it.
use std::borrow::BorrowMut;
use std::io::{Read, Write};

use rusqlite::blob::Blob;
use rusqlite::Connection as Database;
use rusqlite::Error as WrappedError;
use vstd::prelude::*;
use vstd::slice::slice_subrange;

use crate::errors::creation_error::entry_refusal;
use crate::errors::database_error::{reported, SQLITE_INTERNAL, SQLITE_TOOBIG};
use crate::errors::{CreationError, DatabaseError, FileSystemError, LoadingError, ReadError};
use crate::layout::{
    chunk_size_for, counted, first_offset, flat, is_cut, lemma_counted_of_taken,
    lemma_counted_push, lemma_read_back_written, lengths, offset_in_first_chunk, read_back,
    resolve_chunk_size, selected, size_of_aggregate, span_of_row, step_length,
};
use crate::store::{
    begin, blob_size, commit, connection, enforce_foreign_keys, execute, execute_for, failure_of,
    find_entry, inside, insert_chunk, insert_entry, integer_for, length_limit, open_blob, prepare,
    read_blob, read_failure, reopen_blob, set_cache_capacity, texts_for, triples_for,
    StoreFailure,
};
use crate::stream::{error_kind, interrupted, is_interrupted, kind_of, read_into, write_all};
use crate::util::{Availability, Handle, MetaData, VirtualPath};

verus! {

/// The schema version that this library reads and writes.
pub const CURRENT_MATRYOSHKA_VERSION: u32 = 0;

/// The table of the file entries; its name marks the schema version.
pub const MATRYOSHKA_TABLE: &'static str = "Matryoshka_Meta_0";

/// The table of the chunks.
pub const DATA_TABLE: &'static str = "Matryoshka_Data";

/// The column of the chunk table that holds the content.
pub const DATA_COLUMN: &'static str = "data";

/// The type of an entry that is a file.
pub const FILE_ID: u32 = 1;

/// The message of the failure to find the size of a file that was just written.
pub const MISSING_SIZE_MESSAGE: &'static str = "Missing file size for existing file";

/// Creates the table of the file entries.
pub const SQL_CREATE_META: &'static str =
    "CREATE TABLE Matryoshka_Meta_0 (id INTEGER PRIMARY KEY, path TEXT UNIQUE NOT NULL, type INTEGER, flags INTEGER, chunk_size INTEGER NOT NULL)";

/// Creates the table of the chunks, whose rows go with the entry they belong to.
pub const SQL_CREATE_DATA: &'static str =
    "CREATE TABLE IF NOT EXISTS Matryoshka_Data (chunk_id INTEGER PRIMARY KEY, file_id INTEGER NOT NULL, chunk_num INTEGER NOT NULL, data BLOB NOT NULL, CONSTRAINT unq UNIQUE (file_id, chunk_num), FOREIGN KEY(file_id) REFERENCES Matryoshka_Meta_0 (id) ON DELETE CASCADE ON UPDATE CASCADE)";

/// Inserts the entry of a file: its path, its type and its chunk size.
pub const SQL_CREATE_HANDLE: &'static str =
    "INSERT INTO Matryoshka_Meta_0 (path, type, chunk_size) VALUES (?, ?, ?)";

/// Inserts a chunk: the entry it belongs to, its number and its content.
pub const SQL_CREATE_BLOB: &'static str =
    "INSERT INTO Matryoshka_Data (file_id, chunk_num, data) VALUES (?, ?, ?)";

/// Looks an entry up by its path and type.
pub const SQL_GET_HANDLE: &'static str =
    "SELECT id FROM Matryoshka_Meta_0 WHERE path = ? AND type = ?";

/// Lists the paths of a type that match a pattern.
pub const SQL_GLOB: &'static str =
    "SELECT path FROM Matryoshka_Meta_0 WHERE path GLOB ? AND type = ?";

/// Adds up the lengths of the chunks of an entry; a negative sum stands for no chunk.
pub const SQL_SIZE: &'static str =
    "SELECT COALESCE(SUM(LENGTH(data)), -1) FROM Matryoshka_Data WHERE file_id = ?";

/// Deletes an entry.
pub const SQL_DELETE: &'static str = "DELETE FROM Matryoshka_Meta_0 WHERE id = ?";

/// Lists the chunks of an entry that a range of bytes touches, in ascending order: for
/// each its row, its number and the chunk size of the entry. The parameters are the entry,
/// the index of the first byte and the number of bytes.
pub const SQL_GET_BLOBS: &'static str =
    "SELECT chunk_id, chunk_num, Matryoshka_Meta_0.chunk_size FROM Matryoshka_Data INNER JOIN Matryoshka_Meta_0 ON Matryoshka_Meta_0.id=Matryoshka_Data.file_id WHERE file_id = ?1 AND chunk_num BETWEEN cast((?2 / Matryoshka_Meta_0.chunk_size) as int) AND cast(((?2 + ?3 - 1) / Matryoshka_Meta_0.chunk_size) as int) ORDER BY chunk_num ASC";

/// The number of statements that are compiled when a file system is loaded.
pub const PRECOMPILED_COMMANDS: usize = 6;

/// The statement that is compiled at a given place when a file system is loaded.
pub open spec fn precompiled(place: usize) -> &'static str {
    if place == 0 {
        SQL_GET_HANDLE
    } else if place == 1 {
        SQL_CREATE_HANDLE
    } else if place == 2 {
        SQL_GLOB
    } else if place == 3 {
        SQL_SIZE
    } else if place == 4 {
        SQL_DELETE
    } else {
        SQL_GET_BLOBS
    }
}

/// The statement that is compiled at a given place when a file system is loaded.
pub fn precompiled_command(place: usize) -> (statement: &'static str)
    ensures
        statement == precompiled(place),
{
    if place == 0 {
        SQL_GET_HANDLE
    } else if place == 1 {
        SQL_CREATE_HANDLE
    } else if place == 2 {
        SQL_GLOB
    } else if place == 3 {
        SQL_SIZE
    } else if place == 4 {
        SQL_DELETE
    } else {
        SQL_GET_BLOBS
    }
}

/// What loading does about the schema.
#[derive(Debug, PartialEq)]
pub enum SchemaStep {
    /// The schema is there and is used as it is.
    Keep(MetaData),
    /// The schema is missing and is created.
    Create,
}

/// What loading does about the schema it found: a schema of the current version is kept,
/// one of any other version is refused, a missing one is created where that was asked
/// for and is an error where it was not, and a failed search is the store's failure.
pub open spec fn schema_plan(availability: Availability, create_file_system: bool) -> Result<
    SchemaStep,
    FileSystemError,
> {
    match availability {
        Availability::Available(meta_data) => if meta_data.version()
            == CURRENT_MATRYOSHKA_VERSION {
            Ok(SchemaStep::Keep(meta_data))
        } else {
            Err(FileSystemError::UnsupportedVersion(meta_data.version()))
        },
        Availability::Missing => if create_file_system {
            Ok(SchemaStep::Create)
        } else {
            Err(FileSystemError::NoFileSystem)
        },
        Availability::Error(error) => Err(
            FileSystemError::DatabaseError(DatabaseError::of(failure_of(error))),
        ),
    }
}

/// Decides what loading does about the schema it found.
pub fn plan_schema(availability: Availability, create_file_system: bool) -> (plan: Result<
    SchemaStep,
    FileSystemError,
>)
    ensures
        plan == schema_plan(availability, create_file_system),
{
    match availability {
        Availability::Available(meta_data) => {
            if meta_data.version() == CURRENT_MATRYOSHKA_VERSION {
                Ok(SchemaStep::Keep(meta_data))
            } else {
                Err(FileSystemError::UnsupportedVersion(meta_data.version()))
            }
        },
        Availability::Missing => {
            if create_file_system {
                Ok(SchemaStep::Create)
            } else {
                Err(FileSystemError::NoFileSystem)
            }
        },
        Availability::Error(error) => Err(
            FileSystemError::DatabaseError(DatabaseError::from_store(error)),
        ),
    }
}

/// The size of a file as the size aggregate of the store gives it, as a value: no size
/// for a file without any chunk, and a failure where the size is beyond what this machine
/// addresses.
pub open spec fn aggregate_size(raw: i64) -> Result<Option<usize>, DatabaseError> {
    match size_of_aggregate(raw) {
        None => Ok(None),
        Some(bytes) => if bytes <= usize::MAX {
            Ok(Some(bytes as usize))
        } else {
            Err(DatabaseError::of(StoreFailure::Sqlite { code: SQLITE_TOOBIG, message: None }))
        },
    }
}

/// What a lookup of an entry gives: the handle of the row that the store found, no handle
/// where it found none, or its failure as a database error.
pub open spec fn opened(answer: Result<Option<i64>, WrappedError>) -> Result<
    Option<Handle>,
    DatabaseError,
> {
    match answer {
        Ok(Some(row)) => Ok(Some(Handle(row))),
        Ok(None) => Ok(None),
        Err(error) => Err(DatabaseError::of(failure_of(error))),
    }
}

/// What the size query gives: the size that the aggregate of the store means, or the
/// failure of the store as a database error.
pub open spec fn measured(answer: Result<i64, WrappedError>) -> Result<
    Option<usize>,
    DatabaseError,
> {
    match answer {
        Ok(raw) => aggregate_size(raw),
        Err(error) => Err(DatabaseError::of(failure_of(error))),
    }
}

/// What is done after a read of the source.
#[derive(Debug, PartialEq)]
pub enum ChunkStep {
    /// The bytes read become the next chunk, which is the last one or not.
    Store { bytes: usize, last: bool },
    /// The read was interrupted and is made again.
    Again(std::io::ErrorKind),
    /// The read failed, and the creation with it.
    Fail(std::io::ErrorKind),
}

/// What is done after a read of the source, as a value: the bytes of a read that
/// succeeded become the next chunk, which is the last one if it is not full; a read that
/// was interrupted is made again; any other failure of the source ends the creation.
pub open spec fn chunk_step(outcome: Result<usize, std::io::Error>, chunk_size: usize) -> ChunkStep {
    match outcome {
        Ok(size) => ChunkStep::Store { bytes: size, last: size != chunk_size },
        Err(error) => if interrupted(kind_of(error)) {
            ChunkStep::Again(kind_of(error))
        } else {
            ChunkStep::Fail(kind_of(error))
        },
    }
}

/// Decides what is done after a read of the source.
pub fn step_after_read(outcome: Result<usize, std::io::Error>, chunk_size: usize) -> (step:
    ChunkStep)
    ensures
        step == chunk_step(outcome, chunk_size),
{
    match outcome {
        Ok(size) => ChunkStep::Store { bytes: size, last: size != chunk_size },
        Err(error) => {
            let kind = error_kind(&error);
            if is_interrupted(kind) {
                ChunkStep::Again(kind)
            } else {
                ChunkStep::Fail(kind)
            }
        },
    }
}

/// How far the writing of the chunks has come after the given reads of the source, none
/// of which ended it: the number of the next chunk, and how many more interrupted reads
/// in a row are made again. There is no such state where one of the reads ended the
/// writing: a failed read, an interrupted read beyond all patience, a chunk that is not
/// full, or a full chunk of the last number there is.
pub open spec fn progress(reads: Seq<Result<usize, std::io::Error>>, chunk_size: usize) -> Option<
    (int, int),
>
    decreases reads.len(),
{
    if reads.len() == 0 {
        Some((0, u64::MAX as int))
    } else {
        match progress(reads.drop_last(), chunk_size) {
            None => None,
            Some((number, patience)) => match chunk_step(reads.last(), chunk_size) {
                ChunkStep::Fail(_) => None,
                ChunkStep::Again(_) => if patience > 0 {
                    Some((number, patience - 1))
                } else {
                    None
                },
                ChunkStep::Store { bytes, last } => if last || number == u32::MAX {
                    None
                } else {
                    Some((number + 1, u64::MAX as int))
                },
            },
        }
    }
}

/// The lengths of the chunks that the reads of the source hand to the store: the counts
/// of the reads that succeeded, in their order.
pub open spec fn handed(reads: Seq<Result<usize, std::io::Error>>) -> Seq<int>
    decreases reads.len(),
{
    if reads.len() == 0 {
        Seq::empty()
    } else {
        match reads.last() {
            Ok(size) => handed(reads.drop_last()).push(size as int),
            Err(_) => handed(reads.drop_last()),
        }
    }
}

/// What the writing of the chunks gives, from what the source answered to the reads, in
/// their order, and from the failure of the store to take the chunk read last, if it
/// failed to. The last read ends the writing: a failed read as a source error of its
/// kind, as does an interrupted read beyond all patience; a chunk that the store refuses
/// as a database error; a chunk that is not full as success; and a full chunk of the
/// last number there is as a content too big for the store. The reads give nothing where
/// none of them ends the writing.
pub open spec fn written_outcome(
    reads: Seq<Result<usize, std::io::Error>>,
    refused: Option<WrappedError>,
    chunk_size: usize,
) -> Option<Result<(), CreationError>> {
    if reads.len() == 0 {
        None
    } else {
        match progress(reads.drop_last(), chunk_size) {
            None => None,
            Some((number, patience)) => match chunk_step(reads.last(), chunk_size) {
                ChunkStep::Fail(kind) => Some(Err(CreationError::SourceError(kind))),
                ChunkStep::Again(kind) => if patience > 0 {
                    None
                } else {
                    Some(Err(CreationError::SourceError(kind)))
                },
                ChunkStep::Store { bytes, last } => match refused {
                    Some(error) => Some(
                        Err(CreationError::DatabaseError(DatabaseError::of(failure_of(error)))),
                    ),
                    None => if last {
                        Some(Ok(()))
                    } else if number == u32::MAX {
                        Some(
                            Err(
                                CreationError::DatabaseError(
                                    DatabaseError::of(
                                        StoreFailure::Sqlite { code: SQLITE_TOOBIG, message: None },
                                    ),
                                ),
                            ),
                        )
                    } else {
                        None
                    },
                },
            },
        }
    }
}

/// The contents of numbered chunks.
pub open spec fn contents(chunks: Seq<(int, Seq<u8>)>) -> Seq<Seq<u8>> {
    chunks.map_values(|chunk: (int, Seq<u8>)| chunk.1)
}

/// Whether chunks are numbered from zero without a gap.
pub open spec fn is_numbered(chunks: Seq<(int, Seq<u8>)>) -> bool {
    forall|i: int| 0 <= i < chunks.len() ==> (#[trigger] chunks[i]).0 == i
}

/// What the creation of a file gives, step by step: the failure to begin the transaction,
/// else the refusal of the entry, else what the writing of the chunks gives where it
/// fails, else the failure to commit, each as the error that reports it; and where no
/// step failed, the handle of the row that the store gave the entry. The steps give
/// nothing where the reads of the source do not end the writing.
pub open spec fn creation_outcome(
    chunk_size: usize,
    begun: Option<WrappedError>,
    inserted: Result<i64, WrappedError>,
    reads: Seq<Result<usize, std::io::Error>>,
    refused: Option<WrappedError>,
    committed: Option<WrappedError>,
) -> Option<Result<Handle, CreationError>> {
    match begun {
        Some(error) => Some(
            Err(CreationError::DatabaseError(DatabaseError::of(failure_of(error)))),
        ),
        None => match inserted {
            Err(error) => Some(Err(entry_refusal(failure_of(error)))),
            Ok(row) => match written_outcome(reads, refused, chunk_size) {
                None => None,
                Some(Err(error)) => Some(Err(error)),
                Some(Ok(())) => match committed {
                    Some(error) => Some(
                        Err(CreationError::DatabaseError(DatabaseError::of(failure_of(error)))),
                    ),
                    None => Some(Ok(Handle(row))),
                },
            },
        },
    }
}

/// Whether `made` and `chunks` are what the creation of a file with a requested chunk
/// size gives and hands to the store, for some answers of the store and of the source:
/// the outcome is that of the steps, the chunks are numbered from zero without a gap and
/// are as long as the reads of the source were, and where the creation succeeds they are
/// what a file is written in.
pub open spec fn is_made(
    requested: usize,
    made: Result<Handle, CreationError>,
    chunks: Seq<(int, Seq<u8>)>,
) -> bool {
    exists|
        limit: i32,
        begun: Option<WrappedError>,
        inserted: Result<i64, WrappedError>,
        reads: Seq<Result<usize, std::io::Error>>,
        refused: Option<WrappedError>,
        committed: Option<WrappedError>,
    |
        {
            &&& #[trigger] creation_outcome(
                chunk_size_for(requested, limit),
                begun,
                inserted,
                reads,
                refused,
                committed,
            ) == Some(made)
            &&& lengths(contents(chunks)) == handed(reads)
            &&& is_numbered(chunks)
            &&& made is Ok ==> is_cut(contents(chunks), chunk_size_for(requested, limit) as int)
        }
}

/// The failure to compile one of the statements that the file system runs later, if one
/// failed: the first that failed, named with its failure.
pub open spec fn refused_command(prepared: Seq<Option<WrappedError>>) -> Option<FileSystemError>
    decreases prepared.len(),
{
    if prepared.len() == 0 {
        None
    } else {
        match refused_command(prepared.drop_last()) {
            Some(error) => Some(error),
            None => match prepared.last() {
                Some(error) => Some(
                    FileSystemError::InvalidBaseCommand(
                        precompiled((prepared.len() - 1) as usize),
                        error,
                    ),
                ),
                None => None,
            },
        }
    }
}

/// What loading gives, from what the store answered to its steps: the failure to enforce
/// foreign keys as a database error; else what the plan for the schema refuses; else the
/// failure to create a missing schema; else the failure to compile a statement; and where
/// no step fails, the meta data of the schema that is kept or created.
pub open spec fn load_outcome(
    create_file_system: bool,
    enforced: Option<WrappedError>,
    availability: Availability,
    schema: Seq<Option<WrappedError>>,
    prepared: Seq<Option<WrappedError>>,
) -> Result<MetaData, FileSystemError> {
    match enforced {
        Some(error) => Err(FileSystemError::DatabaseError(DatabaseError::of(failure_of(error)))),
        None => match schema_plan(availability, create_file_system) {
            Err(error) => Err(error),
            Ok(SchemaStep::Keep(meta_data)) => match refused_command(prepared) {
                Some(error) => Err(error),
                None => Ok(meta_data),
            },
            Ok(SchemaStep::Create) => match schema_outcome(schema) {
                Err(error) => Err(error),
                Ok(()) => match refused_command(prepared) {
                    Some(error) => Err(error),
                    None => Ok(MetaData::spec_from_version(CURRENT_MATRYOSHKA_VERSION)),
                },
            },
        },
    }
}

/// Whether `loaded` is the file system, or the failure, that an outcome of the loading
/// stands for.
pub open spec fn is_loaded<D>(
    outcome: Result<MetaData, FileSystemError>,
    loaded: Result<FileSystem<D>, FileSystemError>,
) -> bool {
    match outcome {
        Ok(meta_data) => loaded matches Ok(file_system) && file_system.spec_meta_data()
            == meta_data,
        Err(error) => loaded == Err::<FileSystem<D>, FileSystemError>(error),
    }
}

/// What the creation of the schema gives: the first failure among its steps, in their
/// order, as a database error, and success where no step failed.
pub open spec fn schema_outcome(steps: Seq<Option<WrappedError>>) -> Result<(), FileSystemError>
    decreases steps.len(),
{
    if steps.len() == 0 {
        Ok(())
    } else {
        match steps.first() {
            Some(error) => Err(
                FileSystemError::DatabaseError(DatabaseError::of(failure_of(error))),
            ),
            None => schema_outcome(steps.drop_first()),
        }
    }
}

/// What a read gives when its rows are exhausted: the number of bytes asked for where the
/// store answered with at least one row and the spans added up to that number, and
/// `OutOfBounds` where the answer was empty or the spans fell short.
pub open spec fn total_read(rows: int, bytes_read: int, length: int) -> Result<usize, ReadError> {
    if rows > 0 && bytes_read == length {
        Ok(length as usize)
    } else {
        Err(ReadError::OutOfBounds)
    }
}

/// Decides what a read gives when its rows are exhausted.
pub fn read_total(rows: usize, bytes_read: usize, length: usize) -> (read: Result<
    usize,
    ReadError,
>)
    ensures
        read == total_read(rows as int, bytes_read as int, length as int),
{
    if rows > 0 && bytes_read == length {
        Ok(length)
    } else {
        Err(ReadError::OutOfBounds)
    }
}

/// The failure that ended a read before its rows were exhausted, if one did: a failure of
/// the store as a database error, a failure of the sink as a sink error of its kind.
pub open spec fn read_failure_of(stopped: Option<WrappedError>, sunk: Option<std::io::Error>) -> Option<
    ReadError,
> {
    match stopped {
        Some(error) => Some(ReadError::DatabaseError(DatabaseError::of(failure_of(error)))),
        None => match sunk {
            Some(error) => Some(ReadError::SinkError(kind_of(error))),
            None => None,
        },
    }
}

/// What a read of `length` bytes from `index` on gives, from what the store answered.
///
/// `rows` are the rows of the chunks that the range touches, as the store listed them:
/// for each its row identifier, its chunk number and the chunk size of the entry. `sizes`
/// are the sizes of the blobs of the rows that were opened, in the order of the rows.
/// `stopped` and `sunk` are the failure of the store or of the sink that ended the read,
/// if one did.
///
/// A range beyond the addressing width is refused, and a read of no bytes gives no bytes,
/// before the store is asked. A failed query is the store's failure, an empty answer is
/// out of bounds. The first row is entered at the offset of the index in its chunk, every
/// later row at its beginning; each row gives its span, and a row without a span is out
/// of bounds. A failure ends the read as that failure. Where all rows are read, the read
/// gives the number of bytes asked for if the spans add up to it, and is out of bounds
/// if they fall short.
pub open spec fn read_outcome(
    index: int,
    length: int,
    rows: Seq<(i64, i64, i64)>,
    sizes: Seq<int>,
    stopped: Option<WrappedError>,
    sunk: Option<std::io::Error>,
) -> Result<usize, ReadError> {
    let failure = read_failure_of(stopped, sunk);
    if index > i64::MAX || length > i64::MAX {
        Err(ReadError::FileSystemLimits)
    } else if length == 0 {
        Ok(0)
    } else if rows.len() == 0 {
        match failure {
            Some(error) => Err(error),
            None => total_read(0, 0, length),
        }
    } else {
        match first_offset(index, rows[0].1 as int, rows[0].2 as int) {
            None => Err(ReadError::OutOfBounds),
            Some(offset) => match counted(sizes, true, offset, length) {
                None => Err(ReadError::OutOfBounds),
                Some(bytes_read) => match failure {
                    Some(error) => Err(error),
                    None => if sizes.len() == rows.len() {
                        total_read(rows.len() as int, bytes_read, length)
                    } else {
                        Err(ReadError::OutOfBounds)
                    },
                },
            },
        }
    }
}

/// Whether `rows` and `sizes` are what a store that holds a file in `chunks` answers to a
/// read: one row for each chunk that the range touches, in ascending order, numbered as
/// the chunk is and with the chunk size of the file, and for each row the length of its
/// chunk.
pub open spec fn answers_for(
    chunks: Seq<Seq<u8>>,
    chunk_size: int,
    index: int,
    length: int,
    rows: Seq<(i64, i64, i64)>,
    sizes: Seq<int>,
) -> bool {
    &&& rows.len() == selected(chunks, chunk_size, index, length).len()
    &&& sizes == lengths(selected(chunks, chunk_size, index, length))
    &&& forall|i: int|
        0 <= i < rows.len() ==> (#[trigger] rows[i]).1 == index / chunk_size + i && rows[i].2
            == chunk_size
}

/// A read that no failure ends gives what the model of the stored file gives: the number
/// of bytes asked for where reading the chunks back gives bytes, and `OutOfBounds` where
/// it gives none.
pub proof fn lemma_read_outcome(
    chunks: Seq<Seq<u8>>,
    chunk_size: int,
    index: int,
    length: int,
    rows: Seq<(i64, i64, i64)>,
    sizes: Seq<int>,
)
    requires
        0 < chunk_size,
        0 <= index <= i64::MAX,
        0 <= length <= i64::MAX,
        answers_for(chunks, chunk_size, index, length, rows, sizes),
    ensures
        read_outcome(index, length, rows, sizes, None, None) == match read_back(
            chunks,
            chunk_size,
            index,
            length,
        ) {
            Some(bytes) => Ok::<usize, ReadError>(length as usize),
            None => Err::<usize, ReadError>(ReadError::OutOfBounds),
        },
{
    let touched = selected(chunks, chunk_size, index, length);
    if length > 0 && rows.len() > 0 {
        assert(rows[0].1 == index / chunk_size + 0);
        match first_offset(index, index / chunk_size, chunk_size) {
            None => {},
            Some(offset) => {
                lemma_counted_of_taken(touched, true, offset, length);
            },
        }
    }
}

/// Reading any file that was written, with no failure on the way: a read inside the file
/// gives the number of bytes asked for, a read that reaches beyond the file is out of
/// bounds, and a read of no bytes gives no bytes wherever it starts.
pub proof fn lemma_read_of_written(
    chunks: Seq<Seq<u8>>,
    chunk_size: int,
    index: int,
    length: int,
    rows: Seq<(i64, i64, i64)>,
    sizes: Seq<int>,
)
    requires
        0 < chunk_size,
        is_cut(chunks, chunk_size),
        0 <= index <= i64::MAX,
        0 <= length <= i64::MAX,
        answers_for(chunks, chunk_size, index, length, rows, sizes),
    ensures
        read_outcome(index, length, rows, sizes, None, None) == if length == 0 {
            Ok::<usize, ReadError>(0)
        } else if index + length <= flat(chunks).len() {
            Ok::<usize, ReadError>(length as usize)
        } else {
            Err::<usize, ReadError>(ReadError::OutOfBounds)
        },
{
    lemma_read_outcome(chunks, chunk_size, index, length, rows, sizes);
    lemma_read_back_written(chunks, chunk_size, index, length);
}

/// Whether a deletion removed a file: it did if the store reports exactly one row
/// removed, and did not if it reports another number or a failure.
pub open spec fn removed_one(deleted: Result<usize, DatabaseError>) -> bool {
    deleted matches Ok(rows) && rows == 1
}

/// Tells whether a deletion removed a file.
pub fn is_one_removed(deleted: &Result<usize, DatabaseError>) -> (removed: bool)
    ensures
        removed == removed_one(*deleted),
{
    match deleted {
        Ok(rows) => *rows == 1,
        Err(_) => false,
    }
}

/// The size of a file as the size aggregate of the store gives it: no size for a file
/// without any chunk, and a failure where the size is beyond what this machine addresses.
pub fn size_from_aggregate(raw: i64) -> (size: Result<Option<usize>, DatabaseError>)
    ensures
        size == aggregate_size(raw),
        match size_of_aggregate(raw) {
            None => size == Ok::<Option<usize>, DatabaseError>(None),
            Some(bytes) => if bytes <= usize::MAX {
                size == Ok::<Option<usize>, DatabaseError>(Some(bytes as usize))
            } else {
                size matches Err(error) && error@ == (SQLITE_TOOBIG, None::<Seq<char>>)
            },
        },
{
    if raw < 0 {
        Ok(None)
    } else if raw as u64 <= usize::MAX as u64 {
        Ok(Some(raw as usize))
    } else {
        Err(DatabaseError::new(SQLITE_TOOBIG, None))
    }
}

/// A virtual file system in a SQLite database.
#[derive(Debug)]
pub struct FileSystem<D> {
    database: D,
    meta_data: MetaData,
}

impl<D> FileSystem<D> {
    /// The meta data that the file system was loaded with.
    pub closed spec fn spec_meta_data(&self) -> MetaData {
        self.meta_data
    }
}

impl<D: BorrowMut<Database>> FileSystem<D> {
    /// Load the virtual file system from an SQLite database.
    ///
    /// The connection is asked to enforce foreign keys, so that the chunks of a file go
    /// with its entry. A schema of the current version is used as it is. A missing schema
    /// is created if `create_file_system` says so. The statements that the file system
    /// runs later are compiled and cached before it is handed out.
    ///
    /// What comes back is made of what the store answered to these steps, as
    /// [`load_outcome`] says: the loading succeeds where no step of the store fails and
    /// the schema is there in the current version or is created.
    pub fn load(database: D, create_file_system: bool) -> (loaded: Result<
        FileSystem<D>,
        FileSystemError,
    >)
        ensures
            loaded matches Ok(file_system) ==> file_system.spec_meta_data().version()
                == CURRENT_MATRYOSHKA_VERSION,
            loaded matches Err(FileSystemError::NoFileSystem) ==> !create_file_system,
            loaded matches Err(FileSystemError::UnsupportedVersion(version)) ==> version
                != CURRENT_MATRYOSHKA_VERSION,
            loaded matches Err(FileSystemError::InvalidBaseCommand(statement, _)) ==> exists|
                place: usize,
            |
                place < PRECOMPILED_COMMANDS && statement == precompiled(place),
            exists|
                enforced: Option<WrappedError>,
                availability: Availability,
                schema: Seq<Option<WrappedError>>,
                prepared: Seq<Option<WrappedError>>,
            |
                {
                    &&& schema.len() <= 4
                    &&& prepared.len() <= PRECOMPILED_COMMANDS
                    &&& loaded is Ok ==> prepared.len() == PRECOMPILED_COMMANDS
                    &&& is_loaded(
                        #[trigger] load_outcome(
                            create_file_system,
                            enforced,
                            availability,
                            schema,
                            prepared,
                        ),
                        loaded,
                    )
                },
    {
        let mut database = database;
        let ghost no_steps = Seq::<Option<WrappedError>>::empty();
        match enforce_foreign_keys(connection(&database)) {
            Ok(_) => {},
            Err(error) => {
                let loaded = Err(FileSystemError::from(error));
                assert(is_loaded(
                    load_outcome(
                        create_file_system,
                        Some(error),
                        Availability::Missing,
                        no_steps,
                        no_steps,
                    ),
                    loaded,
                ));
                return loaded;
            },
        }
        let availability = MetaData::from_database(connection(&database));
        let ghost found = availability;
        let ghost mut schema = no_steps;
        let meta_data = match plan_schema(availability, create_file_system) {
            Ok(SchemaStep::Keep(meta_data)) => meta_data,
            Ok(SchemaStep::Create) => {
                let created = create_schema(&mut database);
                proof {
                    schema = choose|steps: Seq<Option<WrappedError>>|
                        steps.len() <= 4 && created == #[trigger] schema_outcome(steps) && (
                        created is Ok ==> steps.len() == 4);
                }
                match created {
                    Ok(()) => {},
                    Err(error) => {
                        let loaded = Err(error);
                        assert(is_loaded(
                            load_outcome(create_file_system, None, found, schema, no_steps),
                            loaded,
                        ));
                        return loaded;
                    },
                }
                MetaData::from_version(CURRENT_MATRYOSHKA_VERSION)
            },
            Err(error) => {
                let loaded = Err(error);
                assert(is_loaded(
                    load_outcome(create_file_system, None, found, no_steps, no_steps),
                    loaded,
                ));
                return loaded;
            },
        };
        set_cache_capacity(connection(&database), PRECOMPILED_COMMANDS);
        let mut place: usize = 0;
        let ghost mut prepared = no_steps;
        while place < PRECOMPILED_COMMANDS
            invariant
                place <= PRECOMPILED_COMMANDS,
                prepared.len() == place,
                refused_command(prepared) is None,
                schema.len() <= 4,
                meta_data.version() == CURRENT_MATRYOSHKA_VERSION,
                forall|answers: Seq<Option<WrappedError>>|
                    #![trigger load_outcome(create_file_system, None, found, schema, answers)]
                    load_outcome(create_file_system, None, found, schema, answers)
                        == match refused_command(answers) {
                        Some(error) => Err::<MetaData, FileSystemError>(error),
                        None => Ok::<MetaData, FileSystemError>(meta_data),
                    },
            decreases PRECOMPILED_COMMANDS - place,
        {
            let statement = precompiled_command(place);
            let ghost before = prepared;
            match prepare(connection(&database), statement) {
                Ok(()) => {
                    proof {
                        prepared = prepared.push(None);
                        assert(prepared.drop_last() =~= before);
                    }
                },
                Err(error) => {
                    proof {
                        prepared = prepared.push(Some(error));
                        assert(prepared.drop_last() =~= before);
                    }
                    let loaded = Err(FileSystemError::InvalidBaseCommand(statement, error));
                    assert(is_loaded(
                        load_outcome(create_file_system, None, found, schema, prepared),
                        loaded,
                    ));
                    return loaded;
                },
            }
            place = place + 1;
        }
        let loaded = Ok(FileSystem { database, meta_data });
        assert(is_loaded(
            load_outcome(create_file_system, None, found, schema, prepared),
            loaded,
        ));
        loaded
    }

    /// The meta data that the file system was loaded with.
    pub fn meta_data(&self) -> (meta_data: MetaData)
        ensures
            meta_data == self.spec_meta_data(),
    {
        self.meta_data
    }

    /// Query the file system for those files with a specific GLOB pattern. Both the '?'
    /// and the '*' placeholder are supported. The pattern is normalized as a path is.
    ///
    /// What is found is what the store answers to the search for the normalized pattern:
    /// the paths it lists, in its order, or its failure as a database error.
    pub fn find(&self, path: &str) -> (found: Result<Vec<String>, DatabaseError>)
        ensures
            exists|answer: Result<Vec<String>, WrappedError>| found == reported(answer),
    {
        let pattern = VirtualPath::from(path);
        let answer = texts_for(connection(&self.database), SQL_GLOB, pattern.as_ref(), FILE_ID);
        let ghost told = answer;
        let found = DatabaseError::report(answer);
        assert(found == reported(told));
        found
    }

    /// Creates the entry of a file and its chunks inside one transaction, and commits only
    /// when all chunks are written. The file system stays the file system it was.
    ///
    /// With the outcome come the chunks as they were handed to the store, each with its
    /// number: what is made and handed over is what [`is_made`] says.
    fn create<R: Read>(&mut self, path: &str, data: R, chunk_size: usize) -> (made: (
        Result<Handle, CreationError>,
        Ghost<Seq<(int, Seq<u8>)>>,
    ))
        ensures
            final(self).spec_meta_data() == old(self).spec_meta_data(),
            is_made(chunk_size, made.0, made.1@),
    {
        let mut data = data;
        let requested = chunk_size;
        let limit = length_limit(connection(&self.database));
        let chunk_size = resolve_chunk_size(requested, limit);
        let path = VirtualPath::from(path);
        let ghost none = Seq::<(int, Seq<u8>)>::empty();
        let ghost no_reads = Seq::<Result<usize, std::io::Error>>::empty();
        proof {
            assert(lengths(contents(none)) =~= handed(no_reads));
        }
        let transaction = match begin(&mut self.database) {
            Ok(transaction) => transaction,
            Err(error) => {
                let made = Err(CreationError::from(error));
                assert(creation_outcome(
                    chunk_size_for(requested, limit),
                    Some(error),
                    Ok(0),
                    no_reads,
                    None,
                    None,
                ) == Some(made));
                return (made, Ghost(none));
            },
        };
        let handle = match insert_entry(
            inside(&transaction),
            SQL_CREATE_HANDLE,
            path.as_ref(),
            FILE_ID,
            chunk_size as i32,
        ) {
            Ok(handle) => handle,
            Err(error) => {
                let made = Err(CreationError::from_entry_failure(read_failure(error)));
                assert(creation_outcome(
                    chunk_size_for(requested, limit),
                    None,
                    Err(error),
                    no_reads,
                    None,
                    None,
                ) == Some(made));
                return (made, Ghost(none));
            },
        };
        let (written, Ghost(chunks)) = write_chunks(
            inside(&transaction),
            handle,
            &mut data,
            chunk_size,
        );
        let ghost (reads, refused) = choose|
            reads: Seq<Result<usize, std::io::Error>>,
            refused: Option<WrappedError>,
        |
            written_outcome(reads, refused, chunk_size) == Some(written) && lengths(
                contents(chunks),
            ) == handed(reads);
        match written {
            Ok(()) => {},
            Err(error) => {
                assert(creation_outcome(
                    chunk_size_for(requested, limit),
                    None,
                    Ok(handle),
                    reads,
                    refused,
                    None,
                ) == Some(Err::<Handle, CreationError>(error)));
                return (Err(error), Ghost(chunks));
            },
        }
        match commit(transaction) {
            Ok(()) => {
                assert(creation_outcome(
                    chunk_size_for(requested, limit),
                    None,
                    Ok(handle),
                    reads,
                    refused,
                    None,
                ) == Some(Ok::<Handle, CreationError>(Handle(handle))));
                (Ok(Handle(handle)), Ghost(chunks))
            },
            Err(error) => {
                let made = Err(CreationError::from(error));
                assert(creation_outcome(
                    chunk_size_for(requested, limit),
                    None,
                    Ok(handle),
                    reads,
                    refused,
                    Some(error),
                ) == Some(made));
                (made, Ghost(chunks))
            },
        }
    }

    /// Looks the entry of a normalized path up: the handle of the row that the store
    /// finds, no handle where it finds none, or its failure as a database error.
    fn open(&self, path: &str) -> (found: Result<Option<Handle>, DatabaseError>)
        ensures
            exists|answer: Result<Option<i64>, WrappedError>| found == opened(answer),
    {
        let path = VirtualPath::from(path);
        let answer = find_entry(
            connection(&self.database),
            SQL_GET_HANDLE,
            path.as_ref(),
            FILE_ID,
        );
        let ghost told = answer;
        let found = match answer {
            Ok(Some(handle)) => Ok(Some(Handle(handle))),
            Ok(None) => Ok(None),
            Err(error) => Err(DatabaseError::from_store(error)),
        };
        assert(found == opened(told));
        found
    }

    /// Reads a range of the content of a handle into a sink, across the borders of its
    /// chunks. What comes back is made of what the store answered, as [`read_outcome`]
    /// says: of the rows of the chunks that the range touches, of the sizes of their
    /// blobs, and of the failure of the store or of the sink that ended the read, if one
    /// did.
    fn read<W: Write>(&self, handle: Handle, sink: &mut W, index: usize, length: usize) -> (read:
        Result<usize, ReadError>)
        ensures
            (index > i64::MAX || length > i64::MAX) <==> read == Err::<usize, ReadError>(
                ReadError::FileSystemLimits,
            ),
            index <= i64::MAX && length == 0 ==> read == Ok::<usize, ReadError>(0),
            read matches Ok(count) ==> count == length,
            exists|
                rows: Seq<(i64, i64, i64)>,
                sizes: Seq<int>,
                stopped: Option<WrappedError>,
                sunk: Option<std::io::Error>,
            |
                sizes.len() <= rows.len() && read == read_outcome(
                    index as int,
                    length as int,
                    rows,
                    sizes,
                    stopped,
                    sunk,
                ),
    {
        let ghost none = Seq::<(i64, i64, i64)>::empty();
        let ghost no_sizes = Seq::<int>::empty();
        if index as u64 > i64::MAX as u64 || length as u64 > i64::MAX as u64 {
            assert(Err::<usize, ReadError>(ReadError::FileSystemLimits) == read_outcome(
                index as int,
                length as int,
                none,
                no_sizes,
                None,
                None,
            ));
            return Err(ReadError::FileSystemLimits);
        }
        if length == 0 {
            assert(Ok::<usize, ReadError>(0) == read_outcome(
                index as int,
                length as int,
                none,
                no_sizes,
                None,
                None,
            ));
            return Ok(0);
        }
        let rows = match triples_for(
            connection(&self.database),
            SQL_GET_BLOBS,
            handle.0,
            index as i64,
            length as i64,
        ) {
            Ok(rows) => rows,
            Err(error) => {
                let read = Err(ReadError::DatabaseError(DatabaseError::from_store(error)));
                assert(read == read_outcome(
                    index as int,
                    length as int,
                    none,
                    no_sizes,
                    Some(error),
                    None,
                ));
                return read;
            },
        };
        if rows.len() == 0 {
            let read = read_total(0, 0, length);
            assert(read == read_outcome(
                index as int,
                length as int,
                rows@,
                no_sizes,
                None,
                None,
            ));
            return read;
        }
        let entry = match offset_in_first_chunk(index, rows[0].1, rows[0].2) {
            Some(offset) => offset,
            None => {
                assert(Err::<usize, ReadError>(ReadError::OutOfBounds) == read_outcome(
                    index as int,
                    length as int,
                    rows@,
                    no_sizes,
                    None,
                    None,
                ));
                return Err(ReadError::OutOfBounds);
            },
        };
        let mut buffer: Vec<u8> = Vec::new();
        let mut bytes_read: usize = 0;
        let mut blob_cache: Option<Blob> = None;
        let mut row: usize = 0;
        let ghost mut sizes: Seq<int> = Seq::empty();
        while row < rows.len()
            invariant
                row <= rows.len(),
                rows.len() > 0,
                bytes_read <= length,
                index <= i64::MAX,
                0 < length <= i64::MAX,
                sizes.len() == row,
                first_offset(index as int, rows@[0].1 as int, rows@[0].2 as int) == Some(
                    entry as int,
                ),
                counted(sizes, true, entry as int, length as int) == Some(
                    bytes_read as int,
                ),
            decreases rows.len() - row,
        {
            let blob_id = rows[row].0;
            let opened = match blob_cache {
                None => open_blob(connection(&self.database), DATA_TABLE, DATA_COLUMN, blob_id),
                Some(blob) => reopen_blob(blob, blob_id),
            };
            let blob = match opened {
                Ok(blob) => blob,
                Err(error) => {
                    let read = Err(ReadError::DatabaseError(DatabaseError::from_store(error)));
                    assert(read == read_outcome(
                        index as int,
                        length as int,
                        rows@,
                        sizes,
                        Some(error),
                        None,
                    ));
                    return read;
                },
            };
            let size = blob_size(&blob);
            proof {
                lemma_counted_push(sizes, size as int, entry as int, length as int);
                sizes = sizes.push(size as int);
            }
            let (offset, count) = match span_of_row(row, entry, size, length - bytes_read) {
                Some(step) => step,
                None => {
                    assert(Err::<usize, ReadError>(ReadError::OutOfBounds) == read_outcome(
                        index as int,
                        length as int,
                        rows@,
                        sizes,
                        None,
                        None,
                    ));
                    return Err(ReadError::OutOfBounds);
                },
            };
            if buffer.len() < count {
                buffer = vec![0u8; count];
            }
            match read_blob(&blob, &mut buffer, count, offset) {
                Ok(()) => {},
                Err(error) => {
                    let read = Err(ReadError::DatabaseError(DatabaseError::from_store(error)));
                    assert(read == read_outcome(
                        index as int,
                        length as int,
                        rows@,
                        sizes,
                        Some(error),
                        None,
                    ));
                    return read;
                },
            }
            match write_all(sink, slice_subrange(buffer.as_slice(), 0, count)) {
                Ok(()) => {},
                Err(error) => {
                    let read = Err(ReadError::SinkError(error_kind(&error)));
                    assert(read == read_outcome(
                        index as int,
                        length as int,
                        rows@,
                        sizes,
                        None,
                        Some(error),
                    ));
                    return read;
                },
            }
            bytes_read = bytes_read + count;
            blob_cache = Some(blob);
            row = row + 1;
        }
        let read = read_total(rows.len(), bytes_read, length);
        assert(read == read_outcome(index as int, length as int, rows@, sizes, None, None));
        read
    }

    /// Deletes the entry of a handle: the number of rows that the store removed, or its
    /// failure as a database error.
    fn delete(&self, handle: Handle) -> (deleted: Result<usize, DatabaseError>)
        ensures
            exists|answer: Result<usize, WrappedError>| deleted == reported(answer),
    {
        let answer = execute_for(connection(&self.database), SQL_DELETE, handle.0);
        let ghost told = answer;
        let deleted = DatabaseError::report(answer);
        assert(deleted == reported(told));
        deleted
    }

    /// The size of the file of a handle: what the size aggregate of the store means, or
    /// the failure of the store as a database error.
    fn size(&self, handle: Handle) -> (size: Result<Option<usize>, DatabaseError>)
        ensures
            exists|answer: Result<i64, WrappedError>| size == measured(answer),
            size matches Ok(Some(bytes)) ==> bytes <= i64::MAX,
    {
        let answer = integer_for(connection(&self.database), SQL_SIZE, handle.0);
        let ghost told = answer;
        let size = match answer {
            Ok(raw) => size_from_aggregate(raw),
            Err(error) => Err(DatabaseError::from_store(error)),
        };
        assert(size == measured(told));
        size
    }
}

/// Hands the content of a source to the store, chunk by chunk: the source is read in
/// pieces of the chunk size, every piece becomes the chunk of the next number, counted from
/// zero, and the first piece that is not full is the last chunk. A read that was
/// interrupted is made again.
///
/// With the outcome come the chunks as they were handed to the store, each with its
/// number. They are numbered from zero without a gap and are as long as the reads of the
/// source were; the outcome is what [`written_outcome`] makes of these reads; and on
/// success the chunks are what a file is written in.
fn write_chunks<R: Read>(
    connection: &Database,
    entry: i64,
    data: &mut R,
    chunk_size: usize,
) -> (written: (Result<(), CreationError>, Ghost<Seq<(int, Seq<u8>)>>))
    requires
        0 < chunk_size,
    ensures
        is_numbered(written.1@),
        written.0 is Ok ==> is_cut(contents(written.1@), chunk_size as int),
        exists|reads: Seq<Result<usize, std::io::Error>>, refused: Option<WrappedError>|
            #[trigger] written_outcome(reads, refused, chunk_size) == Some(written.0) && lengths(
                contents(written.1@),
            ) == handed(reads),
{
    let mut buffer = vec![0u8; chunk_size];
    let mut chunk_index: u32 = 0;
    let mut patience: u64 = u64::MAX;
    let ghost mut chunks: Seq<(int, Seq<u8>)> = Seq::empty();
    let ghost mut reads: Seq<Result<usize, std::io::Error>> = Seq::empty();
    proof {
        assert(lengths(contents(chunks)) =~= handed(reads));
    }
    loop
        invariant
            buffer@.len() == chunk_size,
            0 < chunk_size,
            chunks.len() == chunk_index,
            is_numbered(chunks),
            forall|i: int|
                0 <= i < chunks.len() ==> (#[trigger] contents(chunks)[i]).len() == chunk_size,
            lengths(contents(chunks)) == handed(reads),
            progress(reads, chunk_size) == Some((chunk_index as int, patience as int)),
        decreases u32::MAX - chunk_index, patience,
    {
        let outcome = read_into(data, &mut buffer);
        let ghost told = outcome;
        let ghost before = reads;
        let ghost stored = chunks;
        proof {
            reads = reads.push(told);
            assert(reads.drop_last() =~= before);
        }
        match step_after_read(outcome, chunk_size) {
            ChunkStep::Store { bytes, last } => {
                let chunk = slice_subrange(buffer.as_slice(), 0, bytes);
                proof {
                    chunks = chunks.push((chunk_index as int, chunk@));
                    assert(contents(chunks) =~= contents(stored).push(chunk@));
                    assert(lengths(contents(chunks)) =~= lengths(contents(stored)).push(
                        bytes as int,
                    ));
                }
                match insert_chunk(connection, SQL_CREATE_BLOB, entry, chunk_index, chunk) {
                    Ok(_) => {},
                    Err(error) => {
                        let written = Err(CreationError::from(error));
                        assert(written_outcome(reads, Some(error), chunk_size) == Some(written));
                        return (written, Ghost(chunks));
                    },
                }
                if last {
                    assert(written_outcome(reads, None, chunk_size) == Some(
                        Ok::<(), CreationError>(()),
                    ));
                    assert(is_cut(contents(chunks), chunk_size as int)) by {
                        assert forall|i: int| 0 <= i < contents(chunks).len() - 1 implies (
                        #[trigger] contents(chunks)[i]).len() == chunk_size by {
                            assert(contents(chunks)[i] == contents(stored)[i]);
                        }
                    }
                    return (Ok(()), Ghost(chunks));
                }
                if chunk_index == u32::MAX {
                    let written = Err(
                        CreationError::DatabaseError(DatabaseError::new(SQLITE_TOOBIG, None)),
                    );
                    assert(written_outcome(reads, None, chunk_size) == Some(written));
                    return (written, Ghost(chunks));
                }
                proof {
                    assert forall|i: int| 0 <= i < chunks.len() implies (#[trigger] contents(
                        chunks,
                    )[i]).len() == chunk_size by {
                        if i < stored.len() {
                            assert(contents(chunks)[i] == contents(stored)[i]);
                        }
                    }
                }
                chunk_index = chunk_index + 1;
                patience = u64::MAX;
            },
            ChunkStep::Again(kind) => {
                if patience > 0 {
                    patience = patience - 1;
                } else {
                    let written = Err(CreationError::SourceError(kind));
                    assert(written_outcome(reads, None, chunk_size) == Some(written));
                    return (written, Ghost(chunks));
                }
            },
            ChunkStep::Fail(kind) => {
                let written = Err(CreationError::SourceError(kind));
                assert(written_outcome(reads, None, chunk_size) == Some(written));
                return (written, Ghost(chunks));
            },
        }
    }
}

/// Creates the two tables of the schema inside one transaction: the transaction is begun,
/// the table of the entries and the table of the chunks are created, and the transaction
/// is committed. The first step that fails ends the creation.
fn create_schema<D: BorrowMut<Database>>(database: &mut D) -> (created: Result<
    (),
    FileSystemError,
>)
    ensures
        created matches Err(error) ==> error is DatabaseError,
        exists|steps: Seq<Option<WrappedError>>|
            steps.len() <= 4 && created == #[trigger] schema_outcome(steps) && (created is Ok
                ==> steps.len() == 4),
{
    let transaction = match begin(database) {
        Ok(transaction) => transaction,
        Err(error) => {
            let created = Err(FileSystemError::from(error));
            assert(created == schema_outcome(seq![Some(error)]));
            return created;
        },
    };
    match execute(inside(&transaction), SQL_CREATE_META) {
        Ok(_) => {},
        Err(error) => {
            let created = Err(FileSystemError::from(error));
            proof {
                let steps = seq![None, Some(error)];
                assert(steps.drop_first() =~= seq![Some(error)]);
                reveal_with_fuel(schema_outcome, 3);
                assert(created == schema_outcome(steps));
            }
            return created;
        },
    }
    match execute(inside(&transaction), SQL_CREATE_DATA) {
        Ok(_) => {},
        Err(error) => {
            let created = Err(FileSystemError::from(error));
            proof {
                let steps = seq![None, None, Some(error)];
                assert(steps.drop_first() =~= seq![None, Some(error)]);
                assert(steps.drop_first().drop_first() =~= seq![Some(error)]);
                reveal_with_fuel(schema_outcome, 4);
                assert(created == schema_outcome(steps));
            }
            return created;
        },
    }
    let committed = commit(transaction);
    let ghost told = committed;
    let ghost last: Option<WrappedError> = match told {
        Ok(()) => None,
        Err(error) => Some(error),
    };
    let created = match committed {
        Ok(()) => Ok(()),
        Err(error) => Err(FileSystemError::from(error)),
    };
    proof {
        let steps = seq![None, None, None, last];
        assert(steps.drop_first() =~= seq![None, None, last]);
        assert(steps.drop_first().drop_first() =~= seq![None, last]);
        assert(steps.drop_first().drop_first().drop_first() =~= seq![last]);
        assert(seq![last].drop_first() =~= Seq::<Option<WrappedError>>::empty());
        reveal_with_fuel(schema_outcome, 6);
        assert(created == schema_outcome(steps));
    }
    created
}

/// A file stored in the virtual file system: a view bound to one file system and one handle,
/// with the size of the file as it was when the view was made and a cursor for reading on.
#[derive(Debug)]
pub struct File<'a, D> {
    file_system: &'a FileSystem<D>,
    handle: Handle,
    size: usize,
    current_index: usize,
}

impl<'a, D> File<'a, D> {
    #[verifier::type_invariant]
    spec fn cursor_in_file(self) -> bool {
        self.current_index <= self.size <= i64::MAX
    }

    /// The file system that the file lives in.
    pub closed spec fn spec_file_system(&self) -> &'a FileSystem<D> {
        self.file_system
    }

    /// The handle of the file.
    pub closed spec fn spec_handle(&self) -> Handle {
        self.handle
    }

    /// The size of the file in bytes.
    pub closed spec fn spec_len(&self) -> usize {
        self.size
    }

    /// The number of bytes that sequential reads have passed.
    pub closed spec fn spec_position(&self) -> usize {
        self.current_index
    }

    /// The view of a file of a given size, bound to a file system and a handle, with the
    /// cursor at its beginning.
    pub closed spec fn at_start(file_system: &'a FileSystem<D>, handle: Handle, size: usize) -> File<
        'a,
        D,
    > {
        File { file_system, handle, size, current_index: 0 }
    }

    /// What [`File::at_start`] is made of.
    pub proof fn lemma_at_start(file_system: &'a FileSystem<D>, handle: Handle, size: usize)
        ensures
            File::at_start(file_system, handle, size).spec_file_system() == file_system,
            File::at_start(file_system, handle, size).spec_handle() == handle,
            File::at_start(file_system, handle, size).spec_len() == size,
            File::at_start(file_system, handle, size).spec_position() == 0,
    {
    }

    /// What validating a handle gives, from what the size query gave: the file at its
    /// beginning where the store holds content for the handle, no file where it holds
    /// none, and the failure of the query as it is.
    pub open spec fn validated(
        file_system: &'a FileSystem<D>,
        handle: Handle,
        sized: Result<Option<usize>, DatabaseError>,
    ) -> Result<File<'a, D>, LoadingError> {
        match sized {
            Ok(Some(size)) => Ok(File::at_start(file_system, handle, size)),
            Ok(None) => Err(LoadingError::FileNotFound),
            Err(error) => Err(LoadingError::DatabaseError(error)),
        }
    }

    /// What loading a path gives, from what the lookup of the path and the size query
    /// gave: no file where the store has no entry for the path, the failure of the lookup
    /// as it is, and else what validating the handle of the entry gives.
    pub open spec fn loaded(
        file_system: &'a FileSystem<D>,
        entry: Result<Option<Handle>, DatabaseError>,
        sized: Result<Option<usize>, DatabaseError>,
    ) -> Result<File<'a, D>, LoadingError> {
        match entry {
            Ok(Some(handle)) => File::validated(file_system, handle, sized),
            Ok(None) => Err(LoadingError::FileNotFound),
            Err(error) => Err(LoadingError::DatabaseError(error)),
        }
    }

    /// Whether `created` is what creating a file gives, from what writing the file and
    /// the size query gave: the failure to write as it is, else the file at its beginning
    /// with the size that the store reports, the failure of the query as a database
    /// error, or an internal malfunction where the store reports no size for the file it
    /// has just taken.
    pub open spec fn is_created(
        file_system: &'a FileSystem<D>,
        made: Result<Handle, CreationError>,
        sized: Result<Option<usize>, DatabaseError>,
        created: Result<File<'a, D>, CreationError>,
    ) -> bool {
        match made {
            Err(error) => created == Err::<File<'a, D>, CreationError>(error),
            Ok(handle) => match sized {
                Ok(Some(size)) => created == Ok::<File<'a, D>, CreationError>(
                    File::at_start(file_system, handle, size),
                ),
                Ok(None) => created matches Err(CreationError::DatabaseError(error)) && error@
                    == (SQLITE_INTERNAL, Some(MISSING_SIZE_MESSAGE@)),
                Err(error) => created == Err::<File<'a, D>, CreationError>(
                    CreationError::DatabaseError(error),
                ),
            },
        }
    }
}

impl<'a, D: BorrowMut<Database>> File<'a, D> {
    /// Create a file in the virtual file system and fill it from a source of bytes.
    ///
    /// The file is written by the file system, which stays the file system it was, and
    /// its size is fetched once: what comes back is made of what the store and the source
    /// answered to the steps of the writing and of what the store answered to the size
    /// query, as [`is_made`], [`measured`] and [`File::is_created`] say.
    pub fn create<R: Read>(
        file_system: &'a mut FileSystem<D>,
        path: &str,
        data: R,
        chunk_size: usize,
    ) -> (created: Result<File<'a, D>, CreationError>)
        ensures
            final(file_system).spec_meta_data() == old(file_system).spec_meta_data(),
            created matches Ok(file) ==> file.spec_position() == 0 && *file.spec_file_system()
                == *final(file_system),
            exists|
                made: Result<Handle, CreationError>,
                chunks: Seq<(int, Seq<u8>)>,
                answer: Result<i64, WrappedError>,
            |
                #![trigger is_made(chunk_size, made, chunks), measured(answer)]
                is_made(chunk_size, made, chunks) && File::is_created(
                    &*final(file_system),
                    made,
                    measured(answer),
                    created,
                ),
    {
        let (made, Ghost(chunks)) = file_system.create(path, data, chunk_size);
        let ghost written = made;
        let handle = match made {
            Ok(handle) => handle,
            Err(error) => {
                let created = Err(error);
                assert(File::is_created(
                    &*final(file_system),
                    written,
                    measured(Ok(0)),
                    created,
                ));
                return created;
            },
        };
        let sized = file_system.size(handle);
        let ghost answer = choose|answer: Result<i64, WrappedError>| sized == measured(answer);
        let size = match sized {
            Ok(Some(size)) => size,
            Ok(None) => {
                let created = Err(
                    CreationError::DatabaseError(
                        DatabaseError::new(
                            SQLITE_INTERNAL,
                            Some(String::from_str(MISSING_SIZE_MESSAGE)),
                        ),
                    ),
                );
                assert(File::is_created(
                    &*final(file_system),
                    written,
                    measured(answer),
                    created,
                ));
                return created;
            },
            Err(error) => {
                let created = Err(CreationError::DatabaseError(error));
                assert(File::is_created(
                    &*final(file_system),
                    written,
                    measured(answer),
                    created,
                ));
                return created;
            },
        };
        let created = Ok(File { file_system, handle, size, current_index: 0 });
        assert(File::is_created(
            &*final(file_system),
            written,
            measured(answer),
            created,
        ));
        created
    }

    /// Load a file from the virtual file system.
    ///
    /// The path is looked up, and the handle of its entry is validated: what comes back is
    /// made of what the store answered to the lookup and to the size query, as [`opened`],
    /// [`measured`] and [`File::loaded`] say. A path without an entry is not found.
    pub fn load(file_system: &'a FileSystem<D>, path: &str) -> (loaded: Result<
        File<'a, D>,
        LoadingError,
    >)
        ensures
            loaded matches Ok(file) ==> file.spec_position() == 0 && file.spec_file_system()
                == file_system,
            exists|lookup: Result<Option<i64>, WrappedError>, answer: Result<i64, WrappedError>|
                loaded == File::loaded(file_system, opened(lookup), measured(answer)),
    {
        let entry = file_system.open(path);
        let ghost lookup = choose|lookup: Result<Option<i64>, WrappedError>|
            entry == opened(lookup);
        match entry {
            Ok(Some(handle)) => {
                let sized = file_system.size(handle);
                let ghost answer = choose|answer: Result<i64, WrappedError>|
                    sized == measured(answer);
                let loaded = File::with_size(file_system, handle, sized);
                assert(loaded == File::loaded(file_system, opened(lookup), measured(answer)));
                loaded
            },
            Ok(None) => {
                let loaded = Err(LoadingError::FileNotFound);
                assert(loaded == File::loaded(file_system, opened(lookup), measured(Ok(0))));
                loaded
            },
            Err(error) => {
                let loaded = Err(LoadingError::DatabaseError(error));
                assert(loaded == File::loaded(file_system, opened(lookup), measured(Ok(0))));
                loaded
            },
        }
    }

    /// The file that validating a handle gives, from what the size query gave.
    fn with_size(
        file_system: &'a FileSystem<D>,
        handle: Handle,
        sized: Result<Option<usize>, DatabaseError>,
    ) -> (found: Result<File<'a, D>, LoadingError>)
        requires
            sized matches Ok(Some(size)) ==> size <= i64::MAX,
        ensures
            found == File::validated(file_system, handle, sized),
            found matches Ok(file) ==> file.spec_position() == 0 && file.spec_handle() == handle
                && file.spec_file_system() == file_system,
    {
        match sized {
            Ok(Some(size)) => Ok(File { file_system, handle, size, current_index: 0 }),
            Ok(None) => Err(LoadingError::FileNotFound),
            Err(error) => Err(LoadingError::DatabaseError(error)),
        }
    }

    /// The file behind a handle. The handle is validated by fetching the size of the file:
    /// what comes back is made of what the store answered to the size query, as
    /// [`measured`] and [`File::validated`] say. A handle without content in the store is
    /// not found.
    pub fn try_from(value: (&'a FileSystem<D>, Handle)) -> (found: Result<
        File<'a, D>,
        LoadingError,
    >)
        ensures
            found matches Ok(file) ==> file.spec_position() == 0 && file.spec_handle() == value.1
                && file.spec_file_system() == value.0,
            exists|answer: Result<i64, WrappedError>|
                found == File::validated(value.0, value.1, measured(answer)),
    {
        let (file_system, handle) = value;
        let sized = file_system.size(handle);
        let ghost answer = choose|answer: Result<i64, WrappedError>| sized == measured(answer);
        let found = File::with_size(file_system, handle, sized);
        assert(found == File::validated(file_system, handle, measured(answer)));
        found
    }

    /// Read the content of a file from the virtual file system into a sink.
    ///
    /// This function does not modify the cursor. What comes back is made of what the store
    /// answered to the read of this range, as [`read_outcome`] says.
    pub fn random_read<W: Write>(&self, sink: W, index: usize, length: usize) -> (read: Result<
        usize,
        ReadError,
    >)
        ensures
            (index > i64::MAX || length > i64::MAX) <==> read == Err::<usize, ReadError>(
                ReadError::FileSystemLimits,
            ),
            index <= i64::MAX && length == 0 ==> read == Ok::<usize, ReadError>(0),
            read matches Ok(count) ==> count == length,
            exists|
                rows: Seq<(i64, i64, i64)>,
                sizes: Seq<int>,
                stopped: Option<WrappedError>,
                sunk: Option<std::io::Error>,
            |
                sizes.len() <= rows.len() && read == read_outcome(
                    index as int,
                    length as int,
                    rows,
                    sizes,
                    stopped,
                    sunk,
                ),
    {
        let mut sink = sink;
        self.file_system.read(self.handle, &mut sink, index, length)
    }

    /// Query the length of the file.
    pub fn len(&self) -> (size: usize)
        ensures
            size == self.spec_len(),
    {
        self.size
    }

    /// Checks whether the file is empty.
    pub fn is_empty(&self) -> (empty: bool)
        ensures
            empty == (self.spec_len() == 0),
    {
        self.size == 0
    }

    /// The number of bytes that sequential reads have passed; it never exceeds the length
    /// of the file.
    pub fn position(&self) -> (position: usize)
        ensures
            position == self.spec_position(),
            position <= self.spec_len(),
    {
        proof {
            use_type_invariant(self);
        }
        self.current_index
    }

    /// Query the raw underlying handle.
    pub fn handle(&self) -> (handle: Handle)
        ensures
            handle == self.spec_handle(),
    {
        self.handle
    }

    /// Delete the file from the virtual file system. The deletion succeeds only if the
    /// store reports that exactly one entry went: what comes back is made of what the
    /// store answered to the deletion, as [`removed_one`] says.
    pub fn delete(self) -> (removed: bool)
        ensures
            exists|answer: Result<usize, WrappedError>| removed == removed_one(reported(answer)),
    {
        let deleted = self.file_system.delete(self.handle);
        let ghost answer = choose|answer: Result<usize, WrappedError>|
            deleted == reported(answer);
        let removed = is_one_removed(&deleted);
        assert(removed == removed_one(reported(answer)));
        removed
    }

    /// Reads on from the cursor into a buffer: as many bytes as the buffer takes and the
    /// file still holds. The cursor moves on by the bytes read; a failed read leaves it
    /// where it was.
    ///
    /// The bytes are read at the cursor, and what comes back is made of what the store
    /// answered to that read, as [`read_outcome`] says. They are placed at the beginning
    /// of the buffer; the buffer keeps its length and what it holds behind them. A read
    /// that fails, and a read with nothing left or into an empty buffer, leaves the buffer
    /// as it was.
    pub fn read(&mut self, buf: &mut [u8]) -> (read: Result<usize, ReadError>)
        ensures
            final(self).spec_handle() == old(self).spec_handle(),
            final(self).spec_len() == old(self).spec_len(),
            final(self).spec_file_system() == old(self).spec_file_system(),
            read matches Ok(count) ==> count == step_length(
                old(buf)@.len() as int,
                old(self).spec_len() as int,
                old(self).spec_position() as int,
            ) && final(self).spec_position() == old(self).spec_position() + count,
            read is Err ==> final(self).spec_position() == old(self).spec_position(),
            old(self).spec_position() == old(self).spec_len() || old(buf)@.len() == 0 ==> read
                == Ok::<usize, ReadError>(0),
            final(buf)@.len() == old(buf)@.len(),
            read matches Ok(count) ==> forall|i: int|
                count <= i < old(buf)@.len() ==> final(buf)@[i] == old(buf)@[i],
            read is Err ==> final(buf)@ == old(buf)@,
            old(self).spec_position() == old(self).spec_len() || old(buf)@.len() == 0
                ==> final(buf)@ == old(buf)@,
            exists|
                rows: Seq<(i64, i64, i64)>,
                sizes: Seq<int>,
                stopped: Option<WrappedError>,
                sunk: Option<std::io::Error>,
            |
                sizes.len() <= rows.len() && read == read_outcome(
                    old(self).spec_position() as int,
                    step_length(
                        old(buf)@.len() as int,
                        old(self).spec_len() as int,
                        old(self).spec_position() as int,
                    ),
                    rows,
                    sizes,
                    stopped,
                    sunk,
                ),
    {
        proof {
            use_type_invariant(&*self);
        }
        let left = self.size - self.current_index;
        let length = if buf.len() < left {
            buf.len()
        } else {
            left
        };
        let mut staged: Vec<u8> = Vec::new();
        let outcome = self.file_system.read(self.handle, &mut staged, self.current_index, length);
        proof {
            let (rows, sizes, stopped, sunk) = choose|
                rows: Seq<(i64, i64, i64)>,
                sizes: Seq<int>,
                stopped: Option<WrappedError>,
                sunk: Option<std::io::Error>,
            |
                sizes.len() <= rows.len() && outcome == read_outcome(
                    self.current_index as int,
                    length as int,
                    rows,
                    sizes,
                    stopped,
                    sunk,
                );
            assert(outcome == read_outcome(
                old(self).spec_position() as int,
                step_length(
                    old(buf)@.len() as int,
                    old(self).spec_len() as int,
                    old(self).spec_position() as int,
                ),
                rows,
                sizes,
                stopped,
                sunk,
            ));
        }
        match outcome {
            Ok(count) => {
                place(buf, &staged, count);
                self.current_index = self.current_index + count;
                Ok(count)
            },
            Err(error) => Err(error),
        }
    }

    /// Replaces a buffer by the rest of the file behind the cursor: the buffer is made as
    /// long as what is left, and is read into from the cursor on. Where nothing is left,
    /// nothing is read and nothing fails.
    pub fn read_to_end(&mut self, buf: &mut Vec<u8>) -> (read: Result<usize, ReadError>)
        ensures
            old(self).spec_position() == old(self).spec_len() ==> read == Ok::<usize, ReadError>(
                0,
            ),
            final(self).spec_handle() == old(self).spec_handle(),
            final(self).spec_len() == old(self).spec_len(),
            final(self).spec_file_system() == old(self).spec_file_system(),
            read matches Ok(count) ==> count == old(self).spec_len() - old(self).spec_position()
                && final(self).spec_position() == old(self).spec_len(),
            read is Err ==> final(self).spec_position() == old(self).spec_position(),
            final(buf)@.len() == old(self).spec_len() - old(self).spec_position(),
            read is Err ==> final(buf)@ == Seq::new(
                (old(self).spec_len() - old(self).spec_position()) as nat,
                |i: int| 0u8,
            ),
            ({
                let left = old(self).spec_len() - old(self).spec_position();
                exists|
                    rows: Seq<(i64, i64, i64)>,
                    sizes: Seq<int>,
                    stopped: Option<WrappedError>,
                    sunk: Option<std::io::Error>,
                |
                    sizes.len() <= rows.len() && read == read_outcome(
                        old(self).spec_position() as int,
                        left,
                        rows,
                        sizes,
                        stopped,
                        sunk,
                    )
            }),
    {
        proof {
            use_type_invariant(&*self);
        }
        let left = self.size - self.current_index;
        *buf = vec![0u8; left];
        let read = self.read(buf.as_mut_slice());
        assert(buf@.len() == left);
        read
    }
}

/// Places the first `count` bytes of what a read handed over at the beginning of a buffer,
/// as far as both reach. The buffer keeps its length and what it holds behind them.
fn place(buf: &mut [u8], bytes: &Vec<u8>, count: usize)
    ensures
        final(buf)@.len() == old(buf)@.len(),
        forall|i: int| count <= i < old(buf)@.len() ==> final(buf)@[i] == old(buf)@[i],
        forall|i: int|
            0 <= i < count && i < bytes@.len() && i < old(buf)@.len() ==> final(buf)@[i]
                == bytes@[i],
        count == 0 ==> final(buf)@ == old(buf)@,
{
    let mut at: usize = 0;
    while at < count && at < bytes.len() && at < buf.len()
        invariant
            buf@.len() == old(buf)@.len(),
            at <= count,
            forall|i: int| at <= i < buf@.len() ==> buf@[i] == old(buf)@[i],
            forall|i: int| 0 <= i < at ==> buf@[i] == bytes@[i],
        decreases count - at,
    {
        buf[at] = bytes[at];
        at = at + 1;
    }
    assert(count == 0 ==> buf@ =~= old(buf)@);
}

} // verus!
