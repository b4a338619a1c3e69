use matryoshka_sqlite::errors::DatabaseError;
use matryoshka_sqlite::errors::ReadError;
use matryoshka_sqlite::file_system::{
    is_one_removed, plan_schema, precompiled_command, read_total, size_from_aggregate,
    step_after_read, ChunkStep, SchemaStep,
};
use matryoshka_sqlite::errors::FileSystemError;
use matryoshka_sqlite::layout::{
    offset_in_first_chunk, resolve_chunk_size, span_in_chunk, span_of_row,
};
use matryoshka_sqlite::text::{parse, push_decimal};
use matryoshka_sqlite::util::{Availability, MetaData};

#[test]
fn test_resolve_chunk_size() {
    assert_eq!(resolve_chunk_size(0, 1000), 33554432);
    assert_eq!(resolve_chunk_size(1, 1000), 1);
    assert_eq!(resolve_chunk_size(1000, 1000), 1000);
    assert_eq!(resolve_chunk_size(1001, 1000), 33554432);
    assert_eq!(resolve_chunk_size(5, 0), 33554432);
    assert_eq!(resolve_chunk_size(5, -1), 33554432);
    assert_eq!(resolve_chunk_size(usize::MAX, i32::MAX), 33554432);
}

#[test]
fn test_offset_in_first_chunk() {
    assert_eq!(offset_in_first_chunk(0, 0, 4), Some(0));
    assert_eq!(offset_in_first_chunk(5, 1, 4), Some(1));
    assert_eq!(offset_in_first_chunk(7, 1, 4), Some(3));
    assert_eq!(offset_in_first_chunk(8, 2, 4), Some(0));
    assert_eq!(offset_in_first_chunk(3, 1, 4), None);
    assert_eq!(offset_in_first_chunk(3, -1, 4), None);
    assert_eq!(offset_in_first_chunk(3, i64::MAX, i64::MAX), None);
    assert_eq!(offset_in_first_chunk(3, i64::MIN, i64::MAX), None);
}

#[test]
fn test_span_in_chunk() {
    // the first chunk: what lies behind the offset, at most what is wanted
    assert_eq!(span_in_chunk(true, 0, 4, 10), Some(4));
    assert_eq!(span_in_chunk(true, 1, 4, 10), Some(3));
    assert_eq!(span_in_chunk(true, 1, 4, 2), Some(2));
    assert_eq!(span_in_chunk(true, 3, 4, 1), Some(1));
    assert_eq!(span_in_chunk(true, 4, 4, 1), None);
    assert_eq!(span_in_chunk(true, 5, 4, 1), None);
    assert_eq!(span_in_chunk(true, 0, 0, 1), None);
    // any later chunk: what it holds, at most what is wanted
    assert_eq!(span_in_chunk(false, 0, 4, 10), Some(4));
    assert_eq!(span_in_chunk(false, 0, 4, 3), Some(3));
    assert_eq!(span_in_chunk(false, 0, 0, 3), Some(0));
    assert_eq!(span_in_chunk(false, 0, 4, 0), Some(0));
    assert_eq!(span_in_chunk(false, 0, -1, 3), None);
    assert_eq!(span_in_chunk(true, 0, -1, 3), None);
}

#[test]
fn test_size_from_aggregate() {
    assert_eq!(size_from_aggregate(-1), Ok(None));
    assert_eq!(size_from_aggregate(0), Ok(Some(0)));
    assert_eq!(size_from_aggregate(17), Ok(Some(17)));
    assert_eq!(size_from_aggregate(i64::MIN), Ok(None));
    if usize::MAX as u128 >= i64::MAX as u128 {
        assert_eq!(size_from_aggregate(i64::MAX), Ok(Some(i64::MAX as usize)));
    } else {
        assert_eq!(size_from_aggregate(i64::MAX), Err(DatabaseError::new(18, None)));
    }
}

#[test]
fn test_plan_schema() {
    assert_eq!(
        plan_schema(Availability::Available(MetaData::from_version(0)), false),
        Ok(SchemaStep::Keep(MetaData::from_version(0)))
    );
    assert_eq!(
        plan_schema(Availability::Available(MetaData::from_version(0)), true),
        Ok(SchemaStep::Keep(MetaData::from_version(0)))
    );
    assert_eq!(
        plan_schema(Availability::Available(MetaData::from_version(1)), true),
        Err(FileSystemError::UnsupportedVersion(1))
    );
    assert_eq!(plan_schema(Availability::Missing, true), Ok(SchemaStep::Create));
    assert_eq!(
        plan_schema(Availability::Missing, false),
        Err(FileSystemError::NoFileSystem)
    );
    assert_eq!(
        plan_schema(
            Availability::Error(rusqlite::Error::SqliteFailure(
                rusqlite::ffi::Error::new(26),
                None
            )),
            true
        ),
        Err(FileSystemError::DatabaseError(DatabaseError::new(26, None)))
    );
}

#[test]
fn test_precompiled_commands_are_distinct() {
    let commands: Vec<&str> = (0..6).map(precompiled_command).collect();
    for (place, command) in commands.iter().enumerate() {
        assert!(!command.is_empty());
        for other in &commands[place + 1..] {
            assert_ne!(command, other);
        }
    }
}

#[test]
fn test_parse() {
    assert_eq!(parse("0"), Some(0));
    assert_eq!(parse("42"), Some(42));
    assert_eq!(parse("+42"), Some(42));
    assert_eq!(parse("0042"), Some(42));
    assert_eq!(parse("4294967295"), Some(u32::MAX));
    assert_eq!(parse("4294967296"), None);
    assert_eq!(parse("99999999999999999999"), None);
    assert_eq!(parse(""), None);
    assert_eq!(parse("+"), None);
    assert_eq!(parse("-1"), None);
    assert_eq!(parse("4 2"), None);
    assert_eq!(parse("42a"), None);
    assert_eq!(parse("++1"), None);
    for text in ["0", "7", "+7", "12345", "4294967295", "4294967296", "", "+", "x", "1x"] {
        assert_eq!(parse(text), text.parse::<u32>().ok());
    }
}

#[test]
fn test_push_decimal() {
    for value in [0u32, 1, 9, 10, 42, 100, 4294967295] {
        let mut text = String::from("v");
        push_decimal(&mut text, value);
        assert_eq!(text, format!("v{}", value));
    }
}

#[test]
fn test_is_one_removed() {
    assert!(is_one_removed(&Ok(1)));
    assert!(!is_one_removed(&Ok(0)));
    assert!(!is_one_removed(&Ok(2)));
    assert!(!is_one_removed(&Err(DatabaseError::new(5, None))));
}

#[test]
fn test_span_of_row() {
    // the first row is entered at the offset of the read
    assert_eq!(span_of_row(0, 2, 4, 10), Some((2, 2)));
    assert_eq!(span_of_row(0, 2, 4, 1), Some((2, 1)));
    assert_eq!(span_of_row(0, 4, 4, 1), None);
    // every later row is entered at its beginning
    assert_eq!(span_of_row(1, 2, 4, 10), Some((0, 4)));
    assert_eq!(span_of_row(3, 2, 4, 3), Some((0, 3)));
    assert_eq!(span_of_row(1, 2, 0, 3), Some((0, 0)));
    assert_eq!(span_of_row(1, 2, -1, 3), None);
}

#[test]
fn test_read_total() {
    assert_eq!(read_total(2, 4, 4), Ok(4));
    assert_eq!(read_total(1, 3, 4), Err(ReadError::OutOfBounds));
    assert_eq!(read_total(0, 0, 4), Err(ReadError::OutOfBounds));
    assert_eq!(read_total(0, 0, 0), Err(ReadError::OutOfBounds));
    assert_eq!(read_total(1, 0, 0), Ok(0));
}

#[test]
fn test_step_after_read() {
    assert_eq!(step_after_read(Ok(4), 4), ChunkStep::Store { bytes: 4, last: false });
    assert_eq!(step_after_read(Ok(3), 4), ChunkStep::Store { bytes: 3, last: true });
    assert_eq!(step_after_read(Ok(0), 4), ChunkStep::Store { bytes: 0, last: true });
    assert_eq!(
        step_after_read(Err(std::io::Error::from(std::io::ErrorKind::Interrupted)), 4),
        ChunkStep::Again(std::io::ErrorKind::Interrupted)
    );
    assert_eq!(
        step_after_read(Err(std::io::Error::from(std::io::ErrorKind::NotFound)), 4),
        ChunkStep::Fail(std::io::ErrorKind::NotFound)
    );
}
