use matryoshka_sqlite::errors::{CreationError, FileSystemError, LoadingError, ReadError};
use matryoshka_sqlite::{Database, File, FileSystem, Handle};

#[test]
fn file_system_test_loading() {
    let mut connection = Database::open_in_memory().expect("Open in-memory database failed");
    {
        assert_eq!(
            FileSystem::load(&mut connection, false).unwrap_err(),
            FileSystemError::NoFileSystem
        );
    }
    {
        FileSystem::load(&mut connection, true).expect("Creating filesystem failed");
    }
    {
        FileSystem::load(&mut connection, false).expect("Loading created filesystem failed");
    }
}

#[test]
fn test_read_trait() {
    let mut file_system = FileSystem::load(
        Database::open_in_memory().expect("Open in-memory database failed"),
        true,
    )
    .expect("Creating filesystem failed");

    let data = [1u8, 2, 3, 4, 5];

    let mut file =
        File::create(&mut file_system, "file", &data[..], 3).expect("File creation failed");
    let mut buffer = vec![0u8; 3];
    assert_eq!(file.read(&mut buffer[..]).expect("Successful read"), 3);
    assert_eq!(&buffer, &[1u8, 2, 3]);

    assert_eq!(file.read_to_end(&mut buffer).expect("Successful read"), 2);
    assert_eq!(&buffer, &[4, 5]);

    // Test that it is safe to read at EOF
    assert_eq!(file.read(&mut buffer[..]).expect("Successful read"), 0);
    assert_eq!(file.read_to_end(&mut buffer).expect("Successful read"), 0);
}

#[test]
fn test_handle() {
    let mut file_system = FileSystem::load(
        Database::open_in_memory().expect("Open in-memory database failed"),
        true,
    )
    .expect("Creating filesystem failed");
    let data = [1u8, 2, 3];

    let handle = {
        let file =
            File::create(&mut file_system, "file", &data[..], 3).expect("File creation failed");
        assert_eq!(file.len(), data.len());
        file.handle()
    };

    // Create an invalid handle and check it is not equal to the "real" one
    let invalid_handle: Handle = 42.into();
    assert_ne!(handle, invalid_handle);

    // Re-open file from handle
    {
        let file = File::try_from((&file_system, handle))
            .expect("Reconstructing file from handle failed");
        assert_eq!(file.len(), data.len());
    }

    // Check that invalid handle is correctly identified
    let invalid_file = File::try_from((&file_system, invalid_handle));
    assert_eq!(
        invalid_file.expect_err("Successful reconstruction of invalid handle"),
        LoadingError::FileNotFound
    );
}

#[test]
fn test_empty_file() {
    let mut file_system = FileSystem::load(
        Database::open_in_memory().expect("Open in-memory database failed"),
        true,
    )
    .expect("Unable to create file system");
    let data = Vec::new();

    let handle = {
        let file =
            File::create(&mut file_system, "abc", &data[..], 3).expect("Unable to create file");
        assert_eq!(file.len(), 0);
        assert_eq!(file.is_empty(), true);
        file.handle()
    };

    let reopened_file =
        File::try_from((&file_system, handle)).expect("Unable to re-open empty file");
    assert_eq!(reopened_file.len(), 0);
}

#[test]
fn test_delete() {
    let mut file_system = FileSystem::load(
        Database::open_in_memory().expect("Open in-memory database failed"),
        true,
    )
    .expect("Creating filesystem failed");
    let data = [1u8, 2, 3];
    let path = "abc";

    // Create file
    File::create(&mut file_system, path, &data[..], 3).expect("File creation failed");

    // Check that the file exists
    File::create(&mut file_system, path, &data[..], 3)
        .expect_err("File created despite existent");

    // Delete the file
    let file = File::load(&mut file_system, path).expect("Existing file not found");
    assert!(file.delete());

    // Check the file does not longer exists
    assert_eq!(
        File::load(&mut file_system, path).expect_err("Delete file still found"),
        LoadingError::FileNotFound
    );

    // Check a new file can be created
    File::create(&mut file_system, path, &data[..], 3).expect("File (re-)creation failed");
}

#[test]
fn test_find() {
    let mut file_system = FileSystem::load(
        Database::open_in_memory().expect("Open in-memory database failed"),
        true,
    )
    .expect("Creating filesystem failed");

    let paths = [
        "folder/example_file_1.txt",
        "folder/example_file_2.txt",
        "folder/nested_folder1/file1.txt",
        "folder/nested_folder1/file2.txt",
        "folder/nested_folder2/file1.txt",
    ];
    let data = [1u8, 2, 3];
    for path in paths.iter() {
        File::create(&mut file_system, path, &data[..], 42).expect("Creating file failed");
    }

    // Check non-existing paths
    assert_eq!(file_system.find("folder").expect("Finding failed").len(), 0);

    // Check existing paths - makes no real sense, but...
    assert_eq!(file_system.find(paths[0]).expect("Finding failed").len(), 1);

    // Check single char wildcard
    assert_eq!(
        file_system
            .find("folder/example_file_?.txt")
            .expect("Finding failed")
            .len(),
        2
    );

    // Check multiple char wildcard
    assert_eq!(
        file_system
            .find("folder/example_*.txt")
            .expect("Finding failed")
            .len(),
        2
    );

    // Check multiple char wildcard in folders
    assert_eq!(
        file_system
            .find("folder/*/*")
            .expect("Finding failed")
            .len(),
        3
    );

    // Check general wildcard
    assert_eq!(file_system.find("*").expect("Finding failed").len(), 5);
}

fn check_file_handling(
    file_size: u8,
    chunk_size: usize,
    index: usize,
    length: usize,
    is_out_of_bounds: bool,
) {
    let data: Vec<_> = (0..file_size).into_iter().collect();
    let path = "file";
    let mut connection = Database::open_in_memory().expect("Open in-memory database failed");
    let mut file_system =
        FileSystem::load(&mut connection, true).expect("Creating filesystem failed");

    // Create file
    {
        let file = File::create(&mut file_system, path, &data[..], chunk_size)
            .expect("Creating file failed");
        assert_eq!(file.len(), data.len());
    }

    // Check that the file could not be overwritten
    assert_eq!(
        File::create(&mut file_system, path, &data[..], chunk_size)
            .expect_err("Able to write file a second time"),
        CreationError::FileExists
    );

    // Load and read file
    {
        let file = File::load(&mut file_system, path).expect("Loading file failed");
        assert_eq!(file.len(), data.len());

        let mut read_data = Vec::new();
        if is_out_of_bounds {
            assert_eq!(
                file.random_read(&mut read_data, index, length)
                    .expect_err("Reading file content was successful despite out of bounds"),
                ReadError::OutOfBounds
            );
        } else {
            assert_eq!(
                file.random_read(&mut read_data, index, length)
                    .expect("Reading file content failed"),
                length
            );
            assert_eq!(read_data.len(), length);
            if length > 0 {
                assert_eq!(&read_data, &data[index..(index + length)]);
            }
        }
    }
}

#[test]
fn test_file_handling_whole_files() {
    for chunk_size in [0usize, 1, 3, 4] {
        for file_size in [0u8, 1, 3] {
            check_file_handling(file_size, chunk_size, 0, file_size as usize, false);
        }
    }
}

#[test]
fn test_file_handling_random_reads() {
    for chunk_size in [0usize, 1, 3, 4] {
        check_file_handling(3, chunk_size, 1, 2, false);
        check_file_handling(3, chunk_size, 2, 1, false);
    }
    check_file_handling(6, 4, 2, 1, false);
    check_file_handling(6, 4, 2, 4, false);
    check_file_handling(6, 4, 3, 2, false);
    check_file_handling(8, 4, 4, 4, false);
    check_file_handling(9, 2, 1, 7, false);
}

#[test]
fn test_file_handling_out_of_bounds() {
    for chunk_size in [0usize, 1, 3, 4] {
        check_file_handling(0, chunk_size, 0, 1, true);
        check_file_handling(1, chunk_size, 1, 1, true);
        check_file_handling(1, chunk_size, 1, 2, true);
        check_file_handling(3, chunk_size, 1, 3, true);
        check_file_handling(3, chunk_size, 2, 2, true);
    }
    check_file_handling(8, 4, 4, 5, true);
    check_file_handling(8, 4, 8, 1, true);
    check_file_handling(8, 4, 100, 1, true);
}

#[test]
fn test_file_handling_empty_reads() {
    for chunk_size in [0usize, 1, 3, 4] {
        check_file_handling(0, chunk_size, 1, 0, false);
        check_file_handling(3, chunk_size, 100, 0, false);
    }
}

#[test]
fn test_read_beyond_the_addressing_width() {
    let mut file_system = FileSystem::load(
        Database::open_in_memory().expect("Open in-memory database failed"),
        true,
    )
    .expect("Creating filesystem failed");
    let data = [1u8, 2, 3];
    let file = File::create(&mut file_system, "file", &data[..], 2).expect("File creation failed");
    let mut sink = Vec::new();
    assert_eq!(
        file.random_read(&mut sink, usize::MAX, 1).expect_err("Read beyond the limits"),
        ReadError::FileSystemLimits
    );
    assert_eq!(
        file.random_read(&mut sink, 0, usize::MAX).expect_err("Read beyond the limits"),
        ReadError::FileSystemLimits
    );
    assert_eq!(
        file.random_read(&mut sink, usize::MAX, 0).expect_err("Read beyond the limits"),
        ReadError::FileSystemLimits
    );
    assert!(sink.is_empty());
}

#[test]
fn test_existing_file_survives_a_second_creation() {
    let mut file_system = FileSystem::load(
        Database::open_in_memory().expect("Open in-memory database failed"),
        true,
    )
    .expect("Creating filesystem failed");
    let first = [1u8, 2, 3, 4, 5];
    let second = [9u8, 8];
    File::create(&mut file_system, "a/b", &first[..], 2).expect("File creation failed");
    for chunk_size in [0usize, 1, 2, 7] {
        assert_eq!(
            File::create(&mut file_system, "/a/./b/", &second[..], chunk_size)
                .expect_err("File created despite existent"),
            CreationError::FileExists
        );
    }
    let file = File::load(&file_system, "a/b").expect("Loading file failed");
    assert_eq!(file.len(), 5);
    let mut sink = Vec::new();
    assert_eq!(file.random_read(&mut sink, 0, 5).expect("Reading failed"), 5);
    assert_eq!(sink, first);
}

#[test]
fn test_second_delete_removes_nothing() {
    let mut file_system = FileSystem::load(
        Database::open_in_memory().expect("Open in-memory database failed"),
        true,
    )
    .expect("Creating filesystem failed");
    let data = [1u8, 2, 3];
    let handle = File::create(&mut file_system, "abc", &data[..], 2)
        .expect("File creation failed")
        .handle();
    let first = File::try_from((&file_system, handle)).expect("Existing file not found");
    let second = File::try_from((&file_system, handle)).expect("Existing file not found");
    assert!(first.delete());
    assert!(!second.delete());
    assert_eq!(
        File::load(&file_system, "abc").expect_err("Deleted file still found"),
        LoadingError::FileNotFound
    );
    assert_eq!(
        File::try_from((&file_system, handle)).expect_err("Deleted file still found"),
        LoadingError::FileNotFound
    );
}

#[test]
fn test_sequential_reads_reproduce_the_content() {
    let mut file_system = FileSystem::load(
        Database::open_in_memory().expect("Open in-memory database failed"),
        true,
    )
    .expect("Creating filesystem failed");
    let data: Vec<u8> = (0..23u8).collect();
    for (number, chunk_size) in [1usize, 2, 5, 23, 64].iter().enumerate() {
        let path = format!("file{}", number);
        let mut file = File::create(&mut file_system, &path, &data[..], *chunk_size)
            .expect("File creation failed");
        let mut whole = Vec::new();
        assert_eq!(file.random_read(&mut whole, 0, data.len()).expect("Reading failed"), 23);
        let mut pieces = Vec::new();
        let mut buffer = vec![0u8; 4];
        loop {
            let count = file.read(&mut buffer[..]).expect("Successful read");
            if count == 0 {
                break;
            }
            pieces.extend_from_slice(&buffer[..count]);
        }
        assert_eq!(pieces, whole);
        assert_eq!(pieces, data);
        assert_eq!(file.read(&mut buffer[..]).expect("Successful read"), 0);
    }
}

#[test]
fn test_loaded_file_system_has_the_current_version() {
    let file_system = FileSystem::load(
        Database::open_in_memory().expect("Open in-memory database failed"),
        true,
    )
    .expect("Creating filesystem failed");
    assert_eq!(file_system.meta_data().version(), 0);
}

#[test]
fn test_unsupported_version() {
    let connection = Database::open_in_memory().expect("Open in-memory database failed");
    connection
        .execute("CREATE TABLE Matryoshka_Meta_3 (example TEXT)", [])
        .expect("Create database failed");
    assert_eq!(
        FileSystem::load(connection, true).expect_err("Loaded an unknown version"),
        FileSystemError::UnsupportedVersion(3)
    );
}

#[test]
fn test_interrupted_source_is_read_again() {
    struct Stutter {
        data: Vec<u8>,
        position: usize,
        stutter: bool,
    }
    impl std::io::Read for Stutter {
        fn read(&mut self, buf: &mut [u8]) -> std::io::Result<usize> {
            self.stutter = !self.stutter;
            if self.stutter {
                return Err(std::io::Error::from(std::io::ErrorKind::Interrupted));
            }
            let count = buf.len().min(self.data.len() - self.position);
            buf[..count].copy_from_slice(&self.data[self.position..self.position + count]);
            self.position += count;
            Ok(count)
        }
    }
    let mut file_system = FileSystem::load(
        Database::open_in_memory().expect("Open in-memory database failed"),
        true,
    )
    .expect("Creating filesystem failed");
    let data: Vec<u8> = (0..10u8).collect();
    let source = Stutter { data: data.clone(), position: 0, stutter: false };
    let file = File::create(&mut file_system, "file", source, 3).expect("File creation failed");
    assert_eq!(file.len(), 10);
    let mut sink = Vec::new();
    assert_eq!(file.random_read(&mut sink, 0, 10).expect("Reading failed"), 10);
    assert_eq!(sink, data);
}

#[test]
fn test_failing_source_leaves_no_file() {
    struct Broken;
    impl std::io::Read for Broken {
        fn read(&mut self, _buf: &mut [u8]) -> std::io::Result<usize> {
            Err(std::io::Error::from(std::io::ErrorKind::UnexpectedEof))
        }
    }
    let mut file_system = FileSystem::load(
        Database::open_in_memory().expect("Open in-memory database failed"),
        true,
    )
    .expect("Creating filesystem failed");
    assert_eq!(
        File::create(&mut file_system, "file", Broken, 3).expect_err("Created from nothing"),
        CreationError::SourceError(std::io::ErrorKind::UnexpectedEof)
    );
    assert_eq!(
        File::load(&file_system, "file").expect_err("Partial file is visible"),
        LoadingError::FileNotFound
    );
}

#[test]
fn test_failing_sink_is_reported() {
    struct Full;
    impl std::io::Write for Full {
        fn write(&mut self, _buf: &[u8]) -> std::io::Result<usize> {
            Err(std::io::Error::from(std::io::ErrorKind::PermissionDenied))
        }
        fn flush(&mut self) -> std::io::Result<()> {
            Ok(())
        }
    }
    let mut file_system = FileSystem::load(
        Database::open_in_memory().expect("Open in-memory database failed"),
        true,
    )
    .expect("Creating filesystem failed");
    let data = [1u8, 2, 3];
    let file = File::create(&mut file_system, "file", &data[..], 2).expect("File creation failed");
    assert_eq!(
        file.random_read(Full, 0, 3).expect_err("Wrote into a full sink"),
        ReadError::SinkError(std::io::ErrorKind::PermissionDenied)
    );
}

#[test]
fn test_sequential_read_keeps_the_rest_of_the_buffer() {
    let mut file_system = FileSystem::load(
        Database::open_in_memory().expect("Open in-memory database failed"),
        true,
    )
    .expect("Creating filesystem failed");
    let data = [1u8, 2, 3, 4, 5];
    let mut file =
        File::create(&mut file_system, "file", &data[..], 2).expect("File creation failed");
    let mut buffer = vec![9u8; 4];
    assert_eq!(file.read(&mut buffer[..]).expect("Successful read"), 4);
    assert_eq!(buffer, [1, 2, 3, 4]);
    assert_eq!(file.position(), 4);
    // one byte is left: it is placed at the beginning, the rest stays
    assert_eq!(file.read(&mut buffer[..]).expect("Successful read"), 1);
    assert_eq!(buffer, [5, 2, 3, 4]);
    // nothing is left: the buffer is left as it was
    assert_eq!(file.read(&mut buffer[..]).expect("Successful read"), 0);
    assert_eq!(buffer, [5, 2, 3, 4]);
    let mut empty: [u8; 0] = [];
    assert_eq!(file.read(&mut empty[..]).expect("Successful read"), 0);
}

#[test]
fn test_failed_sequential_read_leaves_cursor_and_buffer() {
    let mut file_system = FileSystem::load(
        Database::open_in_memory().expect("Open in-memory database failed"),
        true,
    )
    .expect("Creating filesystem failed");
    let data = [1u8, 2, 3];
    let handle = File::create(&mut file_system, "file", &data[..], 2)
        .expect("File creation failed")
        .handle();
    let mut reader = File::try_from((&file_system, handle)).expect("Existing file not found");
    let doomed = File::try_from((&file_system, handle)).expect("Existing file not found");
    assert!(doomed.delete());
    let mut buffer = vec![7u8; 3];
    assert_eq!(
        reader.read(&mut buffer[..]).expect_err("Read a deleted file"),
        ReadError::OutOfBounds
    );
    assert_eq!(buffer, [7, 7, 7]);
    assert_eq!(reader.position(), 0);
    let mut rest = vec![1u8];
    assert_eq!(
        reader.read_to_end(&mut rest).expect_err("Read a deleted file"),
        ReadError::OutOfBounds
    );
    assert_eq!(rest, [0, 0, 0]);
}

#[test]
fn test_read_to_end_fills_the_buffer_with_the_rest() {
    let mut file_system = FileSystem::load(
        Database::open_in_memory().expect("Open in-memory database failed"),
        true,
    )
    .expect("Creating filesystem failed");
    let data: Vec<u8> = (0..11u8).collect();
    let mut file =
        File::create(&mut file_system, "file", &data[..], 4).expect("File creation failed");
    let mut head = vec![0u8; 3];
    assert_eq!(file.read(&mut head[..]).expect("Successful read"), 3);
    let mut rest = vec![42u8; 1];
    assert_eq!(file.read_to_end(&mut rest).expect("Successful read"), 8);
    assert_eq!(rest, &data[3..]);
    assert_eq!(file.read_to_end(&mut rest).expect("Successful read"), 0);
    assert!(rest.is_empty());
}

#[test]
fn test_read_without_chunks_is_out_of_bounds() {
    let mut file_system = FileSystem::load(
        Database::open_in_memory().expect("Open in-memory database failed"),
        true,
    )
    .expect("Creating filesystem failed");
    let data = [1u8, 2, 3];
    let handle = File::create(&mut file_system, "file", &data[..], 2)
        .expect("File creation failed")
        .handle();
    let file = File::try_from((&file_system, handle)).expect("Existing file not found");
    let doomed = File::try_from((&file_system, handle)).expect("Existing file not found");
    assert!(doomed.delete());
    let mut sink = Vec::new();
    assert_eq!(
        file.random_read(&mut sink, 0, 1).expect_err("Read a deleted file"),
        ReadError::OutOfBounds
    );
    assert!(sink.is_empty());
}

#[test]
fn test_read_across_two_chunks() {
    let mut file_system = FileSystem::load(
        Database::open_in_memory().expect("Open in-memory database failed"),
        true,
    )
    .expect("Creating filesystem failed");
    let data = [0u8, 1, 2, 3, 4, 5, 6, 7];
    let file = File::create(&mut file_system, "file", &data[..], 4).expect("File creation failed");
    let mut sink = Vec::new();
    assert_eq!(file.random_read(&mut sink, 2, 4).expect("Reading failed"), 4);
    assert_eq!(sink, [2, 3, 4, 5]);
}
