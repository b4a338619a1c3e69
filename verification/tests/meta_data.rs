use matryoshka_sqlite::util::{Availability, MetaData, MetaDataExtractor};
use matryoshka_sqlite::Database;

#[test]
fn test_extractor() {
    let version_extractor = MetaDataExtractor::default();
    assert_eq!(
        &MetaDataExtractor::generate_table_name(0),
        "Matryoshka_Meta_0"
    );
    assert_eq!(
        version_extractor.extract(&MetaDataExtractor::generate_table_name(0)),
        Some(0)
    );
    assert_eq!(
        &MetaDataExtractor::generate_table_name(1),
        "Matryoshka_Meta_1"
    );
    assert_eq!(
        version_extractor.extract(&MetaDataExtractor::generate_table_name(1)),
        Some(1)
    );
    assert_eq!(
        &MetaDataExtractor::generate_table_name(42),
        "Matryoshka_Meta_42"
    );
    assert_eq!(
        version_extractor.extract(&MetaDataExtractor::generate_table_name(42)),
        Some(42)
    );
}

#[test]
fn test_missing_filesystem() {
    let database = Database::open_in_memory().expect("Valid SQLite database");
    assert_eq!(MetaData::from_database(&database), Availability::Missing);
}

#[test]
fn test_existing_filesystem() {
    let database = Database::open_in_memory().expect("Valid SQLite database");
    database
        .execute(
            &format!(
                "CREATE TABLE {} (example TEXT)",
                MetaDataExtractor::generate_table_name(0)
            ),
            [],
        )
        .expect("Create database failed");
    assert_eq!(
        MetaData::from_database(&database),
        Availability::Available(MetaData::from_version(0))
    );

    // The most recent meta data is discovered.
    database
        .execute(
            &format!(
                "CREATE TABLE {} (example TEXT)",
                MetaDataExtractor::generate_table_name(42)
            ),
            [],
        )
        .expect("Create database failed");
    assert_eq!(
        MetaData::from_database(&database),
        Availability::Available(MetaData::from_version(42))
    );
}

#[test]
fn test_extractor_rejects_other_names() {
    let extractor = MetaDataExtractor::default();
    assert_eq!(extractor.extract("Matryoshka_Meta_"), None);
    assert_eq!(extractor.extract("Matryoshka_Data"), None);
    assert_eq!(extractor.extract("Matryoshka_Meta_x1"), None);
    assert_eq!(extractor.extract(""), None);
}

#[test]
fn test_extractor_takes_the_leftmost_run_of_digits() {
    let extractor = MetaDataExtractor::default();
    assert_eq!(extractor.extract("Matryoshka_Meta_7_backup"), Some(7));
    assert_eq!(extractor.extract("old_Matryoshka_Meta_12"), Some(12));
    assert_eq!(extractor.extract("Matryoshka_Meta_007"), Some(7));
}

#[test]
fn test_extractor_rejects_versions_beyond_32_bits() {
    let extractor = MetaDataExtractor::default();
    assert_eq!(extractor.extract("Matryoshka_Meta_4294967295"), Some(4294967295));
    assert_eq!(extractor.extract("Matryoshka_Meta_4294967296"), None);
}

#[test]
fn test_version_round_trip() {
    assert_eq!(MetaData::from_version(7).version(), 7);
    assert_eq!(MetaData::from_version(0), MetaData::from_version(0));
}

#[test]
fn test_newer_keeps_the_highest_version() {
    assert_eq!(MetaData::newer(None, None), None);
    assert_eq!(MetaData::newer(None, Some(3)), Some(MetaData::from_version(3)));
    assert_eq!(
        MetaData::newer(Some(MetaData::from_version(5)), Some(3)),
        Some(MetaData::from_version(5))
    );
    assert_eq!(
        MetaData::newer(Some(MetaData::from_version(5)), Some(9)),
        Some(MetaData::from_version(9))
    );
    assert_eq!(
        MetaData::newer(Some(MetaData::from_version(5)), None),
        Some(MetaData::from_version(5))
    );
}

#[test]
fn test_tables_without_a_version_are_passed_over() {
    let database = Database::open_in_memory().expect("Valid SQLite database");
    database
        .execute("CREATE TABLE Matryoshka_Meta_next (example TEXT)", [])
        .expect("Create database failed");
    assert_eq!(MetaData::from_database(&database), Availability::Missing);
}

#[test]
fn test_a_row_that_cannot_be_fetched_fails_the_scan() {
    let extractor = MetaDataExtractor::default();
    assert_eq!(
        extractor.most_recent(vec![
            Ok(String::from("Matryoshka_Meta_1")),
            Ok(String::from("Matryoshka_Meta_7")),
            Ok(String::from("Matryoshka_Meta_x")),
        ]),
        Ok(Some(MetaData::from_version(7)))
    );
    assert_eq!(extractor.most_recent(Vec::new()), Ok(None));
    assert_eq!(
        extractor.most_recent(vec![
            Ok(String::from("Matryoshka_Meta_1")),
            Err(rusqlite::Error::InvalidColumnIndex(3)),
            Ok(String::from("Matryoshka_Meta_7")),
            Err(rusqlite::Error::InvalidQuery),
        ]),
        Err(rusqlite::Error::InvalidColumnIndex(3))
    );
}
