use regex::Regex;
use rusqlite::Connection as Database;
use rusqlite::Error as WrappedError;
use vstd::prelude::*;

use crate::pattern::{capture, compile, compiles, first_capture, pattern_of};
use crate::store::texts_like;
use crate::text::{decimal, parse, parsed, push_decimal};

verus! {

/// The prefix of the name of the table that marks a schema version.
pub const META_TABLE_PREFIX: &'static str = "Matryoshka_Meta_";

/// The pattern that a table name must hold to mark a schema version.
pub const META_TABLE_PATTERN: &'static str = "Matryoshka_Meta_([0-9]+)";

/// The names that the catalog is searched for.
pub const META_TABLE_LIKE: &'static str = "Matryoshka_Meta_%";

/// The query that lists the tables of a given name.
pub const SQL_FIND_TABLES: &'static str =
    "SELECT name FROM sqlite_master WHERE type='table' AND name LIKE ?";

/// Meta data associated with the virtual file system.
#[derive(Debug, Clone, Copy, Ord, PartialOrd, Eq, PartialEq, Structural)]
pub struct MetaData(u32);

/// The availability of the file system in a SQLite database.
#[derive(Debug, PartialEq)]
pub enum Availability {
    /// There is a file system available.
    Available(MetaData),
    /// There is no file system available.
    Missing,
    /// During querying, there was an SQLite error.
    Error(WrappedError),
}

/// The more recent of the meta data found so far and a version found next.
pub open spec fn newer(latest: Option<MetaData>, candidate: Option<u32>) -> Option<MetaData> {
    match (latest, candidate) {
        (Some(known), Some(version)) => if version > known.spec_version() {
            Some(MetaData::spec_from_version(version))
        } else {
            latest
        },
        (None, Some(version)) => Some(MetaData::spec_from_version(version)),
        (_, None) => latest,
    }
}

/// The most recent meta data among the versions found, if any was found.
pub open spec fn newest(candidates: Seq<Option<u32>>) -> Option<MetaData>
    decreases candidates.len(),
{
    if candidates.len() == 0 {
        None
    } else {
        newer(newest(candidates.drop_last()), candidates.last())
    }
}

/// The most recent meta data is that of the highest version found: it is none exactly if
/// no version was found, and else it is of a version that was found and that no version
/// found exceeds.
pub proof fn lemma_newest_is_highest(candidates: Seq<Option<u32>>)
    ensures
        newest(candidates) is None <==> forall|i: int|
            0 <= i < candidates.len() ==> #[trigger] candidates[i] is None,
        newest(candidates) matches Some(latest) ==> {
            &&& exists|i: int|
                0 <= i < candidates.len() && #[trigger] candidates[i] == Some(
                    latest.spec_version(),
                )
            &&& forall|i: int|
                0 <= i < candidates.len() && #[trigger] candidates[i] is Some ==> candidates[i]->0
                    <= latest.spec_version()
        },
    decreases candidates.len(),
{
    if candidates.len() > 0 {
        let front = candidates.drop_last();
        lemma_newest_is_highest(front);
        assert forall|i: int| 0 <= i < front.len() implies front[i] == candidates[i] by {}
        let last = candidates.len() - 1;
        match newest(candidates) {
            Some(latest) => {
                if newest(front) == Some(latest) {
                    let i = choose|i: int|
                        0 <= i < front.len() && front[i] == Some(latest.spec_version());
                    assert(candidates[i] == Some(latest.spec_version()));
                } else {
                    assert(candidates[last] == Some(latest.spec_version()));
                }
            },
            None => {},
        }
    }
}

impl MetaData {
    /// The meta data of a version, as a value.
    pub closed spec fn spec_from_version(version: u32) -> MetaData {
        MetaData(version)
    }

    /// The version of the file system, as a value.
    pub closed spec fn spec_version(&self) -> u32 {
        self.0
    }

    /// The version of meta data made from a version is that version, and meta data is
    /// nothing but its version.
    pub proof fn lemma_version(version: u32, other: MetaData)
        ensures
            MetaData::spec_from_version(version).spec_version() == version,
            MetaData::spec_from_version(other.spec_version()) == other,
    {
    }

    /// Create a meta data directly for a specific version.
    #[verifier::when_used_as_spec(spec_from_version)]
    pub fn from_version(version: u32) -> (meta_data: MetaData)
        ensures
            meta_data == MetaData::spec_from_version(version),
            meta_data.spec_version() == version,
    {
        MetaData(version)
    }

    /// Returns the version of the file system.
    #[verifier::when_used_as_spec(spec_version)]
    pub fn version(&self) -> (version: u32)
        ensures
            version == self.spec_version(),
    {
        self.0
    }

    /// The more recent of the meta data found so far and a version found next.
    pub fn newer(latest: Option<MetaData>, candidate: Option<u32>) -> (chosen: Option<MetaData>)
        ensures
            chosen == newer(latest, candidate),
    {
        match candidate {
            Some(version) => match latest {
                Some(known) => if version > known.0 {
                    Some(MetaData(version))
                } else {
                    latest
                },
                None => Some(MetaData(version)),
            },
            None => latest,
        }
    }

    /// Queries a database for the most recent meta data available.
    ///
    /// The catalog of the database is searched for tables whose names begin like the
    /// marker of a schema version. Which tables there are is the database's matter; what
    /// is made of the answer is [`discovered`]: the highest version that the names mark,
    /// no file system where they mark none, and a failed search as it is, be it that the
    /// query failed or that one of its rows could not be fetched.
    pub fn from_database(database: &Database) -> (availability: Availability)
        ensures
            exists|
                extractor: MetaDataExtractor,
                answer: Result<Vec<Result<String, WrappedError>>, WrappedError>,
            |
                extractor.pattern() == version_pattern() && availability == discovered(
                    extractor,
                    answer,
                ),
    {
        let extractor = MetaDataExtractor::default();
        let answer = texts_like(database, SQL_FIND_TABLES, META_TABLE_LIKE);
        let ghost told = answer;
        let availability = match answer {
            Ok(rows) => match extractor.most_recent(rows) {
                Ok(Some(meta_data)) => Availability::Available(meta_data),
                Ok(None) => Availability::Missing,
                Err(error) => Availability::Error(error),
            },
            Err(error) => Availability::Error(error),
        };
        assert(availability == discovered(extractor, told));
        availability
    }
}

/// What a search of the catalog tells of the file system: the most recent meta data that
/// the names found mark, no file system where they mark none, and the failure where the
/// query failed or a row could not be fetched.
pub open spec fn discovered(
    extractor: MetaDataExtractor,
    answer: Result<Vec<Result<String, WrappedError>>, WrappedError>,
) -> Availability {
    match answer {
        Ok(rows) => match extractor.scanned(rows@) {
            Ok(Some(meta_data)) => Availability::Available(meta_data),
            Ok(None) => Availability::Missing,
            Err(error) => Availability::Error(error),
        },
        Err(error) => Availability::Error(error),
    }
}

/// The failure of the first row of a search that could not be fetched, if there is one.
pub open spec fn first_failure(rows: Seq<Result<String, WrappedError>>) -> Option<WrappedError>
    decreases rows.len(),
{
    if rows.len() == 0 {
        None
    } else {
        match first_failure(rows.drop_last()) {
            Some(error) => Some(error),
            None => match rows.last() {
                Ok(_) => None,
                Err(error) => Some(error),
            },
        }
    }
}

/// Rows that follow the first row that could not be fetched do not change which failure
/// comes first.
pub proof fn lemma_first_failure_extends(rows: Seq<Result<String, WrappedError>>, place: int)
    requires
        0 <= place < rows.len(),
        first_failure(rows.take(place)) is None,
        rows[place] is Err,
    ensures
        first_failure(rows) == Some(rows[place]->Err_0),
    decreases rows.len(),
{
    if place == rows.len() - 1 {
        assert(rows.drop_last() =~= rows.take(place));
    } else {
        assert(rows.drop_last().take(place) =~= rows.take(place));
        lemma_first_failure_extends(rows.drop_last(), place);
    }
}

/// An extractor for the version that a table name marks.
#[derive(Debug, Clone)]
pub struct MetaDataExtractor(Option<Regex>);

impl MetaDataExtractor {
    /// The pattern that the extractor searches for, if it holds one.
    pub closed spec fn pattern(self) -> Option<Seq<char>> {
        match self.0 {
            Some(regex) => Some(pattern_of(regex)),
            None => None,
        }
    }

    /// The version that a text marks for this extractor: what the digits captured by the
    /// pattern are worth as a number.
    pub open spec fn version_in(self, text: Seq<char>) -> Option<u32> {
        match self.pattern() {
            Some(pattern) => match first_capture(pattern, text) {
                Some(digits) => parsed(digits),
                None => None,
            },
            None => None,
        }
    }

    /// The versions that the rows of a search mark, row by row.
    pub open spec fn versions_in(self, rows: Seq<Result<String, WrappedError>>) -> Seq<
        Option<u32>,
    > {
        rows.map_values(
            |row: Result<String, WrappedError>|
                match row {
                    Ok(name) => self.version_in(name@),
                    Err(_) => None,
                },
        )
    }

    /// What a scan of the rows of a search gives: the failure of the first row that
    /// could not be fetched, and where every row was fetched, the most recent meta data
    /// that the rows mark.
    pub open spec fn scanned(self, rows: Seq<Result<String, WrappedError>>) -> Result<
        Option<MetaData>,
        WrappedError,
    > {
        match first_failure(rows) {
            Some(error) => Err(error),
            None => Ok(newest(self.versions_in(rows))),
        }
    }

    /// The most recent meta data that the rows of a search mark: the highest version among
    /// them, or none where no row marks a version. A row that could not be fetched makes
    /// the whole scan fail with the failure of that row.
    pub fn most_recent(&self, rows: Vec<Result<String, WrappedError>>) -> (latest: Result<
        Option<MetaData>,
        WrappedError,
    >)
        ensures
            latest == self.scanned(rows@),
    {
        let ghost all = rows@;
        let mut pending = rows;
        let mut latest: Option<MetaData> = None;
        let mut index: usize = 0;
        while index < pending.len()
            invariant
                index <= pending.len(),
                pending@ == all,
                all == rows@,
                first_failure(all.take(index as int)) is None,
                latest == newest(self.versions_in(all).take(index as int)),
            decreases pending.len() - index,
        {
            proof {
                let versions = self.versions_in(all);
                assert(versions.take(index + 1).drop_last() =~= versions.take(index as int));
                assert(all.take(index + 1).drop_last() =~= all.take(index as int));
            }
            if pending[index].is_err() {
                proof {
                    lemma_first_failure_extends(all, index as int);
                }
                let row = pending.remove(index);
                assert(row == all[index as int]);
                return match row {
                    Err(error) => Err(error),
                    Ok(_) => Ok(latest),
                };
            }
            let candidate = match &pending[index] {
                Ok(name) => self.extract(name.as_str()),
                Err(_) => None,
            };
            latest = MetaData::newer(latest, candidate);
            index = index + 1;
        }
        proof {
            let versions = self.versions_in(all);
            assert(versions.take(all.len() as int) =~= versions);
            assert(all.take(all.len() as int) =~= all);
        }
        Ok(latest)
    }

    /// The name of the table that marks a version.
    pub fn generate_table_name(version: u32) -> (name: String)
        ensures
            name@ == META_TABLE_PREFIX@ + decimal(version as nat),
    {
        let mut name = String::from_str(META_TABLE_PREFIX);
        push_decimal(&mut name, version);
        name
    }

    /// The version that a text marks, if it marks one.
    pub fn extract(&self, value: &str) -> (version: Option<u32>)
        ensures
            version == self.version_in(value@),
    {
        match &self.0 {
            Some(regex) => match capture(regex, value) {
                Some(digits) => parse(digits.as_str()),
                None => None,
            },
            None => None,
        }
    }
}

/// The pattern that the extractor of versions searches for: the pattern of the marker of
/// a schema version, as far as `regex` compiles it.
pub open spec fn version_pattern() -> Option<Seq<char>> {
    if compiles(META_TABLE_PATTERN@) {
        Some(META_TABLE_PATTERN@)
    } else {
        None
    }
}

impl Default for MetaDataExtractor {
    fn default() -> (extractor: MetaDataExtractor)
        ensures
            extractor.pattern() == version_pattern(),
    {
        MetaDataExtractor(compile(META_TABLE_PATTERN))
    }
}

} // verus!
