//! The Lyrion persist database: the statements that the provider sends to it, and
//! when what it holds can serve as a snapshot of play counts.

use vstd::prelude::*;

use crate::text::{concat, same_text, texts};

verus! {

/// How long a locked database is waited for, in seconds.
pub const BUSY_TIMEOUT_SECONDS: u64 = 2;

/// Forbids writing and begins the transaction that freezes what is read.
pub const SNAPSHOT_SQL: &'static str = "PRAGMA query_only = ON; BEGIN;";

/// Ends the transaction of a snapshot.
pub const RELEASE_SQL: &'static str = "ROLLBACK;";

/// Tells whether the table of play counts exists.
pub const TABLE_SQL: &'static str =
    "SELECT EXISTS(SELECT 1 FROM sqlite_master WHERE type = 'table' AND name = 'tracks_persistent')";

/// Lists the columns of the table of play counts; the second value of a row is a name.
pub const COLUMNS_SQL: &'static str = "PRAGMA table_info(tracks_persistent)";

/// Why no snapshot was opened, with what the database said.
pub enum OpenFailure {
    Open(String),
    BusyTimeout(String),
    Begin(String),
}

/// Why the columns could not be listed, with what the database said.
pub enum ColumnsFailure {
    Prepare(String),
    Query(String),
    Decode(String),
}

/// The message for a snapshot that was not opened.
pub open spec fn open_failure_message(failure: OpenFailure) -> Seq<char> {
    match failure {
        OpenFailure::Open(error) => "cannot open Lyrion persist database read-only: "@ + error@,
        OpenFailure::BusyTimeout(error) => "cannot set SQLite busy timeout: "@ + error@,
        OpenFailure::Begin(error) => "cannot begin read-only SQLite snapshot: "@ + error@,
    }
}

/// Puts a failure to open a snapshot into words.
pub fn describe_open_failure(failure: OpenFailure) -> (message: String)
    ensures
        message@ == open_failure_message(failure),
{
    match failure {
        OpenFailure::Open(error) => concat(
            "cannot open Lyrion persist database read-only: ",
            error.as_str(),
        ),
        OpenFailure::BusyTimeout(error) => concat(
            "cannot set SQLite busy timeout: ",
            error.as_str(),
        ),
        OpenFailure::Begin(error) => concat(
            "cannot begin read-only SQLite snapshot: ",
            error.as_str(),
        ),
    }
}

/// Why a database is refused over its table of play counts.
pub open spec fn table_refusal(exists: Result<bool, String>) -> Option<Seq<char>> {
    match exists {
        Ok(true) => None,
        Ok(false) => Some("tracks_persistent table is unavailable"@),
        Err(error) => Some("cannot inspect tracks_persistent schema: "@ + error@),
    }
}

/// Accepts a database that has the table of play counts.
pub fn validate_tracks_persistent_table(exists: Result<bool, String>) -> (valid: Result<(), String>)
    ensures
        match valid {
            Ok(_) => table_refusal(exists) is None,
            Err(message) => table_refusal(exists) == Some(message@),
        },
{
    match exists {
        Ok(exists) => if exists {
            Ok(())
        } else {
            Err("tracks_persistent table is unavailable".to_owned())
        },
        Err(error) => Err(
            concat("cannot inspect tracks_persistent schema: ", error.as_str()),
        ),
    }
}

/// Why a database is refused over the columns of its table.
pub open spec fn columns_refusal(columns: Result<Vec<String>, ColumnsFailure>) -> Option<
    Seq<char>,
> {
    match columns {
        Ok(names) => if !texts(names@).contains("urlmd5"@) {
            Some("tracks_persistent.urlmd5 column is unavailable"@)
        } else if !texts(names@).contains("playcount"@) {
            Some("tracks_persistent.playcount column is unavailable"@)
        } else {
            None
        },
        Err(ColumnsFailure::Prepare(error)) => Some(
            "cannot inspect tracks_persistent columns: "@ + error@,
        ),
        Err(ColumnsFailure::Query(error)) => Some(
            "cannot read tracks_persistent columns: "@ + error@,
        ),
        Err(ColumnsFailure::Decode(error)) => Some(
            "cannot decode tracks_persistent columns: "@ + error@,
        ),
    }
}

/// Whether a list of names holds `name`.
fn has_name(names: &Vec<String>, name: &str) -> (has: bool)
    ensures
        has == texts(names@).contains(name@),
{
    let mut i: usize = 0;
    while i < names.len()
        invariant
            i <= names.len(),
            forall|j: int| 0 <= j < i ==> #[trigger] texts(names@)[j] != name@,
        decreases names.len() - i,
    {
        if same_text(names[i].as_str(), name) {
            assert(texts(names@)[i as int] == name@);
            return true;
        }
        i = i + 1;
    }
    false
}

/// Accepts a database whose table has the columns that the counts are read from.
pub fn validate_tracks_persistent_columns(columns: Result<Vec<String>, ColumnsFailure>) -> (valid: Result<(), String>)
    ensures
        match valid {
            Ok(_) => columns_refusal(columns) is None,
            Err(message) => columns_refusal(columns) == Some(message@),
        },
{
    match columns {
        Ok(names) => if !has_name(&names, "urlmd5") {
            Err("tracks_persistent.urlmd5 column is unavailable".to_owned())
        } else if !has_name(&names, "playcount") {
            Err("tracks_persistent.playcount column is unavailable".to_owned())
        } else {
            Ok(())
        },
        Err(ColumnsFailure::Prepare(error)) => Err(
            concat("cannot inspect tracks_persistent columns: ", error.as_str()),
        ),
        Err(ColumnsFailure::Query(error)) => Err(
            concat("cannot read tracks_persistent columns: ", error.as_str()),
        ),
        Err(ColumnsFailure::Decode(error)) => Err(
            concat("cannot decode tracks_persistent columns: ", error.as_str()),
        ),
    }
}

} // verus!
