//! The stored form of the records: one row of plain values for a pull
//! request, and the rule that at most one credential is stored.

use vstd::prelude::*;
use crate::error::{TrackerError, TrackerErrorView};
use crate::json::{json_error_text, json_strings, strings_from_json, strings_json, strings_to_json};
use crate::models::{CiStatus, PullRequest, PullRequestView, User};
use crate::time::Timestamp;

verus! {

/// A pull request as it is stored: instants as whole seconds since the
/// Unix epoch, the CI status as a number, the requested logins as a JSON
/// list.
#[derive(Debug, Clone, PartialEq, Eq)]
pub struct PullRequestRow {
    pub number: i64,
    pub title: String,
    pub repository: String,
    pub author: String,
    pub head_sha: String,
    pub draft: bool,
    pub created_at_unix: i64,
    pub updated_at_unix: i64,
    pub ci_status: i64,
    pub last_comment_unix: i64,
    pub last_commit_unix: i64,
    pub last_ci_status_update_unix: i64,
    pub last_acknowledged_unix: Option<i64>,
    pub requested_reviewers: String,
}

/// Whether a stored number of seconds is inside the calendar.
pub open spec fn in_calendar(seconds: i64) -> bool {
    Timestamp::of_seconds(seconds) is Some
}

/// The first stored number of seconds of a row that is outside the
/// calendar, in the order the numbers are read: creation, update, last
/// comment, last commit, last CI status change, acknowledgement.
pub open spec fn first_invalid(row: PullRequestRow) -> Option<i64> {
    if !in_calendar(row.created_at_unix) {
        Some(row.created_at_unix)
    } else if !in_calendar(row.updated_at_unix) {
        Some(row.updated_at_unix)
    } else if !in_calendar(row.last_comment_unix) {
        Some(row.last_comment_unix)
    } else if !in_calendar(row.last_commit_unix) {
        Some(row.last_commit_unix)
    } else if !in_calendar(row.last_ci_status_update_unix) {
        Some(row.last_ci_status_update_unix)
    } else {
        match row.last_acknowledged_unix {
            Some(seconds) => if in_calendar(seconds) {
                None
            } else {
                Some(seconds)
            },
            None => None,
        }
    }
}

/// The instant of a stored number of seconds that is inside the calendar.
pub open spec fn instant_at(seconds: i64) -> Timestamp {
    Timestamp { secs: seconds, nanos: 0 }
}

/// The record that a row with readable parts stands for.
pub open spec fn row_record(row: PullRequestRow, requested: Seq<Seq<char>>) -> PullRequestView {
    PullRequestView {
        number: row.number,
        title: row.title@,
        repository: row.repository@,
        author: row.author@,
        head_sha: row.head_sha@,
        draft: row.draft,
        created_at: instant_at(row.created_at_unix),
        updated_at: instant_at(row.updated_at_unix),
        ci_status: CiStatus::of_code(row.ci_status),
        last_comment_at: instant_at(row.last_comment_unix),
        last_commit_at: instant_at(row.last_commit_unix),
        last_ci_status_update_at: instant_at(row.last_ci_status_update_unix),
        last_acknowledged_at: match row.last_acknowledged_unix {
            Some(seconds) => Some(instant_at(seconds)),
            None => None,
        },
        requested_reviewers: requested,
    }
}

/// The instant of a stored number of seconds.
pub fn unix_to_datetime(seconds: i64) -> (r: Result<Timestamp, TrackerError>)
    ensures
        match r {
            Ok(instant) => Timestamp::of_seconds(seconds) == Some(instant),
            Err(e) => Timestamp::of_seconds(seconds) is None && e@ == (
            TrackerErrorView::InvalidUnixTimestamp { seconds }),
        },
{
    match Timestamp::from_seconds(seconds) {
        Some(instant) => Ok(instant),
        None => Err(TrackerError::InvalidUnixTimestamp { seconds }),
    }
}

impl PullRequestRow {
    /// The record that the row stands for. Fails where the list of
    /// requested logins cannot be read, else where a number of seconds is
    /// outside the calendar, with the first such number.
    pub fn to_model(self) -> (r: Result<PullRequest, TrackerError>)
        ensures
            match r {
                Ok(record) => {
                    &&& json_strings(self.requested_reviewers@) is Some
                    &&& first_invalid(self) is None
                    &&& record@ == row_record(self, json_strings(self.requested_reviewers@)->0)
                },
                Err(e) => if json_strings(self.requested_reviewers@) is None {
                    e@ is InvalidReviewers
                } else {
                    first_invalid(self) == Some(e@->InvalidUnixTimestamp_seconds)
                        && e@ is InvalidUnixTimestamp
                },
            },
    {
        let requested_reviewers = match strings_from_json(self.requested_reviewers.as_str()) {
            Ok(items) => items,
            Err(err) => {
                return Err(TrackerError::InvalidReviewers { cause: json_error_text(&err) });
            },
        };
        let created_at = match unix_to_datetime(self.created_at_unix) {
            Ok(instant) => instant,
            Err(e) => {
                return Err(e);
            },
        };
        let updated_at = match unix_to_datetime(self.updated_at_unix) {
            Ok(instant) => instant,
            Err(e) => {
                return Err(e);
            },
        };
        let last_comment_at = match unix_to_datetime(self.last_comment_unix) {
            Ok(instant) => instant,
            Err(e) => {
                return Err(e);
            },
        };
        let last_commit_at = match unix_to_datetime(self.last_commit_unix) {
            Ok(instant) => instant,
            Err(e) => {
                return Err(e);
            },
        };
        let last_ci_status_update_at = match unix_to_datetime(self.last_ci_status_update_unix) {
            Ok(instant) => instant,
            Err(e) => {
                return Err(e);
            },
        };
        let last_acknowledged_at = match self.last_acknowledged_unix {
            Some(seconds) => match unix_to_datetime(seconds) {
                Ok(instant) => Some(instant),
                Err(e) => {
                    return Err(e);
                },
            },
            None => None,
        };
        Ok(
            PullRequest {
                number: self.number,
                title: self.title,
                repository: self.repository,
                author: self.author,
                head_sha: self.head_sha,
                draft: self.draft,
                created_at,
                updated_at,
                ci_status: CiStatus::from_i64(self.ci_status),
                last_comment_at,
                last_commit_at,
                last_ci_status_update_at,
                last_acknowledged_at,
                requested_reviewers,
            },
        )
    }

    /// The row to store for a record: instants lose what is below a
    /// second. Fails where the list of requested logins cannot be written
    /// as JSON.
    pub fn from_model(pr: &PullRequest) -> (r: Result<PullRequestRow, TrackerError>)
        ensures
            match r {
                Ok(row) => {
                    &&& strings_json(pr@.requested_reviewers) == Some(row.requested_reviewers@)
                    &&& row.number == pr.number
                    &&& row.title@ == pr.title@
                    &&& row.repository@ == pr.repository@
                    &&& row.author@ == pr.author@
                    &&& row.head_sha@ == pr.head_sha@
                    &&& row.draft == pr.draft
                    &&& row.created_at_unix == pr.created_at.secs
                    &&& row.updated_at_unix == pr.updated_at.secs
                    &&& row.ci_status == pr.ci_status.code()
                    &&& row.last_comment_unix == pr.last_comment_at.secs
                    &&& row.last_commit_unix == pr.last_commit_at.secs
                    &&& row.last_ci_status_update_unix == pr.last_ci_status_update_at.secs
                    &&& row.last_acknowledged_unix == match pr.last_acknowledged_at {
                        Some(instant) => Some(instant.secs),
                        None => None,
                    }
                },
                Err(e) => {
                    &&& strings_json(pr@.requested_reviewers) is None
                    &&& e@ is Persistence
                    &&& e@->operation == "encode requested_reviewers"@
                },
            },
    {
        let requested_reviewers = match strings_to_json(&pr.requested_reviewers) {
            Ok(text) => text,
            Err(err) => {
                return Err(
                    TrackerError::Persistence {
                        operation: "encode requested_reviewers".to_owned(),
                        cause: json_error_text(&err),
                    },
                );
            },
        };
        Ok(
            PullRequestRow {
                number: pr.number,
                title: pr.title.clone(),
                repository: pr.repository.clone(),
                author: pr.author.clone(),
                head_sha: pr.head_sha.clone(),
                draft: pr.draft,
                created_at_unix: pr.created_at.secs,
                updated_at_unix: pr.updated_at.secs,
                ci_status: pr.ci_status.as_i64(),
                last_comment_unix: pr.last_comment_at.secs,
                last_commit_unix: pr.last_commit_at.secs,
                last_ci_status_update_unix: pr.last_ci_status_update_at.secs,
                last_acknowledged_unix: match pr.last_acknowledged_at {
                    Some(instant) => Some(instant.secs),
                    None => None,
                },
                requested_reviewers,
            },
        )
    }
}

/// The stored credential, of the credentials found in storage: none, the
/// only one, or a failure where more than one is stored.
pub fn single_user(rows: Vec<User>) -> (r: Result<Option<User>, TrackerError>)
    ensures
        match r {
            Ok(None) => rows.len() == 0,
            Ok(Some(user)) => rows.len() == 1 && user == rows@[0],
            Err(e) => rows.len() > 1 && e@ == (TrackerErrorView::DuplicateUser { count: rows.len() }),
        },
{
    if rows.len() > 1 {
        return Err(TrackerError::DuplicateUser { count: rows.len() });
    }
    let mut rows = rows;
    Ok(rows.pop())
}

} // verus!
