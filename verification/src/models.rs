//! The records the tracker keeps: pull requests and the stored credential.

use vstd::prelude::*;
use crate::text::{decimal, push_decimal, push_text};
use crate::time::Timestamp;

verus! {

/// The state of the checks of a pull request's head commit.
#[derive(Debug, Clone, Copy, PartialEq, Eq, Structural, Hash)]
pub enum CiStatus {
    Pending,
    Success,
    Failure,
}

impl CiStatus {
    /// The number a status is stored as.
    pub open spec fn code(self) -> i64 {
        match self {
            CiStatus::Pending => 0,
            CiStatus::Success => 1,
            CiStatus::Failure => 2,
        }
    }

    /// The status a stored number stands for; every number but 1 and 2
    /// stands for `Pending`.
    pub open spec fn of_code(value: i64) -> CiStatus {
        if value == 1 {
            CiStatus::Success
        } else if value == 2 {
            CiStatus::Failure
        } else {
            CiStatus::Pending
        }
    }

    pub fn as_i64(self) -> (code: i64)
        ensures
            code == self.code(),
    {
        match self {
            CiStatus::Pending => 0,
            CiStatus::Success => 1,
            CiStatus::Failure => 2,
        }
    }

    pub fn from_i64(value: i64) -> (status: CiStatus)
        ensures
            status == CiStatus::of_code(value),
    {
        if value == 1 {
            CiStatus::Success
        } else if value == 2 {
            CiStatus::Failure
        } else {
            CiStatus::Pending
        }
    }

    /// A status survives being stored and read back.
    pub proof fn lemma_code_round_trip(status: CiStatus)
        ensures
            CiStatus::of_code(status.code()) == status,
    {
    }
}

/// A tracked pull request. The pair of `repository` and `number` is its key.
#[derive(Debug, PartialEq, Eq)]
pub struct PullRequest {
    pub number: i64,
    pub title: String,
    pub repository: String,
    pub author: String,
    pub head_sha: String,
    pub draft: bool,
    pub created_at: Timestamp,
    pub updated_at: Timestamp,
    pub ci_status: CiStatus,
    pub last_comment_at: Timestamp,
    pub last_commit_at: Timestamp,
    pub last_ci_status_update_at: Timestamp,
    pub last_acknowledged_at: Option<Timestamp>,
    pub requested_reviewers: Vec<String>,
}

/// The mathematical content of a [`PullRequest`].
pub struct PullRequestView {
    pub number: i64,
    pub title: Seq<char>,
    pub repository: Seq<char>,
    pub author: Seq<char>,
    pub head_sha: Seq<char>,
    pub draft: bool,
    pub created_at: Timestamp,
    pub updated_at: Timestamp,
    pub ci_status: CiStatus,
    pub last_comment_at: Timestamp,
    pub last_commit_at: Timestamp,
    pub last_ci_status_update_at: Timestamp,
    pub last_acknowledged_at: Option<Timestamp>,
    pub requested_reviewers: Seq<Seq<char>>,
}

impl View for PullRequest {
    type V = PullRequestView;

    open spec fn view(&self) -> PullRequestView {
        PullRequestView {
            number: self.number,
            title: self.title@,
            repository: self.repository@,
            author: self.author@,
            head_sha: self.head_sha@,
            draft: self.draft,
            created_at: self.created_at,
            updated_at: self.updated_at,
            ci_status: self.ci_status,
            last_comment_at: self.last_comment_at,
            last_commit_at: self.last_commit_at,
            last_ci_status_update_at: self.last_ci_status_update_at,
            last_acknowledged_at: self.last_acknowledged_at,
            requested_reviewers: self.requested_reviewers.deep_view(),
        }
    }
}

/// A copy of a list of strings.
fn clone_strings(items: &Vec<String>) -> (out: Vec<String>)
    ensures
        out.deep_view() == items.deep_view(),
{
    let mut out: Vec<String> = Vec::new();
    let mut i: usize = 0;
    while i < items.len()
        invariant
            i <= items.len(),
            out.len() == i,
            forall|j: int| 0 <= j < i ==> out@[j]@ == items@[j]@,
        decreases items.len() - i,
    {
        out.push(items[i].clone());
        i += 1;
    }
    out
}

impl Clone for PullRequest {
    fn clone(&self) -> (out: PullRequest)
        ensures
            out@ == self@,
    {
        PullRequest {
            number: self.number,
            title: self.title.clone(),
            repository: self.repository.clone(),
            author: self.author.clone(),
            head_sha: self.head_sha.clone(),
            draft: self.draft,
            created_at: self.created_at,
            updated_at: self.updated_at,
            ci_status: self.ci_status,
            last_comment_at: self.last_comment_at,
            last_commit_at: self.last_commit_at,
            last_ci_status_update_at: self.last_ci_status_update_at,
            last_acknowledged_at: self.last_acknowledged_at,
            requested_reviewers: clone_strings(&self.requested_reviewers),
        }
    }
}

impl PullRequestView {
    /// The key of a record: its repository and its number.
    pub open spec fn key(self) -> (Seq<char>, i64) {
        (self.repository, self.number)
    }

    /// `author title : repository/number`
    pub open spec fn display_string(self) -> Seq<char> {
        self.author + " "@ + self.title + " : "@ + self.repository + "/"@ + decimal(
            self.number as int,
        )
    }

    /// The address of the pull request's page.
    pub open spec fn url(self) -> Seq<char> {
        "https://github.com/"@ + self.repository + "/pull/"@ + decimal(self.number as int)
    }

    /// What changed since the record was last acknowledged.
    pub open spec fn updates_since_last_ack(self) -> Seq<char> {
        match self.last_acknowledged_at {
            Some(ack) => "  "@ + (if self.last_comment_at.after(ack) {
                "New Comment | "@
            } else {
                Seq::empty()
            }) + (if self.last_commit_at.after(ack) {
                "New Commits | "@
            } else {
                Seq::empty()
            }) + (if self.last_ci_status_update_at.after(ack) {
                "CI Status Changed | "@
            } else {
                Seq::empty()
            }),
            None => "  New PR"@,
        }
    }

    /// A record is acknowledged when it has been acknowledged once and
    /// nothing of it changed after that.
    pub open spec fn is_acknowledged(self) -> bool {
        match self.last_acknowledged_at {
            Some(ack) => !self.last_comment_at.after(ack) && !self.last_commit_at.after(ack)
                && !self.last_ci_status_update_at.after(ack),
            None => false,
        }
    }
}

impl PullRequest {
    pub fn display_string(&self) -> (out: String)
        ensures
            out@ == self@.display_string(),
    {
        let mut out = String::new();
        push_text(&mut out, self.author.as_str());
        push_text(&mut out, " ");
        push_text(&mut out, self.title.as_str());
        push_text(&mut out, " : ");
        push_text(&mut out, self.repository.as_str());
        push_text(&mut out, "/");
        push_decimal(&mut out, self.number);
        out
    }

    pub fn updates_since_last_ack(&self) -> (out: String)
        ensures
            out@ == self@.updates_since_last_ack(),
    {
        match self.last_acknowledged_at {
            Some(ack) => {
                let mut out = String::new();
                push_text(&mut out, "  ");
                if self.last_comment_at.is_after(&ack) {
                    push_text(&mut out, "New Comment | ");
                }
                if self.last_commit_at.is_after(&ack) {
                    push_text(&mut out, "New Commits | ");
                }
                if self.last_ci_status_update_at.is_after(&ack) {
                    push_text(&mut out, "CI Status Changed | ");
                }
                out
            },
            None => {
                let mut out = String::new();
                push_text(&mut out, "  New PR");
                out
            },
        }
    }

    pub fn url(&self) -> (out: String)
        ensures
            out@ == self@.url(),
    {
        let mut out = String::new();
        push_text(&mut out, "https://github.com/");
        push_text(&mut out, self.repository.as_str());
        push_text(&mut out, "/pull/");
        push_decimal(&mut out, self.number);
        out
    }

    /// Whether the record has been acknowledged and nothing of it changed
    /// after that.
    pub fn is_acknowledged(&self) -> (r: bool)
        ensures
            r == self@.is_acknowledged(),
    {
        match self.last_acknowledged_at {
            Some(ack) => !self.last_comment_at.is_after(&ack) && !self.last_commit_at.is_after(&ack)
                && !self.last_ci_status_update_at.is_after(&ack),
            None => false,
        }
    }
}

/// The stored credential.
#[derive(Debug, Clone, PartialEq, Eq)]
pub struct User {
    pub access_token: String,
    pub username: String,
}

} // verus!
