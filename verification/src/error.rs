//! The failures the tracker reports, each with the inputs that caused it.

use vstd::prelude::*;
use crate::text::{decimal, decimal_digits, push_decimal, push_text, push_unsigned, trim, trimmed};

verus! {

/// A failure of a tracker operation.
#[derive(Debug, Clone, PartialEq, Eq)]
pub enum TrackerError {
    /// A required argument is empty or white space only.
    Blank { label: String },
    /// A pull request number is zero or negative.
    InvalidPullRequestNumber,
    /// A pull request came back without the identity of its head commit.
    MissingHeadSha,
    /// The remote answered with a status outside 200..=299.
    RemoteStatus { status: u16, body: String },
    /// A response body does not have the expected shape.
    Decode { endpoint: String, cause: String },
    /// A request could not be sent or its answer could not be read.
    Transport { endpoint: String, cause: String },
    /// The remote refused to list teams: the token lacks the scope for it.
    TeamsForbidden { cause: String },
    /// The remote refused to list the members of a team.
    TeamMembersForbidden { org: String, team_slug: String, cause: String },
    /// A text is not an RFC 3339 date and time.
    InvalidTimestamp { value: String },
    /// A stored number of seconds is outside the calendar.
    InvalidUnixTimestamp { seconds: i64 },
    /// The stored `requested_reviewers` text cannot be read.
    InvalidReviewers { cause: String },
    /// No credential is stored.
    NotAuthenticated,
    /// A credential is stored already.
    AlreadyAuthenticated { username: String },
    /// More than one credential is stored.
    DuplicateUser { count: usize },
    /// A storage operation failed.
    Persistence { operation: String, cause: String },
}

/// The mathematical content of an [`TrackerError`].
pub enum TrackerErrorView {
    Blank { label: Seq<char> },
    InvalidPullRequestNumber,
    MissingHeadSha,
    RemoteStatus { status: u16, body: Seq<char> },
    Decode { endpoint: Seq<char>, cause: Seq<char> },
    Transport { endpoint: Seq<char>, cause: Seq<char> },
    TeamsForbidden { cause: Seq<char> },
    TeamMembersForbidden { org: Seq<char>, team_slug: Seq<char>, cause: Seq<char> },
    InvalidTimestamp { value: Seq<char> },
    InvalidUnixTimestamp { seconds: i64 },
    InvalidReviewers { cause: Seq<char> },
    NotAuthenticated,
    AlreadyAuthenticated { username: Seq<char> },
    DuplicateUser { count: usize },
    Persistence { operation: Seq<char>, cause: Seq<char> },
}

impl View for TrackerError {
    type V = TrackerErrorView;

    open spec fn view(&self) -> TrackerErrorView {
        match *self {
            TrackerError::Blank { label } => TrackerErrorView::Blank { label: label@ },
            TrackerError::InvalidPullRequestNumber => TrackerErrorView::InvalidPullRequestNumber,
            TrackerError::MissingHeadSha => TrackerErrorView::MissingHeadSha,
            TrackerError::RemoteStatus { status, body } => TrackerErrorView::RemoteStatus { status, body: body@ },
            TrackerError::Decode { endpoint, cause } => TrackerErrorView::Decode {
                endpoint: endpoint@,
                cause: cause@,
            },
            TrackerError::Transport { endpoint, cause } => TrackerErrorView::Transport {
                endpoint: endpoint@,
                cause: cause@,
            },
            TrackerError::TeamsForbidden { cause } => TrackerErrorView::TeamsForbidden { cause: cause@ },
            TrackerError::TeamMembersForbidden { org, team_slug, cause } => TrackerErrorView::TeamMembersForbidden {
                org: org@,
                team_slug: team_slug@,
                cause: cause@,
            },
            TrackerError::InvalidTimestamp { value } => TrackerErrorView::InvalidTimestamp { value: value@ },
            TrackerError::InvalidUnixTimestamp { seconds } => TrackerErrorView::InvalidUnixTimestamp { seconds },
            TrackerError::InvalidReviewers { cause } => TrackerErrorView::InvalidReviewers { cause: cause@ },
            TrackerError::NotAuthenticated => TrackerErrorView::NotAuthenticated,
            TrackerError::AlreadyAuthenticated { username } => TrackerErrorView::AlreadyAuthenticated {
                username: username@,
            },
            TrackerError::DuplicateUser { count } => TrackerErrorView::DuplicateUser { count },
            TrackerError::Persistence { operation, cause } => TrackerErrorView::Persistence {
                operation: operation@,
                cause: cause@,
            },
        }
    }
}

impl TrackerErrorView {
    /// The text shown for a failure.
    pub open spec fn message(self) -> Seq<char> {
        match self {
            TrackerErrorView::Blank { label } => label + " is required"@,
            TrackerErrorView::InvalidPullRequestNumber => "pr id must be greater than zero"@,
            TrackerErrorView::MissingHeadSha => "pull request head sha is missing"@,
            TrackerErrorView::RemoteStatus { status, body } => "github API request failed: status="@
                + decimal_digits(status as nat) + " body="@ + trimmed(body),
            TrackerErrorView::Decode { endpoint, cause } => "error decoding response body for "@ + endpoint
                + ": "@ + cause,
            TrackerErrorView::Transport { endpoint, cause } => "error sending request for "@ + endpoint
                + ": "@ + cause,
            TrackerErrorView::TeamsForbidden { cause } =>
                "failed to fetch GitHub teams: token likely lacks 'read:org' scope. Regenerate your token with 'read:org' permission and run 'prt auth' again.\nOriginal error: "@
                + cause,
            TrackerErrorView::TeamMembersForbidden { org, team_slug, cause } =>
                "failed to fetch members for team '"@ + team_slug + "' in org '"@ + org
                + "': token likely lacks 'read:org' scope.\nOriginal error: "@ + cause,
            TrackerErrorView::InvalidTimestamp { value } => "invalid timestamp: "@ + value,
            TrackerErrorView::InvalidUnixTimestamp { seconds } => "invalid unix timestamp: "@ + decimal(
                seconds as int,
            ),
            TrackerErrorView::InvalidReviewers { cause } => "unmarshal requested_reviewers: "@ + cause,
            TrackerErrorView::NotAuthenticated =>
                "no authenticated user found, run 'cli auth <token>' first"@,
            TrackerErrorView::AlreadyAuthenticated { username } => "a user is already authenticated as '"@
                + username + "', remove existing user first"@,
            TrackerErrorView::DuplicateUser { count } => "fatal error: expected at most 1 user, got "@
                + decimal_digits(count as nat),
            TrackerErrorView::Persistence { operation, cause } => operation + ": "@ + cause,
        }
    }
}

impl TrackerError {
    /// The text shown for this failure.
    pub fn message(&self) -> (out: String)
        ensures
            out@ == self@.message(),
    {
        let mut out = String::new();
        match self {
            TrackerError::Blank { label } => {
                push_text(&mut out, label.as_str());
                push_text(&mut out, " is required");
            },
            TrackerError::InvalidPullRequestNumber => {
                push_text(&mut out, "pr id must be greater than zero");
            },
            TrackerError::MissingHeadSha => {
                push_text(&mut out, "pull request head sha is missing");
            },
            TrackerError::RemoteStatus { status, body } => {
                push_text(&mut out, "github API request failed: status=");
                push_unsigned(&mut out, *status as u64);
                push_text(&mut out, " body=");
                let shown = trim(body.as_str());
                push_text(&mut out, shown.as_str());
            },
            TrackerError::Decode { endpoint, cause } => {
                push_text(&mut out, "error decoding response body for ");
                push_text(&mut out, endpoint.as_str());
                push_text(&mut out, ": ");
                push_text(&mut out, cause.as_str());
            },
            TrackerError::Transport { endpoint, cause } => {
                push_text(&mut out, "error sending request for ");
                push_text(&mut out, endpoint.as_str());
                push_text(&mut out, ": ");
                push_text(&mut out, cause.as_str());
            },
            TrackerError::TeamsForbidden { cause } => {
                push_text(
                    &mut out,
                    "failed to fetch GitHub teams: token likely lacks 'read:org' scope. Regenerate your token with 'read:org' permission and run 'prt auth' again.\nOriginal error: ",
                );
                push_text(&mut out, cause.as_str());
            },
            TrackerError::TeamMembersForbidden { org, team_slug, cause } => {
                push_text(&mut out, "failed to fetch members for team '");
                push_text(&mut out, team_slug.as_str());
                push_text(&mut out, "' in org '");
                push_text(&mut out, org.as_str());
                push_text(&mut out, "': token likely lacks 'read:org' scope.\nOriginal error: ");
                push_text(&mut out, cause.as_str());
            },
            TrackerError::InvalidTimestamp { value } => {
                push_text(&mut out, "invalid timestamp: ");
                push_text(&mut out, value.as_str());
            },
            TrackerError::InvalidUnixTimestamp { seconds } => {
                push_text(&mut out, "invalid unix timestamp: ");
                push_decimal(&mut out, *seconds);
            },
            TrackerError::InvalidReviewers { cause } => {
                push_text(&mut out, "unmarshal requested_reviewers: ");
                push_text(&mut out, cause.as_str());
            },
            TrackerError::NotAuthenticated => {
                push_text(&mut out, "no authenticated user found, run 'cli auth <token>' first");
            },
            TrackerError::AlreadyAuthenticated { username } => {
                push_text(&mut out, "a user is already authenticated as '");
                push_text(&mut out, username.as_str());
                push_text(&mut out, "', remove existing user first");
            },
            TrackerError::DuplicateUser { count } => {
                push_text(&mut out, "fatal error: expected at most 1 user, got ");
                push_unsigned(&mut out, *count as u64);
            },
            TrackerError::Persistence { operation, cause } => {
                push_text(&mut out, operation.as_str());
                push_text(&mut out, ": ");
                push_text(&mut out, cause.as_str());
            },
        }
        out
    }
}

} // verus!
