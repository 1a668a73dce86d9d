//! The decisions and the texts of the command line front end.

use vstd::prelude::*;
use crate::error::{TrackerError, TrackerErrorView};
use crate::models::{PullRequest, PullRequestView, User};
use crate::sync::{SyncProgress, SyncProgressView, SyncRunSummary};
use crate::text::{decimal, decimal_digits, push_decimal, push_text, push_unsigned};

verus! {

/// The stored credential, or the failure that none is stored.
pub fn require_user(user: Option<User>) -> (r: Result<User, TrackerError>)
    ensures
        match r {
            Ok(found) => user == Some(found),
            Err(e) => user is None && e@ == TrackerErrorView::NotAuthenticated,
        },
{
    match user {
        Some(found) => Ok(found),
        None => Err(TrackerError::NotAuthenticated),
    }
}

/// Refuses to store a credential beside the one that is stored.
pub fn ensure_not_authenticated(existing: Option<User>) -> (r: Result<(), TrackerError>)
    ensures
        match r {
            Ok(_) => existing is None,
            Err(e) => existing matches Some(user) && e@ == (TrackerErrorView::AlreadyAuthenticated {
                username: user.username@,
            }),
        },
{
    match existing {
        Some(user) => Err(TrackerError::AlreadyAuthenticated { username: user.username }),
        None => Ok(()),
    }
}

/// What the `sync` command does.
#[derive(Debug)]
pub enum SyncPlan {
    /// No repository is tracked: say so and stop.
    NoRepositories,
    /// No author is tracked: say so and stop.
    NoAuthors,
    /// Run a full sync with this token.
    Run { access_token: String },
}

impl SyncPlan {
    /// What to print where the command stops before it syncs.
    pub fn notice(&self) -> (text: Option<&'static str>)
        ensures
            match *self {
                SyncPlan::NoRepositories => text matches Some(t) && t@ == "No repositories to sync"@,
                SyncPlan::NoAuthors => text matches Some(t) && t@ == "No authors to sync"@,
                SyncPlan::Run { .. } => text is None,
            },
    {
        match self {
            SyncPlan::NoRepositories => Some("No repositories to sync"),
            SyncPlan::NoAuthors => Some("No authors to sync"),
            SyncPlan::Run { .. } => None,
        }
    }
}

/// Decides what the `sync` command does: it fails where no credential is
/// stored; it stops where no repository is tracked, else where no author
/// is tracked; else it runs a full sync.
pub fn plan_sync(user: Option<User>, repositories: &[String], authors: &[String]) -> (r: Result<
    SyncPlan,
    TrackerError,
>)
    ensures
        match r {
            Err(e) => user is None && e@ == TrackerErrorView::NotAuthenticated,
            Ok(SyncPlan::NoRepositories) => user is Some && repositories.len() == 0,
            Ok(SyncPlan::NoAuthors) => user is Some && repositories.len() > 0 && authors.len() == 0,
            Ok(SyncPlan::Run { access_token }) => {
                &&& user matches Some(found) && found.access_token == access_token
                &&& repositories.len() > 0
                &&& authors.len() > 0
            },
        },
{
    let found = match require_user(user) {
        Ok(found) => found,
        Err(e) => {
            return Err(e);
        },
    };
    if repositories.len() == 0 {
        return Ok(SyncPlan::NoRepositories);
    }
    if authors.len() == 0 {
        return Ok(SyncPlan::NoAuthors);
    }
    Ok(SyncPlan::Run { access_token: found.access_token })
}

/// The body of the desktop notification for a sync: none where nothing is
/// new and nothing was updated.
pub open spec fn notification_body(summary: SyncRunSummary) -> Option<Seq<char>> {
    if summary.new_prs == 0 && summary.updated_prs == 0 {
        None
    } else {
        Some(
            decimal_digits(summary.new_prs as nat) + " new, "@ + decimal_digits(
                summary.updated_prs as nat,
            ) + " updated PRs"@,
        )
    }
}

/// The body of the desktop notification to show after a sync, if one is
/// to be shown.
pub fn sync_notification(summary: &SyncRunSummary) -> (body: Option<String>)
    ensures
        match body {
            Some(text) => notification_body(*summary) == Some(text@),
            None => notification_body(*summary) is None,
        },
{
    if summary.new_prs == 0 && summary.updated_prs == 0 {
        return None;
    }
    let mut body = String::new();
    push_unsigned(&mut body, summary.new_prs as u64);
    push_text(&mut body, " new, ");
    push_unsigned(&mut body, summary.updated_prs as u64);
    push_text(&mut body, " updated PRs");
    Some(body)
}

/// `Sync complete: repos=.. new=.. updated=.. deleted=..`
pub open spec fn summary_line(summary: SyncRunSummary) -> Seq<char> {
    "Sync complete: repos="@ + decimal_digits(summary.synced_repositories as nat) + " new="@
        + decimal_digits(summary.new_prs as nat) + " updated="@ + decimal_digits(
        summary.updated_prs as nat,
    ) + " deleted="@ + decimal_digits(summary.deleted_prs as nat)
}

/// The line that reports the end of a sync.
pub fn sync_complete_line(summary: &SyncRunSummary) -> (line: String)
    ensures
        line@ == summary_line(*summary),
{
    let mut line = String::new();
    push_text(&mut line, "Sync complete: repos=");
    push_unsigned(&mut line, summary.synced_repositories as u64);
    push_text(&mut line, " new=");
    push_unsigned(&mut line, summary.new_prs as u64);
    push_text(&mut line, " updated=");
    push_unsigned(&mut line, summary.updated_prs as u64);
    push_text(&mut line, " deleted=");
    push_unsigned(&mut line, summary.deleted_prs as u64);
    line
}

/// The line that the log shows for a notification of a sync; only the
/// start and the end of a repository are logged.
pub open spec fn progress_line(progress: SyncProgressView) -> Option<Seq<char>> {
    match progress {
        SyncProgressView::FullSyncRepositoryStarted { repository, .. } => Some(
            "[sync] syncing repository: "@ + repository,
        ),
        SyncProgressView::FullSyncRepositoryCompleted {
            repository,
            new_prs,
            updated_prs,
            deleted_prs,
            ..
        } => Some(
            "[sync] repository complete: "@ + repository + " new="@ + decimal_digits(new_prs as nat)
                + " updated="@ + decimal_digits(updated_prs as nat) + " deleted="@ + decimal_digits(
                deleted_prs as nat,
            ),
        ),
        _ => None,
    }
}

/// The line to log for a notification of a sync, if it is logged.
pub fn log_sync_progress(progress: &SyncProgress) -> (line: Option<String>)
    ensures
        match line {
            Some(text) => progress_line(progress@) == Some(text@),
            None => progress_line(progress@) is None,
        },
{
    match progress {
        SyncProgress::FullSyncRepositoryStarted { repository, .. } => {
            let mut line = String::new();
            push_text(&mut line, "[sync] syncing repository: ");
            push_text(&mut line, repository.as_str());
            Some(line)
        },
        SyncProgress::FullSyncRepositoryCompleted {
            repository,
            new_prs,
            updated_prs,
            deleted_prs,
            ..
        } => {
            let mut line = String::new();
            push_text(&mut line, "[sync] repository complete: ");
            push_text(&mut line, repository.as_str());
            push_text(&mut line, " new=");
            push_unsigned(&mut line, *new_prs as u64);
            push_text(&mut line, " updated=");
            push_unsigned(&mut line, *updated_prs as u64);
            push_text(&mut line, " deleted=");
            push_unsigned(&mut line, *deleted_prs as u64);
            Some(line)
        },
        _ => None,
    }
}

/// `- #number: title (Repository: repository, Author: author)`
pub open spec fn listing_line(pr: PullRequestView) -> Seq<char> {
    "- #"@ + decimal(pr.number as int) + ": "@ + pr.title + " (Repository: "@ + pr.repository
        + ", Author: "@ + pr.author + ")"@
}

/// The line that lists a stored pull request.
pub fn pull_request_line(pr: &PullRequest) -> (line: String)
    ensures
        line@ == listing_line(pr@),
{
    let mut line = String::new();
    push_text(&mut line, "- #");
    push_decimal(&mut line, pr.number);
    push_text(&mut line, ": ");
    push_text(&mut line, pr.title.as_str());
    push_text(&mut line, " (Repository: ");
    push_text(&mut line, pr.repository.as_str());
    push_text(&mut line, ", Author: ");
    push_text(&mut line, pr.author.as_str());
    push_text(&mut line, ")");
    line
}

} // verus!
