//! Turning the remote API's answers into tracked records: the CI status of
//! a head commit, the time of the latest comment, and the record itself.

use vstd::prelude::*;
use crate::error::{TrackerError, TrackerErrorView};
use crate::github::schema;
use crate::models::{CiStatus, PullRequest, PullRequestView};
use crate::text::same_text;
use crate::time::Timestamp;

verus! {

/// The conclusions of a check run that count as a failure.
pub open spec fn is_failing_conclusion(conclusion: Seq<char>) -> bool {
    ||| conclusion == "failure"@
    ||| conclusion == "timed_out"@
    ||| conclusion == "cancelled"@
    ||| conclusion == "startup_failure"@
    ||| conclusion == "action_required"@
    ||| conclusion == "stale"@
}

/// The statuses of a check run that say it has not finished.
pub open spec fn is_pending_status(status: Seq<char>) -> bool {
    ||| status == "queued"@
    ||| status == "in_progress"@
    ||| status == "waiting"@
    ||| status == "requested"@
    ||| status == "pending"@
}

/// Whether a check run has a failing conclusion.
pub open spec fn run_failed(run: schema::CheckRun) -> bool {
    run.conclusion matches Some(conclusion) && is_failing_conclusion(conclusion@)
}

/// Whether some check run has a failing conclusion.
pub open spec fn any_run_failed(check_runs: Seq<schema::CheckRun>) -> bool {
    exists|i: int| 0 <= i < check_runs.len() && run_failed(#[trigger] check_runs[i])
}

/// Whether some check run has not finished.
pub open spec fn any_run_pending(check_runs: Seq<schema::CheckRun>) -> bool {
    exists|i: int| 0 <= i < check_runs.len() && is_pending_status((#[trigger] check_runs[i]).status@)
}

/// The status that a combined state stands for by itself.
pub open spec fn combined_state_status(combined_state: Seq<char>) -> CiStatus {
    if combined_state == "success"@ {
        CiStatus::Success
    } else if combined_state == "failure"@ || combined_state == "error"@ {
        CiStatus::Failure
    } else {
        CiStatus::Pending
    }
}

/// The CI status of a head commit: `Failure` where a check run failed;
/// else `Pending` where a check run has not finished; else what the
/// combined state says.
pub open spec fn mapped_status(check_runs: Seq<schema::CheckRun>, combined_state: Seq<char>)
    -> CiStatus {
    if any_run_failed(check_runs) {
        CiStatus::Failure
    } else if any_run_pending(check_runs) {
        CiStatus::Pending
    } else {
        combined_state_status(combined_state)
    }
}

fn failing_conclusion(conclusion: &str) -> (r: bool)
    ensures
        r == is_failing_conclusion(conclusion@),
{
    same_text(conclusion, "failure") || same_text(conclusion, "timed_out") || same_text(
        conclusion,
        "cancelled",
    ) || same_text(conclusion, "startup_failure") || same_text(conclusion, "action_required")
        || same_text(conclusion, "stale")
}

fn pending_status(status: &str) -> (r: bool)
    ensures
        r == is_pending_status(status@),
{
    same_text(status, "queued") || same_text(status, "in_progress") || same_text(status, "waiting")
        || same_text(status, "requested") || same_text(status, "pending")
}

pub fn has_failing_check_run(check_runs: &[schema::CheckRun]) -> (r: bool)
    ensures
        r == any_run_failed(check_runs@),
{
    let mut i: usize = 0;
    while i < check_runs.len()
        invariant
            i <= check_runs.len(),
            forall|k: int| 0 <= k < i ==> !run_failed(#[trigger] check_runs@[k]),
        decreases check_runs.len() - i,
    {
        match &check_runs[i].conclusion {
            Some(conclusion) => {
                if failing_conclusion(conclusion.as_str()) {
                    return true;
                }
            },
            None => {},
        }
        i += 1;
    }
    false
}

pub fn has_pending_check_run(check_runs: &[schema::CheckRun]) -> (r: bool)
    ensures
        r == any_run_pending(check_runs@),
{
    let mut i: usize = 0;
    while i < check_runs.len()
        invariant
            i <= check_runs.len(),
            forall|k: int| 0 <= k < i ==> !is_pending_status((#[trigger] check_runs@[k]).status@),
        decreases check_runs.len() - i,
    {
        if pending_status(check_runs[i].status.as_str()) {
            return true;
        }
        i += 1;
    }
    false
}

/// The CI status of a pull request's head commit.
pub fn map_ci_status(ci_statuses: &schema::PullRequestCiStatuses) -> (status: CiStatus)
    ensures
        status == mapped_status(ci_statuses.check_runs@, ci_statuses.combined_state@),
{
    if has_failing_check_run(ci_statuses.check_runs.as_slice()) {
        return CiStatus::Failure;
    }
    if has_pending_check_run(ci_statuses.check_runs.as_slice()) {
        return CiStatus::Pending;
    }
    let state = ci_statuses.combined_state.as_str();
    if same_text(state, "success") {
        CiStatus::Success
    } else if same_text(state, "failure") || same_text(state, "error") {
        CiStatus::Failure
    } else {
        CiStatus::Pending
    }
}

/// A failing check run decides the status, whatever else is reported.
pub proof fn law_failed_run_overrides_everything(
    check_runs: Seq<schema::CheckRun>,
    combined_state: Seq<char>,
)
    requires
        any_run_failed(check_runs),
    ensures
        mapped_status(check_runs, combined_state) == CiStatus::Failure,
{
}

/// Where no check run failed, an unfinished check run makes the status
/// `Pending`, whatever the combined state says.
pub proof fn law_pending_run_overrides_combined_state(
    check_runs: Seq<schema::CheckRun>,
    combined_state: Seq<char>,
)
    requires
        !any_run_failed(check_runs),
        any_run_pending(check_runs),
    ensures
        mapped_status(check_runs, combined_state) == CiStatus::Pending,
{
}

/// Whether `login` is one of `authors`.
pub open spec fn is_tracked_author(authors: Seq<String>, login: Seq<char>) -> bool {
    exists|i: int| 0 <= i < authors.len() && (#[trigger] authors[i])@ == login
}

/// Whether a pull request was opened by a tracked author.
pub fn should_track_pr(pr: &schema::PullRequest, authors_to_track: &[String]) -> (r: bool)
    ensures
        r == is_tracked_author(authors_to_track@, pr.user.login@),
{
    let mut i: usize = 0;
    while i < authors_to_track.len()
        invariant
            i <= authors_to_track.len(),
            forall|k: int| 0 <= k < i ==> (#[trigger] authors_to_track@[k])@ != pr.user.login@,
        decreases authors_to_track.len() - i,
    {
        if authors_to_track[i] == pr.user.login {
            return true;
        }
        i += 1;
    }
    false
}

/// The numbers of the pull requests that a tracked author opened, in the
/// order of `prs`.
pub open spec fn tracked_numbers(prs: Seq<schema::PullRequest>, authors: Seq<String>) -> Seq<i64> {
    prs.filter(|pr: schema::PullRequest| is_tracked_author(authors, pr.user.login@)).map_values(
        |pr: schema::PullRequest| pr.number,
    )
}

/// Of the open pull requests of a repository, the numbers of those to
/// track: the ones a tracked author opened.
pub fn select_tracked_pull_requests(prs: &[schema::PullRequest], authors_to_track: &[String]) -> (numbers:
    Vec<i64>)
    ensures
        numbers@ == tracked_numbers(prs@, authors_to_track@),
{
    let ghost wanted = |pr: schema::PullRequest| is_tracked_author(authors_to_track@, pr.user.login@);
    let ghost number = |pr: schema::PullRequest| pr.number;
    let mut numbers: Vec<i64> = Vec::new();
    let mut i: usize = 0;
    while i < prs.len()
        invariant
            i <= prs.len(),
            wanted == |pr: schema::PullRequest| is_tracked_author(authors_to_track@, pr.user.login@),
            number == |pr: schema::PullRequest| pr.number,
            numbers@ == prs@.take(i as int).filter(wanted).map_values(number),
        decreases prs.len() - i,
    {
        proof {
            let before = prs@.take(i as int);
            assert(prs@.take(i + 1) =~= before.push(prs@[i as int]));
            before.lemma_filter_push(prs@[i as int], wanted);
        }
        if should_track_pr(&prs[i], authors_to_track) {
            numbers.push(prs[i].number);
        }
        i += 1;
    }
    proof {
        assert(prs@.take(prs.len() as int) =~= prs@);
    }
    numbers
}

/// The instant a timestamp of the remote API denotes: the Unix epoch for an
/// empty text, else what the text says as an RFC 3339 date and time.
pub open spec fn timestamp_of(value: Seq<char>) -> Result<Timestamp, TrackerErrorView> {
    if value.len() == 0 {
        Ok(Timestamp::epoch())
    } else {
        match Timestamp::of_rfc3339(value) {
            Some(instant) => Ok(instant),
            None => Err(TrackerErrorView::InvalidTimestamp { value }),
        }
    }
}

/// Whether a result and its model agree.
pub open spec fn same_outcome<T>(r: Result<T, TrackerError>, model: Result<T, TrackerErrorView>) -> bool {
    match r {
        Ok(value) => model == Ok::<T, TrackerErrorView>(value),
        Err(e) => model == Err::<T, TrackerErrorView>(e@),
    }
}

/// Reads a timestamp of the remote API.
pub fn parse_github_timestamp(value: &str) -> (r: Result<Timestamp, TrackerError>)
    ensures
        same_outcome(r, timestamp_of(value@)),
{
    if value.is_empty() {
        return Ok(Timestamp::unix_epoch());
    }
    match Timestamp::parse_rfc3339(value) {
        Some(instant) => Ok(instant),
        None => Err(TrackerError::InvalidTimestamp { value: value.to_owned() }),
    }
}

/// The instant a timestamp denotes, where there is a timestamp and it
/// denotes one.
pub open spec fn optional_timestamp_of(value: Option<Seq<char>>) -> Option<Timestamp> {
    match value {
        Some(text) => match timestamp_of(text) {
            Ok(instant) => Some(instant),
            Err(_) => None,
        },
        None => None,
    }
}

/// Reads a timestamp that may be absent; one that cannot be read counts as
/// absent.
pub fn parse_optional_timestamp(value: Option<&str>) -> (r: Option<Timestamp>)
    ensures
        r == optional_timestamp_of(
            match value {
                Some(text) => Some(text@),
                None => None,
            },
        ),
{
    match value {
        Some(raw) => match parse_github_timestamp(raw) {
            Ok(instant) => Some(instant),
            Err(_) => None,
        },
        None => None,
    }
}

/// The latest of the instants that the texts denote; texts that denote
/// none are passed over.
pub open spec fn latest_of(texts: Seq<Seq<char>>) -> Option<Timestamp>
    decreases texts.len(),
{
    if texts.len() == 0 {
        None
    } else {
        let before = latest_of(texts.drop_last());
        match optional_timestamp_of(Some(texts.last())) {
            Some(instant) => match before {
                Some(best) => Some(best.later(instant)),
                None => Some(instant),
            },
            None => before,
        }
    }
}

/// The update times of the comments of a pull request, as the remote gave
/// them: those of the issue comments, then those of the comments on the diff.
pub open spec fn comment_update_times(details: schema::PullRequestDetails) -> Seq<Seq<char>> {
    details.issue_comments@.map_values(|c: schema::IssueComment| c.updated_at@)
        + details.review_comments@.map_values(|c: schema::ReviewComment| c.updated_at@)
}

/// The time of the latest comment, or the Unix epoch where no comment has
/// a readable update time.
pub open spec fn latest_comment(details: schema::PullRequestDetails) -> Timestamp {
    match latest_of(comment_update_times(details)) {
        Some(instant) => instant,
        None => Timestamp::epoch(),
    }
}

/// `latest_of` picks one of the instants that the texts denote, and none
/// of them lies after it. It is `None` exactly where no text denotes an
/// instant.
pub proof fn lemma_latest_of(texts: Seq<Seq<char>>)
    ensures
        match latest_of(texts) {
            Some(best) => {
                &&& exists|i: int|
                    0 <= i < texts.len() && optional_timestamp_of(Some(#[trigger] texts[i])) == Some(
                        best,
                    )
                &&& forall|i: int|
                    0 <= i < texts.len() ==> (optional_timestamp_of(
                        Some(#[trigger] texts[i]),
                    ) matches Some(instant) ==> !instant.after(best))
            },
            None => forall|i: int|
                0 <= i < texts.len() ==> optional_timestamp_of(Some(#[trigger] texts[i])) is None,
        },
    decreases texts.len(),
{
    if texts.len() > 0 {
        let rest = texts.drop_last();
        lemma_latest_of(rest);
        assert(forall|i: int| 0 <= i < rest.len() ==> rest[i] == texts[i]);
    }
}

fn later_option(best: Option<Timestamp>, instant: Option<Timestamp>) -> (r: Option<Timestamp>)
    ensures
        r == match instant {
            Some(t) => match best {
                Some(b) => Some(b.later(t)),
                None => Some(t),
            },
            None => best,
        },
{
    match instant {
        Some(t) => match best {
            Some(b) => Some(b.later_of(t)),
            None => Some(t),
        },
        None => best,
    }
}

/// The time of the latest comment on a pull request.
pub fn latest_comment_time(pr_details: &schema::PullRequestDetails) -> (r: Timestamp)
    ensures
        r == latest_comment(*pr_details),
{
    let ghost issue = pr_details.issue_comments@.map_values(|c: schema::IssueComment| c.updated_at@);
    let ghost diff = pr_details.review_comments@.map_values(
        |c: schema::ReviewComment| c.updated_at@,
    );
    let mut best: Option<Timestamp> = None;
    let mut i: usize = 0;
    while i < pr_details.issue_comments.len()
        invariant
            i <= pr_details.issue_comments.len(),
            issue == pr_details.issue_comments@.map_values(|c: schema::IssueComment| c.updated_at@),
            best == latest_of(issue.take(i as int)),
        decreases pr_details.issue_comments.len() - i,
    {
        let instant = parse_optional_timestamp(
            Some(pr_details.issue_comments[i].updated_at.as_str()),
        );
        proof {
            let next = issue.take(i + 1);
            assert(next.drop_last() =~= issue.take(i as int));
        }
        best = later_option(best, instant);
        i += 1;
    }
    proof {
        assert(issue.take(i as int) =~= issue);
    }
    let mut j: usize = 0;
    while j < pr_details.review_comments.len()
        invariant
            j <= pr_details.review_comments.len(),
            diff == pr_details.review_comments@.map_values(|c: schema::ReviewComment| c.updated_at@),
            best == latest_of(issue + diff.take(j as int)),
        decreases pr_details.review_comments.len() - j,
    {
        let instant = parse_optional_timestamp(
            Some(pr_details.review_comments[j].updated_at.as_str()),
        );
        proof {
            let next = issue + diff.take(j + 1);
            assert(next.drop_last() =~= issue + diff.take(j as int));
        }
        best = later_option(best, instant);
        j += 1;
    }
    proof {
        assert(diff.take(j as int) =~= diff);
    }
    match best {
        Some(instant) => instant,
        None => Timestamp::unix_epoch(),
    }
}

/// The logins in `requested_reviewers`, in the order given.
pub open spec fn reviewer_logins(reviewers: Seq<schema::Reviewer>) -> Seq<Seq<char>> {
    reviewers.map_values(|r: schema::Reviewer| r.login@)
}

/// The record that the remote's answers about a pull request make up: the
/// pull request's own fields, the mapped CI status, the head commit and the
/// time of the latest comment. What only a sync can know is left at its
/// start value: no acknowledgement, and the Unix epoch as the time of the
/// last commit and of the last status change.
pub open spec fn composed_record(
    repo_name: Seq<char>,
    details: schema::PullRequestDetails,
    ci: schema::PullRequestCiStatuses,
) -> Result<PullRequestView, TrackerErrorView> {
    match timestamp_of(details.pull_request.created_at@) {
        Err(e) => Err(e),
        Ok(created_at) => match timestamp_of(details.pull_request.updated_at@) {
            Err(e) => Err(e),
            Ok(updated_at) => Ok(
                PullRequestView {
                    number: details.pull_request.number,
                    title: details.pull_request.title@,
                    repository: repo_name,
                    author: details.pull_request.user.login@,
                    head_sha: ci.head_sha@,
                    draft: details.pull_request.draft,
                    created_at,
                    updated_at,
                    ci_status: mapped_status(ci.check_runs@, ci.combined_state@),
                    last_comment_at: latest_comment(details),
                    last_commit_at: Timestamp::epoch(),
                    last_ci_status_update_at: Timestamp::epoch(),
                    last_acknowledged_at: None,
                    requested_reviewers: reviewer_logins(details.pull_request.requested_reviewers@),
                },
            ),
        },
    }
}

/// Builds the record of a pull request from the remote's answers about it.
/// Fails where the creation or update time cannot be read, the creation
/// time first.
pub fn compose_pull_request(
    repo_name: &str,
    pr_details: &schema::PullRequestDetails,
    ci_statuses: &schema::PullRequestCiStatuses,
) -> (r: Result<PullRequest, TrackerError>)
    ensures
        match r {
            Ok(record) => composed_record(repo_name@, *pr_details, *ci_statuses) == Ok::<
                PullRequestView,
                TrackerErrorView,
            >(record@),
            Err(e) => composed_record(repo_name@, *pr_details, *ci_statuses) == Err::<
                PullRequestView,
                TrackerErrorView,
            >(e@),
        },
{
    let pull_request = &pr_details.pull_request;
    let created_at = match parse_github_timestamp(pull_request.created_at.as_str()) {
        Ok(instant) => instant,
        Err(e) => {
            return Err(e);
        },
    };
    let updated_at = match parse_github_timestamp(pull_request.updated_at.as_str()) {
        Ok(instant) => instant,
        Err(e) => {
            return Err(e);
        },
    };
    let mut requested_reviewers: Vec<String> = Vec::new();
    let mut i: usize = 0;
    while i < pull_request.requested_reviewers.len()
        invariant
            i <= pull_request.requested_reviewers.len(),
            requested_reviewers.len() == i,
            forall|k: int|
                0 <= k < i ==> (#[trigger] requested_reviewers@[k])@
                    == pull_request.requested_reviewers@[k].login@,
        decreases pull_request.requested_reviewers.len() - i,
    {
        requested_reviewers.push(pull_request.requested_reviewers[i].login.clone());
        i += 1;
    }
    assert(requested_reviewers.deep_view() =~= reviewer_logins(pull_request.requested_reviewers@));
    Ok(
        PullRequest {
            number: pull_request.number,
            title: pull_request.title.clone(),
            repository: repo_name.to_owned(),
            author: pull_request.user.login.clone(),
            head_sha: ci_statuses.head_sha.clone(),
            draft: pull_request.draft,
            created_at,
            updated_at,
            ci_status: map_ci_status(ci_statuses),
            last_comment_at: latest_comment_time(pr_details),
            last_commit_at: Timestamp::unix_epoch(),
            last_ci_status_update_at: Timestamp::unix_epoch(),
            last_acknowledged_at: None,
            requested_reviewers,
        },
    )
}

} // verus!
