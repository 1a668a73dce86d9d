use pr_tracker::github::schema::{
    CheckRun, CheckRunApp, IssueComment, PullRequest, PullRequestCiStatuses, PullRequestDetails,
    PullRequestUser, ReviewComment, Reviewer,
};
use pr_tracker::error::TrackerError;
use pr_tracker::models::CiStatus;
use pr_tracker::service::{
    compose_pull_request, has_failing_check_run, has_pending_check_run, latest_comment_time,
    map_ci_status, parse_github_timestamp, parse_optional_timestamp, select_tracked_pull_requests,
    should_track_pr,
};
use pr_tracker::time::Timestamp;

fn run(status: &str, conclusion: Option<&str>) -> CheckRun {
    CheckRun {
        id: 1,
        name: "build".to_string(),
        status: status.to_string(),
        conclusion: conclusion.map(|c| c.to_string()),
        html_url: None,
        details_url: None,
        started_at: None,
        completed_at: None,
        app: CheckRunApp {
            name: "ci".to_string(),
        },
    }
}

fn statuses(check_runs: Vec<CheckRun>, combined_state: &str) -> PullRequestCiStatuses {
    PullRequestCiStatuses {
        pull_request_number: 1,
        head_sha: "abc".to_string(),
        combined_state: combined_state.to_string(),
        statuses: Vec::new(),
        check_runs,
    }
}

fn remote_pr(number: i64, login: &str) -> PullRequest {
    PullRequest {
        number,
        title: format!("title {number}"),
        state: "open".to_string(),
        draft: false,
        html_url: String::new(),
        created_at: "2025-01-01T00:00:00Z".to_string(),
        updated_at: "2025-01-02T00:00:00Z".to_string(),
        user: PullRequestUser {
            login: login.to_string(),
        },
        requested_reviewers: vec![
            Reviewer {
                login: "zoe".to_string(),
            },
            Reviewer {
                login: "adam".to_string(),
            },
        ],
    }
}

fn issue_comment(updated_at: &str) -> IssueComment {
    IssueComment {
        id: 1,
        body: String::new(),
        html_url: None,
        created_at: String::new(),
        updated_at: updated_at.to_string(),
        user: PullRequestUser {
            login: "x".to_string(),
        },
    }
}

fn diff_comment(updated_at: &str) -> ReviewComment {
    ReviewComment {
        id: 1,
        body: String::new(),
        html_url: None,
        created_at: String::new(),
        updated_at: updated_at.to_string(),
        path: None,
        user: PullRequestUser {
            login: "x".to_string(),
        },
    }
}

fn details(
    pull_request: PullRequest,
    issue_comments: Vec<IssueComment>,
    review_comments: Vec<ReviewComment>,
) -> PullRequestDetails {
    PullRequestDetails {
        pull_request,
        issue_comment_count: issue_comments.len() as i64,
        review_comment_count: review_comments.len() as i64,
        issue_comments,
        review_comments,
    }
}

#[test]
fn running_check_overrides_successful_state() {
    let ci = statuses(vec![run("in_progress", None)], "success");
    assert_eq!(map_ci_status(&ci), CiStatus::Pending);
}

#[test]
fn failed_check_overrides_successful_state() {
    let ci = statuses(vec![run("completed", Some("failure"))], "success");
    assert_eq!(map_ci_status(&ci), CiStatus::Failure);
}

#[test]
fn failed_check_overrides_running_check() {
    let ci = statuses(
        vec![run("queued", None), run("completed", Some("timed_out"))],
        "pending",
    );
    assert_eq!(map_ci_status(&ci), CiStatus::Failure);
}

#[test]
fn combined_state_decides_without_check_runs() {
    assert_eq!(map_ci_status(&statuses(vec![], "success")), CiStatus::Success);
    assert_eq!(map_ci_status(&statuses(vec![], "failure")), CiStatus::Failure);
    assert_eq!(map_ci_status(&statuses(vec![], "error")), CiStatus::Failure);
    assert_eq!(map_ci_status(&statuses(vec![], "pending")), CiStatus::Pending);
    assert_eq!(map_ci_status(&statuses(vec![], "")), CiStatus::Pending);
    assert_eq!(map_ci_status(&statuses(vec![], "Success")), CiStatus::Pending);
}

#[test]
fn finished_successful_checks_leave_the_combined_state() {
    let runs = vec![
        run("completed", Some("success")),
        run("completed", Some("skipped")),
        run("completed", None),
    ];
    assert_eq!(map_ci_status(&statuses(runs.clone(), "success")), CiStatus::Success);
    assert_eq!(map_ci_status(&statuses(runs, "failure")), CiStatus::Failure);
}

#[test]
fn every_failing_conclusion_counts() {
    for conclusion in [
        "failure",
        "timed_out",
        "cancelled",
        "startup_failure",
        "action_required",
        "stale",
    ] {
        assert!(has_failing_check_run(&[run("completed", Some(conclusion))]));
    }
    for conclusion in ["success", "neutral", "skipped", "failures", ""] {
        assert!(!has_failing_check_run(&[run("completed", Some(conclusion))]));
    }
    assert!(!has_failing_check_run(&[run("completed", None)]));
    assert!(!has_failing_check_run(&[]));
}

#[test]
fn every_pending_status_counts() {
    for status in ["queued", "in_progress", "waiting", "requested", "pending"] {
        assert!(has_pending_check_run(&[run(status, None)]));
    }
    for status in ["completed", "", "in-progress"] {
        assert!(!has_pending_check_run(&[run(status, None)]));
    }
    assert!(!has_pending_check_run(&[]));
}

#[test]
fn tracks_only_pull_requests_of_tracked_authors() {
    let authors = vec!["alice".to_string(), "bob".to_string()];
    assert!(should_track_pr(&remote_pr(1, "bob"), &authors));
    assert!(!should_track_pr(&remote_pr(1, "Bob"), &authors));
    assert!(!should_track_pr(&remote_pr(1, "carol"), &authors));
    assert!(!should_track_pr(&remote_pr(1, "bob"), &[]));
    let prs = vec![
        remote_pr(5, "carol"),
        remote_pr(3, "bob"),
        remote_pr(9, "alice"),
        remote_pr(4, "dave"),
        remote_pr(1, "bob"),
    ];
    assert_eq!(select_tracked_pull_requests(&prs, &authors), vec![3, 9, 1]);
    assert_eq!(select_tracked_pull_requests(&prs, &[]), Vec::<i64>::new());
}

#[test]
fn reads_timestamps_of_the_remote() {
    assert_eq!(parse_github_timestamp(""), Ok(Timestamp::new(0, 0)));
    assert_eq!(
        parse_github_timestamp("2025-01-01T00:00:00Z"),
        Ok(Timestamp::new(1_735_689_600, 0))
    );
    assert_eq!(
        parse_github_timestamp("2025-01-01T01:00:00+01:00"),
        Ok(Timestamp::new(1_735_689_600, 0))
    );
    assert_eq!(
        parse_github_timestamp("2025-01-01T00:00:00.25Z"),
        Ok(Timestamp::new(1_735_689_600, 250_000_000))
    );
    assert_eq!(
        parse_github_timestamp("yesterday"),
        Err(TrackerError::InvalidTimestamp {
            value: "yesterday".to_string()
        })
    );
    assert_eq!(parse_optional_timestamp(None), None);
    assert_eq!(parse_optional_timestamp(Some("yesterday")), None);
    assert_eq!(parse_optional_timestamp(Some("")), Some(Timestamp::new(0, 0)));
    assert_eq!(
        parse_optional_timestamp(Some("1970-01-01T00:01:00Z")),
        Some(Timestamp::new(60, 0))
    );
}

#[test]
fn latest_comment_is_the_latest_readable_update() {
    let none = details(remote_pr(1, "a"), vec![], vec![]);
    assert_eq!(latest_comment_time(&none), Timestamp::new(0, 0));
    let unreadable = details(remote_pr(1, "a"), vec![issue_comment("soon")], vec![]);
    assert_eq!(latest_comment_time(&unreadable), Timestamp::new(0, 0));
    let mixed = details(
        remote_pr(1, "a"),
        vec![
            issue_comment("2025-01-03T00:00:00Z"),
            issue_comment("not a time"),
            issue_comment("2025-01-01T00:00:00Z"),
        ],
        vec![
            diff_comment("2025-01-02T00:00:00Z"),
            diff_comment("2025-01-04T00:00:00Z"),
            diff_comment("2025-01-01T12:00:00Z"),
        ],
    );
    assert_eq!(latest_comment_time(&mixed), Timestamp::new(1_735_948_800, 0));
    let before_epoch = details(
        remote_pr(1, "a"),
        vec![issue_comment("1969-12-31T23:59:59Z")],
        vec![],
    );
    assert_eq!(latest_comment_time(&before_epoch), Timestamp::new(-1, 0));
}

#[test]
fn composes_a_record_from_the_answers() {
    let answer = details(
        remote_pr(12, "alice"),
        vec![issue_comment("2025-01-03T00:00:00Z")],
        vec![],
    );
    let ci = statuses(vec![run("queued", None)], "success");
    let record = compose_pull_request("org/repo", &answer, &ci).expect("readable");
    assert_eq!(record.number, 12);
    assert_eq!(record.title, "title 12");
    assert_eq!(record.repository, "org/repo");
    assert_eq!(record.author, "alice");
    assert_eq!(record.head_sha, "abc");
    assert!(!record.draft);
    assert_eq!(record.created_at, Timestamp::new(1_735_689_600, 0));
    assert_eq!(record.updated_at, Timestamp::new(1_735_776_000, 0));
    assert_eq!(record.ci_status, CiStatus::Pending);
    assert_eq!(record.last_comment_at, Timestamp::new(1_735_862_400, 0));
    assert_eq!(record.last_commit_at, Timestamp::new(0, 0));
    assert_eq!(record.last_ci_status_update_at, Timestamp::new(0, 0));
    assert_eq!(record.last_acknowledged_at, None);
    assert_eq!(record.requested_reviewers, vec!["zoe".to_string(), "adam".to_string()]);
}

#[test]
fn composing_fails_on_the_first_unreadable_time() {
    let mut pr = remote_pr(12, "alice");
    pr.created_at = "then".to_string();
    pr.updated_at = "now".to_string();
    let ci = statuses(vec![], "success");
    assert_eq!(
        compose_pull_request("org/repo", &details(pr, vec![], vec![]), &ci),
        Err(TrackerError::InvalidTimestamp {
            value: "then".to_string()
        })
    );
    let mut pr = remote_pr(12, "alice");
    pr.updated_at = "now".to_string();
    assert_eq!(
        compose_pull_request("org/repo", &details(pr, vec![], vec![]), &ci),
        Err(TrackerError::InvalidTimestamp {
            value: "now".to_string()
        })
    );
}
