use chrono::{DateTime, TimeZone, Utc};

use pr_tracker::models::{CiStatus, PullRequest};
use pr_tracker::reconcile::process_pull_request_sync_results;
use pr_tracker::time::Timestamp;

fn instant(value: DateTime<Utc>) -> Timestamp {
    Timestamp::new(value.timestamp(), value.timestamp_subsec_nanos())
}

fn dt(year: i32, month: u32, day: u32, hour: u32) -> Timestamp {
    instant(
        Utc.with_ymd_and_hms(year, month, day, hour, 0, 0)
            .single()
            .expect("valid datetime"),
    )
}

fn now() -> Timestamp {
    instant(Utc::now())
}

fn empty_pr(repo: &str, number: i64) -> PullRequest {
    PullRequest {
        number,
        title: String::new(),
        repository: repo.to_string(),
        author: String::new(),
        head_sha: String::new(),
        draft: false,
        created_at: instant(DateTime::UNIX_EPOCH),
        updated_at: instant(DateTime::UNIX_EPOCH),
        ci_status: CiStatus::Pending,
        last_comment_at: instant(DateTime::UNIX_EPOCH),
        last_commit_at: instant(DateTime::UNIX_EPOCH),
        last_ci_status_update_at: instant(DateTime::UNIX_EPOCH),
        last_acknowledged_at: None,
        requested_reviewers: Vec::new(),
    }
}

#[test]
fn classifies_new_pr() {
    let pr = empty_pr("acme/repo", 1);
    let result = process_pull_request_sync_results(&[], &[pr.clone()], now());

    assert_eq!(result.new_prs, vec![pr]);
    assert!(result.updated_prs.is_empty());
    assert!(result.removed_prs.is_empty());
}

#[test]
fn classifies_updated_pr() {
    let base = dt(2025, 1, 1, 0);
    let db_pr = PullRequest {
        ci_status: CiStatus::Pending,
        last_comment_at: base,
        last_commit_at: base,
        ..empty_pr("acme/repo", 1)
    };
    let fresh_pr = PullRequest {
        ci_status: CiStatus::Success,
        last_comment_at: base,
        last_commit_at: base,
        ..empty_pr("acme/repo", 1)
    };

    let result = process_pull_request_sync_results(&[db_pr], &[fresh_pr.clone()], now());
    assert!(result.new_prs.is_empty());
    assert_eq!(result.updated_prs.len(), 1);
    assert_eq!(result.updated_prs[0].number, fresh_pr.number);
    assert!(result.removed_prs.is_empty());
}

#[test]
fn classifies_removed_pr() {
    let pr = empty_pr("acme/repo", 1);
    let result = process_pull_request_sync_results(&[pr.clone()], &[], now());
    assert!(result.new_prs.is_empty());
    assert!(result.updated_prs.is_empty());
    assert_eq!(result.removed_prs, vec![pr]);
}

#[test]
fn mixed_classification() {
    let base = dt(2025, 1, 1, 0);
    let later = dt(2025, 1, 1, 1);

    let db1 = PullRequest {
        ci_status: CiStatus::Pending,
        last_comment_at: base,
        last_commit_at: base,
        ..empty_pr("org/repo", 1)
    };
    let db2 = PullRequest {
        ci_status: CiStatus::Pending,
        last_comment_at: base,
        last_commit_at: base,
        head_sha: "sha-1".to_string(),
        ..empty_pr("org/repo", 2)
    };
    let db3 = PullRequest {
        ci_status: CiStatus::Pending,
        last_comment_at: base,
        last_commit_at: base,
        ..empty_pr("org/repo", 3)
    };
    let db4 = PullRequest {
        ci_status: CiStatus::Pending,
        last_comment_at: base,
        last_commit_at: base,
        ..empty_pr("org/repo", 4)
    };
    let db6 = PullRequest {
        ci_status: CiStatus::Pending,
        last_comment_at: base,
        last_commit_at: base,
        ..empty_pr("org/repo", 6)
    };

    let fresh1 = PullRequest {
        ci_status: CiStatus::Pending,
        last_comment_at: base,
        last_commit_at: base,
        ..empty_pr("org/repo", 1)
    };
    let fresh2 = PullRequest {
        ci_status: CiStatus::Pending,
        last_comment_at: base,
        head_sha: "sha-2".to_string(),
        ..empty_pr("org/repo", 2)
    };
    let fresh3 = PullRequest {
        ci_status: CiStatus::Pending,
        last_comment_at: later,
        last_commit_at: base,
        ..empty_pr("org/repo", 3)
    };
    let fresh4 = PullRequest {
        ci_status: CiStatus::Failure,
        last_comment_at: base,
        last_commit_at: base,
        ..empty_pr("org/repo", 4)
    };
    let fresh5 = PullRequest {
        ci_status: CiStatus::Success,
        last_comment_at: base,
        last_commit_at: base,
        ..empty_pr("org/repo", 5)
    };

    let result = process_pull_request_sync_results(
        &[db1, db2, db3, db4, db6],
        &[fresh1, fresh2, fresh3, fresh4, fresh5],
        now(),
    );

    assert_eq!(result.new_prs.len(), 1);
    assert_eq!(result.new_prs[0].number, 5);

    assert_eq!(result.updated_prs.len(), 3);
    let updated_numbers: std::collections::HashSet<i64> =
        result.updated_prs.iter().map(|pr| pr.number).collect();
    assert!(updated_numbers.contains(&2));
    assert!(updated_numbers.contains(&3));
    assert!(updated_numbers.contains(&4));

    assert_eq!(result.removed_prs.len(), 1);
    assert_eq!(result.removed_prs[0].number, 6);
}

#[test]
fn updates_last_commit_when_head_sha_changes() {
    let before = dt(2025, 1, 1, 0);
    let now = dt(2025, 1, 1, 2);

    let db_pr = PullRequest {
        head_sha: "old-sha".to_string(),
        last_commit_at: before,
        ..empty_pr("acme/repo", 1)
    };
    let fresh_pr = PullRequest {
        head_sha: "new-sha".to_string(),
        ..empty_pr("acme/repo", 1)
    };

    let result = process_pull_request_sync_results(&[db_pr], &[fresh_pr], now);
    assert_eq!(result.updated_prs.len(), 1);
    assert_eq!(result.updated_prs[0].last_commit_at, now);
}

fn keys(records: &[PullRequest]) -> Vec<(String, i64)> {
    records
        .iter()
        .map(|pr| (pr.repository.clone(), pr.number))
        .collect()
}

#[test]
fn new_record_only() {
    let pr = empty_pr("repoX", 1);
    let result = process_pull_request_sync_results(&[], &[pr.clone()], dt(2025, 3, 1, 0));
    assert_eq!(result.new_prs, vec![pr]);
    assert_eq!(result.updated_prs, Vec::<PullRequest>::new());
    assert_eq!(result.removed_prs, Vec::<PullRequest>::new());
}

#[test]
fn status_change_keeps_acknowledgement() {
    let t0 = dt(2025, 1, 1, 0);
    let stamped = dt(2024, 12, 1, 0);
    let now = dt(2025, 2, 1, 12);
    let prior = PullRequest {
        ci_status: CiStatus::Pending,
        last_acknowledged_at: Some(t0),
        last_ci_status_update_at: stamped,
        last_commit_at: stamped,
        ..empty_pr("repoX", 1)
    };
    let fresh = PullRequest {
        ci_status: CiStatus::Success,
        title: "renamed".to_string(),
        last_acknowledged_at: Some(dt(2030, 1, 1, 0)),
        ..empty_pr("repoX", 1)
    };
    let result = process_pull_request_sync_results(&[prior], &[fresh.clone()], now);
    assert!(result.new_prs.is_empty());
    assert!(result.removed_prs.is_empty());
    let expected = PullRequest {
        last_acknowledged_at: Some(t0),
        last_ci_status_update_at: now,
        last_commit_at: stamped,
        ..fresh
    };
    assert_eq!(result.updated_prs, vec![expected]);
}

#[test]
fn removed_record_only() {
    let pr = PullRequest {
        title: "kept as stored".to_string(),
        last_acknowledged_at: Some(dt(2025, 1, 1, 0)),
        ..empty_pr("repoX", 1)
    };
    let result = process_pull_request_sync_results(&[pr.clone()], &[], dt(2025, 3, 1, 0));
    assert!(result.new_prs.is_empty());
    assert!(result.updated_prs.is_empty());
    assert_eq!(result.removed_prs, vec![pr]);
}

#[test]
fn unchanged_record_is_in_no_list() {
    let base = dt(2025, 1, 1, 0);
    let prior = PullRequest {
        head_sha: "abc".to_string(),
        last_comment_at: base,
        title: "old title".to_string(),
        ..empty_pr("org/repo", 7)
    };
    let fresh = PullRequest {
        head_sha: "abc".to_string(),
        last_comment_at: base,
        title: "new title".to_string(),
        draft: true,
        ..empty_pr("org/repo", 7)
    };
    let result = process_pull_request_sync_results(&[prior], &[fresh], dt(2025, 3, 1, 0));
    assert!(result.new_prs.is_empty());
    assert!(result.updated_prs.is_empty());
    assert!(result.removed_prs.is_empty());
}

#[test]
fn comment_change_keeps_both_stamps() {
    let base = dt(2025, 1, 1, 0);
    let later = dt(2025, 1, 2, 0);
    let now = dt(2025, 3, 1, 0);
    let prior = PullRequest {
        last_comment_at: base,
        last_commit_at: base,
        last_ci_status_update_at: base,
        ..empty_pr("org/repo", 7)
    };
    let fresh = PullRequest {
        last_comment_at: later,
        ..empty_pr("org/repo", 7)
    };
    let result = process_pull_request_sync_results(&[prior], &[fresh], now);
    assert_eq!(result.updated_prs.len(), 1);
    assert_eq!(result.updated_prs[0].last_comment_at, later);
    assert_eq!(result.updated_prs[0].last_commit_at, base);
    assert_eq!(result.updated_prs[0].last_ci_status_update_at, base);
}

#[test]
fn same_number_in_other_repository_is_another_key() {
    let prior = empty_pr("org/one", 1);
    let fresh = empty_pr("org/two", 1);
    let result =
        process_pull_request_sync_results(&[prior.clone()], &[fresh.clone()], dt(2025, 3, 1, 0));
    assert_eq!(result.new_prs, vec![fresh]);
    assert!(result.updated_prs.is_empty());
    assert_eq!(result.removed_prs, vec![prior]);
}

#[test]
fn last_stored_record_of_a_key_counts() {
    let first = PullRequest {
        ci_status: CiStatus::Success,
        title: "first".to_string(),
        ..empty_pr("org/repo", 1)
    };
    let second = PullRequest {
        ci_status: CiStatus::Failure,
        title: "second".to_string(),
        ..empty_pr("org/repo", 1)
    };
    let fresh = PullRequest {
        ci_status: CiStatus::Failure,
        ..empty_pr("org/repo", 1)
    };
    let unchanged = process_pull_request_sync_results(
        &[first.clone(), second.clone()],
        &[fresh],
        dt(2025, 3, 1, 0),
    );
    assert!(unchanged.updated_prs.is_empty());
    let removed = process_pull_request_sync_results(&[first, second.clone()], &[], dt(2025, 3, 1, 0));
    assert_eq!(removed.removed_prs, vec![second]);
}

#[test]
fn lists_keep_input_order_and_share_no_key() {
    let base = dt(2025, 1, 1, 0);
    let prior: Vec<PullRequest> = (1..=6).map(|n| empty_pr("org/repo", n)).collect();
    let fresh = vec![
        empty_pr("org/repo", 9),
        PullRequest {
            head_sha: "x".to_string(),
            ..empty_pr("org/repo", 4)
        },
        empty_pr("org/repo", 2),
        PullRequest {
            last_comment_at: base,
            ..empty_pr("org/repo", 1)
        },
        empty_pr("org/repo", 8),
    ];
    let result = process_pull_request_sync_results(&prior, &fresh, dt(2025, 3, 1, 0));
    let repo = |n: i64| ("org/repo".to_string(), n);
    assert_eq!(keys(&result.new_prs), vec![repo(9), repo(8)]);
    assert_eq!(keys(&result.updated_prs), vec![repo(4), repo(1)]);
    assert_eq!(keys(&result.removed_prs), vec![repo(3), repo(5), repo(6)]);
}

#[test]
fn reconciling_twice_gives_the_same_lists() {
    let base = dt(2025, 1, 1, 0);
    let now = dt(2025, 3, 1, 0);
    let prior = vec![
        empty_pr("a/b", 1),
        PullRequest {
            last_comment_at: base,
            ..empty_pr("a/b", 2)
        },
        empty_pr("a/b", 3),
    ];
    let fresh = vec![
        empty_pr("a/b", 2),
        empty_pr("a/b", 4),
        PullRequest {
            ci_status: CiStatus::Failure,
            ..empty_pr("a/b", 1)
        },
    ];
    let first = process_pull_request_sync_results(&prior, &fresh, now);
    let second = process_pull_request_sync_results(&prior, &fresh, now);
    assert_eq!(first.new_prs, second.new_prs);
    assert_eq!(first.updated_prs, second.updated_prs);
    assert_eq!(first.removed_prs, second.removed_prs);
}

#[test]
fn order_of_the_records_does_not_matter() {
    let base = dt(2025, 1, 1, 0);
    let now = dt(2025, 3, 1, 0);
    let prior = vec![
        empty_pr("a/b", 1),
        PullRequest {
            last_comment_at: base,
            ..empty_pr("a/b", 2)
        },
        empty_pr("a/b", 3),
        empty_pr("a/b", 5),
    ];
    let fresh = vec![
        empty_pr("a/b", 2),
        empty_pr("a/b", 4),
        PullRequest {
            ci_status: CiStatus::Failure,
            ..empty_pr("a/b", 1)
        },
        empty_pr("a/b", 6),
    ];
    let mut reordered_prior = prior.clone();
    reordered_prior.reverse();
    let mut reordered_fresh = fresh.clone();
    reordered_fresh.rotate_left(1);
    let first = process_pull_request_sync_results(&prior, &fresh, now);
    let second = process_pull_request_sync_results(&reordered_prior, &reordered_fresh, now);
    let sorted = |records: &[PullRequest]| {
        let mut found = records.to_vec();
        found.sort_by_key(|pr| pr.number);
        found
    };
    assert_eq!(sorted(&first.new_prs), sorted(&second.new_prs));
    assert_eq!(sorted(&first.updated_prs), sorted(&second.updated_prs));
    assert_eq!(sorted(&first.removed_prs), sorted(&second.removed_prs));
    assert_eq!(keys(&sorted(&first.new_prs)).len(), 2);
    assert_eq!(keys(&sorted(&first.updated_prs)).len(), 2);
    assert_eq!(keys(&sorted(&first.removed_prs)).len(), 2);
}
