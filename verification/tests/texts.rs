use chrono::{DateTime, TimeZone, Utc};

use pr_tracker::error::TrackerError;
use pr_tracker::models::{CiStatus, PullRequest, User};
use pr_tracker::text::{
    blank, chars_of, contains, push_decimal, push_text, push_unsigned, same_text, to_ascii_upper,
    trim,
};
use pr_tracker::time::{Timestamp, MAX_SECONDS, MIN_SECONDS};

fn decimal(n: i64) -> String {
    let mut out = String::from(">");
    push_decimal(&mut out, n);
    out
}

fn unsigned(n: u64) -> String {
    let mut out = String::new();
    push_unsigned(&mut out, n);
    out
}

fn record(repo: &str, number: i64) -> PullRequest {
    PullRequest {
        number,
        title: "Fix the thing".to_string(),
        repository: repo.to_string(),
        author: "alice".to_string(),
        head_sha: "abc".to_string(),
        draft: false,
        created_at: Timestamp::new(0, 0),
        updated_at: Timestamp::new(0, 0),
        ci_status: CiStatus::Pending,
        last_comment_at: Timestamp::new(100, 0),
        last_commit_at: Timestamp::new(200, 0),
        last_ci_status_update_at: Timestamp::new(300, 0),
        last_acknowledged_at: None,
        requested_reviewers: vec!["bob".to_string()],
    }
}

#[test]
fn decimal_texts() {
    assert_eq!(decimal(0), ">0");
    assert_eq!(decimal(7), ">7");
    assert_eq!(decimal(10), ">10");
    assert_eq!(decimal(-1), ">-1");
    assert_eq!(decimal(1234567890), ">1234567890");
    assert_eq!(decimal(i64::MAX), ">9223372036854775807");
    assert_eq!(decimal(i64::MIN), ">-9223372036854775808");
    assert_eq!(unsigned(0), "0");
    assert_eq!(unsigned(909), "909");
    assert_eq!(unsigned(u64::MAX), "18446744073709551615");
    for n in [-1000i64, -99, -10, -9, 9, 99, 100, 101, 65535, 1 << 40] {
        assert_eq!(decimal(n), format!(">{n}"));
    }
}

#[test]
fn characters_and_slices() {
    let chars = chars_of("h\u{e9}llo");
    assert_eq!(chars, vec!['h', '\u{e9}', 'l', 'l', 'o']);
    assert_eq!(chars_of(""), Vec::<char>::new());
    let mut out = String::from("a");
    push_text(&mut out, "bc");
    assert_eq!(out, "abc");
}

#[test]
fn comparing_and_searching_texts() {
    assert!(same_text("abc", "abc"));
    assert!(!same_text("abc", "abd"));
    assert!(!same_text("abc", "ab"));
    assert!(same_text("", ""));
    assert!(contains("status=403 body", "status=403"));
    assert!(contains("x status=403", "status=403"));
    assert!(!contains("status=40", "status=403"));
    assert!(!contains("status=4003", "status=403"));
    assert!(contains("anything", ""));
    assert!(contains("", ""));
    assert!(!contains("", "a"));
    assert!(contains("aab", "ab"));
}

#[test]
fn white_space_and_case() {
    assert!(blank(""));
    assert!(blank(" \t\r\n"));
    assert!(blank("\u{2028}\u{3000}"));
    assert!(!blank(" . "));
    assert!(!blank("\u{200b}"));
    assert_eq!(trim("  a b \n"), "a b");
    assert_eq!(trim("a"), "a");
    assert_eq!(trim(" \t "), "");
    assert_eq!(trim(""), "");
    assert_eq!(trim("\u{a0}x\u{a0}y\u{a0}"), "x\u{a0}y");
    assert_eq!(to_ascii_upper('a'), 'A');
    assert_eq!(to_ascii_upper('z'), 'Z');
    assert_eq!(to_ascii_upper('m'), 'M');
    assert_eq!(to_ascii_upper('A'), 'A');
    assert_eq!(to_ascii_upper('1'), '1');
    assert_eq!(to_ascii_upper('{'), '{');
    assert_eq!(to_ascii_upper('`'), '`');
    assert_eq!(to_ascii_upper('\u{e9}'), '\u{e9}');
}

#[test]
fn instants_are_ordered_by_seconds_then_nanoseconds() {
    let a = Timestamp::new(10, 5);
    let b = Timestamp::new(10, 6);
    let c = Timestamp::new(11, 0);
    assert!(b.is_after(&a));
    assert!(c.is_after(&b));
    assert!(!a.is_after(&a));
    assert!(!a.is_after(&b));
    assert!(Timestamp::new(0, 0).is_after(&Timestamp::new(-1, 999_999_999)));
    assert_eq!(a.later_of(b), b);
    assert_eq!(c.later_of(b), c);
    assert_eq!(a.later_of(a), a);
    assert_eq!(Timestamp::unix_epoch(), Timestamp::new(0, 0));
    assert!(a < b && b < c);
}

#[test]
fn instants_agree_with_the_calendar() {
    let parsed = Timestamp::parse_rfc3339("2025-01-01T00:00:00Z").expect("valid");
    let built: DateTime<Utc> = Utc.with_ymd_and_hms(2025, 1, 1, 0, 0, 0).single().expect("valid");
    assert_eq!(parsed, Timestamp::new(built.timestamp(), 0));
    assert_eq!(parsed.secs, 1_735_689_600);
    assert_eq!(
        Timestamp::parse_rfc3339("2016-12-31T23:59:60Z"),
        Some(Timestamp::new(1_483_228_799, 1_000_000_000))
    );
    assert_eq!(Timestamp::parse_rfc3339("2025-01-01"), None);
    assert_eq!(Timestamp::parse_rfc3339(""), None);
    assert_eq!(Timestamp::parse_rfc3339("2025-13-01T00:00:00Z"), None);
}

#[test]
fn seconds_outside_the_calendar_are_refused() {
    assert_eq!(Timestamp::from_seconds(0), Some(Timestamp::new(0, 0)));
    assert_eq!(Timestamp::from_seconds(-5), Some(Timestamp::new(-5, 0)));
    assert_eq!(
        Timestamp::from_seconds(MAX_SECONDS),
        Some(Timestamp::new(MAX_SECONDS, 0))
    );
    assert_eq!(
        Timestamp::from_seconds(MIN_SECONDS),
        Some(Timestamp::new(MIN_SECONDS, 0))
    );
    assert_eq!(Timestamp::from_seconds(MAX_SECONDS + 1), None);
    assert_eq!(Timestamp::from_seconds(MIN_SECONDS - 1), None);
    assert_eq!(Timestamp::from_seconds(i64::MAX), None);
    assert_eq!(Timestamp::from_seconds(i64::MIN), None);
    assert_eq!(DateTime::<Utc>::MAX_UTC.timestamp(), MAX_SECONDS);
    assert_eq!(DateTime::<Utc>::MIN_UTC.timestamp(), MIN_SECONDS);
    assert!(DateTime::from_timestamp(MAX_SECONDS + 1, 0).is_none());
    assert!(DateTime::from_timestamp(MIN_SECONDS - 1, 0).is_none());
}

#[test]
fn status_codes_round_trip() {
    assert_eq!(CiStatus::Pending.as_i64(), 0);
    assert_eq!(CiStatus::Success.as_i64(), 1);
    assert_eq!(CiStatus::Failure.as_i64(), 2);
    assert_eq!(CiStatus::from_i64(0), CiStatus::Pending);
    assert_eq!(CiStatus::from_i64(1), CiStatus::Success);
    assert_eq!(CiStatus::from_i64(2), CiStatus::Failure);
    assert_eq!(CiStatus::from_i64(3), CiStatus::Pending);
    assert_eq!(CiStatus::from_i64(-1), CiStatus::Pending);
    for status in [CiStatus::Pending, CiStatus::Success, CiStatus::Failure] {
        assert_eq!(CiStatus::from_i64(status.as_i64()), status);
    }
}

#[test]
fn record_texts() {
    let pr = record("acme/app", 42);
    assert_eq!(pr.display_string(), "alice Fix the thing : acme/app/42");
    assert_eq!(pr.url(), "https://github.com/acme/app/pull/42");
    assert_eq!(pr.updates_since_last_ack(), "  New PR");
    assert!(!pr.is_acknowledged());
    let copy = pr.clone();
    assert_eq!(copy, pr);
}

#[test]
fn updates_are_counted_from_the_acknowledgement() {
    let at = |secs: i64| PullRequest {
        last_acknowledged_at: Some(Timestamp::new(secs, 0)),
        ..record("acme/app", 42)
    };
    assert_eq!(
        at(50).updates_since_last_ack(),
        "  New Comment | New Commits | CI Status Changed | "
    );
    assert_eq!(at(100).updates_since_last_ack(), "  New Commits | CI Status Changed | ");
    assert_eq!(at(250).updates_since_last_ack(), "  CI Status Changed | ");
    assert_eq!(at(300).updates_since_last_ack(), "  ");
    assert!(!at(50).is_acknowledged());
    assert!(!at(299).is_acknowledged());
    assert!(at(300).is_acknowledged());
    assert!(at(301).is_acknowledged());
    let comment_only = PullRequest {
        last_acknowledged_at: Some(Timestamp::new(300, 0)),
        last_comment_at: Timestamp::new(300, 1),
        ..record("acme/app", 42)
    };
    assert_eq!(comment_only.updates_since_last_ack(), "  New Comment | ");
    assert!(!comment_only.is_acknowledged());
}

#[test]
fn failures_have_their_texts() {
    let text = |e: TrackerError| e.message();
    assert_eq!(
        text(TrackerError::Blank {
            label: "repo name".to_string()
        }),
        "repo name is required"
    );
    assert_eq!(
        text(TrackerError::InvalidPullRequestNumber),
        "pr id must be greater than zero"
    );
    assert_eq!(text(TrackerError::MissingHeadSha), "pull request head sha is missing");
    assert_eq!(
        text(TrackerError::RemoteStatus {
            status: 502,
            body: "\n bad gateway \n".to_string()
        }),
        "github API request failed: status=502 body=bad gateway"
    );
    assert_eq!(
        text(TrackerError::Transport {
            endpoint: "https://x".to_string(),
            cause: "timed out".to_string()
        }),
        "error sending request for https://x: timed out"
    );
    assert_eq!(
        text(TrackerError::TeamsForbidden {
            cause: "why".to_string()
        }),
        "failed to fetch GitHub teams: token likely lacks 'read:org' scope. Regenerate your token with 'read:org' permission and run 'prt auth' again.\nOriginal error: why"
    );
    assert_eq!(
        text(TrackerError::TeamMembersForbidden {
            org: "acme".to_string(),
            team_slug: "core".to_string(),
            cause: "why".to_string()
        }),
        "failed to fetch members for team 'core' in org 'acme': token likely lacks 'read:org' scope.\nOriginal error: why"
    );
    assert_eq!(
        text(TrackerError::InvalidTimestamp {
            value: "soon".to_string()
        }),
        "invalid timestamp: soon"
    );
    assert_eq!(
        text(TrackerError::InvalidUnixTimestamp { seconds: -12 }),
        "invalid unix timestamp: -12"
    );
    assert_eq!(
        text(TrackerError::InvalidReviewers {
            cause: "eof".to_string()
        }),
        "unmarshal requested_reviewers: eof"
    );
    assert_eq!(
        text(TrackerError::NotAuthenticated),
        "no authenticated user found, run 'cli auth <token>' first"
    );
    assert_eq!(
        text(TrackerError::AlreadyAuthenticated {
            username: "alice".to_string()
        }),
        "a user is already authenticated as 'alice', remove existing user first"
    );
    assert_eq!(
        text(TrackerError::DuplicateUser { count: 3 }),
        "fatal error: expected at most 1 user, got 3"
    );
    assert_eq!(
        text(TrackerError::Persistence {
            operation: "save pull request".to_string(),
            cause: "disk full".to_string()
        }),
        "save pull request: disk full"
    );
    let user = User {
        access_token: "t".to_string(),
        username: "u".to_string(),
    };
    assert_eq!(user.clone(), user);
}
