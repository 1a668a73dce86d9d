use pr_tracker::error::TrackerError;
use pr_tracker::github::schema::{
    CheckRun, CheckRunApp, CombinedStatus, CommitStatusContext, PullRequestHead, PullRequestHeadSha,
};
use pr_tracker::github::{
    assemble_ci_statuses, authorization_header, check_response, check_runs_url,
    combined_status_url, decode_failure, ensure_head_sha, ensure_not_blank,
    explain_team_members_failure, explain_teams_failure, issue_comments_url, next_page_url,
    open_pull_requests_url, parse_next_url, pull_request_url, request_headers,
    review_comments_url, team_members_url, user_teams_url, user_url, validate_pull_request, Pages,
};

#[test]
fn finds_the_next_page_in_a_link_header() {
    let header = "<https://api.github.com/repositories/1/pulls?page=2>; rel=\"next\", <https://api.github.com/repositories/1/pulls?page=5>; rel=\"last\"";
    assert_eq!(
        parse_next_url(header),
        Some("https://api.github.com/repositories/1/pulls?page=2".to_string())
    );
    let later = "<https://x/y?page=1>; rel=\"prev\", <https://x/y?page=3>; rel=\"next\",<https://x/y?page=9>; rel=\"last\"";
    assert_eq!(parse_next_url(later), Some("https://x/y?page=3".to_string()));
    let spaced = "  <https://x/y?page=1>; rel=\"first\" ,   \t<https://x/y?page=3>; rel=\"next\"  ";
    assert_eq!(parse_next_url(spaced), Some("https://x/y?page=3".to_string()));
}

#[test]
fn no_next_page_without_the_relation() {
    assert_eq!(parse_next_url(""), None);
    assert_eq!(parse_next_url("<https://x/y?page=1>; rel=\"prev\""), None);
    assert_eq!(parse_next_url("<https://x/y?page=1>; rel=next"), None);
    assert_eq!(parse_next_url(",,,"), None);
}

#[test]
fn first_segment_with_the_relation_decides() {
    assert_eq!(parse_next_url("rel=\"next\", <https://x/2>; rel=\"next\""), None);
    assert_eq!(parse_next_url("<>; rel=\"next\", <https://x/2>; rel=\"next\""), None);
    assert_eq!(parse_next_url("><https://x/2; rel=\"next\""), None);
    assert_eq!(parse_next_url("<https://x/2; rel=\"next\""), None);
    assert_eq!(parse_next_url("https://x/2>; rel=\"next\""), None);
    assert_eq!(parse_next_url("<a>; rel=\"next\""), Some("a".to_string()));
    assert_eq!(parse_next_url("rel=\"next\" <a<b>c>"), Some("a<b".to_string()));
    assert_eq!(
        parse_next_url("<https://x/\u{e9}t\u{e9}>; rel=\"next\""),
        Some("https://x/\u{e9}t\u{e9}".to_string())
    );
}

#[test]
fn a_comma_in_the_target_splits_the_segment() {
    assert_eq!(parse_next_url("<https://x/a,b>; rel=\"next\""), None);
}

#[test]
fn next_page_needs_a_header() {
    assert_eq!(next_page_url(None), None);
    assert_eq!(next_page_url(Some("<u>; rel=\"last\"")), None);
    assert_eq!(next_page_url(Some("<u>; rel=\"next\"")), Some("u".to_string()));
}

#[test]
fn pages_are_gathered_in_order() {
    let mut pages: Pages<i64> = Pages::starting_at("https://x/list?page=1");
    assert_eq!(pages.items, Vec::<i64>::new());
    assert_eq!(pages.next_url, Some("https://x/list?page=1".to_string()));
    pages.absorb(vec![3, 1], Some("<https://x/list?page=2>; rel=\"next\""));
    assert_eq!(pages.next_url, Some("https://x/list?page=2".to_string()));
    pages.absorb(vec![], Some("<https://x/list?page=3>; rel=\"next\""));
    pages.absorb(vec![2], Some("<https://x/list?page=1>; rel=\"first\""));
    assert_eq!(pages.next_url, None);
    assert_eq!(pages.items, vec![3, 1, 2]);
    let mut single: Pages<i64> = Pages::starting_at("u");
    single.absorb(vec![7], None);
    assert_eq!(single.next_url, None);
    assert_eq!(single.items, vec![7]);
}

#[test]
fn blank_arguments_are_rejected() {
    assert_eq!(ensure_not_blank("repo name", "org/repo"), Ok(()));
    assert_eq!(ensure_not_blank("repo name", " x "), Ok(()));
    for value in ["", " ", "\t\n ", "\u{a0}\u{2003}"] {
        assert_eq!(
            ensure_not_blank("repo name", value),
            Err(TrackerError::Blank {
                label: "repo name".to_string()
            })
        );
    }
}

#[test]
fn pull_request_arguments_are_checked_in_order() {
    assert_eq!(validate_pull_request("org/repo", 1), Ok(()));
    assert_eq!(
        validate_pull_request(" ", 0),
        Err(TrackerError::Blank {
            label: "repo name".to_string()
        })
    );
    assert_eq!(
        validate_pull_request("org/repo", 0),
        Err(TrackerError::InvalidPullRequestNumber)
    );
    assert_eq!(
        validate_pull_request("org/repo", -4),
        Err(TrackerError::InvalidPullRequestNumber)
    );
}

#[test]
fn head_commit_must_be_named() {
    let head = |sha: &str| PullRequestHead {
        number: 1,
        head: PullRequestHeadSha {
            sha: sha.to_string(),
        },
    };
    assert_eq!(ensure_head_sha(&head("abc")), Ok(()));
    assert_eq!(ensure_head_sha(&head("")), Err(TrackerError::MissingHeadSha));
    assert_eq!(ensure_head_sha(&head("  ")), Err(TrackerError::MissingHeadSha));
}

#[test]
fn token_becomes_a_bearer_header() {
    assert_eq!(authorization_header("t0k3n"), Ok("Bearer t0k3n".to_string()));
    assert_eq!(
        authorization_header("  "),
        Err(TrackerError::Blank {
            label: "auth token".to_string()
        })
    );
}

#[test]
fn every_request_carries_four_headers() {
    let pair = |name: &str, value: &str| (name.to_string(), value.to_string());
    assert_eq!(
        request_headers("t0k3n"),
        Ok(vec![
            pair("accept", "application/vnd.github+json"),
            pair("user-agent", "pr-tracker-rust"),
            pair("x-github-api-version", "2022-11-28"),
            pair("authorization", "Bearer t0k3n"),
        ])
    );
    assert_eq!(
        request_headers("\n"),
        Err(TrackerError::Blank {
            label: "auth token".to_string()
        })
    );
}

#[test]
fn addresses_of_the_remote() {
    assert_eq!(user_url(), "https://api.github.com/user");
    assert_eq!(
        user_teams_url(),
        "https://api.github.com/user/teams?per_page=100&page=1"
    );
    assert_eq!(
        team_members_url("acme", "core"),
        "https://api.github.com/orgs/acme/teams/core/members?per_page=100&page=1"
    );
    assert_eq!(
        open_pull_requests_url("acme/app"),
        "https://api.github.com/repos/acme/app/pulls?state=open&per_page=100&page=1"
    );
    assert_eq!(
        pull_request_url("acme/app", 42),
        "https://api.github.com/repos/acme/app/pulls/42"
    );
    assert_eq!(
        issue_comments_url("acme/app", 42),
        "https://api.github.com/repos/acme/app/issues/42/comments?per_page=100&page=1"
    );
    assert_eq!(
        review_comments_url("acme/app", 42),
        "https://api.github.com/repos/acme/app/pulls/42/comments?per_page=100&page=1"
    );
    assert_eq!(
        combined_status_url("acme/app", "abc123"),
        "https://api.github.com/repos/acme/app/commits/abc123/status"
    );
    assert_eq!(
        check_runs_url("acme/app", "abc123"),
        "https://api.github.com/repos/acme/app/commits/abc123/check-runs?per_page=100&page=1"
    );
}

#[test]
fn only_statuses_of_the_two_hundreds_succeed() {
    for status in [200u16, 201, 204, 299] {
        assert_eq!(check_response(status, "body"), Ok(()));
    }
    for status in [0u16, 100, 199, 300, 301, 404, 500, 65535] {
        assert_eq!(
            check_response(status, " nope \n"),
            Err(TrackerError::RemoteStatus {
                status,
                body: " nope \n".to_string()
            })
        );
    }
}

#[test]
fn forbidden_listing_of_teams_is_explained() {
    let forbidden = TrackerError::RemoteStatus {
        status: 403,
        body: " denied ".to_string(),
    };
    let text = "github API request failed: status=403 body=denied".to_string();
    assert_eq!(forbidden.message(), text);
    assert_eq!(
        explain_teams_failure(forbidden.clone()),
        TrackerError::TeamsForbidden {
            cause: text.clone()
        }
    );
    assert_eq!(
        explain_team_members_failure("acme", "core", forbidden),
        TrackerError::TeamMembersForbidden {
            org: "acme".to_string(),
            team_slug: "core".to_string(),
            cause: text
        }
    );
    let missing = TrackerError::RemoteStatus {
        status: 404,
        body: "gone".to_string(),
    };
    assert_eq!(explain_teams_failure(missing.clone()), missing);
    assert_eq!(
        explain_team_members_failure("acme", "core", missing.clone()),
        missing
    );
    let quoted = TrackerError::RemoteStatus {
        status: 500,
        body: "upstream said status=403".to_string(),
    };
    assert!(matches!(
        explain_teams_failure(quoted),
        TrackerError::TeamsForbidden { .. }
    ));
}

#[test]
fn decode_failure_names_the_endpoint() {
    assert_eq!(
        decode_failure("https://x/y", "missing field").message(),
        "error decoding response body for https://x/y: missing field"
    );
}

#[test]
fn ci_statuses_are_put_together() {
    let check_run = CheckRun {
        id: 9,
        name: "lint".to_string(),
        status: "completed".to_string(),
        conclusion: Some("success".to_string()),
        html_url: None,
        details_url: None,
        started_at: None,
        completed_at: None,
        app: CheckRunApp {
            name: "ci".to_string(),
        },
    };
    let context = CommitStatusContext {
        context: "deploy".to_string(),
        state: "success".to_string(),
        description: None,
        target_url: None,
        created_at: None,
        updated_at: None,
    };
    let assembled = assemble_ci_statuses(
        PullRequestHead {
            number: 7,
            head: PullRequestHeadSha {
                sha: "abc".to_string(),
            },
        },
        CombinedStatus {
            state: "success".to_string(),
            statuses: vec![context],
        },
        vec![check_run],
    );
    assert_eq!(assembled.pull_request_number, 7);
    assert_eq!(assembled.head_sha, "abc");
    assert_eq!(assembled.combined_state, "success");
    assert_eq!(assembled.statuses.len(), 1);
    assert_eq!(assembled.statuses[0].context, "deploy");
    assert_eq!(assembled.check_runs.len(), 1);
    assert_eq!(assembled.check_runs[0].id, 9);
}
