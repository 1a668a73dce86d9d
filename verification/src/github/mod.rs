//! The remote API: the shapes of its answers, the addresses of its
//! resources, and the rules for reading its responses.

use vstd::prelude::*;
use crate::error::{TrackerError, TrackerErrorView};
use crate::text::{
    blank, chars_of, contains, contains_in, contains_text, decimal, find_char, first_index_of,
    is_blank, push_decimal, push_text, string_of,
};

pub mod schema;

verus! {

/// The address of the remote API.
pub open spec fn base_url() -> Seq<char> {
    "https://api.github.com"@
}

/// The query that asks for the first page of a listing, a hundred items to
/// the page.
pub open spec fn first_page() -> Seq<char> {
    "per_page=100&page=1"@
}

/// The relation that marks the address of the following page in a `Link`
/// header.
pub open spec fn rel_next() -> Seq<char> {
    "rel=\"next\""@
}

/// The address between the first `<` and the first `>` of a segment.
/// There is none where a bracket is missing, or where the `>` stands
/// before the `<` or right behind it.
pub open spec fn link_target(segment: Seq<char>) -> Option<Seq<char>> {
    match (first_index_of(segment, '<'), first_index_of(segment, '>')) {
        (Some(open), Some(close)) => if close <= open + 1 {
            None
        } else {
            Some(segment.subrange(open + 1, close))
        },
        _ => None,
    }
}

/// The address of the following page that a `Link` header gives: the
/// target of the first of its comma-separated segments that holds
/// `rel="next"`. White space around a segment does not matter, since the
/// target lies between the brackets.
pub open spec fn next_target(header: Seq<char>) -> Option<Seq<char>>
    decreases header.len(),
{
    let end = match first_index_of(header, ',') {
        Some(comma) => comma,
        None => header.len() as int,
    };
    if 0 <= end <= header.len() {
        let segment = header.take(end);
        if contains_text(segment, rel_next()) {
            link_target(segment)
        } else if end < header.len() {
            next_target(header.skip(end + 1))
        } else {
            None
        }
    } else {
        None
    }
}

/// The address of the following page, from the `Link` header of a page.
pub fn parse_next_url(link_header: &str) -> (r: Option<String>)
    ensures
        match r {
            Some(url) => next_target(link_header@) == Some(url@),
            None => next_target(link_header@) is None,
        },
{
    let chars = chars_of(link_header);
    let relation = chars_of("rel=\"next\"");
    let mut start: usize = 0;
    assert(chars@.skip(0) =~= chars@);
    loop
        invariant
            start <= chars.len(),
            chars@ == link_header@,
            relation@ == rel_next(),
            next_target(link_header@) == next_target(chars@.skip(start as int)),
        decreases chars.len() - start,
    {
        let end = find_char(&chars, start, chars.len(), ',');
        let ghost rest = chars@.skip(start as int);
        let ghost segment = chars@.subrange(start as int, end as int);
        proof {
            assert(rest.take(end - start) =~= segment);
        }
        if contains_in(&chars, start, end, &relation) {
            let open = find_char(&chars, start, end, '<');
            let close = find_char(&chars, start, end, '>');
            if open == end || close == end || close <= open + 1 {
                return None;
            }
            return Some(string_of(&chars, open + 1, close));
        }
        if end >= chars.len() {
            return None;
        }
        proof {
            assert(rest.skip(end - start + 1) =~= chars@.skip(end + 1));
        }
        start = end + 1;
    }
}

/// The address of the following page after a page that came with the
/// `Link` header `link_header`, if it came with one.
pub fn next_page_url(link_header: Option<&str>) -> (r: Option<String>)
    ensures
        match link_header {
            Some(header) => match r {
                Some(url) => next_target(header@) == Some(url@),
                None => next_target(header@) is None,
            },
            None => r is None,
        },
{
    match link_header {
        Some(header) => parse_next_url(header),
        None => None,
    }
}

/// Rejects an argument that is empty or white space only.
pub fn ensure_not_blank(label: &str, value: &str) -> (r: Result<(), TrackerError>)
    ensures
        match r {
            Ok(_) => !is_blank(value@),
            Err(e) => is_blank(value@) && e@ == (TrackerErrorView::Blank { label: label@ }),
        },
{
    if blank(value) {
        return Err(TrackerError::Blank { label: label.to_owned() });
    }
    Ok(())
}

/// What stands in the way of asking for the pull request `pr_id` of
/// `repo_name`: a blank repository name, else a number that is not positive.
pub open spec fn pull_request_problem(repo_name: Seq<char>, pr_id: i64) -> Option<TrackerErrorView> {
    if is_blank(repo_name) {
        Some(TrackerErrorView::Blank { label: "repo name"@ })
    } else if pr_id <= 0 {
        Some(TrackerErrorView::InvalidPullRequestNumber)
    } else {
        None
    }
}

/// Checks the arguments of a request for one pull request.
pub fn validate_pull_request(repo_name: &str, pr_id: i64) -> (r: Result<(), TrackerError>)
    ensures
        match r {
            Ok(_) => pull_request_problem(repo_name@, pr_id) is None,
            Err(e) => pull_request_problem(repo_name@, pr_id) == Some(e@),
        },
{
    match ensure_not_blank("repo name", repo_name) {
        Ok(_) => {},
        Err(e) => {
            return Err(e);
        },
    }
    if pr_id <= 0 {
        return Err(TrackerError::InvalidPullRequestNumber);
    }
    Ok(())
}

/// Checks that a pull request came with the identity of its head commit.
pub fn ensure_head_sha(head: &schema::PullRequestHead) -> (r: Result<(), TrackerError>)
    ensures
        match r {
            Ok(_) => !is_blank(head.head.sha@),
            Err(e) => is_blank(head.head.sha@) && e@ == TrackerErrorView::MissingHeadSha,
        },
{
    if blank(head.head.sha.as_str()) {
        return Err(TrackerError::MissingHeadSha);
    }
    Ok(())
}

/// The value of the `Authorization` header for a token.
pub fn authorization_header(auth_token: &str) -> (r: Result<String, TrackerError>)
    ensures
        match r {
            Ok(value) => !is_blank(auth_token@) && value@ == "Bearer "@ + auth_token@,
            Err(e) => is_blank(auth_token@) && e@ == (TrackerErrorView::Blank { label: "auth token"@ }),
        },
{
    if blank(auth_token) {
        return Err(TrackerError::Blank { label: "auth token".to_owned() });
    }
    let mut value = String::new();
    push_text(&mut value, "Bearer ");
    push_text(&mut value, auth_token);
    Ok(value)
}

/// The headers that every request carries, as names and values: the
/// media type to accept, the user agent, the version of the API, and the
/// authorization for `auth_token`.
pub open spec fn request_header_pairs(auth_token: Seq<char>) -> Seq<(Seq<char>, Seq<char>)> {
    seq![
        ("accept"@, "application/vnd.github+json"@),
        ("user-agent"@, "pr-tracker-rust"@),
        ("x-github-api-version"@, "2022-11-28"@),
        ("authorization"@, "Bearer "@ + auth_token),
    ]
}

/// The contents of a list of headers.
pub open spec fn header_views(headers: Seq<(String, String)>) -> Seq<(Seq<char>, Seq<char>)> {
    headers.map_values(|h: (String, String)| (h.0@, h.1@))
}

/// The headers that every request carries. Fails where the token is blank.
pub fn request_headers(auth_token: &str) -> (r: Result<Vec<(String, String)>, TrackerError>)
    ensures
        match r {
            Ok(headers) => !is_blank(auth_token@) && header_views(headers@) == request_header_pairs(
                auth_token@,
            ),
            Err(e) => is_blank(auth_token@) && e@ == (TrackerErrorView::Blank {
                label: "auth token"@,
            }),
        },
{
    let authorization = match authorization_header(auth_token) {
        Ok(value) => value,
        Err(e) => {
            return Err(e);
        },
    };
    let mut headers: Vec<(String, String)> = Vec::new();
    headers.push(("accept".to_owned(), "application/vnd.github+json".to_owned()));
    headers.push(("user-agent".to_owned(), "pr-tracker-rust".to_owned()));
    headers.push(("x-github-api-version".to_owned(), "2022-11-28".to_owned()));
    headers.push(("authorization".to_owned(), authorization));
    Ok(headers)
}

/// `https://api.github.com/user`
pub fn user_url() -> (url: String)
    ensures
        url@ == base_url() + "/user"@,
{
    let mut url = String::new();
    push_text(&mut url, "https://api.github.com");
    push_text(&mut url, "/user");
    url
}

/// `https://api.github.com/user/teams?per_page=100&page=1`
pub fn user_teams_url() -> (url: String)
    ensures
        url@ == base_url() + "/user/teams?"@ + first_page(),
{
    let mut url = String::new();
    push_text(&mut url, "https://api.github.com");
    push_text(&mut url, "/user/teams?");
    push_text(&mut url, "per_page=100&page=1");
    url
}

/// `https://api.github.com/orgs/{org}/teams/{team_slug}/members?per_page=100&page=1`
pub fn team_members_url(org: &str, team_slug: &str) -> (url: String)
    ensures
        url@ == base_url() + "/orgs/"@ + org@ + "/teams/"@ + team_slug@ + "/members?"@
            + first_page(),
{
    let mut url = String::new();
    push_text(&mut url, "https://api.github.com");
    push_text(&mut url, "/orgs/");
    push_text(&mut url, org);
    push_text(&mut url, "/teams/");
    push_text(&mut url, team_slug);
    push_text(&mut url, "/members?");
    push_text(&mut url, "per_page=100&page=1");
    url
}

/// `https://api.github.com/repos/{repo_name}/pulls?state=open&per_page=100&page=1`
pub fn open_pull_requests_url(repo_name: &str) -> (url: String)
    ensures
        url@ == base_url() + "/repos/"@ + repo_name@ + "/pulls?state=open&"@ + first_page(),
{
    let mut url = String::new();
    push_text(&mut url, "https://api.github.com");
    push_text(&mut url, "/repos/");
    push_text(&mut url, repo_name);
    push_text(&mut url, "/pulls?state=open&");
    push_text(&mut url, "per_page=100&page=1");
    url
}

/// `https://api.github.com/repos/{repo_name}/pulls/{pr_id}`
pub fn pull_request_url(repo_name: &str, pr_id: i64) -> (url: String)
    ensures
        url@ == base_url() + "/repos/"@ + repo_name@ + "/pulls/"@ + decimal(pr_id as int),
{
    let mut url = String::new();
    push_text(&mut url, "https://api.github.com");
    push_text(&mut url, "/repos/");
    push_text(&mut url, repo_name);
    push_text(&mut url, "/pulls/");
    push_decimal(&mut url, pr_id);
    url
}

/// `https://api.github.com/repos/{repo_name}/issues/{pr_id}/comments?per_page=100&page=1`
pub fn issue_comments_url(repo_name: &str, pr_id: i64) -> (url: String)
    ensures
        url@ == base_url() + "/repos/"@ + repo_name@ + "/issues/"@ + decimal(pr_id as int)
            + "/comments?"@ + first_page(),
{
    let mut url = String::new();
    push_text(&mut url, "https://api.github.com");
    push_text(&mut url, "/repos/");
    push_text(&mut url, repo_name);
    push_text(&mut url, "/issues/");
    push_decimal(&mut url, pr_id);
    push_text(&mut url, "/comments?");
    push_text(&mut url, "per_page=100&page=1");
    url
}

/// `https://api.github.com/repos/{repo_name}/pulls/{pr_id}/comments?per_page=100&page=1`
pub fn review_comments_url(repo_name: &str, pr_id: i64) -> (url: String)
    ensures
        url@ == base_url() + "/repos/"@ + repo_name@ + "/pulls/"@ + decimal(pr_id as int)
            + "/comments?"@ + first_page(),
{
    let mut url = String::new();
    push_text(&mut url, "https://api.github.com");
    push_text(&mut url, "/repos/");
    push_text(&mut url, repo_name);
    push_text(&mut url, "/pulls/");
    push_decimal(&mut url, pr_id);
    push_text(&mut url, "/comments?");
    push_text(&mut url, "per_page=100&page=1");
    url
}

/// `https://api.github.com/repos/{repo_name}/commits/{sha}/status`
pub fn combined_status_url(repo_name: &str, sha: &str) -> (url: String)
    ensures
        url@ == base_url() + "/repos/"@ + repo_name@ + "/commits/"@ + sha@ + "/status"@,
{
    let mut url = String::new();
    push_text(&mut url, "https://api.github.com");
    push_text(&mut url, "/repos/");
    push_text(&mut url, repo_name);
    push_text(&mut url, "/commits/");
    push_text(&mut url, sha);
    push_text(&mut url, "/status");
    url
}

/// `https://api.github.com/repos/{repo_name}/commits/{sha}/check-runs?per_page=100&page=1`
pub fn check_runs_url(repo_name: &str, sha: &str) -> (url: String)
    ensures
        url@ == base_url() + "/repos/"@ + repo_name@ + "/commits/"@ + sha@ + "/check-runs?"@
            + first_page(),
{
    let mut url = String::new();
    push_text(&mut url, "https://api.github.com");
    push_text(&mut url, "/repos/");
    push_text(&mut url, repo_name);
    push_text(&mut url, "/commits/");
    push_text(&mut url, sha);
    push_text(&mut url, "/check-runs?");
    push_text(&mut url, "per_page=100&page=1");
    url
}

/// Whether a response status says that the request succeeded.
pub open spec fn is_success(status: u16) -> bool {
    200 <= status < 300
}

/// Accepts a response by its status: one outside 200..=299 is a failure
/// that carries the status and the body.
pub fn check_response(status: u16, body: &str) -> (r: Result<(), TrackerError>)
    ensures
        match r {
            Ok(_) => is_success(status),
            Err(e) => !is_success(status) && e@ == (TrackerErrorView::RemoteStatus { status, body: body@ }),
        },
{
    if 200 <= status && status < 300 {
        Ok(())
    } else {
        Err(TrackerError::RemoteStatus { status, body: body.to_owned() })
    }
}

/// The failure of decoding the body that `endpoint` answered with.
pub fn decode_failure(endpoint: &str, cause: &str) -> (e: TrackerError)
    ensures
        e@ == (TrackerErrorView::Decode { endpoint: endpoint@, cause: cause@ }),
{
    TrackerError::Decode { endpoint: endpoint.to_owned(), cause: cause.to_owned() }
}

/// Whether the text of a failure says that the remote answered 403.
pub open spec fn mentions_forbidden(e: TrackerErrorView) -> bool {
    contains_text(e.message(), "status=403"@)
}

/// What to report when listing the user's teams failed: where the failure
/// mentions status 403, that the token lacks the scope for it; else the
/// failure itself.
pub fn explain_teams_failure(err: TrackerError) -> (r: TrackerError)
    ensures
        r@ == if mentions_forbidden(err@) {
            TrackerErrorView::TeamsForbidden { cause: err@.message() }
        } else {
            err@
        },
{
    let message = err.message();
    if contains(message.as_str(), "status=403") {
        TrackerError::TeamsForbidden { cause: message }
    } else {
        err
    }
}

/// What to report when listing the members of a team failed: where the
/// failure mentions status 403, that the token lacks the scope for it;
/// else the failure itself.
pub fn explain_team_members_failure(org: &str, team_slug: &str, err: TrackerError) -> (r: TrackerError)
    ensures
        r@ == if mentions_forbidden(err@) {
            TrackerErrorView::TeamMembersForbidden {
                org: org@,
                team_slug: team_slug@,
                cause: err@.message(),
            }
        } else {
            err@
        },
{
    let message = err.message();
    if contains(message.as_str(), "status=403") {
        TrackerError::TeamMembersForbidden {
            org: org.to_owned(),
            team_slug: team_slug.to_owned(),
            cause: message,
        }
    } else {
        err
    }
}

/// What the remote reports about the checks of a head commit, put together
/// from the three answers it takes to learn it.
pub fn assemble_ci_statuses(
    pr: schema::PullRequestHead,
    status: schema::CombinedStatus,
    check_runs: Vec<schema::CheckRun>,
) -> (r: schema::PullRequestCiStatuses)
    ensures
        r.pull_request_number == pr.number,
        r.head_sha == pr.head.sha,
        r.combined_state == status.state,
        r.statuses == status.statuses,
        r.check_runs == check_runs,
{
    schema::PullRequestCiStatuses {
        pull_request_number: pr.number,
        head_sha: pr.head.sha,
        combined_state: status.state,
        statuses: status.statuses,
        check_runs,
    }
}

/// The items of a listing that comes in pages, gathered page by page.
pub struct Pages<T> {
    /// The items of the pages read so far, in the order of the pages.
    pub items: Vec<T>,
    /// The address of the page to read next, if one is left.
    pub next_url: Option<String>,
}

impl<T> Pages<T> {
    /// Nothing read yet; the first page is at `first_url`.
    pub fn starting_at(first_url: &str) -> (pages: Pages<T>)
        ensures
            pages.items@ == Seq::<T>::empty(),
            pages.next_url matches Some(url) && url@ == first_url@,
    {
        Pages { items: Vec::new(), next_url: Some(first_url.to_owned()) }
    }

    /// Takes in the page that was read: its items go behind those read
    /// before, and the page's `Link` header says where the next page is.
    pub fn absorb(&mut self, page_items: Vec<T>, link_header: Option<&str>)
        ensures
            final(self).items@ == old(self).items@ + page_items@,
            match link_header {
                Some(header) => match final(self).next_url {
                    Some(url) => next_target(header@) == Some(url@),
                    None => next_target(header@) is None,
                },
                None => final(self).next_url is None,
            },
    {
        let mut page_items = page_items;
        self.items.append(&mut page_items);
        self.next_url = next_page_url(link_header);
    }
}

} // verus!
