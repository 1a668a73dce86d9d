use fuzzy_matcher::skim::SkimMatcherV2;
use fuzzy_matcher::FuzzyMatcher;

use pr_tracker::error::TrackerError;
use pr_tracker::models::{CiStatus, PullRequest};
use pr_tracker::sync::SyncRunSummary;
use pr_tracker::teams::{build_teams_payload, select_candidates, select_untracked_members, selected_logins};
use pr_tracker::time::Timestamp;
use pr_tracker::tui_app::{
    background_job_label, ci_label, filtered_list, spinner_frame, title_case, truncate,
    AuthorsPane, AuthorsScreenState, BackgroundJob, BackgroundMessage, Effect, Key, Model, Screen,
    Session, TeamsPayload, ViewMode,
};

fn names(items: &[&str]) -> Vec<String> {
    items.iter().map(|s| s.to_string()).collect()
}

fn pr(number: i64, acknowledged: bool) -> PullRequest {
    PullRequest {
        number,
        title: String::new(),
        repository: "org/repo".to_string(),
        author: "alice".to_string(),
        head_sha: "abc".to_string(),
        draft: false,
        created_at: Timestamp::new(0, 0),
        updated_at: Timestamp::new(0, 0),
        ci_status: CiStatus::Pending,
        last_comment_at: Timestamp::new(0, 0),
        last_commit_at: Timestamp::new(0, 0),
        last_ci_status_update_at: Timestamp::new(0, 0),
        last_acknowledged_at: if acknowledged {
            Some(Timestamp::new(5, 0))
        } else {
            None
        },
        requested_reviewers: Vec::new(),
    }
}

fn is_nothing(effect: &Effect) -> bool {
    matches!(effect, Effect::Nothing)
}

fn loaded_authors() -> Session {
    let mut session = Session::new(vec![pr(1, false)]);
    let now = Timestamp::new(100, 0);
    assert!(matches!(
        session.handle_key(Key::Char('t'), now),
        Effect::StartTeamsFetch
    ));
    let payload = TeamsPayload {
        tracked_authors: names(&["bob", "dan"]),
        untracked_authors: names(&["alice", "alicia", "carol"]),
    };
    let effect = session.handle_message(BackgroundMessage::TeamsFetchFinished(Ok(payload)));
    assert!(is_nothing(&effect));
    session
}

#[test]
fn labels_and_frames() {
    assert_eq!(background_job_label(BackgroundJob::FullSync), "sync");
    assert_eq!(background_job_label(BackgroundJob::QuickRefresh), "refresh");
    assert_eq!(background_job_label(BackgroundJob::TeamsFetch), "fetching teams");
    assert_eq!(ci_label(CiStatus::Pending), "pending");
    assert_eq!(ci_label(CiStatus::Success), "success");
    assert_eq!(ci_label(CiStatus::Failure), "failure");
    let frames: Vec<char> = (0..6).map(spinner_frame).collect();
    assert_eq!(frames, vec!['|', '/', '-', '\\', '|', '/']);
    assert_eq!(spinner_frame(usize::MAX), ['|', '/', '-', '\\'][usize::MAX % 4]);
    assert_eq!(title_case("active"), "Active");
    assert_eq!(title_case("Acknowledged"), "Acknowledged");
    assert_eq!(title_case(""), "");
    assert_eq!(title_case("\u{e9}t\u{e9}"), "\u{e9}t\u{e9}");
    assert_eq!(title_case("z"), "Z");
    assert_eq!(truncate("hello", 5), "hello");
    assert_eq!(truncate("hello", 4), "hell...");
    assert_eq!(truncate("hello", 0), "...");
    assert_eq!(truncate("", 0), "");
    assert_eq!(truncate("h\u{e9}llo", 2), "h\u{e9}...");
}

#[test]
fn list_shows_one_view_at_a_time() {
    let mut model = Model::new(vec![pr(1, false), pr(2, true), pr(3, false), pr(4, true)]);
    assert_eq!(model.view_label(), "active");
    assert_eq!(model.filtered_indices(), vec![0, 2]);
    assert_eq!(model.selected_index(&[0, 2]), Some(0));
    model.toggle_view();
    assert_eq!(model.view_mode, ViewMode::Acknowledged);
    assert_eq!(model.view_label(), "acknowledged");
    assert_eq!(model.filtered_indices(), vec![1, 3]);
    model.cursor = 7;
    assert_eq!(model.selected_index(&[1, 3]), None);
    model.ensure_cursor_in_range(2);
    assert_eq!(model.cursor, 1);
    assert_eq!(model.selected_index(&[1, 3]), Some(3));
    model.ensure_cursor_in_range(0);
    assert_eq!(model.cursor, 0);
    model.cursor = 1;
    model.ensure_cursor_in_range(5);
    assert_eq!(model.cursor, 1);
    model.toggle_view();
    assert_eq!(model.cursor, 0);
    assert_eq!(model.view_mode, ViewMode::Active);
}

#[test]
fn cursor_moves_within_the_shown_rows() {
    let now = Timestamp::new(100, 0);
    let mut session = Session::new(vec![pr(1, false), pr(2, true), pr(3, false)]);
    assert!(is_nothing(&session.handle_key(Key::Up, now)));
    assert_eq!(session.model.cursor, 0);
    assert!(is_nothing(&session.handle_key(Key::Down, now)));
    assert_eq!(session.model.cursor, 1);
    assert!(is_nothing(&session.handle_key(Key::Char('j'), now)));
    assert_eq!(session.model.cursor, 1);
    assert!(is_nothing(&session.handle_key(Key::Char('k'), now)));
    assert_eq!(session.model.cursor, 0);
    session.model.cursor = 40;
    assert!(is_nothing(&session.handle_key(Key::Up, now)));
    assert_eq!(session.model.cursor, 0);
    let mut empty = Session::new(Vec::new());
    assert!(is_nothing(&empty.handle_key(Key::Down, now)));
    assert_eq!(empty.model.cursor, 0);
    assert!(is_nothing(&empty.handle_key(Key::Enter, now)));
    assert!(is_nothing(&empty.handle_key(Key::Char('a'), now)));
    assert!(is_nothing(&empty.handle_key(Key::Other, now)));
    assert!(is_nothing(&empty.handle_key(Key::Char('x'), now)));
    assert!(!empty.should_quit);
    assert!(is_nothing(&empty.handle_key(Key::Char('q'), now)));
    assert!(empty.should_quit);
}

#[test]
fn enter_opens_the_selected_page() {
    let now = Timestamp::new(100, 0);
    let mut session = Session::new(vec![pr(1, true), pr(2, false), pr(3, false)]);
    session.model.cursor = 1;
    match session.handle_key(Key::Enter, now) {
        Effect::OpenUrl(url) => assert_eq!(url, "https://github.com/org/repo/pull/3"),
        _ => panic!("a page is to be opened"),
    }
    match session.handle_key(Key::Char(' '), now) {
        Effect::OpenUrl(url) => assert_eq!(url, "https://github.com/org/repo/pull/3"),
        _ => panic!("a page is to be opened"),
    }
}

#[test]
fn acknowledging_moves_a_record_to_the_other_view() {
    let now = Timestamp::new(100, 0);
    let mut session = Session::new(vec![pr(1, false), pr(2, false)]);
    session.model.cursor = 1;
    match session.handle_key(Key::Char('a'), now) {
        Effect::SavePullRequest(saved) => {
            assert_eq!(
                saved,
                PullRequest {
                    last_acknowledged_at: Some(now),
                    ..pr(2, false)
                }
            );
        }
        _ => panic!("a record is to be saved"),
    }
    assert_eq!(session.model.prs[1].last_acknowledged_at, Some(now));
    assert_eq!(session.model.prs[0].last_acknowledged_at, None);
    assert_eq!(session.model.filtered_indices(), vec![0]);
    assert_eq!(session.model.cursor, 0);
    assert!(is_nothing(&session.handle_key(Key::Char('v'), now)));
    assert_eq!(session.model.filtered_indices(), vec![1]);
}

#[test]
fn a_second_job_is_turned_down() {
    let now = Timestamp::new(100, 0);
    let mut session = Session::new(vec![pr(1, false)]);
    assert!(matches!(
        session.handle_key(Key::Char('s'), now),
        Effect::StartFullSync
    ));
    assert_eq!(session.active_job, Some(BackgroundJob::FullSync));
    for key in ['s', 'r', 't'] {
        assert!(is_nothing(&session.handle_key(Key::Char(key), now)));
        assert_eq!(session.active_job, Some(BackgroundJob::FullSync));
        assert_eq!(session.model.screen, Screen::PrList);
    }
    session.frame_drawn();
    session.frame_drawn();
    assert_eq!(session.spinner_tick, 2);
    assert!(is_nothing(&session.handle_message(BackgroundMessage::Progress)));
    assert_eq!(session.active_job, Some(BackgroundJob::FullSync));
    assert_eq!(session.spinner_tick, 2);
    let done = BackgroundMessage::FullSyncFinished(Ok(SyncRunSummary::default()));
    assert!(matches!(
        session.handle_message(done),
        Effect::ReloadPullRequests
    ));
    assert_eq!(session.active_job, None);
    assert_eq!(session.spinner_tick, 0);
    session.frame_drawn();
    assert_eq!(session.spinner_tick, 0);
    session.model.cursor = 3;
    session.pull_requests_loaded(vec![pr(7, false), pr(8, true), pr(9, false)]);
    assert_eq!(session.model.prs.len(), 3);
    assert_eq!(session.model.cursor, 1);
    assert!(matches!(
        session.handle_key(Key::Char('r'), now),
        Effect::StartQuickRefresh
    ));
    assert_eq!(session.active_job, Some(BackgroundJob::QuickRefresh));
    let failed = BackgroundMessage::QuickRefreshFinished(Err(TrackerError::NotAuthenticated));
    assert!(matches!(
        session.handle_message(failed),
        Effect::ReloadPullRequests
    ));
    assert_eq!(session.active_job, None);
}

#[test]
fn busy_indicator_wraps_around() {
    let mut session = Session::new(Vec::new());
    session.active_job = Some(BackgroundJob::QuickRefresh);
    session.spinner_tick = usize::MAX;
    session.frame_drawn();
    assert_eq!(session.spinner_tick, 0);
}

#[test]
fn teams_fetch_fills_the_authors_screen() {
    let now = Timestamp::new(100, 0);
    let mut session = Session::new(vec![pr(1, false)]);
    assert!(matches!(
        session.handle_key(Key::Char('t'), now),
        Effect::StartTeamsFetch
    ));
    assert_eq!(session.model.screen, Screen::AuthorsFromTeams);
    assert_eq!(session.active_job, Some(BackgroundJob::TeamsFetch));
    assert!(session.model.authors_screen.loading);
    assert!(is_nothing(&session.handle_key(Key::Char('x'), now)));
    assert_eq!(session.model.authors_screen.search_query, "");
    assert!(is_nothing(&session.handle_key(Key::Esc, now)));
    assert_eq!(session.model.screen, Screen::PrList);
    assert_eq!(session.active_job, Some(BackgroundJob::TeamsFetch));
    session.model.screen = Screen::AuthorsFromTeams;
    session.model.authors_screen.tracked_cursor = 9;
    session.model.authors_screen.untracked_cursor = 9;
    let payload = TeamsPayload {
        tracked_authors: names(&["bob"]),
        untracked_authors: names(&["alice", "carol"]),
    };
    session.handle_message(BackgroundMessage::TeamsFetchFinished(Ok(payload)));
    let screen = &session.model.authors_screen;
    assert!(!screen.loading);
    assert_eq!(screen.error, None);
    assert_eq!(screen.tracked_authors, names(&["bob"]));
    assert_eq!(screen.untracked_authors, names(&["alice", "carol"]));
    assert_eq!(screen.tracked_cursor, 0);
    assert_eq!(screen.untracked_cursor, 1);
    assert_eq!(session.active_job, None);
    let mut failing = Session::new(Vec::new());
    failing.handle_key(Key::Char('t'), now);
    failing.handle_message(BackgroundMessage::TeamsFetchFinished(Err(
        TrackerError::NotAuthenticated,
    )));
    assert!(!failing.model.authors_screen.loading);
    assert_eq!(
        failing.model.authors_screen.error,
        Some("no authenticated user found, run 'cli auth <token>' first".to_string())
    );
    assert_eq!(failing.active_job, None);
}

#[test]
fn search_is_typed_and_erased() {
    let now = Timestamp::new(100, 0);
    let mut session = loaded_authors();
    session.model.authors_screen.untracked_cursor = 2;
    for c in ['a', 'l', 'i', 'q'] {
        assert!(is_nothing(&session.handle_key(Key::Char(c), now)));
    }
    assert_eq!(session.model.authors_screen.search_query, "aliq");
    assert_eq!(session.model.authors_screen.untracked_cursor, 0);
    assert_eq!(session.model.screen, Screen::AuthorsFromTeams);
    assert!(is_nothing(&session.handle_key(Key::Backspace, now)));
    assert_eq!(session.model.authors_screen.search_query, "ali");
    assert!(is_nothing(&session.handle_key(Key::Char('k'), now)));
    assert!(is_nothing(&session.handle_key(Key::Char('j'), now)));
    assert_eq!(session.model.authors_screen.search_query, "ali");
    assert_eq!(session.model.authors_screen.untracked_cursor, 1);
    assert!(is_nothing(&session.handle_key(Key::Down, now)));
    assert_eq!(session.model.authors_screen.untracked_cursor, 1);
    assert!(is_nothing(&session.handle_key(Key::Esc, now)));
    assert_eq!(session.model.authors_screen.search_query, "");
    assert_eq!(session.model.authors_screen.untracked_cursor, 0);
    assert_eq!(session.model.screen, Screen::AuthorsFromTeams);
    assert!(is_nothing(&session.handle_key(Key::Backspace, now)));
    assert_eq!(session.model.authors_screen.search_query, "");
    assert!(is_nothing(&session.handle_key(Key::Esc, now)));
    assert_eq!(session.model.screen, Screen::PrList);
    session.model.screen = Screen::AuthorsFromTeams;
    assert!(is_nothing(&session.handle_key(Key::Char('q'), now)));
    assert_eq!(session.model.screen, Screen::PrList);
}

#[test]
fn focus_and_cursors_of_the_authors_screen() {
    let now = Timestamp::new(100, 0);
    let mut session = loaded_authors();
    assert_eq!(session.model.authors_screen.focus, AuthorsPane::UntrackedList);
    session.handle_key(Key::Down, now);
    session.handle_key(Key::Down, now);
    session.handle_key(Key::Down, now);
    assert_eq!(session.model.authors_screen.untracked_cursor, 2);
    session.handle_key(Key::Up, now);
    assert_eq!(session.model.authors_screen.untracked_cursor, 1);
    session.handle_key(Key::Tab, now);
    assert_eq!(session.model.authors_screen.focus, AuthorsPane::TrackedList);
    session.handle_key(Key::Up, now);
    assert_eq!(session.model.authors_screen.tracked_cursor, 0);
    session.handle_key(Key::Down, now);
    session.handle_key(Key::Down, now);
    assert_eq!(session.model.authors_screen.tracked_cursor, 1);
    assert_eq!(session.model.authors_screen.untracked_cursor, 1);
    session.handle_key(Key::Tab, now);
    assert_eq!(session.model.authors_screen.focus, AuthorsPane::UntrackedList);
    assert!(is_nothing(&session.handle_key(Key::Other, now)));
}

#[test]
fn choosing_a_row_tracks_or_untracks_it() {
    let now = Timestamp::new(100, 0);
    let mut session = loaded_authors();
    session.handle_key(Key::Down, now);
    match session.handle_key(Key::Enter, now) {
        Effect::SaveTrackedAuthor(login) => assert_eq!(login, "alicia"),
        _ => panic!("an author is to be saved"),
    }
    assert_eq!(
        session.model.authors_screen.tracked_authors,
        names(&["alicia", "bob", "dan"])
    );
    assert_eq!(
        session.model.authors_screen.untracked_authors,
        names(&["alice", "carol"])
    );
    assert_eq!(session.model.authors_screen.untracked_cursor, 1);
    session.handle_key(Key::Tab, now);
    session.handle_key(Key::Down, now);
    session.handle_key(Key::Down, now);
    match session.handle_key(Key::Char(' '), now) {
        Effect::DeleteTrackedAuthor(login) => assert_eq!(login, "dan"),
        _ => panic!("an author is to be deleted"),
    }
    assert_eq!(
        session.model.authors_screen.tracked_authors,
        names(&["alicia", "bob"])
    );
    assert_eq!(
        session.model.authors_screen.untracked_authors,
        names(&["alice", "carol", "dan"])
    );
    assert_eq!(session.model.authors_screen.tracked_cursor, 1);
    session.model.authors_screen.tracked_authors.clear();
    session.model.authors_screen.tracked_cursor = 0;
    assert!(is_nothing(&session.handle_key(Key::Enter, now)));
}

#[test]
fn choosing_a_searched_row_moves_the_right_one() {
    let now = Timestamp::new(100, 0);
    let mut session = loaded_authors();
    for c in ['c', 'a', 'r'] {
        session.handle_key(Key::Char(c), now);
    }
    match session.handle_key(Key::Enter, now) {
        Effect::SaveTrackedAuthor(login) => assert_eq!(login, "carol"),
        _ => panic!("an author is to be saved"),
    }
    assert_eq!(session.model.authors_screen.search_query, "");
    assert_eq!(
        session.model.authors_screen.untracked_authors,
        names(&["alice", "alicia"])
    );
    assert_eq!(
        session.model.authors_screen.tracked_authors,
        names(&["bob", "carol", "dan"])
    );
}

#[test]
fn search_ranks_matches_by_score() {
    let list = names(&["xaxbxc", "abc", "zzz", "ABC", "abd", "a-b-c"]);
    assert_eq!(filtered_list(&list, ""), vec![0, 1, 2, 3, 4, 5]);
    let matcher = SkimMatcherV2::default();
    let mut expected: Vec<(i64, usize)> = list
        .iter()
        .enumerate()
        .filter_map(|(i, login)| matcher.fuzzy_match(login, "abc").map(|score| (score, i)))
        .collect();
    expected.sort_by(|a, b| b.0.cmp(&a.0));
    let expected: Vec<usize> = expected.into_iter().map(|(_, i)| i).collect();
    let ranked = filtered_list(&list, "abc");
    assert_eq!(ranked, expected);
    assert!(ranked.contains(&1));
    assert!(!ranked.contains(&2));
    assert!(!ranked.contains(&4));
    assert_ne!(ranked, vec![0, 1, 3, 5]);
    assert_eq!(filtered_list(&list, "zzzz"), Vec::<usize>::new());
    assert_eq!(filtered_list(&[].to_vec(), "a"), Vec::<usize>::new());
    let state = AuthorsScreenState::new();
    assert!(state.loading);
    assert_eq!(state.focus, AuthorsPane::UntrackedList);
    assert_eq!(state.filtered_list(&list), vec![0, 1, 2, 3, 4, 5]);
}

#[test]
fn equal_scores_keep_list_order() {
    let list = names(&["abc", "abc", "xabc", "abc"]);
    let ranked = filtered_list(&list, "abc");
    assert_eq!(ranked.len(), 4);
    let firsts: Vec<usize> = ranked.iter().copied().filter(|i| *i != 2).collect();
    assert_eq!(firsts, vec![0, 1, 3]);
}

#[test]
fn cursors_are_clamped_into_their_lists() {
    let mut state = AuthorsScreenState::new();
    state.tracked_authors = names(&["a", "b"]);
    state.tracked_cursor = 5;
    state.untracked_cursor = 5;
    state.clamp_cursors();
    assert_eq!(state.tracked_cursor, 1);
    assert_eq!(state.untracked_cursor, 0);
    state.tracked_cursor = 1;
    state.clamp_cursors();
    assert_eq!(state.tracked_cursor, 1);
}

#[test]
fn team_members_are_offered_once() {
    let members = names(&["Carol", "alice", "ME", "carol", "bob", "Dave", "ALICE", "erin"]);
    let tracked_authors = names(&["BOB", "zed"]);
    assert_eq!(
        select_untracked_members(&members, "me", &tracked_authors),
        names(&["Carol", "alice", "Dave", "erin"])
    );
    assert_eq!(
        select_candidates(&members, "me", &tracked_authors),
        names(&["Carol", "alice", "carol", "Dave", "ALICE", "erin"])
    );
    assert_eq!(
        select_candidates(&names(&["a", "b", "a", "A"]), "x", &[]),
        names(&["a", "b", "A"])
    );
    assert_eq!(select_untracked_members(&[], "me", &tracked_authors), Vec::<String>::new());
    let payload = build_teams_payload(tracked_authors, "me", &members);
    assert_eq!(payload.tracked_authors, names(&["BOB", "zed"]));
    assert_eq!(payload.untracked_authors, names(&["Carol", "Dave", "alice", "erin"]));
    let sorted = build_teams_payload(names(&["b", "a", "B", "\u{e9}", "ab", ""]), "me", &[]);
    assert_eq!(sorted.tracked_authors, names(&["", "B", "a", "ab", "b", "\u{e9}"]));
    assert_eq!(sorted.untracked_authors, Vec::<String>::new());
}

#[test]
fn chosen_positions_become_logins() {
    let offered = names(&["a", "b", "c"]);
    assert_eq!(selected_logins(&offered, &[2, 0]), names(&["c", "a"]));
    assert_eq!(selected_logins(&offered, &[1, 1]), names(&["b", "b"]));
    assert_eq!(selected_logins(&offered, &[]), Vec::<String>::new());
}
