//! The state of the interactive front end and how keys and the messages of
//! background jobs change it. Drawing and the reading of keys are left to
//! the caller, which also carries out the effects that a change asks for.

use vstd::prelude::*;
use crate::error::TrackerError;
use crate::models::{CiStatus, PullRequest, PullRequestView};
use crate::sync::{QuickRefreshSummary, SyncRunSummary};
use crate::reconcile::views;
use crate::text::{
    ascii_upper, chars_of, is_sorted, pop_char, push_char, push_text, sort_strings, string_of,
    to_ascii_upper,
};
use crate::time::Timestamp;

verus! {

/// Which pull requests the list shows.
#[derive(Debug, Clone, Copy, PartialEq, Eq, Structural)]
pub enum ViewMode {
    Active,
    Acknowledged,
}

/// A job that runs beside the front end.
#[derive(Debug, Clone, Copy, PartialEq, Eq, Structural)]
pub enum BackgroundJob {
    FullSync,
    QuickRefresh,
    TeamsFetch,
}

/// Which screen is shown.
#[derive(Debug, Clone, Copy, PartialEq, Eq, Structural)]
pub enum Screen {
    PrList,
    AuthorsFromTeams,
}

/// Which list of the authors screen takes the keys.
#[derive(Debug, Clone, Copy, PartialEq, Eq, Structural)]
pub enum AuthorsPane {
    TrackedList,
    UntrackedList,
}

/// A key, as far as the front end tells keys apart.
#[derive(Debug, Clone, Copy, PartialEq, Eq, Structural)]
pub enum Key {
    Char(char),
    Up,
    Down,
    Enter,
    Esc,
    Tab,
    Backspace,
    Other,
}

pub fn background_job_label(job: BackgroundJob) -> (label: &'static str)
    ensures
        label@ == match job {
            BackgroundJob::FullSync => "sync"@,
            BackgroundJob::QuickRefresh => "refresh"@,
            BackgroundJob::TeamsFetch => "fetching teams"@,
        },
{
    match job {
        BackgroundJob::FullSync => "sync",
        BackgroundJob::QuickRefresh => "refresh",
        BackgroundJob::TeamsFetch => "fetching teams",
    }
}

pub fn ci_label(status: CiStatus) -> (label: &'static str)
    ensures
        label@ == match status {
            CiStatus::Pending => "pending"@,
            CiStatus::Success => "success"@,
            CiStatus::Failure => "failure"@,
        },
{
    match status {
        CiStatus::Pending => "pending",
        CiStatus::Success => "success",
        CiStatus::Failure => "failure",
    }
}

/// The frame of the busy indicator at a tick: `|`, `/`, `-`, `\` in turn.
pub open spec fn spinner_at(tick: usize) -> char {
    if tick % 4 == 0 {
        '|'
    } else if tick % 4 == 1 {
        '/'
    } else if tick % 4 == 2 {
        '-'
    } else {
        '\\'
    }
}

pub fn spinner_frame(tick: usize) -> (frame: char)
    ensures
        frame == spinner_at(tick),
{
    let phase = tick % 4;
    if phase == 0 {
        '|'
    } else if phase == 1 {
        '/'
    } else if phase == 2 {
        '-'
    } else {
        '\\'
    }
}

/// A text with its first character in ASCII uppercase.
pub open spec fn title_cased(value: Seq<char>) -> Seq<char> {
    if value.len() == 0 {
        value
    } else {
        seq![ascii_upper(value[0])] + value.drop_first()
    }
}

pub fn title_case(value: &str) -> (out: String)
    ensures
        out@ == title_cased(value@),
{
    let chars = chars_of(value);
    let mut out = String::new();
    if chars.len() == 0 {
        return out;
    }
    push_char(&mut out, to_ascii_upper(chars[0]));
    let rest = string_of(&chars, 1, chars.len());
    push_text(&mut out, rest.as_str());
    out
}

/// A text cut to its first `max_chars` characters, with `...` behind them
/// where something was cut off.
pub open spec fn truncated(value: Seq<char>, max_chars: usize) -> Seq<char> {
    if value.len() > max_chars {
        value.take(max_chars as int) + "..."@
    } else {
        value
    }
}

pub fn truncate(value: &str, max_chars: usize) -> (out: String)
    ensures
        out@ == truncated(value@, max_chars),
{
    let chars = chars_of(value);
    if chars.len() > max_chars {
        let mut out = string_of(&chars, 0, max_chars);
        push_text(&mut out, "...");
        out
    } else {
        let out = string_of(&chars, 0, chars.len());
        out
    }
}

/// A cursor moved back into a list of `len` rows: onto the last row where
/// it stood behind it, and to the top where the list is empty.
pub open spec fn clamped(cursor: usize, len: usize) -> usize {
    if len == 0 {
        0
    } else if cursor >= len {
        (len - 1) as usize
    } else {
        cursor
    }
}

fn clamp(cursor: usize, len: usize) -> (r: usize)
    ensures
        r == clamped(cursor, len),
{
    if len == 0 {
        0
    } else if cursor >= len {
        len - 1
    } else {
        cursor
    }
}

/// Whether a view shows a record: the active view shows what is not
/// acknowledged, the other view what is.
pub open spec fn shown(view_mode: ViewMode, record: PullRequestView) -> bool {
    match view_mode {
        ViewMode::Active => !record.is_acknowledged(),
        ViewMode::Acknowledged => record.is_acknowledged(),
    }
}

/// The positions of the records that a view shows, in ascending order.
pub open spec fn shown_positions(prs: Seq<PullRequestView>, view_mode: ViewMode) -> Seq<usize> {
    Seq::new(prs.len(), |i: int| i as usize).filter(|i: usize| shown(view_mode, prs[i as int]))
}

/// The position in `prs` of the row under the cursor.
pub open spec fn selected(positions: Seq<usize>, cursor: usize) -> Option<usize> {
    if cursor < positions.len() {
        Some(positions[cursor as int])
    } else {
        None
    }
}

/// Every shown position is a position of the list.
pub proof fn lemma_shown_positions(prs: Seq<PullRequestView>, view_mode: ViewMode, k: int)
    requires
        0 <= k < shown_positions(prs, view_mode).len(),
    ensures
        shown_positions(prs, view_mode)[k] < prs.len(),
        shown(view_mode, prs[shown_positions(prs, view_mode)[k] as int]),
        shown_positions(prs, view_mode).len() <= prs.len(),
{
    let all = Seq::new(prs.len(), |i: int| i as usize);
    let keep = |i: usize| shown(view_mode, prs[i as int]);
    let at = all.filter(keep)[k];
    all.lemma_filter_contains_rev(keep, at);
}

/// The score that `fuzzy_matcher`'s skim matcher, in its default setting,
/// gives a choice for a pattern; `None` where the choice does not match.
pub uninterp spec fn skim_score(choice: Seq<char>, pattern: Seq<char>) -> Option<i64>;

/// Calls `fuzzy_match` of `fuzzy_matcher::skim::SkimMatcherV2::default()`.
/// The contract names the result: the matcher keeps nothing between calls
/// but scratch memory, so the score depends on the two texts alone.
#[verifier::external_body]
fn fuzzy_score(choice: &str, pattern: &str) -> (r: Option<i64>)
    ensures
        r == skim_score(choice@, pattern@),
{
    fuzzy_matcher::FuzzyMatcher::fuzzy_match(
        &fuzzy_matcher::skim::SkimMatcherV2::default(),
        choice,
        pattern,
    )
}

/// Whether the row at position `i` of `list` comes before the row at
/// position `j` in a search: it has the higher score, or the same score
/// and the earlier position.
pub open spec fn ranks_before(list: Seq<Seq<char>>, query: Seq<char>, i: usize, j: usize) -> bool {
    let a = skim_score(list[i as int], query);
    let b = skim_score(list[j as int], query);
    a is Some && b is Some && (a->0 > b->0 || (a->0 == b->0 && i < j))
}

/// Whether the positions `out` are rows of `list` in search order.
pub open spec fn is_ranked(list: Seq<Seq<char>>, query: Seq<char>, out: Seq<usize>) -> bool {
    forall|a: int, b: int|
        0 <= a < b < out.len() ==> ranks_before(list, query, #[trigger] out[a], #[trigger] out[b])
}

/// Whether `out` is the result of searching `list` for `query`: the
/// positions of the rows that match, best score first and rows of the same
/// score in list order.
pub open spec fn is_ranking(list: Seq<Seq<char>>, query: Seq<char>, out: Seq<usize>) -> bool {
    &&& forall|k: int|
        0 <= k < out.len() ==> (#[trigger] out[k]) < list.len() && skim_score(
            list[out[k] as int],
            query,
        ) is Some
    &&& forall|i: int|
        0 <= i < list.len() && skim_score(#[trigger] list[i], query) is Some ==> out.contains(
            i as usize,
        )
    &&& is_ranked(list, query, out)
}

/// Whether `out` lists the rows of `list` that a search query leaves: all
/// rows in list order for the empty query, else the ranking of the matches.
pub open spec fn is_filtered_list(list: Seq<Seq<char>>, query: Seq<char>, out: Seq<usize>) -> bool {
    if query.len() == 0 {
        out == Seq::new(list.len(), |i: int| i as usize)
    } else {
        is_ranking(list, query, out)
    }
}

/// Two lists of positions in search order that hold the same positions
/// are the same list.
pub proof fn lemma_ranked_lists_agree(
    list: Seq<Seq<char>>,
    query: Seq<char>,
    first: Seq<usize>,
    second: Seq<usize>,
)
    requires
        is_ranked(list, query, first),
        is_ranked(list, query, second),
        forall|x: usize| first.contains(x) <==> second.contains(x),
    ensures
        first == second,
    decreases first.len(),
{
    if first.len() == 0 {
        if second.len() > 0 {
            assert(second.contains(second[0]));
        }
        assert(first =~= second);
    } else if second.len() == 0 {
        assert(first.contains(first[0]));
    } else {
        assert(first.contains(first[0]));
        assert(second.contains(second[0]));
        let j = choose|j: int| 0 <= j < second.len() && second[j] == first[0];
        let i = choose|i: int| 0 <= i < first.len() && first[i] == second[0];
        if j > 0 {
            assert(ranks_before(list, query, second[0], second[j]));
            if i > 0 {
                assert(ranks_before(list, query, first[0], first[i]));
            }
        }
        assert(first[0] == second[0]);
        let rest = first.drop_first();
        let other = second.drop_first();
        assert forall|a: int, b: int| 0 <= a < b < rest.len() implies ranks_before(
            list,
            query,
            #[trigger] rest[a],
            #[trigger] rest[b],
        ) by {
            assert(ranks_before(list, query, first[a + 1], first[b + 1]));
        }
        assert forall|a: int, b: int| 0 <= a < b < other.len() implies ranks_before(
            list,
            query,
            #[trigger] other[a],
            #[trigger] other[b],
        ) by {
            assert(ranks_before(list, query, second[a + 1], second[b + 1]));
        }
        assert forall|x: usize| rest.contains(x) <==> other.contains(x) by {
            if rest.contains(x) {
                let k = choose|k: int| 0 <= k < rest.len() && rest[k] == x;
                assert(first[k + 1] == x);
                assert(ranks_before(list, query, first[0], first[k + 1]));
                assert(first.contains(x));
                let m = choose|m: int| 0 <= m < second.len() && second[m] == x;
                assert(m > 0);
                assert(other[m - 1] == x);
            }
            if other.contains(x) {
                let k = choose|k: int| 0 <= k < other.len() && other[k] == x;
                assert(second[k + 1] == x);
                assert(ranks_before(list, query, second[0], second[k + 1]));
                assert(second.contains(x));
                let m = choose|m: int| 0 <= m < first.len() && first[m] == x;
                assert(m > 0);
                assert(rest[m - 1] == x);
            }
        }
        lemma_ranked_lists_agree(list, query, rest, other);
        assert(first =~= seq![first[0]] + rest);
        assert(second =~= seq![second[0]] + other);
    }
}

/// A search has one result: the rows that a query leaves, and their
/// order, are determined by the list and the query.
pub proof fn law_filtered_list_is_unique(
    list: Seq<Seq<char>>,
    query: Seq<char>,
    first: Seq<usize>,
    second: Seq<usize>,
)
    requires
        is_filtered_list(list, query, first),
        is_filtered_list(list, query, second),
    ensures
        first == second,
{
    if query.len() > 0 {
        assert forall|x: usize| first.contains(x) <==> second.contains(x) by {
            if first.contains(x) {
                let k = choose|k: int| 0 <= k < first.len() && first[k] == x;
                assert(skim_score(list[first[k] as int], query) is Some);
                assert(second.contains(x as int as usize));
            }
            if second.contains(x) {
                let k = choose|k: int| 0 <= k < second.len() && second[k] == x;
                assert(skim_score(list[second[k] as int], query) is Some);
                assert(first.contains(x as int as usize));
            }
        }
        lemma_ranked_lists_agree(list, query, first, second);
    }
}

/// The positions of the rows of `list` that the search query `query`
/// leaves, in the order they are shown.
pub fn filtered_list(list: &Vec<String>, query: &str) -> (out: Vec<usize>)
    ensures
        is_filtered_list(list.deep_view(), query@, out@),
{
    let ghost rows = list.deep_view();
    let mut out: Vec<usize> = Vec::new();
    if query.is_empty() {
        let mut i: usize = 0;
        while i < list.len()
            invariant
                i <= list.len(),
                out.len() == i,
                forall|k: int| 0 <= k < i ==> out@[k] == k as usize,
            decreases list.len() - i,
        {
            out.push(i);
            i += 1;
        }
        assert(out@ =~= Seq::new(rows.len(), |i: int| i as usize));
        return out;
    }
    let mut scores: Vec<i64> = Vec::new();
    let mut i: usize = 0;
    while i < list.len()
        invariant
            i <= list.len(),
            rows == list.deep_view(),
            out.len() == scores.len(),
            forall|k: int|
                0 <= k < out.len() ==> (#[trigger] out@[k]) < i && skim_score(
                    rows[out@[k] as int],
                    query@,
                ) == Some(scores@[k]),
            forall|j: int|
                0 <= j < i && skim_score(#[trigger] rows[j], query@) is Some ==> out@.contains(
                    j as usize,
                ),
            forall|a: int, b: int|
                0 <= a < b < out.len() ==> ranks_before(
                    rows,
                    query@,
                    #[trigger] out@[a],
                    #[trigger] out@[b],
                ),
        decreases list.len() - i,
    {
        match fuzzy_score(list[i].as_str(), query) {
            None => {
                assert(rows[i as int] == list@[i as int]@);
            },
            Some(score) => {
                assert(rows[i as int] == list@[i as int]@);
                let mut at: usize = out.len();
                while at > 0 && scores[at - 1] < score
                    invariant
                        at <= out.len(),
                        out.len() == scores.len(),
                        forall|k: int| at <= k < out.len() ==> scores@[k] < score,
                    decreases at,
                {
                    at -= 1;
                }
                let ghost before = out@;
                let ghost before_scores = scores@;
                proof {
                    before.insert_ensures(at as int, i);
                    before_scores.insert_ensures(at as int, score);
                    assert forall|k: int| 0 <= k < at implies before_scores[k] >= score by {
                        if k < at - 1 {
                            assert(ranks_before(rows, query@, before[k], before[at - 1]));
                        }
                    }
                }
                out.insert(at, i);
                scores.insert(at, score);
                proof {
                    let after = out@;
                    assert forall|k: int| 0 <= k < after.len() implies (#[trigger] after[k]) < i + 1
                        && skim_score(rows[after[k] as int], query@) == Some(scores@[k]) by {
                        if k < at {
                            assert(after[k] == before[k]);
                        } else if k > at {
                            assert(after[k] == before[k - 1]);
                            assert(scores@[k] == before_scores[k - 1]);
                        }
                    }
                    assert forall|j: int|
                        0 <= j < i + 1 && skim_score(
                            #[trigger] rows[j],
                            query@,
                        ) is Some implies after.contains(j as usize) by {
                        if j < i {
                            assert(before.contains(j as usize));
                            let k = choose|k: int| 0 <= k < before.len() && before[k] == j as usize;
                            if k < at {
                                assert(after[k] == j as usize);
                            } else {
                                assert(after[k + 1] == j as usize);
                            }
                        } else {
                            assert(after[at as int] == j as usize);
                        }
                    }
                    assert forall|a: int, b: int| 0 <= a < b < after.len() implies ranks_before(
                        rows,
                        query@,
                        #[trigger] after[a],
                        #[trigger] after[b],
                    ) by {
                        let ia = if a < at {
                            a
                        } else {
                            a - 1
                        };
                        let ib = if b < at {
                            b
                        } else {
                            b - 1
                        };
                        if a != at {
                            assert(after[a] == before[ia]);
                            assert(scores@[a] == before_scores[ia]);
                        }
                        if b != at {
                            assert(after[b] == before[ib]);
                            assert(scores@[b] == before_scores[ib]);
                        }
                        if a != at && b != at {
                            assert(ranks_before(rows, query@, before[ia], before[ib]));
                        }
                    }
                }
            },
        }
        i += 1;
    }
    out
}

/// The authors screen: the tracked authors, the team members that are not
/// tracked, and the search that narrows both lists.
#[derive(Debug)]
pub struct AuthorsScreenState {
    pub tracked_authors: Vec<String>,
    pub untracked_authors: Vec<String>,
    pub focus: AuthorsPane,
    pub tracked_cursor: usize,
    pub untracked_cursor: usize,
    pub loading: bool,
    pub error: Option<String>,
    pub search_query: String,
}

/// The mathematical content of an [`AuthorsScreenState`].
pub struct AuthorsScreenView {
    pub tracked_authors: Seq<Seq<char>>,
    pub untracked_authors: Seq<Seq<char>>,
    pub focus: AuthorsPane,
    pub tracked_cursor: usize,
    pub untracked_cursor: usize,
    pub loading: bool,
    pub error: Option<Seq<char>>,
    pub search_query: Seq<char>,
}

impl View for AuthorsScreenState {
    type V = AuthorsScreenView;

    open spec fn view(&self) -> AuthorsScreenView {
        AuthorsScreenView {
            tracked_authors: self.tracked_authors.deep_view(),
            untracked_authors: self.untracked_authors.deep_view(),
            focus: self.focus,
            tracked_cursor: self.tracked_cursor,
            untracked_cursor: self.untracked_cursor,
            loading: self.loading,
            error: match self.error {
                Some(text) => Some(text@),
                None => None,
            },
            search_query: self.search_query@,
        }
    }
}

impl AuthorsScreenView {
    /// The screen while the team members are being fetched.
    pub open spec fn loading() -> AuthorsScreenView {
        AuthorsScreenView {
            tracked_authors: Seq::empty(),
            untracked_authors: Seq::empty(),
            focus: AuthorsPane::UntrackedList,
            tracked_cursor: 0,
            untracked_cursor: 0,
            loading: true,
            error: None,
            search_query: Seq::empty(),
        }
    }

    /// The screen with both cursors moved back into their lists.
    pub open spec fn clamp_cursors(self) -> AuthorsScreenView {
        AuthorsScreenView {
            tracked_cursor: clamped(self.tracked_cursor, self.tracked_authors.len() as usize),
            untracked_cursor: clamped(self.untracked_cursor, self.untracked_authors.len() as usize),
            ..self
        }
    }

    /// The screen with both cursors at the top.
    pub open spec fn cursors_reset(self) -> AuthorsScreenView {
        AuthorsScreenView { tracked_cursor: 0, untracked_cursor: 0, ..self }
    }

    /// The list that takes the keys.
    pub open spec fn focused_list(self) -> Seq<Seq<char>> {
        match self.focus {
            AuthorsPane::TrackedList => self.tracked_authors,
            AuthorsPane::UntrackedList => self.untracked_authors,
        }
    }

    /// The cursor of the list that takes the keys.
    pub open spec fn focused_cursor(self) -> usize {
        match self.focus {
            AuthorsPane::TrackedList => self.tracked_cursor,
            AuthorsPane::UntrackedList => self.untracked_cursor,
        }
    }

    /// The screen with the cursor of the focused list at `cursor`.
    pub open spec fn with_focused_cursor(self, cursor: usize) -> AuthorsScreenView {
        match self.focus {
            AuthorsPane::TrackedList => AuthorsScreenView { tracked_cursor: cursor, ..self },
            AuthorsPane::UntrackedList => AuthorsScreenView { untracked_cursor: cursor, ..self },
        }
    }
}

impl AuthorsScreenState {
    pub fn new() -> (state: AuthorsScreenState)
        ensures
            state@ == AuthorsScreenView::loading(),
    {
        let state = AuthorsScreenState {
            tracked_authors: Vec::new(),
            untracked_authors: Vec::new(),
            focus: AuthorsPane::UntrackedList,
            tracked_cursor: 0,
            untracked_cursor: 0,
            loading: true,
            error: None,
            search_query: String::new(),
        };
        assert(state.untracked_authors.deep_view() =~= Seq::empty());
        state
    }

    pub fn clamp_cursors(&mut self)
        ensures
            final(self)@ == old(self)@.clamp_cursors(),
    {
        self.tracked_cursor = clamp(self.tracked_cursor, self.tracked_authors.len());
        self.untracked_cursor = clamp(self.untracked_cursor, self.untracked_authors.len());
    }

    /// The positions of the rows of `list` that the search leaves, in the
    /// order they are shown.
    pub fn filtered_list(&self, list: &Vec<String>) -> (out: Vec<usize>)
        ensures
            is_filtered_list(list.deep_view(), self@.search_query, out@),
    {
        filtered_list(list, self.search_query.as_str())
    }
}

/// The list of pull requests with its cursor, and the authors screen.
#[derive(Debug)]
pub struct Model {
    pub prs: Vec<PullRequest>,
    pub cursor: usize,
    pub view_mode: ViewMode,
    pub screen: Screen,
    pub authors_screen: AuthorsScreenState,
}

/// The mathematical content of a [`Model`].
pub struct ModelView {
    pub prs: Seq<PullRequestView>,
    pub cursor: usize,
    pub view_mode: ViewMode,
    pub screen: Screen,
    pub authors_screen: AuthorsScreenView,
}

impl View for Model {
    type V = ModelView;

    open spec fn view(&self) -> ModelView {
        ModelView {
            prs: views(self.prs@),
            cursor: self.cursor,
            view_mode: self.view_mode,
            screen: self.screen,
            authors_screen: self.authors_screen@,
        }
    }
}

impl ModelView {
    /// The model a session begins with: the active view of `prs`, with
    /// the cursor at the top.
    pub open spec fn first(prs: Seq<PullRequestView>) -> ModelView {
        ModelView {
            prs,
            cursor: 0,
            view_mode: ViewMode::Active,
            screen: Screen::PrList,
            authors_screen: AuthorsScreenView::loading(),
        }
    }

    /// The positions of the records that are shown.
    pub open spec fn positions(self) -> Seq<usize> {
        shown_positions(self.prs, self.view_mode)
    }

    /// The model with the cursor moved back into the rows that are shown.
    pub open spec fn in_range(self) -> ModelView {
        ModelView { cursor: clamped(self.cursor, self.positions().len() as usize), ..self }
    }

    /// The model with the cursor one row up, if there is a row above.
    pub open spec fn moved_up(self) -> ModelView {
        let at = self.in_range().cursor;
        ModelView {
            cursor: if at > 0 {
                (at - 1) as usize
            } else {
                at
            },
            ..self
        }
    }

    /// The model with the cursor one row down, if there is a row below.
    pub open spec fn moved_down(self) -> ModelView {
        let at = self.in_range().cursor;
        ModelView {
            cursor: if at + 1 < self.positions().len() {
                (at + 1) as usize
            } else {
                at
            },
            ..self
        }
    }

    /// The position in `prs` of the record under the cursor.
    pub open spec fn selection(self) -> Option<usize> {
        selected(self.positions(), self.in_range().cursor)
    }

    /// The record under the cursor, acknowledged at `now`.
    pub open spec fn acknowledged_record(self, now: Timestamp) -> PullRequestView {
        PullRequestView {
            last_acknowledged_at: Some(now),
            ..self.prs[self.selection()->0 as int]
        }
    }

    /// The model after the record under the cursor was acknowledged at
    /// `now`: the record carries the acknowledgement, and the cursor is
    /// moved back into the rows that are shown then.
    pub open spec fn acknowledged(self, now: Timestamp) -> ModelView {
        match self.selection() {
            Some(at) => ModelView {
                prs: self.prs.update(at as int, self.acknowledged_record(now)),
                ..self.in_range()
            }.in_range(),
            None => self.in_range(),
        }
    }

    /// The model showing the other view, with the cursor at the top.
    pub open spec fn toggled(self) -> ModelView {
        ModelView {
            view_mode: match self.view_mode {
                ViewMode::Active => ViewMode::Acknowledged,
                ViewMode::Acknowledged => ViewMode::Active,
            },
            cursor: 0,
            ..self
        }
    }

    /// The model with the records replaced by `prs` and the cursor moved
    /// back into the rows that are shown then.
    pub open spec fn reloaded(self, prs: Seq<PullRequestView>) -> ModelView {
        ModelView { prs, ..self }.in_range()
    }
}

impl Model {
    pub fn new(prs: Vec<PullRequest>) -> (model: Model)
        ensures
            model@ == ModelView::first(views(prs@)),
    {
        Model {
            prs,
            cursor: 0,
            view_mode: ViewMode::Active,
            screen: Screen::PrList,
            authors_screen: AuthorsScreenState::new(),
        }
    }

    /// The positions of the records that the view shows.
    pub fn filtered_indices(&self) -> (out: Vec<usize>)
        ensures
            out@ == self@.positions(),
            out.len() <= self.prs.len(),
            forall|k: int| 0 <= k < out.len() ==> (#[trigger] out@[k]) < self.prs.len(),
    {
        let ghost prs = views(self.prs@);
        let ghost all = Seq::new(prs.len(), |i: int| i as usize);
        let ghost keep = |i: usize| shown(self.view_mode, prs[i as int]);
        let mut out: Vec<usize> = Vec::new();
        let mut i: usize = 0;
        while i < self.prs.len()
            invariant
                i <= self.prs.len(),
                prs == views(self.prs@),
                all == Seq::new(prs.len(), |i: int| i as usize),
                keep == |i: usize| shown(self.view_mode, prs[i as int]),
                out@ == all.take(i as int).filter(keep),
            decreases self.prs.len() - i,
        {
            let acknowledged = self.prs[i].is_acknowledged();
            let visible = match self.view_mode {
                ViewMode::Active => !acknowledged,
                ViewMode::Acknowledged => acknowledged,
            };
            proof {
                let before = all.take(i as int);
                assert(all.take(i + 1) =~= before.push(i));
                before.lemma_filter_push(i, keep);
            }
            if visible {
                out.push(i);
            }
            i += 1;
        }
        proof {
            assert(all.take(self.prs.len() as int) =~= all);
            assert forall|k: int| 0 <= k < out.len() implies (#[trigger] out@[k])
                < self.prs.len() by {
                lemma_shown_positions(prs, self.view_mode, k);
            }
            all.lemma_filter_len(keep);
        }
        out
    }

    /// The position of the record under the cursor, given the positions
    /// that are shown.
    pub fn selected_index(&self, filtered_indices: &[usize]) -> (r: Option<usize>)
        ensures
            r == selected(filtered_indices@, self.cursor),
    {
        if self.cursor < filtered_indices.len() {
            Some(filtered_indices[self.cursor])
        } else {
            None
        }
    }

    /// Moves the cursor back into a list of `len` rows.
    pub fn ensure_cursor_in_range(&mut self, len: usize)
        ensures
            final(self)@ == (ModelView { cursor: clamped(old(self).cursor, len), ..old(self)@ }),
            final(self).prs == old(self).prs,
    {
        self.cursor = clamp(self.cursor, len);
    }

    /// Shows the other view, with the cursor at the top.
    pub fn toggle_view(&mut self)
        ensures
            final(self)@ == old(self)@.toggled(),
            final(self).prs == old(self).prs,
    {
        self.view_mode = match self.view_mode {
            ViewMode::Active => ViewMode::Acknowledged,
            ViewMode::Acknowledged => ViewMode::Active,
        };
        self.cursor = 0;
    }

    pub fn view_label(&self) -> (label: &'static str)
        ensures
            label@ == match self.view_mode {
                ViewMode::Active => "active"@,
                ViewMode::Acknowledged => "acknowledged"@,
            },
    {
        match self.view_mode {
            ViewMode::Active => "active",
            ViewMode::Acknowledged => "acknowledged",
        }
    }

    /// Moves the cursor one row up.
    pub fn move_up(&mut self)
        ensures
            final(self)@ == old(self)@.moved_up(),
    {
        let filtered_indices = self.filtered_indices();
        self.ensure_cursor_in_range(filtered_indices.len());
        if self.cursor > 0 {
            self.cursor -= 1;
        }
    }

    /// Moves the cursor one row down.
    pub fn move_down(&mut self)
        ensures
            final(self)@ == old(self)@.moved_down(),
    {
        let filtered_indices = self.filtered_indices();
        self.ensure_cursor_in_range(filtered_indices.len());
        if filtered_indices.len() > 0 && self.cursor < filtered_indices.len() - 1 {
            self.cursor += 1;
        }
    }

    /// The address of the page of the record under the cursor. The cursor
    /// is moved back into the rows that are shown.
    pub fn selected_url(&mut self) -> (url: Option<String>)
        ensures
            final(self)@ == old(self)@.in_range(),
            match url {
                Some(text) => old(self)@.selection() is Some && text@ == old(self)@.prs[old(
                    self,
                )@.selection()->0 as int].url(),
                None => old(self)@.selection() is None,
            },
    {
        let filtered_indices = self.filtered_indices();
        self.ensure_cursor_in_range(filtered_indices.len());
        match self.selected_index(filtered_indices.as_slice()) {
            Some(pr_index) => Some(self.prs[pr_index].url()),
            None => None,
        }
    }

    /// Acknowledges the record under the cursor at `now` and returns the
    /// record to save, if a record is under the cursor.
    pub fn acknowledge(&mut self, now: Timestamp) -> (saved: Option<PullRequest>)
        ensures
            final(self)@ == old(self)@.acknowledged(now),
            match saved {
                Some(record) => old(self)@.selection() is Some && record@ == old(
                    self,
                )@.acknowledged_record(now),
                None => old(self)@.selection() is None,
            },
    {
        let filtered_indices = self.filtered_indices();
        self.ensure_cursor_in_range(filtered_indices.len());
        match self.selected_index(filtered_indices.as_slice()) {
            Some(pr_index) => {
                let mut pr = self.prs[pr_index].clone();
                pr.last_acknowledged_at = Some(now);
                let saved = pr.clone();
                let ghost before = self.prs@;
                self.prs.set(pr_index, pr);
                proof {
                    assert(views(self.prs@) =~= views(before).update(pr_index as int, saved@));
                }
                let updated_filtered_indices = self.filtered_indices();
                self.ensure_cursor_in_range(updated_filtered_indices.len());
                Some(saved)
            },
            None => None,
        }
    }

    /// Replaces the records by what was read from storage.
    pub fn reload(&mut self, prs: Vec<PullRequest>)
        ensures
            final(self)@ == old(self)@.reloaded(views(prs@)),
    {
        self.prs = prs;
        let filtered_indices = self.filtered_indices();
        self.ensure_cursor_in_range(filtered_indices.len());
    }
}

impl AuthorsScreenView {
    /// The screen after a character was typed into the search.
    pub open spec fn typed(self, c: char) -> AuthorsScreenView {
        AuthorsScreenView { search_query: self.search_query.push(c), ..self }.cursors_reset()
    }

    /// The screen after the last character of the search was erased.
    pub open spec fn erased(self) -> AuthorsScreenView {
        AuthorsScreenView {
            search_query: if self.search_query.len() > 0 {
                self.search_query.drop_last()
            } else {
                self.search_query
            },
            ..self
        }.cursors_reset()
    }

    /// The screen after the search was cleared.
    pub open spec fn search_cleared(self) -> AuthorsScreenView {
        AuthorsScreenView { search_query: Seq::empty(), ..self }.cursors_reset()
    }

    /// The screen with the other list taking the keys.
    pub open spec fn focus_switched(self) -> AuthorsScreenView {
        AuthorsScreenView {
            focus: match self.focus {
                AuthorsPane::TrackedList => AuthorsPane::UntrackedList,
                AuthorsPane::UntrackedList => AuthorsPane::TrackedList,
            },
            ..self
        }
    }

    /// The screen with the cursor of the focused list one row up, if
    /// there is a row above.
    pub open spec fn cursor_up(self) -> AuthorsScreenView {
        if self.focused_cursor() > 0 {
            self.with_focused_cursor((self.focused_cursor() - 1) as usize)
        } else {
            self
        }
    }

    /// The screen with the cursor of the focused list one row down, if
    /// the `rows` rows that the search leaves have one below.
    pub open spec fn cursor_down(self, rows: nat) -> AuthorsScreenView {
        if self.focused_cursor() + 1 < rows {
            self.with_focused_cursor((self.focused_cursor() + 1) as usize)
        } else {
            self
        }
    }

    /// Whether `after` is the screen once the row at position `at` of the
    /// focused list went over to the other list: the row is gone from its
    /// list, the other list holds it too and is in ascending order, the
    /// search is cleared and both cursors are moved back into their lists.
    pub open spec fn row_moved(self, at: int, after: AuthorsScreenView) -> bool {
        let (from, to) = match self.focus {
            AuthorsPane::TrackedList => (self.tracked_authors, self.untracked_authors),
            AuthorsPane::UntrackedList => (self.untracked_authors, self.tracked_authors),
        };
        let (from_after, to_after) = match self.focus {
            AuthorsPane::TrackedList => (after.tracked_authors, after.untracked_authors),
            AuthorsPane::UntrackedList => (after.untracked_authors, after.tracked_authors),
        };
        &&& from_after == from.remove(at)
        &&& to_after.to_multiset() == to.push(from[at]).to_multiset()
        &&& is_sorted(to_after)
        &&& after == AuthorsScreenView {
            tracked_authors: after.tracked_authors,
            untracked_authors: after.untracked_authors,
            search_query: Seq::empty(),
            ..self
        }.clamp_cursors()
    }
}

/// Moves the row at position `at` of `from` over to `to`, puts `to` in
/// ascending order, and returns the login that was moved.
fn move_row(from: &mut Vec<String>, to: &mut Vec<String>, at: usize) -> (moved: String)
    requires
        at < old(from).len(),
    ensures
        moved@ == old(from).deep_view()[at as int],
        final(from).deep_view() == old(from).deep_view().remove(at as int),
        final(to).deep_view().to_multiset() == old(to).deep_view().push(moved@).to_multiset(),
        is_sorted(final(to).deep_view()),
{
    let ghost before = from.deep_view();
    let ghost target = to.deep_view();
    let login = from.remove(at);
    let moved = login.clone();
    to.push(login);
    assert(from.deep_view() =~= before.remove(at as int));
    assert(to.deep_view() =~= target.push(moved@));
    sort_strings(to);
    moved
}

impl AuthorsScreenState {
    fn reset_cursors(&mut self)
        ensures
            final(self)@ == old(self)@.cursors_reset(),
    {
        self.tracked_cursor = 0;
        self.untracked_cursor = 0;
    }

    /// Types a character into the search.
    pub fn type_char(&mut self, c: char)
        ensures
            final(self)@ == old(self)@.typed(c),
    {
        push_char(&mut self.search_query, c);
        self.reset_cursors();
    }

    /// Erases the last character of the search.
    pub fn erase_char(&mut self)
        ensures
            final(self)@ == old(self)@.erased(),
    {
        pop_char(&mut self.search_query);
        self.reset_cursors();
    }

    /// Clears the search.
    pub fn clear_search(&mut self)
        ensures
            final(self)@ == old(self)@.search_cleared(),
    {
        self.search_query = String::new();
        self.reset_cursors();
    }

    /// Lets the other list take the keys.
    pub fn switch_focus(&mut self)
        ensures
            final(self)@ == old(self)@.focus_switched(),
    {
        self.focus = match self.focus {
            AuthorsPane::TrackedList => AuthorsPane::UntrackedList,
            AuthorsPane::UntrackedList => AuthorsPane::TrackedList,
        };
    }

    /// Moves the cursor of the focused list one row up.
    pub fn cursor_up(&mut self)
        ensures
            final(self)@ == old(self)@.cursor_up(),
    {
        match self.focus {
            AuthorsPane::TrackedList => {
                if self.tracked_cursor > 0 {
                    self.tracked_cursor -= 1;
                }
            },
            AuthorsPane::UntrackedList => {
                if self.untracked_cursor > 0 {
                    self.untracked_cursor -= 1;
                }
            },
        }
    }

    /// Moves the cursor of the focused list one row down, within the rows
    /// that the search leaves.
    pub fn cursor_down(&mut self)
        ensures
            exists|rows: Seq<usize>|
                #[trigger] is_filtered_list(old(self)@.focused_list(), old(self)@.search_query, rows)
                    && final(self)@ == old(self)@.cursor_down(rows.len()),
    {
        match self.focus {
            AuthorsPane::TrackedList => {
                let rows = self.filtered_list(&self.tracked_authors);
                if rows.len() > 0 && self.tracked_cursor < rows.len() - 1 {
                    self.tracked_cursor += 1;
                }
                assert(is_filtered_list(old(self)@.focused_list(), old(self)@.search_query, rows@));
            },
            AuthorsPane::UntrackedList => {
                let rows = self.filtered_list(&self.untracked_authors);
                if rows.len() > 0 && self.untracked_cursor < rows.len() - 1 {
                    self.untracked_cursor += 1;
                }
                assert(is_filtered_list(old(self)@.focused_list(), old(self)@.search_query, rows@));
            },
        }
    }

    /// Moves the row under the cursor of the focused list over to the
    /// other list and returns its login; does nothing where no row is
    /// under the cursor.
    pub fn move_selected(&mut self) -> (moved: Option<String>)
        ensures
            exists|rows: Seq<usize>|
                #[trigger] is_filtered_list(
                    old(self)@.focused_list(),
                    old(self)@.search_query,
                    rows,
                ) && match moved {
                    Some(login) => {
                        &&& old(self)@.focused_cursor() < rows.len()
                        &&& rows[old(self)@.focused_cursor() as int] < old(self)@.focused_list().len()
                        &&& login@ == old(self)@.focused_list()[rows[old(
                            self,
                        )@.focused_cursor() as int] as int]
                        &&& old(self)@.row_moved(
                            rows[old(self)@.focused_cursor() as int] as int,
                            final(self)@,
                        )
                    },
                    None => old(self)@.focused_cursor() >= rows.len() && final(self)@ == old(self)@,
                },
    {
        let rows = match self.focus {
            AuthorsPane::UntrackedList => self.filtered_list(&self.untracked_authors),
            AuthorsPane::TrackedList => self.filtered_list(&self.tracked_authors),
        };
        let cursor = match self.focus {
            AuthorsPane::UntrackedList => self.untracked_cursor,
            AuthorsPane::TrackedList => self.tracked_cursor,
        };
        assert(is_filtered_list(old(self)@.focused_list(), old(self)@.search_query, rows@));
        if cursor >= rows.len() {
            return None;
        }
        let at = rows[cursor];
        assert(at < old(self)@.focused_list().len()) by {
            if self@.search_query.len() > 0 {
                assert(rows@[cursor as int] < old(self)@.focused_list().len());
            }
        }
        let moved = match self.focus {
            AuthorsPane::UntrackedList => move_row(
                &mut self.untracked_authors,
                &mut self.tracked_authors,
                at,
            ),
            AuthorsPane::TrackedList => move_row(
                &mut self.tracked_authors,
                &mut self.untracked_authors,
                at,
            ),
        };
        self.search_query = String::new();
        self.clamp_cursors();
        Some(moved)
    }
}

/// The two lists of the authors screen, as a background job computed them.
#[derive(Debug)]
pub struct TeamsPayload {
    pub tracked_authors: Vec<String>,
    pub untracked_authors: Vec<String>,
}

/// What a background job sends to the front end.
#[derive(Debug)]
pub enum BackgroundMessage {
    Progress,
    FullSyncFinished(Result<SyncRunSummary, TrackerError>),
    QuickRefreshFinished(Result<QuickRefreshSummary, TrackerError>),
    TeamsFetchFinished(Result<TeamsPayload, TrackerError>),
}

/// The mathematical content of a [`BackgroundMessage`], as far as the
/// front end reads it.
pub enum BackgroundMessageView {
    Progress,
    FullSyncFinished,
    QuickRefreshFinished,
    TeamsFetched { tracked_authors: Seq<Seq<char>>, untracked_authors: Seq<Seq<char>> },
    TeamsFetchFailed { error: Seq<char> },
}

impl View for BackgroundMessage {
    type V = BackgroundMessageView;

    open spec fn view(&self) -> BackgroundMessageView {
        match *self {
            BackgroundMessage::Progress => BackgroundMessageView::Progress,
            BackgroundMessage::FullSyncFinished(_) => BackgroundMessageView::FullSyncFinished,
            BackgroundMessage::QuickRefreshFinished(_) => BackgroundMessageView::QuickRefreshFinished,
            BackgroundMessage::TeamsFetchFinished(Ok(payload)) => BackgroundMessageView::TeamsFetched {
                tracked_authors: payload.tracked_authors.deep_view(),
                untracked_authors: payload.untracked_authors.deep_view(),
            },
            BackgroundMessage::TeamsFetchFinished(Err(e)) => BackgroundMessageView::TeamsFetchFailed {
                error: e@.message(),
            },
        }
    }
}

/// What the caller is to do after a key or a message was handled.
#[derive(Debug)]
pub enum Effect {
    /// Nothing is to be done.
    Nothing,
    /// Open the address in the browser; a failure to do so is passed over.
    OpenUrl(String),
    /// Save the record; a failure ends the session.
    SavePullRequest(PullRequest),
    /// Start a full sync in the background.
    StartFullSync,
    /// Start a quick refresh in the background.
    StartQuickRefresh,
    /// Start fetching the team members in the background.
    StartTeamsFetch,
    /// Save the login as a tracked author; a failure ends the session.
    SaveTrackedAuthor(String),
    /// Delete the login from the tracked authors; a failure ends the session.
    DeleteTrackedAuthor(String),
    /// Read all records from storage and hand them to
    /// [`Session::pull_requests_loaded`]; a failure ends the session.
    ReloadPullRequests,
}

/// The mathematical content of an [`Effect`].
pub enum EffectView {
    Nothing,
    OpenUrl(Seq<char>),
    SavePullRequest(PullRequestView),
    StartFullSync,
    StartQuickRefresh,
    StartTeamsFetch,
    SaveTrackedAuthor(Seq<char>),
    DeleteTrackedAuthor(Seq<char>),
    ReloadPullRequests,
}

impl View for Effect {
    type V = EffectView;

    open spec fn view(&self) -> EffectView {
        match *self {
            Effect::Nothing => EffectView::Nothing,
            Effect::OpenUrl(url) => EffectView::OpenUrl(url@),
            Effect::SavePullRequest(record) => EffectView::SavePullRequest(record@),
            Effect::StartFullSync => EffectView::StartFullSync,
            Effect::StartQuickRefresh => EffectView::StartQuickRefresh,
            Effect::StartTeamsFetch => EffectView::StartTeamsFetch,
            Effect::SaveTrackedAuthor(login) => EffectView::SaveTrackedAuthor(login@),
            Effect::DeleteTrackedAuthor(login) => EffectView::DeleteTrackedAuthor(login@),
            Effect::ReloadPullRequests => EffectView::ReloadPullRequests,
        }
    }
}

impl EffectView {
    /// Whether the effect starts a background job.
    pub open spec fn starts_job(self) -> bool {
        self is StartFullSync || self is StartQuickRefresh || self is StartTeamsFetch
    }

    /// The effect that starts a job.
    pub open spec fn start(job: BackgroundJob) -> EffectView {
        match job {
            BackgroundJob::FullSync => EffectView::StartFullSync,
            BackgroundJob::QuickRefresh => EffectView::StartQuickRefresh,
            BackgroundJob::TeamsFetch => EffectView::StartTeamsFetch,
        }
    }
}

/// A session of the front end: what is shown, the background job in
/// flight, the tick of the busy indicator, and whether to leave.
#[derive(Debug)]
pub struct Session {
    pub model: Model,
    pub active_job: Option<BackgroundJob>,
    pub spinner_tick: usize,
    pub should_quit: bool,
}

/// The mathematical content of a [`Session`].
pub struct SessionView {
    pub model: ModelView,
    pub active_job: Option<BackgroundJob>,
    pub spinner_tick: usize,
    pub should_quit: bool,
}

impl View for Session {
    type V = SessionView;

    open spec fn view(&self) -> SessionView {
        SessionView {
            model: self.model@,
            active_job: self.active_job,
            spinner_tick: self.spinner_tick,
            should_quit: self.should_quit,
        }
    }
}

impl SessionView {
    /// The session with another model.
    pub open spec fn with_model(self, model: ModelView) -> SessionView {
        SessionView { model, ..self }
    }

    /// The session with another authors screen.
    pub open spec fn with_authors(self, authors_screen: AuthorsScreenView) -> SessionView {
        SessionView { model: ModelView { authors_screen, ..self.model }, ..self }
    }

    /// The session showing another screen.
    pub open spec fn showing(self, screen: Screen) -> SessionView {
        SessionView { model: ModelView { screen, ..self.model }, ..self }
    }

    /// Whether a request to start `job` led from `self` to `after` with
    /// `effect`, where `model` is what a started job shows. While a job is
    /// in flight the request is turned down: nothing changes and nothing
    /// is started.
    pub open spec fn job_requested(
        self,
        job: BackgroundJob,
        model: ModelView,
        after: SessionView,
        effect: EffectView,
    ) -> bool {
        if self.active_job is None {
            after == (SessionView { active_job: Some(job), model, ..self }) && effect
                == EffectView::start(job)
        } else {
            after == self && effect == EffectView::Nothing
        }
    }

    /// Whether `key`, pressed at `now` on the list of pull requests, led
    /// from `self` to `after` with `effect`.
    pub open spec fn pr_list_key_step(
        self,
        key: Key,
        now: Timestamp,
        after: SessionView,
        effect: EffectView,
    ) -> bool {
        if key == Key::Char('q') {
            after == (SessionView { should_quit: true, ..self }) && effect == EffectView::Nothing
        } else if key == Key::Up || key == Key::Char('k') {
            after == self.with_model(self.model.moved_up()) && effect == EffectView::Nothing
        } else if key == Key::Down || key == Key::Char('j') {
            after == self.with_model(self.model.moved_down()) && effect == EffectView::Nothing
        } else if key == Key::Enter || key == Key::Char(' ') {
            after == self.with_model(self.model.in_range()) && effect == match self.model.selection() {
                Some(at) => EffectView::OpenUrl(self.model.prs[at as int].url()),
                None => EffectView::Nothing,
            }
        } else if key == Key::Char('a') {
            after == self.with_model(self.model.acknowledged(now)) && effect
                == match self.model.selection() {
                Some(_) => EffectView::SavePullRequest(self.model.acknowledged_record(now)),
                None => EffectView::Nothing,
            }
        } else if key == Key::Char('v') {
            after == self.with_model(self.model.toggled()) && effect == EffectView::Nothing
        } else if key == Key::Char('s') {
            self.job_requested(BackgroundJob::FullSync, self.model, after, effect)
        } else if key == Key::Char('r') {
            self.job_requested(BackgroundJob::QuickRefresh, self.model, after, effect)
        } else if key == Key::Char('t') {
            self.job_requested(
                BackgroundJob::TeamsFetch,
                ModelView {
                    screen: Screen::AuthorsFromTeams,
                    authors_screen: AuthorsScreenView::loading(),
                    ..self.model
                },
                after,
                effect,
            )
        } else {
            after == self && effect == EffectView::Nothing
        }
    }

    /// Whether `key`, pressed on the authors screen, led from `self` to
    /// `after` with `effect`.
    pub open spec fn authors_key_step(self, key: Key, after: SessionView, effect: EffectView)
        -> bool {
        let screen = self.model.authors_screen;
        if screen.loading {
            effect == EffectView::Nothing && after == if key == Key::Esc || key == Key::Char('q') {
                self.showing(Screen::PrList)
            } else {
                self
            }
        } else if key == Key::Esc {
            effect == EffectView::Nothing && after == if screen.search_query.len() > 0 {
                self.with_authors(screen.search_cleared())
            } else {
                self.showing(Screen::PrList)
            }
        } else if key == Key::Char('q') {
            effect == EffectView::Nothing && after == if screen.search_query.len() == 0 {
                self.showing(Screen::PrList)
            } else {
                self.with_authors(screen.typed('q'))
            }
        } else if key == Key::Tab {
            effect == EffectView::Nothing && after == self.with_authors(screen.focus_switched())
        } else if key == Key::Up || key == Key::Char('k') {
            effect == EffectView::Nothing && after == self.with_authors(screen.cursor_up())
        } else if key == Key::Down || key == Key::Char('j') {
            effect == EffectView::Nothing && exists|rows: Seq<usize>|
                #[trigger] is_filtered_list(screen.focused_list(), screen.search_query, rows)
                    && after == self.with_authors(screen.cursor_down(rows.len()))
        } else if key == Key::Enter || key == Key::Char(' ') {
            exists|rows: Seq<usize>|
                #[trigger] is_filtered_list(screen.focused_list(), screen.search_query, rows)
                    && self.row_chosen(rows, after, effect)
        } else if key == Key::Backspace {
            effect == EffectView::Nothing && after == self.with_authors(screen.erased())
        } else if key is Char {
            effect == EffectView::Nothing && after == self.with_authors(screen.typed(key->Char_0))
        } else {
            effect == EffectView::Nothing && after == self
        }
    }

    /// Whether choosing the row under the cursor, among the rows `rows`
    /// that the search leaves, led from `self` to `after` with `effect`:
    /// the row goes over to the other list, and the effect stores that.
    pub open spec fn row_chosen(self, rows: Seq<usize>, after: SessionView, effect: EffectView)
        -> bool {
        let screen = self.model.authors_screen;
        if screen.focused_cursor() < rows.len() {
            let at = rows[screen.focused_cursor() as int];
            &&& at < screen.focused_list().len()
            &&& screen.row_moved(at as int, after.model.authors_screen)
            &&& after == self.with_authors(after.model.authors_screen)
            &&& effect == match screen.focus {
                AuthorsPane::UntrackedList => EffectView::SaveTrackedAuthor(
                    screen.focused_list()[at as int],
                ),
                AuthorsPane::TrackedList => EffectView::DeleteTrackedAuthor(
                    screen.focused_list()[at as int],
                ),
            }
        } else {
            after == self && effect == EffectView::Nothing
        }
    }

    /// Whether `key`, pressed at `now`, led from `self` to `after` with
    /// `effect`.
    pub open spec fn key_step(self, key: Key, now: Timestamp, after: SessionView, effect: EffectView)
        -> bool {
        match self.model.screen {
            Screen::PrList => self.pr_list_key_step(key, now, after, effect),
            Screen::AuthorsFromTeams => self.authors_key_step(key, after, effect),
        }
    }

    /// The session once its job is over.
    pub open spec fn job_over(self) -> SessionView {
        SessionView { active_job: None, spinner_tick: 0, ..self }
    }

    /// Whether the message of a background job led from `self` to `after`
    /// with `effect`. Progress changes nothing. The end of a sync run
    /// ends the job and asks for all records to be read again. The end of
    /// a teams fetch ends the job and fills the authors screen, or shows
    /// why it could not be filled.
    pub open spec fn message_step(
        self,
        message: BackgroundMessageView,
        after: SessionView,
        effect: EffectView,
    ) -> bool {
        match message {
            BackgroundMessageView::Progress => after == self && effect == EffectView::Nothing,
            BackgroundMessageView::FullSyncFinished | BackgroundMessageView::QuickRefreshFinished => {
                after == self.job_over() && effect == EffectView::ReloadPullRequests
            },
            BackgroundMessageView::TeamsFetched { tracked_authors, untracked_authors } => {
                after == self.job_over().with_authors(
                    AuthorsScreenView {
                        tracked_authors,
                        untracked_authors,
                        loading: false,
                        error: None,
                        ..self.model.authors_screen
                    }.clamp_cursors(),
                ) && effect == EffectView::Nothing
            },
            BackgroundMessageView::TeamsFetchFailed { error } => {
                after == self.job_over().with_authors(
                    AuthorsScreenView {
                        loading: false,
                        error: Some(error),
                        ..self.model.authors_screen
                    },
                ) && effect == EffectView::Nothing
            },
        }
    }

    /// The session after a frame was drawn: the busy indicator moves on
    /// while a job is in flight.
    pub open spec fn drawn(self) -> SessionView {
        if self.active_job is Some {
            SessionView {
                spinner_tick: if self.spinner_tick == usize::MAX {
                    0
                } else {
                    (self.spinner_tick + 1) as usize
                },
                ..self
            }
        } else {
            self
        }
    }
}

impl Session {
    /// A session that shows the list of the records `prs`, with no job in
    /// flight.
    pub fn new(prs: Vec<PullRequest>) -> (session: Session)
        ensures
            session.model@ == ModelView::first(views(prs@)),
            session.active_job is None,
            session.spinner_tick == 0,
            !session.should_quit,
    {
        Session { model: Model::new(prs), active_job: None, spinner_tick: 0, should_quit: false }
    }

    /// Counts a drawn frame.
    pub fn frame_drawn(&mut self)
        ensures
            final(self)@ == old(self)@.drawn(),
    {
        if self.active_job.is_some() {
            self.spinner_tick = if self.spinner_tick == usize::MAX {
                0
            } else {
                self.spinner_tick + 1
            };
        }
    }

    /// Turns a request to start `job` into an effect, or turns it down
    /// while a job is in flight.
    fn request_job(&mut self, job: BackgroundJob) -> (effect: Effect)
        ensures
            old(self)@.job_requested(job, old(self)@.model, final(self)@, effect@),
    {
        if self.active_job.is_some() {
            return Effect::Nothing;
        }
        self.active_job = Some(job);
        match job {
            BackgroundJob::FullSync => Effect::StartFullSync,
            BackgroundJob::QuickRefresh => Effect::StartQuickRefresh,
            BackgroundJob::TeamsFetch => Effect::StartTeamsFetch,
        }
    }

    fn pr_list_key(&mut self, key: Key, now: Timestamp) -> (effect: Effect)
        ensures
            old(self)@.pr_list_key_step(key, now, final(self)@, effect@),
    {
        match key {
            Key::Char(c) => {
                if c == 'q' {
                    self.should_quit = true;
                    Effect::Nothing
                } else if c == 'k' {
                    self.model.move_up();
                    Effect::Nothing
                } else if c == 'j' {
                    self.model.move_down();
                    Effect::Nothing
                } else if c == ' ' {
                    match self.model.selected_url() {
                        Some(url) => Effect::OpenUrl(url),
                        None => Effect::Nothing,
                    }
                } else if c == 'a' {
                    match self.model.acknowledge(now) {
                        Some(record) => Effect::SavePullRequest(record),
                        None => Effect::Nothing,
                    }
                } else if c == 'v' {
                    self.model.toggle_view();
                    Effect::Nothing
                } else if c == 's' {
                    self.request_job(BackgroundJob::FullSync)
                } else if c == 'r' {
                    self.request_job(BackgroundJob::QuickRefresh)
                } else if c == 't' {
                    if self.active_job.is_some() {
                        return Effect::Nothing;
                    }
                    self.model.screen = Screen::AuthorsFromTeams;
                    self.model.authors_screen = AuthorsScreenState::new();
                    self.active_job = Some(BackgroundJob::TeamsFetch);
                    Effect::StartTeamsFetch
                } else {
                    Effect::Nothing
                }
            },
            Key::Up => {
                self.model.move_up();
                Effect::Nothing
            },
            Key::Down => {
                self.model.move_down();
                Effect::Nothing
            },
            Key::Enter => {
                match self.model.selected_url() {
                    Some(url) => Effect::OpenUrl(url),
                    None => Effect::Nothing,
                }
            },
            _ => Effect::Nothing,
        }
    }

    fn choose_row(&mut self) -> (effect: Effect)
        ensures
            exists|rows: Seq<usize>|
                #[trigger] is_filtered_list(
                    old(self)@.model.authors_screen.focused_list(),
                    old(self)@.model.authors_screen.search_query,
                    rows,
                ) && old(self)@.row_chosen(rows, final(self)@, effect@),
    {
        let focus = self.model.authors_screen.focus;
        let moved = self.model.authors_screen.move_selected();
        match moved {
            Some(login) => match focus {
                AuthorsPane::UntrackedList => Effect::SaveTrackedAuthor(login),
                AuthorsPane::TrackedList => Effect::DeleteTrackedAuthor(login),
            },
            None => Effect::Nothing,
        }
    }

    fn authors_key(&mut self, key: Key) -> (effect: Effect)
        ensures
            old(self)@.authors_key_step(key, final(self)@, effect@),
    {
        if self.model.authors_screen.loading {
            match key {
                Key::Esc => {
                    self.model.screen = Screen::PrList;
                },
                Key::Char(c) => {
                    if c == 'q' {
                        self.model.screen = Screen::PrList;
                    }
                },
                _ => {},
            }
            return Effect::Nothing;
        }
        match key {
            Key::Esc => {
                if !self.model.authors_screen.search_query.as_str().is_empty() {
                    self.model.authors_screen.clear_search();
                } else {
                    self.model.screen = Screen::PrList;
                }
                Effect::Nothing
            },
            Key::Tab => {
                self.model.authors_screen.switch_focus();
                Effect::Nothing
            },
            Key::Up => {
                self.model.authors_screen.cursor_up();
                Effect::Nothing
            },
            Key::Down => {
                self.model.authors_screen.cursor_down();
                Effect::Nothing
            },
            Key::Enter => self.choose_row(),
            Key::Backspace => {
                self.model.authors_screen.erase_char();
                Effect::Nothing
            },
            Key::Char(c) => {
                if c == 'q' {
                    if self.model.authors_screen.search_query.as_str().is_empty() {
                        self.model.screen = Screen::PrList;
                    } else {
                        self.model.authors_screen.type_char('q');
                    }
                    Effect::Nothing
                } else if c == 'k' {
                    self.model.authors_screen.cursor_up();
                    Effect::Nothing
                } else if c == 'j' {
                    self.model.authors_screen.cursor_down();
                    Effect::Nothing
                } else if c == ' ' {
                    self.choose_row()
                } else {
                    self.model.authors_screen.type_char(c);
                    Effect::Nothing
                }
            },
            Key::Other => Effect::Nothing,
        }
    }

    /// Handles a key pressed at the instant `now`.
    pub fn handle_key(&mut self, key: Key, now: Timestamp) -> (effect: Effect)
        ensures
            old(self)@.key_step(key, now, final(self)@, effect@),
    {
        match self.model.screen {
            Screen::PrList => self.pr_list_key(key, now),
            Screen::AuthorsFromTeams => self.authors_key(key),
        }
    }

    /// Handles a message of a background job.
    pub fn handle_message(&mut self, message: BackgroundMessage) -> (effect: Effect)
        ensures
            old(self)@.message_step(message@, final(self)@, effect@),
    {
        match message {
            BackgroundMessage::Progress => Effect::Nothing,
            BackgroundMessage::FullSyncFinished(_) => {
                self.active_job = None;
                self.spinner_tick = 0;
                Effect::ReloadPullRequests
            },
            BackgroundMessage::QuickRefreshFinished(_) => {
                self.active_job = None;
                self.spinner_tick = 0;
                Effect::ReloadPullRequests
            },
            BackgroundMessage::TeamsFetchFinished(result) => {
                self.active_job = None;
                self.spinner_tick = 0;
                match result {
                    Ok(payload) => {
                        self.model.authors_screen.tracked_authors = payload.tracked_authors;
                        self.model.authors_screen.untracked_authors = payload.untracked_authors;
                        self.model.authors_screen.loading = false;
                        self.model.authors_screen.error = None;
                        self.model.authors_screen.clamp_cursors();
                    },
                    Err(e) => {
                        self.model.authors_screen.loading = false;
                        self.model.authors_screen.error = Some(e.message());
                    },
                }
                Effect::Nothing
            },
        }
    }

    /// Takes the records that were read from storage.
    pub fn pull_requests_loaded(&mut self, prs: Vec<PullRequest>)
        ensures
            final(self)@ == old(self)@.with_model(old(self)@.model.reloaded(views(prs@))),
    {
        self.model.reload(prs);
    }
}

/// While a job is in flight no key starts another and none ends the one
/// in flight: a request for a second job is turned down, not queued.
pub proof fn law_one_job_at_a_time(
    before: SessionView,
    key: Key,
    now: Timestamp,
    after: SessionView,
    effect: EffectView,
)
    requires
        before.active_job is Some,
        before.key_step(key, now, after, effect),
    ensures
        after.active_job == before.active_job,
        !effect.starts_job(),
{
}

/// A key starts a job only where none is in flight, and the session then
/// holds exactly the job that the effect starts.
pub proof fn law_started_job_is_recorded(
    before: SessionView,
    key: Key,
    now: Timestamp,
    after: SessionView,
    effect: EffectView,
)
    requires
        before.key_step(key, now, after, effect),
        effect.starts_job(),
    ensures
        before.active_job is None,
        after.active_job is Some,
        effect == EffectView::start(after.active_job->0),
{
}

} // verus!
