//! The two sync runs, as decisions between the steps that fetch and store.
//!
//! A run never fetches or stores anything itself. It says what to do next,
//! takes what came of it, and keeps the count. A full sync walks the
//! tracked repositories one after another and reconciles each; a quick
//! refresh walks the stored records and fetches each one again.

use vstd::prelude::*;
use crate::error::TrackerError;
use crate::models::{PullRequest, PullRequestView};
use crate::reconcile::{
    ci_status_changed, process_pull_request_sync_results, reconciled, views, SyncDiff, SyncDiffView,
};
use crate::time::Timestamp;

verus! {

/// What a full sync did.
#[derive(Debug, Clone, Copy, PartialEq, Eq, Structural)]
pub struct SyncRunSummary {
    pub synced_repositories: usize,
    pub new_prs: usize,
    pub updated_prs: usize,
    pub deleted_prs: usize,
}

impl SyncRunSummary {
    /// The summary of a run that did nothing.
    pub open spec fn zero() -> SyncRunSummary {
        SyncRunSummary { synced_repositories: 0, new_prs: 0, updated_prs: 0, deleted_prs: 0 }
    }
}

impl Default for SyncRunSummary {
    fn default() -> (summary: SyncRunSummary)
        ensures
            summary == SyncRunSummary::zero(),
    {
        SyncRunSummary { synced_repositories: 0, new_prs: 0, updated_prs: 0, deleted_prs: 0 }
    }
}

/// What a quick refresh did.
#[derive(Debug, Clone, Copy, PartialEq, Eq, Structural)]
pub struct QuickRefreshSummary {
    pub total_prs: usize,
    pub refreshed_prs: usize,
    pub failed_prs: usize,
}

impl QuickRefreshSummary {
    /// The summary of a run that did nothing.
    pub open spec fn zero() -> QuickRefreshSummary {
        QuickRefreshSummary { total_prs: 0, refreshed_prs: 0, failed_prs: 0 }
    }
}

impl Default for QuickRefreshSummary {
    fn default() -> (summary: QuickRefreshSummary)
        ensures
            summary == QuickRefreshSummary::zero(),
    {
        QuickRefreshSummary { total_prs: 0, refreshed_prs: 0, failed_prs: 0 }
    }
}

/// A notification of how far a run has come. Indexes count from one.
#[derive(Debug, Clone)]
pub enum SyncProgress {
    FullSyncStarted { total_repositories: usize },
    FullSyncRepositoryStarted {
        repository: String,
        repository_index: usize,
        total_repositories: usize,
    },
    FullSyncRepositoryCompleted {
        repository: String,
        repository_index: usize,
        total_repositories: usize,
        new_prs: usize,
        updated_prs: usize,
        deleted_prs: usize,
    },
    QuickRefreshStarted { total_prs: usize },
    QuickRefreshPullRequestStarted {
        repository: String,
        pr_number: i64,
        pr_index: usize,
        total_prs: usize,
    },
    QuickRefreshPullRequestCompleted {
        repository: String,
        pr_number: i64,
        pr_index: usize,
        total_prs: usize,
        ok: bool,
        error: Option<String>,
    },
}

/// The mathematical content of a [`SyncProgress`].
pub enum SyncProgressView {
    FullSyncStarted { total_repositories: usize },
    FullSyncRepositoryStarted {
        repository: Seq<char>,
        repository_index: usize,
        total_repositories: usize,
    },
    FullSyncRepositoryCompleted {
        repository: Seq<char>,
        repository_index: usize,
        total_repositories: usize,
        new_prs: usize,
        updated_prs: usize,
        deleted_prs: usize,
    },
    QuickRefreshStarted { total_prs: usize },
    QuickRefreshPullRequestStarted {
        repository: Seq<char>,
        pr_number: i64,
        pr_index: usize,
        total_prs: usize,
    },
    QuickRefreshPullRequestCompleted {
        repository: Seq<char>,
        pr_number: i64,
        pr_index: usize,
        total_prs: usize,
        ok: bool,
        error: Option<Seq<char>>,
    },
}

impl View for SyncProgress {
    type V = SyncProgressView;

    open spec fn view(&self) -> SyncProgressView {
        match *self {
            SyncProgress::FullSyncStarted { total_repositories } => SyncProgressView::FullSyncStarted {
                total_repositories,
            },
            SyncProgress::FullSyncRepositoryStarted {
                repository,
                repository_index,
                total_repositories,
            } => SyncProgressView::FullSyncRepositoryStarted {
                repository: repository@,
                repository_index,
                total_repositories,
            },
            SyncProgress::FullSyncRepositoryCompleted {
                repository,
                repository_index,
                total_repositories,
                new_prs,
                updated_prs,
                deleted_prs,
            } => SyncProgressView::FullSyncRepositoryCompleted {
                repository: repository@,
                repository_index,
                total_repositories,
                new_prs,
                updated_prs,
                deleted_prs,
            },
            SyncProgress::QuickRefreshStarted { total_prs } => SyncProgressView::QuickRefreshStarted {
                total_prs,
            },
            SyncProgress::QuickRefreshPullRequestStarted {
                repository,
                pr_number,
                pr_index,
                total_prs,
            } => SyncProgressView::QuickRefreshPullRequestStarted {
                repository: repository@,
                pr_number,
                pr_index,
                total_prs,
            },
            SyncProgress::QuickRefreshPullRequestCompleted {
                repository,
                pr_number,
                pr_index,
                total_prs,
                ok,
                error,
            } => SyncProgressView::QuickRefreshPullRequestCompleted {
                repository: repository@,
                pr_number,
                pr_index,
                total_prs,
                ok,
                error: match error {
                    Some(text) => Some(text@),
                    None => None,
                },
            },
        }
    }
}

/// The contents of a list of notifications.
pub open spec fn progress_views(events: Seq<SyncProgress>) -> Seq<SyncProgressView> {
    events.map_values(|e: SyncProgress| e@)
}

/// Where a full sync stands: the repositories and authors it was started
/// with, the position of the repository in work, and the count so far.
pub struct FullSyncView {
    pub repositories: Seq<Seq<char>>,
    pub authors: Seq<Seq<char>>,
    pub position: usize,
    pub summary: SyncRunSummary,
}

impl FullSyncView {
    /// The repository in work.
    pub open spec fn repository(self) -> Seq<char> {
        self.repositories[self.position as int]
    }

    /// The notification that work on the repository in work begins.
    pub open spec fn started(self) -> SyncProgressView {
        SyncProgressView::FullSyncRepositoryStarted {
            repository: self.repository(),
            repository_index: (self.position + 1) as usize,
            total_repositories: self.repositories.len() as usize,
        }
    }

    /// The notification that the repository in work is done, with the
    /// sizes of the three lists of its reconciliation.
    pub open spec fn completed(self, diff: SyncDiffView) -> SyncProgressView {
        SyncProgressView::FullSyncRepositoryCompleted {
            repository: self.repository(),
            repository_index: (self.position + 1) as usize,
            total_repositories: self.repositories.len() as usize,
            new_prs: diff.new_prs.len() as usize,
            updated_prs: diff.updated_prs.len() as usize,
            deleted_prs: diff.removed_prs.len() as usize,
        }
    }

    /// The count after the repository in work is done.
    pub open spec fn counted(self, diff: SyncDiffView) -> SyncRunSummary {
        SyncRunSummary {
            synced_repositories: (self.summary.synced_repositories + 1) as usize,
            new_prs: (self.summary.new_prs + diff.new_prs.len()) as usize,
            updated_prs: (self.summary.updated_prs + diff.updated_prs.len()) as usize,
            deleted_prs: (self.summary.deleted_prs + diff.removed_prs.len()) as usize,
        }
    }

    /// Whether the count can take in the sizes of `diff`.
    pub open spec fn fits(self, diff: SyncDiffView) -> bool {
        &&& self.summary.new_prs + diff.new_prs.len() <= usize::MAX
        &&& self.summary.updated_prs + diff.updated_prs.len() <= usize::MAX
        &&& self.summary.deleted_prs + diff.removed_prs.len() <= usize::MAX
    }

    /// The run once the repository in work is done.
    pub open spec fn advanced(self, diff: SyncDiffView) -> FullSyncView {
        FullSyncView {
            position: (self.position + 1) as usize,
            summary: self.counted(diff),
            ..self
        }
    }
}

/// What a full sync asks for next.
pub enum FullSyncStepView {
    Fetch { run: FullSyncView, progress: Seq<SyncProgressView> },
    Finished { progress: Seq<SyncProgressView>, summary: SyncRunSummary },
}

/// The first step of a full sync. It reports the start. Where no
/// repository or no author is tracked the run is over at once, with
/// nothing fetched and nothing counted; else work begins on the first
/// repository.
pub open spec fn full_sync_start(repositories: Seq<Seq<char>>, authors: Seq<Seq<char>>)
    -> FullSyncStepView {
    let begun = SyncProgressView::FullSyncStarted {
        total_repositories: repositories.len() as usize,
    };
    if repositories.len() == 0 || authors.len() == 0 {
        FullSyncStepView::Finished { progress: seq![begun], summary: SyncRunSummary::zero() }
    } else {
        let run = FullSyncView {
            repositories,
            authors,
            position: 0,
            summary: SyncRunSummary::zero(),
        };
        FullSyncStepView::Fetch { run, progress: seq![begun, run.started()] }
    }
}

/// The step after the writes of the repository in work are done. It
/// reports the repository as completed and counts it; then work begins on
/// the following repository, or the run is over.
pub open spec fn full_sync_after_write(run: FullSyncView, diff: SyncDiffView) -> FullSyncStepView {
    let next = run.advanced(diff);
    if next.position < next.repositories.len() {
        FullSyncStepView::Fetch { run: next, progress: seq![run.completed(diff), next.started()] }
    } else {
        FullSyncStepView::Finished { progress: seq![run.completed(diff)], summary: next.summary }
    }
}

/// A full sync between two steps.
pub struct FullSync {
    repositories: Vec<String>,
    authors: Vec<String>,
    position: usize,
    summary: SyncRunSummary,
}

impl View for FullSync {
    type V = FullSyncView;

    closed spec fn view(&self) -> FullSyncView {
        FullSyncView {
            repositories: self.repositories.deep_view(),
            authors: self.authors.deep_view(),
            position: self.position,
            summary: self.summary,
        }
    }
}

impl FullSync {
    #[verifier::type_invariant]
    spec fn well_formed(self) -> bool {
        &&& self.position < self.repositories.len()
        &&& self.summary.synced_repositories == self.position
    }

    fn started(&self) -> (event: SyncProgress)
        ensures
            event@ == self@.started(),
    {
        proof {
            use_type_invariant(self);
        }
        SyncProgress::FullSyncRepositoryStarted {
            repository: self.repositories[self.position].clone(),
            repository_index: self.position + 1,
            total_repositories: self.repositories.len(),
        }
    }
}

/// The request to fetch a repository: the next step of a full sync.
pub struct RepositoryFetch {
    run: FullSync,
    progress: Vec<SyncProgress>,
}

/// The request to store the reconciliation of a repository.
pub struct RepositoryWrite {
    run: FullSync,
    diff: SyncDiff,
}

/// What a full sync asks for next.
pub enum FullSyncStep {
    /// Report the progress of the request, fetch the open pull requests
    /// of its repository that a tracked author opened, load the stored
    /// records of that repository, and hand both to
    /// [`RepositoryFetch::reconcile`].
    Fetch(RepositoryFetch),
    /// Report `progress`. The run is over.
    Finished { progress: Vec<SyncProgress>, summary: SyncRunSummary },
}

impl View for FullSyncStep {
    type V = FullSyncStepView;

    open spec fn view(&self) -> FullSyncStepView {
        match *self {
            FullSyncStep::Fetch(request) => FullSyncStepView::Fetch {
                run: request.run(),
                progress: request.announced(),
            },
            FullSyncStep::Finished { progress, summary } => FullSyncStepView::Finished {
                progress: progress_views(progress@),
                summary,
            },
        }
    }
}

impl FullSyncStep {
    /// Begins a full sync of `repositories`, restricted to `authors`.
    pub fn start(repositories: Vec<String>, authors: Vec<String>) -> (step: FullSyncStep)
        ensures
            step@ == full_sync_start(repositories.deep_view(), authors.deep_view()),
    {
        let begun = SyncProgress::FullSyncStarted { total_repositories: repositories.len() };
        let mut progress: Vec<SyncProgress> = Vec::new();
        progress.push(begun);
        if repositories.len() == 0 || authors.len() == 0 {
            assert(progress_views(progress@) =~= seq![progress@[0]@]);
            return FullSyncStep::Finished {
                progress,
                summary: SyncRunSummary {
                    synced_repositories: 0,
                    new_prs: 0,
                    updated_prs: 0,
                    deleted_prs: 0,
                },
            };
        }
        let run = FullSync {
            repositories,
            authors,
            position: 0,
            summary: SyncRunSummary {
                synced_repositories: 0,
                new_prs: 0,
                updated_prs: 0,
                deleted_prs: 0,
            },
        };
        progress.push(run.started());
        assert(progress_views(progress@) =~= seq![progress@[0]@, progress@[1]@]);
        FullSyncStep::Fetch(RepositoryFetch { run, progress })
    }

    /// Whether the run is over.
    pub fn is_finished(&self) -> (r: bool)
        ensures
            r == (self@ is Finished),
    {
        match self {
            FullSyncStep::Fetch(_) => false,
            FullSyncStep::Finished { .. } => true,
        }
    }
}

impl RepositoryFetch {
    /// The run this request belongs to.
    pub closed spec fn run(&self) -> FullSyncView {
        self.run@
    }

    /// The notifications that come with the request.
    pub closed spec fn announced(&self) -> Seq<SyncProgressView> {
        progress_views(self.progress@)
    }

    /// The notifications to deliver before fetching.
    pub fn progress(&self) -> (events: &Vec<SyncProgress>)
        ensures
            progress_views(events@) == self.announced(),
    {
        &self.progress
    }

    /// The repository to fetch.
    pub fn repository(&self) -> (name: &String)
        ensures
            name@ == self.run().repository(),
    {
        proof {
            use_type_invariant(&self.run);
        }
        &self.run.repositories[self.run.position]
    }

    /// The authors whose pull requests are tracked.
    pub fn authors(&self) -> (authors: &Vec<String>)
        ensures
            authors.deep_view() == self.run().authors,
    {
        &self.run.authors
    }

    /// Reconciles what was fetched from the repository against what is
    /// stored of it.
    pub fn reconcile(self, existing: &[PullRequest], fresh: &[PullRequest], now: Timestamp) -> (write:
        RepositoryWrite)
        ensures
            write.run() == self.run(),
            write.changes() == reconciled(views(existing@), views(fresh@), now),
    {
        let diff = process_pull_request_sync_results(existing, fresh, now);
        RepositoryWrite { run: self.run, diff }
    }
}

impl RepositoryWrite {
    /// The run this request belongs to.
    pub closed spec fn run(&self) -> FullSyncView {
        self.run@
    }

    /// The three lists to store.
    pub closed spec fn changes(&self) -> SyncDiffView {
        self.diff@
    }

    /// The records to save, first the new ones, then the updated ones, and
    /// the records to delete.
    pub fn diff(&self) -> (diff: &SyncDiff)
        ensures
            diff@ == self.changes(),
    {
        &self.diff
    }

    /// Whether the count of the run can take in the sizes of the three lists.
    pub fn fits(&self) -> (r: bool)
        ensures
            r == self.run().fits(self.changes()),
    {
        let summary = &self.run.summary;
        self.diff.new_prs.len() <= usize::MAX - summary.new_prs && self.diff.updated_prs.len()
            <= usize::MAX - summary.updated_prs && self.diff.removed_prs.len() <= usize::MAX
            - summary.deleted_prs
    }

    /// Counts the repository once its records are stored, and says what
    /// comes next.
    pub fn written(self) -> (step: FullSyncStep)
        requires
            self.run().fits(self.changes()),
        ensures
            step@ == full_sync_after_write(self.run(), self.changes()),
            step@ matches FullSyncStepView::Finished { summary, .. }
                ==> summary.synced_repositories == self.run().repositories.len(),
    {
        proof {
            use_type_invariant(&self.run);
        }
        let run = self.run;
        let diff = self.diff;
        let total = run.repositories.len();
        let completed = SyncProgress::FullSyncRepositoryCompleted {
            repository: run.repositories[run.position].clone(),
            repository_index: run.position + 1,
            total_repositories: total,
            new_prs: diff.new_prs.len(),
            updated_prs: diff.updated_prs.len(),
            deleted_prs: diff.removed_prs.len(),
        };
        let summary = SyncRunSummary {
            synced_repositories: run.summary.synced_repositories + 1,
            new_prs: run.summary.new_prs + diff.new_prs.len(),
            updated_prs: run.summary.updated_prs + diff.updated_prs.len(),
            deleted_prs: run.summary.deleted_prs + diff.removed_prs.len(),
        };
        let mut progress: Vec<SyncProgress> = Vec::new();
        progress.push(completed);
        let position = run.position + 1;
        if position < total {
            let next = FullSync {
                repositories: run.repositories,
                authors: run.authors,
                position,
                summary,
            };
            progress.push(next.started());
            assert(progress_views(progress@) =~= seq![progress@[0]@, progress@[1]@]);
            FullSyncStep::Fetch(RepositoryFetch { run: next, progress })
        } else {
            assert(progress_views(progress@) =~= seq![progress@[0]@]);
            FullSyncStep::Finished { progress, summary }
        }
    }
}

/// The record to store for a stored record that was fetched again: the
/// fetched record with the stored acknowledgement, and with `now` as the
/// time of the last CI status change where the status differs and the
/// stored time otherwise.
pub open spec fn refreshed_record(
    existing: PullRequestView,
    fetched: PullRequestView,
    now: Timestamp,
) -> PullRequestView {
    PullRequestView {
        last_acknowledged_at: existing.last_acknowledged_at,
        last_ci_status_update_at: if ci_status_changed(existing, fetched) {
            now
        } else {
            existing.last_ci_status_update_at
        },
        ..fetched
    }
}

/// Gives a record that was fetched again what is carried over from the
/// stored one.
pub fn refresh_pull_request(existing: &PullRequest, fetched: PullRequest, now: Timestamp) -> (record:
    PullRequest)
    ensures
        record@ == refreshed_record(existing@, fetched@, now),
{
    let mut record = fetched;
    record.last_acknowledged_at = existing.last_acknowledged_at;
    record.last_ci_status_update_at = if existing.ci_status != record.ci_status {
        now
    } else {
        existing.last_ci_status_update_at
    };
    record
}

/// Where a quick refresh stands: the stored records it was started with,
/// the position of the record in work, and the count so far.
pub struct QuickRefreshView {
    pub records: Seq<PullRequestView>,
    pub position: usize,
    pub summary: QuickRefreshSummary,
}

impl QuickRefreshView {
    /// The stored record in work.
    pub open spec fn record(self) -> PullRequestView {
        self.records[self.position as int]
    }

    /// The notification that work on the record in work begins.
    pub open spec fn started(self) -> SyncProgressView {
        SyncProgressView::QuickRefreshPullRequestStarted {
            repository: self.record().repository,
            pr_number: self.record().number,
            pr_index: (self.position + 1) as usize,
            total_prs: self.summary.total_prs,
        }
    }

    /// The notification that the record in work was fetched and stored as
    /// `stored`.
    pub open spec fn succeeded(self, stored: PullRequestView) -> SyncProgressView {
        SyncProgressView::QuickRefreshPullRequestCompleted {
            repository: stored.repository,
            pr_number: stored.number,
            pr_index: (self.position + 1) as usize,
            total_prs: self.summary.total_prs,
            ok: true,
            error: None,
        }
    }

    /// The notification that the record in work could not be fetched.
    pub open spec fn failed(self, error: Seq<char>) -> SyncProgressView {
        SyncProgressView::QuickRefreshPullRequestCompleted {
            repository: self.record().repository,
            pr_number: self.record().number,
            pr_index: (self.position + 1) as usize,
            total_prs: self.summary.total_prs,
            ok: false,
            error: Some(error),
        }
    }

    /// The step after the record in work is done with the notification
    /// `done` and the count `summary`: work begins on the following
    /// record, or the run is over.
    pub open spec fn proceed(self, done: SyncProgressView, summary: QuickRefreshSummary)
        -> QuickRefreshStepView {
        let next = QuickRefreshView { position: (self.position + 1) as usize, summary, ..self };
        if next.position < next.records.len() {
            QuickRefreshStepView::Fetch { run: next, progress: seq![done, next.started()] }
        } else {
            QuickRefreshStepView::Finished { progress: seq![done], summary }
        }
    }
}

/// What a quick refresh asks for next.
pub enum QuickRefreshStepView {
    Fetch { run: QuickRefreshView, progress: Seq<SyncProgressView> },
    Finished { progress: Seq<SyncProgressView>, summary: QuickRefreshSummary },
}

/// What a quick refresh asks for once a record was fetched.
pub enum RecordOutcomeView {
    Save { run: QuickRefreshView, record: PullRequestView },
    Next(QuickRefreshStepView),
}

/// The first step of a quick refresh of `records`. It reports the start;
/// then work begins on the first record, or the run is over where there
/// is none.
pub open spec fn quick_refresh_start(records: Seq<PullRequestView>) -> QuickRefreshStepView {
    let summary = QuickRefreshSummary {
        total_prs: records.len() as usize,
        refreshed_prs: 0,
        failed_prs: 0,
    };
    let begun = SyncProgressView::QuickRefreshStarted { total_prs: summary.total_prs };
    if records.len() == 0 {
        QuickRefreshStepView::Finished { progress: seq![begun], summary }
    } else {
        let run = QuickRefreshView { records, position: 0, summary };
        QuickRefreshStepView::Fetch { run, progress: seq![begun, run.started()] }
    }
}

/// The step after the record in work was fetched. A fetched record is to
/// be saved with what is carried over from the stored one. A failure is
/// counted and reported with its text, and the run goes on.
pub open spec fn quick_refresh_after_fetch(
    run: QuickRefreshView,
    outcome: Result<PullRequestView, Seq<char>>,
    now: Timestamp,
) -> RecordOutcomeView {
    match outcome {
        Ok(fetched) => RecordOutcomeView::Save {
            run,
            record: refreshed_record(run.record(), fetched, now),
        },
        Err(error) => RecordOutcomeView::Next(
            run.proceed(
                run.failed(error),
                QuickRefreshSummary {
                    failed_prs: (run.summary.failed_prs + 1) as usize,
                    ..run.summary
                },
            ),
        ),
    }
}

/// The step after the refreshed record `record` was saved: it is counted
/// and reported, and the run goes on.
pub open spec fn quick_refresh_after_save(run: QuickRefreshView, record: PullRequestView)
    -> QuickRefreshStepView {
    run.proceed(
        run.succeeded(record),
        QuickRefreshSummary {
            refreshed_prs: (run.summary.refreshed_prs + 1) as usize,
            ..run.summary
        },
    )
}

/// A quick refresh between two steps.
pub struct QuickRefresh {
    records: Vec<PullRequest>,
    position: usize,
    summary: QuickRefreshSummary,
}

impl View for QuickRefresh {
    type V = QuickRefreshView;

    closed spec fn view(&self) -> QuickRefreshView {
        QuickRefreshView {
            records: views(self.records@),
            position: self.position,
            summary: self.summary,
        }
    }
}

impl QuickRefresh {
    #[verifier::type_invariant]
    spec fn well_formed(self) -> bool {
        &&& self.position < self.records.len()
        &&& self.summary.total_prs == self.records.len()
        &&& self.summary.refreshed_prs + self.summary.failed_prs == self.position
    }

    fn started(&self) -> (event: SyncProgress)
        ensures
            event@ == self@.started(),
    {
        proof {
            use_type_invariant(self);
        }
        SyncProgress::QuickRefreshPullRequestStarted {
            repository: self.records[self.position].repository.clone(),
            pr_number: self.records[self.position].number,
            pr_index: self.position + 1,
            total_prs: self.summary.total_prs,
        }
    }

    /// Goes on to the following record, or ends the run.
    fn proceed(self, done: SyncProgress, summary: QuickRefreshSummary) -> (step: QuickRefreshStep)
        requires
            summary.total_prs == self@.summary.total_prs,
            summary.refreshed_prs + summary.failed_prs == self@.position + 1,
        ensures
            step@ == self@.proceed(done@, summary),
            step@ matches QuickRefreshStepView::Finished { summary, .. } ==> summary.refreshed_prs
                + summary.failed_prs == summary.total_prs,
    {
        proof {
            use_type_invariant(&self);
        }
        let mut progress: Vec<SyncProgress> = Vec::new();
        progress.push(done);
        let position = self.position + 1;
        if position < self.records.len() {
            let next = QuickRefresh { records: self.records, position, summary };
            progress.push(next.started());
            assert(progress_views(progress@) =~= seq![progress@[0]@, progress@[1]@]);
            QuickRefreshStep::Fetch(RecordFetch { run: next, progress })
        } else {
            assert(progress_views(progress@) =~= seq![progress@[0]@]);
            QuickRefreshStep::Finished { progress, summary }
        }
    }
}

/// The request to fetch a stored record again: the next step of a quick
/// refresh.
pub struct RecordFetch {
    run: QuickRefresh,
    progress: Vec<SyncProgress>,
}

/// The request to save a refreshed record.
pub struct RecordSave {
    run: QuickRefresh,
    record: PullRequest,
}

/// What a quick refresh asks for next.
pub enum QuickRefreshStep {
    /// Report the progress of the request, fetch its record again and hand
    /// what came of it to [`RecordFetch::fetched`].
    Fetch(RecordFetch),
    /// Report `progress`. The run is over.
    Finished { progress: Vec<SyncProgress>, summary: QuickRefreshSummary },
}

/// What a quick refresh asks for once a record was fetched.
pub enum RecordOutcome {
    /// Save the record of the request, then call [`RecordSave::saved`].
    Save(RecordSave),
    /// The record could not be fetched; the run goes on with this step.
    Next(QuickRefreshStep),
}

impl View for QuickRefreshStep {
    type V = QuickRefreshStepView;

    open spec fn view(&self) -> QuickRefreshStepView {
        match *self {
            QuickRefreshStep::Fetch(request) => QuickRefreshStepView::Fetch {
                run: request.run(),
                progress: request.announced(),
            },
            QuickRefreshStep::Finished { progress, summary } => QuickRefreshStepView::Finished {
                progress: progress_views(progress@),
                summary,
            },
        }
    }
}

impl View for RecordOutcome {
    type V = RecordOutcomeView;

    open spec fn view(&self) -> RecordOutcomeView {
        match *self {
            RecordOutcome::Save(request) => RecordOutcomeView::Save {
                run: request.run(),
                record: request.refreshed(),
            },
            RecordOutcome::Next(step) => RecordOutcomeView::Next(step@),
        }
    }
}

/// What came of fetching a record, as the run sees it: the record, or the
/// text of the failure.
pub open spec fn fetch_outcome(outcome: Result<PullRequest, TrackerError>) -> Result<
    PullRequestView,
    Seq<char>,
> {
    match outcome {
        Ok(record) => Ok(record@),
        Err(e) => Err(e@.message()),
    }
}

impl QuickRefreshStep {
    /// Begins a quick refresh of the stored records `records`.
    pub fn start(records: Vec<PullRequest>) -> (step: QuickRefreshStep)
        ensures
            step@ == quick_refresh_start(views(records@)),
    {
        let summary = QuickRefreshSummary {
            total_prs: records.len(),
            refreshed_prs: 0,
            failed_prs: 0,
        };
        let begun = SyncProgress::QuickRefreshStarted { total_prs: summary.total_prs };
        let mut progress: Vec<SyncProgress> = Vec::new();
        progress.push(begun);
        if records.len() == 0 {
            assert(progress_views(progress@) =~= seq![progress@[0]@]);
            return QuickRefreshStep::Finished { progress, summary };
        }
        let run = QuickRefresh { records, position: 0, summary };
        progress.push(run.started());
        assert(progress_views(progress@) =~= seq![progress@[0]@, progress@[1]@]);
        QuickRefreshStep::Fetch(RecordFetch { run, progress })
    }

    /// Whether the run is over.
    pub fn is_finished(&self) -> (r: bool)
        ensures
            r == (self@ is Finished),
    {
        match self {
            QuickRefreshStep::Fetch(_) => false,
            QuickRefreshStep::Finished { .. } => true,
        }
    }
}

impl RecordFetch {
    /// The run this request belongs to.
    pub closed spec fn run(&self) -> QuickRefreshView {
        self.run@
    }

    /// The notifications that come with the request.
    pub closed spec fn announced(&self) -> Seq<SyncProgressView> {
        progress_views(self.progress@)
    }

    /// The notifications to deliver before fetching.
    pub fn progress(&self) -> (events: &Vec<SyncProgress>)
        ensures
            progress_views(events@) == self.announced(),
    {
        &self.progress
    }

    /// The stored record to fetch again.
    pub fn record(&self) -> (record: &PullRequest)
        ensures
            record@ == self.run().record(),
    {
        proof {
            use_type_invariant(&self.run);
        }
        &self.run.records[self.run.position]
    }

    /// Takes what came of fetching the record at the instant `now`.
    pub fn fetched(self, outcome: Result<PullRequest, TrackerError>, now: Timestamp) -> (next: RecordOutcome)
        ensures
            next@ == quick_refresh_after_fetch(self.run(), fetch_outcome(outcome), now),
            next@ matches RecordOutcomeView::Next(QuickRefreshStepView::Finished { summary, .. })
                ==> summary.refreshed_prs + summary.failed_prs == summary.total_prs,
    {
        proof {
            use_type_invariant(&self.run);
        }
        let run = self.run;
        match outcome {
            Ok(fetched) => {
                let record = refresh_pull_request(&run.records[run.position], fetched, now);
                RecordOutcome::Save(RecordSave { run, record })
            },
            Err(e) => {
                let done = SyncProgress::QuickRefreshPullRequestCompleted {
                    repository: run.records[run.position].repository.clone(),
                    pr_number: run.records[run.position].number,
                    pr_index: run.position + 1,
                    total_prs: run.summary.total_prs,
                    ok: false,
                    error: Some(e.message()),
                };
                let summary = QuickRefreshSummary {
                    total_prs: run.summary.total_prs,
                    refreshed_prs: run.summary.refreshed_prs,
                    failed_prs: run.summary.failed_prs + 1,
                };
                RecordOutcome::Next(run.proceed(done, summary))
            },
        }
    }
}

impl RecordSave {
    /// The run this request belongs to.
    pub closed spec fn run(&self) -> QuickRefreshView {
        self.run@
    }

    /// The record to save, as a model.
    pub closed spec fn refreshed(&self) -> PullRequestView {
        self.record@
    }

    /// The record to save.
    pub fn record(&self) -> (record: &PullRequest)
        ensures
            record@ == self.refreshed(),
    {
        &self.record
    }

    /// Counts the record once it is saved, and says what comes next.
    pub fn saved(self) -> (step: QuickRefreshStep)
        ensures
            step@ == quick_refresh_after_save(self.run(), self.refreshed()),
            step@ matches QuickRefreshStepView::Finished { summary, .. } ==> summary.refreshed_prs
                + summary.failed_prs == summary.total_prs,
    {
        proof {
            use_type_invariant(&self.run);
        }
        let run = self.run;
        let record = self.record;
        let done = SyncProgress::QuickRefreshPullRequestCompleted {
            repository: record.repository,
            pr_number: record.number,
            pr_index: run.position + 1,
            total_prs: run.summary.total_prs,
            ok: true,
            error: None,
        };
        let summary = QuickRefreshSummary {
            total_prs: run.summary.total_prs,
            refreshed_prs: run.summary.refreshed_prs + 1,
            failed_prs: run.summary.failed_prs,
        };
        run.proceed(done, summary)
    }
}

/// What a full sync reports and returns when it runs from `step` and the
/// reconciliations of the repositories still to come are `diffs`, in
/// order: all notifications from `step` on, and the summary if the run
/// gets to its end.
pub open spec fn full_sync_outcome(step: FullSyncStepView, diffs: Seq<SyncDiffView>) -> (
    Seq<SyncProgressView>,
    Option<SyncRunSummary>,
)
    decreases diffs.len(),
{
    match step {
        FullSyncStepView::Finished { progress, summary } => (progress, Some(summary)),
        FullSyncStepView::Fetch { run, progress } => if diffs.len() == 0 {
            (progress, None)
        } else {
            let rest = full_sync_outcome(full_sync_after_write(run, diffs[0]), diffs.drop_first());
            (progress + rest.0, rest.1)
        },
    }
}

/// How many records the first `n` of `diffs` hold in the list that `pick`
/// names.
pub open spec fn records_in(
    diffs: Seq<SyncDiffView>,
    pick: spec_fn(SyncDiffView) -> Seq<PullRequestView>,
    n: nat,
) -> nat
    decreases n,
{
    if n == 0 {
        0
    } else {
        records_in(diffs, pick, (n - 1) as nat) + pick(diffs[n - 1]).len()
    }
}

/// The count of a full sync after the first `n` repositories, whose
/// reconciliations are `diffs`.
pub open spec fn summary_after(diffs: Seq<SyncDiffView>, n: nat) -> SyncRunSummary {
    SyncRunSummary {
        synced_repositories: n as usize,
        new_prs: records_in(diffs, |d: SyncDiffView| d.new_prs, n) as usize,
        updated_prs: records_in(diffs, |d: SyncDiffView| d.updated_prs, n) as usize,
        deleted_prs: records_in(diffs, |d: SyncDiffView| d.removed_prs, n) as usize,
    }
}

/// Whether the counts of the first `n` repositories fit the summary.
pub open spec fn counts_fit(diffs: Seq<SyncDiffView>, n: nat) -> bool {
    &&& records_in(diffs, |d: SyncDiffView| d.new_prs, n) <= usize::MAX
    &&& records_in(diffs, |d: SyncDiffView| d.updated_prs, n) <= usize::MAX
    &&& records_in(diffs, |d: SyncDiffView| d.removed_prs, n) <= usize::MAX
}

/// The two notifications of the repository at position `at`: that work
/// on it begins, and that it is done with the sizes of `diff`.
pub open spec fn repository_events(repositories: Seq<Seq<char>>, at: nat, diff: SyncDiffView)
    -> Seq<SyncProgressView> {
    seq![
        SyncProgressView::FullSyncRepositoryStarted {
            repository: repositories[at as int],
            repository_index: (at + 1) as usize,
            total_repositories: repositories.len() as usize,
        },
        SyncProgressView::FullSyncRepositoryCompleted {
            repository: repositories[at as int],
            repository_index: (at + 1) as usize,
            total_repositories: repositories.len() as usize,
            new_prs: diff.new_prs.len() as usize,
            updated_prs: diff.updated_prs.len() as usize,
            deleted_prs: diff.removed_prs.len() as usize,
        },
    ]
}

/// The notifications of the repositories from position `from` on, in the
/// order of the repositories.
pub open spec fn events_from(repositories: Seq<Seq<char>>, diffs: Seq<SyncDiffView>, from: nat)
    -> Seq<SyncProgressView>
    decreases repositories.len() - from,
{
    if from >= repositories.len() {
        Seq::empty()
    } else {
        repository_events(repositories, from, diffs[from as int]) + events_from(
            repositories,
            diffs,
            from + 1,
        )
    }
}

/// A full sync that has counted the first `run.position` repositories and
/// is about to fetch the next goes through the remaining repositories in
/// order and ends with the count of all of them.
proof fn lemma_full_sync_from(run: FullSyncView, diffs: Seq<SyncDiffView>, announced: Seq<SyncProgressView>)
    requires
        run.position < run.repositories.len() == diffs.len() <= usize::MAX,
        run.summary == summary_after(diffs, run.position as nat),
        counts_fit(diffs, diffs.len()),
    ensures
        full_sync_outcome(
            FullSyncStepView::Fetch { run, progress: announced.push(run.started()) },
            diffs.skip(run.position as int),
        ) == (
            announced + events_from(run.repositories, diffs, run.position as nat),
            Some(summary_after(diffs, diffs.len())),
        ),
    decreases diffs.len() - run.position,
{
    let at = run.position as nat;
    let rest = diffs.skip(at as int);
    let diff = diffs[at as int];
    let next = run.advanced(diff);
    let done = run.completed(diff);
    let step = FullSyncStepView::Fetch { run, progress: announced.push(run.started()) };
    let after = full_sync_after_write(run, diff);
    assert(rest.drop_first() =~= diffs.skip(at + 1 as int));
    assert(full_sync_outcome(step, rest) == (
        announced.push(run.started()) + full_sync_outcome(after, rest.drop_first()).0,
        full_sync_outcome(after, rest.drop_first()).1,
    ));
    assert(next.summary == summary_after(diffs, at + 1)) by {
        lemma_counts_grow(diffs, at, diffs.len());
    }
    if at + 1 < diffs.len() {
        assert(after == FullSyncStepView::Fetch {
            run: next,
            progress: seq![done].push(next.started()),
        }) by {
            assert(seq![done, next.started()] =~= seq![done].push(next.started()));
        }
        lemma_full_sync_from(next, diffs, seq![done]);
    }
}

/// The counts of the first repositories are no larger than those of more.
proof fn lemma_counts_grow(diffs: Seq<SyncDiffView>, n: nat, m: nat)
    requires
        n <= m,
    ensures
        records_in(diffs, |d: SyncDiffView| d.new_prs, n) <= records_in(
            diffs,
            |d: SyncDiffView| d.new_prs,
            m,
        ),
        records_in(diffs, |d: SyncDiffView| d.updated_prs, n) <= records_in(
            diffs,
            |d: SyncDiffView| d.updated_prs,
            m,
        ),
        records_in(diffs, |d: SyncDiffView| d.removed_prs, n) <= records_in(
            diffs,
            |d: SyncDiffView| d.removed_prs,
            m,
        ),
    decreases m - n,
{
    if n < m {
        lemma_counts_grow(diffs, n, (m - 1) as nat);
    }
}

/// A full sync of an empty scope fetches nothing: where no repository or
/// no author is tracked, it reports its start and ends with nothing
/// counted.
pub proof fn law_empty_scope_fetches_nothing(repositories: Seq<Seq<char>>, authors: Seq<Seq<char>>)
    requires
        repositories.len() == 0 || authors.len() == 0,
    ensures
        full_sync_start(repositories, authors) == (FullSyncStepView::Finished {
            progress: seq![
                SyncProgressView::FullSyncStarted {
                    total_repositories: repositories.len() as usize,
                },
            ],
            summary: SyncRunSummary::zero(),
        }),
{
}

/// A full sync goes through the tracked repositories one after another,
/// in their order: it reports its start, then for each repository that
/// work on it begins and that it is done, and it ends with the number of
/// repositories and the sums of the sizes of their reconciliations.
pub proof fn law_full_sync_visits_every_repository_in_order(
    repositories: Seq<Seq<char>>,
    authors: Seq<Seq<char>>,
    diffs: Seq<SyncDiffView>,
)
    requires
        0 < repositories.len() == diffs.len() <= usize::MAX,
        0 < authors.len(),
        counts_fit(diffs, diffs.len()),
    ensures
        full_sync_outcome(full_sync_start(repositories, authors), diffs) == (
            seq![
                SyncProgressView::FullSyncStarted {
                    total_repositories: repositories.len() as usize,
                },
            ] + events_from(repositories, diffs, 0),
            Some(summary_after(diffs, diffs.len())),
        ),
{
    let run = FullSyncView { repositories, authors, position: 0, summary: SyncRunSummary::zero() };
    let begun = SyncProgressView::FullSyncStarted {
        total_repositories: repositories.len() as usize,
    };
    assert(diffs.skip(0) =~= diffs);
    lemma_full_sync_from(run, diffs, seq![begun]);
}

/// What a quick refresh reports and returns when it runs from `step`,
/// the fetches still to come end as `outcomes`, in order, at the instants
/// `instants`, and every save succeeds: all notifications from `step` on,
/// and the summary if the run gets to its end.
pub open spec fn quick_refresh_outcome(
    step: QuickRefreshStepView,
    outcomes: Seq<Result<PullRequestView, Seq<char>>>,
    instants: Seq<Timestamp>,
) -> (Seq<SyncProgressView>, Option<QuickRefreshSummary>)
    decreases outcomes.len(),
{
    match step {
        QuickRefreshStepView::Finished { progress, summary } => (progress, Some(summary)),
        QuickRefreshStepView::Fetch { run, progress } => if outcomes.len() == 0 {
            (progress, None)
        } else {
            let next = match quick_refresh_after_fetch(run, outcomes[0], instants[0]) {
                RecordOutcomeView::Save { run, record } => quick_refresh_after_save(run, record),
                RecordOutcomeView::Next(step) => step,
            };
            let rest = quick_refresh_outcome(next, outcomes.drop_first(), instants.drop_first());
            (progress + rest.0, rest.1)
        },
    }
}

/// How many of the first `n` fetches succeeded.
pub open spec fn fetched_in(outcomes: Seq<Result<PullRequestView, Seq<char>>>, n: nat) -> nat
    decreases n,
{
    if n == 0 {
        0
    } else {
        fetched_in(outcomes, (n - 1) as nat) + if outcomes[n - 1] is Ok {
            1nat
        } else {
            0nat
        }
    }
}

/// The count of a quick refresh of `total` records after the first `n`,
/// whose fetches ended as `outcomes`: every record is counted once, as
/// refreshed or as failed.
pub open spec fn refresh_summary_after(
    outcomes: Seq<Result<PullRequestView, Seq<char>>>,
    total: nat,
    n: nat,
) -> QuickRefreshSummary {
    QuickRefreshSummary {
        total_prs: total as usize,
        refreshed_prs: fetched_in(outcomes, n) as usize,
        failed_prs: (n - fetched_in(outcomes, n)) as usize,
    }
}

/// The two notifications of the record at position `at`: that work on it
/// begins, and how it ended. A refreshed record is reported under the
/// repository and number that were fetched, a failure under the stored
/// ones and with its text.
pub open spec fn record_events(
    records: Seq<PullRequestView>,
    at: nat,
    outcome: Result<PullRequestView, Seq<char>>,
) -> Seq<SyncProgressView> {
    let stored = records[at as int];
    seq![
        SyncProgressView::QuickRefreshPullRequestStarted {
            repository: stored.repository,
            pr_number: stored.number,
            pr_index: (at + 1) as usize,
            total_prs: records.len() as usize,
        },
        match outcome {
            Ok(fetched) => SyncProgressView::QuickRefreshPullRequestCompleted {
                repository: fetched.repository,
                pr_number: fetched.number,
                pr_index: (at + 1) as usize,
                total_prs: records.len() as usize,
                ok: true,
                error: None,
            },
            Err(error) => SyncProgressView::QuickRefreshPullRequestCompleted {
                repository: stored.repository,
                pr_number: stored.number,
                pr_index: (at + 1) as usize,
                total_prs: records.len() as usize,
                ok: false,
                error: Some(error),
            },
        },
    ]
}

/// The notifications of the records from position `from` on, in the
/// order of the records.
pub open spec fn record_events_from(
    records: Seq<PullRequestView>,
    outcomes: Seq<Result<PullRequestView, Seq<char>>>,
    from: nat,
) -> Seq<SyncProgressView>
    decreases records.len() - from,
{
    if from >= records.len() {
        Seq::empty()
    } else {
        record_events(records, from, outcomes[from as int]) + record_events_from(
            records,
            outcomes,
            from + 1,
        )
    }
}

/// No more fetches succeeded than were made.
proof fn lemma_fetched_in(outcomes: Seq<Result<PullRequestView, Seq<char>>>, n: nat)
    ensures
        fetched_in(outcomes, n) <= n,
    decreases n,
{
    if n > 0 {
        lemma_fetched_in(outcomes, (n - 1) as nat);
    }
}

/// A quick refresh that has counted the first `run.position` records and
/// is about to fetch the next goes through the remaining records in
/// order, whatever fails, and ends with the count of all of them.
proof fn lemma_quick_refresh_from(
    run: QuickRefreshView,
    outcomes: Seq<Result<PullRequestView, Seq<char>>>,
    instants: Seq<Timestamp>,
    announced: Seq<SyncProgressView>,
)
    requires
        run.position < run.records.len() == outcomes.len() <= usize::MAX,
        instants.len() == outcomes.len(),
        run.summary == refresh_summary_after(outcomes, outcomes.len(), run.position as nat),
    ensures
        quick_refresh_outcome(
            QuickRefreshStepView::Fetch { run, progress: announced.push(run.started()) },
            outcomes.skip(run.position as int),
            instants.skip(run.position as int),
        ) == (
            announced + record_events_from(run.records, outcomes, run.position as nat),
            Some(refresh_summary_after(outcomes, outcomes.len(), outcomes.len())),
        ),
    decreases outcomes.len() - run.position,
{
    let at = run.position as nat;
    let rest = outcomes.skip(at as int);
    let later = instants.skip(at as int);
    let outcome = outcomes[at as int];
    let step = QuickRefreshStepView::Fetch { run, progress: announced.push(run.started()) };
    let summary = refresh_summary_after(outcomes, outcomes.len(), at + 1);
    let done = match outcome {
        Ok(fetched) => run.succeeded(refreshed_record(run.record(), fetched, instants[at as int])),
        Err(error) => run.failed(error),
    };
    let after = run.proceed(done, summary);
    assert(rest.drop_first() =~= outcomes.skip(at + 1 as int));
    assert(later.drop_first() =~= instants.skip(at + 1 as int));
    lemma_fetched_in(outcomes, at);
    assert(quick_refresh_outcome(step, rest, later) == (
        announced.push(run.started()) + quick_refresh_outcome(
            after,
            rest.drop_first(),
            later.drop_first(),
        ).0,
        quick_refresh_outcome(after, rest.drop_first(), later.drop_first()).1,
    ));
    let next = QuickRefreshView { position: (at + 1) as usize, summary, ..run };
    if at + 1 < outcomes.len() {
        assert(after == QuickRefreshStepView::Fetch {
            run: next,
            progress: seq![done].push(next.started()),
        }) by {
            assert(seq![done, next.started()] =~= seq![done].push(next.started()));
        }
        lemma_quick_refresh_from(next, outcomes, instants, seq![done]);
    }
}

/// A quick refresh goes through the stored records one after another, in
/// their order, and a failed fetch does not end the run: it reports its
/// start, then for each record that work on it begins and how it ended,
/// and it ends with every record counted once, as refreshed or as failed.
pub proof fn law_quick_refresh_visits_every_record_in_order(
    records: Seq<PullRequestView>,
    outcomes: Seq<Result<PullRequestView, Seq<char>>>,
    instants: Seq<Timestamp>,
)
    requires
        records.len() == outcomes.len() <= usize::MAX,
        instants.len() == outcomes.len(),
    ensures
        quick_refresh_outcome(quick_refresh_start(records), outcomes, instants) == (
            seq![SyncProgressView::QuickRefreshStarted { total_prs: records.len() as usize }]
                + record_events_from(records, outcomes, 0),
            Some(refresh_summary_after(outcomes, outcomes.len(), outcomes.len())),
        ),
        fetched_in(outcomes, outcomes.len()) <= outcomes.len(),
{
    let begun = SyncProgressView::QuickRefreshStarted { total_prs: records.len() as usize };
    lemma_fetched_in(outcomes, outcomes.len());
    if records.len() != 0 {
        let run = QuickRefreshView {
            records,
            position: 0,
            summary: refresh_summary_after(outcomes, outcomes.len(), 0),
        };
        assert(outcomes.skip(0) =~= outcomes);
        assert(instants.skip(0) =~= instants);
        lemma_quick_refresh_from(run, outcomes, instants, seq![begun]);
    }
}

} // verus!
