//! Reconciliation: classifying freshly fetched pull requests against the
//! stored ones into new, updated and removed records.
//!
//! A record's key is its repository and number. The stored record of a key
//! is the last record with that key in the stored list, so a list that
//! holds a key twice behaves like a map filled in list order.

use vstd::prelude::*;
use crate::models::{PullRequest, PullRequestView};
use crate::time::Timestamp;

verus! {

/// The result of a reconciliation.
#[derive(Debug, Default)]
pub struct SyncDiff {
    /// Fetched records whose key is not stored, in fetch order.
    pub new_prs: Vec<PullRequest>,
    /// Fetched records that replace a stored one, in fetch order.
    pub updated_prs: Vec<PullRequest>,
    /// Stored records whose key was not fetched, in stored order.
    pub removed_prs: Vec<PullRequest>,
}

/// The mathematical content of a [`SyncDiff`].
pub struct SyncDiffView {
    pub new_prs: Seq<PullRequestView>,
    pub updated_prs: Seq<PullRequestView>,
    pub removed_prs: Seq<PullRequestView>,
}

/// The contents of a list of records.
pub open spec fn views(records: Seq<PullRequest>) -> Seq<PullRequestView> {
    records.map_values(|p: PullRequest| p@)
}

impl View for SyncDiff {
    type V = SyncDiffView;

    open spec fn view(&self) -> SyncDiffView {
        SyncDiffView {
            new_prs: views(self.new_prs@),
            updated_prs: views(self.updated_prs@),
            removed_prs: views(self.removed_prs@),
        }
    }
}

/// Whether some record of `records` has the key `key`.
pub open spec fn has_key(records: Seq<PullRequestView>, key: (Seq<char>, i64)) -> bool {
    exists|i: int| 0 <= i < records.len() && (#[trigger] records[i]).key() == key
}

/// Whether no two records of `records` share a key.
pub open spec fn distinct_keys(records: Seq<PullRequestView>) -> bool {
    forall|i: int, j: int|
        0 <= i < j < records.len() ==> (#[trigger] records[i]).key() != (#[trigger] records[j]).key()
}

/// Whether no record after position `i` has the key of the record at `i`.
pub open spec fn last_of_key(records: Seq<PullRequestView>, i: int) -> bool {
    forall|j: int| i < j < records.len() ==> (#[trigger] records[j]).key() != records[i].key()
}

/// The stored record of `key`: the last record of `prior` with that key.
pub open spec fn stored(prior: Seq<PullRequestView>, key: (Seq<char>, i64)) -> Option<
    PullRequestView,
>
    decreases prior.len(),
{
    if prior.len() == 0 {
        None
    } else if prior.last().key() == key {
        Some(prior.last())
    } else {
        stored(prior.drop_last(), key)
    }
}

/// Whether the CI status differs between a stored and a fetched record.
pub open spec fn ci_status_changed(existing: PullRequestView, incoming: PullRequestView) -> bool {
    existing.ci_status != incoming.ci_status
}

/// Whether a fetched record differs from the stored one in CI status, time
/// of the last comment or head commit: the differences that cause a write.
pub open spec fn relevant_change(existing: PullRequestView, incoming: PullRequestView) -> bool {
    ||| ci_status_changed(existing, incoming)
    ||| existing.last_comment_at != incoming.last_comment_at
    ||| existing.head_sha != incoming.head_sha
}

/// The fetched record with the metadata that a sync keeps or stamps: the
/// acknowledgement is the stored one; the time of the last commit is `now`
/// where the head commit differs and the stored time otherwise; the time of
/// the last CI status change is `now` where `status_changed` and the stored
/// time otherwise.
pub open spec fn with_sync_metadata(
    existing: PullRequestView,
    incoming: PullRequestView,
    status_changed: bool,
    now: Timestamp,
) -> PullRequestView {
    PullRequestView {
        last_acknowledged_at: existing.last_acknowledged_at,
        last_commit_at: if existing.head_sha != incoming.head_sha {
            now
        } else {
            existing.last_commit_at
        },
        last_ci_status_update_at: if status_changed {
            now
        } else {
            existing.last_ci_status_update_at
        },
        ..incoming
    }
}

/// The record written for a fetched record that replaces a stored one.
pub open spec fn merged(existing: PullRequestView, incoming: PullRequestView, now: Timestamp)
    -> PullRequestView {
    with_sync_metadata(existing, incoming, ci_status_changed(existing, incoming), now)
}

/// Whether a fetched record is new: its key is not stored.
pub open spec fn is_new(prior: Seq<PullRequestView>, incoming: PullRequestView) -> bool {
    stored(prior, incoming.key()) is None
}

/// Whether a fetched record replaces the stored one of its key.
pub open spec fn is_update(prior: Seq<PullRequestView>, incoming: PullRequestView) -> bool {
    stored(prior, incoming.key()) matches Some(existing) && relevant_change(existing, incoming)
}

/// The fetched records whose key is not stored, in fetch order.
pub open spec fn new_records(prior: Seq<PullRequestView>, fresh: Seq<PullRequestView>) -> Seq<
    PullRequestView,
> {
    fresh.filter(|incoming: PullRequestView| is_new(prior, incoming))
}

/// For each fetched record that differs relevantly from the stored one of
/// its key, the record to write, in fetch order.
pub open spec fn updated_records(
    prior: Seq<PullRequestView>,
    fresh: Seq<PullRequestView>,
    now: Timestamp,
) -> Seq<PullRequestView> {
    fresh.filter(|incoming: PullRequestView| is_update(prior, incoming)).map_values(
        |incoming: PullRequestView| merged(stored(prior, incoming.key())->0, incoming, now),
    )
}

/// Whether the stored record at position `i` is to be deleted: nothing
/// fetched has its key, and it is the stored record of that key.
pub open spec fn is_removed(prior: Seq<PullRequestView>, fresh: Seq<PullRequestView>, i: int)
    -> bool {
    !has_key(fresh, prior[i].key()) && last_of_key(prior, i)
}

/// The stored records whose key was not fetched, one for each such key, in
/// stored order.
pub open spec fn removed_records(prior: Seq<PullRequestView>, fresh: Seq<PullRequestView>) -> Seq<
    PullRequestView,
> {
    Seq::new(prior.len(), |i: int| i).filter(|i: int| is_removed(prior, fresh, i)).map_values(
        |i: int| prior[i],
    )
}

/// The three lists that reconciling `fresh` against `prior` at `now` gives.
pub open spec fn reconciled(
    prior: Seq<PullRequestView>,
    fresh: Seq<PullRequestView>,
    now: Timestamp,
) -> SyncDiffView {
    SyncDiffView {
        new_prs: new_records(prior, fresh),
        updated_prs: updated_records(prior, fresh, now),
        removed_prs: removed_records(prior, fresh),
    }
}

/// The stored record of a key has that key and is one of the records.
pub proof fn lemma_stored_is_a_record(prior: Seq<PullRequestView>, key: (Seq<char>, i64))
    requires
        stored(prior, key) is Some,
    ensures
        stored(prior, key)->0.key() == key,
        prior.contains(stored(prior, key)->0),
    decreases prior.len(),
{
    let n = prior.len() - 1;
    if prior.last().key() == key {
        assert(prior[n] == prior.last());
    } else {
        let rest = prior.drop_last();
        lemma_stored_is_a_record(rest, key);
        let i = choose|i: int| 0 <= i < rest.len() && rest[i] == stored(rest, key)->0;
        assert(prior[i] == rest[i]);
    }
}

/// The position of the stored record of a key: no later record has the key.
pub proof fn lemma_stored_position(prior: Seq<PullRequestView>, key: (Seq<char>, i64)) -> (i: int)
    requires
        stored(prior, key) is Some,
    ensures
        0 <= i < prior.len(),
        prior[i] == stored(prior, key)->0,
        prior[i].key() == key,
        last_of_key(prior, i),
    decreases prior.len(),
{
    let n = prior.len() - 1;
    if prior.last().key() == key {
        n
    } else {
        let rest = prior.drop_last();
        let i = lemma_stored_position(rest, key);
        assert(prior[i] == rest[i]);
        assert forall|j: int| i < j < prior.len() implies (#[trigger] prior[j]).key()
            != prior[i].key() by {
            if j < n {
                assert(rest[j] == prior[j]);
            }
        }
        i
    }
}

/// A key with a record has a stored record, and only such a key has one.
pub proof fn lemma_stored_exists(prior: Seq<PullRequestView>, key: (Seq<char>, i64))
    ensures
        stored(prior, key) is Some <==> has_key(prior, key),
    decreases prior.len(),
{
    if prior.len() > 0 {
        let n = prior.len() - 1;
        let rest = prior.drop_last();
        lemma_stored_exists(rest, key);
        if prior.last().key() == key {
            assert(prior[n].key() == key);
        } else {
            if has_key(prior, key) {
                let i = choose|i: int| 0 <= i < prior.len() && (#[trigger] prior[i]).key() == key;
                assert(rest[i].key() == key);
            }
            if has_key(rest, key) {
                let i = choose|i: int| 0 <= i < rest.len() && (#[trigger] rest[i]).key() == key;
                assert(prior[i].key() == key);
            }
        }
    }
}

/// The stored record of a key is the record at the last position with that key.
pub proof fn lemma_stored_is_last(prior: Seq<PullRequestView>, i: int)
    requires
        0 <= i < prior.len(),
        last_of_key(prior, i),
    ensures
        stored(prior, prior[i].key()) == Some(prior[i]),
    decreases prior.len(),
{
    let n = prior.len() - 1;
    if i < n {
        let rest = prior.drop_last();
        assert(prior[n].key() != prior[i].key());
        assert forall|j: int| i < j < rest.len() implies (#[trigger] rest[j]).key()
            != rest[i].key() by {
            assert(rest[j] == prior[j]);
        }
        lemma_stored_is_last(rest, i);
    }
}

/// Whether two records have the same key.
fn same_key(a: &PullRequest, b: &PullRequest) -> (r: bool)
    ensures
        r == (a@.key() == b@.key()),
{
    a.number == b.number && a.repository == b.repository
}

/// Whether a record of `records[from..]` has the key of `wanted`.
fn key_occurs(records: &[PullRequest], from: usize, wanted: &PullRequest) -> (r: bool)
    requires
        from <= records.len(),
    ensures
        r == exists|j: int|
            from <= j < records.len() && (#[trigger] views(records@)[j]).key() == wanted@.key(),
{
    let mut j: usize = from;
    while j < records.len()
        invariant
            from <= j <= records.len(),
            forall|k: int| from <= k < j ==> (#[trigger] views(records@)[k]).key() != wanted@.key(),
        decreases records.len() - j,
    {
        if same_key(&records[j], wanted) {
            assert(views(records@)[j as int].key() == wanted@.key());
            return true;
        }
        j += 1;
    }
    false
}

/// The position of the stored record with the key of `wanted`.
fn find_stored(prior: &[PullRequest], wanted: &PullRequest) -> (r: Option<usize>)
    ensures
        match r {
            Some(i) => i < prior.len() && stored(views(prior@), wanted@.key()) == Some(prior[i as int]@),
            None => stored(views(prior@), wanted@.key()) is None,
        },
{
    let mut i: usize = prior.len();
    while i > 0
        invariant
            i <= prior.len(),
            forall|k: int| i <= k < prior.len() ==> (#[trigger] views(prior@)[k]).key() != wanted@.key(),
        decreases i,
    {
        i -= 1;
        if same_key(&prior[i], wanted) {
            proof {
                lemma_stored_is_last(views(prior@), i as int);
            }
            return Some(i);
        }
    }
    proof {
        lemma_stored_exists(views(prior@), wanted@.key());
    }
    None
}

/// Compares a stored record with a fetched one. The first answer says
/// whether the CI status differs, the second whether anything differs that
/// causes a write.
pub fn pull_request_has_relevant_changes(existing_pr: &PullRequest, incoming_pr: &PullRequest) -> (r:
    (bool, bool))
    ensures
        r.0 == ci_status_changed(existing_pr@, incoming_pr@),
        r.1 == relevant_change(existing_pr@, incoming_pr@),
{
    let ci_status_changed = existing_pr.ci_status != incoming_pr.ci_status;
    let last_comment_changed = existing_pr.last_comment_at != incoming_pr.last_comment_at;
    let head_sha_changed = existing_pr.head_sha != incoming_pr.head_sha;
    (ci_status_changed, ci_status_changed || last_comment_changed || head_sha_changed)
}

/// Gives a fetched record the metadata that a sync keeps or stamps.
pub fn apply_sync_metadata(
    existing_pr: &PullRequest,
    incoming_pr: &mut PullRequest,
    ci_status_changed: bool,
    now: Timestamp,
)
    ensures
        final(incoming_pr)@ == with_sync_metadata(
            existing_pr@,
            old(incoming_pr)@,
            ci_status_changed,
            now,
        ),
{
    incoming_pr.last_acknowledged_at = existing_pr.last_acknowledged_at;
    incoming_pr.last_commit_at = if existing_pr.head_sha != incoming_pr.head_sha {
        now
    } else {
        existing_pr.last_commit_at
    };
    incoming_pr.last_ci_status_update_at = if ci_status_changed {
        now
    } else {
        existing_pr.last_ci_status_update_at
    };
}

/// The stored records that a sync deletes.
pub fn collect_removed_pull_requests(prior: &[PullRequest], fresh: &[PullRequest]) -> (removed: Vec<
    PullRequest,
>)
    ensures
        views(removed@) == removed_records(views(prior@), views(fresh@)),
{
    let ghost p = views(prior@);
    let ghost f = views(fresh@);
    let ghost positions = Seq::new(p.len(), |i: int| i);
    let ghost keep = |i: int| is_removed(p, f, i);
    let ghost pick = |i: int| p[i];
    let mut removed: Vec<PullRequest> = Vec::new();
    let mut i: usize = 0;
    while i < prior.len()
        invariant
            i <= prior.len(),
            p == views(prior@),
            f == views(fresh@),
            positions == Seq::new(p.len(), |i: int| i),
            keep == |i: int| is_removed(p, f, i),
            pick == |i: int| p[i],
            views(removed@) == positions.take(i as int).filter(keep).map_values(pick),
        decreases prior.len() - i,
    {
        let record = &prior[i];
        let fetched = key_occurs(fresh, 0, record);
        let later = key_occurs(prior, i + 1, record);
        proof {
            let before = positions.take(i as int);
            assert(positions.take(i + 1) =~= before.push(i as int));
            before.lemma_filter_push(i as int, keep);
        }
        if !fetched && !later {
            removed.push(record.clone());
            proof {
                let before = positions.take(i as int).filter(keep);
                assert(views(removed@) =~= before.map_values(pick).push(p[i as int]));
            }
        }
        i += 1;
    }
    proof {
        assert(positions.take(prior.len() as int) =~= positions);
    }
    removed
}

/// Reconciles the freshly fetched records of a scope against the stored
/// records of the same scope.
pub fn process_pull_request_sync_results(
    prs_from_database: &[PullRequest],
    prs_from_fresh_sync: &[PullRequest],
    now: Timestamp,
) -> (diff: SyncDiff)
    ensures
        diff@ == reconciled(views(prs_from_database@), views(prs_from_fresh_sync@), now),
{
    let ghost p = views(prs_from_database@);
    let ghost f = views(prs_from_fresh_sync@);
    let ghost fresh_only = |incoming: PullRequestView| is_new(p, incoming);
    let ghost changed = |incoming: PullRequestView| is_update(p, incoming);
    let ghost write = |incoming: PullRequestView| merged(stored(p, incoming.key())->0, incoming, now);
    let mut new_prs: Vec<PullRequest> = Vec::new();
    let mut updated_prs: Vec<PullRequest> = Vec::new();
    let mut i: usize = 0;
    while i < prs_from_fresh_sync.len()
        invariant
            i <= prs_from_fresh_sync.len(),
            p == views(prs_from_database@),
            f == views(prs_from_fresh_sync@),
            fresh_only == |incoming: PullRequestView| is_new(p, incoming),
            changed == |incoming: PullRequestView| is_update(p, incoming),
            write == |incoming: PullRequestView|
                merged(stored(p, incoming.key())->0, incoming, now),
            views(new_prs@) == f.take(i as int).filter(fresh_only),
            views(updated_prs@) == f.take(i as int).filter(changed).map_values(write),
        decreases prs_from_fresh_sync.len() - i,
    {
        let incoming_pr = &prs_from_fresh_sync[i];
        proof {
            let before = f.take(i as int);
            assert(f.take(i + 1) =~= before.push(incoming_pr@));
            before.lemma_filter_push(incoming_pr@, fresh_only);
            before.lemma_filter_push(incoming_pr@, changed);
        }
        match find_stored(prs_from_database, incoming_pr) {
            None => {
                new_prs.push(incoming_pr.clone());
            },
            Some(k) => {
                let existing_pr = &prs_from_database[k];
                let (ci_status_changed, has_relevant_changes) = pull_request_has_relevant_changes(
                    existing_pr,
                    incoming_pr,
                );
                if has_relevant_changes {
                    let mut updated = incoming_pr.clone();
                    apply_sync_metadata(existing_pr, &mut updated, ci_status_changed, now);
                    updated_prs.push(updated);
                    proof {
                        let before = f.take(i as int).filter(changed);
                        assert(views(updated_prs@) =~= before.map_values(write).push(
                            write(incoming_pr@),
                        ));
                    }
                }
            },
        }
        i += 1;
    }
    proof {
        assert(f.take(prs_from_fresh_sync.len() as int) =~= f);
    }
    let removed_prs = collect_removed_pull_requests(prs_from_database, prs_from_fresh_sync);
    SyncDiff { new_prs, updated_prs, removed_prs }
}

/// Every new record is a fetched record whose key is not stored.
pub proof fn lemma_new_record(prior: Seq<PullRequestView>, fresh: Seq<PullRequestView>, k: int)
    requires
        0 <= k < new_records(prior, fresh).len(),
    ensures
        fresh.contains(new_records(prior, fresh)[k]),
        !has_key(prior, new_records(prior, fresh)[k].key()),
{
    let fresh_only = |incoming: PullRequestView| is_new(prior, incoming);
    let record = fresh.filter(fresh_only)[k];
    fresh.lemma_filter_pred(fresh_only, k);
    assert(fresh.filter(fresh_only).contains(record));
    fresh.lemma_filter_contains_rev(fresh_only, record);
    lemma_stored_exists(prior, record.key());
}

/// Every updated record is the merge of a fetched record into the stored
/// record of its key, from which it differs relevantly.
pub proof fn lemma_updated_record(
    prior: Seq<PullRequestView>,
    fresh: Seq<PullRequestView>,
    now: Timestamp,
    k: int,
) -> (incoming: PullRequestView)
    requires
        0 <= k < updated_records(prior, fresh, now).len(),
    ensures
        fresh.contains(incoming),
        stored(prior, incoming.key()) is Some,
        relevant_change(stored(prior, incoming.key())->0, incoming),
        updated_records(prior, fresh, now)[k] == merged(
            stored(prior, incoming.key())->0,
            incoming,
            now,
        ),
        updated_records(prior, fresh, now)[k].key() == incoming.key(),
{
    let changed = |incoming: PullRequestView| is_update(prior, incoming);
    let incoming = fresh.filter(changed)[k];
    fresh.lemma_filter_pred(changed, k);
    assert(fresh.filter(changed).contains(incoming));
    fresh.lemma_filter_contains_rev(changed, incoming);
    incoming
}

/// Every removed record is the stored record of a key that was not fetched.
pub proof fn lemma_removed_record(prior: Seq<PullRequestView>, fresh: Seq<PullRequestView>, k: int)
    requires
        0 <= k < removed_records(prior, fresh).len(),
    ensures
        stored(prior, removed_records(prior, fresh)[k].key()) == Some(
            removed_records(prior, fresh)[k],
        ),
        !has_key(fresh, removed_records(prior, fresh)[k].key()),
{
    let positions = Seq::new(prior.len(), |i: int| i);
    let keep = |i: int| is_removed(prior, fresh, i);
    let i = positions.filter(keep)[k];
    positions.lemma_filter_pred(keep, k);
    assert(positions.filter(keep).contains(i));
    positions.lemma_filter_contains_rev(keep, i);
    let at = choose|at: int| 0 <= at < positions.len() && positions[at] == i;
    assert(i == at);
    lemma_stored_is_last(prior, i);
}

/// A fetched record whose key is not stored is among the new records,
/// exactly as it was fetched.
pub proof fn law_unstored_key_is_new(
    prior: Seq<PullRequestView>,
    fresh: Seq<PullRequestView>,
    now: Timestamp,
    j: int,
)
    requires
        0 <= j < fresh.len(),
        !has_key(prior, fresh[j].key()),
    ensures
        reconciled(prior, fresh, now).new_prs.contains(fresh[j]),
{
    let fresh_only = |incoming: PullRequestView| is_new(prior, incoming);
    lemma_stored_exists(prior, fresh[j].key());
    fresh.lemma_filter_contains(fresh_only, j);
}

/// A key that is stored and fetched, and whose fetched records all agree
/// with the stored record in CI status, time of the last comment and head
/// commit, is in none of the three lists.
pub proof fn law_unchanged_key_is_untouched(
    prior: Seq<PullRequestView>,
    fresh: Seq<PullRequestView>,
    now: Timestamp,
    key: (Seq<char>, i64),
)
    requires
        has_key(prior, key),
        has_key(fresh, key),
        forall|j: int|
            0 <= j < fresh.len() && (#[trigger] fresh[j]).key() == key ==> !relevant_change(
                stored(prior, key)->0,
                fresh[j],
            ),
    ensures
        !has_key(reconciled(prior, fresh, now).new_prs, key),
        !has_key(reconciled(prior, fresh, now).updated_prs, key),
        !has_key(reconciled(prior, fresh, now).removed_prs, key),
{
    let diff = reconciled(prior, fresh, now);
    if has_key(diff.new_prs, key) {
        let k = choose|k: int| 0 <= k < diff.new_prs.len() && (#[trigger] diff.new_prs[k]).key() == key;
        lemma_new_record(prior, fresh, k);
    }
    if has_key(diff.updated_prs, key) {
        let k = choose|k: int|
            0 <= k < diff.updated_prs.len() && (#[trigger] diff.updated_prs[k]).key() == key;
        let incoming = lemma_updated_record(prior, fresh, now, k);
        let j = choose|j: int| 0 <= j < fresh.len() && fresh[j] == incoming;
        assert(fresh[j].key() == key);
    }
    if has_key(diff.removed_prs, key) {
        let k = choose|k: int|
            0 <= k < diff.removed_prs.len() && (#[trigger] diff.removed_prs[k]).key() == key;
        lemma_removed_record(prior, fresh, k);
    }
}

/// Where a fetched record differs in CI status from the stored record of
/// its key, the updated records hold its merge: the fetched record with
/// `now` as the time of the last status change and with the stored
/// acknowledgement, whatever acknowledgement was fetched.
pub proof fn law_status_change_is_stamped(
    prior: Seq<PullRequestView>,
    fresh: Seq<PullRequestView>,
    now: Timestamp,
    j: int,
)
    requires
        0 <= j < fresh.len(),
        stored(prior, fresh[j].key()) is Some,
        stored(prior, fresh[j].key())->0.ci_status != fresh[j].ci_status,
    ensures
        ({
            let existing = stored(prior, fresh[j].key())->0;
            let updated = merged(existing, fresh[j], now);
            &&& reconciled(prior, fresh, now).updated_prs.contains(updated)
            &&& updated.key() == fresh[j].key()
            &&& updated.ci_status == fresh[j].ci_status
            &&& updated.last_ci_status_update_at == now
            &&& updated.last_acknowledged_at == existing.last_acknowledged_at
        }),
{
    let changed = |incoming: PullRequestView| is_update(prior, incoming);
    let write = |incoming: PullRequestView| merged(stored(prior, incoming.key())->0, incoming, now);
    fresh.lemma_filter_contains(changed, j);
    let k = choose|k: int| 0 <= k < fresh.filter(changed).len() && fresh.filter(changed)[k] == fresh[j];
    assert(fresh.filter(changed).map_values(write)[k] == write(fresh[j]));
}

/// The stored record of a key that was not fetched is among the removed
/// records, exactly as it was stored.
pub proof fn law_unfetched_key_is_removed(
    prior: Seq<PullRequestView>,
    fresh: Seq<PullRequestView>,
    now: Timestamp,
    key: (Seq<char>, i64),
)
    requires
        has_key(prior, key),
        !has_key(fresh, key),
    ensures
        stored(prior, key) is Some,
        prior.contains(stored(prior, key)->0),
        reconciled(prior, fresh, now).removed_prs.contains(stored(prior, key)->0),
{
    let positions = Seq::new(prior.len(), |i: int| i);
    let keep = |i: int| is_removed(prior, fresh, i);
    let pick = |i: int| prior[i];
    lemma_stored_exists(prior, key);
    lemma_stored_is_a_record(prior, key);
    let i = lemma_stored_position(prior, key);
    assert(positions[i] == i);
    positions.lemma_filter_contains(keep, i);
    let k = choose|k: int| 0 <= k < positions.filter(keep).len() && positions.filter(keep)[k] == i;
    assert(positions.filter(keep).map_values(pick)[k] == prior[i]);
}

/// No key is in two of the three lists.
pub proof fn law_partitions_are_disjoint(
    prior: Seq<PullRequestView>,
    fresh: Seq<PullRequestView>,
    now: Timestamp,
    key: (Seq<char>, i64),
)
    ensures
        !(has_key(reconciled(prior, fresh, now).new_prs, key) && has_key(
            reconciled(prior, fresh, now).updated_prs,
            key,
        )),
        !(has_key(reconciled(prior, fresh, now).new_prs, key) && has_key(
            reconciled(prior, fresh, now).removed_prs,
            key,
        )),
        !(has_key(reconciled(prior, fresh, now).updated_prs, key) && has_key(
            reconciled(prior, fresh, now).removed_prs,
            key,
        )),
{
    let diff = reconciled(prior, fresh, now);
    lemma_stored_exists(prior, key);
    if has_key(diff.new_prs, key) {
        let k = choose|k: int| 0 <= k < diff.new_prs.len() && (#[trigger] diff.new_prs[k]).key() == key;
        lemma_new_record(prior, fresh, k);
    }
    if has_key(diff.updated_prs, key) {
        let k = choose|k: int|
            0 <= k < diff.updated_prs.len() && (#[trigger] diff.updated_prs[k]).key() == key;
        let incoming = lemma_updated_record(prior, fresh, now, k);
        let j = choose|j: int| 0 <= j < fresh.len() && fresh[j] == incoming;
        assert(fresh[j].key() == key);
    }
    if has_key(diff.removed_prs, key) {
        let k = choose|k: int|
            0 <= k < diff.removed_prs.len() && (#[trigger] diff.removed_prs[k]).key() == key;
        lemma_removed_record(prior, fresh, k);
    }
}

/// Reconciling the same records at the same instant twice gives the same
/// three lists: the result depends on nothing but the arguments.
pub proof fn law_same_inputs_same_partitions(
    first: SyncDiff,
    second: SyncDiff,
    prior: Seq<PullRequest>,
    fresh: Seq<PullRequest>,
    now: Timestamp,
)
    requires
        first@ == reconciled(views(prior), views(fresh), now),
        second@ == reconciled(views(prior), views(fresh), now),
    ensures
        first@ == second@,
{
}

/// Whether two lists hold the same records, in whatever order.
pub open spec fn same_records(a: Seq<PullRequestView>, b: Seq<PullRequestView>) -> bool {
    forall|x: PullRequestView| a.contains(x) <==> b.contains(x)
}

/// Lists of the same records have the same keys.
pub proof fn lemma_same_records_same_keys(
    a: Seq<PullRequestView>,
    b: Seq<PullRequestView>,
    key: (Seq<char>, i64),
)
    requires
        same_records(a, b),
    ensures
        has_key(a, key) == has_key(b, key),
{
    if has_key(a, key) {
        let i = choose|i: int| 0 <= i < a.len() && (#[trigger] a[i]).key() == key;
        assert(a.contains(a[i]));
        let j = choose|j: int| 0 <= j < b.len() && b[j] == a[i];
        assert(b[j].key() == key);
    }
    if has_key(b, key) {
        let i = choose|i: int| 0 <= i < b.len() && (#[trigger] b[i]).key() == key;
        assert(b.contains(b[i]));
        let j = choose|j: int| 0 <= j < a.len() && a[j] == b[i];
        assert(a[j].key() == key);
    }
}

/// Where no key is stored twice, the stored record of a key is the one
/// record with that key.
pub proof fn lemma_stored_where_keys_are_distinct(prior: Seq<PullRequestView>, i: int)
    requires
        distinct_keys(prior),
        0 <= i < prior.len(),
    ensures
        stored(prior, prior[i].key()) == Some(prior[i]),
{
    lemma_stored_is_last(prior, i);
}

/// Where no key is stored twice, the stored record of a key does not
/// depend on the order of the stored records.
pub proof fn lemma_stored_by_records(
    a: Seq<PullRequestView>,
    b: Seq<PullRequestView>,
    key: (Seq<char>, i64),
)
    requires
        distinct_keys(a),
        distinct_keys(b),
        same_records(a, b),
    ensures
        stored(a, key) == stored(b, key),
{
    lemma_stored_exists(a, key);
    lemma_stored_exists(b, key);
    lemma_same_records_same_keys(a, b, key);
    if stored(a, key) is Some {
        let i = lemma_stored_position(a, key);
        assert(a.contains(a[i]));
        let j = choose|j: int| 0 <= j < b.len() && b[j] == a[i];
        lemma_stored_where_keys_are_distinct(b, j);
    }
}

/// A record is new exactly where it was fetched and its key is not stored.
pub proof fn lemma_new_records(
    prior: Seq<PullRequestView>,
    fresh: Seq<PullRequestView>,
    x: PullRequestView,
)
    ensures
        new_records(prior, fresh).contains(x) <==> fresh.contains(x) && !has_key(prior, x.key()),
{
    let fresh_only = |incoming: PullRequestView| is_new(prior, incoming);
    lemma_stored_exists(prior, x.key());
    if new_records(prior, fresh).contains(x) {
        let k = choose|k: int|
            0 <= k < new_records(prior, fresh).len() && new_records(prior, fresh)[k] == x;
        lemma_new_record(prior, fresh, k);
    }
    if fresh.contains(x) && !has_key(prior, x.key()) {
        let j = choose|j: int| 0 <= j < fresh.len() && fresh[j] == x;
        fresh.lemma_filter_contains(fresh_only, j);
    }
}

/// Whether `x` is what is written for the fetched record `incoming`.
pub open spec fn is_write_for(
    prior: Seq<PullRequestView>,
    incoming: PullRequestView,
    now: Timestamp,
    x: PullRequestView,
) -> bool {
    is_update(prior, incoming) && x == merged(stored(prior, incoming.key())->0, incoming, now)
}

/// A record is among the updated ones exactly where it is what is written
/// for some fetched record.
pub proof fn lemma_updated_records(
    prior: Seq<PullRequestView>,
    fresh: Seq<PullRequestView>,
    now: Timestamp,
    x: PullRequestView,
)
    ensures
        updated_records(prior, fresh, now).contains(x) <==> exists|j: int|
            0 <= j < fresh.len() && is_write_for(prior, #[trigger] fresh[j], now, x),
{
    let changed = |incoming: PullRequestView| is_update(prior, incoming);
    let write = |incoming: PullRequestView| merged(stored(prior, incoming.key())->0, incoming, now);
    let updated = updated_records(prior, fresh, now);
    if updated.contains(x) {
        let k = choose|k: int| 0 <= k < updated.len() && updated[k] == x;
        let incoming = lemma_updated_record(prior, fresh, now, k);
        let j = choose|j: int| 0 <= j < fresh.len() && fresh[j] == incoming;
        assert(is_write_for(prior, fresh[j], now, x));
    }
    if exists|j: int| 0 <= j < fresh.len() && is_write_for(prior, #[trigger] fresh[j], now, x) {
        let j = choose|j: int| 0 <= j < fresh.len() && is_write_for(prior, #[trigger] fresh[j], now, x);
        fresh.lemma_filter_contains(changed, j);
        let k = choose|k: int|
            0 <= k < fresh.filter(changed).len() && fresh.filter(changed)[k] == fresh[j];
        assert(fresh.filter(changed).map_values(write)[k] == x);
    }
}

/// Where no key is stored twice, a record is removed exactly where it is
/// stored and its key was not fetched.
pub proof fn lemma_removed_records(
    prior: Seq<PullRequestView>,
    fresh: Seq<PullRequestView>,
    x: PullRequestView,
)
    requires
        distinct_keys(prior),
    ensures
        removed_records(prior, fresh).contains(x) <==> prior.contains(x) && !has_key(
            fresh,
            x.key(),
        ),
{
    let removed = removed_records(prior, fresh);
    if removed.contains(x) {
        let k = choose|k: int| 0 <= k < removed.len() && removed[k] == x;
        lemma_removed_record(prior, fresh, k);
        lemma_stored_is_a_record(prior, x.key());
    }
    if prior.contains(x) && !has_key(fresh, x.key()) {
        let i = choose|i: int| 0 <= i < prior.len() && prior[i] == x;
        assert(has_key(prior, x.key())) by {
            assert(prior[i].key() == x.key());
        }
        lemma_stored_where_keys_are_distinct(prior, i);
        law_unfetched_key_is_removed(prior, fresh, Timestamp::epoch(), x.key());
    }
}

/// The order of the records does not matter: where no key is stored
/// twice, stored lists of the same records and fetched lists of the same
/// records give lists of the same new, updated and removed records.
pub proof fn law_order_does_not_matter(
    prior: Seq<PullRequestView>,
    reordered_prior: Seq<PullRequestView>,
    fresh: Seq<PullRequestView>,
    reordered_fresh: Seq<PullRequestView>,
    now: Timestamp,
)
    requires
        distinct_keys(prior),
        distinct_keys(reordered_prior),
        same_records(prior, reordered_prior),
        same_records(fresh, reordered_fresh),
    ensures
        same_records(
            reconciled(prior, fresh, now).new_prs,
            reconciled(reordered_prior, reordered_fresh, now).new_prs,
        ),
        same_records(
            reconciled(prior, fresh, now).updated_prs,
            reconciled(reordered_prior, reordered_fresh, now).updated_prs,
        ),
        same_records(
            reconciled(prior, fresh, now).removed_prs,
            reconciled(reordered_prior, reordered_fresh, now).removed_prs,
        ),
{
    assert forall|x: PullRequestView|
        new_records(prior, fresh).contains(x) <==> new_records(
            reordered_prior,
            reordered_fresh,
        ).contains(x) by {
        lemma_new_records(prior, fresh, x);
        lemma_new_records(reordered_prior, reordered_fresh, x);
        lemma_same_records_same_keys(prior, reordered_prior, x.key());
    }
    assert forall|x: PullRequestView|
        removed_records(prior, fresh).contains(x) <==> removed_records(
            reordered_prior,
            reordered_fresh,
        ).contains(x) by {
        lemma_removed_records(prior, fresh, x);
        lemma_removed_records(reordered_prior, reordered_fresh, x);
        lemma_same_records_same_keys(fresh, reordered_fresh, x.key());
    }
    assert forall|x: PullRequestView|
        updated_records(prior, fresh, now).contains(x) <==> updated_records(
            reordered_prior,
            reordered_fresh,
            now,
        ).contains(x) by {
        lemma_updated_records(prior, fresh, now, x);
        lemma_updated_records(reordered_prior, reordered_fresh, now, x);
        if exists|j: int| 0 <= j < fresh.len() && is_write_for(prior, #[trigger] fresh[j], now, x) {
            let j = choose|j: int|
                0 <= j < fresh.len() && is_write_for(prior, #[trigger] fresh[j], now, x);
            assert(fresh.contains(fresh[j]));
            let k = choose|k: int| 0 <= k < reordered_fresh.len() && reordered_fresh[k] == fresh[j];
            lemma_stored_by_records(prior, reordered_prior, fresh[j].key());
            assert(is_write_for(reordered_prior, reordered_fresh[k], now, x));
        }
        if exists|j: int|
            0 <= j < reordered_fresh.len() && is_write_for(
                reordered_prior,
                #[trigger] reordered_fresh[j],
                now,
                x,
            ) {
            let j = choose|j: int|
                0 <= j < reordered_fresh.len() && is_write_for(
                    reordered_prior,
                    #[trigger] reordered_fresh[j],
                    now,
                    x,
                );
            assert(reordered_fresh.contains(reordered_fresh[j]));
            let k = choose|k: int| 0 <= k < fresh.len() && fresh[k] == reordered_fresh[j];
            lemma_stored_by_records(prior, reordered_prior, reordered_fresh[j].key());
            assert(is_write_for(prior, fresh[k], now, x));
        }
    }
}

} // verus!
