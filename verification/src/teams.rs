//! Finding authors to track among the members of the user's teams.
//!
//! Logins are compared without regard to case: two logins are the same
//! member where their lowercase forms are equal.

use vstd::prelude::*;
use crate::text::{is_sorted, lowercase, sort_strings, to_lowercase};
use crate::tui_app::TeamsPayload;

verus! {

/// Whether two logins are equal but for case.
pub open spec fn same_login(a: Seq<char>, b: Seq<char>) -> bool {
    lowercase(a) == lowercase(b)
}

/// Whether one of `logins` equals `login` but for case.
pub open spec fn has_login(logins: Seq<Seq<char>>, login: Seq<char>) -> bool {
    exists|i: int| 0 <= i < logins.len() && same_login(#[trigger] logins[i], login)
}

/// Whether the member at position `i` is offered on the authors screen:
/// it is not the user, no earlier member is the same but for case, and it
/// is not tracked.
pub open spec fn is_untracked_member(
    members: Seq<Seq<char>>,
    username: Seq<char>,
    tracked_authors: Seq<Seq<char>>,
    i: int,
) -> bool {
    &&& !same_login(members[i], username)
    &&& !has_login(members.take(i), members[i])
    &&& !has_login(tracked_authors, members[i])
}

/// The members offered on the authors screen, in the order of `members`.
pub open spec fn untracked_members(
    members: Seq<Seq<char>>,
    username: Seq<char>,
    tracked_authors: Seq<Seq<char>>,
) -> Seq<Seq<char>> {
    Seq::new(members.len(), |i: int| i).filter(
        |i: int| is_untracked_member(members, username, tracked_authors, i),
    ).map_values(|i: int| members[i])
}

/// Whether the member at position `i` is offered for selection on the
/// command line: no earlier member has the very same login, it is not the
/// user, and it is not tracked.
pub open spec fn is_candidate(
    members: Seq<Seq<char>>,
    username: Seq<char>,
    tracked_authors: Seq<Seq<char>>,
    i: int,
) -> bool {
    &&& !members.take(i).contains(members[i])
    &&& !same_login(members[i], username)
    &&& !has_login(tracked_authors, members[i])
}

/// The members offered for selection on the command line, in the order of
/// `members`.
pub open spec fn candidates(
    members: Seq<Seq<char>>,
    username: Seq<char>,
    tracked_authors: Seq<Seq<char>>,
) -> Seq<Seq<char>> {
    Seq::new(members.len(), |i: int| i).filter(
        |i: int| is_candidate(members, username, tracked_authors, i),
    ).map_values(|i: int| members[i])
}

/// The lowercase forms of a list of logins.
fn lowercase_all(logins: &[String]) -> (out: Vec<String>)
    ensures
        out.len() == logins.len(),
        forall|i: int| 0 <= i < out.len() ==> (#[trigger] out@[i])@ == lowercase(logins@[i]@),
{
    let mut out: Vec<String> = Vec::new();
    let mut i: usize = 0;
    while i < logins.len()
        invariant
            i <= logins.len(),
            out.len() == i,
            forall|k: int| 0 <= k < i ==> (#[trigger] out@[k])@ == lowercase(logins@[k]@),
        decreases logins.len() - i,
    {
        out.push(to_lowercase(logins[i].as_str()));
        i += 1;
    }
    out
}

/// Whether `wanted` is among the first `upto` of `lowered`.
fn occurs(lowered: &Vec<String>, upto: usize, wanted: &String) -> (r: bool)
    requires
        upto <= lowered.len(),
    ensures
        r == exists|k: int| 0 <= k < upto && (#[trigger] lowered@[k])@ == wanted@,
{
    let mut k: usize = 0;
    while k < upto
        invariant
            k <= upto <= lowered.len(),
            forall|j: int| 0 <= j < k ==> (#[trigger] lowered@[j])@ != wanted@,
        decreases upto - k,
    {
        if lowered[k] == *wanted {
            return true;
        }
        k += 1;
    }
    false
}

/// Whether `wanted` is among the first `upto` of `logins`, letter for letter.
fn occurs_exactly(logins: &[String], upto: usize, wanted: &String) -> (r: bool)
    requires
        upto <= logins.len(),
    ensures
        r == logins.deep_view().take(upto as int).contains(wanted@),
{
    let ghost texts = logins.deep_view().take(upto as int);
    let mut k: usize = 0;
    while k < upto
        invariant
            k <= upto <= logins.len(),
            texts == logins.deep_view().take(upto as int),
            forall|j: int| 0 <= j < k ==> texts[j] != wanted@,
        decreases upto - k,
    {
        if logins[k] == *wanted {
            assert(texts[k as int] == wanted@);
            return true;
        }
        k += 1;
    }
    false
}

/// The team members to offer on the authors screen.
pub fn select_untracked_members(
    member_logins: &[String],
    username: &str,
    tracked_authors: &[String],
) -> (out: Vec<String>)
    ensures
        out.deep_view() == untracked_members(
            member_logins.deep_view(),
            username@,
            tracked_authors.deep_view(),
        ),
{
    let ghost members = member_logins.deep_view();
    let ghost tracked_logins = tracked_authors.deep_view();
    let ghost positions = Seq::new(members.len(), |i: int| i);
    let ghost keep = |i: int| is_untracked_member(members, username@, tracked_logins, i);
    let ghost pick = |i: int| members[i];
    let lowered = lowercase_all(member_logins);
    let lowered_tracked = lowercase_all(tracked_authors);
    let lowered_username = to_lowercase(username);
    let mut out: Vec<String> = Vec::new();
    let mut i: usize = 0;
    while i < member_logins.len()
        invariant
            i <= member_logins.len(),
            members == member_logins.deep_view(),
            tracked_logins == tracked_authors.deep_view(),
            positions == Seq::new(members.len(), |i: int| i),
            keep == |i: int| is_untracked_member(members, username@, tracked_logins, i),
            pick == |i: int| members[i],
            lowered.len() == member_logins.len(),
            lowered_tracked.len() == tracked_authors.len(),
            forall|k: int|
                0 <= k < lowered.len() ==> (#[trigger] lowered@[k])@ == lowercase(
                    member_logins@[k]@,
                ),
            forall|k: int|
                0 <= k < lowered_tracked.len() ==> (#[trigger] lowered_tracked@[k])@ == lowercase(
                    tracked_authors@[k]@,
                ),
            lowered_username@ == lowercase(username@),
            out.deep_view() == positions.take(i as int).filter(keep).map_values(pick),
        decreases member_logins.len() - i,
    {
        let is_user = lowered[i] == lowered_username;
        let seen = occurs(&lowered, i, &lowered[i]);
        let is_tracked = occurs(&lowered_tracked, lowered_tracked.len(), &lowered[i]);
        proof {
            let before = positions.take(i as int);
            assert(positions.take(i + 1) =~= before.push(i as int));
            before.lemma_filter_push(i as int, keep);
            assert(seen == has_login(members.take(i as int), members[i as int])) by {
                if seen {
                    let k = choose|k: int| 0 <= k < i && (#[trigger] lowered@[k])@ == lowered@[i as int]@;
                    assert(same_login(members.take(i as int)[k], members[i as int]));
                }
                if has_login(members.take(i as int), members[i as int]) {
                    let k = choose|k: int|
                        0 <= k < members.take(i as int).len() && same_login(
                            #[trigger] members.take(i as int)[k],
                            members[i as int],
                        );
                    assert(lowered@[k]@ == lowered@[i as int]@);
                }
            }
            assert(is_tracked == has_login(tracked_logins, members[i as int])) by {
                if is_tracked {
                    let k = choose|k: int|
                        0 <= k < lowered_tracked.len() && (#[trigger] lowered_tracked@[k])@
                            == lowered@[i as int]@;
                    assert(same_login(tracked_logins[k], members[i as int]));
                }
                if has_login(tracked_logins, members[i as int]) {
                    let k = choose|k: int|
                        0 <= k < tracked_logins.len() && same_login(
                            #[trigger] tracked_logins[k],
                            members[i as int],
                        );
                    assert(lowered_tracked@[k]@ == lowered@[i as int]@);
                }
            }
        }
        if !is_user && !seen && !is_tracked {
            out.push(member_logins[i].clone());
            proof {
                let before = positions.take(i as int).filter(keep);
                assert(out.deep_view() =~= before.map_values(pick).push(members[i as int]));
            }
        }
        i += 1;
    }
    proof {
        assert(positions.take(member_logins.len() as int) =~= positions);
    }
    out
}

/// The two lists of the authors screen: the tracked authors, and the team
/// members that are offered, each in ascending order.
pub fn build_teams_payload(
    tracked_authors: Vec<String>,
    username: &str,
    member_logins: &[String],
) -> (payload: TeamsPayload)
    ensures
        payload.tracked_authors.deep_view().to_multiset()
            == tracked_authors.deep_view().to_multiset(),
        is_sorted(payload.tracked_authors.deep_view()),
        payload.untracked_authors.deep_view().to_multiset() == untracked_members(
            member_logins.deep_view(),
            username@,
            tracked_authors.deep_view(),
        ).to_multiset(),
        is_sorted(payload.untracked_authors.deep_view()),
{
    let stored = tracked_authors.as_slice();
    let mut untracked_authors = select_untracked_members(member_logins, username, stored);
    sort_strings(&mut untracked_authors);
    let mut tracked_authors = tracked_authors;
    sort_strings(&mut tracked_authors);
    TeamsPayload { tracked_authors, untracked_authors }
}

/// The team members to offer for selection on the command line.
pub fn select_candidates(member_logins: &[String], username: &str, tracked_authors: &[String]) -> (out:
    Vec<String>)
    ensures
        out.deep_view() == candidates(
            member_logins.deep_view(),
            username@,
            tracked_authors.deep_view(),
        ),
{
    let ghost members = member_logins.deep_view();
    let ghost tracked_logins = tracked_authors.deep_view();
    let ghost positions = Seq::new(members.len(), |i: int| i);
    let ghost keep = |i: int| is_candidate(members, username@, tracked_logins, i);
    let ghost pick = |i: int| members[i];
    let lowered_tracked = lowercase_all(tracked_authors);
    let lowered_username = to_lowercase(username);
    let mut out: Vec<String> = Vec::new();
    let mut i: usize = 0;
    while i < member_logins.len()
        invariant
            i <= member_logins.len(),
            members == member_logins.deep_view(),
            tracked_logins == tracked_authors.deep_view(),
            positions == Seq::new(members.len(), |i: int| i),
            keep == |i: int| is_candidate(members, username@, tracked_logins, i),
            pick == |i: int| members[i],
            lowered_tracked.len() == tracked_authors.len(),
            forall|k: int|
                0 <= k < lowered_tracked.len() ==> (#[trigger] lowered_tracked@[k])@ == lowercase(
                    tracked_authors@[k]@,
                ),
            lowered_username@ == lowercase(username@),
            out.deep_view() == positions.take(i as int).filter(keep).map_values(pick),
        decreases member_logins.len() - i,
    {
        let seen = occurs_exactly(member_logins, i, &member_logins[i]);
        let lowered = to_lowercase(member_logins[i].as_str());
        let is_user = lowered == lowered_username;
        let is_tracked = occurs(&lowered_tracked, lowered_tracked.len(), &lowered);
        proof {
            let before = positions.take(i as int);
            assert(positions.take(i + 1) =~= before.push(i as int));
            before.lemma_filter_push(i as int, keep);
            assert(is_tracked == has_login(tracked_logins, members[i as int])) by {
                if is_tracked {
                    let k = choose|k: int|
                        0 <= k < lowered_tracked.len() && (#[trigger] lowered_tracked@[k])@
                            == lowered@;
                    assert(same_login(tracked_logins[k], members[i as int]));
                }
                if has_login(tracked_logins, members[i as int]) {
                    let k = choose|k: int|
                        0 <= k < tracked_logins.len() && same_login(
                            #[trigger] tracked_logins[k],
                            members[i as int],
                        );
                    assert(lowered_tracked@[k]@ == lowered@);
                }
            }
        }
        if !seen && !is_user && !is_tracked {
            out.push(member_logins[i].clone());
            proof {
                let before = positions.take(i as int).filter(keep);
                assert(out.deep_view() =~= before.map_values(pick).push(members[i as int]));
            }
        }
        i += 1;
    }
    proof {
        assert(positions.take(member_logins.len() as int) =~= positions);
    }
    out
}

/// The logins at the chosen positions of the offered list, in the order
/// they were chosen.
pub fn selected_logins(offered: &Vec<String>, selections: &[usize]) -> (out: Vec<String>)
    requires
        forall|k: int| 0 <= k < selections.len() ==> selections@[k] < offered.len(),
    ensures
        out.deep_view() == selections@.map_values(|at: usize| offered.deep_view()[at as int]),
{
    let mut out: Vec<String> = Vec::new();
    let mut k: usize = 0;
    while k < selections.len()
        invariant
            k <= selections.len(),
            out.len() == k,
            forall|j: int| 0 <= j < selections.len() ==> selections@[j] < offered.len(),
            forall|j: int| 0 <= j < k ==> (#[trigger] out@[j])@ == offered@[selections@[j] as int]@,
        decreases selections.len() - k,
    {
        out.push(offered[selections[k]].clone());
        k += 1;
    }
    out
}

} // verus!
