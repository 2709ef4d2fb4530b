//! What holds of the ledger's operations, proved over its model.

use vstd::prelude::*;
use crate::ledger_model::{count_for, votes_not_for, LedgerView};
use crate::models::{CandidateRow, VoteRow};

verus! {

impl LedgerView {
    /// A vote for this name can be recorded: the candidate exists, or an
    /// identity is left for a new one.
    pub open spec fn accepts(self, name: Seq<char>) -> bool {
        self.has_candidate(name) || self.next_id < i64::MAX
    }
}

/// In a ledger whose names are unique, the candidate at a place is the one
/// that its name finds.
pub proof fn lemma_candidate_found(s: LedgerView, i: int)
    requires
        s.wf(),
        0 <= i < s.candidates.len(),
    ensures
        s.has_candidate(s.candidates[i].name),
        s.candidate_index(s.candidates[i].name) == i,
        s.id_of(s.candidates[i].name) == s.candidates[i].id,
        s.has_id(s.candidates[i].id),
{
    let name = s.candidates[i].name;
    let k = s.candidate_index(name);
    assert(0 <= k < s.candidates.len() && s.candidates[k].name == name);
    if k < i {
        assert(s.candidates[k].name != s.candidates[i].name);
    } else if i < k {
        assert(s.candidates[i].name != s.candidates[k].name);
    }
}

/// In a ledger in which each device has one vote at most, the vote at a
/// place is the one that its device finds.
pub proof fn lemma_vote_found(s: LedgerView, j: int)
    requires
        s.wf(),
        0 <= j < s.votes.len(),
    ensures
        s.has_vote(s.votes[j].device),
        s.vote_index(s.votes[j].device) == j,
        s.vote_of(s.votes[j].device) == s.votes[j],
{
    let device = s.votes[j].device;
    let k = s.vote_index(device);
    assert(0 <= k < s.votes.len() && s.votes[k].device == device);
    if k < j {
        assert(s.votes[k].device != s.votes[j].device);
    } else if j < k {
        assert(s.votes[j].device != s.votes[k].device);
    }
}

/// Resolving or creating a candidate keeps the invariants, leaves the votes
/// and the other candidates as they were, and makes the name known.
pub proof fn lemma_with_candidate(s: LedgerView, name: Seq<char>)
    requires
        s.wf(),
        s.accepts(name),
    ensures
        s.with_candidate(name).wf(),
        s.with_candidate(name).has_candidate(name),
        s.with_candidate(name).votes == s.votes,
        s.has_candidate(name) ==> s.with_candidate(name).id_of(name) == s.id_of(name),
        !s.has_candidate(name) ==> s.with_candidate(name).id_of(name) == s.next_id,
        s.with_candidate(name).has_id(s.with_candidate(name).id_of(name)),
{
    let r = s.with_candidate(name);
    if s.has_candidate(name) {
        let i = s.candidate_index(name);
        lemma_candidate_found(s, i);
    } else {
        let last = s.candidates.len() as int;
        assert(r.candidates[last].name == name);
        assert forall|i: int, j: int| 0 <= i < j < r.candidates.len() implies (
        #[trigger] r.candidates[i]).name != (#[trigger] r.candidates[j]).name by {
            if j == last {
                assert(s.candidates[i].name != name);
            } else {
                assert(s.candidates[i].name != s.candidates[j].name);
            }
        }
        assert forall|i: int, j: int| 0 <= i < j < r.candidates.len() implies (
        #[trigger] r.candidates[i]).id != (#[trigger] r.candidates[j]).id by {
            if j == last {
                assert(s.candidates[i].id < s.next_id);
            } else {
                assert(s.candidates[i].id != s.candidates[j].id);
            }
        }
        assert forall|i: int| 0 <= i < r.candidates.len() implies 1 <= (
        #[trigger] r.candidates[i]).id < r.next_id by {
            if i < last {
                assert(1 <= s.candidates[i].id < s.next_id);
            }
        }
        assert forall|j: int| 0 <= j < r.votes.len() implies r.has_id(
            (#[trigger] r.votes[j]).candidate,
        ) by {
            assert(s.has_id(s.votes[j].candidate));
            let i = choose|i: int|
                0 <= i < s.candidates.len() && (#[trigger] s.candidates[i]).id
                    == s.votes[j].candidate;
            assert(r.candidates[i].id == s.votes[j].candidate);
        }
        assert(r.wf());
        lemma_candidate_found(r, last);
    }
}

/// Writing the vote of a device for an existing candidate keeps the
/// invariants and the candidates, and makes the written row the device's vote.
pub proof fn lemma_with_vote(s: LedgerView, device: Seq<char>, candidate: int, at: int)
    requires
        s.wf(),
        s.has_id(candidate),
    ensures
        s.with_vote(device, candidate, at).wf(),
        s.with_vote(device, candidate, at).candidates == s.candidates,
        s.with_vote(device, candidate, at).has_vote(device),
        s.with_vote(device, candidate, at).vote_of(device) == (VoteRow { device, candidate, at }),
        s.with_vote(device, candidate, at).votes.len() == s.votes.len() + if s.has_vote(device) {
            0int
        } else {
            1int
        },
{
    let r = s.with_vote(device, candidate, at);
    let row = VoteRow { device, candidate, at };
    let k = if s.has_vote(device) {
        s.vote_index(device)
    } else {
        s.votes.len() as int
    };
    assert(0 <= k < r.votes.len());
    assert(r.votes[k] == row);
    assert forall|j: int| 0 <= j < r.votes.len() && j != k implies #[trigger] r.votes[j]
        == s.votes[j] && s.votes[j].device != device by {
        if s.has_vote(device) {
            lemma_vote_found(s, k);
            if j < k {
                assert(s.votes[j].device != s.votes[k].device);
            } else {
                assert(s.votes[k].device != s.votes[j].device);
            }
        }
    }
    assert forall|i: int, j: int| 0 <= i < j < r.votes.len() implies (#[trigger] r.votes[i]).device
        != (#[trigger] r.votes[j]).device by {
        if i != k && j != k {
            assert(s.votes[i].device != s.votes[j].device);
        }
    }
    assert forall|j: int| 0 <= j < r.votes.len() implies r.has_id(
        (#[trigger] r.votes[j]).candidate,
    ) by {
        let wanted = r.votes[j].candidate;
        if j != k {
            assert(s.has_id(s.votes[j].candidate));
        }
        assert(s.has_id(wanted));
        let i = choose|i: int| 0 <= i < s.candidates.len() && (#[trigger] s.candidates[i]).id == wanted;
        assert(r.candidates[i].id == wanted);
    }
    assert(r.wf());
    lemma_vote_found(r, k);
}

/// What removing the votes for one candidate does to a list of votes: the
/// rows that stay are rows of the list, none of them references the
/// candidate, devices stay distinct, and the counts of the other candidates
/// are as before.
pub proof fn lemma_votes_not_for(votes: Seq<VoteRow>, id: int)
    ensures
        votes_not_for(votes, id).len() + count_for(votes, id) == votes.len(),
        count_for(votes_not_for(votes, id), id) == 0,
        forall|other: int|
            other != id ==> #[trigger] count_for(votes_not_for(votes, id), other) == count_for(
                votes,
                other,
            ),
        forall|k: int|
            0 <= k < votes_not_for(votes, id).len() ==> (#[trigger] votes_not_for(
                votes,
                id,
            )[k]).candidate != id && votes.contains(votes_not_for(votes, id)[k]),
        forall|j: int|
            0 <= j < votes.len() && votes[j].candidate != id ==> votes_not_for(votes, id).contains(
                #[trigger] votes[j],
            ),
        (forall|i: int, j: int|
            0 <= i < j < votes.len() ==> (#[trigger] votes[i]).device != (
            #[trigger] votes[j]).device) ==> (forall|a: int, b: int|
            0 <= a < b < votes_not_for(votes, id).len() ==> (#[trigger] votes_not_for(
                votes,
                id,
            )[a]).device != (#[trigger] votes_not_for(votes, id)[b]).device),
    decreases votes.len(),
{
    reveal(Seq::filter);
    let kept = votes_not_for(votes, id);
    if votes.len() > 0 {
        let front = votes.drop_last();
        let last = votes.last();
        let before = votes_not_for(front, id);
        lemma_votes_not_for(front, id);
        assert(kept == if last.candidate != id {
            before.push(last)
        } else {
            before
        });
        assert forall|other: int| other != id implies #[trigger] count_for(kept, other)
            == count_for(votes, other) by {
            assert(count_for(before, other) == count_for(front, other));
            if last.candidate != id {
                assert(kept.drop_last() == before);
                assert(kept.last() == last);
            }
        }
        if last.candidate != id {
            assert(kept.drop_last() == before);
        }
        assert forall|k: int| 0 <= k < kept.len() implies (#[trigger] kept[k]).candidate != id
            && votes.contains(kept[k]) by {
            if k < before.len() {
                assert(front.contains(before[k]));
                let i = choose|i: int| 0 <= i < front.len() && front[i] == before[k];
                assert(votes[i] == kept[k]);
            } else {
                assert(votes[votes.len() - 1] == kept[k]);
            }
        }
        assert forall|j: int| 0 <= j < votes.len() && votes[j].candidate != id implies kept.contains(
            #[trigger] votes[j],
        ) by {
            if j < front.len() {
                assert(front[j] == votes[j]);
                assert(before.contains(front[j]));
                let k = choose|k: int| 0 <= k < before.len() && before[k] == front[j];
                assert(kept[k] == votes[j]);
            } else {
                assert(kept[kept.len() - 1] == votes[j]);
            }
        }
        if forall|i: int, j: int|
            0 <= i < j < votes.len() ==> (#[trigger] votes[i]).device != (
            #[trigger] votes[j]).device {
            assert forall|i: int, j: int| 0 <= i < j < front.len() implies (
            #[trigger] front[i]).device != (#[trigger] front[j]).device by {
                assert(votes[i].device != votes[j].device);
            }
            assert forall|a: int, b: int| 0 <= a < b < kept.len() implies (#[trigger] kept[a]).device
                != (#[trigger] kept[b]).device by {
                if b < before.len() {
                    assert(before[a].device != before[b].device);
                } else {
                    assert(front.contains(before[a]));
                    let i = choose|i: int| 0 <= i < front.len() && front[i] == before[a];
                    assert(votes[i].device != votes[votes.len() - 1].device);
                }
            }
        }
    }
}

/// Removing a candidate with its votes keeps the invariants and makes the
/// name unknown; the other candidates stay, each with its identity.
pub proof fn lemma_without_candidate(s: LedgerView, name: Seq<char>)
    requires
        s.wf(),
    ensures
        s.without_candidate(name).wf(),
        !s.without_candidate(name).has_candidate(name),
        forall|other: Seq<char>|
            other != name ==> s.without_candidate(name).has_candidate(other) == s.has_candidate(
                other,
            ),
        forall|other: Seq<char>|
            other != name && s.has_candidate(other) ==> #[trigger] s.without_candidate(name).id_of(
                other,
            ) == s.id_of(other) && (s.has_candidate(name) ==> s.id_of(other) != s.id_of(name)),
{
    let r = s.without_candidate(name);
    if s.has_candidate(name) {
        let at = s.candidate_index(name);
        let id = s.id_of(name);
        lemma_candidate_found(s, at);
        lemma_votes_not_for(s.votes, id);
        assert forall|i: int| 0 <= i < r.candidates.len() implies #[trigger] r.candidates[i]
            == s.candidates[if i < at {
            i
        } else {
            i + 1
        }] by {}
        assert forall|i: int| 0 <= i < r.candidates.len() implies 1 <= (
        #[trigger] r.candidates[i]).id < r.next_id by {
            let k = if i < at { i } else { i + 1 };
            assert(1 <= s.candidates[k].id < s.next_id);
        }
        assert forall|i: int, j: int| 0 <= i < j < r.candidates.len() implies (
        #[trigger] r.candidates[i]).name != (#[trigger] r.candidates[j]).name by {
            let a = if i < at { i } else { i + 1 };
            let b = if j < at { j } else { j + 1 };
            assert(s.candidates[a].name != s.candidates[b].name);
        }
        assert forall|i: int, j: int| 0 <= i < j < r.candidates.len() implies (
        #[trigger] r.candidates[i]).id != (#[trigger] r.candidates[j]).id by {
            let a = if i < at { i } else { i + 1 };
            let b = if j < at { j } else { j + 1 };
            assert(s.candidates[a].id != s.candidates[b].id);
        }
        assert forall|j: int| 0 <= j < r.votes.len() implies r.has_id(
            (#[trigger] r.votes[j]).candidate,
        ) by {
            let wanted = r.votes[j].candidate;
            assert(s.votes.contains(r.votes[j]));
            let k = choose|k: int| 0 <= k < s.votes.len() && s.votes[k] == r.votes[j];
            assert(s.has_id(s.votes[k].candidate));
            let i = choose|i: int| 0 <= i < s.candidates.len() && (#[trigger] s.candidates[i]).id == wanted;
            if i < at {
                assert(r.candidates[i].id == wanted);
            } else if i > at {
                assert(r.candidates[i - 1].id == wanted);
            }
        }
        assert(r.wf());
        if r.has_candidate(name) {
            let i = r.candidate_index(name);
            let k = if i < at { i } else { i + 1 };
            assert(r.candidates[i].name == name);
            if k < at {
                assert(s.candidates[k].name != s.candidates[at].name);
            } else {
                assert(s.candidates[at].name != s.candidates[k].name);
            }
        }
        assert forall|other: Seq<char>| other != name implies r.has_candidate(other)
            == s.has_candidate(other) by {
            if s.has_candidate(other) {
                let k = s.candidate_index(other);
                if k < at {
                    assert(r.candidates[k].name == other);
                } else {
                    assert(r.candidates[k - 1].name == other);
                }
            }
            if r.has_candidate(other) {
                let i = r.candidate_index(other);
                let k = if i < at { i } else { i + 1 };
                assert(s.candidates[k].name == other);
            }
        }
        assert forall|other: Seq<char>| other != name && s.has_candidate(other) implies (
        #[trigger] r.id_of(other)) == s.id_of(other) && (s.has_candidate(name) ==> s.id_of(other)
            != s.id_of(name)) by {
            let k = s.candidate_index(other);
            lemma_candidate_found(s, k);
            let i = if k < at { k } else { k - 1 };
            assert(r.candidates[i] == s.candidates[k]);
            lemma_candidate_found(r, i);
            if k < at {
                assert(s.candidates[k].id != s.candidates[at].id);
            } else {
                assert(s.candidates[at].id != s.candidates[k].id);
            }
        }
    }
}

/// Resolving or creating a candidate leaves every candidate that was there
/// as it was: its name stays known and finds the same identity.
pub proof fn lemma_with_candidate_keeps(s: LedgerView, name: Seq<char>, other: Seq<char>)
    requires
        s.wf(),
        s.accepts(name),
        s.has_candidate(other),
    ensures
        s.with_candidate(name).has_candidate(other),
        s.with_candidate(name).id_of(other) == s.id_of(other),
        other != name && !s.has_candidate(name) ==> s.id_of(other) != s.with_candidate(name).id_of(
            name,
        ),
{
    let r = s.with_candidate(name);
    lemma_with_candidate(s, name);
    let k = s.candidate_index(other);
    lemma_candidate_found(s, k);
    assert(r.candidates[k] == s.candidates[k]);
    lemma_candidate_found(r, k);
}

/// Writing the vote of one device leaves the votes of the other devices as
/// they were.
pub proof fn lemma_with_vote_keeps(
    s: LedgerView,
    device: Seq<char>,
    candidate: int,
    at: int,
    other: Seq<char>,
)
    requires
        s.wf(),
        s.has_id(candidate),
        other != device,
    ensures
        s.with_vote(device, candidate, at).has_vote(other) == s.has_vote(other),
        s.has_vote(other) ==> s.with_vote(device, candidate, at).vote_of(other) == s.vote_of(other),
{
    let r = s.with_vote(device, candidate, at);
    lemma_with_vote(s, device, candidate, at);
    if s.has_vote(device) {
        lemma_vote_found(s, s.vote_index(device));
    }
    if s.has_vote(other) {
        let k = s.vote_index(other);
        lemma_vote_found(s, k);
        assert(r.votes[k] == s.votes[k]);
        lemma_vote_found(r, k);
    }
    if r.has_vote(other) {
        let k = r.vote_index(other);
        assert(r.votes[k].device == other);
        assert(s.votes[k].device == other);
    }
}

/// What one recorded vote does: the invariants hold, the name is known, and
/// the device's vote is the one written, for the candidate of that name.
pub proof fn lemma_cast(s: LedgerView, device: Seq<char>, name: Seq<char>, at: int)
    requires
        s.wf(),
        s.accepts(name),
    ensures
        s.cast(device, name, at).wf(),
        s.cast(device, name, at).has_candidate(name),
        s.cast(device, name, at).has_vote(device),
        s.cast(device, name, at).vote_of(device) == (VoteRow {
            device,
            candidate: s.cast(device, name, at).id_of(name),
            at,
        }),
        s.cast(device, name, at).candidates == s.with_candidate(name).candidates,
        s.cast(device, name, at).next_id == s.with_candidate(name).next_id,
{
    let resolved = s.with_candidate(name);
    lemma_with_candidate(s, name);
    lemma_with_vote(resolved, device, resolved.id_of(name), at);
}

/// In a list in which each device has one vote at most, a device has one
/// row or none.
pub proof fn lemma_rows_of_device(votes: Seq<VoteRow>, device: Seq<char>)
    requires
        forall|i: int, j: int|
            0 <= i < j < votes.len() ==> (#[trigger] votes[i]).device != (
            #[trigger] votes[j]).device,
    ensures
        votes.filter(|v: VoteRow| v.device == device).len() == if exists|j: int|
            0 <= j < votes.len() && (#[trigger] votes[j]).device == device {
            1nat
        } else {
            0nat
        },
    decreases votes.len(),
{
    reveal(Seq::filter);
    if votes.len() > 0 {
        let front = votes.drop_last();
        let last = votes.last();
        assert forall|i: int, j: int| 0 <= i < j < front.len() implies (#[trigger] front[i]).device
            != (#[trigger] front[j]).device by {
            assert(votes[i].device != votes[j].device);
        }
        lemma_rows_of_device(front, device);
        if exists|j: int| 0 <= j < front.len() && (#[trigger] front[j]).device == device {
            let j = choose|j: int| 0 <= j < front.len() && (#[trigger] front[j]).device == device;
            assert(votes[j].device == device);
            assert(votes[j].device != votes[votes.len() - 1].device);
        } else {
            if last.device == device {
                assert(votes[votes.len() - 1].device == device);
            } else {
                if exists|j: int| 0 <= j < votes.len() && (#[trigger] votes[j]).device == device {
                    let j = choose|j: int|
                        0 <= j < votes.len() && (#[trigger] votes[j]).device == device;
                    assert(front[j].device == device);
                }
            }
        }
    }
}

/// In a list of candidates with unique names, a name has one row or none.
pub proof fn lemma_rows_of_name(candidates: Seq<CandidateRow>, name: Seq<char>)
    requires
        forall|i: int, j: int|
            0 <= i < j < candidates.len() ==> (#[trigger] candidates[i]).name != (
            #[trigger] candidates[j]).name,
    ensures
        candidates.filter(|c: CandidateRow| c.name == name).len() == if exists|i: int|
            0 <= i < candidates.len() && (#[trigger] candidates[i]).name == name {
            1nat
        } else {
            0nat
        },
    decreases candidates.len(),
{
    reveal(Seq::filter);
    if candidates.len() > 0 {
        let front = candidates.drop_last();
        let last = candidates.last();
        assert forall|i: int, j: int| 0 <= i < j < front.len() implies (#[trigger] front[i]).name
            != (#[trigger] front[j]).name by {
            assert(candidates[i].name != candidates[j].name);
        }
        lemma_rows_of_name(front, name);
        if exists|i: int| 0 <= i < front.len() && (#[trigger] front[i]).name == name {
            let i = choose|i: int| 0 <= i < front.len() && (#[trigger] front[i]).name == name;
            assert(candidates[i].name == name);
            assert(candidates[i].name != candidates[candidates.len() - 1].name);
        } else {
            if last.name == name {
                assert(candidates[candidates.len() - 1].name == name);
            } else {
                if exists|i: int|
                    0 <= i < candidates.len() && (#[trigger] candidates[i]).name == name {
                    let i = choose|i: int|
                        0 <= i < candidates.len() && (#[trigger] candidates[i]).name == name;
                    assert(front[i].name == name);
                }
            }
        }
    }
}

/// One vote per device, and the last write wins: after a device votes for
/// one candidate and then for another, the ledger holds exactly one vote of
/// that device, it references the candidate named last, and it carries the
/// second of the last write, which is not before that of the first write
/// where the clock did not step back in between.
pub proof fn law_last_vote_wins(
    s: LedgerView,
    device: Seq<char>,
    first_name: Seq<char>,
    second_name: Seq<char>,
    first_at: int,
    second_at: int,
)
    requires
        s.wf(),
        s.accepts(first_name),
        s.cast(device, first_name, first_at).accepts(second_name),
        first_at <= second_at,
    ensures
        ({
            let once = s.cast(device, first_name, first_at);
            let twice = once.cast(device, second_name, second_at);
            &&& twice.wf()
            &&& twice.votes_of_device(device) == 1
            &&& twice.has_vote(device)
            &&& twice.has_candidate(second_name)
            &&& twice.vote_of(device).candidate == twice.id_of(second_name)
            &&& twice.vote_of(device).at == second_at
            &&& once.vote_of(device).at <= twice.vote_of(device).at
            &&& first_name != second_name ==> twice.has_candidate(first_name)
                && twice.vote_of(device).candidate != twice.id_of(first_name)
        }),
{
    let once = s.cast(device, first_name, first_at);
    let twice = once.cast(device, second_name, second_at);
    lemma_cast(s, device, first_name, first_at);
    lemma_cast(once, device, second_name, second_at);
    lemma_rows_of_device(twice.votes, device);
    if first_name != second_name {
        lemma_with_candidate_keeps(once, second_name, first_name);
        let resolved = once.with_candidate(second_name);
        lemma_with_candidate(once, second_name);
        assert(twice.candidates == resolved.candidates);
        assert(twice.has_candidate(first_name) == resolved.has_candidate(first_name));
        assert(twice.id_of(first_name) == resolved.id_of(first_name));
        assert(twice.id_of(second_name) == resolved.id_of(second_name));
        if once.has_candidate(second_name) {
            let a = once.candidate_index(first_name);
            let b = once.candidate_index(second_name);
            lemma_candidate_found(once, a);
            lemma_candidate_found(once, b);
            if a < b {
                assert(once.candidates[a].id != once.candidates[b].id);
            } else {
                assert(once.candidates[b].id != once.candidates[a].id);
            }
        }
    }
}

/// Candidate names are unique: after two votes for one name, from whichever
/// devices and in whichever order they are taken, the ledger holds exactly
/// one candidate of that name.
pub proof fn law_one_candidate_per_name(
    s: LedgerView,
    first_device: Seq<char>,
    second_device: Seq<char>,
    name: Seq<char>,
    first_at: int,
    second_at: int,
)
    requires
        s.wf(),
        s.accepts(name),
    ensures
        ({
            let once = s.cast(first_device, name, first_at);
            let twice = once.cast(second_device, name, second_at);
            &&& once.accepts(name)
            &&& twice.wf()
            &&& twice.candidates_named(name) == 1
            &&& twice.candidates == once.candidates
            &&& twice.vote_of(first_device).candidate == twice.id_of(name)
            &&& twice.vote_of(second_device).candidate == twice.id_of(name)
        }),
{
    let once = s.cast(first_device, name, first_at);
    let twice = once.cast(second_device, name, second_at);
    lemma_cast(s, first_device, name, first_at);
    lemma_cast(once, second_device, name, second_at);
    lemma_rows_of_name(twice.candidates, name);
    assert(twice.id_of(name) == once.id_of(name));
    if first_device != second_device {
        let resolved = once.with_candidate(name);
        lemma_with_vote_keeps(resolved, second_device, resolved.id_of(name), second_at, first_device);
    }
}

/// A vote touches the row of its own device only: every other device has
/// the vote that it had, or none as before, and the number of all votes
/// grows by one exactly where the device had no vote.
pub proof fn law_vote_leaves_other_devices(
    s: LedgerView,
    device: Seq<char>,
    name: Seq<char>,
    at: int,
    other: Seq<char>,
)
    requires
        s.wf(),
        s.accepts(name),
        other != device,
    ensures
        s.cast(device, name, at).has_vote(other) == s.has_vote(other),
        s.has_vote(other) ==> s.cast(device, name, at).vote_of(other) == s.vote_of(other),
        s.cast(device, name, at).total() == s.total() + if s.has_vote(device) {
            0int
        } else {
            1int
        },
{
    let resolved = s.with_candidate(name);
    lemma_with_candidate(s, name);
    lemma_with_vote(resolved, device, resolved.id_of(name), at);
    lemma_with_vote_keeps(resolved, device, resolved.id_of(name), at, other);
}

} // verus!
