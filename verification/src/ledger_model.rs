//! The vote ledger as contracts see it: two tables and the operations on them.

use vstd::prelude::*;
use crate::models::{CandidateRow, VoteRow};

verus! {

/// The state of the ledger: the candidates, the votes, and the identity that
/// the next new candidate receives.
pub struct LedgerView {
    pub candidates: Seq<CandidateRow>,
    pub votes: Seq<VoteRow>,
    pub next_id: int,
}

/// The number of votes that reference the candidate `id`.
pub open spec fn count_for(votes: Seq<VoteRow>, id: int) -> nat
    decreases votes.len(),
{
    if votes.len() == 0 {
        0
    } else {
        count_for(votes.drop_last(), id) + if votes.last().candidate == id {
            1nat
        } else {
            0nat
        }
    }
}

/// The votes that do not reference the candidate `id`, in their order.
pub open spec fn votes_not_for(votes: Seq<VoteRow>, id: int) -> Seq<VoteRow> {
    votes.filter(|v: VoteRow| v.candidate != id)
}

impl LedgerView {
    /// The ledger before any vote.
    pub open spec fn empty() -> LedgerView {
        LedgerView { candidates: Seq::empty(), votes: Seq::empty(), next_id: 1 }
    }

    /// Some candidate has this name.
    pub open spec fn has_candidate(self, name: Seq<char>) -> bool {
        exists|i: int| 0 <= i < self.candidates.len() && (#[trigger] self.candidates[i]).name == name
    }

    /// Where the candidate of this name stands, if there is one.
    pub open spec fn candidate_index(self, name: Seq<char>) -> int {
        choose|i: int| 0 <= i < self.candidates.len() && (#[trigger] self.candidates[i]).name == name
    }

    /// The identity of the candidate of this name, if there is one.
    pub open spec fn id_of(self, name: Seq<char>) -> int {
        self.candidates[self.candidate_index(name)].id
    }

    /// Some candidate has this identity.
    pub open spec fn has_id(self, id: int) -> bool {
        exists|i: int| 0 <= i < self.candidates.len() && (#[trigger] self.candidates[i]).id == id
    }

    /// Some vote belongs to this device.
    pub open spec fn has_vote(self, device: Seq<char>) -> bool {
        exists|j: int| 0 <= j < self.votes.len() && (#[trigger] self.votes[j]).device == device
    }

    /// Where the vote of this device stands, if there is one.
    pub open spec fn vote_index(self, device: Seq<char>) -> int {
        choose|j: int| 0 <= j < self.votes.len() && (#[trigger] self.votes[j]).device == device
    }

    /// The vote of this device, if there is one.
    pub open spec fn vote_of(self, device: Seq<char>) -> VoteRow {
        self.votes[self.vote_index(device)]
    }

    /// The number of votes of this device.
    pub open spec fn votes_of_device(self, device: Seq<char>) -> nat {
        self.votes.filter(|v: VoteRow| v.device == device).len()
    }

    /// The number of candidates of this name.
    pub open spec fn candidates_named(self, name: Seq<char>) -> nat {
        self.candidates.filter(|c: CandidateRow| c.name == name).len()
    }

    /// The invariants of the ledger: identities are positive and below the
    /// next one, names and identities of candidates are unique, each device
    /// has at most one vote, and every vote references a candidate.
    pub open spec fn wf(self) -> bool {
        &&& 1 <= self.next_id <= i64::MAX
        &&& forall|i: int|
            0 <= i < self.candidates.len() ==> 1 <= (#[trigger] self.candidates[i]).id < self.next_id
        &&& forall|i: int, j: int|
            0 <= i < j < self.candidates.len() ==> (#[trigger] self.candidates[i]).name != (
            #[trigger] self.candidates[j]).name
        &&& forall|i: int, j: int|
            0 <= i < j < self.candidates.len() ==> (#[trigger] self.candidates[i]).id != (
            #[trigger] self.candidates[j]).id
        &&& forall|i: int, j: int|
            0 <= i < j < self.votes.len() ==> (#[trigger] self.votes[i]).device != (
            #[trigger] self.votes[j]).device
        &&& forall|j: int|
            0 <= j < self.votes.len() ==> self.has_id((#[trigger] self.votes[j]).candidate)
    }

    /// The ledger after the candidate of this name was resolved or created:
    /// an existing candidate is left as it is, a new one takes the next
    /// identity.
    pub open spec fn with_candidate(self, name: Seq<char>) -> LedgerView {
        if self.has_candidate(name) {
            self
        } else {
            LedgerView {
                candidates: self.candidates.push(CandidateRow { id: self.next_id, name }),
                votes: self.votes,
                next_id: self.next_id + 1,
            }
        }
    }

    /// The ledger after the vote of this device was written: the row of the
    /// device is overwritten where there is one, and added where there is none.
    pub open spec fn with_vote(self, device: Seq<char>, candidate: int, at: int) -> LedgerView {
        let row = VoteRow { device, candidate, at };
        LedgerView {
            candidates: self.candidates,
            votes: if self.has_vote(device) {
                self.votes.update(self.vote_index(device), row)
            } else {
                self.votes.push(row)
            },
            next_id: self.next_id,
        }
    }

    /// The ledger after a device voted for the candidate of this name.
    pub open spec fn cast(self, device: Seq<char>, name: Seq<char>, at: int) -> LedgerView {
        let resolved = self.with_candidate(name);
        resolved.with_vote(device, resolved.id_of(name), at)
    }

    /// The ledger after the candidate of this name was removed with its votes;
    /// the ledger itself where no candidate has the name.
    pub open spec fn without_candidate(self, name: Seq<char>) -> LedgerView {
        if self.has_candidate(name) {
            LedgerView {
                candidates: self.candidates.remove(self.candidate_index(name)),
                votes: votes_not_for(self.votes, self.id_of(name)),
                next_id: self.next_id,
            }
        } else {
            self
        }
    }

    /// The number of votes for the candidate of this name; zero where no
    /// candidate has the name.
    pub open spec fn votes_for(self, name: Seq<char>) -> nat {
        if self.has_candidate(name) {
            count_for(self.votes, self.id_of(name))
        } else {
            0
        }
    }

    /// The number of all votes.
    pub open spec fn total(self) -> nat {
        self.votes.len()
    }
}

} // verus!
