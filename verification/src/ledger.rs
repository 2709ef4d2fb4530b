//! The vote ledger: candidates with unique names, one vote per device, and
//! the writes that keep both.

use vstd::prelude::*;
use vstd::string::StringExecFns;
use crate::clock::unix_now;
use crate::ledger_laws::{
    lemma_candidate_found,
    lemma_vote_found,
    lemma_with_candidate,
    lemma_with_vote,
    lemma_without_candidate,
};
use crate::ledger_model::{votes_not_for, LedgerView};
use crate::models::{candidate_rows, vote_rows, Candidate, Vote, VoteRow};

verus! {

/// Why the ledger did not take a write.
#[derive(Clone, Copy, Debug, PartialEq, Eq, Structural)]
pub enum StoreFault {
    /// No identity is left for a new candidate.
    IdsExhausted,
    /// The vote references a candidate that does not exist.
    UnknownCandidate,
    /// The store could not be reached or did not complete the write.
    Unavailable,
}

/// The two tables and the identity that the next new candidate receives.
#[derive(Debug)]
struct Tables {
    candidates: Vec<Candidate>,
    votes: Vec<Vote>,
    next_id: i64,
}

impl View for Tables {
    type V = LedgerView;

    closed spec fn view(&self) -> LedgerView {
        LedgerView {
            candidates: candidate_rows(self.candidates@),
            votes: vote_rows(self.votes@),
            next_id: self.next_id as int,
        }
    }
}

impl Tables {
    /// Empty tables; the first identity is 1.
    fn new() -> (tables: Tables)
        ensures
            tables@ == LedgerView::empty(),
    {
        let tables = Tables { candidates: Vec::new(), votes: Vec::new(), next_id: 1 };
        assert(tables@.candidates =~= Seq::empty());
        assert(tables@.votes =~= Seq::empty());
        tables
    }

    /// Where the candidate of this name stands.
    fn candidate_position(&self, name: &str) -> (found: Option<usize>)
        ensures
            match found {
                Some(i) => i < self.candidates.len() && self.candidates[i as int].name@ == name@,
                None => forall|i: int|
                    0 <= i < self.candidates.len() ==> self.candidates[i].name@ != name@,
            },
    {
        let wanted = String::from_str(name);
        let mut i: usize = 0;
        while i < self.candidates.len()
            invariant
                i <= self.candidates.len(),
                wanted@ == name@,
                forall|k: int| 0 <= k < i ==> self.candidates[k].name@ != name@,
            decreases self.candidates.len() - i,
        {
            if self.candidates[i].name == wanted {
                return Some(i);
            }
            i += 1;
        }
        None
    }

    /// Where the candidate of this identity stands.
    fn identity_position(&self, id: i64) -> (found: Option<usize>)
        ensures
            match found {
                Some(i) => i < self.candidates.len() && self.candidates[i as int].id == id,
                None => forall|i: int| 0 <= i < self.candidates.len() ==> self.candidates[i].id != id,
            },
    {
        let mut i: usize = 0;
        while i < self.candidates.len()
            invariant
                i <= self.candidates.len(),
                forall|k: int| 0 <= k < i ==> self.candidates[k].id != id,
            decreases self.candidates.len() - i,
        {
            if self.candidates[i].id == id {
                return Some(i);
            }
            i += 1;
        }
        None
    }

    /// Where the vote of this device stands.
    fn vote_position(&self, device_id: &str) -> (found: Option<usize>)
        ensures
            match found {
                Some(j) => j < self.votes.len() && self.votes[j as int].device_id@ == device_id@,
                None => forall|j: int|
                    0 <= j < self.votes.len() ==> self.votes[j].device_id@ != device_id@,
            },
    {
        let wanted = String::from_str(device_id);
        let mut j: usize = 0;
        while j < self.votes.len()
            invariant
                j <= self.votes.len(),
                wanted@ == device_id@,
                forall|k: int| 0 <= k < j ==> self.votes[k].device_id@ != device_id@,
            decreases self.votes.len() - j,
        {
            if self.votes[j].device_id == wanted {
                return Some(j);
            }
            j += 1;
        }
        None
    }

    /// The identity of the candidate of this name.
    fn find_candidate(&self, name: &str) -> (found: Option<i64>)
        requires
            self@.wf(),
        ensures
            found.is_some() == self@.has_candidate(name@),
            found matches Some(id) ==> id == self@.id_of(name@),
    {
        match self.candidate_position(name) {
            Some(i) => {
                proof {
                    assert(self@.candidates[i as int] == self.candidates[i as int]@);
                    lemma_candidate_found(self@, i as int);
                }
                Some(self.candidates[i].id)
            },
            None => {
                proof {
                    if self@.has_candidate(name@) {
                        let k = self@.candidate_index(name@);
                        assert(self@.candidates[k] == self.candidates[k]@);
                    }
                }
                None
            },
        }
    }

    /// Insert-if-absent on the candidates: the row of the name, made where
    /// there was none.
    fn get_or_create_candidate(&mut self, name: &str) -> (resolved: Result<i64, StoreFault>)
        requires
            old(self)@.wf(),
        ensures
            final(self)@.wf(),
            match resolved {
                Ok(id) => old(self)@.accepts(name@) && final(self)@ == old(self)@.with_candidate(
                    name@,
                ) && id == final(self)@.id_of(name@),
                Err(fault) => fault == StoreFault::IdsExhausted && !old(self)@.accepts(name@)
                    && final(self)@ == old(self)@,
            },
    {
        match self.find_candidate(name) {
            Some(id) => {
                proof {
                    lemma_with_candidate(self@, name@);
                }
                Ok(id)
            },
            None => {
                if self.next_id == i64::MAX {
                    return Err(StoreFault::IdsExhausted);
                }
                let id = self.next_id;
                let candidate = Candidate { id, name: String::from_str(name) };
                proof {
                    lemma_with_candidate(self@, name@);
                    assert(candidate_rows(self.candidates@.push(candidate)) =~= candidate_rows(
                        self.candidates@,
                    ).push(candidate@));
                }
                self.next_id = id + 1;
                self.candidates.push(candidate);
                Ok(id)
            },
        }
    }

    /// Insert-or-replace on the votes, keyed by the device.
    fn upsert_vote(&mut self, device_id: &str, candidate_id: i64, now: i64) -> (written: Result<
        (),
        StoreFault,
    >)
        requires
            old(self)@.wf(),
        ensures
            final(self)@.wf(),
            match written {
                Ok(_) => old(self)@.has_id(candidate_id as int) && final(self)@ == old(
                    self,
                )@.with_vote(device_id@, candidate_id as int, now as int),
                Err(fault) => fault == StoreFault::UnknownCandidate && !old(self)@.has_id(
                    candidate_id as int,
                ) && final(self)@ == old(self)@,
            },
    {
        match self.identity_position(candidate_id) {
            None => {
                proof {
                    if self@.has_id(candidate_id as int) {
                        let k = choose|k: int|
                            0 <= k < self@.candidates.len() && (#[trigger] self@.candidates[k]).id
                                == candidate_id as int;
                        assert(self@.candidates[k] == self.candidates[k]@);
                    }
                }
                return Err(StoreFault::UnknownCandidate);
            },
            Some(i) => {
                proof {
                    assert(self@.candidates[i as int] == self.candidates[i as int]@);
                }
            },
        }
        let vote = Vote { device_id: String::from_str(device_id), candidate_id, timestamp: now };
        proof {
            lemma_with_vote(self@, device_id@, candidate_id as int, now as int);
        }
        match self.vote_position(device_id) {
            Some(j) => {
                proof {
                    assert(self@.votes[j as int] == self.votes[j as int]@);
                    lemma_vote_found(self@, j as int);
                    assert(vote_rows(self.votes@.update(j as int, vote)) =~= vote_rows(
                        self.votes@,
                    ).update(j as int, vote@));
                }
                self.votes.set(j, vote);
            },
            None => {
                proof {
                    if self@.has_vote(device_id@) {
                        let k = self@.vote_index(device_id@);
                        assert(self@.votes[k] == self.votes[k]@);
                    }
                    assert(vote_rows(self.votes@.push(vote)) =~= vote_rows(self.votes@).push(
                        vote@,
                    ));
                }
                self.votes.push(vote);
            },
        }
        Ok(())
    }

    /// Both writes of a vote, the second only after the first succeeded.
    fn cast_vote_at(&mut self, device_id: &str, candidate_name: &str, now: i64) -> (recorded:
        Result<(), StoreFault>)
        requires
            old(self)@.wf(),
        ensures
            final(self)@.wf(),
            match recorded {
                Ok(_) => old(self)@.accepts(candidate_name@) && final(self)@ == old(self)@.cast(
                    device_id@,
                    candidate_name@,
                    now as int,
                ),
                Err(fault) => fault == StoreFault::IdsExhausted && !old(self)@.accepts(
                    candidate_name@,
                ) && final(self)@ == old(self)@,
            },
    {
        proof {
            if self@.accepts(candidate_name@) {
                lemma_with_candidate(self@, candidate_name@);
            }
        }
        match self.get_or_create_candidate(candidate_name) {
            Err(fault) => Err(fault),
            Ok(id) => {
                let written = self.upsert_vote(device_id, id, now);
                match written {
                    Ok(_) => Ok(()),
                    Err(fault) => {
                        assert(false);
                        Err(fault)
                    },
                }
            },
        }
    }

    /// The votes of the candidate go first, then the candidate.
    fn delete_candidate(&mut self, name: &str) -> (removed: bool)
        requires
            old(self)@.wf(),
        ensures
            final(self)@.wf(),
            final(self)@ == old(self)@.without_candidate(name@),
            removed == old(self)@.has_candidate(name@),
            !removed ==> final(self)@ == old(self)@,
    {
        proof {
            lemma_without_candidate(self@, name@);
        }
        match self.candidate_position(name) {
            None => {
                proof {
                    if self@.has_candidate(name@) {
                        let k = self@.candidate_index(name@);
                        assert(self@.candidates[k] == self.candidates[k]@);
                    }
                }
                false
            },
            Some(i) => {
                proof {
                    assert(self@.candidates[i as int] == self.candidates[i as int]@);
                    lemma_candidate_found(self@, i as int);
                }
                let id = self.candidates[i].id;
                let ghost rows = vote_rows(self.votes@);
                let mut kept: Vec<Vote> = Vec::new();
                let mut j: usize = 0;
                proof {
                    reveal(Seq::filter);
                    assert(rows.take(0) =~= Seq::empty());
                    assert(vote_rows(kept@) =~= votes_not_for(rows.take(0), id as int));
                }
                while j < self.votes.len()
                    invariant
                        j <= self.votes.len(),
                        rows == vote_rows(self.votes@),
                        vote_rows(kept@) == votes_not_for(rows.take(j as int), id as int),
                    decreases self.votes.len() - j,
                {
                    let vote = &self.votes[j];
                    proof {
                        rows.lemma_take_succ_push(j as int);
                        rows.take(j as int).lemma_filter_push(
                            rows[j as int],
                            |v: VoteRow| v.candidate != id as int,
                        );
                    }
                    if vote.candidate_id != id {
                        let copy = Vote {
                            device_id: vote.device_id.clone(),
                            candidate_id: vote.candidate_id,
                            timestamp: vote.timestamp,
                        };
                        proof {
                            assert(copy@ == rows[j as int]);
                            assert(vote_rows(kept@.push(copy)) =~= vote_rows(kept@).push(copy@));
                        }
                        kept.push(copy);
                    }
                    j += 1;
                }
                proof {
                    assert(rows.take(j as int) =~= rows);
                    assert(candidate_rows(self.candidates@.remove(i as int)) =~= candidate_rows(
                        self.candidates@,
                    ).remove(i as int));
                }
                self.votes = kept;
                self.candidates.remove(i);
                true
            },
        }
    }

    /// The vote of this device.
    fn vote_of(&self, device_id: &str) -> (found: Option<&Vote>)
        requires
            self@.wf(),
        ensures
            found.is_some() == self@.has_vote(device_id@),
            found matches Some(vote) ==> vote@ == self@.vote_of(device_id@),
    {
        match self.vote_position(device_id) {
            Some(j) => {
                proof {
                    assert(self@.votes[j as int] == self.votes[j as int]@);
                    lemma_vote_found(self@, j as int);
                }
                Some(&self.votes[j])
            },
            None => {
                proof {
                    if self@.has_vote(device_id@) {
                        let k = self@.vote_index(device_id@);
                        assert(self@.votes[k] == self.votes[k]@);
                    }
                }
                None
            },
        }
    }
}

/// The ledger, held in memory. Every ledger satisfies the invariants of its
/// model, whoever holds it.
#[derive(Debug)]
pub struct Ledger {
    tables: Tables,
}

impl View for Ledger {
    type V = LedgerView;

    closed spec fn view(&self) -> LedgerView {
        self.tables@
    }
}

impl Ledger {
    #[verifier::type_invariant]
    spec fn consistent(&self) -> bool {
        self.tables@.wf()
    }

    /// A ledger without candidates and votes.
    pub fn new() -> (ledger: Ledger)
        ensures
            ledger@ == LedgerView::empty(),
            ledger@.wf(),
    {
        Ledger { tables: Tables::new() }
    }

    /// Does nothing when run; tells the caller's proof that the invariants
    /// hold of this ledger, as they do of every ledger.
    pub fn invariants(&self)
        ensures
            self@.wf(),
    {
        proof {
            use_type_invariant(self);
        }
    }

    /// The identity of the candidate of this name.
    pub fn find_candidate(&self, name: &str) -> (found: Option<i64>)
        ensures
            self@.wf(),
            found.is_some() == self@.has_candidate(name@),
            found matches Some(id) ==> id == self@.id_of(name@),
    {
        proof {
            use_type_invariant(self);
        }
        self.tables.find_candidate(name)
    }

    /// Resolves the candidate of this name, creating it where the name is
    /// new. An existing candidate is returned as it is. A new one takes the
    /// next identity; where none is left, the ledger stays as it was.
    pub fn get_or_create_candidate(&mut self, name: &str) -> (resolved: Result<i64, StoreFault>)
        ensures
            old(self)@.wf(),
            final(self)@.wf(),
            match resolved {
                Ok(id) => old(self)@.accepts(name@) && final(self)@ == old(self)@.with_candidate(
                    name@,
                ) && id == final(self)@.id_of(name@),
                Err(fault) => fault == StoreFault::IdsExhausted && !old(self)@.accepts(name@)
                    && final(self)@ == old(self)@,
            },
    {
        proof {
            use_type_invariant(&*self);
        }
        let mut tables = Tables::new();
        core::mem::swap(&mut self.tables, &mut tables);
        let resolved = tables.get_or_create_candidate(name);
        self.tables = tables;
        resolved
    }

    /// Writes the vote of a device: the row of the device is overwritten
    /// where there is one and added where there is none, so that the last
    /// write wins. A vote for a candidate that does not exist is refused and
    /// the ledger stays as it was.
    pub fn upsert_vote(&mut self, device_id: &str, candidate_id: i64, now: i64) -> (written: Result<
        (),
        StoreFault,
    >)
        ensures
            old(self)@.wf(),
            final(self)@.wf(),
            match written {
                Ok(_) => old(self)@.has_id(candidate_id as int) && final(self)@ == old(
                    self,
                )@.with_vote(device_id@, candidate_id as int, now as int),
                Err(fault) => fault == StoreFault::UnknownCandidate && !old(self)@.has_id(
                    candidate_id as int,
                ) && final(self)@ == old(self)@,
            },
    {
        proof {
            use_type_invariant(&*self);
        }
        let mut tables = Tables::new();
        core::mem::swap(&mut self.tables, &mut tables);
        let written = tables.upsert_vote(device_id, candidate_id, now);
        self.tables = tables;
        written
    }

    /// Records that a device votes for the candidate of this name at the
    /// second `now`: the candidate is created where the name is new, and the
    /// device's earlier vote, if any, is replaced. Where no identity is left
    /// for a new candidate, nothing is written.
    pub fn cast_vote_at(&mut self, device_id: &str, candidate_name: &str, now: i64) -> (recorded:
        Result<(), StoreFault>)
        ensures
            old(self)@.wf(),
            final(self)@.wf(),
            match recorded {
                Ok(_) => old(self)@.accepts(candidate_name@) && final(self)@ == old(self)@.cast(
                    device_id@,
                    candidate_name@,
                    now as int,
                ),
                Err(fault) => fault == StoreFault::IdsExhausted && !old(self)@.accepts(
                    candidate_name@,
                ) && final(self)@ == old(self)@,
            },
    {
        proof {
            use_type_invariant(&*self);
        }
        let mut tables = Tables::new();
        core::mem::swap(&mut self.tables, &mut tables);
        let recorded = tables.cast_vote_at(device_id, candidate_name, now);
        self.tables = tables;
        recorded
    }

    /// Records that a device votes for the candidate of this name now: the
    /// second of the write is read from the server's clock.
    pub fn cast_vote(&mut self, device_id: &str, candidate_name: &str) -> (recorded: Result<
        (),
        StoreFault,
    >)
        ensures
            old(self)@.wf(),
            final(self)@.wf(),
            match recorded {
                Ok(_) => old(self)@.accepts(candidate_name@) && exists|at: int|
                    final(self)@ == #[trigger] old(self)@.cast(device_id@, candidate_name@, at),
                Err(fault) => fault == StoreFault::IdsExhausted && !old(self)@.accepts(
                    candidate_name@,
                ) && final(self)@ == old(self)@,
            },
    {
        let now = unix_now();
        self.cast_vote_at(device_id, candidate_name, now)
    }

    /// Removes the candidate of this name together with every vote for it,
    /// and says whether there was such a candidate. Where there was none,
    /// the ledger stays as it was.
    pub fn delete_candidate(&mut self, name: &str) -> (removed: bool)
        ensures
            old(self)@.wf(),
            final(self)@.wf(),
            final(self)@ == old(self)@.without_candidate(name@),
            removed == old(self)@.has_candidate(name@),
            !removed ==> final(self)@ == old(self)@,
    {
        proof {
            use_type_invariant(&*self);
        }
        let mut tables = Tables::new();
        core::mem::swap(&mut self.tables, &mut tables);
        let removed = tables.delete_candidate(name);
        self.tables = tables;
        removed
    }

    /// The number of all votes.
    pub fn vote_count(&self) -> (count: usize)
        ensures
            self@.wf(),
            count == self@.total(),
    {
        proof {
            use_type_invariant(self);
        }
        self.tables.votes.len()
    }

    /// The number of all candidates, those without votes included.
    pub fn candidate_count(&self) -> (count: usize)
        ensures
            self@.wf(),
            count == self@.candidates.len(),
    {
        proof {
            use_type_invariant(self);
        }
        self.tables.candidates.len()
    }

    /// The candidates in the order in which the ledger holds them.
    pub fn candidates(&self) -> (list: &Vec<Candidate>)
        ensures
            self@.wf(),
            candidate_rows(list@) == self@.candidates,
    {
        proof {
            use_type_invariant(self);
        }
        &self.tables.candidates
    }

    /// The votes in the order in which the ledger holds them.
    pub fn votes(&self) -> (list: &Vec<Vote>)
        ensures
            self@.wf(),
            vote_rows(list@) == self@.votes,
    {
        proof {
            use_type_invariant(self);
        }
        &self.tables.votes
    }

    /// The vote of this device.
    pub fn vote_of(&self, device_id: &str) -> (found: Option<&Vote>)
        ensures
            self@.wf(),
            found.is_some() == self@.has_vote(device_id@),
            found matches Some(vote) ==> vote@ == self@.vote_of(device_id@),
    {
        proof {
            use_type_invariant(self);
        }
        self.tables.vote_of(device_id)
    }
}

} // verus!
