//! The tally: each candidate's share of all votes.

use vstd::prelude::*;
use crate::ledger::Ledger;
use crate::ledger_model::{count_for, LedgerView};
use crate::models::{candidate_rows, vote_rows, CandidateRow, Vote, VoteRow};

verus! {

/// The number of votes for one candidate that has at least one.
#[derive(Debug, PartialEq, Eq)]
pub struct CandidateCount {
    pub name: String,
    pub votes: u64,
}

/// A candidate's share: `votes` of `total`, that is `100 * votes / total`
/// percent.
#[derive(Debug, PartialEq, Eq)]
pub struct Share {
    pub name: String,
    pub votes: u64,
    pub total: u64,
}

/// A count as contracts see it.
pub struct CountRow {
    pub name: Seq<char>,
    pub votes: nat,
}

/// A share as contracts see it.
pub struct ShareRow {
    pub name: Seq<char>,
    pub votes: nat,
    pub total: nat,
}

impl View for CandidateCount {
    type V = CountRow;

    open spec fn view(&self) -> CountRow {
        CountRow { name: self.name@, votes: self.votes as nat }
    }
}

impl View for Share {
    type V = ShareRow;

    open spec fn view(&self) -> ShareRow {
        ShareRow { name: self.name@, votes: self.votes as nat, total: self.total as nat }
    }
}

/// The rows that a list of counts stands for.
pub open spec fn count_rows(counts: Seq<CandidateCount>) -> Seq<CountRow> {
    counts.map_values(|c: CandidateCount| c@)
}

/// The rows that a list of shares stands for.
pub open spec fn share_rows(shares: Seq<Share>) -> Seq<ShareRow> {
    shares.map_values(|s: Share| s@)
}

/// The candidates joined with their votes: one row for each candidate that
/// has at least one vote, in the order of the candidates. A candidate
/// without votes has no row.
pub open spec fn counted(candidates: Seq<CandidateRow>, votes: Seq<VoteRow>) -> Seq<CountRow>
    decreases candidates.len(),
{
    if candidates.len() == 0 {
        Seq::empty()
    } else {
        let front = counted(candidates.drop_last(), votes);
        let last = candidates.last();
        if count_for(votes, last.id) > 0 {
            front.push(CountRow { name: last.name, votes: count_for(votes, last.id) })
        } else {
            front
        }
    }
}

/// The share that a count is of a total.
pub open spec fn share_of(total: nat, count: CountRow) -> ShareRow {
    ShareRow { name: count.name, votes: count.votes, total }
}

/// The shares for a total and the counts: none where the total is zero,
/// else one for each count.
pub open spec fn shares_of(total: nat, counts: Seq<CountRow>) -> Seq<ShareRow> {
    if total == 0 {
        Seq::empty()
    } else {
        counts.map_values(|c: CountRow| share_of(total, c))
    }
}

/// The votes of all shares together.
pub open spec fn sum_of_votes(shares: Seq<ShareRow>) -> nat
    decreases shares.len(),
{
    if shares.len() == 0 {
        0
    } else {
        sum_of_votes(shares.drop_last()) + shares.last().votes
    }
}

impl LedgerView {
    /// The counts of the candidates that have votes.
    pub open spec fn counts(self) -> Seq<CountRow> {
        counted(self.candidates, self.votes)
    }

    /// The shares of the candidates that have votes; none before the first
    /// vote.
    pub open spec fn shares(self) -> Seq<ShareRow> {
        shares_of(self.total(), self.counts())
    }
}

/// Turns a total and the counts of the candidates into shares. With no
/// votes at all there are no shares, and nothing is divided.
pub fn shares_from_counts(total: u64, counts: &Vec<CandidateCount>) -> (shares: Vec<Share>)
    ensures
        share_rows(shares@) == shares_of(total as nat, count_rows(counts@)),
{
    let mut shares: Vec<Share> = Vec::new();
    if total == 0 {
        assert(share_rows(shares@) =~= Seq::empty());
        return shares;
    }
    let ghost rows = count_rows(counts@);
    let mut i: usize = 0;
    while i < counts.len()
        invariant
            total > 0,
            i <= counts.len(),
            rows == count_rows(counts@),
            shares@.len() == i,
            forall|k: int| 0 <= k < i ==> (#[trigger] shares[k])@ == share_of(total as nat, rows[k]),
        decreases counts.len() - i,
    {
        let share = Share { name: counts[i].name.clone(), votes: counts[i].votes, total };
        assert(share@ == share_of(total as nat, rows[i as int]));
        shares.push(share);
        i += 1;
    }
    assert(share_rows(shares@) =~= shares_of(total as nat, rows));
    shares
}

/// Counts the votes that reference one candidate.
pub fn count_votes_for(votes: &Vec<Vote>, candidate_id: i64) -> (count: usize)
    ensures
        count == count_for(vote_rows(votes@), candidate_id as int),
{
    let ghost rows = vote_rows(votes@);
    let mut count: usize = 0;
    let mut j: usize = 0;
    assert(rows.take(0) =~= Seq::empty());
    while j < votes.len()
        invariant
            j <= votes.len(),
            rows == vote_rows(votes@),
            count <= j,
            count == count_for(rows.take(j as int), candidate_id as int),
        decreases votes.len() - j,
    {
        proof {
            assert(rows.take(j as int + 1).drop_last() =~= rows.take(j as int));
            assert(rows.take(j as int + 1).last() == votes[j as int]@);
        }
        if votes[j].candidate_id == candidate_id {
            count += 1;
        }
        j += 1;
    }
    assert(rows.take(j as int) =~= rows);
    count
}

impl Ledger {
    /// The candidates joined with their votes: one count for each candidate
    /// that has at least one vote.
    pub fn counts(&self) -> (counts: Vec<CandidateCount>)
        ensures
            self@.wf(),
            count_rows(counts@) == self@.counts(),
    {
        let candidates = self.candidates();
        let votes = self.votes();
        let ghost rows = candidate_rows(candidates@);
        let ghost cast = vote_rows(votes@);
        let mut counts: Vec<CandidateCount> = Vec::new();
        let mut i: usize = 0;
        proof {
            assert(rows.take(0) =~= Seq::empty());
            assert(count_rows(counts@) =~= counted(rows.take(0), cast));
        }
        while i < candidates.len()
            invariant
                i <= candidates.len(),
                rows == candidate_rows(candidates@),
                cast == vote_rows(votes@),
                count_rows(counts@) == counted(rows.take(i as int), cast),
            decreases candidates.len() - i,
        {
            let candidate = &candidates[i];
            let n = count_votes_for(votes, candidate.id);
            proof {
                assert(rows.take(i as int + 1).drop_last() =~= rows.take(i as int));
                assert(rows.take(i as int + 1).last() == candidate@);
            }
            if n > 0 {
                let count = CandidateCount { name: candidate.name.clone(), votes: n as u64 };
                proof {
                    assert(count_rows(counts@.push(count)) =~= count_rows(counts@).push(count@));
                }
                counts.push(count);
            }
            i += 1;
        }
        assert(rows.take(i as int) =~= rows);
        counts
    }

    /// Each candidate's share of all votes. Before the first vote there is
    /// none; a candidate without votes has none.
    pub fn compute_percentages(&self) -> (shares: Vec<Share>)
        ensures
            self@.wf(),
            share_rows(shares@) == self@.shares(),
    {
        let total = self.vote_count();
        if total == 0 {
            let shares: Vec<Share> = Vec::new();
            assert(share_rows(shares@) =~= Seq::empty());
            return shares;
        }
        let counts = self.counts();
        shares_from_counts(total as u64, &counts)
    }
}

} // verus!
