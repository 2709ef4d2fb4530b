//! What holds of the tally, proved over the ledger's model.

use vstd::prelude::*;
use crate::ledger_laws::{lemma_candidate_found, lemma_votes_not_for, lemma_without_candidate};
use crate::ledger_model::{count_for, LedgerView};
use crate::models::{CandidateRow, VoteRow};
use crate::tally::{counted, share_of, shares_of, sum_of_votes, CountRow};

verus! {

/// The votes that reference any of the candidates, each counted once for
/// each candidate that it references.
pub open spec fn votes_referencing(candidates: Seq<CandidateRow>, votes: Seq<VoteRow>) -> nat
    decreases candidates.len(),
{
    if candidates.len() == 0 {
        0
    } else {
        votes_referencing(candidates.drop_last(), votes) + count_for(votes, candidates.last().id)
    }
}

/// The number of candidates that have the identity `id`.
pub open spec fn candidates_with(candidates: Seq<CandidateRow>, id: int) -> nat
    decreases candidates.len(),
{
    if candidates.len() == 0 {
        0
    } else {
        candidates_with(candidates.drop_last(), id) + if candidates.last().id == id {
            1nat
        } else {
            0nat
        }
    }
}

proof fn lemma_shares_sum(total: nat, candidates: Seq<CandidateRow>, votes: Seq<VoteRow>)
    requires
        total > 0,
    ensures
        sum_of_votes(shares_of(total, counted(candidates, votes))) == votes_referencing(
            candidates,
            votes,
        ),
    decreases candidates.len(),
{
    let rows = counted(candidates, votes);
    if candidates.len() == 0 {
        assert(shares_of(total, rows) =~= Seq::empty());
    } else {
        let front = counted(candidates.drop_last(), votes);
        let last = candidates.last();
        lemma_shares_sum(total, candidates.drop_last(), votes);
        if count_for(votes, last.id) > 0 {
            let row = CountRow { name: last.name, votes: count_for(votes, last.id) };
            assert(rows == front.push(row));
            assert(shares_of(total, rows).drop_last() =~= shares_of(total, front));
            assert(shares_of(total, rows).last() == share_of(total, row));
        }
    }
}

proof fn lemma_no_votes_referencing(candidates: Seq<CandidateRow>)
    ensures
        votes_referencing(candidates, Seq::empty()) == 0,
    decreases candidates.len(),
{
    if candidates.len() > 0 {
        lemma_no_votes_referencing(candidates.drop_last());
    }
}

proof fn lemma_one_more_vote(candidates: Seq<CandidateRow>, votes: Seq<VoteRow>)
    requires
        votes.len() > 0,
    ensures
        votes_referencing(candidates, votes) == votes_referencing(candidates, votes.drop_last())
            + candidates_with(candidates, votes.last().candidate),
    decreases candidates.len(),
{
    if candidates.len() > 0 {
        lemma_one_more_vote(candidates.drop_last(), votes);
    }
}

proof fn lemma_identity_once(candidates: Seq<CandidateRow>, id: int)
    requires
        forall|i: int, j: int|
            0 <= i < j < candidates.len() ==> (#[trigger] candidates[i]).id != (
            #[trigger] candidates[j]).id,
    ensures
        candidates_with(candidates, id) == if exists|i: int|
            0 <= i < candidates.len() && (#[trigger] candidates[i]).id == id {
            1nat
        } else {
            0nat
        },
    decreases candidates.len(),
{
    if candidates.len() > 0 {
        let front = candidates.drop_last();
        let last = candidates.last();
        assert forall|i: int, j: int| 0 <= i < j < front.len() implies (#[trigger] front[i]).id != (
        #[trigger] front[j]).id by {
            assert(candidates[i].id != candidates[j].id);
        }
        lemma_identity_once(front, id);
        if exists|i: int| 0 <= i < front.len() && (#[trigger] front[i]).id == id {
            let i = choose|i: int| 0 <= i < front.len() && (#[trigger] front[i]).id == id;
            assert(candidates[i].id == id);
            assert(candidates[i].id != candidates[candidates.len() - 1].id);
        } else {
            if last.id == id {
                assert(candidates[candidates.len() - 1].id == id);
            } else {
                if exists|i: int| 0 <= i < candidates.len() && (#[trigger] candidates[i]).id == id {
                    let i = choose|i: int|
                        0 <= i < candidates.len() && (#[trigger] candidates[i]).id == id;
                    assert(front[i].id == id);
                }
            }
        }
    }
}

proof fn lemma_every_vote_counted(candidates: Seq<CandidateRow>, votes: Seq<VoteRow>)
    requires
        forall|i: int, j: int|
            0 <= i < j < candidates.len() ==> (#[trigger] candidates[i]).id != (
            #[trigger] candidates[j]).id,
        forall|j: int|
            0 <= j < votes.len() ==> exists|i: int|
                0 <= i < candidates.len() && (#[trigger] candidates[i]).id == (
                #[trigger] votes[j]).candidate,
    ensures
        votes_referencing(candidates, votes) == votes.len(),
    decreases votes.len(),
{
    if votes.len() == 0 {
        assert(votes =~= Seq::empty());
        lemma_no_votes_referencing(candidates);
    } else {
        let front = votes.drop_last();
        let last = votes.last();
        assert forall|j: int| 0 <= j < front.len() implies exists|i: int|
            0 <= i < candidates.len() && (#[trigger] candidates[i]).id == (
            #[trigger] front[j]).candidate by {
            assert(front[j] == votes[j]);
        }
        lemma_every_vote_counted(candidates, front);
        lemma_one_more_vote(candidates, votes);
        lemma_identity_once(candidates, last.candidate);
        assert(votes[votes.len() - 1] == last);
    }
}

/// The counts name candidates with votes: each row is the row of a
/// candidate, later rows are of later candidates, and every candidate with a
/// vote has a row.
proof fn lemma_counted_rows(candidates: Seq<CandidateRow>, votes: Seq<VoteRow>)
    ensures
        counted(candidates, votes).len() <= candidates.len(),
        forall|k: int|
            0 <= k < counted(candidates, votes).len() ==> exists|i: int|
                k <= i < candidates.len() && (#[trigger] candidates[i]).name == (
                #[trigger] counted(candidates, votes)[k]).name && counted(
                    candidates,
                    votes,
                )[k].votes == count_for(votes, candidates[i].id) && count_for(
                    votes,
                    candidates[i].id,
                ) > 0,
        forall|i: int|
            0 <= i < candidates.len() && count_for(votes, (#[trigger] candidates[i]).id) > 0
                ==> exists|k: int|
                0 <= k < counted(candidates, votes).len() && (#[trigger] counted(
                    candidates,
                    votes,
                )[k]).name == candidates[i].name,
        (forall|i: int, j: int|
            0 <= i < j < candidates.len() ==> (#[trigger] candidates[i]).name != (
            #[trigger] candidates[j]).name) ==> (forall|a: int, b: int|
            0 <= a < b < counted(candidates, votes).len() ==> (#[trigger] counted(
                candidates,
                votes,
            )[a]).name != (#[trigger] counted(candidates, votes)[b]).name),
    decreases candidates.len(),
{
    let rows = counted(candidates, votes);
    if candidates.len() > 0 {
        let front_candidates = candidates.drop_last();
        let front = counted(front_candidates, votes);
        let last = candidates.last();
        let end = candidates.len() - 1;
        lemma_counted_rows(front_candidates, votes);
        assert forall|k: int| 0 <= k < rows.len() implies exists|i: int|
            k <= i < candidates.len() && (#[trigger] candidates[i]).name == (
            #[trigger] rows[k]).name && rows[k].votes == count_for(votes, candidates[i].id)
                && count_for(votes, candidates[i].id) > 0 by {
            if k < front.len() {
                assert(rows[k] == front[k]);
                let i = choose|i: int|
                    k <= i < front_candidates.len() && (#[trigger] front_candidates[i]).name
                        == front[k].name && front[k].votes == count_for(
                        votes,
                        front_candidates[i].id,
                    ) && count_for(votes, front_candidates[i].id) > 0;
                assert(candidates[i] == front_candidates[i]);
            } else {
                assert(candidates[end] == last);
            }
        }
        assert forall|i: int|
            0 <= i < candidates.len() && count_for(votes, (#[trigger] candidates[i]).id)
                > 0 implies exists|k: int|
            0 <= k < rows.len() && (#[trigger] rows[k]).name == candidates[i].name by {
            if i < end {
                assert(front_candidates[i] == candidates[i]);
                let k = choose|k: int|
                    0 <= k < front.len() && (#[trigger] front[k]).name == front_candidates[i].name;
                assert(rows[k] == front[k]);
            } else {
                assert(rows[rows.len() - 1].name == last.name);
            }
        }
        if forall|i: int, j: int|
            0 <= i < j < candidates.len() ==> (#[trigger] candidates[i]).name != (
            #[trigger] candidates[j]).name {
            assert forall|i: int, j: int| 0 <= i < j < front_candidates.len() implies (
            #[trigger] front_candidates[i]).name != (#[trigger] front_candidates[j]).name by {
                assert(candidates[i].name != candidates[j].name);
            }
            assert forall|a: int, b: int| 0 <= a < b < rows.len() implies (#[trigger] rows[a]).name
                != (#[trigger] rows[b]).name by {
                if b < front.len() {
                    assert(front[a].name != front[b].name);
                } else {
                    assert(rows[a] == front[a]);
                    let i = choose|i: int|
                        a <= i < front_candidates.len() && (#[trigger] front_candidates[i]).name
                            == front[a].name && front[a].votes == count_for(
                            votes,
                            front_candidates[i].id,
                        ) && count_for(votes, front_candidates[i].id) > 0;
                    assert(candidates[i].name != candidates[end].name);
                }
            }
        }
    }
}

/// The shares of a ledger are of its candidates with votes: each share
/// names a candidate, holds the number of its votes, which is one at least,
/// beside the number of all votes, and no candidate has two shares.
pub proof fn law_shares_are_of_candidates_with_votes(s: LedgerView)
    requires
        s.wf(),
    ensures
        s.total() == 0 ==> s.shares().len() == 0,
        forall|k: int|
            0 <= k < s.shares().len() ==> s.has_candidate((#[trigger] s.shares()[k]).name)
                && s.shares()[k].votes == s.votes_for(s.shares()[k].name) && s.shares()[k].votes
                >= 1 && s.shares()[k].total == s.total(),
        forall|a: int, b: int|
            0 <= a < b < s.shares().len() ==> (#[trigger] s.shares()[a]).name != (
            #[trigger] s.shares()[b]).name,
{
    let rows = s.counts();
    let shares = s.shares();
    lemma_counted_rows(s.candidates, s.votes);
    if s.total() > 0 {
        assert forall|k: int| 0 <= k < shares.len() implies s.has_candidate(
            (#[trigger] shares[k]).name,
        ) && shares[k].votes == s.votes_for(shares[k].name) && shares[k].votes >= 1
            && shares[k].total == s.total() by {
            assert(shares[k] == share_of(s.total(), rows[k]));
            let i = choose|i: int|
                k <= i < s.candidates.len() && (#[trigger] s.candidates[i]).name == rows[k].name
                    && rows[k].votes == count_for(s.votes, s.candidates[i].id) && count_for(
                    s.votes,
                    s.candidates[i].id,
                ) > 0;
            lemma_candidate_found(s, i);
        }
        assert forall|a: int, b: int| 0 <= a < b < shares.len() implies (#[trigger] shares[a]).name
            != (#[trigger] shares[b]).name by {
            assert(rows[a].name != rows[b].name);
        }
    }
}

/// Every candidate with a vote has a share.
pub proof fn law_every_voted_candidate_has_a_share(s: LedgerView, name: Seq<char>)
    requires
        s.wf(),
        s.votes_for(name) > 0,
    ensures
        s.total() > 0,
        exists|k: int| 0 <= k < s.shares().len() && (#[trigger] s.shares()[k]).name == name,
{
    let rows = s.counts();
    let shares = s.shares();
    let i = s.candidate_index(name);
    lemma_candidate_found(s, i);
    lemma_counted_rows(s.candidates, s.votes);
    assert(s.votes.len() > 0) by {
        if s.votes.len() == 0 {
            assert(count_for(s.votes, s.id_of(name)) == 0);
        }
    }
    assert(count_for(s.votes, s.candidates[i].id) > 0);
    let k = choose|k: int| 0 <= k < rows.len() && (#[trigger] rows[k]).name == s.candidates[i].name;
    assert(shares[k] == share_of(s.total(), rows[k]));
}

/// The shares make up the whole: their votes add up to the number of all
/// votes, so that the percentages `100 * votes / total` add up to 100
/// wherever there is a vote.
pub proof fn law_shares_sum_to_total(s: LedgerView)
    requires
        s.wf(),
    ensures
        sum_of_votes(s.shares()) == s.total(),
{
    if s.total() > 0 {
        lemma_shares_sum(s.total(), s.candidates, s.votes);
        assert forall|j: int| 0 <= j < s.votes.len() implies exists|i: int|
            0 <= i < s.candidates.len() && (#[trigger] s.candidates[i]).id == (
            #[trigger] s.votes[j]).candidate by {
            assert(s.has_id(s.votes[j].candidate));
        }
        lemma_every_vote_counted(s.candidates, s.votes);
    } else {
        assert(s.shares() =~= Seq::empty());
    }
}

/// Removing a candidate removes its votes and nothing else: the name is
/// gone, no vote and no share is left for it, the number of all votes falls
/// by the number of its votes, every other candidate keeps its votes, and
/// the shares that remain are of the votes that remain.
pub proof fn law_delete_removes_candidate_and_votes(s: LedgerView, name: Seq<char>)
    requires
        s.wf(),
        s.has_candidate(name),
    ensures
        ({
            let r = s.without_candidate(name);
            &&& r.wf()
            &&& !r.has_candidate(name)
            &&& r.votes_for(name) == 0
            &&& count_for(r.votes, s.id_of(name)) == 0
            &&& r.total() + s.votes_for(name) == s.total()
            &&& forall|other: Seq<char>|
                other != name ==> r.has_candidate(other) == s.has_candidate(other)
                    && #[trigger] r.votes_for(other) == s.votes_for(other)
            &&& forall|k: int|
                0 <= k < r.shares().len() ==> (#[trigger] r.shares()[k]).name != name
                    && r.shares()[k].total == r.total() && r.shares()[k].votes == s.votes_for(
                    r.shares()[k].name,
                )
            &&& sum_of_votes(r.shares()) == r.total()
        }),
{
    let r = s.without_candidate(name);
    let id = s.id_of(name);
    lemma_without_candidate(s, name);
    lemma_votes_not_for(s.votes, id);
    assert forall|other: Seq<char>| other != name implies r.has_candidate(other)
        == s.has_candidate(other) && #[trigger] r.votes_for(other) == s.votes_for(other) by {
        if s.has_candidate(other) {
            assert(r.id_of(other) == s.id_of(other));
            assert(count_for(r.votes, s.id_of(other)) == count_for(s.votes, s.id_of(other)));
        }
    }
    law_shares_are_of_candidates_with_votes(r);
    law_shares_sum_to_total(r);
    assert forall|k: int| 0 <= k < r.shares().len() implies (#[trigger] r.shares()[k]).name != name
        && r.shares()[k].total == r.total() && r.shares()[k].votes == s.votes_for(
        r.shares()[k].name,
    ) by {
        assert(r.has_candidate(r.shares()[k].name));
        assert(r.votes_for(r.shares()[k].name) == s.votes_for(r.shares()[k].name));
    }
}

} // verus!
