//! The records of the poll and the requests that change it.

use vstd::prelude::*;

verus! {

/// A candidate: an opaque numeric identity and a unique display name.
#[derive(Debug, PartialEq, Eq)]
pub struct Candidate {
    pub id: i64,
    pub name: String,
}

/// The current choice of one device.
#[derive(Debug, PartialEq, Eq)]
pub struct Vote {
    pub device_id: String,
    pub candidate_id: i64,
    /// Second of the last write, counted from the Unix epoch.
    pub timestamp: i64,
}

/// A request to record a vote.
#[derive(Debug)]
pub struct VoteRequest {
    pub device_id: String,
    pub candidate_name: String,
    /// The platform tag: `"android"` or `"ios"`.
    pub os: String,
    pub token: String,
}

/// A request to remove a candidate together with its votes.
#[derive(Debug)]
pub struct DeleteCandidateRequest {
    pub name: String,
}

/// A candidate as contracts see it.
pub struct CandidateRow {
    pub id: int,
    pub name: Seq<char>,
}

/// A vote as contracts see it.
pub struct VoteRow {
    pub device: Seq<char>,
    pub candidate: int,
    pub at: int,
}

impl View for Candidate {
    type V = CandidateRow;

    open spec fn view(&self) -> CandidateRow {
        CandidateRow { id: self.id as int, name: self.name@ }
    }
}

impl View for Vote {
    type V = VoteRow;

    open spec fn view(&self) -> VoteRow {
        VoteRow { device: self.device_id@, candidate: self.candidate_id as int, at: self.timestamp as int }
    }
}

/// The rows that a list of candidates stands for.
pub open spec fn candidate_rows(candidates: Seq<Candidate>) -> Seq<CandidateRow> {
    candidates.map_values(|c: Candidate| c@)
}

/// The rows that a list of votes stands for.
pub open spec fn vote_rows(votes: Seq<Vote>) -> Seq<VoteRow> {
    votes.map_values(|v: Vote| v@)
}

} // verus!
