//! Vote integrity and vote recording for a one-vote-per-device poll.
//!
//! The crate holds the rules of the poll as verified code: which device
//! attestations are accepted, how a vote is recorded so that each device has
//! at most one, how a candidate is removed together with its votes, how
//! the tally is derived, and who may remove a candidate.

pub mod admission;
pub mod attestation;
pub mod clock;
pub mod device_check;
pub mod json;
pub mod jwt;
pub mod ledger;
pub mod ledger_laws;
pub mod ledger_model;
pub mod models;
pub mod routes;
pub mod tally;
pub mod tally_laws;
pub mod text;
