//! The three requests of the poll, decided step by step: a vote, the
//! percentages, and the removal of a candidate.

use vstd::prelude::*;
use crate::admission::{admin_decision, optional_text, verify_admin, AdminDecision};
use crate::attestation::{
    google_play_outcome,
    parse_platform,
    platform_of,
    verify_google_play_integrity,
    Attestation,
    AttestationError,
    Platform,
};
use crate::clock::unix_now;
use crate::device_check::{
    apple_check_admits,
    conclude_apple_check,
    reply_outcome,
    verify_apple_check,
    verify_apple_check_at,
    AppleCredentials,
    AttestationStep,
    DeviceCheckRequest,
    HttpReply,
};
use crate::ledger::{Ledger, StoreFault};
use crate::ledger_model::LedgerView;
use crate::models::{DeleteCandidateRequest, VoteRequest};
use crate::tally::{share_rows, Share};

verus! {

/// What a request is answered with.
#[derive(Clone, Copy, Debug, PartialEq, Eq, Structural)]
pub enum Response {
    /// The request was carried out.
    Success,
    /// The body of the request could not be read.
    BadRequest,
    /// The device or the administrator was not accepted.
    Unauthorized,
    /// The store or the configuration failed.
    InternalError,
}

/// How loudly a refusal is logged.
#[derive(Clone, Copy, Debug, PartialEq, Eq, Structural)]
pub enum Severity {
    /// A rejected device: routine.
    Warning,
    /// A check that could not decide: an operational failure.
    Error,
}

/// The HTTP status of a response.
pub open spec fn status_of(response: Response) -> u16 {
    match response {
        Response::Success => 200,
        Response::BadRequest => 400,
        Response::Unauthorized => 401,
        Response::InternalError => 500,
    }
}

impl Response {
    /// The HTTP status of this response.
    pub fn status_code(&self) -> (code: u16)
        ensures
            code == status_of(*self),
    {
        match self {
            Response::Success => 200,
            Response::BadRequest => 400,
            Response::Unauthorized => 401,
            Response::InternalError => 500,
        }
    }
}

/// The severity with which an outcome is logged: a genuine device is not
/// logged, a rejected one is a warning, an undecided check is an error.
pub open spec fn severity_of(outcome: Attestation) -> Option<Severity> {
    match outcome {
        Attestation::Genuine => None,
        Attestation::Rejected => Some(Severity::Warning),
        Attestation::Indeterminate(_) => Some(Severity::Error),
    }
}

/// The severity with which an outcome is logged.
pub fn refusal_severity(outcome: &Attestation) -> (severity: Option<Severity>)
    ensures
        severity == severity_of(*outcome),
{
    match outcome {
        Attestation::Genuine => None,
        Attestation::Rejected => Some(Severity::Warning),
        Attestation::Indeterminate(_) => Some(Severity::Error),
    }
}

/// The response that ends a vote before the ledger is touched: none for a
/// genuine device, and the same refusal for a rejected device and for an
/// undecided check.
pub open spec fn refusal_of(outcome: Attestation) -> Option<Response> {
    match outcome {
        Attestation::Genuine => None,
        _ => Some(Response::Unauthorized),
    }
}

/// The response that ends a vote before the ledger is touched.
pub fn attestation_response(outcome: &Attestation) -> (refusal: Option<Response>)
    ensures
        refusal == refusal_of(*outcome),
{
    match outcome {
        Attestation::Genuine => None,
        _ => Some(Response::Unauthorized),
    }
}

/// The response to a write: success, or an internal error for any fault.
pub open spec fn response_to_write(written: Result<(), StoreFault>) -> Response {
    match written {
        Ok(_) => Response::Success,
        Err(_) => Response::InternalError,
    }
}

/// The response to a write.
pub fn store_response(written: Result<(), StoreFault>) -> (response: Response)
    ensures
        response == response_to_write(written),
{
    match written {
        Ok(_) => Response::Success,
        Err(_) => Response::InternalError,
    }
}

/// The response that ends an administrative request before anything is
/// changed: none where the administrator may proceed.
pub open spec fn admin_refusal_of(decision: AdminDecision) -> Option<Response> {
    match decision {
        AdminDecision::Proceed => None,
        AdminDecision::Unauthorized => Some(Response::Unauthorized),
        AdminDecision::Misconfigured => Some(Response::InternalError),
    }
}

/// The response that ends an administrative request before anything is
/// changed.
pub fn admin_response(decision: AdminDecision) -> (refusal: Option<Response>)
    ensures
        refusal == admin_refusal_of(decision),
{
    match decision {
        AdminDecision::Proceed => None,
        AdminDecision::Unauthorized => Some(Response::Unauthorized),
        AdminDecision::Misconfigured => Some(Response::InternalError),
    }
}

/// What the attestation of a vote may come to at the second `now`: an
/// unknown platform leaves the check undecided, an Android token is decided
/// at once, and an iOS token goes the way of the iOS check.
pub open spec fn attestation_admits(
    os: Seq<char>,
    token: Seq<char>,
    credentials: AppleCredentials,
    now: int,
    transaction_id: Seq<char>,
    step: AttestationStep,
) -> bool {
    match platform_of(os) {
        None => step == AttestationStep::Done(
            Attestation::Indeterminate(AttestationError::UnknownPlatform),
        ),
        Some(Platform::Android) => step == AttestationStep::Done(google_play_outcome(token)),
        Some(Platform::Ios) => apple_check_admits(token, credentials, now, transaction_id, step),
    }
}

/// What the attestation of a vote may come to at some second, with some
/// transaction identifier.
pub open spec fn attestation_may_come_to(
    os: Seq<char>,
    token: Seq<char>,
    credentials: AppleCredentials,
    step: AttestationStep,
) -> bool {
    exists|now: int, transaction_id: Seq<char>| #[trigger]
        attestation_admits(os, token, credentials, now, transaction_id, step)
}

/// Starts the attestation of a vote at the second `now`.
pub fn begin_attestation_at(
    os: &str,
    token: &str,
    credentials: &AppleCredentials,
    now: i64,
    transaction_id: &str,
) -> (step: AttestationStep)
    ensures
        attestation_admits(os@, token@, *credentials, now as int, transaction_id@, step),
{
    match parse_platform(os) {
        None => AttestationStep::Done(Attestation::Indeterminate(AttestationError::UnknownPlatform)),
        Some(Platform::Android) => AttestationStep::Done(verify_google_play_integrity(token)),
        Some(Platform::Ios) => verify_apple_check_at(token, credentials, now, transaction_id),
    }
}

/// Starts the attestation of a vote now.
pub fn begin_attestation(os: &str, token: &str, credentials: &AppleCredentials) -> (step:
    AttestationStep)
    ensures
        attestation_may_come_to(os@, token@, *credentials, step),
{
    match parse_platform(os) {
        None => {
            let step = AttestationStep::Done(
                Attestation::Indeterminate(AttestationError::UnknownPlatform),
            );
            assert(attestation_admits(os@, token@, *credentials, 0, Seq::empty(), step));
            step
        },
        Some(Platform::Android) => {
            let step = AttestationStep::Done(verify_google_play_integrity(token));
            assert(attestation_admits(os@, token@, *credentials, 0, Seq::empty(), step));
            step
        },
        Some(Platform::Ios) => {
            let step = verify_apple_check(token, credentials);
            proof {
                let (now, transaction_id) = choose|now: int, transaction_id: Seq<char>| #[trigger]
                    apple_check_admits(token@, *credentials, now, transaction_id, step);
                assert(attestation_admits(os@, token@, *credentials, now, transaction_id, step));
            }
            step
        },
    }
}

/// The ledger after a vote with this outcome, and the response: a genuine
/// device's vote is recorded, or refused with an internal error and no
/// change where the ledger cannot take it; any other outcome is unauthorized
/// and changes nothing.
pub open spec fn vote_settled(
    before: LedgerView,
    after: LedgerView,
    request: VoteRequest,
    outcome: Attestation,
    now: int,
    response: Response,
) -> bool {
    if outcome is Genuine {
        if before.accepts(request.candidate_name@) {
            response == Response::Success && after == before.cast(
                request.device_id@,
                request.candidate_name@,
                now,
            )
        } else {
            response == Response::InternalError && after == before
        }
    } else {
        response == Response::Unauthorized && after == before
    }
}

/// Where a vote stands.
#[derive(Debug)]
pub enum VoteStep {
    /// The vote is answered; the outcome of the attestation goes with the
    /// response, for the log.
    Respond { response: Response, outcome: Attestation },
    /// The request is to be sent, and the vote goes on with its reply.
    Ask(DeviceCheckRequest),
}

/// Carries out a vote whose attestation is decided, at the second `now`.
pub fn record_vote(ledger: &mut Ledger, request: &VoteRequest, outcome: &Attestation, now: i64) -> (response:
    Response)
    ensures
        old(ledger)@.wf(),
        final(ledger)@.wf(),
        vote_settled(old(ledger)@, final(ledger)@, *request, *outcome, now as int, response),
{
    ledger.invariants();
    match attestation_response(outcome) {
        Some(refusal) => refusal,
        None => store_response(
            ledger.cast_vote_at(request.device_id.as_str(), request.candidate_name.as_str(), now),
        ),
    }
}

/// What a vote may come to at the second `now`: either the request of the
/// iOS check is to be sent and the ledger is as before, or the attestation is
/// decided and the vote is settled by its outcome.
pub open spec fn vote_admits(
    before: LedgerView,
    after: LedgerView,
    request: VoteRequest,
    credentials: AppleCredentials,
    now: int,
    transaction_id: Seq<char>,
    step: VoteStep,
) -> bool {
    match step {
        VoteStep::Ask(ask) => after == before && attestation_admits(
            request.os@,
            request.token@,
            credentials,
            now,
            transaction_id,
            AttestationStep::Ask(ask),
        ),
        VoteStep::Respond { response, outcome } => attestation_admits(
            request.os@,
            request.token@,
            credentials,
            now,
            transaction_id,
            AttestationStep::Done(outcome),
        ) && vote_settled(before, after, request, outcome, now, response),
    }
}

/// Takes a vote at the second `now`: the device is attested first, and only
/// a genuine device's vote reaches the ledger. An unknown platform is
/// unauthorized and leaves the ledger as it was. An Android vote is answered
/// at once, without any outside service: with the mock token it is recorded,
/// with any other token it is unauthorized for want of an implementation.
pub fn vote_at(
    ledger: &mut Ledger,
    request: &VoteRequest,
    credentials: &AppleCredentials,
    now: i64,
    transaction_id: &str,
) -> (step: VoteStep)
    ensures
        old(ledger)@.wf(),
        final(ledger)@.wf(),
        vote_admits(
            old(ledger)@,
            final(ledger)@,
            *request,
            *credentials,
            now as int,
            transaction_id@,
            step,
        ),
        platform_of(request.os@) is None ==> final(ledger)@ == old(ledger)@ && (
        step matches VoteStep::Respond { response, outcome } && response == Response::Unauthorized
            && outcome == Attestation::Indeterminate(AttestationError::UnknownPlatform)),
        platform_of(request.os@) == Some(Platform::Android) ==> (
        step matches VoteStep::Respond { response, outcome } && outcome == google_play_outcome(
            request.token@,
        )),
{
    ledger.invariants();
    let attested = begin_attestation_at(
        request.os.as_str(),
        request.token.as_str(),
        credentials,
        now,
        transaction_id,
    );
    match attested {
        AttestationStep::Ask(ask) => VoteStep::Ask(ask),
        AttestationStep::Done(outcome) => {
            let response = record_vote(ledger, request, &outcome, now);
            VoteStep::Respond { response, outcome }
        },
    }
}

/// Goes on with a vote at the second `now`, once the validation endpoint
/// has replied.
pub fn resume_vote_at(ledger: &mut Ledger, request: &VoteRequest, reply: HttpReply, now: i64) -> (answer:
    (Response, Attestation))
    ensures
        old(ledger)@.wf(),
        final(ledger)@.wf(),
        answer.1 == reply_outcome(reply),
        vote_settled(old(ledger)@, final(ledger)@, *request, answer.1, now as int, answer.0),
{
    let outcome = conclude_apple_check(reply);
    let response = record_vote(ledger, request, &outcome, now);
    (response, outcome)
}

/// What a vote may come to, at whichever seconds the clock is read: either
/// the request of the iOS check is to be sent and the ledger is as before, or
/// the attestation is decided and the vote is settled by its outcome.
pub open spec fn vote_may_come_to(
    before: LedgerView,
    after: LedgerView,
    request: VoteRequest,
    credentials: AppleCredentials,
    step: VoteStep,
) -> bool {
    match step {
        VoteStep::Ask(ask) => after == before && attestation_may_come_to(
            request.os@,
            request.token@,
            credentials,
            AttestationStep::Ask(ask),
        ),
        VoteStep::Respond { response, outcome } => attestation_may_come_to(
            request.os@,
            request.token@,
            credentials,
            AttestationStep::Done(outcome),
        ) && vote_settled_sometime(before, after, request, outcome, response),
    }
}

/// The vote is settled by its outcome, written at some second.
pub open spec fn vote_settled_sometime(
    before: LedgerView,
    after: LedgerView,
    request: VoteRequest,
    outcome: Attestation,
    response: Response,
) -> bool {
    exists|at: int| #[trigger] vote_settled(before, after, request, outcome, at, response)
}

/// Takes a vote now. The attestation reads the clock and makes a
/// transaction identifier only where the iOS check needs them, and the second
/// of the write is read when the vote is recorded.
pub fn vote(ledger: &mut Ledger, request: &VoteRequest, credentials: &AppleCredentials) -> (step:
    VoteStep)
    ensures
        old(ledger)@.wf(),
        final(ledger)@.wf(),
        vote_may_come_to(old(ledger)@, final(ledger)@, *request, *credentials, step),
        platform_of(request.os@) is None ==> final(ledger)@ == old(ledger)@ && (
        step matches VoteStep::Respond { response, outcome } && response == Response::Unauthorized
            && outcome == Attestation::Indeterminate(AttestationError::UnknownPlatform)),
        platform_of(request.os@) == Some(Platform::Android) ==> (
        step matches VoteStep::Respond { response, outcome } && outcome == google_play_outcome(
            request.token@,
        )),
{
    ledger.invariants();
    let attested = begin_attestation(request.os.as_str(), request.token.as_str(), credentials);
    match attested {
        AttestationStep::Ask(ask) => VoteStep::Ask(ask),
        AttestationStep::Done(outcome) => {
            let now = unix_now();
            let response = record_vote(ledger, request, &outcome, now);
            assert(vote_settled(old(ledger)@, ledger@, *request, outcome, now as int, response));
            VoteStep::Respond { response, outcome }
        },
    }
}

/// Goes on with a vote now, once the validation endpoint has replied.
pub fn resume_vote(ledger: &mut Ledger, request: &VoteRequest, reply: HttpReply) -> (answer: (
    Response,
    Attestation,
))
    ensures
        old(ledger)@.wf(),
        final(ledger)@.wf(),
        answer.1 == reply_outcome(reply),
        vote_settled_sometime(old(ledger)@, final(ledger)@, *request, answer.1, answer.0),
{
    let now = unix_now();
    let answer = resume_vote_at(ledger, request, reply, now);
    assert(vote_settled(old(ledger)@, ledger@, *request, answer.1, now as int, answer.0));
    answer
}

/// The shares of all candidates with votes.
pub fn get_percentage(ledger: &Ledger) -> (shares: Vec<Share>)
    ensures
        ledger@.wf(),
        share_rows(shares@) == ledger@.shares(),
{
    ledger.compute_percentages()
}

/// The response to a removal: the administrator is examined first, then the
/// body of the request.
pub open spec fn removal_response(decision: AdminDecision, body_read: bool) -> Response {
    match admin_refusal_of(decision) {
        Some(refusal) => refusal,
        None => if body_read {
            Response::Success
        } else {
            Response::BadRequest
        },
    }
}

/// Removes a candidate on behalf of an administrator. The secret is compared
/// before the body is looked at, so a wrong secret is unauthorized whatever
/// the body holds; a body that could not be read is refused before anything
/// is changed. Removing a candidate that does not exist succeeds and changes
/// nothing.
pub fn delete_candidate(
    ledger: &mut Ledger,
    configured_secret: Option<&str>,
    provided_secret: Option<&str>,
    body: Option<&DeleteCandidateRequest>,
) -> (response: Response)
    ensures
        old(ledger)@.wf(),
        final(ledger)@.wf(),
        response == removal_response(
            admin_decision(optional_text(configured_secret), optional_text(provided_secret)),
            body is Some,
        ),
        final(ledger)@ == if response == Response::Success {
            old(ledger)@.without_candidate(body->0.name@)
        } else {
            old(ledger)@
        },
{
    ledger.invariants();
    match admin_response(verify_admin(configured_secret, provided_secret)) {
        Some(refusal) => refusal,
        None => match body {
            None => Response::BadRequest,
            Some(request) => {
                ledger.delete_candidate(request.name.as_str());
                Response::Success
            },
        },
    }
}

} // verus!
