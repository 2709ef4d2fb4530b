//! The iOS check: a short-lived signed assertion, the request that carries
//! it to the validation endpoint, and the reading of the endpoint's answer.

use vstd::prelude::*;
use vstd::string::StringExecFns;
use crate::attestation::{Attestation, AttestationError, Credential, MOCK_IOS_TOKEN};
use crate::clock::unix_now;
use crate::json::{insert_number, insert_text, new_object, number_members, text_members};
use crate::jwt::{ec_key_from_pem, ec_pem_accepted, encode, error_text, header_with_key_id, SigningAlgorithm};
use crate::text::{joined, same_text};

verus! {

/// The endpoint that validates device tokens.
pub const DEVICE_CHECK_URL: &'static str =
    "https://api.development.devicecheck.apple.com/v1/validate_device_token";

/// The seconds for which an assertion is valid.
pub const ASSERTION_LIFETIME: u64 = 3600;

/// The last second for which the request's timestamp, in milliseconds, can
/// be held.
pub const LAST_SECOND: u64 = 18_446_744_073_709_551;

/// What the operator supplies for the iOS check; each may be absent.
#[derive(Clone, Debug)]
pub struct AppleCredentials {
    pub key_id: Option<String>,
    pub team_id: Option<String>,
    pub private_key_pem: Option<String>,
}

/// What is sent to the validation endpoint.
#[derive(Debug)]
pub struct DeviceCheckRequest {
    pub url: String,
    /// The value of the `Authorization` header.
    pub authorization: String,
    /// The JSON body.
    pub body: serde_json::Map<String, serde_json::Value>,
}

/// An assertion before it is signed: the algorithm and the key identifier of
/// its header, and its claims.
#[derive(Debug)]
pub struct UnsignedAssertion {
    pub algorithm: SigningAlgorithm,
    pub key_id: String,
    pub claims: serde_json::Map<String, serde_json::Value>,
}

/// What came of sending a request.
#[derive(Clone, Debug)]
pub enum HttpReply {
    /// The endpoint answered: the status code, and the status as the client
    /// prints it.
    Status { code: u16, text: String },
    /// No answer was received; the text is the client's.
    Failed(String),
}

/// Where an attestation check stands.
#[derive(Debug)]
pub enum AttestationStep {
    /// The check is decided.
    Done(Attestation),
    /// The request is to be sent, and its reply decides.
    Ask(DeviceCheckRequest),
}

/// The first credential that is absent, in the order key identifier, team
/// identifier, private key.
pub open spec fn first_missing(credentials: AppleCredentials) -> Option<Credential> {
    if credentials.key_id is None {
        Some(Credential::KeyId)
    } else if credentials.team_id is None {
        Some(Credential::TeamId)
    } else if credentials.private_key_pem is None {
        Some(Credential::PrivateKey)
    } else {
        None
    }
}

/// The second is one for which an assertion and a request can be made.
pub open spec fn clock_in_range(now: int) -> bool {
    0 <= now <= LAST_SECOND
}

/// The text claims of an assertion: the issuer is the team.
pub open spec fn claim_texts(team_id: Seq<char>) -> Map<Seq<char>, Seq<char>> {
    Map::empty().insert("iss"@, team_id)
}

/// The number claims of an assertion: issued at `now`, expiring after the
/// lifetime.
pub open spec fn claim_numbers(now: u64) -> Map<Seq<char>, u64> {
    Map::empty().insert("iat"@, now).insert("exp"@, (now + ASSERTION_LIFETIME) as u64)
}

/// The text members of a request's body.
pub open spec fn body_texts(token: Seq<char>, transaction_id: Seq<char>) -> Map<Seq<char>, Seq<char>> {
    Map::empty().insert("device_token"@, token).insert("transaction_id"@, transaction_id)
}

/// The number members of a request's body: the timestamp in milliseconds.
pub open spec fn body_numbers(now: u64) -> Map<Seq<char>, u64> {
    Map::empty().insert("timestamp"@, (now * 1000) as u64)
}

/// The header value carries some token as a bearer credential.
pub open spec fn is_bearer(authorization: Seq<char>) -> bool {
    exists|token: Seq<char>| authorization == "Bearer "@ + token
}

/// The request goes to the validation endpoint and its body holds the
/// device token, the transaction identifier and the timestamp of `now`.
pub open spec fn is_request_for(
    request: DeviceCheckRequest,
    token: Seq<char>,
    transaction_id: Seq<char>,
    now: u64,
) -> bool {
    &&& request.url@ == DEVICE_CHECK_URL@
    &&& text_members(request.body) == body_texts(token, transaction_id)
    &&& number_members(request.body) == body_numbers(now)
}

/// The outcome that a reply stands for: a status from 200 to 299 proves the
/// device genuine, any other status and any failure leave the check
/// undecided.
pub open spec fn reply_outcome(reply: HttpReply) -> Attestation {
    match reply {
        HttpReply::Status { code, text } => if 200 <= code < 300 {
            Attestation::Genuine
        } else {
            Attestation::Indeterminate(AttestationError::Upstream(text))
        },
        HttpReply::Failed(reason) => Attestation::Indeterminate(AttestationError::Request(reason)),
    }
}

/// What a check of `token` at the second `now` may come to. The mock token
/// is genuine at once. Else the first absent credential, a clock out of
/// range and a private key that is not accepted each decide, in this order.
/// Else the assertion is signed: either signing fails, or the request for
/// this token, transaction and second is to be sent with a bearer
/// credential.
pub open spec fn apple_check_admits(
    token: Seq<char>,
    credentials: AppleCredentials,
    now: int,
    transaction_id: Seq<char>,
    step: AttestationStep,
) -> bool {
    if token == MOCK_IOS_TOKEN@ {
        step == AttestationStep::Done(Attestation::Genuine)
    } else if first_missing(credentials) is Some {
        step == AttestationStep::Done(
            Attestation::Indeterminate(
                AttestationError::MissingCredential(first_missing(credentials)->0),
            ),
        )
    } else if !clock_in_range(now) {
        step == AttestationStep::Done(Attestation::Indeterminate(AttestationError::ClockOutOfRange))
    } else if !ec_pem_accepted(credentials.private_key_pem->0@) {
        step matches AttestationStep::Done(Attestation::Indeterminate(AttestationError::Key(_)))
    } else {
        ||| step matches AttestationStep::Done(Attestation::Indeterminate(AttestationError::Jwt(_)))
        ||| step matches AttestationStep::Ask(request) && is_request_for(
            request,
            token,
            transaction_id,
            now as u64,
        ) && is_bearer(request.authorization@)
    }
}

/// What a check of `token` may come to at some second, with some
/// transaction identifier.
pub open spec fn apple_check_may_come_to(
    token: Seq<char>,
    credentials: AppleCredentials,
    step: AttestationStep,
) -> bool {
    exists|now: int, transaction_id: Seq<char>| #[trigger]
        apple_check_admits(token, credentials, now, transaction_id, step)
}

/// The first credential that is absent.
pub fn missing_credential(credentials: &AppleCredentials) -> (missing: Option<Credential>)
    ensures
        missing == first_missing(*credentials),
{
    if credentials.key_id.is_none() {
        Some(Credential::KeyId)
    } else if credentials.team_id.is_none() {
        Some(Credential::TeamId)
    } else if credentials.private_key_pem.is_none() {
        Some(Credential::PrivateKey)
    } else {
        None
    }
}

/// The claims of an assertion issued by the team at the second `now`.
pub fn assertion_claims(team_id: &str, now: u64) -> (claims: serde_json::Map<
    String,
    serde_json::Value,
>)
    requires
        now + ASSERTION_LIFETIME <= u64::MAX,
    ensures
        text_members(claims) == claim_texts(team_id@),
        number_members(claims) == claim_numbers(now),
{
    proof {
        reveal_strlit("iss");
        reveal_strlit("iat");
        reveal_strlit("exp");
        assert("iss"@[1] != "iat"@[1]);
        assert("iss"@[0] != "exp"@[0]);
        assert("iat"@[0] != "exp"@[0]);
    }
    let mut claims = new_object();
    insert_text(&mut claims, "iss", team_id);
    insert_number(&mut claims, "iat", now);
    insert_number(&mut claims, "exp", now + ASSERTION_LIFETIME);
    assert(text_members(claims) =~= claim_texts(team_id@));
    assert(number_members(claims) =~= claim_numbers(now));
    claims
}

/// The assertion of the team at the second `now`: to be signed with ES256
/// under the key identifier, issued by the team, valid for the lifetime.
pub fn unsigned_assertion(key_id: &str, team_id: &str, now: u64) -> (assertion: UnsignedAssertion)
    requires
        now + ASSERTION_LIFETIME <= u64::MAX,
    ensures
        assertion.algorithm == SigningAlgorithm::Es256,
        assertion.key_id@ == key_id@,
        text_members(assertion.claims) == claim_texts(team_id@),
        number_members(assertion.claims) == claim_numbers(now),
{
    UnsignedAssertion {
        algorithm: SigningAlgorithm::Es256,
        key_id: String::from_str(key_id),
        claims: assertion_claims(team_id, now),
    }
}

/// Signs an assertion with the private key. A key that is not accepted is a
/// key error; whatever else keeps the signer from signing is a signing error.
pub fn sign(assertion: &UnsignedAssertion, private_key_pem: &str) -> (signed: Result<
    String,
    AttestationError,
>)
    ensures
        !ec_pem_accepted(private_key_pem@) ==> signed matches Err(AttestationError::Key(_)),
        ec_pem_accepted(private_key_pem@) ==> signed is Ok || signed matches Err(
            AttestationError::Jwt(_),
        ),
{
    let header = header_with_key_id(assertion.algorithm, assertion.key_id.as_str());
    match ec_key_from_pem(private_key_pem) {
        Err(error) => Err(AttestationError::Key(error_text(&error))),
        Ok(key) => match encode(&header, &assertion.claims, &key) {
            Err(error) => Err(AttestationError::Jwt(error_text(&error))),
            Ok(token) => Ok(token),
        },
    }
}

/// Makes and signs the assertion of the team at the second `now`.
pub fn signed_assertion(key_id: &str, team_id: &str, private_key_pem: &str, now: u64) -> (signed:
    Result<String, AttestationError>)
    requires
        now + ASSERTION_LIFETIME <= u64::MAX,
    ensures
        !ec_pem_accepted(private_key_pem@) ==> signed matches Err(AttestationError::Key(_)),
        ec_pem_accepted(private_key_pem@) ==> signed is Ok || signed matches Err(
            AttestationError::Jwt(_),
        ),
{
    let assertion = unsigned_assertion(key_id, team_id, now);
    sign(&assertion, private_key_pem)
}

/// The request that carries a device token, a transaction identifier and the
/// second `now` to the validation endpoint, with the signed assertion as the
/// bearer credential.
pub fn device_check_request(token: &str, transaction_id: &str, now: u64, assertion: &str) -> (request:
    DeviceCheckRequest)
    requires
        now <= LAST_SECOND,
    ensures
        is_request_for(request, token@, transaction_id@, now),
        request.authorization@ == "Bearer "@ + assertion@,
{
    proof {
        reveal_strlit("device_token");
        reveal_strlit("transaction_id");
        reveal_strlit("timestamp");
        assert("device_token"@[0] != "transaction_id"@[0]);
        assert("device_token"@[0] != "timestamp"@[0]);
        assert("transaction_id"@[1] != "timestamp"@[1]);
    }
    let mut body = new_object();
    insert_text(&mut body, "device_token", token);
    insert_text(&mut body, "transaction_id", transaction_id);
    insert_number(&mut body, "timestamp", now * 1000);
    assert(text_members(body) =~= body_texts(token@, transaction_id@));
    assert(number_members(body) =~= body_numbers(now));
    DeviceCheckRequest {
        url: String::from_str(DEVICE_CHECK_URL),
        authorization: joined("Bearer ", assertion),
        body,
    }
}

/// The step that follows signing: with an assertion the request is to be
/// sent, and without one the check is left undecided for the signer's reason.
pub fn step_after_signing(
    token: &str,
    transaction_id: &str,
    now: u64,
    signed: Result<String, AttestationError>,
) -> (step: AttestationStep)
    requires
        now <= LAST_SECOND,
    ensures
        match signed {
            Ok(assertion) => step matches AttestationStep::Ask(request) && is_request_for(
                request,
                token@,
                transaction_id@,
                now,
            ) && request.authorization@ == "Bearer "@ + assertion@,
            Err(error) => step == AttestationStep::Done(Attestation::Indeterminate(error)),
        },
{
    match signed {
        Ok(assertion) => AttestationStep::Ask(
            device_check_request(token, transaction_id, now, assertion.as_str()),
        ),
        Err(error) => AttestationStep::Done(Attestation::Indeterminate(error)),
    }
}

/// What decides a check before the clock is read: the mock token is
/// genuine, and an absent credential leaves any other token undecided.
pub open spec fn early_outcome(token: Seq<char>, credentials: AppleCredentials) -> Option<
    Attestation,
> {
    if token == MOCK_IOS_TOKEN@ {
        Some(Attestation::Genuine)
    } else if first_missing(credentials) is Some {
        Some(
            Attestation::Indeterminate(
                AttestationError::MissingCredential(first_missing(credentials)->0),
            ),
        )
    } else {
        None
    }
}

/// Decides a check before the clock is read, where the token or the
/// credentials do so.
pub fn decide_early(token: &str, credentials: &AppleCredentials) -> (outcome: Option<Attestation>)
    ensures
        outcome == early_outcome(token@, *credentials),
{
    if same_text(token, MOCK_IOS_TOKEN) {
        return Some(Attestation::Genuine);
    }
    match missing_credential(credentials) {
        Some(credential) => Some(
            Attestation::Indeterminate(AttestationError::MissingCredential(credential)),
        ),
        None => None,
    }
}

/// Makes and signs the assertion of the credentials at the second `now`.
/// The first absent credential, a clock out of range and a private key that
/// is not accepted each keep the assertion from being made, in this order.
pub fn assertion_at(credentials: &AppleCredentials, now: i64) -> (signed: Result<
    String,
    AttestationError,
>)
    ensures
        first_missing(*credentials) matches Some(credential) ==> signed == Err::<
            String,
            AttestationError,
        >(AttestationError::MissingCredential(credential)),
        first_missing(*credentials) is None && !clock_in_range(now as int) ==> signed == Err::<
            String,
            AttestationError,
        >(AttestationError::ClockOutOfRange),
        first_missing(*credentials) is None && clock_in_range(now as int) && !ec_pem_accepted(
            credentials.private_key_pem->0@,
        ) ==> signed matches Err(AttestationError::Key(_)),
        first_missing(*credentials) is None && clock_in_range(now as int) && ec_pem_accepted(
            credentials.private_key_pem->0@,
        ) ==> signed is Ok || signed matches Err(AttestationError::Jwt(_)),
{
    match (&credentials.key_id, &credentials.team_id, &credentials.private_key_pem) {
        (None, _, _) => Err(AttestationError::MissingCredential(Credential::KeyId)),
        (Some(_), None, _) => Err(AttestationError::MissingCredential(Credential::TeamId)),
        (Some(_), Some(_), None) => Err(AttestationError::MissingCredential(Credential::PrivateKey)),
        (Some(key_id), Some(team_id), Some(private_key_pem)) => {
            if now < 0 || now as u64 > LAST_SECOND {
                Err(AttestationError::ClockOutOfRange)
            } else {
                signed_assertion(
                    key_id.as_str(),
                    team_id.as_str(),
                    private_key_pem.as_str(),
                    now as u64,
                )
            }
        },
    }
}

/// Checks an iOS device token at the second `now`, with `transaction_id` as
/// the identifier of the validation. The mock token passes without any
/// outside service. Else the credentials, the clock and the private key are
/// examined, the assertion is signed, and the request for the validation
/// endpoint is handed out.
pub fn verify_apple_check_at(
    token: &str,
    credentials: &AppleCredentials,
    now: i64,
    transaction_id: &str,
) -> (step: AttestationStep)
    ensures
        apple_check_admits(token@, *credentials, now as int, transaction_id@, step),
{
    match decide_early(token, credentials) {
        Some(outcome) => AttestationStep::Done(outcome),
        None => match assertion_at(credentials, now) {
            Err(error) => AttestationStep::Done(Attestation::Indeterminate(error)),
            Ok(assertion) => step_after_signing(token, transaction_id, now as u64, Ok(assertion)),
        },
    }
}

/// Reads the reply of the validation endpoint.
pub fn conclude_apple_check(reply: HttpReply) -> (outcome: Attestation)
    ensures
        outcome == reply_outcome(reply),
{
    match reply {
        HttpReply::Status { code, text } => if 200 <= code && code < 300 {
            Attestation::Genuine
        } else {
            Attestation::Indeterminate(AttestationError::Upstream(text))
        },
        HttpReply::Failed(reason) => Attestation::Indeterminate(AttestationError::Request(reason)),
    }
}

/// `uuid::Uuid::new_v4` and its `Display`: a random identifier as text.
/// Nothing is claimed of the value. The call does not return where the
/// system gives no random bytes.
#[verifier::external_body]
pub(crate) fn new_transaction_id() -> String {
    uuid::Uuid::new_v4().to_string()
}

/// Checks an iOS device token now. The clock is read only once the token
/// and the credentials have not decided, and the transaction identifier is
/// made afresh only once the assertion is signed.
pub fn verify_apple_check(token: &str, credentials: &AppleCredentials) -> (step: AttestationStep)
    ensures
        apple_check_may_come_to(token@, *credentials, step),
{
    match decide_early(token, credentials) {
        Some(outcome) => {
            let step = AttestationStep::Done(outcome);
            assert(apple_check_admits(token@, *credentials, 0, Seq::empty(), step));
            step
        },
        None => {
            let now = unix_now();
            match assertion_at(credentials, now) {
                Err(error) => {
                    let step = AttestationStep::Done(Attestation::Indeterminate(error));
                    assert(apple_check_admits(token@, *credentials, now as int, Seq::empty(), step));
                    step
                },
                Ok(assertion) => {
                    let transaction_id = new_transaction_id();
                    let step = step_after_signing(
                        token,
                        transaction_id.as_str(),
                        now as u64,
                        Ok(assertion),
                    );
                    assert(apple_check_admits(
                        token@,
                        *credentials,
                        now as int,
                        transaction_id@,
                        step,
                    ));
                    step
                },
            }
        },
    }
}

} // verus!
