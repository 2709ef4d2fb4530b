//! Device attestation: the outcome of a check, the reasons a check can be
//! left undecided, and the verifier for Android devices.

use vstd::prelude::*;
use vstd::string::StringExecFns;
use crate::text::{joined, same_text};

verus! {

/// The token that passes the Android check without any outside service.
pub const MOCK_ANDROID_TOKEN: &'static str = "mock_android_token";

/// The token that passes the iOS check without any outside service.
pub const MOCK_IOS_TOKEN: &'static str = "mock_ios_token";

/// A platform whose devices can attest.
#[derive(Clone, Copy, Debug, PartialEq, Eq, Structural)]
pub enum Platform {
    Android,
    Ios,
}

/// The platform that a tag names: `"android"` or `"ios"`, nothing else.
pub open spec fn platform_of(tag: Seq<char>) -> Option<Platform> {
    if tag == "android"@ {
        Some(Platform::Android)
    } else if tag == "ios"@ {
        Some(Platform::Ios)
    } else {
        None
    }
}

/// Reads a platform tag.
pub fn parse_platform(tag: &str) -> (platform: Option<Platform>)
    ensures
        platform == platform_of(tag@),
{
    if same_text(tag, "android") {
        Some(Platform::Android)
    } else if same_text(tag, "ios") {
        Some(Platform::Ios)
    } else {
        None
    }
}

/// Which of the three credentials for the iOS check is absent.
#[derive(Clone, Copy, Debug, PartialEq, Eq, Structural)]
pub enum Credential {
    KeyId,
    TeamId,
    PrivateKey,
}

/// Why a check could not decide.
#[derive(Clone, Debug, PartialEq, Eq)]
pub enum AttestationError {
    /// The platform tag names no supported platform.
    UnknownPlatform,
    /// The verification path for the platform is not wired up.
    NotImplemented,
    /// A credential that the operator must supply is absent.
    MissingCredential(Credential),
    /// The clock reads a second that the request's timestamps cannot hold.
    ClockOutOfRange,
    /// The private key was not accepted; the text is the signer's.
    Key(String),
    /// The assertion could not be signed; the text is the signer's.
    Jwt(String),
    /// The validation endpoint was not reached; the text is the client's.
    Request(String),
    /// The validation endpoint answered with a status that is no success;
    /// the text is the status as the client prints it.
    Upstream(String),
}

/// The three-way outcome of an attestation check.
#[derive(Clone, Debug, PartialEq, Eq)]
pub enum Attestation {
    /// The token proves a genuine, unmodified install.
    Genuine,
    /// The token was examined and found wanting.
    Rejected,
    /// The check could not decide.
    Indeterminate(AttestationError),
}

/// The name under which an absent credential is configured.
pub open spec fn credential_name(credential: Credential) -> Seq<char> {
    match credential {
        Credential::KeyId => "APPLE_KEY_ID"@,
        Credential::TeamId => "APPLE_TEAM_ID"@,
        Credential::PrivateKey => "APPLE_P8_FILE_CONTENT"@,
    }
}

/// The line that describes an error to an operator.
pub open spec fn error_message(error: AttestationError) -> Seq<char> {
    match error {
        AttestationError::UnknownPlatform => "Unknown OS"@,
        AttestationError::NotImplemented =>
            "Google Play Integrity verification not fully implemented (requires OAuth2). Use 'mock_android_token' for testing."@,
        AttestationError::MissingCredential(c) => "Missing "@ + credential_name(c),
        AttestationError::ClockOutOfRange => "Clock out of range"@,
        AttestationError::Key(detail) => "Key error: "@ + detail@,
        AttestationError::Jwt(detail) => "JWT error: "@ + detail@,
        AttestationError::Request(detail) => "Request error: "@ + detail@,
        AttestationError::Upstream(status) => "Apple API failed: "@ + status@,
    }
}

impl Credential {
    /// The name under which the credential is configured.
    pub fn name(&self) -> (name: &'static str)
        ensures
            name@ == credential_name(*self),
    {
        match self {
            Credential::KeyId => "APPLE_KEY_ID",
            Credential::TeamId => "APPLE_TEAM_ID",
            Credential::PrivateKey => "APPLE_P8_FILE_CONTENT",
        }
    }
}

impl AttestationError {
    /// The line that describes this error to an operator.
    pub fn message(&self) -> (line: String)
        ensures
            line@ == error_message(*self),
    {
        match self {
            AttestationError::UnknownPlatform => String::from_str("Unknown OS"),
            AttestationError::NotImplemented => String::from_str(
                "Google Play Integrity verification not fully implemented (requires OAuth2). Use 'mock_android_token' for testing.",
            ),
            AttestationError::MissingCredential(c) => joined("Missing ", c.name()),
            AttestationError::ClockOutOfRange => String::from_str("Clock out of range"),
            AttestationError::Key(detail) => joined("Key error: ", detail.as_str()),
            AttestationError::Jwt(detail) => joined("JWT error: ", detail.as_str()),
            AttestationError::Request(detail) => joined("Request error: ", detail.as_str()),
            AttestationError::Upstream(status) => joined("Apple API failed: ", status.as_str()),
        }
    }
}

impl Attestation {
    /// The outcome as a two-way answer with an error: whether the device is
    /// genuine, or the line that says why the check could not decide.
    pub fn into_result(self) -> (answer: Result<bool, String>)
        ensures
            self is Genuine ==> answer == Ok::<bool, String>(true),
            self is Rejected ==> answer == Ok::<bool, String>(false),
            self matches Attestation::Indeterminate(error) ==> (answer matches Err(line) && line@
                == error_message(error)),
    {
        match self {
            Attestation::Genuine => Ok(true),
            Attestation::Rejected => Ok(false),
            Attestation::Indeterminate(error) => Err(error.message()),
        }
    }
}

/// The outcome of the Android check for a token: the mock token is genuine,
/// and every other token is left undecided for want of an implementation.
pub open spec fn google_play_outcome(token: Seq<char>) -> Attestation {
    if token == MOCK_ANDROID_TOKEN@ {
        Attestation::Genuine
    } else {
        Attestation::Indeterminate(AttestationError::NotImplemented)
    }
}

/// Checks an Android integrity token. No outside service is called.
pub fn verify_google_play_integrity(token: &str) -> (outcome: Attestation)
    ensures
        outcome == google_play_outcome(token@),
{
    if same_text(token, MOCK_ANDROID_TOKEN) {
        Attestation::Genuine
    } else {
        Attestation::Indeterminate(AttestationError::NotImplemented)
    }
}

} // verus!
