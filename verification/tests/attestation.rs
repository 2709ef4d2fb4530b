use voting_backend::attestation::{
    parse_platform, verify_google_play_integrity, Attestation, AttestationError, Credential,
    Platform, MOCK_ANDROID_TOKEN, MOCK_IOS_TOKEN,
};

#[test]
fn the_mock_tokens_are_the_reserved_literals() {
    assert_eq!(MOCK_ANDROID_TOKEN, "mock_android_token");
    assert_eq!(MOCK_IOS_TOKEN, "mock_ios_token");
}

#[test]
fn platform_tags_are_android_and_ios_only() {
    assert_eq!(parse_platform("android"), Some(Platform::Android));
    assert_eq!(parse_platform("ios"), Some(Platform::Ios));
    assert_eq!(parse_platform("windows"), None);
    assert_eq!(parse_platform("Android"), None);
    assert_eq!(parse_platform("iOS"), None);
    assert_eq!(parse_platform(" ios"), None);
    assert_eq!(parse_platform(""), None);
}

#[test]
fn the_android_mock_token_is_genuine() {
    assert_eq!(verify_google_play_integrity("mock_android_token"), Attestation::Genuine);
}

#[test]
fn any_other_android_token_is_not_implemented() {
    for token in ["", "mock_ios_token", "mock_android_token ", "Mock_android_token", "some-other-token"] {
        assert_eq!(
            verify_google_play_integrity(token),
            Attestation::Indeterminate(AttestationError::NotImplemented)
        );
    }
}

#[test]
fn not_implemented_is_told_apart_from_a_rejection() {
    let outcome = verify_google_play_integrity("some-token");
    assert_ne!(outcome, Attestation::Rejected);
    match outcome {
        Attestation::Indeterminate(error) => assert_eq!(
            error.message(),
            "Google Play Integrity verification not fully implemented (requires OAuth2). Use 'mock_android_token' for testing."
        ),
        other => panic!("unexpected outcome {:?}", other),
    }
}

#[test]
fn credentials_have_their_configured_names() {
    assert_eq!(Credential::KeyId.name(), "APPLE_KEY_ID");
    assert_eq!(Credential::TeamId.name(), "APPLE_TEAM_ID");
    assert_eq!(Credential::PrivateKey.name(), "APPLE_P8_FILE_CONTENT");
}

#[test]
fn every_error_has_its_line() {
    assert_eq!(AttestationError::UnknownPlatform.message(), "Unknown OS");
    assert_eq!(
        AttestationError::MissingCredential(Credential::KeyId).message(),
        "Missing APPLE_KEY_ID"
    );
    assert_eq!(
        AttestationError::MissingCredential(Credential::TeamId).message(),
        "Missing APPLE_TEAM_ID"
    );
    assert_eq!(
        AttestationError::MissingCredential(Credential::PrivateKey).message(),
        "Missing APPLE_P8_FILE_CONTENT"
    );
    assert_eq!(AttestationError::ClockOutOfRange.message(), "Clock out of range");
    assert_eq!(
        AttestationError::Key("InvalidKeyFormat".to_string()).message(),
        "Key error: InvalidKeyFormat"
    );
    assert_eq!(
        AttestationError::Jwt("InvalidAlgorithm".to_string()).message(),
        "JWT error: InvalidAlgorithm"
    );
    assert_eq!(
        AttestationError::Request("connection refused".to_string()).message(),
        "Request error: connection refused"
    );
    assert_eq!(
        AttestationError::Upstream("401 Unauthorized".to_string()).message(),
        "Apple API failed: 401 Unauthorized"
    );
    assert_eq!(AttestationError::Key(String::new()).message(), "Key error: ");
}

#[test]
fn an_outcome_reads_as_a_two_way_answer() {
    assert_eq!(Attestation::Genuine.into_result(), Ok(true));
    assert_eq!(Attestation::Rejected.into_result(), Ok(false));
    assert_eq!(
        Attestation::Indeterminate(AttestationError::UnknownPlatform).into_result(),
        Err("Unknown OS".to_string())
    );
    assert_eq!(
        verify_google_play_integrity("mock_android_token").into_result(),
        Ok(true)
    );
    assert_eq!(
        Attestation::Indeterminate(AttestationError::Upstream("403 Forbidden".to_string()))
            .into_result(),
        Err("Apple API failed: 403 Forbidden".to_string())
    );
}
