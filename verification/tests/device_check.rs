use voting_backend::attestation::{Attestation, AttestationError, Credential};
use voting_backend::device_check::{
    assertion_at, assertion_claims, conclude_apple_check, decide_early, device_check_request,
    missing_credential, sign, signed_assertion, step_after_signing, unsigned_assertion,
    verify_apple_check, verify_apple_check_at, AppleCredentials, AttestationStep,
    DeviceCheckRequest, HttpReply, ASSERTION_LIFETIME, DEVICE_CHECK_URL, LAST_SECOND,
};
use voting_backend::jwt::SigningAlgorithm;

// A P-256 key pair made for these tests alone: the signer's key in PKCS#8
// DER, and the verifier's point in uncompressed form.
const SIGNER_DER: [u8; 138] = [
    48, 129, 135, 2, 1, 0, 48, 19, 6, 7, 42, 134, 72, 206, 61, 2,
    1, 6, 8, 42, 134, 72, 206, 61, 3, 1, 7, 4, 109, 48, 107, 2,
    1, 1, 4, 32, 238, 58, 139, 143, 26, 184, 185, 5, 25, 246, 199, 134,
    69, 3, 69, 118, 240, 172, 207, 27, 12, 12, 133, 125, 221, 224, 129, 147,
    38, 62, 62, 117, 161, 68, 3, 66, 0, 4, 71, 51, 160, 101, 47, 192,
    177, 12, 2, 227, 136, 98, 178, 86, 234, 160, 90, 143, 155, 98, 62, 77,
    2, 205, 135, 253, 245, 60, 202, 63, 55, 194, 186, 231, 15, 104, 148, 7,
    121, 95, 57, 114, 248, 221, 66, 120, 211, 103, 66, 142, 239, 194, 40, 73,
    170, 125, 41, 1, 119, 138, 70, 33, 251, 231,
];

fn base64(bytes: &[u8]) -> String {
    let alphabet: Vec<char> =
        ('A'..='Z').chain('a'..='z').chain('0'..='9').chain(['+', '/']).collect();
    let mut text = String::new();
    for chunk in bytes.chunks(3) {
        let b = [chunk[0], *chunk.get(1).unwrap_or(&0), *chunk.get(2).unwrap_or(&0)];
        let n = ((b[0] as u32) << 16) | ((b[1] as u32) << 8) | b[2] as u32;
        text.push(alphabet[(n >> 18) as usize & 63]);
        text.push(alphabet[(n >> 12) as usize & 63]);
        text.push(if chunk.len() > 1 { alphabet[(n >> 6) as usize & 63] } else { '=' });
        text.push(if chunk.len() > 2 { alphabet[n as usize & 63] } else { '=' });
    }
    text
}

fn armored(label: &str, der: &[u8]) -> String {
    let dashes = "-".repeat(5);
    let mut text = format!("{}BEGIN {} KEY{}\n", dashes, label, dashes);
    let encoded: Vec<char> = base64(der).chars().collect();
    for line in encoded.chunks(64) {
        text.extend(line.iter());
        text.push('\n');
    }
    text.push_str(&format!("{}END {} KEY{}\n", dashes, label, dashes));
    text
}

fn signer_pem() -> String {
    armored("PRIVATE", &SIGNER_DER)
}

const VERIFIER_POINT: [u8; 65] = [
    4, 71, 51, 160, 101, 47, 192, 177, 12, 2, 227, 136, 98, 178, 86, 234,
    160, 90, 143, 155, 98, 62, 77, 2, 205, 135, 253, 245, 60, 202, 63, 55,
    194, 186, 231, 15, 104, 148, 7, 121, 95, 57, 114, 248, 221, 66, 120, 211,
    103, 66, 142, 239, 194, 40, 73, 170, 125, 41, 1, 119, 138, 70, 33, 251,
    231,
];

const FAR_SECOND: u64 = 4_000_000_000;

fn credentials() -> AppleCredentials {
    AppleCredentials {
        key_id: Some("KEY1234567".to_string()),
        team_id: Some("TEAM123456".to_string()),
        private_key_pem: Some(signer_pem()),
    }
}

fn no_credentials() -> AppleCredentials {
    AppleCredentials { key_id: None, team_id: None, private_key_pem: None }
}

fn request_of(step: AttestationStep) -> DeviceCheckRequest {
    match step {
        AttestationStep::Ask(request) => request,
        AttestationStep::Done(outcome) => panic!("decided without a request: {:?}", outcome),
    }
}

fn outcome_of(step: AttestationStep) -> Attestation {
    match step {
        AttestationStep::Done(outcome) => outcome,
        AttestationStep::Ask(request) => panic!("asked {:?}", request),
    }
}

fn claims_of(assertion: &str) -> serde_json::Value {
    let key = jsonwebtoken::DecodingKey::from_ec_der(&VERIFIER_POINT);
    let validation = jsonwebtoken::Validation::new(jsonwebtoken::Algorithm::ES256);
    jsonwebtoken::decode::<serde_json::Value>(assertion, &key, &validation).unwrap().claims
}

#[test]
fn the_constants_are_as_published() {
    assert_eq!(
        DEVICE_CHECK_URL,
        "https://api.development.devicecheck.apple.com/v1/validate_device_token"
    );
    assert_eq!(ASSERTION_LIFETIME, 3600);
    assert_eq!(LAST_SECOND, u64::MAX / 1000);
}

#[test]
fn the_ios_mock_token_needs_no_credentials() {
    assert_eq!(outcome_of(verify_apple_check("mock_ios_token", &no_credentials())), Attestation::Genuine);
    assert_eq!(
        outcome_of(verify_apple_check_at("mock_ios_token", &no_credentials(), -5, "")),
        Attestation::Genuine
    );
}

#[test]
fn missing_credentials_are_named_in_order() {
    let mut given = no_credentials();
    assert_eq!(missing_credential(&given), Some(Credential::KeyId));
    assert_eq!(
        outcome_of(verify_apple_check("token", &given)),
        Attestation::Indeterminate(AttestationError::MissingCredential(Credential::KeyId))
    );
    given.key_id = Some("K".to_string());
    assert_eq!(missing_credential(&given), Some(Credential::TeamId));
    assert_eq!(
        outcome_of(verify_apple_check("token", &given)),
        Attestation::Indeterminate(AttestationError::MissingCredential(Credential::TeamId))
    );
    given.team_id = Some("T".to_string());
    assert_eq!(missing_credential(&given), Some(Credential::PrivateKey));
    assert_eq!(
        outcome_of(verify_apple_check("token", &given)),
        Attestation::Indeterminate(AttestationError::MissingCredential(Credential::PrivateKey))
    );
    given.private_key_pem = Some(signer_pem());
    assert_eq!(missing_credential(&given), None);
}

#[test]
fn a_missing_key_id_is_named_before_a_missing_private_key() {
    let given = AppleCredentials {
        key_id: None,
        team_id: Some("T".to_string()),
        private_key_pem: None,
    };
    assert_eq!(missing_credential(&given), Some(Credential::KeyId));
}

#[test]
fn a_clock_out_of_range_leaves_the_check_undecided() {
    for now in [-1, i64::MIN, LAST_SECOND as i64 + 1, i64::MAX] {
        assert_eq!(
            outcome_of(verify_apple_check_at("token", &credentials(), now, "txn")),
            Attestation::Indeterminate(AttestationError::ClockOutOfRange)
        );
    }
}

#[test]
fn missing_credentials_are_named_before_the_clock() {
    assert_eq!(
        outcome_of(verify_apple_check_at("token", &no_credentials(), -1, "txn")),
        Attestation::Indeterminate(AttestationError::MissingCredential(Credential::KeyId))
    );
}

#[test]
fn a_private_key_that_is_no_key_is_a_key_error() {
    let mut given = credentials();
    given.private_key_pem = Some("not a key".to_string());
    match outcome_of(verify_apple_check_at("token", &given, 1_700_000_000, "txn")) {
        Attestation::Indeterminate(AttestationError::Key(detail)) => {
            assert!(!detail.is_empty());
            assert_ne!(detail, "not a key");
        }
        other => panic!("unexpected outcome {:?}", other),
    }
    assert!(matches!(
        signed_assertion("K", "T", &armored("PUBLIC", &VERIFIER_POINT), 1),
        Err(AttestationError::Key(_))
    ));
    assert!(matches!(
        signed_assertion("K", "T", &armored("PRIVATE", &SIGNER_DER[..40]), 1),
        Err(AttestationError::Key(_))
    ));
    assert!(matches!(signed_assertion("K", "T", "", 1), Err(AttestationError::Key(_))));
}

#[test]
fn a_key_error_reads_as_the_signer_prints_it() {
    let error = signed_assertion("K", "T", "not a key", 1).unwrap_err();
    assert_eq!(error.message(), "Key error: InvalidKeyFormat");
}

#[test]
fn the_assertion_is_signed_for_the_team_and_an_hour() {
    let assertion = signed_assertion("KEY1234567", "TEAM123456", &signer_pem(), FAR_SECOND).unwrap();
    assert_eq!(assertion.split('.').count(), 3);
    let header = jsonwebtoken::decode_header(&assertion).unwrap();
    assert_eq!(header.alg, jsonwebtoken::Algorithm::ES256);
    assert_eq!(header.kid.as_deref(), Some("KEY1234567"));
    assert_eq!(header.typ.as_deref(), Some("JWT"));
    let claims = claims_of(&assertion);
    let members = claims.as_object().unwrap();
    assert_eq!(members.len(), 3);
    assert_eq!(members["iss"].as_str(), Some("TEAM123456"));
    assert_eq!(members["iat"].as_u64(), Some(FAR_SECOND));
    assert_eq!(members["exp"].as_u64(), Some(FAR_SECOND + 3600));
}

#[test]
fn the_claims_hold_issuer_and_times() {
    let claims = assertion_claims("TEAM", 1_700_000_000);
    assert_eq!(claims.len(), 3);
    assert_eq!(claims["iss"].as_str(), Some("TEAM"));
    assert_eq!(claims["iat"].as_u64(), Some(1_700_000_000));
    assert_eq!(claims["exp"].as_u64(), Some(1_700_003_600));
    let latest = assertion_claims("", u64::MAX - 3600);
    assert_eq!(latest["iss"].as_str(), Some(""));
    assert_eq!(latest["exp"].as_u64(), Some(u64::MAX));
}

#[test]
fn the_request_carries_token_transaction_and_milliseconds() {
    let request = device_check_request("device-token", "txn-1", 1_700_000_000, "a.b.c");
    assert_eq!(request.url, DEVICE_CHECK_URL);
    assert_eq!(request.authorization, "Bearer a.b.c");
    assert_eq!(request.body.len(), 3);
    assert_eq!(request.body["device_token"].as_str(), Some("device-token"));
    assert_eq!(request.body["transaction_id"].as_str(), Some("txn-1"));
    assert_eq!(request.body["timestamp"].as_u64(), Some(1_700_000_000_000));
    assert_eq!(
        serde_json::to_string(&request.body).unwrap(),
        "{\"device_token\":\"device-token\",\"timestamp\":1700000000000,\"transaction_id\":\"txn-1\"}"
    );
}

#[test]
fn the_request_at_the_edges_of_the_clock() {
    let first = device_check_request("t", "x", 0, "");
    assert_eq!(first.body["timestamp"].as_u64(), Some(0));
    assert_eq!(first.authorization, "Bearer ");
    let last = device_check_request("t", "x", LAST_SECOND, "j");
    assert_eq!(last.body["timestamp"].as_u64(), Some(18_446_744_073_709_551_000));
}

#[test]
fn after_signing_the_request_is_handed_out() {
    let request = request_of(step_after_signing("tok", "txn", 5, Ok("h.c.s".to_string())));
    assert_eq!(request.authorization, "Bearer h.c.s");
    assert_eq!(request.body["device_token"].as_str(), Some("tok"));
    assert_eq!(request.body["timestamp"].as_u64(), Some(5000));
    assert_eq!(
        outcome_of(step_after_signing(
            "tok",
            "txn",
            5,
            Err(AttestationError::Jwt("InvalidAlgorithm".to_string()))
        )),
        Attestation::Indeterminate(AttestationError::Jwt("InvalidAlgorithm".to_string()))
    );
}

#[test]
fn a_check_with_credentials_asks_the_endpoint() {
    let request = request_of(verify_apple_check_at(
        "device-token",
        &credentials(),
        FAR_SECOND as i64,
        "transaction-17",
    ));
    assert_eq!(request.url, DEVICE_CHECK_URL);
    let assertion = request.authorization.strip_prefix("Bearer ").unwrap();
    let claims = claims_of(assertion);
    assert_eq!(claims["iss"].as_str(), Some("TEAM123456"));
    assert_eq!(claims["iat"].as_u64(), Some(FAR_SECOND));
    assert_eq!(claims["exp"].as_u64(), Some(FAR_SECOND + 3600));
    assert_eq!(
        jsonwebtoken::decode_header(assertion).unwrap().kid.as_deref(),
        Some("KEY1234567")
    );
    assert_eq!(request.body["device_token"].as_str(), Some("device-token"));
    assert_eq!(
        request.body["transaction_id"].as_str(),
        Some("transaction-17")
    );
    assert_eq!(request.body["timestamp"].as_u64(), Some(FAR_SECOND * 1000));
}

#[test]
fn a_check_now_reads_the_clock_and_makes_a_fresh_transaction() {
    let before = chrono::Utc::now().timestamp() as u64;
    let first = request_of(verify_apple_check("device-token", &credentials()));
    let second = request_of(verify_apple_check("device-token", &credentials()));
    let after = chrono::Utc::now().timestamp() as u64;
    let stamp = first.body["timestamp"].as_u64().unwrap();
    assert_eq!(stamp % 1000, 0);
    assert!(before * 1000 <= stamp && stamp <= after * 1000);
    let one = first.body["transaction_id"].as_str().unwrap();
    let other = second.body["transaction_id"].as_str().unwrap();
    assert_ne!(one, other);
    let parsed = uuid::Uuid::parse_str(one).unwrap();
    assert_eq!(parsed.get_version_num(), 4);
    assert_eq!(one.len(), 36);
    assert_eq!(parsed.to_string(), one);
    let assertion = first.authorization.strip_prefix("Bearer ").unwrap();
    let header = jsonwebtoken::decode_header(assertion).unwrap();
    assert_eq!(header.alg, jsonwebtoken::Algorithm::ES256);
    let key = jsonwebtoken::DecodingKey::from_ec_der(&VERIFIER_POINT);
    let validation = jsonwebtoken::Validation::new(jsonwebtoken::Algorithm::ES256);
    let claims = jsonwebtoken::decode::<serde_json::Value>(assertion, &key, &validation)
        .unwrap()
        .claims;
    let issued = claims["iat"].as_u64().unwrap();
    assert!(before <= issued && issued <= after);
    assert_eq!(claims["exp"].as_u64(), Some(issued + 3600));
    assert_eq!(stamp, issued * 1000);
}

#[test]
fn a_success_status_proves_the_device_genuine() {
    for code in [200u16, 201, 204, 299] {
        let reply = HttpReply::Status { code, text: format!("{} Some", code) };
        assert_eq!(conclude_apple_check(reply), Attestation::Genuine);
    }
}

#[test]
fn any_other_status_leaves_the_check_undecided() {
    for code in [0u16, 100, 199, 300, 301, 400, 401, 403, 404, 500, 503, u16::MAX] {
        let text = format!("{} Reason", code);
        let reply = HttpReply::Status { code, text: text.clone() };
        let outcome = conclude_apple_check(reply);
        assert_eq!(outcome, Attestation::Indeterminate(AttestationError::Upstream(text.clone())));
        match outcome {
            Attestation::Indeterminate(error) => {
                assert_eq!(error.message(), format!("Apple API failed: {}", text))
            }
            other => panic!("unexpected outcome {:?}", other),
        }
    }
}

#[test]
fn a_request_that_failed_leaves_the_check_undecided() {
    let outcome = conclude_apple_check(HttpReply::Failed("timed out".to_string()));
    assert_eq!(
        outcome,
        Attestation::Indeterminate(AttestationError::Request("timed out".to_string()))
    );
}

#[test]
fn token_and_credentials_decide_before_the_clock() {
    assert_eq!(decide_early("mock_ios_token", &no_credentials()), Some(Attestation::Genuine));
    assert_eq!(decide_early("mock_ios_token", &credentials()), Some(Attestation::Genuine));
    assert_eq!(
        decide_early("token", &no_credentials()),
        Some(Attestation::Indeterminate(AttestationError::MissingCredential(Credential::KeyId)))
    );
    assert_eq!(decide_early("token", &credentials()), None);
    assert_eq!(decide_early("mock_android_token", &credentials()), None);
}

#[test]
fn an_assertion_needs_credentials_clock_and_key_in_this_order() {
    assert_eq!(
        assertion_at(&no_credentials(), -1),
        Err(AttestationError::MissingCredential(Credential::KeyId))
    );
    let mut given = credentials();
    given.team_id = None;
    given.private_key_pem = Some("not a key".to_string());
    assert_eq!(
        assertion_at(&given, -1),
        Err(AttestationError::MissingCredential(Credential::TeamId))
    );
    given.team_id = Some("T".to_string());
    assert_eq!(assertion_at(&given, -1), Err(AttestationError::ClockOutOfRange));
    assert!(matches!(assertion_at(&given, 0), Err(AttestationError::Key(_))));
    let assertion = assertion_at(&credentials(), FAR_SECOND as i64).unwrap();
    assert_eq!(claims_of(&assertion)["iat"].as_u64(), Some(FAR_SECOND));
}

#[test]
fn the_unsigned_assertion_names_algorithm_key_and_claims() {
    let assertion = unsigned_assertion("KEY1234567", "TEAM123456", 1_700_000_000);
    assert_eq!(assertion.algorithm, SigningAlgorithm::Es256);
    assert_eq!(assertion.key_id, "KEY1234567");
    assert_eq!(assertion.claims.len(), 3);
    assert_eq!(assertion.claims["iss"].as_str(), Some("TEAM123456"));
    assert_eq!(assertion.claims["iat"].as_u64(), Some(1_700_000_000));
    assert_eq!(assertion.claims["exp"].as_u64(), Some(1_700_003_600));
}

#[test]
fn signing_twice_gives_two_valid_tokens() {
    let assertion = unsigned_assertion("KEY1234567", "TEAM123456", FAR_SECOND);
    let one = sign(&assertion, &signer_pem()).unwrap();
    let other = sign(&assertion, &signer_pem()).unwrap();
    assert_eq!(claims_of(&one), claims_of(&other));
    let unsigned = |token: &str| token.rsplitn(2, '.').nth(1).unwrap().to_string();
    assert_eq!(unsigned(&one), unsigned(&other));
    assert!(matches!(sign(&assertion, "garbage"), Err(AttestationError::Key(_))));
}

#[test]
fn the_signer_key_of_these_tests_is_well_formed() {
    assert_eq!(base64(b""), "");
    assert_eq!(base64(b"M"), "TQ==");
    assert_eq!(base64(b"Ma"), "TWE=");
    assert_eq!(base64(b"Man"), "TWFu");
    assert_eq!(base64(&[251, 255, 190]), "+/++");
    let pem = signer_pem();
    let lines: Vec<&str> = pem.lines().collect();
    assert_eq!(lines.len(), 5);
    assert_eq!(lines[1].len(), 64);
    assert_eq!(lines[2].len(), 64);
    assert_eq!(lines[3].len(), 184 - 128);
    assert!(jsonwebtoken::EncodingKey::from_ec_pem(pem.as_bytes()).is_ok());
}
