//! Signed assertions, made by `jsonwebtoken`.

use vstd::prelude::*;

verus! {

/// `jsonwebtoken::EncodingKey`, carried through without a look inside.
#[verifier::external_type_specification]
#[verifier::external_body]
pub struct ExEncodingKey(jsonwebtoken::EncodingKey);

/// `jsonwebtoken::errors::Error`, carried through without a look inside.
#[verifier::external_type_specification]
#[verifier::external_body]
pub struct ExJwtError(jsonwebtoken::errors::Error);

/// `jsonwebtoken::Header`, carried through without a look inside.
#[verifier::external_type_specification]
#[verifier::external_body]
pub struct ExJwtHeader(jsonwebtoken::Header);

/// The algorithm with which an assertion is signed.
#[derive(Clone, Copy, Debug, PartialEq, Eq, Structural)]
pub enum SigningAlgorithm {
    /// ECDSA over the curve P-256 with SHA-256.
    Es256,
}

/// Whether a text is taken as a private elliptic-curve key in PEM form.
pub uninterp spec fn ec_pem_accepted(pem: Seq<char>) -> bool;

/// `jsonwebtoken::EncodingKey::from_ec_pem` on the bytes of the text: a key
/// comes back exactly for the texts that are accepted.
#[verifier::external_body]
pub(crate) fn ec_key_from_pem(pem: &str) -> (key: Result<
    jsonwebtoken::EncodingKey,
    jsonwebtoken::errors::Error,
>)
    ensures
        key.is_ok() == ec_pem_accepted(pem@),
{
    jsonwebtoken::EncodingKey::from_ec_pem(pem.as_bytes())
}

/// `jsonwebtoken::Header::new` for an algorithm, with the key identifier set.
#[verifier::external_body]
pub(crate) fn header_with_key_id(algorithm: SigningAlgorithm, key_id: &str) -> jsonwebtoken::Header {
    let mut header = jsonwebtoken::Header::new(
        match algorithm {
            SigningAlgorithm::Es256 => jsonwebtoken::Algorithm::ES256,
        },
    );
    header.kid = Some(key_id.to_string());
    header
}

/// `jsonwebtoken::encode`: the signed token for a header and claims, or the
/// signer's error. The signature is made with fresh randomness, so nothing is
/// claimed of the token.
#[verifier::external_body]
pub(crate) fn encode(
    header: &jsonwebtoken::Header,
    claims: &serde_json::Map<String, serde_json::Value>,
    key: &jsonwebtoken::EncodingKey,
) -> Result<String, jsonwebtoken::errors::Error> {
    jsonwebtoken::encode(header, claims, key)
}

/// `ToString::to_string` on a `jsonwebtoken::errors::Error`: the text of the
/// signer's error, as its `Display` prints it. Nothing is claimed of the text.
#[verifier::external_body]
pub(crate) fn error_text(error: &jsonwebtoken::errors::Error) -> String {
    error.to_string()
}

} // verus!
