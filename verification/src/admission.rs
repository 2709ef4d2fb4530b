//! The admission gate: a shared-secret check guarding administrative mutation.

use vstd::prelude::*;
use crate::text::same_text;

verus! {

/// The decision about one administrative request.
#[derive(Clone, Copy, Debug, PartialEq, Eq, Structural)]
pub enum AdminDecision {
    /// The provided secret equals the configured one.
    Proceed,
    /// The secret is missing or differs from the configured one.
    Unauthorized,
    /// No admin secret is configured: an operator fault, not a wrong secret.
    Misconfigured,
}

/// The decision for a configured secret and a provided one, either of which
/// may be absent. A missing configuration is reported before the provided
/// secret is looked at.
pub open spec fn admin_decision(
    configured: Option<Seq<char>>,
    provided: Option<Seq<char>>,
) -> AdminDecision {
    match configured {
        None => AdminDecision::Misconfigured,
        Some(expected) => if provided == Some(expected) {
            AdminDecision::Proceed
        } else {
            AdminDecision::Unauthorized
        },
    }
}

/// The view of an optional text.
pub open spec fn optional_text(text: Option<&str>) -> Option<Seq<char>> {
    match text {
        None => None,
        Some(t) => Some(t@),
    }
}

/// Compares the caller's secret with the operator's by exact equality.
pub fn verify_admin(configured: Option<&str>, provided: Option<&str>) -> (decision: AdminDecision)
    ensures
        decision == admin_decision(optional_text(configured), optional_text(provided)),
{
    match configured {
        None => AdminDecision::Misconfigured,
        Some(expected) => match provided {
            None => AdminDecision::Unauthorized,
            Some(given) => if same_text(given, expected) {
                AdminDecision::Proceed
            } else {
                AdminDecision::Unauthorized
            },
        },
    }
}

} // verus!
