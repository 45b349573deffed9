//! The diff/decision engine: one decision per declared resource, from its
//! match result and the type-specific fingerprint comparison.

use vstd::prelude::*;
use crate::models::Certificate;
use crate::strutil::str_eq;

verus! {

/// What is done with one declared certificate.
#[derive(Clone, Copy, Debug, PartialEq, Eq, Structural)]
pub enum CertificateAction {
    Create,
    Update,
    Skip,
}

/// The outcome decided for one declared resource against the remote state.
/// `Delete` arises only for remote records that no declaration covers.
#[derive(Clone, Copy, Debug, PartialEq, Eq, Structural)]
pub enum ReconciliationDecision {
    Create,
    Update,
    Skip,
    Delete,
}

/// The action for a declared certificate: no remote match means create;
/// a match with a differing serial number means update; an equal serial
/// number means skip.
pub open spec fn spec_certificate_action(
    existing: Option<Certificate>,
    serial_dec: Seq<char>,
) -> CertificateAction {
    match existing {
        Option::None => CertificateAction::Create,
        Option::Some(c) => if c.serial_number@ != serial_dec {
            CertificateAction::Update
        } else {
            CertificateAction::Skip
        },
    }
}

/// Decides what to do with one declared certificate, comparing decimal
/// serial numbers as the fingerprint.
pub fn decide_certificate_action(existing: Option<&Certificate>, serial_dec: &str) -> (a:
    CertificateAction)
    ensures
        existing is None ==> a == CertificateAction::Create,
        existing matches Some(c) ==> a == spec_certificate_action(Some(*c), serial_dec@),
{
    match existing {
        Option::None => CertificateAction::Create,
        Option::Some(c) => {
            if str_eq(c.serial_number.as_str(), serial_dec) {
                CertificateAction::Skip
            } else {
                CertificateAction::Update
            }
        },
    }
}

} // verus!
