//! Creating domain bindings from the declaration: building the request
//! payload (with its DNS verification record) and classifying the
//! service's response.

use vstd::prelude::*;
use vstd::string::StringExecFns;
use crate::models::{DomainConfig, MinimumDomain};
use crate::serial::{dec_digits, u64_to_decimal};

verus! {

/// Relies on uuid's `Uuid::new_v4` rendered hyphenated: a fresh random
/// identifier of 36 characters; nothing more is promised of a random
/// value.
#[verifier::external_body]
fn new_uuid_hyphenated() -> (r: String)
    ensures
        r@.len() == 36,
{
    uuid::Uuid::new_v4().hyphenated().to_string()
}

/// Whether a string is a well-formed DNS verification record for the
/// given domain and scope: the fixed marker, the three fields, and a
/// 36-character identifier.
pub open spec fn spec_txt_record(
    r: Seq<char>,
    domain: Seq<char>,
    program_id: u32,
    env_id: int,
) -> bool {
    exists|u: Seq<char>|
        u.len() == 36 && r == "adobe-aem-verification="@ + domain + "/"@ + dec_digits(
            program_id as nat,
        ) + "/"@ + dec_digits(env_id as nat) + "/"@ + u
}

/// Generates the TXT record for domain ownership verification: the fixed
/// marker, the domain, the program and environment ids, and a fresh
/// random identifier.
pub fn generate_txt_record(domain: &str, program_id: u32, env_id: i64) -> (r: String)
    requires
        env_id >= 0,
    ensures
        spec_txt_record(r@, domain@, program_id, env_id as int),
{
    let uuid = new_uuid_hyphenated();
    let s = String::from_str("adobe-aem-verification=");
    let s = s.concat(domain);
    let s = s.concat("/");
    let pid = u64_to_decimal(program_id as u64);
    let s = s.concat(pid.as_str());
    let s = s.concat("/");
    let eid = u64_to_decimal(env_id as u64);
    let s = s.concat(eid.as_str());
    let s = s.concat("/");
    let s = s.concat(uuid.as_str());
    proof {
        assert(spec_txt_record(s@, domain@, program_id, env_id as int)) by {
            let u = uuid@;
            assert(u.len() == 36 && s@ == "adobe-aem-verification="@ + domain@ + "/"@ + dec_digits(
                program_id as nat,
            ) + "/"@ + dec_digits(env_id as nat) + "/"@ + u);
        };
    }
    s
}

/// Builds the creation payload for one declared domain, with a fresh
/// verification record and the fixed DNS zone.
pub fn build_domain(dom: &DomainConfig, program_id: u32, env_id: i64) -> (r: MinimumDomain)
    requires
        env_id >= 0,
    ensures
        r.name@ == dom.domainname@,
        r.certificate_id == dom.certificate_id,
        r.environment_id == env_id,
        r.dns_zone@ == "adobe.com."@,
        spec_txt_record(r.dns_txt_record@, dom.domainname@, program_id, env_id as int),
{
    let txt = generate_txt_record(dom.domainname.as_str(), program_id, env_id);
    MinimumDomain {
        name: String::from_str(dom.domainname.as_str()),
        dns_txt_record: txt,
        environment_id: env_id,
        certificate_id: dom.certificate_id,
        dns_zone: String::from_str("adobe.com."),
    }
}

/// What one domain creation came to.
#[derive(Clone, Copy, Debug, PartialEq, Eq, Structural)]
pub enum DomainOutcome {
    /// The service accepted the domain (or reported no error).
    Accepted,
    /// The service refused it with field-level errors.
    Conflict,
}

/// How a domain creation response is read: the created status is
/// accepted outright; any other status with field-level errors is a
/// conflict, without them it is taken as accepted; a body that matched no
/// known schema (`None`) is fatal and aborts the run.
pub open spec fn spec_classify_domain(status: u16, parsed_with_errors: Option<bool>) -> Option<
    DomainOutcome,
> {
    if status == 201 {
        Option::Some(DomainOutcome::Accepted)
    } else {
        match parsed_with_errors {
            Option::None => Option::None,
            Option::Some(true) => Option::Some(DomainOutcome::Conflict),
            Option::Some(false) => Option::Some(DomainOutcome::Accepted),
        }
    }
}

/// Classifies one domain creation response. `parsed_with_errors` says
/// whether a non-created response body parsed into the known error
/// schema, and whether it carried field-level errors.
pub fn classify_domain_response(status: u16, parsed_with_errors: Option<bool>) -> (r: Option<
    DomainOutcome,
>)
    ensures
        r == spec_classify_domain(status, parsed_with_errors),
{
    if status == 201 {
        Some(DomainOutcome::Accepted)
    } else {
        match parsed_with_errors {
            Option::None => None,
            Option::Some(true) => Some(DomainOutcome::Conflict),
            Option::Some(false) => Some(DomainOutcome::Accepted),
        }
    }
}

/// Whether every domain of the run was accepted: the run's final status
/// is success exactly then.
pub fn domains_all_accepted(outcomes: &Vec<DomainOutcome>) -> (r: bool)
    ensures
        r == (forall|i: int|
            0 <= i < outcomes@.len() ==> outcomes@[i] == DomainOutcome::Accepted),
{
    let n = outcomes.len();
    let mut i: usize = 0;
    while i < n
        invariant
            i <= n,
            n == outcomes@.len(),
            forall|k: int| 0 <= k < i ==> outcomes@[k] == DomainOutcome::Accepted,
        decreases n - i,
    {
        if outcomes[i] != DomainOutcome::Accepted {
            return false;
        }
        i = i + 1;
    }
    true
}

} // verus!
