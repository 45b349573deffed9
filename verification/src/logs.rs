//! The computable parts of log handling: picking the tail URL out of the
//! service's listing, and naming the downloaded archive. The streaming
//! itself is plain I/O and lives outside the library.

use vstd::prelude::*;
use vstd::string::StringExecFns;
use crate::models::{LogTailResponse, LogType, ServiceType, spec_log_type_label,
    spec_service_type_label};
use crate::serial::{dec_digits, u64_to_decimal};
use crate::strutil::opt_view;

verus! {

/// The tail URL a log listing offers: the first download's tail link, if
/// the listing has a download and the download has such a link.
pub open spec fn spec_tail_url(resp: LogTailResponse) -> Option<Seq<char>> {
    if resp.embedded.downloads@.len() == 0 {
        Option::None
    } else {
        match resp.embedded.downloads@[0].links.http_ns_adobe_com_adobecloud_rel_logs_tail {
            Option::None => Option::None,
            Option::Some(l) => Option::Some(l.href@),
        }
    }
}

/// Picks the URL of the log to tail out of the service's listing; none
/// when the listing offers no download or the download has no tail link.
pub fn tail_log_url(resp: &LogTailResponse) -> (r: Option<String>)
    ensures
        opt_view(r) == spec_tail_url(*resp),
{
    if resp.embedded.downloads.len() == 0 {
        return None;
    }
    match &resp.embedded.downloads[0].links.http_ns_adobe_com_adobecloud_rel_logs_tail {
        Option::None => None,
        Option::Some(l) => Some(String::from_str(l.href.as_str())),
    }
}

/// The file name a downloaded log archive is saved under:
/// `{date}_{environment}-{service}_{log}.log.gz`.
pub open spec fn spec_download_filename(
    date: Seq<char>,
    env_id: u32,
    service: ServiceType,
    logname: LogType,
) -> Seq<char> {
    date + "_"@ + dec_digits(env_id as nat) + "-"@ + spec_service_type_label(service) + "_"@
        + spec_log_type_label(logname) + ".log.gz"@
}

/// Names the archive a downloaded log is saved to.
pub fn log_download_filename(date: &str, env_id: u32, service: ServiceType, logname: LogType) -> (r:
    String)
    ensures
        r@ == spec_download_filename(date@, env_id, service, logname),
{
    let s = String::from_str(date);
    let s = s.concat("_");
    let eid = u64_to_decimal(env_id as u64);
    let s = s.concat(eid.as_str());
    let s = s.concat("-");
    let s = s.concat(service.label());
    let s = s.concat("_");
    let s = s.concat(logname.label());
    s.concat(".log.gz")
}

} // verus!
