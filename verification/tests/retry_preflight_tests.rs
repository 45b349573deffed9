//! Tests for the busy-state retry policy and the preflight validator.

use pippo::preflight::{collect_all_cert_issues, collect_cert_issues, PreflightProbe,
    PreflightTarget};
use pippo::retry::{busy_step, environment_parent_state, pipeline_parent_state, BusyDirective,
    ParentState};

#[test]
fn busy_in_ci_mode_skips_and_never_sleeps() {
    assert_eq!(
        busy_step(ParentState::Busy, true),
        BusyDirective::SkipItem
    );
    assert_eq!(
        busy_step(ParentState::Ready, true),
        BusyDirective::Proceed
    );
    // no state yields a sleep in CI mode
    for s in [ParentState::Ready, ParentState::Busy] {
        assert_ne!(busy_step(s, true), BusyDirective::SleepRetry);
    }
}

#[test]
fn busy_without_ci_mode_sleeps_and_retries() {
    assert_eq!(
        busy_step(ParentState::Busy, false),
        BusyDirective::SleepRetry
    );
    assert_eq!(
        busy_step(ParentState::Ready, false),
        BusyDirective::Proceed
    );
}

#[test]
fn parent_state_from_status_strings() {
    assert_eq!(environment_parent_state("updating"), ParentState::Busy);
    assert_eq!(environment_parent_state("ready"), ParentState::Ready);
    assert_eq!(environment_parent_state("BUSY"), ParentState::Ready);
    assert_eq!(pipeline_parent_state("BUSY"), ParentState::Busy);
    assert_eq!(pipeline_parent_state("IDLE"), ParentState::Ready);
    assert_eq!(pipeline_parent_state("updating"), ParentState::Ready);
}

fn target(pid: u32, name: &str) -> PreflightTarget {
    PreflightTarget {
        program_id: pid,
        cert_name: name.to_string(),
        cert_path: format!("/base/{}.pem", name),
        chain_path: format!("/base/{}-chain.pem", name),
        key_path: format!("/base/{}.key", name),
    }
}

#[test]
fn preflight_reports_one_message_per_missing_file() {
    // two resources, three missing files between them
    let targets = vec![target(111, "alpha"), target(111, "beta")];
    let probes = vec![
        PreflightProbe {
            cert_data: None,
            chain_data: None,
            key_exists: true,
        },
        PreflightProbe {
            cert_data: None,
            chain_data: Some(b"not a certificate".to_vec()),
            key_exists: true,
        },
    ];
    let issues = collect_all_cert_issues(&targets, &probes);
    // three missing + one invalid chain artifact
    assert_eq!(issues.len(), 4);
    assert_eq!(
        issues[0],
        "program 111 - cert 'alpha': certificate file is missing: /base/alpha.pem"
    );
    assert_eq!(
        issues[1],
        "program 111 - cert 'alpha': chain file is missing: /base/alpha-chain.pem"
    );
    assert_eq!(
        issues[2],
        "program 111 - cert 'beta': certificate file is missing: /base/beta.pem"
    );
    assert_eq!(
        issues[3],
        "program 111 - cert 'beta': chain file is invalid: /base/beta-chain.pem"
    );
}

#[test]
fn preflight_missing_key_is_reported() {
    let issues = collect_cert_issues(
        &target(1, "gamma"),
        &PreflightProbe {
            cert_data: None,
            chain_data: None,
            key_exists: false,
        },
    );
    assert_eq!(issues.len(), 3);
    assert_eq!(issues[2], "key file is missing: /base/gamma.key");
}

#[test]
fn preflight_clean_probe_reports_nothing() {
    // a full preflight pass over valid artifacts is exercised in the
    // certificate tests; here a present key and absent artifacts checks
    // only what existence contributes
    let issues = collect_cert_issues(
        &target(1, "delta"),
        &PreflightProbe {
            cert_data: Some(b"x".to_vec()),
            chain_data: Some(b"y".to_vec()),
            key_exists: true,
        },
    );
    // both artifacts exist but parse as no certificate
    assert_eq!(issues.len(), 2);
}
