//! Tests for the matcher, the decision engine, and the whole certificate
//! reconciliation run.

use pippo::certmeta::CertMeta;
use pippo::decision::{decide_certificate_action, CertificateAction};
use pippo::engine::{
    apply_certificate_outcomes, build_certificate_payload, classify_mutation_response,
    exit_success, plan_certificates, CertDesired, MutationOutcome, MutationResponse,
    PlannedAction,
};
use pippo::matcher::find_existing_by_id_or_name;
use pippo::models::{Certificate, CertificateStatus, CertificateType};

fn remote_cert(id: i64, name: &str, serial: &str) -> Certificate {
    Certificate {
        id,
        ssl_certificate_type: CertificateType::DV,
        certificate_status: Some(CertificateStatus::VALID),
        serial_number: serial.to_string(),
        name: name.to_string(),
        issuer: "issuer".to_string(),
        expire_at: None,
        common_name: name.to_string(),
        subject_alternative_names: Vec::new(),
        created_at: None,
        updated_at: None,
    }
}

fn desired(name: &str, id: Option<i64>, serial: &str) -> CertDesired {
    CertDesired {
        name: name.to_string(),
        id,
        meta: CertMeta {
            serial_dec: serial.to_string(),
            not_before: 0,
            not_after: 10_000,
        },
    }
}

#[test]
fn matcher_id_wins_over_name() {
    let list = vec![
        remote_cert(1, "target-name", "100"),
        remote_cert(2, "other-name", "200"),
    ];
    // id 2 and name "target-name" would match different records: id wins
    let hit = find_existing_by_id_or_name(&list, Some(2), "target-name").unwrap();
    assert_eq!(list[hit].id, 2);
}

#[test]
fn matcher_name_is_case_sensitive_and_exact() {
    let list = vec![
        remote_cert(1, "Name", "100"),
        remote_cert(2, "name", "200"),
    ];
    let hit = find_existing_by_id_or_name(&list, None, "name").unwrap();
    assert_eq!(list[hit].id, 2);
    assert!(find_existing_by_id_or_name(&list, None, "NAME").is_none());
    assert!(find_existing_by_id_or_name(&list, None, "nam").is_none());
}

#[test]
fn matcher_none_means_create() {
    let list = vec![remote_cert(1, "a", "100")];
    assert!(find_existing_by_id_or_name(&list, Some(9), "a").is_none());
    let action = decide_certificate_action(None, "100");
    assert_eq!(action, CertificateAction::Create);
}

#[test]
fn decision_by_serial_number() {
    let c = remote_cert(1, "a", "100");
    assert_eq!(
        decide_certificate_action(Some(&c), "100"),
        CertificateAction::Skip
    );
    assert_eq!(
        decide_certificate_action(Some(&c), "101"),
        CertificateAction::Update
    );
}

#[test]
fn all_equal_fingerprints_yield_all_skip_and_no_calls() {
    let declared = vec![desired("one", None, "100"), desired("two", None, "200")];
    let existing = vec![remote_cert(1, "one", "100"), remote_cert(2, "two", "200")];
    let plan = plan_certificates(&declared, &existing, 500);
    assert!(plan.iter().all(|p| p.action == PlannedAction::Skip));
    // no mutation call: applying with zero responses succeeds
    let buckets = apply_certificate_outcomes(&plan, &Vec::new()).unwrap();
    assert_eq!(buckets.skipped, vec![0, 1]);
    assert!(buckets.created.is_empty());
    assert!(buckets.updated.is_empty());
    assert!(buckets.failed.is_empty());
    assert!(exit_success(&buckets));
}

#[test]
fn invalid_certificate_fails_without_any_call() {
    let mut d = desired("one", None, "100");
    d.meta.not_before = 1_000;
    d.meta.not_after = 2_000;
    let existing = vec![remote_cert(1, "one", "100")];
    // now is outside the validity window on both sides
    let plan = plan_certificates(&vec![d], &existing, 5_000);
    assert_eq!(plan[0].action, PlannedAction::Failure);
    let buckets = apply_certificate_outcomes(&plan, &Vec::new()).unwrap();
    assert_eq!(buckets.failed, vec![0]);
    assert!(!exit_success(&buckets));
}

#[test]
fn one_rejection_fails_one_item_and_the_run() {
    let declared = vec![
        desired("one", None, "100"),
        desired("two", None, "999"),
        desired("three", None, "300"),
    ];
    let existing = vec![
        remote_cert(1, "one", "100"),
        remote_cert(2, "two", "200"),
        remote_cert(3, "three", "333"),
    ];
    let plan = plan_certificates(&declared, &existing, 500);
    assert_eq!(plan[0].action, PlannedAction::Skip);
    assert_eq!(plan[1].action, PlannedAction::Update);
    assert_eq!(plan[2].action, PlannedAction::Update);
    // the first update is rejected with a schema-conformant error body,
    // the second one succeeds
    let resps = vec![
        MutationResponse {
            status: 406,
            structured_error: true,
        },
        MutationResponse {
            status: 200,
            structured_error: false,
        },
    ];
    let buckets = apply_certificate_outcomes(&plan, &resps).unwrap();
    assert_eq!(buckets.failed, vec![1]);
    assert_eq!(buckets.updated, vec![2]);
    assert_eq!(buckets.skipped, vec![0]);
    assert!(!exit_success(&buckets));
}

#[test]
fn unreadable_response_aborts_the_run() {
    let declared = vec![desired("one", None, "100")];
    let existing = Vec::new();
    let plan = plan_certificates(&declared, &existing, 500);
    assert_eq!(plan[0].action, PlannedAction::Create);
    let resps = vec![MutationResponse {
        status: 500,
        structured_error: false,
    }];
    let err = apply_certificate_outcomes(&plan, &resps).unwrap_err();
    assert_eq!(err.index, 0);
    assert_eq!(err.status, 500);
}

#[test]
fn end_to_end_three_certificates() {
    // one absent remotely (create), one present with matching serial
    // (skip), one present with a differing serial (update)
    let declared = vec![
        desired("absent", None, "100"),
        desired("same", None, "200"),
        desired("changed", None, "999"),
    ];
    let existing = vec![
        remote_cert(5, "same", "200"),
        remote_cert(6, "changed", "300"),
    ];
    let plan = plan_certificates(&declared, &existing, 500);
    assert_eq!(plan[0].action, PlannedAction::Create);
    assert_eq!(plan[1].action, PlannedAction::Skip);
    assert_eq!(plan[2].action, PlannedAction::Update);
    assert_eq!(plan[2].existing_id, Some(6));
    let resps = vec![
        MutationResponse {
            status: 201,
            structured_error: false,
        },
        MutationResponse {
            status: 200,
            structured_error: false,
        },
    ];
    let buckets = apply_certificate_outcomes(&plan, &resps).unwrap();
    assert_eq!(buckets.created.len(), 1);
    assert_eq!(buckets.skipped.len(), 1);
    assert_eq!(buckets.updated.len(), 1);
    assert_eq!(buckets.failed.len(), 0);
    assert!(exit_success(&buckets));
}

#[test]
fn response_classification() {
    let ok = MutationResponse {
        status: 201,
        structured_error: false,
    };
    let rejected = MutationResponse {
        status: 400,
        structured_error: true,
    };
    let fatal = MutationResponse {
        status: 502,
        structured_error: false,
    };
    assert_eq!(
        classify_mutation_response(201, &ok),
        MutationOutcome::Succeeded
    );
    assert_eq!(
        classify_mutation_response(201, &rejected),
        MutationOutcome::Rejected
    );
    assert_eq!(
        classify_mutation_response(201, &fatal),
        MutationOutcome::Fatal
    );
}

#[test]
fn certificate_payload_is_flattened() {
    let p = build_certificate_payload(
        "cert-name",
        Some(7),
        "line one\nline two\n",
        "chain\n",
        "key\nmaterial",
    );
    assert_eq!(p.name, "cert-name");
    assert_eq!(p.id, Some(7));
    assert_eq!(p.certificate, "line oneline two");
    assert_eq!(p.chain, "chain");
    assert_eq!(p.private_key.value, "keymaterial");
}

#[test]
fn duplicate_keys_first_hit_wins() {
    // two remote records with the same id, and two with the same name:
    // the matcher returns the first in list order
    let list = vec![
        remote_cert(7, "dup", "100"),
        remote_cert(7, "dup", "200"),
    ];
    let by_id = find_existing_by_id_or_name(&list, Some(7), "other").unwrap();
    assert_eq!(by_id, 0);
    let by_name = find_existing_by_id_or_name(&list, None, "dup").unwrap();
    assert_eq!(by_name, 0);
}

#[test]
fn empty_declaration_is_a_successful_run() {
    let plan = plan_certificates(&Vec::new(), &Vec::new(), 0);
    assert!(plan.is_empty());
    let buckets = apply_certificate_outcomes(&plan, &Vec::new()).unwrap();
    assert!(buckets.created.is_empty());
    assert!(buckets.updated.is_empty());
    assert!(buckets.skipped.is_empty());
    assert!(buckets.failed.is_empty());
    assert!(exit_success(&buckets));
}
