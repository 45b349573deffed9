//! Tests for path resolution, domain payloads, log helpers, and labels.

use pippo::domains::{build_domain, classify_domain_response, domains_all_accepted,
    generate_txt_record, DomainOutcome};
use pippo::logs::{log_download_filename, tail_log_url};
use pippo::models::{
    DomainConfig, Download, HttpNsAdobeComAdobecloudRelLogsTail, Links, LogTailList,
    LogTailResponse, LogType, ServiceType,
};
use pippo::paths::{base_dir_from_yaml_path, resolve_against_base};
use pippo::strutil::strip_newlines;

#[test]
fn relative_paths_resolve_against_base() {
    assert_eq!(resolve_against_base("/base", "cert.pem"), "/base/cert.pem");
    assert_eq!(resolve_against_base("/base/", "cert.pem"), "/base/cert.pem");
    assert_eq!(resolve_against_base("/base", "/abs/cert.pem"), "/abs/cert.pem");
    assert_eq!(resolve_against_base("", "cert.pem"), "cert.pem");
}

#[test]
fn base_dir_of_the_declaration_document() {
    assert_eq!(base_dir_from_yaml_path("conf/decl.yml", "/cwd"), "conf");
    assert_eq!(base_dir_from_yaml_path("decl.yml", "/cwd"), "/cwd");
    assert_eq!(base_dir_from_yaml_path("/decl.yml", "/cwd"), "/");
    assert_eq!(base_dir_from_yaml_path("/a/b/decl.yml", "/cwd"), "/a/b");
}

#[test]
fn newlines_are_stripped() {
    assert_eq!(strip_newlines("a\nb\nc\n"), "abc");
    assert_eq!(strip_newlines("plain"), "plain");
    assert_eq!(strip_newlines("\n\n"), "");
}

#[test]
fn txt_record_has_the_verification_shape() {
    let r = generate_txt_record("www.example.org", 222222, 333333);
    let prefix = "adobe-aem-verification=www.example.org/222222/333333/";
    assert!(r.starts_with(prefix));
    assert_eq!(r.len(), prefix.len() + 36);
}

#[test]
fn domain_payload_carries_the_declaration() {
    let d = DomainConfig {
        domainname: "www.example.org".to_string(),
        certificate_id: 42,
    };
    let m = build_domain(&d, 1, 2);
    assert_eq!(m.name, "www.example.org");
    assert_eq!(m.certificate_id, 42);
    assert_eq!(m.environment_id, 2);
    assert_eq!(m.dns_zone, "adobe.com.");
    assert!(m.dns_txt_record.starts_with("adobe-aem-verification=www.example.org/1/2/"));
}

#[test]
fn domain_responses_classify() {
    assert_eq!(
        classify_domain_response(201, None),
        Some(DomainOutcome::Accepted)
    );
    assert_eq!(
        classify_domain_response(400, Some(true)),
        Some(DomainOutcome::Conflict)
    );
    assert_eq!(
        classify_domain_response(400, Some(false)),
        Some(DomainOutcome::Accepted)
    );
    assert_eq!(classify_domain_response(500, None), None);

    assert!(domains_all_accepted(&vec![
        DomainOutcome::Accepted,
        DomainOutcome::Accepted
    ]));
    assert!(!domains_all_accepted(&vec![
        DomainOutcome::Accepted,
        DomainOutcome::Conflict
    ]));
}

#[test]
fn tail_url_comes_from_the_first_download() {
    let resp = LogTailResponse {
        embedded: LogTailList {
            downloads: vec![Download {
                links: Links {
                    http_ns_adobe_com_adobecloud_rel_logs_tail: Some(
                        HttpNsAdobeComAdobecloudRelLogsTail {
                            href: "https://logs.example/tail".to_string(),
                        },
                    ),
                },
            }],
        },
    };
    assert_eq!(
        tail_log_url(&resp).as_deref(),
        Some("https://logs.example/tail")
    );
    let empty = LogTailResponse {
        embedded: LogTailList {
            downloads: Vec::new(),
        },
    };
    assert!(tail_log_url(&empty).is_none());
}

#[test]
fn download_filename_shape() {
    assert_eq!(
        log_download_filename("2020-01-31", 333, ServiceType::Publish, LogType::AemError),
        "2020-01-31_333-publish_aemerror.log.gz"
    );
}

#[test]
fn wire_labels() {
    assert_eq!(ServiceType::PreviewDispatcher.label(), "preview_dispatcher");
    assert_eq!(LogType::HttpdAccess.label(), "httpdaccess");
    assert_eq!(
        pippo::models::EnvironmentVariableServiceType::from_label("publish"),
        pippo::models::EnvironmentVariableServiceType::Publish
    );
    assert_eq!(
        pippo::models::EnvironmentVariableServiceType::from_label(""),
        pippo::models::EnvironmentVariableServiceType::All
    );
    assert_eq!(
        pippo::models::EnvironmentVariableServiceType::from_label("weird"),
        pippo::models::EnvironmentVariableServiceType::Invalid
    );
    assert_eq!(
        pippo::models::PipelineVariableServiceType::from_label("uiTest"),
        pippo::models::PipelineVariableServiceType::UiTest
    );
    assert_eq!(
        pippo::models::VariableType::from_label("secretString"),
        Some(pippo::models::VariableType::SecretString)
    );
    assert_eq!(pippo::models::VariableType::from_label("float"), None);
}
