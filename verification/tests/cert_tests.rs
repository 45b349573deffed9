//! Tests for certificate metadata extraction and the validity check,
//! driven through a real X.509 certificate.

use pippo::certmeta::{cert_is_valid, read_cert_meta, CertMeta};

const CERT_PEM: &str = "-----BEGIN CERTIFICATE-----\nMIIFWzCCBEOgAwIBAgISAyBIAwu7NBD5CTxX8suDCMgFMA0GCSqGSIb3DQEBCwUA\nMEoxCzAJBgNVBAYTAlVTMRYwFAYDVQQKEw1MZXQncyBFbmNyeXB0MSMwIQYDVQQD\nExpMZXQncyBFbmNyeXB0IEF1dGhvcml0eSBYMzAeFw0xOTA3MTIxMTEyMzBaFw0x\nOTEwMTAxMTEyMzBaMB0xGzAZBgNVBAMTEmxpc3RzLmZvci1vdXIuaW5mbzCCASIw\nDQYJKoZIhvcNAQEBBQADggEPADCCAQoCggEBAMVoti34X46DaI2nX24C+aZ2Ofkm\nhKbidiXiRTon1MLSMGl1oNW9MyRyYYCzP4j6DNKChJnr8ZnVShh2oZD+yHWP9lpn\nXMGkbsUxejRMU9hnaAB50pXRIDAzavkVFCguFlJ8nKkv/Y1Avlw7tc2aZOd3lOZB\nEr8gJ8mRDGqqsNU+Z12I6slEstzGMpsq6AewCVw4lMjdWWgugzUrxQTRAsG87on6\ngOiQH2cMODN3L7Fq4KOLQIjb3/luQhAQhpdKmEGFLin3c+f5or3thCDuwwDtOU1l\nZf+8t9S8pZPLrZrIs6H2xjXqCRuUY7iRNbO18Ukc6rlDYhBj9LT+cpmBbHECAwEA\nAaOCAmYwggJiMA4GA1UdDwEB/wQEAwIFoDAdBgNVHSUEFjAUBggrBgEFBQcDAQYI\nKwYBBQUHAwIwDAYDVR0TAQH/BAIwADAdBgNVHQ4EFgQUJj2pvRtl3GloH3He6FX1\nds3X0VEwHwYDVR0jBBgwFoAUqEpqYwR93brm0Tm3pkVl7/Oo7KEwbwYIKwYBBQUH\nAQEEYzBhMC4GCCsGAQUFBzABhiJodHRwOi8vb2NzcC5pbnQteDMubGV0c2VuY3J5\ncHQub3JnMC8GCCsGAQUFBzAChiNodHRwOi8vY2VydC5pbnQteDMubGV0c2VuY3J5\ncHQub3JnLzAdBgNVHREEFjAUghJsaXN0cy5mb3Itb3VyLmluZm8wTAYDVR0gBEUw\nQzAIBgZngQwBAgEwNwYLKwYBBAGC3xMBAQEwKDAmBggrBgEFBQcCARYaaHR0cDov\nL2Nwcy5sZXRzZW5jcnlwdC5vcmcwggEDBgorBgEEAdZ5AgQCBIH0BIHxAO8AdgAp\nPFGWVMg5ZbqqUPxYB9S3b79Yeily3KTDDPTlRUf0eAAAAWvmGV7yAAAEAwBHMEUC\nICQL2Sm14aCMLxX9a9RbySgyBfichMRdbu6QA2Mbrl4eAiEA1vgJ7snqUWCgoqEE\n3SEfK3ioMopzWBsPvG6LdCuCMRAAdQBvU3asMfAxGdiZAKRRFf93FRwR2QLBACkG\njbIImjfZEwAAAWvmGV9oAAAEAwBGMEQCIExGqw3Lo0nSCyUuTRf92FgGASwWYji5\nUGnXuYnpJrAvAiBw8AWVag8fzZ4ogAhY9EFRNdLrUcBjStipL888vyuxKzANBgkq\nhkiG9w0BAQsFAAOCAQEAF8BBLDvSWZg57B6aDtzfUTSGetCYs3k0vJqCJlL+Pz7/\nUruCSsojQzp5R6jvvgYQ83MaIdwe2mgt+OCQB5v7ylctyBzBmYIw9nPnxEC7HlcJ\nL2K/k5ZjJFRnv4kV1Si8+TIpEAV0ksf39KGKemG8kGi4GXV1v03zSv0p8aCarpuo\nSKBJ4qlB0CvmS2MqV4KnzO0O2h0c/ZQ4jg7l53eiN7VPdRMMO1DRw+MaW6I/hEZp\n+oZQ7hhKXgKUBvF4IGwyrfyIZ8AeWKG4IP98COgyRbz7qtrAVevRKCM0ZC2t04A2\nFcix40FKEeiE093Aj3cweMYxNLPgwgQP8Xu3kA5QEw==\n-----END CERTIFICATE-----\n";

#[test]
fn meta_from_pem_certificate() {
    let meta = read_cert_meta(CERT_PEM.as_bytes()).unwrap();
    assert_eq!(meta.serial_dec, "272321613767276146087730898358422892759045");
    assert_eq!(meta.not_before, 1562929950);
    assert_eq!(meta.not_after, 1570705950);
}

#[test]
fn meta_rejects_garbage() {
    assert!(read_cert_meta(b"this is no certificate").is_err());
}

#[test]
fn validity_window_is_inclusive_on_both_ends() {
    let meta = CertMeta {
        serial_dec: "1".to_string(),
        not_before: 100,
        not_after: 200,
    };
    assert!(cert_is_valid(&meta, 100));
    assert!(cert_is_valid(&meta, 150));
    assert!(cert_is_valid(&meta, 200));
    assert!(!cert_is_valid(&meta, 99));
    assert!(!cert_is_valid(&meta, 201));
}

#[test]
fn validity_of_the_real_certificate() {
    let meta = read_cert_meta(CERT_PEM.as_bytes()).unwrap();
    assert!(cert_is_valid(&meta, 1562929950));
    assert!(cert_is_valid(&meta, 1565000000));
    assert!(!cert_is_valid(&meta, 1600000000));
    assert!(!cert_is_valid(&meta, 1500000000));
}

#[test]
fn preflight_clear_with_valid_artifacts() {
    let t = pippo::preflight::PreflightTarget {
        program_id: 7,
        cert_name: "real".to_string(),
        cert_path: "/base/real.pem".to_string(),
        chain_path: "/base/real-chain.pem".to_string(),
        key_path: "/base/real.key".to_string(),
    };
    let p = pippo::preflight::PreflightProbe {
        cert_data: Some(CERT_PEM.as_bytes().to_vec()),
        chain_data: Some(CERT_PEM.as_bytes().to_vec()),
        key_exists: true,
    };
    let issues = pippo::preflight::collect_cert_issues(&t, &p);
    assert!(issues.is_empty());
}
