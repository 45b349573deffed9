//! Tests for the variable reconciliation planner and the secret handling.

use pippo::crypto::{decrypt, encrypt};
use pippo::decision::ReconciliationDecision;
use pippo::variables::{
    env_payload, env_to_items, patch_payload, plan_variables, VarItem,
};
use pippo::models::{EnvironmentVariable, EnvironmentVariableServiceType, VariableType};

fn item(name: &str, value: Option<&str>, secret: bool) -> VarItem {
    VarItem {
        name: name.to_string(),
        value: value.map(|v| v.to_string()),
        secret,
    }
}

#[test]
fn encryption_workflow() {
    let key = "Test 123@!";
    let test_string = "th!s i$ a 'TEST`";
    let encrypted_value = encrypt(key, test_string);
    let decrypted_value = decrypt(key, &encrypted_value).unwrap();

    assert_eq!(test_string, decrypted_value);
}

#[test]
fn decrypt_with_wrong_input_fails() {
    assert!(decrypt("key", "no base64 at all!!!").is_none());
}

#[test]
fn plan_classifies_create_update_skip_delete() {
    let desired = vec![
        item("NEW", Some("v1"), false),
        item("SAME", Some("kept"), false),
        item("CHANGED", Some("new value"), false),
    ];
    let remote = vec![
        item("SAME", Some("kept"), false),
        item("CHANGED", Some("old value"), false),
        item("ORPHAN", Some("gone soon"), false),
    ];
    let plan = plan_variables("key", &desired, &remote).unwrap();
    assert_eq!(plan.len(), 4);
    assert_eq!(plan[0].decision, ReconciliationDecision::Create);
    assert_eq!(plan[1].decision, ReconciliationDecision::Skip);
    assert_eq!(plan[2].decision, ReconciliationDecision::Update);
    assert_eq!(plan[3].decision, ReconciliationDecision::Delete);
    assert_eq!(plan[3].item.name, "ORPHAN");
    assert_eq!(plan[3].item.value, None);

    let payload = patch_payload(&plan);
    assert_eq!(payload.len(), 3);
    assert_eq!(payload[0].name, "NEW");
    assert_eq!(payload[1].name, "CHANGED");
    assert_eq!(payload[1].value.as_deref(), Some("new value"));
    assert_eq!(payload[2].name, "ORPHAN");
    assert_eq!(payload[2].value, None);
}

#[test]
fn plan_all_equal_is_all_skip_and_empty_payload() {
    let desired = vec![item("A", Some("1"), false), item("B", Some("2"), false)];
    let remote = vec![item("B", Some("2"), false), item("A", Some("1"), false)];
    let plan = plan_variables("key", &desired, &remote).unwrap();
    assert!(plan
        .iter()
        .all(|p| p.decision == ReconciliationDecision::Skip));
    assert!(patch_payload(&plan).is_empty());
}

#[test]
fn plan_decrypts_marked_secrets_before_comparing() {
    let key = "the shared key";
    let cipher = encrypt(key, "plain text");
    let marked = format!("$enc {}", cipher);
    let desired = vec![item("SECRET", Some(&marked), true)];
    let remote = vec![item("SECRET", Some("plain text"), false)];
    let plan = plan_variables(key, &desired, &remote).unwrap();
    // the decrypted value equals the remote one
    assert_eq!(plan[0].decision, ReconciliationDecision::Skip);
    assert_eq!(plan[0].item.value.as_deref(), Some("plain text"));
}

#[test]
fn plan_fails_on_undecryptable_secret() {
    let desired = vec![
        item("GOOD", Some("x"), false),
        item("BAD", Some("$enc not-really-base64!!!"), true),
    ];
    let remote = Vec::new();
    let err = plan_variables("key", &desired, &remote).unwrap_err();
    assert_eq!(err.desired_index, 1);
}

#[test]
fn unmarked_secret_is_passed_through() {
    let desired = vec![item("S", Some("already plain"), true)];
    let remote = Vec::new();
    let plan = plan_variables("key", &desired, &remote).unwrap();
    assert_eq!(plan[0].item.value.as_deref(), Some("already plain"));
    assert_eq!(plan[0].decision, ReconciliationDecision::Create);
}

#[test]
fn typed_environment_round_trip() {
    let desired_typed = vec![EnvironmentVariable {
        name: "VAR".to_string(),
        value: Some("v".to_string()),
        variable_type: VariableType::String,
        service: EnvironmentVariableServiceType::Author,
    }];
    let remote_typed: Vec<EnvironmentVariable> = Vec::new();
    let desired = env_to_items(&desired_typed);
    let remote = env_to_items(&remote_typed);
    assert_eq!(desired[0].secret, false);
    let plan = plan_variables("key", &desired, &remote).unwrap();
    let payload = patch_payload(&plan);
    assert_eq!(payload.len(), 1);
    let typed = env_payload(&plan, &desired_typed, &remote_typed);
    assert_eq!(typed.len(), 1);
    assert_eq!(typed[0].name, "VAR");
    assert_eq!(typed[0].value.as_deref(), Some("v"));
    assert_eq!(typed[0].service, EnvironmentVariableServiceType::Author);
    assert_eq!(typed[0].variable_type, VariableType::String);
}
