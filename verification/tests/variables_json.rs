//! Tests for reading environment variables from the service's listing,
//! including the service-type labels and their fallbacks.

use pippo::models::{
    EnvironmentVariable, EnvironmentVariableServiceType, EnvironmentVariablesList,
    EnvironmentVariablesResponse, VariableType,
};

fn fixture() -> EnvironmentVariablesResponse {
    let text = "{\"_embedded\": {\"variables\": [{\"name\": \"VARIABLE\", \"value\": \"no service specified\", \"type\": \"string\"},{\"name\": \"SECRET_VARIABLE\", \"type\": \"secretString\", \"service\": \"\"},{\"name\": \"VARIABLE\", \"value\": \"preview variable\", \"type\": \"string\", \"service\": \"preview\"},{\"name\": \"VARIABLE\", \"value\": \"publish variable\", \"type\": \"string\", \"service\": \"publish\"},{\"name\": \"SECRET_VARIABLE\", \"type\": \"secretString\", \"service\": \"author\"},{\"name\": \"VARIABLE\", \"value\": \"author variable\", \"type\": \"string\", \"service\": \"author\"},{\"name\": \"SECRET_VARIABLE\", \"type\": \"secretString\", \"service\": \"publish\"},{\"name\": \"INVALID_SERVICE_VARIABLE\", \"value\": \"invalid service variable\", \"type\": \"string\", \"service\": \"invalidService\"}]}}";
    let v: serde_json::Value = serde_json::from_str(text).unwrap();
    let mut variables = Vec::new();
    for e in v
        .get("_embedded")
        .unwrap()
        .get("variables")
        .unwrap()
        .as_array()
        .unwrap()
    {
        let service = e.get("service").and_then(|s| s.as_str()).unwrap_or("");
        variables.push(EnvironmentVariable {
            name: e.get("name").unwrap().as_str().unwrap().to_string(),
            value: e
                .get("value")
                .and_then(|s| s.as_str())
                .map(|s| s.to_string()),
            variable_type: VariableType::from_label(e.get("type").unwrap().as_str().unwrap())
                .unwrap(),
            service: EnvironmentVariableServiceType::from_label(service),
        });
    }
    EnvironmentVariablesResponse {
        variables_list: EnvironmentVariablesList { variables },
    }
}

#[test]
fn deserialize_all_service_environment_variable() {
    let vobj = fixture();

    let under_test: &EnvironmentVariable = vobj.variables_list.variables.get(0).unwrap();
    assert_eq!(under_test.service, EnvironmentVariableServiceType::All,);
    assert_eq!(under_test.name, "VARIABLE",);
    assert_eq!(
        under_test
            .value
            .clone()
            .unwrap_or("default string".to_string()),
        "no service specified",
    );
    assert_eq!(under_test.variable_type, VariableType::String,);
}

#[test]
fn deserialize_empty_service_environment_variable() {
    let vobj = fixture();

    let under_test: &EnvironmentVariable = vobj.variables_list.variables.get(1).unwrap();
    assert_eq!(under_test.service, EnvironmentVariableServiceType::All,);
    assert_eq!(under_test.name, "SECRET_VARIABLE",);
    assert_eq!(
        under_test.value.clone().unwrap_or("no_value".to_string()),
        "no_value",
    );
    assert_eq!(under_test.variable_type, VariableType::SecretString,);
}

#[test]
fn deserialize_publish_service_environment_variable() {
    let vobj = fixture();

    let under_test: &EnvironmentVariable = vobj.variables_list.variables.get(3).unwrap();
    assert_eq!(under_test.service, EnvironmentVariableServiceType::Publish,);
    assert_eq!(under_test.name, "VARIABLE",);
    assert_eq!(
        under_test.value.clone().unwrap_or("no_value".to_string()),
        "publish variable",
    );
    assert_eq!(under_test.variable_type, VariableType::String,);
}

#[test]
fn deserialize_author_service_environment_variable() {
    let vobj = fixture();

    let under_test: &EnvironmentVariable = vobj.variables_list.variables.get(4).unwrap();
    assert_eq!(under_test.service, EnvironmentVariableServiceType::Author,);
    assert_eq!(under_test.name, "SECRET_VARIABLE",);
    assert_eq!(
        under_test.value.clone().unwrap_or("no_value".to_string()),
        "no_value",
    );
    assert_eq!(under_test.variable_type, VariableType::SecretString,);
}

#[test]
fn deserialize_preview_service_environment_variable() {
    let vobj = fixture();

    let under_test: &EnvironmentVariable = vobj.variables_list.variables.get(2).unwrap();
    assert_eq!(under_test.service, EnvironmentVariableServiceType::Preview,);
    assert_eq!(under_test.name, "VARIABLE",);
    assert_eq!(
        under_test.value.clone().unwrap_or("no_value".to_string()),
        "preview variable",
    );
    assert_eq!(under_test.variable_type, VariableType::String,);
}

#[test]
fn deserialize_invalid_service_environment_variable() {
    let vobj = fixture();

    let under_test: &EnvironmentVariable = vobj.variables_list.variables.get(7).unwrap();
    assert_eq!(under_test.service, EnvironmentVariableServiceType::Invalid,);
    assert_eq!(under_test.name, "INVALID_SERVICE_VARIABLE",);
    assert_eq!(
        under_test.value.clone().unwrap_or("no_value".to_string()),
        "invalid service variable",
    );
    assert_eq!(under_test.variable_type, VariableType::String,);
}

/// Writes a variable in its wire shape: the value only when there is
/// one, the type label, and the service label unless it is the default.
fn env_var_json(v: &EnvironmentVariable) -> String {
    let mut s = format!("{{\"name\":\"{}\"", v.name);
    if let Some(value) = &v.value {
        s.push_str(&format!(",\"value\":\"{}\"", value));
    }
    s.push_str(&format!(",\"type\":\"{}\"", v.variable_type.label()));
    if !pippo::models::environment_variable_skip_serializing(&v.service) {
        s.push_str(&format!(",\"service\":\"{}\"", v.service.label()));
    }
    s.push('}');
    s
}

#[test]
fn serialize_author_service_environment_variable() {
    let variable: EnvironmentVariable = EnvironmentVariable {
        name: String::from("authorVarName"),
        variable_type: VariableType::String,
        service: EnvironmentVariableServiceType::All,
        value: Some(String::from("authorVarValue")),
    };
    let under_test: String = env_var_json(&variable);
    assert_eq!(
        under_test,
        "{\"name\":\"authorVarName\",\"value\":\"authorVarValue\",\"type\":\"string\"}",
    );
}

#[test]
fn serialize_publish_service_environment_variable() {
    let variable: EnvironmentVariable = EnvironmentVariable {
        name: String::from("publishVarName"),
        variable_type: VariableType::SecretString,
        service: EnvironmentVariableServiceType::Publish,
        value: Some(String::from("publishValue")),
    };
    let under_test: String = env_var_json(&variable);
    assert_eq!(
        under_test,
        "{\"name\":\"publishVarName\",\"value\":\"publishValue\",\"type\":\"secretString\",\"service\":\"publish\"}",
    );
}

#[test]
fn serialize_preview_service_environment_variable() {
    let variable: EnvironmentVariable = EnvironmentVariable {
        name: String::from("previewVarName"),
        variable_type: VariableType::String,
        service: EnvironmentVariableServiceType::Preview,
        value: Some(String::from("previewValue")),
    };
    let under_test: String = env_var_json(&variable);
    assert_eq!(
        under_test,
        "{\"name\":\"previewVarName\",\"value\":\"previewValue\",\"type\":\"string\",\"service\":\"preview\"}",
    );
}
