use conjure::domain::{ParameterType, DEFAULT_TIMEOUT_MS};
use conjure::float::Number64;
use conjure::encode::json_text;
use conjure::error::AppError;
use conjure::json::{JsonNumber, JsonObject, JsonValue};
use conjure::rules::{ToolParameter, ValidationRules};
use conjure::schema::{input_schema, json_schema_type, parameter_schema};
use conjure::schema_check::{schema_answer_outcome, validate_with_json_schema};
use conjure::tool::{Timestamp, Tool};

fn parameter(name: &str, parameter_type: ParameterType, required: bool, validation: ValidationRules) -> ToolParameter {
    ToolParameter {
        id: 1,
        tool_id: 2,
        name: name.to_string(),
        parameter_type,
        description: None,
        required,
        default_value: None,
        validation,
        position: 0,
    }
}

fn tool(parameters: Vec<ToolParameter>) -> Tool {
    let now = Timestamp { seconds: 1_700_000_000, nanos: 0 };
    Tool {
        id: 2,
        name: "sample_tool".to_string(),
        description: "Sample".to_string(),
        category: None,
        script_body: Some("echo ok".to_string()),
        script_path: None,
        working_dir: None,
        working_dir_expose: false,
        working_dir_required: false,
        timeout_ms: DEFAULT_TIMEOUT_MS,
        enabled: true,
        created_at: now,
        updated_at: now,
        parameters,
        last_run_at: None,
    }
}

fn get<'a>(value: &'a JsonValue, key: &str) -> &'a JsonValue {
    match value {
        JsonValue::Object(o) => o.get(key).unwrap_or_else(|| panic!("missing key {key}")),
        _ => panic!("not an object at {key}"),
    }
}

fn strings(value: &JsonValue) -> Vec<String> {
    match value {
        JsonValue::Array(items) => items
            .iter()
            .map(|item| match item {
                JsonValue::String(s) => s.clone(),
                _ => panic!("not a string"),
            })
            .collect(),
        _ => panic!("not an array"),
    }
}

fn text(value: &JsonValue) -> String {
    match value {
        JsonValue::String(s) => s.clone(),
        _ => panic!("not a string"),
    }
}

#[test]
fn enum_values_are_reflected_in_input_schema() {
    let mut rules = ValidationRules::empty();
    rules.enum_values = vec!["fast".to_string(), "safe".to_string()];
    let tool = tool(vec![parameter("mode", ParameterType::Enum, true, rules)]);

    let schema = input_schema(&tool);

    assert_eq!(strings(get(get(get(&schema, "properties"), "mode"), "enum")), vec!["fast", "safe"]);
    assert_eq!(strings(get(&schema, "required")), vec!["mode"]);
}

#[test]
fn working_dir_is_reflected_in_input_schema_when_exposed() {
    let mut tool = tool(Vec::new());
    tool.working_dir_expose = true;
    tool.working_dir_required = true;

    let schema = input_schema(&tool);

    assert_eq!(text(get(get(get(&schema, "properties"), "working_dir"), "format")), "path");
    assert_eq!(strings(get(&schema, "required")), vec!["working_dir"]);
}

#[test]
fn hidden_working_dir_is_not_a_property() {
    let tool = tool(vec![parameter("name", ParameterType::String, false, ValidationRules::empty())]);
    let schema = input_schema(&tool);
    match get(&schema, "properties") {
        JsonValue::Object(o) => {
            assert!(o.contains_key("name"));
            assert!(!o.contains_key("working_dir"));
        }
        _ => panic!("properties must be an object"),
    }
    assert!(strings(get(&schema, "required")).is_empty());
    assert!(matches!(get(&schema, "additionalProperties"), JsonValue::Bool(false)));
    assert_eq!(text(get(&schema, "type")), "object");
}

#[test]
fn schema_types_follow_parameter_kinds() {
    let mut integer = ValidationRules::empty();
    integer.integer = true;
    assert_eq!(json_schema_type(&parameter("a", ParameterType::Number, false, integer)), "integer");
    assert_eq!(json_schema_type(&parameter("a", ParameterType::Number, false, ValidationRules::empty())), "number");
    assert_eq!(json_schema_type(&parameter("a", ParameterType::Boolean, false, ValidationRules::empty())), "boolean");
    assert_eq!(json_schema_type(&parameter("a", ParameterType::Path, false, ValidationRules::empty())), "string");
    assert_eq!(json_schema_type(&parameter("a", ParameterType::Enum, false, ValidationRules::empty())), "string");
}

#[test]
fn string_bounds_become_length_keywords() {
    let mut rules = ValidationRules::empty();
    rules.min = Some(Number64 { bits: 1.0f64.to_bits(), text: "1".to_string(), json_text: "1.0".to_string() });
    rules.max = Some(Number64 { bits: 10.5f64.to_bits(), text: "10.5".to_string(), json_text: "10.5".to_string() });
    let schema = JsonValue::Object(parameter_schema(&parameter("s", ParameterType::String, true, rules)));
    assert!(matches!(get(&schema, "minLength"), JsonValue::Number(JsonNumber::PosInt(1))));
    assert!(matches!(get(&schema, "maxLength"), JsonValue::Number(JsonNumber::PosInt(11))));
}

fn object(entries: Vec<(&str, JsonValue)>) -> JsonValue {
    let mut o = JsonObject::new();
    for (k, v) in entries {
        o.insert(k.to_string(), v);
    }
    JsonValue::Object(o)
}

fn named_tool() -> Tool {
    tool(vec![parameter("name", ParameterType::String, true, ValidationRules::empty())])
}

#[test]
fn schema_check_accepts_matching_arguments() {
    let args = object(vec![("name", JsonValue::String("Ada".to_string()))]);
    assert_eq!(validate_with_json_schema(&named_tool(), &args), Ok(()));
}

#[test]
fn schema_check_refuses_keys_that_name_no_parameter() {
    let args = object(vec![
        ("name", JsonValue::String("Ada".to_string())),
        ("extra", JsonValue::Number(JsonNumber::PosInt(1))),
    ]);
    match validate_with_json_schema(&named_tool(), &args) {
        Err(AppError::Validation(m)) => {
            assert!(m.starts_with("Additional properties are not allowed"), "{m}");
            assert!(m.contains("'extra'"), "{m}");
        }
        other => panic!("unexpected {other:?}"),
    }
}

#[test]
fn schema_check_reports_missing_required_argument() {
    let args = object(vec![]);
    match validate_with_json_schema(&named_tool(), &args) {
        Err(AppError::Validation(m)) => assert_eq!(m, "\"name\" is a required property"),
        other => panic!("unexpected {other:?}"),
    }
}

#[test]
fn schema_check_prefixes_the_location_of_a_nested_error() {
    let args = object(vec![("name", JsonValue::Number(JsonNumber::PosInt(5)))]);
    match validate_with_json_schema(&named_tool(), &args) {
        Err(AppError::Validation(m)) => assert_eq!(m, "/name: 5 is not of type \"string\""),
        other => panic!("unexpected {other:?}"),
    }
}

#[test]
fn schema_answer_without_errors_is_success() {
    assert_eq!(schema_answer_outcome(Ok(vec![])), Ok(()));
}

#[test]
fn schema_answer_joins_reports() {
    let answer = Ok(vec![
        (String::new(), "first".to_string()),
        ("/x".to_string(), "second".to_string()),
    ]);
    assert_eq!(schema_answer_outcome(answer), Err(AppError::Validation("first; /x: second".to_string())));
}

#[test]
fn schema_answer_error_is_internal() {
    assert_eq!(
        schema_answer_outcome(Err("bad schema".to_string())),
        Err(AppError::Internal("invalid generated JSON Schema: bad schema".to_string()))
    );
}

#[test]
fn json_text_is_compact_and_escaped() {
    let value = object(vec![
        ("s", JsonValue::String("a\"b\\c\nd\u{1}".to_string())),
        (
            "a",
            JsonValue::Array(vec![
                JsonValue::Number(JsonNumber::PosInt(12)),
                JsonValue::Number(JsonNumber::NegInt(-3)),
                JsonValue::Null,
                JsonValue::Bool(true),
            ]),
        ),
    ]);
    assert_eq!(json_text(&value), "{\"s\":\"a\\\"b\\\\c\\nd\\u0001\",\"a\":[12,-3,null,true]}");
}
