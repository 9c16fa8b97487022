use conjure::domain::{ParameterType, DEFAULT_TIMEOUT_MS};
use conjure::error::AppError;
use conjure::float::Number64;
use conjure::json::{JsonNumber, JsonObject, JsonValue};
use conjure::plan::{
    allowed_working_dir, assemble_plan, requested_working_dir, resolve_parameters,
    tool_prefixed_env_name, CanonicalPath, NumberReading, Resolved,
};
use conjure::rules::{ToolParameter, ValidationRules};
use conjure::settings::AppSettings;
use conjure::tool::{Timestamp, Tool};

fn number(value: f64) -> Number64 {
    Number64 {
        bits: value.to_bits(),
        text: format!("{}", value),
        json_text: format!("{:?}", value),
    }
}

fn parameter(
    name: &str,
    parameter_type: ParameterType,
    required: bool,
    default_value: Option<JsonValue>,
    validation: ValidationRules,
) -> ToolParameter {
    ToolParameter {
        id: 1,
        tool_id: 2,
        name: name.to_string(),
        parameter_type,
        description: None,
        required,
        default_value,
        validation,
        position: 0,
    }
}

fn now() -> Timestamp {
    Timestamp { seconds: 1_700_000_000, nanos: 0 }
}

fn tool(parameters: Vec<ToolParameter>) -> Tool {
    Tool {
        id: 2,
        name: "sample_tool".to_string(),
        description: "Sample".to_string(),
        category: None,
        script_body: Some("echo ok".to_string()),
        script_path: None,
        working_dir: None,
        working_dir_expose: false,
        working_dir_required: false,
        timeout_ms: DEFAULT_TIMEOUT_MS,
        enabled: true,
        created_at: now(),
        updated_at: now(),
        parameters,
        last_run_at: None,
    }
}

fn settings() -> AppSettings {
    AppSettings {
        default_working_dir: None,
        allowed_base_paths: vec!["/".to_string()],
        default_timeout_ms: DEFAULT_TIMEOUT_MS,
        mcp_endpoint: "conjure --mcp".to_string(),
    }
}

fn object(entries: Vec<(&str, JsonValue)>) -> JsonValue {
    let mut o = JsonObject::new();
    for (k, v) in entries {
        o.insert(k.to_string(), v);
    }
    JsonValue::Object(o)
}

fn text(s: &str) -> JsonValue {
    JsonValue::String(s.to_string())
}

fn env_value<'a>(resolved: &'a Resolved, name: &str) -> Option<&'a String> {
    resolved.env.iter().rev().find(|(k, _)| k == name).map(|(_, v)| v)
}

fn validation_message(e: AppError) -> String {
    match e {
        AppError::Validation(m) => m,
        other => panic!("expected a validation error, got {:?}", other),
    }
}

#[test]
fn required_parameter_is_rejected_when_missing() {
    let tool = tool(vec![parameter(
        "name",
        ParameterType::String,
        true,
        None,
        ValidationRules::empty(),
    )]);

    let result = resolve_parameters(&tool.parameters, &object(vec![]), &vec![]);

    assert!(result.is_err());
}

#[test]
fn default_value_is_applied_to_optional_parameter() {
    let tool = tool(vec![parameter(
        "greeting",
        ParameterType::String,
        false,
        Some(text("hello")),
        ValidationRules::empty(),
    )]);

    let resolved =
        resolve_parameters(&tool.parameters, &object(vec![]), &vec![]).expect("plan should build");

    assert_eq!(env_value(&resolved, "greeting"), Some(&"hello".to_string()));
    assert_eq!(env_value(&resolved, "TOOL_GREETING"), Some(&"hello".to_string()));
}

#[test]
fn validation_rules_reject_out_of_range_values() {
    let mut rules = ValidationRules::empty();
    rules.min = Some(number(2.0));
    rules.max = Some(number(5.0));
    let tool = tool(vec![parameter("count", ParameterType::Number, true, None, rules)]);
    let nine = number(9.0);
    let reading = NumberReading::Number(
        JsonValue::Number(JsonNumber::Float(nine.clone())),
        Some(nine),
    );

    let result = resolve_parameters(
        &tool.parameters,
        &object(vec![("count", JsonValue::Number(JsonNumber::PosInt(9)))]),
        &vec![Some(reading)],
    );

    assert!(result.is_err());
}

#[test]
fn range_error_names_the_bound() {
    let mut rules = ValidationRules::empty();
    rules.min = Some(number(2.0));
    rules.max = Some(number(5.0));
    let tool = tool(vec![parameter("count", ParameterType::Number, true, None, rules)]);
    let nine = number(9.0);
    let reading = NumberReading::Number(JsonValue::Number(JsonNumber::Float(nine.clone())), Some(nine));
    let result = resolve_parameters(
        &tool.parameters,
        &object(vec![("count", JsonValue::Number(JsonNumber::PosInt(9)))]),
        &vec![Some(reading)],
    );
    let message = validation_message(result.err().expect("out of range"));
    assert_eq!(message, "parameter `count` must be at most 5");
}

#[test]
fn number_in_range_is_exported_with_its_json_text() {
    let mut rules = ValidationRules::empty();
    rules.min = Some(number(2.0));
    rules.max = Some(number(5.0));
    let tool = tool(vec![parameter("count", ParameterType::Number, true, None, rules)]);
    let three = number(3.0);
    let reading = NumberReading::Number(JsonValue::Number(JsonNumber::Float(three.clone())), Some(three));
    let resolved = resolve_parameters(
        &tool.parameters,
        &object(vec![("count", JsonValue::Number(JsonNumber::PosInt(3)))]),
        &vec![Some(reading)],
    )
    .expect("in range");
    assert_eq!(env_value(&resolved, "count"), Some(&"3".to_string()));
    assert_eq!(env_value(&resolved, "TOOL_COUNT"), Some(&"3".to_string()));
    assert_eq!(resolved.env.len(), 2);
}

#[test]
fn number_parameter_without_a_reading_is_not_a_number() {
    let tool = tool(vec![parameter("count", ParameterType::Number, true, None, ValidationRules::empty())]);
    let result = resolve_parameters(
        &tool.parameters,
        &object(vec![("count", text("many"))]),
        &vec![Some(NumberReading::NotANumber)],
    );
    assert_eq!(validation_message(result.err().expect("not a number")), "parameter `count` must be a number");
}

#[test]
fn fractional_number_is_rejected_for_integer_rule() {
    let mut rules = ValidationRules::empty();
    rules.integer = true;
    let tool = tool(vec![parameter("count", ParameterType::Number, true, None, rules)]);
    let result = resolve_parameters(
        &tool.parameters,
        &object(vec![("count", text("1.5"))]),
        &vec![Some(NumberReading::NotAnInteger)],
    );
    assert_eq!(validation_message(result.err().expect("fractional")), "parameter `count` must be an integer");
}

#[test]
fn params_must_be_an_object() {
    let tool = tool(vec![]);
    let result = resolve_parameters(&tool.parameters, &text("x"), &vec![]);
    assert_eq!(
        validation_message(result.err().expect("not an object")),
        "params must be a JSON object keyed by parameter name"
    );
}

#[test]
fn missing_required_parameter_message_names_it() {
    let tool = tool(vec![parameter("name", ParameterType::String, true, None, ValidationRules::empty())]);
    let result = resolve_parameters(&tool.parameters, &object(vec![]), &vec![]);
    assert_eq!(validation_message(result.err().expect("missing")), "missing required parameter `name`");
}

#[test]
fn string_parameter_takes_a_number_as_text() {
    let tool = tool(vec![parameter("label", ParameterType::String, true, None, ValidationRules::empty())]);
    let resolved = resolve_parameters(
        &tool.parameters,
        &object(vec![("label", JsonValue::Number(JsonNumber::NegInt(-42)))]),
        &vec![],
    )
    .expect("string compatible");
    assert_eq!(env_value(&resolved, "label"), Some(&"-42".to_string()));
    assert_eq!(env_value(&resolved, "TOOL_LABEL"), Some(&"-42".to_string()));
}

#[test]
fn boolean_parameter_reads_text() {
    let tool = tool(vec![parameter("flag", ParameterType::Boolean, true, None, ValidationRules::empty())]);
    let resolved = resolve_parameters(&tool.parameters, &object(vec![("flag", text("true"))]), &vec![])
        .expect("boolean");
    assert_eq!(env_value(&resolved, "flag"), Some(&"true".to_string()));
    let bad = resolve_parameters(&tool.parameters, &object(vec![("flag", text("yes"))]), &vec![]);
    assert_eq!(validation_message(bad.err().expect("not boolean")), "parameter `flag` must be a boolean");
}

#[test]
fn enum_parameter_rejects_other_values() {
    let mut rules = ValidationRules::empty();
    rules.enum_values = vec!["fast".to_string(), "safe".to_string()];
    let tool = tool(vec![parameter("mode", ParameterType::Enum, true, None, rules)]);
    let ok = resolve_parameters(&tool.parameters, &object(vec![("mode", text("safe"))]), &vec![]);
    assert!(ok.is_ok());
    let bad = resolve_parameters(&tool.parameters, &object(vec![("mode", text("slow"))]), &vec![]);
    assert!(bad.is_err());
}

#[test]
fn regex_rule_is_checked_against_string_values() {
    let mut rules = ValidationRules::empty();
    rules.regex = Some("^[a-z]+$".to_string());
    let tool = tool(vec![parameter("word", ParameterType::String, true, None, rules)]);
    let ok = resolve_parameters(&tool.parameters, &object(vec![("word", text("hello"))]), &vec![]);
    assert!(ok.is_ok());
    let bad = resolve_parameters(&tool.parameters, &object(vec![("word", text("Hello1"))]), &vec![]);
    assert!(bad.is_err());
}

#[test]
fn string_length_bounds_are_checked() {
    let mut rules = ValidationRules::empty();
    rules.max = Some(number(3.0));
    let tool = tool(vec![parameter("code", ParameterType::String, true, None, rules)]);
    let ok = resolve_parameters(&tool.parameters, &object(vec![("code", text("abc"))]), &vec![]);
    assert!(ok.is_ok());
    let bad = resolve_parameters(&tool.parameters, &object(vec![("code", text("abcd"))]), &vec![]);
    assert!(bad.is_err());
}

#[test]
fn prefixed_env_name_is_upper_case() {
    assert_eq!(tool_prefixed_env_name("my_param1"), "TOOL_MY_PARAM1");
}

#[test]
fn required_working_dir_without_any_is_rejected() {
    let mut t = tool(vec![]);
    t.working_dir_required = true;
    let params = JsonObject::new();
    let result = requested_working_dir(&t, &params, None, &settings());
    assert_eq!(
        validation_message(result.err().expect("required")),
        "working directory is required for this tool"
    );
}

#[test]
fn working_dir_argument_wins_when_exposed() {
    let mut t = tool(vec![]);
    t.working_dir_expose = true;
    t.working_dir = Some("/srv/tool".to_string());
    let mut params = JsonObject::new();
    params.insert("working_dir".to_string(), text("  /tmp/work  "));
    let result = requested_working_dir(&t, &params, Some("/run"), &settings()).expect("ok");
    assert_eq!(result, Some("/tmp/work".to_string()));
    let mut bad = JsonObject::new();
    bad.insert("working_dir".to_string(), JsonValue::Bool(true));
    let err = requested_working_dir(&t, &bad, None, &settings());
    assert_eq!(validation_message(err.err().expect("not a path")), "working_dir must be a string path");
}

#[test]
fn run_working_dir_comes_before_the_tool_one() {
    let mut t = tool(vec![]);
    t.working_dir = Some("/srv/tool".to_string());
    let params = JsonObject::new();
    let result = requested_working_dir(&t, &params, Some(" /run "), &settings()).expect("ok");
    assert_eq!(result, Some("/run".to_string()));
    let fallback = requested_working_dir(&t, &params, Some("   "), &settings()).expect("ok");
    assert_eq!(fallback, Some("/srv/tool".to_string()));
}

fn canonical(display: &str, components: &[&str], is_dir: bool) -> CanonicalPath {
    CanonicalPath {
        display: display.to_string(),
        components: components.iter().map(|c| c.to_string()).collect(),
        is_dir,
    }
}

#[test]
fn working_dir_must_lie_under_an_allowed_base() {
    let resolved = Ok(canonical("/home/me/work", &["/", "home", "me", "work"], true));
    let allowed = vec!["/home/me".to_string()];
    let bases = vec![Some(canonical("/home/me", &["/", "home", "me"], true))];
    let ok = allowed_working_dir("/home/me/work", &resolved, &allowed, &bases).expect("inside");
    assert_eq!(ok, "/home/me/work");

    let other = vec![Some(canonical("/srv", &["/", "srv"], true))];
    let outside = allowed_working_dir("/home/me/work", &resolved, &allowed, &other);
    assert_eq!(
        validation_message(outside.err().expect("outside")),
        "working directory `/home/me/work` is outside the allowed base paths"
    );

    let none = allowed_working_dir("/home/me/work", &resolved, &vec![], &vec![]);
    assert_eq!(validation_message(none.err().expect("none")), "no allowed base paths are configured");

    let missing = allowed_working_dir("/home/me/work", &resolved, &allowed, &vec![None]);
    assert_eq!(
        validation_message(missing.err().expect("inaccessible")),
        "allowed base paths do not contain an accessible directory"
    );

    let file = Ok(canonical("/home/me/file.txt", &["/", "home", "me", "file.txt"], false));
    let not_dir = allowed_working_dir("/home/me/file.txt", &file, &allowed, &bases);
    assert_eq!(
        validation_message(not_dir.err().expect("file")),
        "working directory `/home/me/file.txt` is not a directory"
    );

    let gone: Result<CanonicalPath, String> = Err("No such file or directory (os error 2)".to_string());
    let gone_result = allowed_working_dir("/nope", &gone, &allowed, &bases);
    assert_eq!(
        validation_message(gone_result.err().expect("gone")),
        "working directory `/nope` is not accessible: No such file or directory (os error 2)"
    );
}

#[test]
fn plan_logs_arguments_with_the_working_dir() {
    let t = tool(vec![parameter("name", ParameterType::String, true, None, ValidationRules::empty())]);
    let resolved = resolve_parameters(&t.parameters, &object(vec![("name", text("x"))]), &vec![]).expect("ok");
    let (instance, plan) = assemble_plan(&t, resolved, Some("/tmp".to_string()));
    assert_eq!(plan.working_dir, Some("/tmp".to_string()));
    match &plan.params_json {
        JsonValue::Object(o) => {
            assert!(o.contains_key("name"));
            assert!(o.contains_key("working_dir"));
        }
        _ => panic!("arguments must be an object"),
    }
    match &instance {
        JsonValue::Object(o) => {
            assert!(o.contains_key("name"));
            assert!(!o.contains_key("working_dir"));
        }
        _ => panic!("schema instance must be an object"),
    }
}

#[test]
fn hidden_working_dir_argument_is_ignored() {
    let t = tool(vec![parameter("name", ParameterType::String, true, None, ValidationRules::empty())]);
    let with = resolve_parameters(
        &t.parameters,
        &object(vec![("name", text("x")), ("working_dir", text("/etc"))]),
        &vec![],
    )
    .expect("resolves");
    let without = resolve_parameters(&t.parameters, &object(vec![("name", text("x"))]), &vec![]).expect("resolves");
    assert_eq!(with.env, without.env);
    assert!(!with.normalized.contains_key("working_dir"));
    let (instance, _) = assemble_plan(&t, with, None);
    match instance {
        JsonValue::Object(o) => assert!(!o.contains_key("working_dir")),
        _ => panic!("object expected"),
    }
}

#[test]
fn each_value_is_exported_once_under_both_names() {
    let t = tool(vec![
        parameter("alpha", ParameterType::String, false, Some(text("a")), ValidationRules::empty()),
        parameter("beta", ParameterType::String, false, None, ValidationRules::empty()),
        parameter("gamma", ParameterType::String, true, None, ValidationRules::empty()),
    ]);
    let resolved = resolve_parameters(&t.parameters, &object(vec![("gamma", text("g"))]), &vec![]).expect("ok");
    let names: Vec<&str> = resolved.env.iter().map(|(k, _)| k.as_str()).collect();
    assert_eq!(names, vec!["alpha", "TOOL_ALPHA", "gamma", "TOOL_GAMMA"]);
    assert!(resolved.normalized.contains_key("alpha"));
    assert!(!resolved.normalized.contains_key("beta"));
    assert!(resolved.normalized.contains_key("gamma"));
}
