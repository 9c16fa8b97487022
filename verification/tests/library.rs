use conjure::capture::LimitedCapture;
use conjure::cli::{http_port, parse_command, parse_port, parse_port_argument, Command};
use conjure::command::{
    command_for_tool, command_preview, powershell_command, powershell_script_file, powershell_summary,
    script_shell, ToolCommand, POWERSHELL_UTF8_PRELUDE,
};
use conjure::default_tools::{codex_debate_script, default_tools};
use conjure::domain::{
    category_name_from_input, default_enabled, default_timeout_ms, sanitize_category, validate_new_tool,
    validate_parameter_name, validate_script_source, validate_timeout, validate_tool_name,
    validate_update_tool, CategoryRequest, EnabledRequest, ExecutionSource, ExecutionStatus, NewTool,
    ParameterType, UpdateTool, DEFAULT_TIMEOUT_MS, OUTPUT_LIMIT_BYTES,
};
use conjure::error::AppError;
use conjure::json::{JsonNumber, JsonObject, JsonValue};
use conjure::paths::{default_database_path, frontend_dist_candidates, frontend_dist_dir, platform_data_dir, Platform};
use conjure::logs::{filter_call_logs, log_matches_filter, CallLog, LogFilter};
use conjure::mcp::{
    call_tool_request, call_tool_result, check_callable, classify_method, empty_params, initialize_result,
    response_id, response_message, tools_changed_notification, unsupported_method, JsonRpcMessage, McpMethod,
};
use conjure::registry::{registered_tool_from_tool, RegistryNotification, ToolRegistry};
use conjure::rules::{validate_parameter, validate_parameter_update, NewParameter, ToolParameter, UpdateParameter, ValidationRules};
use conjure::run::{
    classify_exit, effective_timeout_ms, execution_error_result, format_mcp_result_text, stream_event_name,
    ExecutionResult, WaitOutcome,
};
use conjure::settings::{clean_paths, default_settings, sanitize_settings, stored_mcp_endpoint, UpdateSettings};
use conjure::store::{
    check_export_version, exported_tool_from_tool, import_category_names, merge_tool_update,
    new_tool_from_exported_tool, prepare_new_tool, rename_category_plan, tool_not_found,
};
use conjure::text::{normalize_optional_text, same_text};
use conjure::tool::{Timestamp, Tool};

fn now() -> Timestamp {
    Timestamp { seconds: 1_700_000_000, nanos: 0 }
}

fn tool(name: &str, script: &str) -> Tool {
    Tool {
        id: 0x1234,
        name: name.to_string(),
        description: "Sample".to_string(),
        category: None,
        script_body: Some(script.to_string()),
        script_path: None,
        working_dir: None,
        working_dir_expose: false,
        working_dir_required: false,
        timeout_ms: 1_000,
        enabled: true,
        created_at: now(),
        updated_at: now(),
        parameters: vec![],
        last_run_at: None,
    }
}

fn new_tool(name: &str) -> NewTool {
    NewTool {
        name: name.to_string(),
        description: "d".to_string(),
        category: Some("  Ops  ".to_string()),
        script_body: Some("echo ok".to_string()),
        script_path: None,
        working_dir: Some("   ".to_string()),
        working_dir_expose: false,
        working_dir_required: false,
        timeout_ms: 1_000,
        enabled: true,
    }
}

fn validation(e: AppError) -> String {
    match e {
        AppError::Validation(m) => m,
        other => panic!("expected validation error, got {:?}", other),
    }
}

fn result(stdout: &str, stderr: &str, status: ExecutionStatus) -> ExecutionResult {
    ExecutionResult {
        stdout: stdout.to_string(),
        stderr: stderr.to_string(),
        exit_code: Some(0),
        duration_ms: 5,
        status,
        stdout_truncated: false,
        stderr_truncated: false,
    }
}

#[test]
fn script_body_uses_platform_default_shell() {
    let tool = tool("echo_env", "Write-Output 'ok'");

    let unix = command_for_tool(&tool, false).expect("command");
    match unix {
        ToolCommand::Shell { summary, .. } => assert!(summary.starts_with("sh -c ")),
        _ => panic!("a script body runs through the shell"),
    }

    let windows = command_for_tool(&tool, true).expect("command");
    match windows {
        ToolCommand::PowerShellFile { script } => {
            assert_eq!(script, "Write-Output 'ok'");
            let summary = powershell_summary("C:\\Temp\\conjure-1.ps1");
            assert!(summary.starts_with("powershell.exe -NoProfile -ExecutionPolicy Bypass -File "));
        }
        _ => panic!("a script body runs through PowerShell on Windows"),
    }
}

#[test]
fn script_path_runs_directly_and_empty_tools_are_refused() {
    let mut t = tool("x", "   ");
    t.script_path = Some("/usr/local/bin/run.sh".to_string());
    match command_for_tool(&t, false).expect("path") {
        ToolCommand::Program { path, summary } => {
            assert_eq!(path, "/usr/local/bin/run.sh");
            assert_eq!(summary, "/usr/local/bin/run.sh");
        }
        _ => panic!("a script path runs directly"),
    }
    t.script_path = None;
    let err = command_for_tool(&t, false).err().expect("nothing to run");
    assert_eq!(validation(err), "tool must include script_body or script_path");
}

#[test]
fn shell_command_summary_previews_the_script() {
    let t = tool("x", "echo   one\n\techo two");
    match command_for_tool(&t, false).expect("command") {
        ToolCommand::Shell { shell, flag, script, summary } => {
            assert_eq!(shell, "sh");
            assert_eq!(flag, "-c");
            assert_eq!(script, "echo   one\n\techo two");
            assert_eq!(summary, "sh -c echo one echo two");
        }
        _ => panic!("shell expected"),
    }
    let (shell, flag) = script_shell();
    assert_eq!((shell.as_str(), flag), ("sh", "-c"));
}

#[test]
fn command_preview_squeezes_and_cuts() {
    assert_eq!(command_preview("  a \n b  "), "a b");
    let long = "x".repeat(200);
    let preview = command_preview(&long);
    assert_eq!(preview, format!("{}...", "x".repeat(160)));
    assert_eq!(command_preview(&"y".repeat(160)), "y".repeat(160));
}

#[test]
fn powershell_file_starts_with_bom_and_prelude() {
    let bytes = powershell_script_file("Write-Output 'é'");
    let mut expected = vec![0xEF, 0xBB, 0xBF];
    expected.extend_from_slice(POWERSHELL_UTF8_PRELUDE.as_bytes());
    expected.extend_from_slice("Write-Output 'é'".as_bytes());
    assert_eq!(bytes, expected);
    let (program, args) = powershell_command();
    assert_eq!(program, "powershell.exe");
    assert_eq!(args, vec!["-NoProfile", "-ExecutionPolicy", "Bypass", "-File"]);
}

#[test]
fn response_id_accepts_only_json_rpc_request_ids() {
    assert!(matches!(response_id(Some(JsonValue::String("abc".to_string()))), Some(JsonValue::String(s)) if s == "abc"));
    assert!(matches!(
        response_id(Some(JsonValue::Number(JsonNumber::PosInt(7)))),
        Some(JsonValue::Number(JsonNumber::PosInt(7)))
    ));
    assert!(response_id(None).is_none());
    assert!(response_id(Some(JsonValue::Null)).is_none());
    let mut bad = JsonObject::new();
    bad.insert("bad".to_string(), JsonValue::Bool(true));
    assert!(response_id(Some(JsonValue::Object(bad))).is_none());
}

#[test]
fn notification_message_has_no_response_fields() {
    let message = tools_changed_notification();

    let serialized = message.to_json();
    let object = match &serialized {
        JsonValue::Object(o) => o,
        _ => panic!("a message is an object"),
    };

    assert!(matches!(object.get("jsonrpc"), Some(JsonValue::String(s)) if s == "2.0"));
    assert!(matches!(object.get("method"), Some(JsonValue::String(s)) if s == "notifications/tools/list_changed"));
    assert!(object.get("id").is_none());
    assert!(object.get("result").is_none());
    assert!(object.get("error").is_none());
}

#[test]
fn error_response_carries_the_error_text() {
    let message = response_message(
        JsonValue::Number(JsonNumber::PosInt(3)),
        Err(AppError::NotFound("tool `x`".to_string())),
    );
    let error = message.error.as_ref().expect("error");
    assert_eq!(error.code, -32000);
    assert_eq!(error.message, "not found: tool `x`");
    assert!(message.result.is_none());
    let json = message.to_json();
    match json {
        JsonValue::Object(o) => {
            assert!(o.contains_key("id"));
            assert!(o.contains_key("error"));
            assert!(!o.contains_key("result"));
            assert!(!o.contains_key("method"));
        }
        _ => panic!("object expected"),
    }
    let ok = response_message(JsonValue::String("a".to_string()), Ok(empty_params()));
    assert!(ok.error.is_none());
    assert!(ok.result.is_some());
}

#[test]
fn methods_are_classified() {
    assert_eq!(classify_method("initialize"), McpMethod::Initialize);
    assert_eq!(classify_method("notifications/initialized"), McpMethod::Initialized);
    assert_eq!(classify_method("tools/list"), McpMethod::ListTools);
    assert_eq!(classify_method("tools/call"), McpMethod::CallTool);
    assert_eq!(classify_method("tools/other"), McpMethod::Unsupported);
    match unsupported_method("ping") {
        AppError::InvalidRequest(m) => assert_eq!(m, "unsupported MCP method `ping`"),
        _ => panic!("invalid request expected"),
    }
}

#[test]
fn initialize_names_the_server() {
    let r = initialize_result("0.1.0");
    match r {
        JsonValue::Object(o) => {
            assert!(matches!(o.get("protocolVersion"), Some(JsonValue::String(s)) if s == "2024-11-05"));
            match o.get("serverInfo") {
                Some(JsonValue::Object(info)) => {
                    assert!(matches!(info.get("name"), Some(JsonValue::String(s)) if s == "conjure-mcp-tool-platform"));
                    assert!(matches!(info.get("version"), Some(JsonValue::String(s)) if s == "0.1.0"));
                }
                _ => panic!("serverInfo expected"),
            }
        }
        _ => panic!("object expected"),
    }
}

#[test]
fn tools_call_requires_a_name() {
    let mut params = JsonObject::new();
    params.insert("name".to_string(), JsonValue::String("echo".to_string()));
    let (name, arguments) = call_tool_request(&JsonValue::Object(params)).expect("named");
    assert_eq!(name, "echo");
    assert!(matches!(arguments, JsonValue::Object(o) if o.entries.is_empty()));
    let err = call_tool_request(&JsonValue::Null).err().expect("no name");
    assert_eq!(validation(err), "tools/call requires params.name");
    let mut numeric = JsonObject::new();
    numeric.insert("name".to_string(), JsonValue::Number(JsonNumber::PosInt(1)));
    assert!(call_tool_request(&JsonValue::Object(numeric)).is_err());
}

#[test]
fn only_enabled_tools_are_callable() {
    let mut t = tool("echo", "echo");
    assert!(check_callable(Some(&t), "echo").is_ok());
    t.enabled = false;
    assert_eq!(validation(check_callable(Some(&t), "echo").err().unwrap()), "tool `echo` is disabled");
    match check_callable(None, "ghost").err().unwrap() {
        AppError::NotFound(m) => assert_eq!(m, "tool `ghost`"),
        _ => panic!("not found expected"),
    }
}

#[test]
fn call_result_flags_failures() {
    match call_tool_result(&result("out", "", ExecutionStatus::Error)) {
        JsonValue::Object(o) => {
            assert!(matches!(o.get("isError"), Some(JsonValue::Bool(true))));
            match o.get("content") {
                Some(JsonValue::Array(items)) => {
                    assert_eq!(items.len(), 1);
                    match &items[0] {
                        JsonValue::Object(item) => {
                            assert!(matches!(item.get("type"), Some(JsonValue::String(s)) if s == "text"));
                            assert!(matches!(item.get("text"), Some(JsonValue::String(s)) if s == "out"));
                        }
                        _ => panic!("item expected"),
                    }
                }
                _ => panic!("content expected"),
            }
        }
        _ => panic!("object expected"),
    }
}

#[test]
fn mcp_result_text_combines_streams() {
    assert_eq!(format_mcp_result_text(&result("out", "", ExecutionStatus::Success)), "out");
    assert_eq!(format_mcp_result_text(&result("out", "err", ExecutionStatus::Error)), "out\nstderr:\nerr");
    assert_eq!(format_mcp_result_text(&result("", "err", ExecutionStatus::Error)), "stderr:\nerr");
    assert_eq!(format_mcp_result_text(&result("", "", ExecutionStatus::Success)), "(no output)");
}

#[test]
fn run_outcomes_are_classified() {
    assert_eq!(
        classify_exit(WaitOutcome::Exited { success: true, code: Some(0) }),
        (Some(0), ExecutionStatus::Success)
    );
    assert_eq!(
        classify_exit(WaitOutcome::Exited { success: false, code: Some(3) }),
        (Some(3), ExecutionStatus::Error)
    );
    assert_eq!(classify_exit(WaitOutcome::TimedOut), (None, ExecutionStatus::Timeout));
    assert_eq!(effective_timeout_ms(0), 1);
    assert_eq!(effective_timeout_ms(-5), 1);
    assert_eq!(effective_timeout_ms(25), 25);
    assert_eq!(stream_event_name(true, Some(true)), "done");
    assert_eq!(stream_event_name(false, Some(true)), "stdout");
    assert_eq!(stream_event_name(false, Some(false)), "stderr");
    assert_eq!(stream_event_name(false, None), "message");
    let failed = execution_error_result(&AppError::Execution("spawn failed".to_string()), 12);
    assert_eq!(failed.stderr, "execution error: spawn failed");
    assert_eq!(failed.stdout, "");
    assert_eq!(failed.status, ExecutionStatus::Error);
    assert_eq!(failed.duration_ms, 12);
}

#[test]
fn errors_have_status_codes_and_messages() {
    assert_eq!(AppError::Validation("x".to_string()).status_code(), 400);
    assert_eq!(AppError::InvalidRequest("x".to_string()).status_code(), 400);
    assert_eq!(AppError::NotFound("x".to_string()).status_code(), 404);
    assert_eq!(AppError::Internal("x".to_string()).status_code(), 500);
    assert_eq!(AppError::Database("x".to_string()).status_code(), 500);
    assert_eq!(AppError::Validation("bad".to_string()).message(), "validation error: bad");
    assert_eq!(AppError::Io("disk".to_string()).message(), "io error: disk");
}

#[test]
fn capture_stops_at_the_limit() {
    let mut capture = LimitedCapture::new(10);
    capture.push_line("abc");
    assert_eq!(capture.output, "abc\n");
    assert!(!capture.truncated);
    capture.push_line("defghij");
    assert_eq!(capture.output, "abc\ndefghi");
    assert!(capture.truncated);
    capture.push_line("more");
    assert_eq!(capture.output, "abc\ndefghi");
    assert!(capture.truncated);
    assert!(capture.output.len() <= 10);
}

#[test]
fn capture_of_an_error_is_a_line() {
    let capture = LimitedCapture::from_error("spawn failed");
    assert_eq!(capture.output, "spawn failed\n");
    assert!(!capture.truncated);
    let long = "e".repeat(OUTPUT_LIMIT_BYTES + 5);
    let big = LimitedCapture::from_error(&long);
    assert_eq!(big.output.len(), OUTPUT_LIMIT_BYTES);
    assert!(big.truncated);
}

#[test]
fn tool_names_and_parameter_names_are_checked() {
    assert!(validate_tool_name("claude_debate").is_ok());
    assert!(validate_tool_name("a-b_c9").is_ok());
    assert_eq!(
        validation(validate_tool_name("9lives").err().unwrap()),
        "tool name must start with a letter and contain only letters, numbers, `_`, or `-`"
    );
    assert!(validate_tool_name("").is_err());
    assert!(validate_tool_name(&"a".repeat(65)).is_err());
    assert!(validate_tool_name(&"a".repeat(64)).is_ok());
    assert!(validate_parameter_name("_TARGET1").is_ok());
    assert_eq!(
        validation(validate_parameter_name("bad-name").err().unwrap()),
        "parameter name must be a valid environment variable name"
    );
}

#[test]
fn timeouts_and_sources_are_checked() {
    assert!(validate_timeout(1).is_ok());
    assert!(validate_timeout(3_600_000).is_ok());
    assert_eq!(validation(validate_timeout(0).err().unwrap()), "timeout_ms must be between 1 and 3600000");
    assert!(validate_timeout(3_600_001).is_err());
    assert!(validate_script_source(Some("echo"), None).is_ok());
    assert!(validate_script_source(None, Some("/bin/x")).is_ok());
    assert_eq!(
        validation(validate_script_source(Some("  "), None).err().unwrap()),
        "tool must include script_body or script_path"
    );
    assert_eq!(default_timeout_ms(), DEFAULT_TIMEOUT_MS);
    assert!(default_enabled());
}

#[test]
fn new_tools_are_validated_in_order() {
    assert!(validate_new_tool(&new_tool("ok_tool")).is_ok());
    let mut t = new_tool("1bad");
    t.timeout_ms = 0;
    assert!(validation(validate_new_tool(&t).err().unwrap()).starts_with("tool name"));
    let mut u = new_tool("good");
    u.timeout_ms = 0;
    assert_eq!(validation(validate_new_tool(&u).err().unwrap()), "timeout_ms must be between 1 and 3600000");
    let update = UpdateTool {
        name: None,
        description: None,
        category: None,
        script_body: None,
        script_path: None,
        working_dir: None,
        working_dir_expose: None,
        working_dir_required: None,
        timeout_ms: Some(-1),
        enabled: None,
    };
    assert!(validate_update_tool(&update).is_err());
}

#[test]
fn prepared_tools_are_trimmed() {
    let saved = prepare_new_tool(new_tool("ok_tool")).expect("valid");
    assert_eq!(saved.category, Some("Ops".to_string()));
    assert_eq!(saved.working_dir, None);
    assert!(prepare_new_tool(new_tool("")).is_err());
}

#[test]
fn enum_names_round_trip() {
    for t in [ParameterType::String, ParameterType::Number, ParameterType::Boolean, ParameterType::Enum, ParameterType::Path] {
        assert_eq!(ParameterType::try_from(t.as_str()).unwrap(), t);
    }
    for s in [ExecutionSource::ManualTest, ExecutionSource::Mcp] {
        assert_eq!(ExecutionSource::try_from(s.as_str()).unwrap(), s);
    }
    for s in [ExecutionStatus::Success, ExecutionStatus::Error, ExecutionStatus::Timeout] {
        assert_eq!(ExecutionStatus::try_from(s.as_str()).unwrap(), s);
    }
    assert_eq!(
        validation(ParameterType::try_from("integer").err().unwrap()),
        "unsupported parameter type `integer`"
    );
    assert_eq!(
        validation(ExecutionStatus::try_from("done").err().unwrap()),
        "unsupported execution status `done`"
    );
    assert_eq!(
        validation(ExecutionSource::try_from("cli").err().unwrap()),
        "unsupported execution source `cli`"
    );
}

#[test]
fn parameter_rules_are_checked() {
    let mut rules = ValidationRules::empty();
    let enum_param = NewParameter {
        name: "mode".to_string(),
        parameter_type: ParameterType::Enum,
        description: None,
        required: false,
        default_value: None,
        validation: ValidationRules::empty(),
        position: 0,
    };
    assert_eq!(validation(validate_parameter(&enum_param).err().unwrap()), "enum parameters must define enum_values");
    rules.integer = true;
    let string_param = NewParameter {
        name: "s".to_string(),
        parameter_type: ParameterType::String,
        description: None,
        required: false,
        default_value: None,
        validation: rules,
        position: 0,
    };
    assert_eq!(
        validation(validate_parameter(&string_param).err().unwrap()),
        "integer validation only applies to number parameters"
    );
    let mut regex_rules = ValidationRules::empty();
    regex_rules.regex = Some("(".to_string());
    let regex_param = NewParameter {
        name: "s".to_string(),
        parameter_type: ParameterType::String,
        description: None,
        required: false,
        default_value: None,
        validation: regex_rules,
        position: 0,
    };
    assert!(validation(validate_parameter(&regex_param).err().unwrap()).starts_with("invalid regex: "));
    let update = UpdateParameter {
        name: Some("bad name".to_string()),
        parameter_type: None,
        description: None,
        required: None,
        default_value: None,
        validation: None,
        position: None,
    };
    assert!(validate_parameter_update(&update).is_err());
}

#[test]
fn categories_are_trimmed() {
    assert_eq!(sanitize_category(Some("  Ops ".to_string())), Some("Ops".to_string()));
    assert_eq!(sanitize_category(Some("   ".to_string())), None);
    assert_eq!(category_name_from_input(" AI ".to_string()).unwrap(), "AI");
    assert_eq!(validation(category_name_from_input("  ".to_string()).err().unwrap()), "category name is required");
    let request = CategoryRequest { name: "Ops".to_string() };
    assert_eq!(request.name, "Ops");
    let enabled = EnabledRequest { enabled: true };
    assert!(enabled.enabled);
}

#[test]
fn category_renames_move_tools_unless_only_case_changes() {
    let plan = rename_category_plan(" Ops ".to_string(), "Platform".to_string()).unwrap();
    assert_eq!(plan.previous, "Ops");
    assert_eq!(plan.next, "Platform");
    assert!(plan.moves_tools);
    let case_only = rename_category_plan("ops".to_string(), "OPS".to_string()).unwrap();
    assert!(!case_only.moves_tools);
    assert!(rename_category_plan(" ".to_string(), "x".to_string()).is_err());
    assert_eq!(import_category_names(&vec![" A ".to_string(), "".to_string(), "B".to_string()]), vec!["A", "B"]);
}

#[test]
fn text_helpers() {
    assert!(same_text("Hello", "hELLO"));
    assert!(!same_text("Hello", "Hell"));
    assert_eq!(normalize_optional_text(Some("  x ")), Some("x".to_string()));
    assert_eq!(normalize_optional_text(Some(" \t ")), None);
    assert_eq!(normalize_optional_text(None), None);
}

#[test]
fn settings_are_cleaned() {
    let submitted = UpdateSettings {
        default_working_dir: Some("  /tmp ".to_string()),
        allowed_base_paths: vec!["/tmp".to_string(), " /TMP ".to_string(), "".to_string(), "/home".to_string()],
        default_timeout_ms: Some(120_000),
        mcp_endpoint: Some("   ".to_string()),
    };
    let s = sanitize_settings(submitted, "conjure --mcp".to_string()).expect("valid");
    assert_eq!(s.default_working_dir, Some("/tmp".to_string()));
    assert_eq!(s.allowed_base_paths, vec!["/tmp".to_string(), "/home".to_string()]);
    assert_eq!(s.default_timeout_ms, 120_000);
    assert_eq!(s.mcp_endpoint, "conjure --mcp");
    let bad = UpdateSettings {
        default_working_dir: None,
        allowed_base_paths: vec![],
        default_timeout_ms: Some(0),
        mcp_endpoint: None,
    };
    assert!(sanitize_settings(bad, "x".to_string()).is_err());
    assert_eq!(clean_paths(&vec![" a ".to_string(), "A".to_string()]), vec!["a".to_string()]);
    let d = default_settings(Some("/work".to_string()), "conjure --mcp".to_string());
    assert_eq!(d.allowed_base_paths, vec!["/work".to_string()]);
    assert_eq!(d.default_timeout_ms, DEFAULT_TIMEOUT_MS);
    assert_eq!(stored_mcp_endpoint("http://127.0.0.1:7878/mcp", "conjure --mcp".to_string()), "conjure --mcp");
    assert_eq!(stored_mcp_endpoint(" http://127.0.0.1:9999/mcp ", "x".to_string()), "http://127.0.0.1:9999/mcp");
}

#[test]
fn command_line_is_read() {
    let args = |v: &[&str]| v.iter().map(|s| s.to_string()).collect::<Vec<String>>();
    assert_eq!(parse_command(&args(&[])).unwrap(), Command::Serve { port: None });
    assert_eq!(parse_command(&args(&["--mcp"])).unwrap(), Command::Mcp);
    assert_eq!(parse_command(&args(&["--port", "8080"])).unwrap(), Command::Serve { port: Some(8080) });
    assert_eq!(parse_command(&args(&["--port=9000"])).unwrap(), Command::Serve { port: Some(9000) });
    assert_eq!(parse_command(&args(&["-h"])).unwrap(), Command::Help);
    assert_eq!(parse_command(&args(&["--mcp", "--port", "1"])).unwrap_err(), "`--mcp` and `--port` cannot be used together");
    assert_eq!(parse_command(&args(&["--port"])).unwrap_err(), "`--port` requires a value");
    assert_eq!(parse_command(&args(&["--verbose"])).unwrap_err(), "unknown argument `--verbose`");
    assert_eq!(
        parse_command(&args(&["--port", "70000"])).unwrap_err(),
        "invalid port `70000`: number too large to fit in target type"
    );
}

#[test]
fn ports_are_parsed_as_u16() {
    assert_eq!(parse_port("5174").unwrap(), 5174);
    assert_eq!(parse_port("+80").unwrap(), 80);
    assert_eq!(parse_port("").unwrap_err(), "invalid port ``: cannot parse integer from empty string");
    assert_eq!(parse_port("8o").unwrap_err(), "invalid port `8o`: invalid digit found in string");
    assert_eq!(parse_port("-1").unwrap_err(), "invalid port `-1`: invalid digit found in string");
    assert_eq!(parse_port_argument(None).unwrap_err(), "`--port` requires a value");
    for port in [0u16, 1, 80, 5174, 65535] {
        assert_eq!(parse_port(&port.to_string()).unwrap(), port);
    }
    assert_eq!(http_port(Some(1), Some("2")), 1);
    assert_eq!(http_port(None, Some("2")), 2);
    assert_eq!(http_port(None, Some("x")), 5174);
    assert_eq!(http_port(None, None), 5174);
}

#[test]
fn registry_lists_one_entry_per_tool_with_distinct_names() {
    let mut registry = ToolRegistry::new();
    let names = ["delta", "alpha", "charlie", "bravo"];
    let tools: Vec<_> = names
        .iter()
        .enumerate()
        .map(|(i, name)| {
            let mut t = tool(name, "echo");
            t.id = i as u128 + 10;
            t
        })
        .collect();
    registry.sync_from_tools(&tools);
    let listed = registry.list_tools();
    assert_eq!(listed.len(), tools.len());
    let listed_names: Vec<&str> = listed.iter().map(|t| t.name.as_str()).collect();
    assert_eq!(listed_names, vec!["alpha", "bravo", "charlie", "delta"]);
    for t in &tools {
        let entry = listed.iter().find(|e| e.name == t.name).expect("listed");
        assert_eq!(entry.id, t.id);
        assert_eq!(entry.description, t.description);
    }
}

#[test]
fn registry_keeps_the_last_tool_of_each_name_in_order() {
    let mut registry = ToolRegistry::new();
    assert!(registry.list_tools().is_empty());
    let mut first = tool("zeta", "echo 1");
    first.id = 1;
    let mut second = tool("alpha", "echo 2");
    second.id = 2;
    let mut third = tool("zeta", "echo 3");
    third.id = 3;
    registry.sync_from_tools(&vec![first, second, third]);
    let listed = registry.list_tools();
    let names: Vec<&str> = listed.iter().map(|t| t.name.as_str()).collect();
    assert_eq!(names, vec!["alpha", "zeta"]);
    assert_eq!(registry.get_by_name("zeta").expect("zeta").id, 3);
    assert!(registry.get_by_name("missing").is_none());
    registry.sync_from_tools(&vec![]);
    assert!(registry.list_tools().is_empty());
    assert_eq!(RegistryNotification::ToolsListChanged.as_str(), "tools_list_changed");
    let registered = registered_tool_from_tool(&tool("beta", "echo"));
    assert_eq!(registered.name, "beta");
    assert!(matches!(registered.input_schema, JsonValue::Object(_)));
}

#[test]
fn export_then_import_keeps_the_definition() {
    let mut t = tool("export_test", "echo \"$TARGET\"");
    t.category = Some("Ops".to_string());
    t.working_dir = Some("/tmp".to_string());
    t.parameters.push(ToolParameter {
        id: 9,
        tool_id: t.id,
        name: "TARGET".to_string(),
        parameter_type: ParameterType::String,
        description: Some("target value".to_string()),
        required: true,
        default_value: Some(JsonValue::String("world".to_string())),
        validation: ValidationRules::empty(),
        position: 0,
    });
    let exported = exported_tool_from_tool(&t);
    assert_eq!(exported.parameters.len(), 1);
    assert_eq!(exported.parameters[0].name, "TARGET");
    let imported = new_tool_from_exported_tool(&exported);
    assert_eq!(imported.name, t.name);
    assert_eq!(imported.category, t.category);
    assert_eq!(imported.script_body, t.script_body);
    assert_eq!(imported.working_dir, t.working_dir);
    assert_eq!(imported.timeout_ms, t.timeout_ms);
    assert!(check_export_version(1).is_ok());
    assert_eq!(validation(check_export_version(2).err().unwrap()), "unsupported tools export version `2`");
}

#[test]
fn empty_update_keeps_the_tool() {
    let mut t = tool("keep", "echo");
    t.category = Some("Ops".to_string());
    let update = UpdateTool {
        name: None,
        description: None,
        category: None,
        script_body: None,
        script_path: None,
        working_dir: None,
        working_dir_expose: None,
        working_dir_required: None,
        timeout_ms: None,
        enabled: None,
    };
    let merged = merge_tool_update(&t, update);
    assert_eq!(merged.name, "keep");
    assert_eq!(merged.category, Some("Ops".to_string()));
    assert_eq!(merged.timeout_ms, 1_000);
    let rename = UpdateTool {
        name: Some("renamed".to_string()),
        description: None,
        category: Some("  ".to_string()),
        script_body: None,
        script_path: None,
        working_dir: None,
        working_dir_expose: None,
        working_dir_required: None,
        timeout_ms: None,
        enabled: Some(false),
    };
    let changed = merge_tool_update(&t, rename);
    assert_eq!(changed.name, "renamed");
    assert_eq!(changed.category, None);
    assert!(!changed.enabled);
}

#[test]
fn not_found_errors_name_the_id() {
    match tool_not_found(0x0123_4567_89ab_cdef_0123_4567_89ab_cdef) {
        AppError::NotFound(m) => assert_eq!(m, "tool `01234567-89ab-cdef-0123-456789abcdef`"),
        _ => panic!("not found expected"),
    }
}

#[test]
fn default_tools_are_the_codex_debate_and_validate() {
    let tools = default_tools();
    assert_eq!(tools.len(), 1);
    assert_eq!(tools[0].name(), "codex_debate");
    for spec in &tools {
        let definition = spec.new_tool();
        assert!(validate_new_tool(&definition).is_ok());
        assert!(!definition.enabled);
        assert!(definition.working_dir_expose);
        assert!(!definition.working_dir_required);
        assert_eq!(definition.category, Some("AI".to_string()));
        assert_eq!(definition.timeout_ms, 300_000);
        assert_eq!(definition.script_path, None);
        assert_eq!(definition.script_body, Some(codex_debate_script()));
        let names: Vec<&str> = spec.parameters().iter().map(|p| p.name()).collect();
        assert_eq!(names, vec!["topic", "codex_position", "context", "mode", "language", "model"]);
        for (position, parameter) in spec.parameters().iter().enumerate() {
            let p = parameter.new_parameter(position as i64);
            assert!(validate_parameter(&p).is_ok(), "parameter {} must validate", p.name);
            assert_eq!(p.position, position as i64);
        }
    }
    assert!(codex_debate_script().starts_with("#!/usr/bin/env sh"));
    assert!(codex_debate_script().contains("selected_label=\"Codex CLI\""));
    assert!(codex_debate_script().ends_with("run_debate_prompt \"$PROMPT\"\n"));
    let topic = spec_topic();
    assert_eq!(topic.validation.min.as_ref().unwrap().text, "1");
    assert_eq!(topic.validation.max.as_ref().unwrap().json_text, "24000.0");
}

fn spec_topic() -> NewParameter {
    default_tools()[0].parameters()[0].new_parameter(0)
}

#[test]
fn data_directories_follow_platform_conventions() {
    let mac = platform_data_dir(Platform::MacOs, Some("/Users/me".to_string()), None, None).expect("home");
    assert_eq!(mac.base, "/Users/me");
    assert_eq!(mac.segments, vec!["Library", "Application Support", "Conjure"]);
    let win = platform_data_dir(Platform::Windows, None, Some("C:\\AppData".to_string()), None).expect("appdata");
    assert_eq!(win.segments, vec!["Conjure"]);
    let xdg = platform_data_dir(Platform::Other, Some("/home/me".to_string()), None, Some("/data".to_string())).expect("xdg");
    assert_eq!(xdg.base, "/data");
    assert_eq!(xdg.segments, vec!["conjure"]);
    let home = platform_data_dir(Platform::Other, Some("/home/me".to_string()), None, Some("".to_string())).expect("home");
    assert_eq!(home.base, "/home/me");
    assert_eq!(home.segments, vec![".local", "share", "conjure"]);
    assert!(platform_data_dir(Platform::Other, None, None, None).is_none());
    assert!(platform_data_dir(Platform::MacOs, Some("".to_string()), None, None).is_none());

    let db = default_database_path(Some(home)).expect("path");
    assert_eq!(db.segments, vec![".local", "share", "conjure", "conjure.db"]);
    match default_database_path(None).err().unwrap() {
        AppError::Internal(m) => assert_eq!(m, "could not determine Conjure data directory"),
        _ => panic!("internal error expected"),
    }

    let data = platform_data_dir(Platform::Other, None, None, Some("/data".to_string()));
    let candidates = frontend_dist_candidates(Some("/opt/conjure".to_string()), data);
    let listed: Vec<(String, Vec<String>)> = candidates.iter().map(|c| (c.base.clone(), c.segments.clone())).collect();
    assert_eq!(
        listed,
        vec![
            ("frontend/dist".to_string(), vec![]),
            ("/opt/conjure".to_string(), vec!["frontend".to_string()]),
            ("/opt/conjure".to_string(), vec!["frontend/dist".to_string()]),
            ("/data".to_string(), vec!["conjure".to_string(), "frontend".to_string()]),
        ]
    );
    let chosen = frontend_dist_dir(None, candidates, &vec![false, false, true, true]);
    assert_eq!(chosen.base, "/opt/conjure");
    assert_eq!(chosen.segments, vec!["frontend/dist"]);
    let fallback = frontend_dist_dir(None, vec![], &vec![]);
    assert_eq!(fallback.base, "frontend/dist");
    let configured = frontend_dist_dir(Some("/srv/ui".to_string()), vec![], &vec![]);
    assert_eq!(configured.base, "/srv/ui");
    assert!(configured.segments.is_empty());
}

fn log(id: u128, tool: &str, started: i64, status: ExecutionStatus, stdout: &str) -> CallLog {
    CallLog {
        id,
        tool_id: Some(7),
        tool_name: tool.to_string(),
        source: ExecutionSource::Mcp,
        params_json: JsonValue::Object(JsonObject::new()),
        params_text: "{\"target\":\"World\"}".to_string(),
        stdout: stdout.to_string(),
        stderr: String::new(),
        exit_code: Some(0),
        started_at: Timestamp { seconds: started, nanos: 0 },
        finished_at: Timestamp { seconds: started + 1, nanos: 0 },
        duration_ms: 1000,
        status,
    }
}

fn no_filter() -> LogFilter {
    LogFilter { tool_id: None, status: None, from: None, to: None, search: None }
}

#[test]
fn log_filters_select_by_tool_status_time_and_text() {
    // 2023-11-14T22:13:20Z is 1_700_000_000 seconds after the epoch.
    let early = log(1, "alpha", 1_700_000_000, ExecutionStatus::Success, "Hello");
    let late = log(2, "beta", 1_700_000_100, ExecutionStatus::Error, "bye");
    assert!(log_matches_filter(&early, &no_filter()).unwrap());

    let mut by_status = no_filter();
    by_status.status = Some("error".to_string());
    assert!(!log_matches_filter(&early, &by_status).unwrap());
    assert!(log_matches_filter(&late, &by_status).unwrap());

    let mut bad_status = no_filter();
    bad_status.status = Some("finished".to_string());
    assert_eq!(validation(log_matches_filter(&early, &bad_status).err().unwrap()), "unsupported execution status `finished`");

    let mut by_tool = no_filter();
    by_tool.tool_id = Some(8);
    assert!(!log_matches_filter(&early, &by_tool).unwrap());

    let mut from = no_filter();
    from.from = Some("2023-11-14T22:14:00Z".to_string());
    assert!(!log_matches_filter(&early, &from).unwrap());
    assert!(log_matches_filter(&late, &from).unwrap());

    let mut to = no_filter();
    to.to = Some("2023-11-14T23:13:20+01:00".to_string());
    assert!(log_matches_filter(&early, &to).unwrap());
    assert!(!log_matches_filter(&late, &to).unwrap());

    let mut bad_time = no_filter();
    bad_time.from = Some("yesterday".to_string());
    match log_matches_filter(&early, &bad_time).err().unwrap() {
        AppError::Internal(m) => assert!(!m.is_empty()),
        other => panic!("internal error expected, got {:?}", other),
    }

    let mut search = no_filter();
    search.search = Some("WORLD".to_string());
    assert!(log_matches_filter(&early, &search).unwrap());
    search.search = Some("hello".to_string());
    assert!(log_matches_filter(&early, &search).unwrap());
    assert!(!log_matches_filter(&late, &search).unwrap());

    let kept = filter_call_logs(vec![early, late], &by_status).unwrap();
    assert_eq!(kept.len(), 1);
    assert_eq!(kept[0].id, 2);
}

#[test]
fn cleaned_settings_are_kept_when_saved_again() {
    let submitted = UpdateSettings {
        default_working_dir: Some(" /srv/work ".to_string()),
        allowed_base_paths: vec![" /srv ".to_string(), "/SRV".to_string(), "/opt".to_string()],
        default_timeout_ms: None,
        mcp_endpoint: Some(" conjure --mcp ".to_string()),
    };
    let first = sanitize_settings(submitted, "fallback".to_string()).expect("valid");
    let again = UpdateSettings {
        default_working_dir: first.default_working_dir.clone(),
        allowed_base_paths: first.allowed_base_paths.clone(),
        default_timeout_ms: Some(first.default_timeout_ms),
        mcp_endpoint: Some(first.mcp_endpoint.clone()),
    };
    let second = sanitize_settings(again, "fallback".to_string()).expect("valid");
    assert_eq!(second.default_working_dir, first.default_working_dir);
    assert_eq!(second.allowed_base_paths, first.allowed_base_paths);
    assert_eq!(second.allowed_base_paths, vec!["/srv".to_string(), "/opt".to_string()]);
    assert_eq!(second.default_timeout_ms, DEFAULT_TIMEOUT_MS);
    assert_eq!(second.mcp_endpoint, "conjure --mcp");
}

#[test]
fn command_preview_is_the_words_joined_by_single_spaces() {
    for script in ["", "   ", "one", "\tone  two\u{3000}three\n", "a\r\nb\u{85}c  ", "x\u{a0}\u{a0}y"] {
        let words = script.split_whitespace().collect::<Vec<_>>().join(" ");
        assert_eq!(command_preview(script), words);
    }
    let long = (0..60).map(|i| format!("w{i}")).collect::<Vec<_>>().join(" \t ");
    let words = long.split_whitespace().collect::<Vec<_>>().join(" ");
    let expected = format!("{}...", words.chars().take(160).collect::<String>());
    assert_eq!(command_preview(&long), expected);
}

#[test]
fn command_previews_stay_on_one_line() {
    let script = format!("echo a\n\n\techo b {}", "z ".repeat(200));
    let preview = command_preview(&script);
    assert!(!preview.contains('\n'));
    assert!(!preview.contains('\t'));
    assert!(preview.chars().count() <= 163);
    assert!(preview.ends_with("..."));
}
