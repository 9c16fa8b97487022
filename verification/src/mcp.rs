//! The decisions of the MCP server: which requests are answered, what each
//! method answers, and how messages are laid out as JSON.
use vstd::prelude::*;

use crate::domain::ExecutionStatus;
use crate::error::{detail_of, prefix_of, AppError};
use crate::json::{json_view, lemma_object_view, object_map, JsonNumber, JsonObject, JsonValue, JsonView};
use crate::run::{format_mcp_result_text, result_text, ExecutionResult};
use crate::schema::{input_schema, input_schema_map};
use crate::text::{concat3, str_eq};
use crate::tool::Tool;

verus! {

/// The code of every error the server answers with.
pub const SERVER_ERROR_CODE: i64 = -32000;

/// An error as a JSON-RPC message carries it.
#[derive(Debug)]
pub struct JsonRpcError {
    pub code: i64,
    pub message: String,
}

/// A JSON-RPC 2.0 message: a response (with `id` and `result` or `error`)
/// or a notification (with `method` and `params`).
#[derive(Debug)]
pub struct JsonRpcMessage {
    pub id: Option<JsonValue>,
    pub result: Option<JsonValue>,
    pub error: Option<JsonRpcError>,
    pub method: Option<String>,
    pub params: Option<JsonValue>,
}

/// `m` with `k` set to the meaning of `v` when `v` is present.
pub open spec fn with_opt(m: Map<Seq<char>, JsonView>, k: Seq<char>, v: Option<JsonValue>) -> Map<
    Seq<char>,
    JsonView,
> {
    match v {
        Some(x) => m.insert(k, json_view(x)),
        None => m,
    }
}

/// The JSON integer of an `i64`.
pub open spec fn int_view(i: i64) -> JsonView {
    JsonView::Int(i as int)
}

/// The layout of a message: `jsonrpc` is `2.0`, and each field that is
/// present appears under its name; absent fields do not appear at all.
pub open spec fn message_map(m: JsonRpcMessage) -> Map<Seq<char>, JsonView> {
    let base = Map::<Seq<char>, JsonView>::empty().insert("jsonrpc"@, JsonView::Str("2.0"@));
    let with_id = with_opt(base, "id"@, m.id);
    let with_result = with_opt(with_id, "result"@, m.result);
    let with_error = match m.error {
        Some(e) => with_result.insert(
            "error"@,
            JsonView::Object(
                Map::<Seq<char>, JsonView>::empty().insert("code"@, int_view(e.code)).insert(
                    "message"@,
                    JsonView::Str(e.message@),
                ),
            ),
        ),
        None => with_result,
    };
    let with_method = match m.method {
        Some(name) => with_error.insert("method"@, JsonView::Str(name@)),
        None => with_error,
    };
    with_opt(with_method, "params"@, m.params)
}

fn key(s: &str) -> (r: String)
    ensures
        r@ == s@,
{
    String::from_str(s)
}

fn int_value(i: i64) -> (r: JsonValue)
    ensures
        json_view(r) == int_view(i),
{
    if i < 0 {
        JsonValue::Number(JsonNumber::NegInt(i))
    } else {
        JsonValue::Number(JsonNumber::PosInt(i as u64))
    }
}

impl JsonRpcMessage {
    /// The message as a JSON object.
    pub fn to_json(self) -> (r: JsonValue)
        ensures
            json_view(r) == JsonView::Object(message_map(self)),
    {
        let ghost whole = self;
        let JsonRpcMessage { id, result, error, method, params } = self;
        let mut o = JsonObject::new();
        o.insert(key("jsonrpc"), JsonValue::text("2.0"));
        if let Some(v) = id {
            o.insert(key("id"), v);
        }
        if let Some(v) = result {
            o.insert(key("result"), v);
        }
        if let Some(e) = error {
            let mut eo = JsonObject::new();
            eo.insert(key("code"), int_value(e.code));
            eo.insert(key("message"), JsonValue::String(e.message));
            proof {
                lemma_object_view(eo);
            }
            o.insert(key("error"), JsonValue::Object(eo));
        }
        if let Some(name) = method {
            o.insert(key("method"), JsonValue::String(name));
        }
        if let Some(v) = params {
            o.insert(key("params"), v);
        }
        proof {
            lemma_object_view(o);
            assert(object_map(o) =~= message_map(whole));
        }
        JsonValue::Object(o)
    }
}

/// Whether a request id is one the server answers: a string or a number.
pub open spec fn answerable_id(v: JsonView) -> bool {
    v is Str || v is Int || v is Float
}

/// The id to answer a request with; requests without an id, or with an id
/// that is neither a string nor a number, are notifications and get no
/// answer.
pub fn response_id(id: Option<JsonValue>) -> (r: Option<JsonValue>)
    ensures
        match id {
            Some(v) => if answerable_id(json_view(v)) {
                r == Some(v)
            } else {
                r is None
            },
            None => r is None,
        },
{
    match id {
        Some(value) => match value {
            JsonValue::String(_) | JsonValue::Number(_) => Some(value),
            JsonValue::Object(o) => {
                proof {
                    lemma_object_view(o);
                }
                None
            },
            _ => None,
        },
        None => None,
    }
}

/// The methods the server knows.
#[derive(Debug, Clone, Copy, PartialEq, Eq, Structural)]
pub enum McpMethod {
    Initialize,
    Initialized,
    ListTools,
    CallTool,
    Unsupported,
}

/// The method a request names.
pub open spec fn method_named(name: Seq<char>) -> McpMethod {
    if name == "initialize"@ {
        McpMethod::Initialize
    } else if name == "notifications/initialized"@ {
        McpMethod::Initialized
    } else if name == "tools/list"@ {
        McpMethod::ListTools
    } else if name == "tools/call"@ {
        McpMethod::CallTool
    } else {
        McpMethod::Unsupported
    }
}

/// The method a request names.
pub fn classify_method(method: &str) -> (r: McpMethod)
    ensures
        r == method_named(method@),
{
    if str_eq(method, "initialize") {
        McpMethod::Initialize
    } else if str_eq(method, "notifications/initialized") {
        McpMethod::Initialized
    } else if str_eq(method, "tools/list") {
        McpMethod::ListTools
    } else if str_eq(method, "tools/call") {
        McpMethod::CallTool
    } else {
        McpMethod::Unsupported
    }
}

/// The error for a method the server does not know.
pub fn unsupported_method(method: &str) -> (r: AppError)
    ensures
        r matches AppError::InvalidRequest(m) && m@ == "unsupported MCP method `"@ + method@ + "`"@,
{
    AppError::InvalidRequest(concat3("unsupported MCP method `", method, "`"))
}

/// The empty object, the arguments of a call that names none.
pub fn empty_params() -> (r: JsonValue)
    ensures
        json_view(r) == JsonView::Object(Map::empty()),
{
    let o = JsonObject::new();
    proof {
        lemma_object_view(o);
    }
    JsonValue::Object(o)
}

/// The answer to `initialize`.
pub open spec fn initialize_map(version: Seq<char>) -> Map<Seq<char>, JsonView> {
    let info = Map::<Seq<char>, JsonView>::empty().insert(
        "name"@,
        JsonView::Str("conjure-mcp-tool-platform"@),
    ).insert("version"@, JsonView::Str(version));
    let tools = Map::<Seq<char>, JsonView>::empty().insert("listChanged"@, JsonView::Bool(true));
    let capabilities = Map::<Seq<char>, JsonView>::empty().insert("tools"@, JsonView::Object(tools));
    Map::<Seq<char>, JsonView>::empty().insert("protocolVersion"@, JsonView::Str("2024-11-05"@)).insert(
        "serverInfo"@,
        JsonView::Object(info),
    ).insert("capabilities"@, JsonView::Object(capabilities))
}

/// The answer to `initialize`, naming the server `version`.
pub fn initialize_result(version: &str) -> (r: JsonValue)
    ensures
        json_view(r) == JsonView::Object(initialize_map(version@)),
{
    let mut info = JsonObject::new();
    info.insert(key("name"), JsonValue::text("conjure-mcp-tool-platform"));
    info.insert(key("version"), JsonValue::text(version));
    let mut tools = JsonObject::new();
    tools.insert(key("listChanged"), JsonValue::Bool(true));
    proof {
        lemma_object_view(tools);
    }
    let mut capabilities = JsonObject::new();
    capabilities.insert(key("tools"), JsonValue::Object(tools));
    proof {
        lemma_object_view(info);
        lemma_object_view(capabilities);
    }
    let mut o = JsonObject::new();
    o.insert(key("protocolVersion"), JsonValue::text("2024-11-05"));
    o.insert(key("serverInfo"), JsonValue::Object(info));
    o.insert(key("capabilities"), JsonValue::Object(capabilities));
    proof {
        lemma_object_view(o);
    }
    JsonValue::Object(o)
}

/// How one tool is listed.
pub open spec fn tool_entry_map(t: Tool) -> Map<Seq<char>, JsonView> {
    Map::<Seq<char>, JsonView>::empty().insert("name"@, JsonView::Str(t.name@)).insert(
        "description"@,
        JsonView::Str(t.description@),
    ).insert(
        "inputSchema"@,
        JsonView::Object(input_schema_map(t.parameters@, t.working_dir_expose, t.working_dir_required)),
    )
}

/// The answer to `tools/list`: the given tools, in order.
pub open spec fn tools_list_map(tools: Seq<Tool>) -> Map<Seq<char>, JsonView> {
    Map::<Seq<char>, JsonView>::empty().insert(
        "tools"@,
        JsonView::Array(Seq::new(tools.len(), |i: int| JsonView::Object(tool_entry_map(tools[i])))),
    )
}

/// Each `tools/list` entry describes its own tool: exactly the keys
/// `name`, `description` and `inputSchema`, holding the tool's name, the
/// tool's description and the tool's input schema; the list has one entry
/// per tool, in order.
pub proof fn lemma_tools_list_entries(tools: Seq<Tool>)
    ensures
        tools_list_map(tools).contains_key("tools"@),
        tools_list_map(tools)["tools"@] matches JsonView::Array(items) && items.len() == tools.len() && forall|i: int|
            0 <= i < tools.len() ==> #[trigger] items[i] == JsonView::Object(tool_entry_map(tools[i])),
        forall|t: Tool|
            (#[trigger] tool_entry_map(t)).dom() == set!["name"@, "description"@, "inputSchema"@]
                && tool_entry_map(t)["name"@] == JsonView::Str(t.name@)
                && tool_entry_map(t)["description"@] == JsonView::Str(t.description@)
                && tool_entry_map(t)["inputSchema"@] == JsonView::Object(
                input_schema_map(t.parameters@, t.working_dir_expose, t.working_dir_required),
            ),
{
    reveal_strlit("name");
    reveal_strlit("description");
    reveal_strlit("inputSchema");
    assert("name"@.len() != "description"@.len());
    assert("name"@.len() != "inputSchema"@.len());
    assert("description"@[0] != "inputSchema"@[0]);
    assert forall|t: Tool|
        (#[trigger] tool_entry_map(t)).dom() == set!["name"@, "description"@, "inputSchema"@]
            && tool_entry_map(t)["name"@] == JsonView::Str(t.name@)
            && tool_entry_map(t)["description"@] == JsonView::Str(t.description@)
            && tool_entry_map(t)["inputSchema"@] == JsonView::Object(
            input_schema_map(t.parameters@, t.working_dir_expose, t.working_dir_required),
        ) by {
        assert(tool_entry_map(t).dom() =~= set!["name"@, "description"@, "inputSchema"@]);
    }
}

/// The answer to `tools/list` for the enabled tools.
pub fn tools_list_result(tools: &Vec<Tool>) -> (r: JsonValue)
    ensures
        json_view(r) == JsonView::Object(tools_list_map(tools@)),
{
    let mut items: Vec<JsonValue> = Vec::new();
    let mut i: usize = 0;
    while i < tools.len()
        invariant
            i <= tools@.len(),
            items@.len() == i,
            forall|k: int|
                0 <= k < i ==> json_view(#[trigger] items@[k]) == JsonView::Object(
                    tool_entry_map(tools@[k]),
                ),
        decreases tools@.len() - i,
    {
        let tool = &tools[i];
        let mut entry = JsonObject::new();
        entry.insert(key("name"), JsonValue::String(tool.name.clone()));
        entry.insert(key("description"), JsonValue::String(tool.description.clone()));
        entry.insert(key("inputSchema"), input_schema(tool));
        proof {
            lemma_object_view(entry);
        }
        items.push(JsonValue::Object(entry));
        i = i + 1;
    }
    let list = JsonValue::Array(items);
    assert(crate::json::array_views(items@) =~= Seq::new(
        tools@.len(),
        |k: int| JsonView::Object(tool_entry_map(tools@[k])),
    ));
    let mut o = JsonObject::new();
    o.insert(key("tools"), list);
    proof {
        lemma_object_view(o);
    }
    JsonValue::Object(o)
}

/// What a `tools/call` request asks for: the tool name, which must be a
/// string, and the arguments (the empty object when there are none).
pub open spec fn call_request_outcome(params: JsonView) -> Result<(Seq<char>, JsonView), Seq<char>> {
    match params {
        JsonView::Object(m) => if m.contains_key("name"@) && m["name"@] is Str {
            Ok(
                (
                    m["name"@]->Str_0,
                    if m.contains_key("arguments"@) {
                        m["arguments"@]
                    } else {
                        JsonView::Object(Map::empty())
                    },
                ),
            )
        } else {
            Err("tools/call requires params.name"@)
        },
        _ => Err("tools/call requires params.name"@),
    }
}

/// The tool name and arguments of a `tools/call` request.
pub fn call_tool_request(params: &JsonValue) -> (r: Result<(String, JsonValue), AppError>)
    ensures
        match call_request_outcome(json_view(*params)) {
            Ok((name, args)) => r matches Ok((n, a)) && n@ == name && json_view(a) == args,
            Err(m) => r matches Err(AppError::Validation(d)) && d@ == m,
        },
{
    let object = match params {
        JsonValue::Object(o) => o,
        _ => {
            return Err(AppError::validation("tools/call requires params.name"));
        },
    };
    proof {
        lemma_object_view(*object);
    }
    let name = match object.get("name") {
        Some(v) => match v.as_str() {
            Some(s) => String::from_str(s),
            None => {
                return Err(AppError::validation("tools/call requires params.name"));
            },
        },
        None => {
            return Err(AppError::validation("tools/call requires params.name"));
        },
    };
    let arguments = match object.get("arguments") {
        Some(a) => a.duplicate(),
        None => empty_params(),
    };
    Ok((name, arguments))
}

/// A tool can be called when it exists and is enabled.
pub fn check_callable(tool: Option<&Tool>, name: &str) -> (r: Result<(), AppError>)
    ensures
        match tool {
            None => r matches Err(AppError::NotFound(m)) && m@ == "tool `"@ + name@ + "`"@,
            Some(t) => if t.enabled {
                r is Ok
            } else {
                r matches Err(AppError::Validation(m)) && m@ == "tool `"@ + name@ + "` is disabled"@
            },
        },
{
    match tool {
        None => Err(AppError::NotFound(concat3("tool `", name, "`"))),
        Some(t) => if t.enabled {
            Ok(())
        } else {
            Err(AppError::Validation(concat3("tool `", name, "` is disabled")))
        },
    }
}

/// The answer to `tools/call` for a run: one text item with the run's
/// text, flagged as an error unless the run succeeded.
pub open spec fn call_result_map(result: ExecutionResult) -> Map<Seq<char>, JsonView> {
    let item = Map::<Seq<char>, JsonView>::empty().insert("type"@, JsonView::Str("text"@)).insert(
        "text"@,
        JsonView::Str(result_text(result.stdout@, result.stderr@)),
    );
    Map::<Seq<char>, JsonView>::empty().insert(
        "content"@,
        JsonView::Array(seq![JsonView::Object(item)]),
    ).insert("isError"@, JsonView::Bool(result.status != ExecutionStatus::Success))
}

/// The answer to `tools/call` for a run.
pub fn call_tool_result(result: &ExecutionResult) -> (r: JsonValue)
    ensures
        json_view(r) == JsonView::Object(call_result_map(*result)),
{
    let text = format_mcp_result_text(result);
    let mut item = JsonObject::new();
    item.insert(key("type"), JsonValue::text("text"));
    item.insert(key("text"), JsonValue::String(text));
    proof {
        lemma_object_view(item);
    }
    let mut content: Vec<JsonValue> = Vec::new();
    content.push(JsonValue::Object(item));
    assert(crate::json::array_views(content@) =~= seq![JsonView::Object(object_map(item))]);
    let mut o = JsonObject::new();
    o.insert(key("content"), JsonValue::Array(content));
    o.insert(key("isError"), JsonValue::Bool(result.status != ExecutionStatus::Success));
    proof {
        lemma_object_view(o);
    }
    JsonValue::Object(o)
}

/// The answer to a request with id `id`: its result, or an error with code
/// -32000 and the error's text.
pub fn response_message(id: JsonValue, outcome: Result<JsonValue, AppError>) -> (r: JsonRpcMessage)
    ensures
        r.id == Some(id),
        r.method is None,
        r.params is None,
        match outcome {
            Ok(v) => r.result == Some(v) && r.error is None,
            Err(e) => r.result is None && (r.error matches Some(x) && x.code == SERVER_ERROR_CODE
                && x.message@ == prefix_of(e) + detail_of(e)),
        },
{
    match outcome {
        Ok(result) => JsonRpcMessage {
            id: Some(id),
            result: Some(result),
            error: None,
            method: None,
            params: None,
        },
        Err(error) => JsonRpcMessage {
            id: Some(id),
            result: None,
            error: Some(JsonRpcError { code: SERVER_ERROR_CODE, message: error.message() }),
            method: None,
            params: None,
        },
    }
}

/// The notification sent when the list of tools changed.
pub fn tools_changed_notification() -> (r: JsonRpcMessage)
    ensures
        r.id is None,
        r.result is None,
        r.error is None,
        r.method matches Some(m) && m@ == "notifications/tools/list_changed"@,
        r.params matches Some(p) && json_view(p) == JsonView::Object(Map::empty()),
{
    JsonRpcMessage {
        id: None,
        result: None,
        error: None,
        method: Some(String::from_str("notifications/tools/list_changed")),
        params: Some(empty_params()),
    }
}

} // verus!
