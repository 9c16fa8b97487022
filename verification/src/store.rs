//! The decisions of the tool store: what a created or changed tool is
//! saved as, how tools are exported and imported, and how categories are
//! renamed.
use vstd::prelude::*;

use crate::domain::{
    check_outcome, new_tool_problem, validate_new_tool, NewTool, ParameterType, UpdateTool,
};
use crate::error::{is_validation_error, AppError};
use crate::float::Number64;
use crate::json::{json_view, JsonValue, JsonView};
use crate::rules::{
    new_parameter_problem, validate_parameter, NewParameter, ToolParameter, UpdateParameter,
    ValidationRules,
};
use crate::text::{
    concat3, normalize_optional_text, normalized, opt_str_view, opt_view, same_text, same_text_spec,
    trimmed, u64_text, decimal, views,
};
use crate::tool::{Timestamp, Tool};

verus! {

/// The hexadecimal digit of `n < 16`, in lowercase.
pub open spec fn hex_digit(n: u128) -> char {
    if n < 10 {
        (48 + n) as char
    } else {
        (87 + n) as char
    }
}

/// The `k`-th hexadecimal digit of `u`, counting from the most significant.
pub open spec fn uuid_nibble(u: u128, k: int) -> u128 {
    (u >> ((124 - 4 * k) as u128)) & 15
}

/// How many hyphens come before position `p` of a hyphenated UUID.
pub open spec fn hyphens_before(p: int) -> int {
    if p < 8 {
        0
    } else if p < 13 {
        1
    } else if p < 18 {
        2
    } else if p < 23 {
        3
    } else {
        4
    }
}

/// The hyphenated lowercase text of a UUID with the 128-bit value `u`
/// (most significant digit first): `xxxxxxxx-xxxx-xxxx-xxxx-xxxxxxxxxxxx`.
pub open spec fn uuid_text(u: u128) -> Seq<char> {
    Seq::new(
        36,
        |p: int|
            if p == 8 || p == 13 || p == 18 || p == 23 {
                '-'
            } else {
                hex_digit(uuid_nibble(u, p - hyphens_before(p)))
            },
    )
}

/// The text of a UUID, as `uuid::Uuid::from_u128(id).to_string()` gives
/// it.  The contract claims the hyphenated lowercase form that the `uuid`
/// crate documents for its `Display`.
#[verifier::external_body]
pub(crate) fn uuid_string(id: u128) -> (r: String)
    ensures
        r@ == uuid_text(id),
{
    uuid::Uuid::from_u128(id).to_string()
}

/// The error for a tool that does not exist.
pub fn tool_not_found(id: u128) -> (r: AppError)
    ensures
        r matches AppError::NotFound(m) && m@ == "tool `"@ + uuid_text(id) + "`"@,
{
    AppError::NotFound(concat3("tool `", uuid_string(id).as_str(), "`"))
}

/// The error for a parameter that does not exist.
pub fn parameter_not_found(id: u128) -> (r: AppError)
    ensures
        r matches AppError::NotFound(m) && m@ == "parameter `"@ + uuid_text(id) + "`"@,
{
    AppError::NotFound(concat3("parameter `", uuid_string(id).as_str(), "`"))
}

/// A double by all it holds.
pub open spec fn double_parts(n: Option<Number64>) -> Option<(u64, Seq<char>, Seq<char>)> {
    match n {
        Some(x) => Some((x.bits, x.text@, x.json_text@)),
        None => None,
    }
}

/// Two sets of rules that say the same.
pub open spec fn same_rules(a: ValidationRules, b: ValidationRules) -> bool {
    &&& double_parts(a.min) == double_parts(b.min)
    &&& double_parts(a.max) == double_parts(b.max)
    &&& opt_view(a.regex) == opt_view(b.regex)
    &&& opt_view(a.format) == opt_view(b.format)
    &&& a.integer == b.integer
    &&& views(a.enum_values@) == views(b.enum_values@)
}

/// An optional JSON value by its meaning.
pub open spec fn opt_json(o: Option<JsonValue>) -> Option<JsonView> {
    match o {
        Some(v) => Some(json_view(v)),
        None => None,
    }
}

fn clone_opt_string(o: &Option<String>) -> (r: Option<String>)
    ensures
        opt_view(r) == opt_view(*o),
{
    match o {
        Some(s) => Some(s.clone()),
        None => None,
    }
}

fn clone_opt_json(o: &Option<JsonValue>) -> (r: Option<JsonValue>)
    ensures
        opt_json(r) == opt_json(*o),
{
    match o {
        Some(v) => Some(v.duplicate()),
        None => None,
    }
}

fn clone_opt_double(o: &Option<Number64>) -> (r: Option<Number64>)
    ensures
        double_parts(r) == double_parts(*o),
{
    match o {
        Some(n) => Some(n.duplicate()),
        None => None,
    }
}

fn clone_strings(v: &Vec<String>) -> (r: Vec<String>)
    ensures
        views(r@) == views(v@),
{
    let mut r: Vec<String> = Vec::new();
    let mut i: usize = 0;
    while i < v.len()
        invariant
            i <= v@.len(),
            r@.len() == i,
            forall|k: int| 0 <= k < i ==> (#[trigger] r@[k])@ == v@[k]@,
        decreases v@.len() - i,
    {
        r.push(v[i].clone());
        i = i + 1;
    }
    assert(views(r@) =~= views(v@));
    r
}

impl ValidationRules {
    /// A copy of the rules.
    pub fn duplicate(&self) -> (r: ValidationRules)
        ensures
            same_rules(r, *self),
    {
        ValidationRules {
            min: clone_opt_double(&self.min),
            max: clone_opt_double(&self.max),
            regex: clone_opt_string(&self.regex),
            format: clone_opt_string(&self.format),
            integer: self.integer,
            enum_values: clone_strings(&self.enum_values),
        }
    }
}

/// A parameter as a tools export carries it.
#[derive(Debug)]
pub struct ExportedParameter {
    pub name: String,
    pub parameter_type: ParameterType,
    pub description: Option<String>,
    pub required: bool,
    pub default_value: Option<JsonValue>,
    pub validation: ValidationRules,
    pub position: i64,
}

/// A tool as a tools export carries it.
#[derive(Debug)]
pub struct ExportedTool {
    pub name: String,
    pub description: String,
    pub category: Option<String>,
    pub script_body: Option<String>,
    pub script_path: Option<String>,
    pub working_dir: Option<String>,
    pub working_dir_expose: bool,
    pub working_dir_required: bool,
    pub timeout_ms: i64,
    pub enabled: bool,
    pub parameters: Vec<ExportedParameter>,
}

/// A tools export: every tool with its parameters, and the categories.
#[derive(Debug)]
pub struct ToolsExport {
    pub version: u32,
    pub exported_at: Timestamp,
    pub categories: Vec<String>,
    pub tools: Vec<ExportedTool>,
}

/// What an import brought in.
#[derive(Debug, Clone, Copy, PartialEq, Eq, Structural)]
pub struct ToolImportResult {
    pub imported_tools: usize,
    pub imported_categories: usize,
}

/// The record a created tool is saved as: the submission with its category
/// and working directory trimmed and dropped when blank.
pub open spec fn saved_new_tool(p: NewTool, t: NewTool) -> bool {
    &&& t.name@ == p.name@
    &&& t.description@ == p.description@
    &&& opt_view(t.category) == normalized(opt_view(p.category))
    &&& opt_view(t.script_body) == opt_view(p.script_body)
    &&& opt_view(t.script_path) == opt_view(p.script_path)
    &&& opt_view(t.working_dir) == normalized(opt_view(p.working_dir))
    &&& t.working_dir_expose == p.working_dir_expose
    &&& t.working_dir_required == p.working_dir_required
    &&& t.timeout_ms == p.timeout_ms
    &&& t.enabled == p.enabled
}

fn opt_as_str(o: &Option<String>) -> (r: Option<&str>)
    ensures
        opt_str_view(r) == opt_view(*o),
{
    match o {
        Some(s) => Some(s.as_str()),
        None => None,
    }
}

/// Checks a submitted tool and gives the record it is saved as.
pub fn prepare_new_tool(payload: NewTool) -> (r: Result<NewTool, AppError>)
    ensures
        check_outcome(
            new_tool_problem(payload),
            match r {
                Ok(_) => Ok(()),
                Err(e) => Err(e),
            },
        ),
        r matches Ok(t) ==> saved_new_tool(payload, t),
{
    validate_new_tool(&payload)?;
    let category = normalize_optional_text(opt_as_str(&payload.category));
    let working_dir = normalize_optional_text(opt_as_str(&payload.working_dir));
    Ok(
        NewTool {
            name: payload.name,
            description: payload.description,
            category,
            script_body: payload.script_body,
            script_path: payload.script_path,
            working_dir,
            working_dir_expose: payload.working_dir_expose,
            working_dir_required: payload.working_dir_required,
            timeout_ms: payload.timeout_ms,
            enabled: payload.enabled,
        },
    )
}

/// A given value, or the current one.
pub open spec fn or_current(given: Option<Seq<char>>, current: Option<Seq<char>>) -> Option<Seq<char>> {
    match given {
        Some(g) => Some(g),
        None => current,
    }
}

/// The record a changed tool is saved as: every field that the change
/// gives replaces the current one; a given category or working directory
/// is trimmed and dropped when blank, and a given script body or path is
/// kept as given.
pub open spec fn merged_tool(current: Tool, p: UpdateTool, t: NewTool) -> bool {
    &&& t.name@ == match p.name {
        Some(n) => n@,
        None => current.name@,
    }
    &&& t.description@ == match p.description {
        Some(d) => d@,
        None => current.description@,
    }
    &&& opt_view(t.category) == match p.category {
        Some(c) => normalized(Some(c@)),
        None => opt_view(current.category),
    }
    &&& opt_view(t.script_body) == or_current(opt_view(p.script_body), opt_view(current.script_body))
    &&& opt_view(t.script_path) == or_current(opt_view(p.script_path), opt_view(current.script_path))
    &&& opt_view(t.working_dir) == match p.working_dir {
        Some(w) => normalized(Some(w@)),
        None => opt_view(current.working_dir),
    }
    &&& t.working_dir_expose == match p.working_dir_expose {
        Some(b) => b,
        None => current.working_dir_expose,
    }
    &&& t.working_dir_required == match p.working_dir_required {
        Some(b) => b,
        None => current.working_dir_required,
    }
    &&& t.timeout_ms == match p.timeout_ms {
        Some(x) => x,
        None => current.timeout_ms,
    }
    &&& t.enabled == match p.enabled {
        Some(b) => b,
        None => current.enabled,
    }
}

fn pick_string(given: Option<String>, current: &String) -> (r: String)
    ensures
        r@ == match given {
            Some(g) => g@,
            None => current@,
        },
{
    match given {
        Some(g) => g,
        None => current.clone(),
    }
}

fn pick_opt(given: Option<String>, current: &Option<String>) -> (r: Option<String>)
    ensures
        opt_view(r) == or_current(opt_view(given), opt_view(*current)),
{
    match given {
        Some(g) => Some(g),
        None => clone_opt_string(current),
    }
}

fn pick_normalized(given: Option<String>, current: &Option<String>) -> (r: Option<String>)
    ensures
        opt_view(r) == match given {
            Some(g) => normalized(Some(g@)),
            None => opt_view(*current),
        },
{
    match given {
        Some(g) => normalize_optional_text(Some(g.as_str())),
        None => clone_opt_string(current),
    }
}

/// The record a tool is saved as after a change.
pub fn merge_tool_update(current: &Tool, payload: UpdateTool) -> (r: NewTool)
    ensures
        merged_tool(*current, payload, r),
{
    NewTool {
        name: pick_string(payload.name, &current.name),
        description: pick_string(payload.description, &current.description),
        category: pick_normalized(payload.category, &current.category),
        script_body: pick_opt(payload.script_body, &current.script_body),
        script_path: pick_opt(payload.script_path, &current.script_path),
        working_dir: pick_normalized(payload.working_dir, &current.working_dir),
        working_dir_expose: match payload.working_dir_expose {
            Some(b) => b,
            None => current.working_dir_expose,
        },
        working_dir_required: match payload.working_dir_required {
            Some(b) => b,
            None => current.working_dir_required,
        },
        timeout_ms: match payload.timeout_ms {
            Some(x) => x,
            None => current.timeout_ms,
        },
        enabled: match payload.enabled {
            Some(b) => b,
            None => current.enabled,
        },
    }
}

/// The record a parameter is saved as after a change: every field that the
/// change gives replaces the current one.
pub open spec fn merged_parameter(current: ToolParameter, p: UpdateParameter, n: NewParameter) -> bool {
    &&& n.name@ == match p.name {
        Some(x) => x@,
        None => current.name@,
    }
    &&& n.parameter_type == match p.parameter_type {
        Some(t) => t,
        None => current.parameter_type,
    }
    &&& opt_view(n.description) == or_current(opt_view(p.description), opt_view(current.description))
    &&& n.required == match p.required {
        Some(b) => b,
        None => current.required,
    }
    &&& opt_json(n.default_value) == match p.default_value {
        Some(v) => Some(json_view(v)),
        None => opt_json(current.default_value),
    }
    &&& same_rules(
        n.validation,
        match p.validation {
            Some(v) => v,
            None => current.validation,
        },
    )
    &&& n.position == match p.position {
        Some(x) => x,
        None => current.position,
    }
}

/// The record a parameter is saved as after a change; a parameter of
/// another tool is not found.
pub fn merge_parameter_update(
    current: ToolParameter,
    tool_id: u128,
    parameter_id: u128,
    payload: UpdateParameter,
) -> (r: Result<NewParameter, AppError>)
    ensures
        current.tool_id != tool_id ==> (r matches Err(AppError::NotFound(m)) && m@ == "parameter `"@
            + uuid_text(parameter_id) + "` for tool `"@ + uuid_text(tool_id) + "`"@),
        current.tool_id == tool_id ==> (r matches Ok(n) && merged_parameter(current, payload, n)),
{
    if current.tool_id != tool_id {
        let tail = concat3("` for tool `", uuid_string(tool_id).as_str(), "`");
        let m = concat3("parameter `", uuid_string(parameter_id).as_str(), tail.as_str());
        assert(m@ =~= "parameter `"@ + uuid_text(parameter_id) + "` for tool `"@ + uuid_text(tool_id)
            + "`"@);
        return Err(AppError::NotFound(m));
    }
    let ghost cur = current;
    let ghost pay = payload;
    let ToolParameter { name, parameter_type, description, required, default_value, validation, position, .. } = current;
    let r = NewParameter {
        name: match payload.name {
            Some(x) => x,
            None => name,
        },
        parameter_type: match payload.parameter_type {
            Some(t) => t,
            None => parameter_type,
        },
        description: match payload.description {
            Some(d) => Some(d),
            None => description,
        },
        required: match payload.required {
            Some(b) => b,
            None => required,
        },
        default_value: match payload.default_value {
            Some(v) => Some(v),
            None => default_value,
        },
        validation: match payload.validation {
            Some(v) => v.duplicate(),
            None => validation.duplicate(),
        },
        position: match payload.position {
            Some(x) => x,
            None => position,
        },
    };
    Ok(r)
}

/// A parameter as an export carries it: the same fields.
pub open spec fn exported_as(p: ToolParameter, e: ExportedParameter) -> bool {
    &&& e.name@ == p.name@
    &&& e.parameter_type == p.parameter_type
    &&& opt_view(e.description) == opt_view(p.description)
    &&& e.required == p.required
    &&& opt_json(e.default_value) == opt_json(p.default_value)
    &&& same_rules(e.validation, p.validation)
    &&& e.position == p.position
}

/// A parameter as an export carries it.
pub fn exported_parameter_from_parameter(parameter: &ToolParameter) -> (r: ExportedParameter)
    ensures
        exported_as(*parameter, r),
{
    ExportedParameter {
        name: parameter.name.clone(),
        parameter_type: parameter.parameter_type,
        description: clone_opt_string(&parameter.description),
        required: parameter.required,
        default_value: clone_opt_json(&parameter.default_value),
        validation: parameter.validation.duplicate(),
        position: parameter.position,
    }
}

/// A tool as an export carries it: its definition and its parameters in
/// order.
pub open spec fn tool_exported_as(t: Tool, e: ExportedTool) -> bool {
    &&& e.name@ == t.name@
    &&& e.description@ == t.description@
    &&& opt_view(e.category) == opt_view(t.category)
    &&& opt_view(e.script_body) == opt_view(t.script_body)
    &&& opt_view(e.script_path) == opt_view(t.script_path)
    &&& opt_view(e.working_dir) == opt_view(t.working_dir)
    &&& e.working_dir_expose == t.working_dir_expose
    &&& e.working_dir_required == t.working_dir_required
    &&& e.timeout_ms == t.timeout_ms
    &&& e.enabled == t.enabled
    &&& e.parameters@.len() == t.parameters@.len()
    &&& forall|i: int| 0 <= i < e.parameters@.len() ==> exported_as(t.parameters@[i], #[trigger] e.parameters@[i])
}

/// A tool as an export carries it.
pub fn exported_tool_from_tool(tool: &Tool) -> (r: ExportedTool)
    ensures
        tool_exported_as(*tool, r),
{
    let mut parameters: Vec<ExportedParameter> = Vec::new();
    let mut i: usize = 0;
    while i < tool.parameters.len()
        invariant
            i <= tool.parameters@.len(),
            parameters@.len() == i,
            forall|k: int| 0 <= k < i ==> exported_as(tool.parameters@[k], #[trigger] parameters@[k]),
        decreases tool.parameters@.len() - i,
    {
        parameters.push(exported_parameter_from_parameter(&tool.parameters[i]));
        i = i + 1;
    }
    ExportedTool {
        name: tool.name.clone(),
        description: tool.description.clone(),
        category: clone_opt_string(&tool.category),
        script_body: clone_opt_string(&tool.script_body),
        script_path: clone_opt_string(&tool.script_path),
        working_dir: clone_opt_string(&tool.working_dir),
        working_dir_expose: tool.working_dir_expose,
        working_dir_required: tool.working_dir_required,
        timeout_ms: tool.timeout_ms,
        enabled: tool.enabled,
        parameters,
    }
}

/// The submission an exported tool is imported as: the same fields.
pub open spec fn imported_as(e: ExportedTool, t: NewTool) -> bool {
    &&& t.name@ == e.name@
    &&& t.description@ == e.description@
    &&& opt_view(t.category) == opt_view(e.category)
    &&& opt_view(t.script_body) == opt_view(e.script_body)
    &&& opt_view(t.script_path) == opt_view(e.script_path)
    &&& opt_view(t.working_dir) == opt_view(e.working_dir)
    &&& t.working_dir_expose == e.working_dir_expose
    &&& t.working_dir_required == e.working_dir_required
    &&& t.timeout_ms == e.timeout_ms
    &&& t.enabled == e.enabled
}

/// The submission an exported tool is imported as.
pub fn new_tool_from_exported_tool(tool: &ExportedTool) -> (r: NewTool)
    ensures
        imported_as(*tool, r),
{
    NewTool {
        name: tool.name.clone(),
        description: tool.description.clone(),
        category: clone_opt_string(&tool.category),
        script_body: clone_opt_string(&tool.script_body),
        script_path: clone_opt_string(&tool.script_path),
        working_dir: clone_opt_string(&tool.working_dir),
        working_dir_expose: tool.working_dir_expose,
        working_dir_required: tool.working_dir_required,
        timeout_ms: tool.timeout_ms,
        enabled: tool.enabled,
    }
}

/// The submission an exported parameter is imported as: the same fields.
pub open spec fn parameter_imported_as(e: ExportedParameter, n: NewParameter) -> bool {
    &&& n.name@ == e.name@
    &&& n.parameter_type == e.parameter_type
    &&& opt_view(n.description) == opt_view(e.description)
    &&& n.required == e.required
    &&& opt_json(n.default_value) == opt_json(e.default_value)
    &&& same_rules(n.validation, e.validation)
    &&& n.position == e.position
}

/// The submission an exported parameter is imported as.
pub fn new_parameter_from_exported_parameter(parameter: &ExportedParameter) -> (r: NewParameter)
    ensures
        parameter_imported_as(*parameter, r),
{
    NewParameter {
        name: parameter.name.clone(),
        parameter_type: parameter.parameter_type,
        description: clone_opt_string(&parameter.description),
        required: parameter.required,
        default_value: clone_opt_json(&parameter.default_value),
        validation: parameter.validation.duplicate(),
        position: parameter.position,
    }
}

/// Whether a submission defines the tool exactly as the stored tool is
/// defined.
pub open spec fn same_definition(t: Tool, n: NewTool) -> bool {
    &&& n.name@ == t.name@
    &&& n.description@ == t.description@
    &&& opt_view(n.category) == opt_view(t.category)
    &&& opt_view(n.script_body) == opt_view(t.script_body)
    &&& opt_view(n.script_path) == opt_view(t.script_path)
    &&& opt_view(n.working_dir) == opt_view(t.working_dir)
    &&& n.working_dir_expose == t.working_dir_expose
    &&& n.working_dir_required == t.working_dir_required
    &&& n.timeout_ms == t.timeout_ms
    &&& n.enabled == t.enabled
}

/// Whether a parameter submission defines the parameter exactly as the
/// stored one is defined.
pub open spec fn same_parameter_definition(p: ToolParameter, n: NewParameter) -> bool {
    &&& n.name@ == p.name@
    &&& n.parameter_type == p.parameter_type
    &&& opt_view(n.description) == opt_view(p.description)
    &&& n.required == p.required
    &&& opt_json(n.default_value) == opt_json(p.default_value)
    &&& same_rules(n.validation, p.validation)
    &&& n.position == p.position
}

/// A change that gives no field.
pub open spec fn is_empty_tool_update(p: UpdateTool) -> bool {
    &&& p.name is None
    &&& p.description is None
    &&& p.category is None
    &&& p.script_body is None
    &&& p.script_path is None
    &&& p.working_dir is None
    &&& p.working_dir_expose is None
    &&& p.working_dir_required is None
    &&& p.timeout_ms is None
    &&& p.enabled is None
}

/// A parameter change that gives no field.
pub open spec fn is_empty_parameter_update(p: UpdateParameter) -> bool {
    &&& p.name is None
    &&& p.parameter_type is None
    &&& p.description is None
    &&& p.required is None
    &&& p.default_value is None
    &&& p.validation is None
    &&& p.position is None
}

/// A change that gives no field leaves the tool's definition as it was.
pub proof fn lemma_empty_update_keeps_tool(current: Tool, p: UpdateTool, n: NewTool)
    requires
        is_empty_tool_update(p),
        merged_tool(current, p, n),
    ensures
        same_definition(current, n),
{
}

/// A parameter change that gives no field leaves the parameter as it was.
pub proof fn lemma_empty_update_keeps_parameter(current: ToolParameter, p: UpdateParameter, n: NewParameter)
    requires
        is_empty_parameter_update(p),
        merged_parameter(current, p, n),
    ensures
        same_parameter_definition(current, n),
{
}

/// Exporting a tool and importing the export gives back its definition,
/// with as many parameters.
pub proof fn lemma_export_import_tool(t: Tool, e: ExportedTool, n: NewTool)
    requires
        tool_exported_as(t, e),
        imported_as(e, n),
    ensures
        same_definition(t, n),
        e.parameters@.len() == t.parameters@.len(),
{
}

/// Exporting a parameter and importing the export gives back its
/// definition.
pub proof fn lemma_export_import_parameter(p: ToolParameter, e: ExportedParameter, n: NewParameter)
    requires
        exported_as(p, e),
        parameter_imported_as(e, n),
    ensures
        same_parameter_definition(p, n),
{
}

/// The rules problem of an exported parameter.
pub open spec fn exported_parameter_problem(e: ExportedParameter) -> Option<Seq<char>> {
    if !crate::domain::is_valid_parameter_name(e.name@) {
        Some(crate::domain::parameter_name_message())
    } else {
        crate::rules::rules_problem(e.parameter_type, e.validation)
    }
}

/// The first problem among exported parameters, in order.
pub open spec fn first_parameter_problem(ps: Seq<ExportedParameter>) -> Option<Seq<char>>
    decreases ps.len(),
{
    if ps.len() == 0 {
        None
    } else {
        match first_parameter_problem(ps.drop_last()) {
            Some(m) => Some(m),
            None => exported_parameter_problem(ps.last()),
        }
    }
}

proof fn lemma_rules_problem_same(t: ParameterType, a: ValidationRules, b: ValidationRules)
    requires
        same_rules(a, b),
    ensures
        crate::rules::rules_problem(t, a) == crate::rules::rules_problem(t, b),
{
    assert(a.enum_values@.len() == views(a.enum_values@).len());
    assert(b.enum_values@.len() == views(b.enum_values@).len());
}

/// Checks every exported parameter, in order.
pub fn validate_exported_parameters(parameters: &Vec<ExportedParameter>) -> (r: Result<(), AppError>)
    ensures
        check_outcome(first_parameter_problem(parameters@), r),
{
    let mut i: usize = 0;
    while i < parameters.len()
        invariant
            i <= parameters@.len(),
            first_parameter_problem(parameters@.subrange(0, i as int)) is None,
        decreases parameters@.len() - i,
    {
        let candidate = new_parameter_from_exported_parameter(&parameters[i]);
        proof {
            lemma_rules_problem_same(candidate.parameter_type, candidate.validation, parameters@[i as int].validation);
            assert(parameters@.subrange(0, i + 1).drop_last() =~= parameters@.subrange(0, i as int));
        }
        match validate_parameter(&candidate) {
            Ok(()) => {},
            Err(e) => {
                proof {
                    lemma_first_problem_sticks(parameters@, (i + 1) as nat);
                }
                return Err(e);
            },
        }
        i = i + 1;
    }
    assert(parameters@.subrange(0, parameters@.len() as int) =~= parameters@);
    Ok(())
}

proof fn lemma_first_problem_sticks(ps: Seq<ExportedParameter>, k: nat)
    requires
        k <= ps.len(),
        first_parameter_problem(ps.subrange(0, k as int)) is Some,
    ensures
        first_parameter_problem(ps) == first_parameter_problem(ps.subrange(0, k as int)),
    decreases ps.len() - k,
{
    if k < ps.len() {
        let next = ps.subrange(0, k + 1 as int);
        assert(next.drop_last() =~= ps.subrange(0, k as int));
        lemma_first_problem_sticks(ps, k + 1);
    } else {
        assert(ps.subrange(0, k as int) =~= ps);
    }
}

/// Only exports of version 1 can be imported.
pub fn check_export_version(version: u32) -> (r: Result<(), AppError>)
    ensures
        version == 1 ==> r is Ok,
        version != 1 ==> is_validation_error(
            r,
            "unsupported tools export version `"@ + decimal(version as nat) + "`"@,
        ),
{
    if version != 1 {
        return Err(
            AppError::Validation(
                concat3("unsupported tools export version `", u64_text(version as u64).as_str(), "`"),
            ),
        );
    }
    Ok(())
}

/// The categories of an export that are imported: the ones that are not
/// blank, trimmed, in order.
pub open spec fn importable_categories(cs: Seq<Seq<char>>) -> Seq<Seq<char>>
    decreases cs.len(),
{
    if cs.len() == 0 {
        Seq::empty()
    } else {
        match normalized(Some(cs.last())) {
            Some(c) => importable_categories(cs.drop_last()).push(c),
            None => importable_categories(cs.drop_last()),
        }
    }
}

/// Categories that are already trimmed and not blank, as an export
/// lists them, are imported as they are, in order.
pub proof fn lemma_import_keeps_clean_categories(cs: Seq<Seq<char>>)
    requires
        forall|i: int| 0 <= i < cs.len() ==> normalized(Some(#[trigger] cs[i])) == Some(cs[i]),
    ensures
        importable_categories(cs) == cs,
    decreases cs.len(),
{
    if cs.len() > 0 {
        let d = cs.drop_last();
        assert forall|i: int| 0 <= i < d.len() implies normalized(Some(#[trigger] d[i])) == Some(d[i]) by {
            assert(d[i] == cs[i]);
        }
        lemma_import_keeps_clean_categories(d);
        assert(normalized(Some(cs[cs.len() - 1])) == Some(cs.last()));
        assert(d.push(cs.last()) =~= cs);
    }
}

/// The categories of an export that are imported.
pub fn import_category_names(categories: &Vec<String>) -> (r: Vec<String>)
    ensures
        views(r@) == importable_categories(views(categories@)),
{
    let mut r: Vec<String> = Vec::new();
    let mut i: usize = 0;
    while i < categories.len()
        invariant
            i <= categories@.len(),
            views(r@) == importable_categories(views(categories@.subrange(0, i as int))),
        decreases categories@.len() - i,
    {
        let ghost before = r@;
        proof {
            assert(views(categories@.subrange(0, i + 1)).drop_last() =~= views(
                categories@.subrange(0, i as int),
            ));
        }
        match normalize_optional_text(Some(categories[i].as_str())) {
            Some(c) => {
                r.push(c);
                assert(views(r@) =~= views(before).push(r@[r@.len() - 1]@));
            },
            None => {},
        }
        i = i + 1;
    }
    assert(categories@.subrange(0, categories@.len() as int) =~= categories@);
    r
}

/// What renaming a category does: the trimmed old and new names, and
/// whether tools move from one to the other (not when the names differ
/// only in ASCII case).
#[derive(Debug)]
pub struct CategoryRename {
    pub previous: String,
    pub next: String,
    pub moves_tools: bool,
}

/// How a category is renamed; both names must not be blank.
pub fn rename_category_plan(previous_name: String, next_name: String) -> (r: Result<
    CategoryRename,
    AppError,
>)
    ensures
        trimmed(previous_name@).len() == 0 || trimmed(next_name@).len() == 0 ==> is_validation_error(
            r,
            "category name is required"@,
        ),
        trimmed(previous_name@).len() > 0 && trimmed(next_name@).len() > 0 ==> (r matches Ok(plan)
            && plan.previous@ == trimmed(previous_name@) && plan.next@ == trimmed(next_name@)
            && plan.moves_tools == !same_text_spec(trimmed(previous_name@), trimmed(next_name@))),
{
    let previous = crate::domain::category_name_from_input(previous_name)?;
    let next = crate::domain::category_name_from_input(next_name)?;
    let moves_tools = !same_text(previous.as_str(), next.as_str());
    Ok(CategoryRename { previous, next, moves_tools })
}

} // verus!
