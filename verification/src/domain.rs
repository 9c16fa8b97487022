//! Kinds, names and limits of tools and their runs, and the checks that a
//! tool definition must pass.
use vstd::prelude::*;

use crate::error::{is_validation_error, AppError};
use crate::text::{chars_of, is_blank, normalize_optional_text, normalized, opt_view, str_eq, trimmed};

verus! {

/// The timeout given to a tool when none is chosen, in milliseconds.
pub const DEFAULT_TIMEOUT_MS: i64 = 30_000;

/// The most bytes of one output stream that a run keeps.
pub const OUTPUT_LIMIT_BYTES: usize = 1_048_576;

/// The largest timeout a tool may have, in milliseconds.
pub const MAX_TIMEOUT_MS: i64 = 3_600_000;

/// The kind of value a tool parameter takes.
#[derive(Debug, Clone, Copy, PartialEq, Eq, Structural)]
pub enum ParameterType {
    String,
    Number,
    Boolean,
    Enum,
    Path,
}

/// The name under which each parameter kind is stored and exchanged.
pub open spec fn parameter_type_name(t: ParameterType) -> Seq<char> {
    match t {
        ParameterType::String => "string"@,
        ParameterType::Number => "number"@,
        ParameterType::Boolean => "boolean"@,
        ParameterType::Enum => "enum"@,
        ParameterType::Path => "path"@,
    }
}

/// How a run was started.
#[derive(Debug, Clone, Copy, PartialEq, Eq, Structural)]
pub enum ExecutionSource {
    ManualTest,
    Mcp,
}

/// The name under which each run source is stored.
pub open spec fn execution_source_name(s: ExecutionSource) -> Seq<char> {
    match s {
        ExecutionSource::ManualTest => "manual_test"@,
        ExecutionSource::Mcp => "mcp"@,
    }
}

/// How a run ended.
#[derive(Debug, Clone, Copy, PartialEq, Eq, Structural)]
pub enum ExecutionStatus {
    Success,
    Error,
    Timeout,
}

/// The name under which each run outcome is stored.
pub open spec fn execution_status_name(s: ExecutionStatus) -> Seq<char> {
    match s {
        ExecutionStatus::Success => "success"@,
        ExecutionStatus::Error => "error"@,
        ExecutionStatus::Timeout => "timeout"@,
    }
}

impl ParameterType {
    /// The stored name of this kind.
    pub fn as_str(&self) -> (r: &'static str)
        ensures
            r@ == parameter_type_name(*self),
    {
        match self {
            ParameterType::String => "string",
            ParameterType::Number => "number",
            ParameterType::Boolean => "boolean",
            ParameterType::Enum => "enum",
            ParameterType::Path => "path",
        }
    }

    /// The kind with the given stored name; any other name is a
    /// validation error.
    pub fn try_from(value: &str) -> (r: Result<ParameterType, AppError>)
        ensures
            match r {
                Ok(t) => parameter_type_name(t) == value@,
                Err(e) => (e matches AppError::Validation(m) && m@ == "unsupported parameter type `"@
                    + value@ + "`"@) && forall|t: ParameterType| parameter_type_name(t) != value@,
            },
            forall|x: ParameterType| parameter_type_name(x) == value@ ==> r == Ok::<ParameterType, AppError>(x),
    {
        proof {
            reveal_strlit("string");
            reveal_strlit("number");
            reveal_strlit("boolean");
            reveal_strlit("enum");
            reveal_strlit("path");
        }
        let r = if str_eq(value, "string") {
            Ok(ParameterType::String)
        } else if str_eq(value, "number") {
            Ok(ParameterType::Number)
        } else if str_eq(value, "boolean") {
            Ok(ParameterType::Boolean)
        } else if str_eq(value, "enum") {
            Ok(ParameterType::Enum)
        } else if str_eq(value, "path") {
            Ok(ParameterType::Path)
        } else {
            assert forall|t: ParameterType| parameter_type_name(t) != value@ by {
                match t {
                    ParameterType::String => {},
                    ParameterType::Number => {},
                    ParameterType::Boolean => {},
                    ParameterType::Enum => {},
                    ParameterType::Path => {},
                }
            }
            Err(AppError::Validation(crate::text::concat3("unsupported parameter type `", value, "`")))
        };
        proof {
            if let Ok(t) = r {
                assert forall|x: ParameterType| parameter_type_name(x) == value@ implies x == t by {
                    lemma_parameter_type_names_distinct(x, t);
                }
            }
        }
        r
    }
}

impl ExecutionSource {
    /// The stored name of this source.
    pub fn as_str(&self) -> (r: &'static str)
        ensures
            r@ == execution_source_name(*self),
    {
        match self {
            ExecutionSource::ManualTest => "manual_test",
            ExecutionSource::Mcp => "mcp",
        }
    }

    /// The source with the given stored name; any other name is a
    /// validation error.
    pub fn try_from(value: &str) -> (r: Result<ExecutionSource, AppError>)
        ensures
            match r {
                Ok(s) => execution_source_name(s) == value@,
                Err(e) => (e matches AppError::Validation(m) && m@ == "unsupported execution source `"@
                    + value@ + "`"@) && forall|s: ExecutionSource| execution_source_name(s) != value@,
            },
            forall|x: ExecutionSource| execution_source_name(x) == value@ ==> r == Ok::<ExecutionSource, AppError>(x),
    {
        proof {
            reveal_strlit("manual_test");
            reveal_strlit("mcp");
        }
        let r = if str_eq(value, "manual_test") {
            Ok(ExecutionSource::ManualTest)
        } else if str_eq(value, "mcp") {
            Ok(ExecutionSource::Mcp)
        } else {
            assert forall|s: ExecutionSource| execution_source_name(s) != value@ by {
                match s {
                    ExecutionSource::ManualTest => {},
                    ExecutionSource::Mcp => {},
                }
            }
            Err(AppError::Validation(crate::text::concat3("unsupported execution source `", value, "`")))
        };
        proof {
            if let Ok(t) = r {
                assert forall|x: ExecutionSource| execution_source_name(x) == value@ implies x == t by {
                    lemma_execution_source_names_distinct(x, t);
                }
            }
        }
        r
    }
}

impl ExecutionStatus {
    /// The stored name of this outcome.
    pub fn as_str(&self) -> (r: &'static str)
        ensures
            r@ == execution_status_name(*self),
    {
        match self {
            ExecutionStatus::Success => "success",
            ExecutionStatus::Error => "error",
            ExecutionStatus::Timeout => "timeout",
        }
    }

    /// The outcome with the given stored name; any other name is a
    /// validation error.
    pub fn try_from(value: &str) -> (r: Result<ExecutionStatus, AppError>)
        ensures
            match r {
                Ok(s) => execution_status_name(s) == value@,
                Err(e) => (e matches AppError::Validation(m) && m@ == "unsupported execution status `"@
                    + value@ + "`"@) && forall|s: ExecutionStatus| execution_status_name(s) != value@,
            },
            forall|x: ExecutionStatus| execution_status_name(x) == value@ ==> r == Ok::<ExecutionStatus, AppError>(x),
    {
        proof {
            reveal_strlit("success");
            reveal_strlit("error");
            reveal_strlit("timeout");
        }
        let r = if str_eq(value, "success") {
            Ok(ExecutionStatus::Success)
        } else if str_eq(value, "error") {
            Ok(ExecutionStatus::Error)
        } else if str_eq(value, "timeout") {
            Ok(ExecutionStatus::Timeout)
        } else {
            assert forall|s: ExecutionStatus| execution_status_name(s) != value@ by {
                match s {
                    ExecutionStatus::Success => {},
                    ExecutionStatus::Error => {},
                    ExecutionStatus::Timeout => {},
                }
            }
            Err(AppError::Validation(crate::text::concat3("unsupported execution status `", value, "`")))
        };
        proof {
            if let Ok(t) = r {
                assert forall|x: ExecutionStatus| execution_status_name(x) == value@ implies x == t by {
                    lemma_execution_status_names_distinct(x, t);
                }
            }
        }
        r
    }
}

/// Distinct kinds have distinct stored names.
pub proof fn lemma_parameter_type_names_distinct(a: ParameterType, b: ParameterType)
    ensures
        parameter_type_name(a) == parameter_type_name(b) ==> a == b,
{
    reveal_strlit("string");
    reveal_strlit("number");
    reveal_strlit("boolean");
    reveal_strlit("enum");
    reveal_strlit("path");
    if parameter_type_name(a) == parameter_type_name(b) {
        assert(parameter_type_name(a).len() == parameter_type_name(b).len());
        assert(parameter_type_name(a)[0] == parameter_type_name(b)[0]);
    }
}

/// Distinct run sources have distinct stored names.
pub proof fn lemma_execution_source_names_distinct(a: ExecutionSource, b: ExecutionSource)
    ensures
        execution_source_name(a) == execution_source_name(b) ==> a == b,
{
    reveal_strlit("manual_test");
    reveal_strlit("mcp");
    if execution_source_name(a) == execution_source_name(b) {
        assert(execution_source_name(a).len() == execution_source_name(b).len());
    }
}

/// Distinct run outcomes have distinct stored names.
pub proof fn lemma_execution_status_names_distinct(a: ExecutionStatus, b: ExecutionStatus)
    ensures
        execution_status_name(a) == execution_status_name(b) ==> a == b,
{
    reveal_strlit("success");
    reveal_strlit("error");
    reveal_strlit("timeout");
    if execution_status_name(a) == execution_status_name(b) {
        assert(execution_status_name(a)[0] == execution_status_name(b)[0]);
    }
}

/// The timeout given to a new tool when none is chosen.
pub fn default_timeout_ms() -> (r: i64)
    ensures
        r == DEFAULT_TIMEOUT_MS,
{
    DEFAULT_TIMEOUT_MS
}

/// New tools are enabled unless told otherwise.
pub fn default_enabled() -> (r: bool)
    ensures
        r,
{
    true
}

/// Whether `c` is an ASCII letter.
pub open spec fn is_ascii_letter(c: char) -> bool {
    ('a' <= c && c <= 'z') || ('A' <= c && c <= 'Z')
}

/// Whether `c` is an ASCII digit.
pub open spec fn is_ascii_digit(c: char) -> bool {
    '0' <= c && c <= '9'
}

/// A tool name: a letter, then at most 63 letters, digits, `_` or `-`.
pub open spec fn is_valid_tool_name(s: Seq<char>) -> bool {
    &&& 1 <= s.len() <= 64
    &&& is_ascii_letter(s[0])
    &&& forall|i: int|
        1 <= i < s.len() ==> is_ascii_letter(#[trigger] s[i]) || is_ascii_digit(s[i]) || s[i]
            == '_' || s[i] == '-'
}

/// A parameter name, which is also an environment variable name: a letter
/// or `_`, then at most 63 letters, digits or `_`.
pub open spec fn is_valid_parameter_name(s: Seq<char>) -> bool {
    &&& 1 <= s.len() <= 64
    &&& (is_ascii_letter(s[0]) || s[0] == '_')
    &&& forall|i: int|
        1 <= i < s.len() ==> is_ascii_letter(#[trigger] s[i]) || is_ascii_digit(s[i]) || s[i]
            == '_'
}

pub open spec fn tool_name_message() -> Seq<char> {
    "tool name must start with a letter and contain only letters, numbers, `_`, or `-`"@
}

pub open spec fn parameter_name_message() -> Seq<char> {
    "parameter name must be a valid environment variable name"@
}

pub open spec fn script_source_message() -> Seq<char> {
    "tool must include script_body or script_path"@
}

pub open spec fn timeout_message() -> Seq<char> {
    "timeout_ms must be between 1 and 3600000"@
}

/// Fails with the given validation message, or succeeds when there is none.
pub open spec fn check_outcome(problem: Option<Seq<char>>, r: Result<(), AppError>) -> bool {
    match problem {
        None => r is Ok,
        Some(m) => r matches Err(AppError::Validation(d)) && d@ == m,
    }
}

fn is_letter(c: char) -> (r: bool)
    ensures
        r == is_ascii_letter(c),
{
    ('a' <= c && c <= 'z') || ('A' <= c && c <= 'Z')
}

fn is_digit(c: char) -> (r: bool)
    ensures
        r == is_ascii_digit(c),
{
    '0' <= c && c <= '9'
}

/// Checks a tool name.
pub fn validate_tool_name(name: &str) -> (r: Result<(), AppError>)
    ensures
        check_outcome(
            if is_valid_tool_name(name@) {
                None
            } else {
                Some(tool_name_message())
            },
            r,
        ),
{
    let cs = chars_of(name);
    let mut ok = 1 <= cs.len() && cs.len() <= 64 && is_letter(cs[0]);
    let mut i: usize = 1;
    while ok && i < cs.len()
        invariant
            cs@ == name@,
            1 <= i,
            ok ==> 1 <= cs@.len() <= 64 && is_ascii_letter(cs@[0]) && i <= cs@.len(),
            ok ==> forall|k: int|
                1 <= k < i ==> is_ascii_letter(#[trigger] cs@[k]) || is_ascii_digit(cs@[k])
                    || cs@[k] == '_' || cs@[k] == '-',
            !ok ==> !is_valid_tool_name(name@),
        decreases (if ok { cs@.len() - i + 1 } else { 0 }),
    {
        let c = cs[i];
        if !(is_letter(c) || is_digit(c) || c == '_' || c == '-') {
            ok = false;
        } else {
            i = i + 1;
        }
    }
    if ok {
        Ok(())
    } else {
        Err(AppError::validation(
            "tool name must start with a letter and contain only letters, numbers, `_`, or `-`",
        ))
    }
}

/// Checks a parameter name.
pub fn validate_parameter_name(name: &str) -> (r: Result<(), AppError>)
    ensures
        check_outcome(
            if is_valid_parameter_name(name@) {
                None
            } else {
                Some(parameter_name_message())
            },
            r,
        ),
{
    let cs = chars_of(name);
    let mut ok = 1 <= cs.len() && cs.len() <= 64 && (is_letter(cs[0]) || cs[0] == '_');
    let mut i: usize = 1;
    while ok && i < cs.len()
        invariant
            cs@ == name@,
            1 <= i,
            ok ==> 1 <= cs@.len() <= 64 && (is_ascii_letter(cs@[0]) || cs@[0] == '_') && i
                <= cs@.len(),
            ok ==> forall|k: int|
                1 <= k < i ==> is_ascii_letter(#[trigger] cs@[k]) || is_ascii_digit(cs@[k])
                    || cs@[k] == '_',
            !ok ==> !is_valid_parameter_name(name@),
        decreases (if ok { cs@.len() - i + 1 } else { 0 }),
    {
        let c = cs[i];
        if !(is_letter(c) || is_digit(c) || c == '_') {
            ok = false;
        } else {
            i = i + 1;
        }
    }
    if ok {
        Ok(())
    } else {
        Err(AppError::validation("parameter name must be a valid environment variable name"))
    }
}

/// Whether optional text holds something besides whitespace.
pub open spec fn has_text(o: Option<Seq<char>>) -> bool {
    o matches Some(s) && trimmed(s).len() > 0
}

/// A tool needs a script body or a script path that is not blank.
pub fn validate_script_source(script_body: Option<&str>, script_path: Option<&str>) -> (r: Result<
    (),
    AppError,
>)
    ensures
        check_outcome(
            if has_text(crate::text::opt_str_view(script_body)) || has_text(
                crate::text::opt_str_view(script_path),
            ) {
                None
            } else {
                Some(script_source_message())
            },
            r,
        ),
{
    let has_body = match script_body {
        Some(body) => !is_blank(body),
        None => false,
    };
    let has_path = match script_path {
        Some(path) => !is_blank(path),
        None => false,
    };
    if has_body || has_path {
        Ok(())
    } else {
        Err(AppError::validation("tool must include script_body or script_path"))
    }
}

/// Whether a timeout lies in the accepted range.
pub open spec fn is_valid_timeout(timeout_ms: i64) -> bool {
    1 <= timeout_ms <= MAX_TIMEOUT_MS
}

/// A timeout must lie between 1 ms and one hour.
pub fn validate_timeout(timeout_ms: i64) -> (r: Result<(), AppError>)
    ensures
        check_outcome(
            if is_valid_timeout(timeout_ms) {
                None
            } else {
                Some(timeout_message())
            },
            r,
        ),
{
    if 1 <= timeout_ms && timeout_ms <= MAX_TIMEOUT_MS {
        Ok(())
    } else {
        Err(AppError::validation("timeout_ms must be between 1 and 3600000"))
    }
}

/// A tool definition as it is submitted for creation.
#[derive(Debug, Clone)]
pub struct NewTool {
    pub name: String,
    pub description: String,
    pub category: Option<String>,
    pub script_body: Option<String>,
    pub script_path: Option<String>,
    pub working_dir: Option<String>,
    pub working_dir_expose: bool,
    pub working_dir_required: bool,
    pub timeout_ms: i64,
    pub enabled: bool,
}

/// A partial change to a tool: each field that is present replaces the
/// stored one.
#[derive(Debug, Clone)]
pub struct UpdateTool {
    pub name: Option<String>,
    pub description: Option<String>,
    pub category: Option<String>,
    pub script_body: Option<String>,
    pub script_path: Option<String>,
    pub working_dir: Option<String>,
    pub working_dir_expose: Option<bool>,
    pub working_dir_required: Option<bool>,
    pub timeout_ms: Option<i64>,
    pub enabled: Option<bool>,
}

/// A request that names a category.
#[derive(Debug, Clone)]
pub struct CategoryRequest {
    pub name: String,
}

/// A request that turns a tool on or off.
#[derive(Debug, Clone, Copy)]
pub struct EnabledRequest {
    pub enabled: bool,
}

/// The first problem of a new tool definition, in the order name, script
/// source, timeout.
pub open spec fn new_tool_problem(tool: NewTool) -> Option<Seq<char>> {
    if !is_valid_tool_name(tool.name@) {
        Some(tool_name_message())
    } else if !(has_text(opt_view(tool.script_body)) || has_text(opt_view(tool.script_path))) {
        Some(script_source_message())
    } else if !is_valid_timeout(tool.timeout_ms) {
        Some(timeout_message())
    } else {
        None
    }
}

/// The first problem of a tool change: a name that is given must be valid,
/// then a timeout that is given must be in range.
pub open spec fn update_tool_problem(tool: UpdateTool) -> Option<Seq<char>> {
    if tool.name matches Some(n) && !is_valid_tool_name(n@) {
        Some(tool_name_message())
    } else if tool.timeout_ms matches Some(t) && !is_valid_timeout(t) {
        Some(timeout_message())
    } else {
        None
    }
}

fn opt_as_str(o: &Option<String>) -> (r: Option<&str>)
    ensures
        crate::text::opt_str_view(r) == opt_view(*o),
{
    match o {
        Some(s) => Some(s.as_str()),
        None => None,
    }
}

/// Checks a tool definition before it is created.
pub fn validate_new_tool(tool: &NewTool) -> (r: Result<(), AppError>)
    ensures
        check_outcome(new_tool_problem(*tool), r),
{
    validate_tool_name(tool.name.as_str())?;
    validate_script_source(opt_as_str(&tool.script_body), opt_as_str(&tool.script_path))?;
    validate_timeout(tool.timeout_ms)
}

/// Checks a tool change before it is applied.
pub fn validate_update_tool(tool: &UpdateTool) -> (r: Result<(), AppError>)
    ensures
        check_outcome(update_tool_problem(*tool), r),
{
    if let Some(name) = &tool.name {
        validate_tool_name(name.as_str())?;
    }
    if let Some(timeout_ms) = tool.timeout_ms {
        validate_timeout(timeout_ms)?;
    }
    Ok(())
}

/// A category name as typed: trimmed, and dropped when blank.
pub fn sanitize_category(value: Option<String>) -> (r: Option<String>)
    ensures
        opt_view(r) == normalized(opt_view(value)),
{
    normalize_optional_text(opt_as_str(&value))
}

/// A category name that must not be blank.
pub fn category_name_from_input(name: String) -> (r: Result<String, AppError>)
    ensures
        r matches Ok(c) ==> trimmed(name@).len() > 0 && c@ == trimmed(name@),
        r is Err <==> trimmed(name@).len() == 0,
        r is Err ==> is_validation_error(r, "category name is required"@),
{
    match normalize_optional_text(Some(name.as_str())) {
        Some(c) => Ok(c),
        None => Err(AppError::validation("category name is required")),
    }
}

} // verus!
