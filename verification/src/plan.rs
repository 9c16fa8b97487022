//! How the arguments of a call become the environment of a run: each
//! parameter's value is found, coerced to its kind, checked against its
//! rules and exported under its own name and a `TOOL_` name.
use vstd::prelude::*;

use crate::domain::ParameterType;
use crate::error::AppError;
use crate::float::{length_limit, length_limit_of, less_than, less_than_bits, Number64};
use crate::json::{json_view, object_map, JsonNumber, JsonObject, JsonValue, JsonView};
use crate::pattern::{compile_pattern, pattern_matches, regex_compile_error, regex_finds_match};
use crate::rules::ToolParameter;
use crate::settings::AppSettings;
use crate::tool::Tool;
use crate::text::{normalize_optional_text, normalized, opt_str_view, opt_view};
use crate::text::{
    chars_of, concat2, concat3, decimal, fold_upper, i64_text, join_strings, joined, signed_decimal,
    str_eq, to_ascii_uppercase, u64_text, views,
};

verus! {

/// What turning a raw value into a number gave.  The platform computes it
/// with double-precision arithmetic before the parameters are resolved.
#[derive(Debug)]
pub enum NumberReading {
    /// The value the number becomes (a number, or `null` for a double that
    /// is not finite) and the double that this value reads as, if any.
    Number(JsonValue, Option<Number64>),
    /// The raw value is neither a number nor text that parses as one.
    NotANumber,
    /// An integer was asked for and the number has a fractional part.
    NotAnInteger,
}

/// A coerced value and the double it reads as, if any.
#[derive(Debug)]
pub struct Coerced {
    pub value: JsonValue,
    pub number: Option<Number64>,
}

/// A double by what the checks read of it: its bits and its display text.
pub open spec fn double_view(n: Option<Number64>) -> Option<(u64, Seq<char>)> {
    match n {
        Some(x) => Some((x.bits, x.text@)),
        None => None,
    }
}

/// `parameter `NAME` SUFFIX`.
pub open spec fn parameter_message(name: Seq<char>, suffix: Seq<char>) -> Seq<char> {
    "parameter `"@ + name + suffix
}

/// The text a value stands for when a string is expected: a string's own
/// text, a number's JSON text, or `true` / `false`.
pub open spec fn string_form(v: JsonView) -> Option<Seq<char>> {
    match v {
        JsonView::Str(s) => Some(s),
        JsonView::Int(i) => Some(signed_decimal(i)),
        JsonView::Float(_, t) => Some(t),
        JsonView::Bool(b) => Some(if b { "true"@ } else { "false"@ }),
        _ => None,
    }
}

/// The truth value a value stands for when a boolean is expected.
pub open spec fn boolean_form(v: JsonView) -> Option<bool> {
    match v {
        JsonView::Bool(b) => Some(b),
        JsonView::Str(s) => if s == "true"@ {
            Some(true)
        } else if s == "false"@ {
            Some(false)
        } else {
            None
        },
        _ => None,
    }
}

/// The outcome of coercing the value `v` for parameter `p`: the coerced
/// value and the double it reads as, or the error message.
pub open spec fn coerce_outcome(p: ToolParameter, v: JsonView, reading: Option<NumberReading>) -> Result<
    (JsonView, Option<(u64, Seq<char>)>),
    Seq<char>,
> {
    match p.parameter_type {
        ParameterType::String | ParameterType::Enum | ParameterType::Path => match string_form(v) {
            Some(s) => Ok((JsonView::Str(s), None)),
            None => Err(parameter_message(p.name@, "` must be string-compatible"@)),
        },
        ParameterType::Number => match reading {
            Some(NumberReading::Number(value, number)) => Ok((json_view(value), double_view(number))),
            Some(NumberReading::NotAnInteger) => Err(
                parameter_message(p.name@, "` must be an integer"@),
            ),
            _ => Err(parameter_message(p.name@, "` must be a number"@)),
        },
        ParameterType::Boolean => match boolean_form(v) {
            Some(b) => Ok((JsonView::Bool(b), None)),
            None => Err(parameter_message(p.name@, "` must be a boolean"@)),
        },
    }
}

/// A string argument keeps its text: for a String, Enum or Path
/// parameter, the JSON string `s` coerces to `s` and is exported as `s`.
pub proof fn lemma_string_argument_kept(p: ToolParameter, s: Seq<char>, reading: Option<NumberReading>)
    requires
        p.parameter_type == ParameterType::String || p.parameter_type == ParameterType::Enum
            || p.parameter_type == ParameterType::Path,
    ensures
        coerce_outcome(p, JsonView::Str(s), reading) == Ok::<_, Seq<char>>((JsonView::Str(s), None::<(u64, Seq<char>)>)),
        env_form(p.parameter_type, JsonView::Str(s), None) == Ok::<Seq<char>, Seq<char>>(s),
{
}

/// A boolean argument keeps its value: for a Boolean parameter, the JSON
/// boolean `b` coerces to `b` and is exported as `true` exactly when `b` is
/// true; the strings `true` and `false` coerce to the boolean they name.
pub proof fn lemma_boolean_argument_kept(p: ToolParameter, b: bool, reading: Option<NumberReading>)
    requires
        p.parameter_type == ParameterType::Boolean,
    ensures
        coerce_outcome(p, JsonView::Bool(b), reading) == Ok::<_, Seq<char>>((JsonView::Bool(b), None::<(u64, Seq<char>)>)),
        env_form(ParameterType::Boolean, JsonView::Bool(b), None) == Ok::<Seq<char>, Seq<char>>(
            if b { "true"@ } else { "false"@ },
        ),
        coerce_outcome(p, JsonView::Str("true"@), reading) == Ok::<_, Seq<char>>((JsonView::Bool(true), None::<(u64, Seq<char>)>)),
        coerce_outcome(p, JsonView::Str("false"@), reading) == Ok::<_, Seq<char>>((JsonView::Bool(false), None::<(u64, Seq<char>)>)),
{
    reveal_strlit("true");
    reveal_strlit("false");
    assert("false"@.len() != "true"@.len());
}

fn message(name: &str, suffix: &str) -> (r: AppError)
    ensures
        r matches AppError::Validation(m) && m@ == parameter_message(name@, suffix@),
{
    AppError::Validation(concat3("parameter `", name, suffix))
}

fn string_form_exec(v: &JsonValue) -> (r: Option<String>)
    ensures
        match r {
            Some(s) => string_form(json_view(*v)) == Some(s@),
            None => string_form(json_view(*v)) is None,
        },
{
    proof {
        reveal_strlit("true");
        reveal_strlit("false");
    }
    match v {
        JsonValue::String(s) => Some(s.clone()),
        JsonValue::Number(JsonNumber::PosInt(u)) => Some(u64_text(*u)),
        JsonValue::Number(JsonNumber::NegInt(i)) => Some(i64_text(*i)),
        JsonValue::Number(JsonNumber::Float(f)) => Some(f.json_text.clone()),
        JsonValue::Bool(b) => Some(
            String::from_str(
                if *b {
                    "true"
                } else {
                    "false"
                },
            ),
        ),
        JsonValue::Object(o) => {
            proof {
                crate::json::lemma_object_view(*o);
            }
            None
        },
        _ => None,
    }
}

fn boolean_form_exec(v: &JsonValue) -> (r: Option<bool>)
    ensures
        r == boolean_form(json_view(*v)),
{
    match v {
        JsonValue::Bool(b) => Some(*b),
        JsonValue::String(s) => {
            if str_eq(s.as_str(), "true") {
                Some(true)
            } else if str_eq(s.as_str(), "false") {
                Some(false)
            } else {
                None
            }
        },
        JsonValue::Object(o) => {
            proof {
                crate::json::lemma_object_view(*o);
            }
            None
        },
        _ => None,
    }
}

fn duplicate_number(n: &Option<Number64>) -> (r: Option<Number64>)
    ensures
        double_view(r) == double_view(*n),
        match (r, *n) {
            (Some(a), Some(b)) => a.json_text@ == b.json_text@,
            _ => true,
        },
{
    match n {
        Some(x) => Some(x.duplicate()),
        None => None,
    }
}

/// Coerces `value` to the kind of `parameter`; a number parameter takes
/// what `reading` says of the value.
pub fn coerce_value(parameter: &ToolParameter, value: &JsonValue, reading: Option<&NumberReading>) -> (r: Result<
    Coerced,
    AppError,
>)
    ensures
        match coerce_outcome(
            *parameter,
            json_view(*value),
            match reading {
                Some(x) => Some(*x),
                None => None,
            },
        ) {
            Ok((v, n)) => r matches Ok(c) && json_view(c.value) == v && double_view(c.number) == n,
            Err(m) => r matches Err(AppError::Validation(d)) && d@ == m,
        },
{
    let name = parameter.name.as_str();
    match parameter.parameter_type {
        ParameterType::String | ParameterType::Enum | ParameterType::Path => {
            match string_form_exec(value) {
                Some(s) => Ok(Coerced { value: JsonValue::String(s), number: None }),
                None => Err(message(name, "` must be string-compatible")),
            }
        },
        ParameterType::Number => match reading {
            Some(NumberReading::Number(v, n)) => Ok(
                Coerced { value: v.duplicate(), number: duplicate_number(n) },
            ),
            Some(NumberReading::NotAnInteger) => Err(message(name, "` must be an integer")),
            _ => Err(message(name, "` must be a number")),
        },
        ParameterType::Boolean => match boolean_form_exec(value) {
            Some(b) => Ok(Coerced { value: JsonValue::Bool(b), number: None }),
            None => Err(message(name, "` must be a boolean")),
        },
    }
}

/// The first rule that a coerced value breaks, in the order range, pattern,
/// allowed values.
pub open spec fn value_problem(p: ToolParameter, v: JsonView, number: Option<(u64, Seq<char>)>) -> Option<
    Seq<char>,
> {
    match range_problem(p, v, number) {
        Some(m) => Some(m),
        None => match pattern_problem(p, v) {
            Some(m) => Some(m),
            None => enum_problem(p, v),
        },
    }
}

/// The range rule: bounds on numbers, length bounds on text.
pub open spec fn range_problem(p: ToolParameter, v: JsonView, number: Option<(u64, Seq<char>)>) -> Option<
    Seq<char>,
> {
    let rules = p.validation;
    match p.parameter_type {
        ParameterType::Number => match number {
            None => Some(parameter_message(p.name@, "` must be a number"@)),
            Some((bits, _)) => {
                if rules.min matches Some(lo) && less_than(bits, lo.bits) {
                    Some(parameter_message(p.name@, "` must be at least "@ + rules.min->0.text@))
                } else if rules.max matches Some(hi) && less_than(hi.bits, bits) {
                    Some(parameter_message(p.name@, "` must be at most "@ + rules.max->0.text@))
                } else {
                    None
                }
            },
        },
        ParameterType::String | ParameterType::Path => match v {
            JsonView::Str(t) => {
                let lo = match rules.min {
                    Some(n) => length_limit_of(n.bits),
                    None => None,
                };
                let hi = match rules.max {
                    Some(n) => length_limit_of(n.bits),
                    None => None,
                };
                if lo matches Some(l) && t.len() < l {
                    Some(
                        parameter_message(
                            p.name@,
                            "` must be at least "@ + decimal(lo->0 as nat) + " characters"@,
                        ),
                    )
                } else if hi matches Some(h) && t.len() > h {
                    Some(
                        parameter_message(
                            p.name@,
                            "` must be at most "@ + decimal(hi->0 as nat) + " characters"@,
                        ),
                    )
                } else {
                    None
                }
            },
            _ => None,
        },
        _ => None,
    }
}

/// The pattern rule, which applies to text.
pub open spec fn pattern_problem(p: ToolParameter, v: JsonView) -> Option<Seq<char>> {
    match (p.validation.regex, v) {
        (Some(pattern), JsonView::Str(t)) => match regex_compile_error(pattern@) {
            Some(e) => Some("invalid regex for `"@ + p.name@ + "`: "@ + e),
            None => if regex_finds_match(pattern@, t) {
                None
            } else {
                Some(parameter_message(p.name@, "` does not match required pattern"@))
            },
        },
        _ => None,
    }
}

/// The allowed-values rule.
pub open spec fn enum_problem(p: ToolParameter, v: JsonView) -> Option<Seq<char>> {
    let allowed = p.validation.enum_values@;
    if allowed.len() == 0 {
        None
    } else {
        match v {
            JsonView::Str(t) => if exists|i: int| 0 <= i < allowed.len() && allowed[i]@ == t {
                None
            } else {
                Some(
                    parameter_message(p.name@, "` must be one of: "@ + joined(views(allowed), ", "@)),
                )
            },
            _ => Some(parameter_message(p.name@, "` must be one of the allowed values"@)),
        }
    }
}

fn validate_range(parameter: &ToolParameter, value: &Coerced) -> (r: Result<(), AppError>)
    ensures
        crate::domain::check_outcome(
            range_problem(*parameter, json_view(value.value), double_view(value.number)),
            r,
        ),
{
    let rules = &parameter.validation;
    let name = parameter.name.as_str();
    match parameter.parameter_type {
        ParameterType::Number => match &value.number {
            None => Err(message(name, "` must be a number")),
            Some(number) => {
                if let Some(minimum) = &rules.min {
                    if less_than_bits(number.bits, minimum.bits) {
                        return Err(
                            AppError::Validation(
                                concat3("parameter `", name, concat2("` must be at least ", minimum.text.as_str()).as_str()),
                            ),
                        );
                    }
                }
                if let Some(maximum) = &rules.max {
                    if less_than_bits(maximum.bits, number.bits) {
                        return Err(
                            AppError::Validation(
                                concat3("parameter `", name, concat2("` must be at most ", maximum.text.as_str()).as_str()),
                            ),
                        );
                    }
                }
                Ok(())
            },
        },
        ParameterType::String | ParameterType::Path => match value.value.as_str() {
            None => Ok(()),
            Some(text) => {
                let count = chars_of(text).len();
                if let Some(minimum) = length_limit(&rules.min) {
                    if (count as u64) < minimum {
                        let suffix = concat3("` must be at least ", u64_text(minimum).as_str(), " characters");
                        return Err(AppError::Validation(concat3("parameter `", name, suffix.as_str())));
                    }
                }
                if let Some(maximum) = length_limit(&rules.max) {
                    if (count as u64) > maximum {
                        let suffix = concat3("` must be at most ", u64_text(maximum).as_str(), " characters");
                        return Err(AppError::Validation(concat3("parameter `", name, suffix.as_str())));
                    }
                }
                Ok(())
            },
        },
        ParameterType::Boolean | ParameterType::Enum => Ok(()),
    }
}

fn validate_pattern(parameter: &ToolParameter, value: &Coerced) -> (r: Result<(), AppError>)
    ensures
        crate::domain::check_outcome(pattern_problem(*parameter, json_view(value.value)), r),
{
    let name = parameter.name.as_str();
    match (&parameter.validation.regex, value.value.as_str()) {
        (Some(pattern), Some(text)) => match compile_pattern(pattern.as_str()) {
            Err(error) => {
                let tail = concat2("`: ", error.as_str());
                let m = concat3("invalid regex for `", name, tail.as_str());
                assert(m@ =~= "invalid regex for `"@ + name@ + "`: "@ + error@);
                Err(AppError::Validation(m))
            },
            Ok(compiled) => if pattern_matches(&compiled, text) {
                Ok(())
            } else {
                Err(message(name, "` does not match required pattern"))
            },
        },
        _ => Ok(()),
    }
}

fn validate_enum(parameter: &ToolParameter, value: &Coerced) -> (r: Result<(), AppError>)
    ensures
        crate::domain::check_outcome(enum_problem(*parameter, json_view(value.value)), r),
{
    let allowed = &parameter.validation.enum_values;
    let name = parameter.name.as_str();
    if allowed.len() == 0 {
        return Ok(());
    }
    match value.value.as_str() {
        None => Err(message(name, "` must be one of the allowed values")),
        Some(text) => {
            let mut i: usize = 0;
            while i < allowed.len()
                invariant
                    allowed@ == parameter.validation.enum_values@,
                    allowed@.len() > 0,
                    json_view(value.value) == JsonView::Str(text@),
                    i <= allowed@.len(),
                    forall|k: int| 0 <= k < i ==> allowed@[k]@ != text@,
                decreases allowed@.len() - i,
            {
                if str_eq(allowed[i].as_str(), text) {
                    assert(allowed@[i as int]@ == text@);
                    return Ok(());
                }
                i = i + 1;
            }
            let listed = join_strings(allowed, ", ");
            Err(AppError::Validation(concat3("parameter `", name, concat2("` must be one of: ", listed.as_str()).as_str())))
        },
    }
}

/// Checks a coerced value against the rules of its parameter.
pub fn validate_value(parameter: &ToolParameter, value: &Coerced) -> (r: Result<(), AppError>)
    ensures
        crate::domain::check_outcome(
            value_problem(*parameter, json_view(value.value), double_view(value.number)),
            r,
        ),
{
    validate_range(parameter, value)?;
    validate_pattern(parameter, value)?;
    validate_enum(parameter, value)
}

/// The environment text of a coerced value: its text, the display text of
/// its double, or `true` / `false`.
pub open spec fn env_form(t: ParameterType, v: JsonView, number: Option<(u64, Seq<char>)>) -> Result<
    Seq<char>,
    Seq<char>,
> {
    match t {
        ParameterType::String | ParameterType::Enum | ParameterType::Path => match v {
            JsonView::Str(s) => Ok(s),
            _ => Err("expected string env value"@),
        },
        ParameterType::Number => match number {
            Some((_, text)) => Ok(text),
            None => Err("expected number env value"@),
        },
        ParameterType::Boolean => match v {
            JsonView::Bool(b) => Ok(if b { "true"@ } else { "false"@ }),
            _ => Err("expected boolean env value"@),
        },
    }
}

/// The text a coerced value is exported as.
pub fn value_to_env_string(parameter_type: &ParameterType, value: &Coerced) -> (r: Result<String, AppError>)
    ensures
        match env_form(*parameter_type, json_view(value.value), double_view(value.number)) {
            Ok(s) => r matches Ok(x) && x@ == s,
            Err(m) => r matches Err(AppError::Validation(d)) && d@ == m,
        },
{
    match parameter_type {
        ParameterType::String | ParameterType::Enum | ParameterType::Path => match value.value.as_str() {
            Some(s) => Ok(String::from_str(s)),
            None => Err(AppError::validation("expected string env value")),
        },
        ParameterType::Number => match &value.number {
            Some(n) => Ok(n.text.clone()),
            None => Err(AppError::validation("expected number env value")),
        },
        ParameterType::Boolean => match value.value.as_bool() {
            Some(b) => Ok(
                String::from_str(
                    if b {
                        "true"
                    } else {
                        "false"
                    },
                ),
            ),
            None => Err(AppError::validation("expected boolean env value")),
        },
    }
}

/// The second name a parameter is exported under: `TOOL_` and the name in
/// ASCII uppercase.
pub open spec fn prefixed_env_name(name: Seq<char>) -> Seq<char> {
    "TOOL_"@ + fold_upper(name)
}

/// The second name a parameter is exported under.
pub fn tool_prefixed_env_name(name: &str) -> (r: String)
    ensures
        r@ == prefixed_env_name(name@),
{
    let upper = to_ascii_uppercase(name);
    concat2("TOOL_", upper.as_str())
}

/// The value a parameter takes from the call: the argument of its name,
/// else its default, else nothing.
pub open spec fn candidate_of(p: ToolParameter, m: Map<Seq<char>, JsonView>) -> Option<JsonView> {
    if m.contains_key(p.name@) {
        Some(m[p.name@])
    } else {
        match p.default_value {
            Some(d) => Some(json_view(d)),
            None => None,
        }
    }
}

/// The value a parameter takes from the call.
pub fn parameter_candidate<'a>(parameter: &'a ToolParameter, object: &'a JsonObject) -> (r: Option<
    &'a JsonValue,
>)
    ensures
        match r {
            Some(v) => candidate_of(*parameter, object_map(*object)) == Some(json_view(*v)),
            None => candidate_of(*parameter, object_map(*object)) is None,
        },
{
    match object.get(parameter.name.as_str()) {
        Some(v) => Some(v),
        None => match &parameter.default_value {
            Some(d) => Some(d),
            None => None,
        },
    }
}

/// The reading given for the parameter at `i`, if any.
pub open spec fn reading_at(readings: Seq<Option<NumberReading>>, i: int) -> Option<NumberReading> {
    if 0 <= i < readings.len() {
        readings[i]
    } else {
        None
    }
}

/// Where resolving stands: the object to check against the input schema,
/// the normalized arguments, and the environment entries so far.
pub type ResolvedView = (
    Map<Seq<char>, JsonView>,
    Map<Seq<char>, JsonView>,
    Seq<(Seq<char>, Seq<char>)>,
);

/// Resolving one parameter `p` against the call arguments `m`.
pub open spec fn step_outcome(
    p: ToolParameter,
    m: Map<Seq<char>, JsonView>,
    reading: Option<NumberReading>,
    st: ResolvedView,
) -> Result<ResolvedView, Seq<char>> {
    let name = p.name@;
    match candidate_of(p, m) {
        None => if p.required {
            Err("missing required parameter `"@ + name + "`"@)
        } else {
            Ok((st.0.remove(name), st.1, st.2))
        },
        Some(v) => match coerce_outcome(p, v, reading) {
            Err(e) => Err(e),
            Ok((cv, number)) => match value_problem(p, cv, number) {
                Some(e) => Err(e),
                None => match env_form(p.parameter_type, cv, number) {
                    Err(e) => Err(e),
                    Ok(text) => Ok(
                        (
                            st.0.insert(name, cv),
                            st.1.insert(name, cv),
                            st.2.push((name, text)).push((prefixed_env_name(name), text)),
                        ),
                    ),
                },
            },
        },
    }
}

/// Resolving the first `n` parameters in order; the first failure stops.
pub open spec fn resolved_upto(
    ps: Seq<ToolParameter>,
    m: Map<Seq<char>, JsonView>,
    readings: Seq<Option<NumberReading>>,
    n: nat,
) -> Result<ResolvedView, Seq<char>>
    decreases n,
{
    if n == 0 {
        Ok((m, Map::empty(), Seq::empty()))
    } else {
        match resolved_upto(ps, m, readings, (n - 1) as nat) {
            Err(e) => Err(e),
            Ok(st) => step_outcome(ps[n - 1], m, reading_at(readings, n - 1), st),
        }
    }
}

proof fn lemma_failure_sticks(
    ps: Seq<ToolParameter>,
    m: Map<Seq<char>, JsonView>,
    readings: Seq<Option<NumberReading>>,
    k: nat,
    n: nat,
)
    requires
        k <= n,
        resolved_upto(ps, m, readings, k) is Err,
    ensures
        resolved_upto(ps, m, readings, n) == resolved_upto(ps, m, readings, k),
    decreases n,
{
    if n > k {
        lemma_failure_sticks(ps, m, readings, k, (n - 1) as nat);
    }
}

/// Environment entries that come in pairs: each value under a parameter's
/// name, then under `TOOL_` and the name in upper case.
pub open spec fn env_paired(e: Seq<(Seq<char>, Seq<char>)>) -> bool
    decreases e.len(),
{
    if e.len() == 0 {
        true
    } else if e.len() == 1 {
        false
    } else {
        &&& e[e.len() - 1] == (prefixed_env_name(e[e.len() - 2].0), e[e.len() - 2].1)
        &&& env_paired(e.subrange(0, e.len() - 2))
    }
}

/// What resolving the first `n` parameters gives, when it succeeds: the
/// environment holds each value under both names; every required
/// parameter, and every parameter with an argument or a default, has a
/// normalized value; and the normalized arguments and the environment
/// entries name parameters only.
pub open spec fn resolved_shape(
    ps: Seq<ToolParameter>,
    m: Map<Seq<char>, JsonView>,
    n: nat,
    st: ResolvedView,
) -> bool {
    &&& env_paired(st.2)
    &&& forall|i: int|
        0 <= i < n && ((#[trigger] ps[i]).required || candidate_of(ps[i], m) is Some)
            ==> st.1.contains_key(ps[i].name@)
    &&& forall|k: Seq<char>| #[trigger] st.1.contains_key(k) ==> exists|i: int| 0 <= i < n && ps[i].name@ == k
    &&& forall|j: int|
        0 <= j < st.2.len() ==> exists|i: int|
            0 <= i < n && ((#[trigger] st.2[j]).0 == ps[i].name@ || st.2[j].0 == prefixed_env_name(
                ps[i].name@,
            ))
}

proof fn lemma_resolved_upto_shape(
    ps: Seq<ToolParameter>,
    m: Map<Seq<char>, JsonView>,
    readings: Seq<Option<NumberReading>>,
    n: nat,
)
    requires
        n <= ps.len(),
        resolved_upto(ps, m, readings, n) is Ok,
    ensures
        resolved_shape(ps, m, n, resolved_upto(ps, m, readings, n)->Ok_0),
    decreases n,
{
    if n > 0 {
        let prev = resolved_upto(ps, m, readings, (n - 1) as nat);
        lemma_resolved_upto_shape(ps, m, readings, (n - 1) as nat);
        let st = prev->Ok_0;
        let p = ps[n - 1];
        let next = resolved_upto(ps, m, readings, n)->Ok_0;
        match candidate_of(p, m) {
            None => {
                assert(next.1 == st.1 && next.2 == st.2);
            },
            Some(v) => {
                let (cv, number) = coerce_outcome(p, v, reading_at(readings, n - 1))->Ok_0;
                let text = env_form(p.parameter_type, cv, number)->Ok_0;
                assert(next.1 == st.1.insert(p.name@, cv));
                assert(next.2 == st.2.push((p.name@, text)).push((prefixed_env_name(p.name@), text)));
                assert(next.2.subrange(0, next.2.len() - 2) =~= st.2);
                assert forall|j: int| 0 <= j < next.2.len() implies exists|i: int|
                    0 <= i < n && ((#[trigger] next.2[j]).0 == ps[i].name@ || next.2[j].0
                        == prefixed_env_name(ps[i].name@)) by {
                    if j < st.2.len() {
                        assert(next.2[j] == st.2[j]);
                        let i = choose|i: int|
                            0 <= i < n - 1 && ((#[trigger] st.2[j]).0 == ps[i].name@ || st.2[j].0
                                == prefixed_env_name(ps[i].name@));
                    } else {
                        assert(ps[n - 1].name@ == p.name@);
                    }
                }
                assert forall|k: Seq<char>| #[trigger] next.1.contains_key(k) implies exists|i: int|
                    0 <= i < n && ps[i].name@ == k by {
                    if k != p.name@ {
                        assert(st.1.contains_key(k));
                    } else {
                        assert(ps[n - 1].name@ == k);
                    }
                }
            },
        }
    }
}

/// When a call's arguments resolve, the environment holds each value twice
/// (under the parameter's name and under `TOOL_` and the upper-case name),
/// every required parameter and every parameter with an argument or a
/// default has a normalized value, and the normalized arguments and the
/// environment entries name parameters only.
pub proof fn lemma_resolve_outcome_shape(
    parameters: Seq<ToolParameter>,
    params: JsonView,
    readings: Seq<Option<NumberReading>>,
)
    requires
        resolve_outcome(parameters, params, readings) is Ok,
    ensures
        params is Object,
        resolved_shape(
            parameters,
            params->Object_0,
            parameters.len(),
            resolve_outcome(parameters, params, readings)->Ok_0,
        ),
{
    lemma_resolved_upto_shape(parameters, params->Object_0, readings, parameters.len());
}

/// Parameter names, and the environment names they give, that cannot
/// collide: distinct parameters have distinct names and distinct `TOOL_`
/// names, and no parameter's name is any parameter's `TOOL_` name.
pub open spec fn distinct_env_keys(ps: Seq<ToolParameter>) -> bool {
    forall|i: int, j: int|
        0 <= i < ps.len() && 0 <= j < ps.len() ==> {
            &&& i != j ==> (#[trigger] ps[i]).name@ != (#[trigger] ps[j]).name@
            &&& i != j ==> prefixed_env_name(ps[i].name@) != prefixed_env_name(ps[j].name@)
            &&& ps[i].name@ != prefixed_env_name(ps[j].name@)
        }
}

/// Whether some environment entry has the name `k`.
pub open spec fn env_has(e: Seq<(Seq<char>, Seq<char>)>, k: Seq<char>) -> bool {
    exists|j: int| 0 <= j < e.len() && (#[trigger] e[j]).0 == k
}

/// Among the first `n` parameters, those with a normalized value are
/// exactly those with an argument or a default.
pub open spec fn keys_normalized(ps: Seq<ToolParameter>, m: Map<Seq<char>, JsonView>, n: int, norm: Map<Seq<char>, JsonView>) -> bool {
    forall|i: int|
        0 <= i < n ==> (norm.contains_key((#[trigger] ps[i]).name@) <==> candidate_of(ps[i], m) is Some)
}

/// Among the first `n` parameters, those with an environment entry under
/// their name are exactly those with an argument or a default.
pub open spec fn keys_in_env(ps: Seq<ToolParameter>, m: Map<Seq<char>, JsonView>, n: int, e: Seq<(Seq<char>, Seq<char>)>) -> bool {
    forall|i: int| 0 <= i < n ==> (env_has(e, (#[trigger] ps[i]).name@) <==> candidate_of(ps[i], m) is Some)
}

/// Each of the first `n` parameters with a value has it under its name,
/// followed at once by the same value under its `TOOL_` name.
pub open spec fn keys_paired(ps: Seq<ToolParameter>, m: Map<Seq<char>, JsonView>, n: int, e: Seq<(Seq<char>, Seq<char>)>) -> bool {
    forall|i: int|
        #![trigger ps[i]]
        0 <= i < n && candidate_of(ps[i], m) is Some ==> exists|j: int|
            #![trigger e[j]]
            0 <= j && j + 1 < e.len() && e[j].0 == ps[i].name@ && e[j + 1] == (
                prefixed_env_name(ps[i].name@),
                e[j].1,
            )
}

/// Whether `key` is the name or the `TOOL_` name of one of the first `n`
/// parameters that has an argument or a default.
pub open spec fn owned_key(ps: Seq<ToolParameter>, m: Map<Seq<char>, JsonView>, n: int, key: Seq<char>) -> bool {
    exists|i: int|
        #![trigger ps[i]]
        0 <= i < n && candidate_of(ps[i], m) is Some && (key == ps[i].name@ || key == prefixed_env_name(
            ps[i].name@,
        ))
}

/// Every environment entry belongs to one of the first `n` parameters that
/// has a value, under its name or its `TOOL_` name.
pub open spec fn keys_owned(ps: Seq<ToolParameter>, m: Map<Seq<char>, JsonView>, n: int, e: Seq<(Seq<char>, Seq<char>)>) -> bool {
    forall|j: int| #![trigger e[j]] 0 <= j < e.len() ==> owned_key(ps, m, n, e[j].0)
}

/// No two environment entries have the same name.
pub open spec fn keys_unique(e: Seq<(Seq<char>, Seq<char>)>) -> bool {
    forall|j: int, k: int| 0 <= j < k < e.len() ==> (#[trigger] e[j]).0 != (#[trigger] e[k]).0
}

/// The keys that resolving the first `n` parameters gives, when names
/// cannot collide: a parameter has a normalized value and an environment
/// entry exactly when it has an argument or a default; its value then
/// stands under its name followed at once by its `TOOL_` name; every
/// environment entry belongs to such a parameter; and no name is given
/// twice.
pub open spec fn resolved_keys(
    ps: Seq<ToolParameter>,
    m: Map<Seq<char>, JsonView>,
    n: nat,
    st: ResolvedView,
) -> bool {
    &&& keys_normalized(ps, m, n as int, st.1)
    &&& keys_in_env(ps, m, n as int, st.2)
    &&& keys_paired(ps, m, n as int, st.2)
    &&& keys_owned(ps, m, n as int, st.2)
    &&& keys_unique(st.2)
}

proof fn lemma_new_names_differ(ps: Seq<ToolParameter>, n: int)
    requires
        0 < n <= ps.len(),
        distinct_env_keys(ps),
    ensures
        forall|i: int| 0 <= i < n - 1 ==> {
            &&& (#[trigger] ps[i]).name@ != ps[n - 1].name@
            &&& ps[i].name@ != prefixed_env_name(ps[n - 1].name@)
            &&& prefixed_env_name(ps[i].name@) != ps[n - 1].name@
            &&& prefixed_env_name(ps[i].name@) != prefixed_env_name(ps[n - 1].name@)
        },
        ps[n - 1].name@ != prefixed_env_name(ps[n - 1].name@),
{
    assert forall|i: int| 0 <= i < n - 1 implies {
        &&& (#[trigger] ps[i]).name@ != ps[n - 1].name@
        &&& ps[i].name@ != prefixed_env_name(ps[n - 1].name@)
        &&& prefixed_env_name(ps[i].name@) != ps[n - 1].name@
        &&& prefixed_env_name(ps[i].name@) != prefixed_env_name(ps[n - 1].name@)
    } by {
        let p = ps[i];
        let q = ps[n - 1];
        assert(p.name@ != q.name@);
        assert(p.name@ != prefixed_env_name(q.name@));
        assert(q.name@ != prefixed_env_name(p.name@));
    }
    let q = ps[n - 1];
    assert(q.name@ != prefixed_env_name(q.name@));
}

proof fn lemma_old_entries_differ(ps: Seq<ToolParameter>, m: Map<Seq<char>, JsonView>, n: int, e: Seq<(Seq<char>, Seq<char>)>)
    requires
        0 < n <= ps.len(),
        distinct_env_keys(ps),
        keys_owned(ps, m, n - 1, e),
    ensures
        forall|j: int| 0 <= j < e.len() ==> (#[trigger] e[j]).0 != ps[n - 1].name@ && e[j].0
            != prefixed_env_name(ps[n - 1].name@),
{
    lemma_new_names_differ(ps, n);
    assert forall|j: int| 0 <= j < e.len() implies (#[trigger] e[j]).0 != ps[n - 1].name@ && e[j].0
        != prefixed_env_name(ps[n - 1].name@) by {
        assert(owned_key(ps, m, n - 1, e[j].0));
        let i = choose|i: int|
            0 <= i < n - 1 && candidate_of(ps[i], m) is Some && (e[j].0 == ps[i].name@
                || e[j].0 == prefixed_env_name(ps[i].name@));
        assert(ps[i].name@ != ps[n - 1].name@);
    }
}

proof fn lemma_none_normalized(ps: Seq<ToolParameter>, m: Map<Seq<char>, JsonView>, n: int, norm: Map<Seq<char>, JsonView>)
    requires
        0 < n <= ps.len(),
        candidate_of(ps[n - 1], m) is None,
        !norm.contains_key(ps[n - 1].name@),
        keys_normalized(ps, m, n - 1, norm),
    ensures
        keys_normalized(ps, m, n, norm),
{
}

proof fn lemma_none_in_env(ps: Seq<ToolParameter>, m: Map<Seq<char>, JsonView>, n: int, e: Seq<(Seq<char>, Seq<char>)>)
    requires
        0 < n <= ps.len(),
        distinct_env_keys(ps),
        candidate_of(ps[n - 1], m) is None,
        keys_in_env(ps, m, n - 1, e),
        keys_owned(ps, m, n - 1, e),
    ensures
        keys_in_env(ps, m, n, e),
{
    lemma_old_entries_differ(ps, m, n, e);
    if env_has(e, ps[n - 1].name@) {
        let j = choose|j: int| 0 <= j < e.len() && (#[trigger] e[j]).0 == ps[n - 1].name@;
        assert(e[j].0 != ps[n - 1].name@);
    }
}

proof fn lemma_none_paired(ps: Seq<ToolParameter>, m: Map<Seq<char>, JsonView>, n: int, e: Seq<(Seq<char>, Seq<char>)>)
    requires
        0 < n <= ps.len(),
        candidate_of(ps[n - 1], m) is None,
        keys_paired(ps, m, n - 1, e),
    ensures
        keys_paired(ps, m, n, e),
{
}

proof fn lemma_owned_grows(ps: Seq<ToolParameter>, m: Map<Seq<char>, JsonView>, n: int, key: Seq<char>)
    requires
        owned_key(ps, m, n - 1, key),
    ensures
        owned_key(ps, m, n, key),
{
    let i = choose|i: int|
        #![trigger ps[i]]
        0 <= i < n - 1 && candidate_of(ps[i], m) is Some && (key == ps[i].name@ || key
            == prefixed_env_name(ps[i].name@));
    assert(0 <= i < n && candidate_of(ps[i], m) is Some);
}

proof fn lemma_none_owned(ps: Seq<ToolParameter>, m: Map<Seq<char>, JsonView>, n: int, e: Seq<(Seq<char>, Seq<char>)>)
    requires
        0 < n <= ps.len(),
        keys_owned(ps, m, n - 1, e),
    ensures
        keys_owned(ps, m, n, e),
{
    assert forall|j: int| #![trigger e[j]] 0 <= j < e.len() implies owned_key(ps, m, n, e[j].0) by {
        lemma_owned_grows(ps, m, n, e[j].0);
    }
}

/// The environment after a parameter's value is added.
pub open spec fn env_with(e: Seq<(Seq<char>, Seq<char>)>, name: Seq<char>, text: Seq<char>) -> Seq<(Seq<char>, Seq<char>)> {
    e.push((name, text)).push((prefixed_env_name(name), text))
}

proof fn lemma_env_with(e: Seq<(Seq<char>, Seq<char>)>, name: Seq<char>, text: Seq<char>)
    ensures
        env_with(e, name, text).len() == e.len() + 2,
        env_with(e, name, text)[e.len() as int] == (name, text),
        env_with(e, name, text)[e.len() as int + 1] == (prefixed_env_name(name), text),
        forall|j: int| 0 <= j < e.len() ==> #[trigger] env_with(e, name, text)[j] == e[j],
{
}

proof fn lemma_some_normalized(ps: Seq<ToolParameter>, m: Map<Seq<char>, JsonView>, n: int, norm: Map<Seq<char>, JsonView>, cv: JsonView)
    requires
        0 < n <= ps.len(),
        distinct_env_keys(ps),
        candidate_of(ps[n - 1], m) is Some,
        keys_normalized(ps, m, n - 1, norm),
    ensures
        keys_normalized(ps, m, n, norm.insert(ps[n - 1].name@, cv)),
{
    lemma_new_names_differ(ps, n);
    let norm2 = norm.insert(ps[n - 1].name@, cv);
    assert forall|i: int| 0 <= i < n implies (norm2.contains_key((#[trigger] ps[i]).name@)
        <==> candidate_of(ps[i], m) is Some) by {
        if i < n - 1 {
            assert(ps[i].name@ != ps[n - 1].name@);
        }
    }
}

proof fn lemma_some_in_env(ps: Seq<ToolParameter>, m: Map<Seq<char>, JsonView>, n: int, e: Seq<(Seq<char>, Seq<char>)>, text: Seq<char>)
    requires
        0 < n <= ps.len(),
        distinct_env_keys(ps),
        candidate_of(ps[n - 1], m) is Some,
        keys_in_env(ps, m, n - 1, e),
    ensures
        keys_in_env(ps, m, n, env_with(e, ps[n - 1].name@, text)),
{
    let name = ps[n - 1].name@;
    let f = env_with(e, name, text);
    let l = e.len() as int;
    lemma_env_with(e, name, text);
    lemma_new_names_differ(ps, n);
    assert forall|i: int| 0 <= i < n implies (env_has(f, (#[trigger] ps[i]).name@)
        <==> candidate_of(ps[i], m) is Some) by {
        if i < n - 1 {
            if env_has(f, ps[i].name@) {
                let j = choose|j: int| 0 <= j < f.len() && (#[trigger] f[j]).0 == ps[i].name@;
                if j < l {
                    assert(f[j] == e[j]);
                    assert(env_has(e, ps[i].name@));
                } else {
                    assert(ps[i].name@ != name && ps[i].name@ != prefixed_env_name(name));
                }
            }
            if env_has(e, ps[i].name@) {
                let j = choose|j: int| 0 <= j < e.len() && (#[trigger] e[j]).0 == ps[i].name@;
                assert(f[j] == e[j]);
            }
        } else {
            assert(f[l].0 == name);
        }
    }
}

proof fn lemma_some_paired(ps: Seq<ToolParameter>, m: Map<Seq<char>, JsonView>, n: int, e: Seq<(Seq<char>, Seq<char>)>, text: Seq<char>)
    requires
        0 < n <= ps.len(),
        candidate_of(ps[n - 1], m) is Some,
        keys_paired(ps, m, n - 1, e),
    ensures
        keys_paired(ps, m, n, env_with(e, ps[n - 1].name@, text)),
{
    let name = ps[n - 1].name@;
    let f = env_with(e, name, text);
    let l = e.len() as int;
    lemma_env_with(e, name, text);
    assert forall|i: int| 0 <= i < n && candidate_of(#[trigger] ps[i], m) is Some implies exists|j: int|
        0 <= j && j + 1 < f.len() && f[j].0 == ps[i].name@ && f[j + 1] == (
            prefixed_env_name(ps[i].name@),
            f[j].1,
        ) by {
        if i < n - 1 {
            let j = choose|j: int|
                0 <= j && j + 1 < e.len() && e[j].0 == ps[i].name@ && e[j + 1] == (
                    prefixed_env_name(ps[i].name@),
                    e[j].1,
                );
            assert(f[j] == e[j] && f[j + 1] == e[j + 1]);
        } else {
            assert(f[l].0 == ps[i].name@);
        }
    }
}

proof fn lemma_some_owned(ps: Seq<ToolParameter>, m: Map<Seq<char>, JsonView>, n: int, e: Seq<(Seq<char>, Seq<char>)>, text: Seq<char>)
    requires
        0 < n <= ps.len(),
        candidate_of(ps[n - 1], m) is Some,
        keys_owned(ps, m, n - 1, e),
    ensures
        keys_owned(ps, m, n, env_with(e, ps[n - 1].name@, text)),
{
    let name = ps[n - 1].name@;
    let f = env_with(e, name, text);
    let l = e.len() as int;
    lemma_env_with(e, name, text);
    assert forall|j: int| #![trigger f[j]] 0 <= j < f.len() implies owned_key(ps, m, n, f[j].0) by {
        if j < l {
            assert(f[j] == e[j]);
            lemma_owned_grows(ps, m, n, e[j].0);
        } else {
            assert(ps[n - 1].name@ == name);
            assert(0 <= n - 1 < n && candidate_of(ps[n - 1], m) is Some);
        }
    }
}

proof fn lemma_some_unique(ps: Seq<ToolParameter>, m: Map<Seq<char>, JsonView>, n: int, e: Seq<(Seq<char>, Seq<char>)>, text: Seq<char>)
    requires
        0 < n <= ps.len(),
        distinct_env_keys(ps),
        keys_owned(ps, m, n - 1, e),
        keys_unique(e),
    ensures
        keys_unique(env_with(e, ps[n - 1].name@, text)),
{
    let name = ps[n - 1].name@;
    let f = env_with(e, name, text);
    let l = e.len() as int;
    lemma_env_with(e, name, text);
    lemma_new_names_differ(ps, n);
    lemma_old_entries_differ(ps, m, n, e);
    assert forall|j: int, k: int| 0 <= j < k < f.len() implies (#[trigger] f[j]).0 != (#[trigger] f[k]).0 by {
        if k < l {
            assert(f[j] == e[j] && f[k] == e[k]);
        } else if j < l {
            assert(f[j] == e[j]);
        }
    }
}

proof fn lemma_resolved_upto_keys(
    ps: Seq<ToolParameter>,
    m: Map<Seq<char>, JsonView>,
    readings: Seq<Option<NumberReading>>,
    n: nat,
)
    requires
        n <= ps.len(),
        distinct_env_keys(ps),
        resolved_upto(ps, m, readings, n) is Ok,
    ensures
        resolved_keys(ps, m, n, resolved_upto(ps, m, readings, n)->Ok_0),
    decreases n,
{
    if n > 0 {
        let prev = resolved_upto(ps, m, readings, (n - 1) as nat);
        lemma_resolved_upto_keys(ps, m, readings, (n - 1) as nat);
        lemma_resolved_upto_shape(ps, m, readings, (n - 1) as nat);
        let st = prev->Ok_0;
        let p = ps[n - 1];
        let next = resolved_upto(ps, m, readings, n)->Ok_0;
        match candidate_of(p, m) {
            None => {
                assert(next.1 == st.1 && next.2 == st.2);
                if st.1.contains_key(p.name@) {
                    let i = choose|i: int| 0 <= i < n - 1 && ps[i].name@ == p.name@;
                    lemma_new_names_differ(ps, n as int);
                    assert(ps[i].name@ != ps[n - 1].name@);
                }
                lemma_none_normalized(ps, m, n as int, st.1);
                lemma_none_in_env(ps, m, n as int, st.2);
                lemma_none_paired(ps, m, n as int, st.2);
                lemma_none_owned(ps, m, n as int, st.2);
            },
            Some(v) => {
                let (cv, number) = coerce_outcome(p, v, reading_at(readings, n - 1))->Ok_0;
                let text = env_form(p.parameter_type, cv, number)->Ok_0;
                assert(next.1 == st.1.insert(p.name@, cv));
                assert(next.2 == env_with(st.2, p.name@, text));
                lemma_some_normalized(ps, m, n as int, st.1, cv);
                lemma_some_in_env(ps, m, n as int, st.2, text);
                lemma_some_paired(ps, m, n as int, st.2, text);
                lemma_some_owned(ps, m, n as int, st.2, text);
                lemma_some_unique(ps, m, n as int, st.2, text);
            },
        }
    }
}

proof fn lemma_logged_keys(
    ps: Seq<ToolParameter>,
    m: Map<Seq<char>, JsonView>,
    st: ResolvedView,
    working_dir: Option<Seq<char>>,
)
    requires
        keys_normalized(ps, m, ps.len() as int, st.1),
        forall|k: Seq<char>| #[trigger] st.1.contains_key(k) ==> exists|i: int| 0 <= i < ps.len() && ps[i].name@ == k,
        forall|i: int| 0 <= i < ps.len() ==> (#[trigger] ps[i]).name@ != "working_dir"@,
    ensures
        forall|k: Seq<char>|
            #[trigger] logged_arguments(st, working_dir).contains_key(k) <==> ((exists|i: int|
                0 <= i < ps.len() && ps[i].name@ == k && candidate_of(ps[i], m) is Some) || (k
                == "working_dir"@ && working_dir is Some)),
{
    assert forall|k: Seq<char>| #[trigger] logged_arguments(st, working_dir).contains_key(k) <==> ((exists|i: int|
        0 <= i < ps.len() && ps[i].name@ == k && candidate_of(ps[i], m) is Some) || (k == "working_dir"@
        && working_dir is Some)) by {
        if st.1.contains_key(k) {
            let i = choose|i: int| 0 <= i < ps.len() && ps[i].name@ == k;
            assert(ps[i].name@ != "working_dir"@);
            assert(st.1.contains_key(ps[i].name@));
        }
        if exists|i: int| 0 <= i < ps.len() && ps[i].name@ == k && candidate_of(ps[i], m) is Some {
            let i = choose|i: int| 0 <= i < ps.len() && ps[i].name@ == k && candidate_of(ps[i], m) is Some;
            assert(st.1.contains_key(ps[i].name@));
        }
    }
}

/// When a call's arguments resolve and the parameters' names cannot
/// collide, each parameter has a normalized value and an environment entry
/// exactly when the call gives it an argument or it has a default; its
/// value stands under its own name and at once under its `TOOL_` name;
/// every environment entry belongs to such a parameter and no entry name
/// repeats.  When no parameter is named `working_dir`, the logged
/// arguments are those values and `working_dir` exactly when a working
/// directory was chosen.
pub proof fn lemma_resolve_outcome_keys(
    parameters: Seq<ToolParameter>,
    params: JsonView,
    readings: Seq<Option<NumberReading>>,
    working_dir: Option<Seq<char>>,
)
    requires
        resolve_outcome(parameters, params, readings) is Ok,
        distinct_env_keys(parameters),
    ensures
        params is Object,
        resolved_keys(
            parameters,
            params->Object_0,
            parameters.len(),
            resolve_outcome(parameters, params, readings)->Ok_0,
        ),
        (forall|i: int| 0 <= i < parameters.len() ==> (#[trigger] parameters[i]).name@ != "working_dir"@)
            ==> forall|k: Seq<char>|
            #[trigger] logged_arguments(resolve_outcome(parameters, params, readings)->Ok_0, working_dir).contains_key(k)
                <==> ((exists|i: int|
                0 <= i < parameters.len() && parameters[i].name@ == k && candidate_of(
                    parameters[i],
                    params->Object_0,
                ) is Some) || (k == "working_dir"@ && working_dir is Some)),
{
    let m = params->Object_0;
    let n = parameters.len();
    lemma_resolved_upto_keys(parameters, m, readings, n);
    lemma_resolved_upto_shape(parameters, m, readings, n);
    let st = resolve_outcome(parameters, params, readings)->Ok_0;
    if forall|i: int| 0 <= i < parameters.len() ==> (#[trigger] parameters[i]).name@ != "working_dir"@ {
        lemma_logged_keys(parameters, m, st, working_dir);
    }
}

/// The arguments of a call, resolved against the parameters of a tool.
#[derive(Debug)]
pub struct Resolved {
    pub validation: JsonObject,
    pub normalized: JsonObject,
    pub env: Vec<(String, String)>,
}

/// The environment entries as pairs of texts.
pub open spec fn env_view(env: Seq<(String, String)>) -> Seq<(Seq<char>, Seq<char>)> {
    Seq::new(env.len(), |i: int| (env[i].0@, env[i].1@))
}

/// The meaning of resolved arguments.
pub open spec fn resolved_view(r: Resolved) -> ResolvedView {
    (object_map(r.validation), object_map(r.normalized), env_view(r.env@))
}

/// The outcome of resolving the call arguments `params` for `parameters`:
/// they must form an object; then each parameter is resolved in order.
pub open spec fn resolve_outcome(
    parameters: Seq<ToolParameter>,
    params: JsonView,
    readings: Seq<Option<NumberReading>>,
) -> Result<ResolvedView, Seq<char>> {
    match params {
        JsonView::Object(m) => resolved_upto(parameters, m, readings, parameters.len()),
        _ => Err("params must be a JSON object keyed by parameter name"@),
    }
}

/// Resolves the arguments of a call: finds each parameter's value, coerces
/// and checks it, and collects the environment.  `readings[i]` is what
/// turning the value of parameter `i` into a number gave, for number
/// parameters.
pub fn resolve_parameters(
    parameters: &Vec<ToolParameter>,
    params: &JsonValue,
    readings: &Vec<Option<NumberReading>>,
) -> (r: Result<Resolved, AppError>)
    ensures
        match resolve_outcome(parameters@, json_view(*params), readings@) {
            Ok(st) => r matches Ok(res) && resolved_view(res) == st,
            Err(m) => r matches Err(AppError::Validation(d)) && d@ == m,
        },
{
    let object = match params {
        JsonValue::Object(o) => o,
        _ => {
            return Err(AppError::validation("params must be a JSON object keyed by parameter name"));
        },
    };
    proof {
        crate::json::lemma_object_view(*object);
    }
    let ghost m = object_map(*object);
    let mut res = Resolved {
        validation: object.duplicate(),
        normalized: JsonObject::new(),
        env: Vec::new(),
    };
    assert(env_view(res.env@) =~= Seq::<(Seq<char>, Seq<char>)>::empty());
    let mut i: usize = 0;
    while i < parameters.len()
        invariant
            i <= parameters@.len(),
            m == object_map(*object),
            *params == JsonValue::Object(*object),
            json_view(*params) == JsonView::Object(m),
            resolved_upto(parameters@, m, readings@, i as nat) == Ok::<ResolvedView, Seq<char>>(
                resolved_view(res),
            ),
        decreases parameters@.len() - i,
    {
        let parameter = &parameters[i];
        let reading = if i < readings.len() {
            match &readings[i] {
                Some(x) => Some(x),
                None => None,
            }
        } else {
            None
        };
        let ghost st = resolved_view(res);
        let ghost step = step_outcome(parameters@[i as int], m, reading_at(readings@, i as int), st);
        assert(resolved_upto(parameters@, m, readings@, (i + 1) as nat) == step);
        let outcome: Result<(), AppError> = match parameter_candidate(parameter, object) {
            None => {
                if parameter.required {
                    let msg = concat3("missing required parameter `", parameter.name.as_str(), "`");
                    Err(AppError::Validation(msg))
                } else {
                    res.validation.remove(parameter.name.as_str());
                    Ok(())
                }
            },
            Some(value) => {
                match coerce_value(parameter, value, reading) {
                    Err(e) => Err(e),
                    Ok(coerced) => match validate_value(parameter, &coerced) {
                        Err(e) => Err(e),
                        Ok(()) => match value_to_env_string(&parameter.parameter_type, &coerced) {
                            Err(e) => Err(e),
                            Ok(text) => {
                                let ghost env_before = res.env@;
                                res.validation.insert(parameter.name.clone(), coerced.value.duplicate());
                                res.normalized.insert(parameter.name.clone(), coerced.value);
                                res.env.push((parameter.name.clone(), text.clone()));
                                res.env.push((tool_prefixed_env_name(parameter.name.as_str()), text));
                                assert(env_view(res.env@) =~= env_view(env_before).push(
                                    (parameter.name@, text@),
                                ).push((prefixed_env_name(parameter.name@), text@)));
                                Ok(())
                            },
                        },
                    },
                }
            },
        };
        match outcome {
            Err(e) => {
                proof {
                    lemma_failure_sticks(
                        parameters@,
                        m,
                        readings@,
                        (i + 1) as nat,
                        parameters@.len(),
                    );
                }
                return Err(e);
            },
            Ok(()) => {},
        }
        i = i + 1;
    }
    Ok(res)
}

/// What the `working_dir` argument asks for: nothing when it is absent or
/// `null`, its trimmed text when that is not blank; any other value is an
/// error.
pub open spec fn working_dir_argument_outcome(m: Map<Seq<char>, JsonView>) -> Result<
    Option<Seq<char>>,
    Seq<char>,
> {
    if !m.contains_key("working_dir"@) {
        Ok(None)
    } else {
        match m["working_dir"@] {
            JsonView::Str(t) => Ok(normalized(Some(t))),
            JsonView::Null => Ok(None),
            _ => Err("working_dir must be a string path"@),
        }
    }
}

/// The first of the given options that holds a value.
pub open spec fn first_of(a: Option<Seq<char>>, b: Option<Seq<char>>) -> Option<Seq<char>> {
    match a {
        Some(x) => Some(x),
        None => b,
    }
}

/// The working directory a run asks for, before it is checked on disk: the
/// `working_dir` argument when the tool exposes it, else the directory the
/// run names, else the tool's, else the default one (each trimmed, blank
/// ones skipped).  A tool that requires a directory fails without one.
pub open spec fn requested_dir_outcome(
    tool: Tool,
    m: Map<Seq<char>, JsonView>,
    run_working_dir: Option<Seq<char>>,
    settings: AppSettings,
) -> Result<Option<Seq<char>>, Seq<char>> {
    let argument = if tool.working_dir_expose {
        working_dir_argument_outcome(m)
    } else {
        Ok(None)
    };
    match argument {
        Err(e) => Err(e),
        Ok(a) => {
            let requested = first_of(
                a,
                first_of(
                    normalized(run_working_dir),
                    first_of(
                        normalized(opt_view(tool.working_dir)),
                        normalized(opt_view(settings.default_working_dir)),
                    ),
                ),
            );
            match requested {
                None => if tool.working_dir_required {
                    Err("working directory is required for this tool"@)
                } else {
                    Ok(None)
                },
                Some(r) => Ok(Some(r)),
            }
        },
    }
}

/// Whether a run asks for no directory through the `working_dir`
/// argument: the tool hides it, or the argument is absent or `null`.
pub open spec fn no_directory_argument(tool: Tool, m: Map<Seq<char>, JsonView>) -> bool {
    !tool.working_dir_expose || !m.contains_key("working_dir"@) || m["working_dir"@] == JsonView::Null
}

/// The order in which a run's working directory is chosen: a non-blank
/// `working_dir` argument of a tool that exposes it comes first, then a
/// non-blank directory named by the run, then the tool's own non-blank
/// directory, whatever the default of the settings, and the default only
/// when none of those is there.  Each is taken trimmed.
pub proof fn lemma_requested_dir_precedence(
    tool: Tool,
    m: Map<Seq<char>, JsonView>,
    run_working_dir: Option<Seq<char>>,
    settings: AppSettings,
)
    ensures
        tool.working_dir_expose && m.contains_key("working_dir"@) ==> (m["working_dir"@] matches JsonView::Str(t)
            ==> (crate::text::trimmed(t).len() > 0 ==> requested_dir_outcome(tool, m, run_working_dir, settings)
            == Ok::<_, Seq<char>>(Some(crate::text::trimmed(t))))),
        no_directory_argument(tool, m) ==> (run_working_dir matches Some(r) ==> (crate::text::trimmed(r).len() > 0
            ==> requested_dir_outcome(tool, m, run_working_dir, settings) == Ok::<_, Seq<char>>(
            Some(crate::text::trimmed(r)),
        ))),
        no_directory_argument(tool, m) && normalized(run_working_dir) is None ==> (tool.working_dir matches Some(d)
            ==> (crate::text::trimmed(d@).len() > 0 ==> requested_dir_outcome(tool, m, run_working_dir, settings)
            == Ok::<_, Seq<char>>(Some(crate::text::trimmed(d@))))),
        no_directory_argument(tool, m) && normalized(run_working_dir) is None && normalized(opt_view(tool.working_dir))
            is None ==> (settings.default_working_dir matches Some(d) ==> (crate::text::trimmed(d@).len() > 0
            ==> requested_dir_outcome(tool, m, run_working_dir, settings) == Ok::<_, Seq<char>>(
            Some(crate::text::trimmed(d@)),
        ))),
        no_directory_argument(tool, m) && normalized(run_working_dir) is None && normalized(opt_view(tool.working_dir))
            is None && normalized(opt_view(settings.default_working_dir)) is None ==> requested_dir_outcome(
            tool,
            m,
            run_working_dir,
            settings,
        ) == if tool.working_dir_required {
            Err::<Option<Seq<char>>, Seq<char>>("working directory is required for this tool"@)
        } else {
            Ok::<Option<Seq<char>>, Seq<char>>(None)
        },
{
}

fn working_dir_argument(params: &JsonObject) -> (r: Result<Option<String>, AppError>)
    ensures
        match working_dir_argument_outcome(object_map(*params)) {
            Ok(o) => r matches Ok(x) && opt_view(x) == o,
            Err(m) => r matches Err(AppError::Validation(d)) && d@ == m,
        },
{
    proof {
        reveal_strlit("working_dir");
    }
    match params.get("working_dir") {
        None => Ok(None),
        Some(value) => match value {
            JsonValue::String(text) => Ok(normalize_optional_text(Some(text.as_str()))),
            JsonValue::Null => Ok(None),
            JsonValue::Object(o) => {
                proof {
                    crate::json::lemma_object_view(*o);
                }
                Err(AppError::validation("working_dir must be a string path"))
            },
            _ => Err(AppError::validation("working_dir must be a string path")),
        },
    }
}

fn opt_as_str(o: &Option<String>) -> (r: Option<&str>)
    ensures
        opt_str_view(r) == opt_view(*o),
{
    match o {
        Some(s) => Some(s.as_str()),
        None => None,
    }
}

/// The working directory a run asks for, before it is checked on disk.
pub fn requested_working_dir(
    tool: &Tool,
    params: &JsonObject,
    run_working_dir: Option<&str>,
    settings: &AppSettings,
) -> (r: Result<Option<String>, AppError>)
    ensures
        match requested_dir_outcome(*tool, object_map(*params), opt_str_view(run_working_dir), *settings) {
            Ok(o) => r matches Ok(x) && opt_view(x) == o,
            Err(m) => r matches Err(AppError::Validation(d)) && d@ == m,
        },
{
    let argument = if tool.working_dir_expose {
        working_dir_argument(params)?
    } else {
        None
    };
    let requested = match argument {
        Some(a) => Some(a),
        None => match normalize_optional_text(run_working_dir) {
            Some(b) => Some(b),
            None => match normalize_optional_text(opt_as_str(&tool.working_dir)) {
                Some(c) => Some(c),
                None => normalize_optional_text(opt_as_str(&settings.default_working_dir)),
            },
        },
    };
    match requested {
        None => if tool.working_dir_required {
            Err(AppError::validation("working directory is required for this tool"))
        } else {
            Ok(None)
        },
        Some(r) => Ok(Some(r)),
    }
}

/// A path as the file system resolved it: its display text, its
/// components, and whether it is a directory.
#[derive(Debug)]
pub struct CanonicalPath {
    pub display: String,
    pub components: Vec<String>,
    pub is_dir: bool,
}

/// Whether the components `base` begin the components `path`
/// (`Path::starts_with`).
pub open spec fn components_prefix(base: Seq<Seq<char>>, path: Seq<Seq<char>>) -> bool {
    base.len() <= path.len() && forall|i: int| 0 <= i < base.len() ==> base[i] == path[i]
}

/// The resolved form of the allowed base path at `i`, if there is one.
pub open spec fn base_at(bases: Seq<Option<CanonicalPath>>, i: int) -> Option<CanonicalPath> {
    if 0 <= i < bases.len() {
        bases[i]
    } else {
        None
    }
}

/// Whether the allowed base path at `i` is usable: not blank, and resolved.
pub open spec fn usable_base(allowed: Seq<String>, bases: Seq<Option<CanonicalPath>>, i: int) -> bool {
    0 <= i < allowed.len() && normalized(Some(allowed[i]@)) is Some && base_at(bases, i) is Some
}

/// The outcome of checking a requested working directory: `requested` is
/// what was asked for, `resolved` what the file system made of it (or the
/// text of the error), `allowed` the allowed base paths and `bases` what
/// the file system made of each of them (nothing when it failed).  The
/// directory must exist, be a directory, and lie under a usable base path.
pub open spec fn allowed_dir_outcome(
    requested: Seq<char>,
    resolved: Result<CanonicalPath, String>,
    allowed: Seq<String>,
    bases: Seq<Option<CanonicalPath>>,
) -> Result<Seq<char>, Seq<char>> {
    match resolved {
        Err(io) => Err("working directory `"@ + requested + "` is not accessible: "@ + io@),
        Ok(c) => if !c.is_dir {
            Err("working directory `"@ + c.display@ + "` is not a directory"@)
        } else if allowed.len() == 0 {
            Err("no allowed base paths are configured"@)
        } else if exists|i: int|
            usable_base(allowed, bases, i) && components_prefix(
                crate::text::views(base_at(bases, i)->0.components@),
                crate::text::views(c.components@),
            ) {
            Ok(c.display@)
        } else if exists|i: int| usable_base(allowed, bases, i) {
            Err("working directory `"@ + c.display@ + "` is outside the allowed base paths"@)
        } else {
            Err("allowed base paths do not contain an accessible directory"@)
        },
    }
}

fn components_start_with(path: &Vec<String>, base: &Vec<String>) -> (r: bool)
    ensures
        r == components_prefix(crate::text::views(base@), crate::text::views(path@)),
{
    if base.len() > path.len() {
        return false;
    }
    let mut i: usize = 0;
    while i < base.len()
        invariant
            base@.len() <= path@.len(),
            i <= base@.len(),
            forall|k: int| 0 <= k < i ==> base@[k]@ == path@[k]@,
        decreases base@.len() - i,
    {
        if !str_eq(base[i].as_str(), path[i].as_str()) {
            assert(crate::text::views(base@)[i as int] != crate::text::views(path@)[i as int]);
            return false;
        }
        i = i + 1;
    }
    true
}

/// Checks a requested working directory against the allowed base paths,
/// and gives the display text of the resolved directory.
pub fn allowed_working_dir(
    requested: &str,
    resolved: &Result<CanonicalPath, String>,
    allowed_base_paths: &Vec<String>,
    resolved_bases: &Vec<Option<CanonicalPath>>,
) -> (r: Result<String, AppError>)
    ensures
        match allowed_dir_outcome(requested@, *resolved, allowed_base_paths@, resolved_bases@) {
            Ok(d) => r matches Ok(x) && x@ == d,
            Err(m) => r matches Err(AppError::Validation(d)) && d@ == m,
        },
{
    let path = match resolved {
        Err(io) => {
            let tail = concat2("` is not accessible: ", io.as_str());
            let m = concat3("working directory `", requested, tail.as_str());
            assert(m@ =~= "working directory `"@ + requested@ + "` is not accessible: "@ + io@);
            return Err(AppError::Validation(m));
        },
        Ok(p) => p,
    };
    if !path.is_dir {
        return Err(
            AppError::Validation(
                concat3("working directory `", path.display.as_str(), "` is not a directory"),
            ),
        );
    }
    if allowed_base_paths.len() == 0 {
        return Err(AppError::validation("no allowed base paths are configured"));
    }
    let mut has_valid_base = false;
    let mut i: usize = 0;
    while i < allowed_base_paths.len()
        invariant
            *resolved == Ok::<CanonicalPath, String>(*path),
            path.is_dir,
            allowed_base_paths@.len() > 0,
            i <= allowed_base_paths@.len(),
            has_valid_base == exists|k: int| 0 <= k < i && usable_base(allowed_base_paths@, resolved_bases@, k),
            forall|k: int|
                0 <= k < i && usable_base(allowed_base_paths@, resolved_bases@, k) ==> !components_prefix(
                    crate::text::views(base_at(resolved_bases@, k)->0.components@),
                    crate::text::views(path.components@),
                ),
        decreases allowed_base_paths@.len() - i,
    {
        let trimmed = normalize_optional_text(Some(allowed_base_paths[i].as_str()));
        if trimmed.is_some() && i < resolved_bases.len() {
            match &resolved_bases[i] {
                None => {},
                Some(base) => {
                    assert(usable_base(allowed_base_paths@, resolved_bases@, i as int));
                    has_valid_base = true;
                    if components_start_with(&path.components, &base.components) {
                        assert(base_at(resolved_bases@, i as int)->0 == *base);
                        return Ok(path.display.clone());
                    }
                },
            }
        }
        i = i + 1;
    }
    assert(forall|k: int| usable_base(allowed_base_paths@, resolved_bases@, k) ==> 0 <= k < i);
    if has_valid_base {
        Err(
            AppError::Validation(
                concat3(
                    "working directory `",
                    path.display.as_str(),
                    "` is outside the allowed base paths",
                ),
            ),
        )
    } else {
        Err(AppError::validation("allowed base paths do not contain an accessible directory"))
    }
}

/// A run ready to start: its environment entries in order (a later entry
/// replaces an earlier one of the same name), the normalized arguments it
/// is logged with, and its working directory.
#[derive(Debug)]
pub struct ExecutionPlan {
    pub env: Vec<(String, String)>,
    pub params_json: JsonValue,
    pub working_dir: Option<String>,
}

/// The object checked against the input schema: the resolved arguments,
/// with the working directory as `working_dir` when the tool exposes it,
/// and without any `working_dir` when it does not.
pub open spec fn schema_instance(
    expose: bool,
    st: ResolvedView,
    working_dir: Option<Seq<char>>,
) -> Map<Seq<char>, JsonView> {
    if expose {
        match working_dir {
            Some(p) => st.0.insert("working_dir"@, JsonView::Str(p)),
            None => st.0,
        }
    } else {
        st.0.remove("working_dir"@)
    }
}

/// The arguments a run is logged with: the normalized arguments and the
/// working directory, if any.
pub open spec fn logged_arguments(st: ResolvedView, working_dir: Option<Seq<char>>) -> Map<
    Seq<char>,
    JsonView,
> {
    match working_dir {
        Some(p) => st.1.insert("working_dir"@, JsonView::Str(p)),
        None => st.1,
    }
}

/// Puts a run together from resolved arguments and its checked working
/// directory; also gives the object to check against the input schema.
pub fn assemble_plan(tool: &Tool, resolved: Resolved, working_dir: Option<String>) -> (r: (
    JsonValue,
    ExecutionPlan,
))
    ensures
        json_view(r.0) == JsonView::Object(
            schema_instance(tool.working_dir_expose, resolved_view(resolved), opt_view(working_dir)),
        ),
        json_view(r.1.params_json) == JsonView::Object(
            logged_arguments(resolved_view(resolved), opt_view(working_dir)),
        ),
        env_view(r.1.env@) == resolved_view(resolved).2,
        opt_view(r.1.working_dir) == opt_view(working_dir),
{
    let Resolved { mut validation, mut normalized, env } = resolved;
    if tool.working_dir_expose {
        if let Some(path) = &working_dir {
            validation.insert(String::from_str("working_dir"), JsonValue::String(path.clone()));
        }
    } else {
        validation.remove("working_dir");
    }
    if let Some(path) = &working_dir {
        normalized.insert(String::from_str("working_dir"), JsonValue::String(path.clone()));
    }
    proof {
        crate::json::lemma_object_view(validation);
        crate::json::lemma_object_view(normalized);
    }
    (
        JsonValue::Object(validation),
        ExecutionPlan { env, params_json: JsonValue::Object(normalized), working_dir },
    )
}

proof fn lemma_resolved_ignores_key(
    ps: Seq<ToolParameter>,
    m: Map<Seq<char>, JsonView>,
    readings: Seq<Option<NumberReading>>,
    n: nat,
    k: Seq<char>,
)
    requires
        n <= ps.len(),
        forall|i: int| 0 <= i < ps.len() ==> (#[trigger] ps[i]).name@ != k,
    ensures
        ({
            let a = resolved_upto(ps, m, readings, n);
            let b = resolved_upto(ps, m.remove(k), readings, n);
            &&& a is Ok <==> b is Ok
            &&& a is Err ==> a == b
            &&& a is Ok ==> (a->Ok_0.1 == b->Ok_0.1 && a->Ok_0.2 == b->Ok_0.2 && a->Ok_0.0.remove(k)
                == b->Ok_0.0)
        }),
    decreases n,
{
    if n == 0 {
        assert(m.remove(k) =~= m.remove(k));
    } else {
        lemma_resolved_ignores_key(ps, m, readings, (n - 1) as nat, k);
        let p = ps[n - 1];
        assert(p.name@ != k);
        let mk = m.remove(k);
        assert(candidate_of(p, m) == candidate_of(p, mk));
        let pa = resolved_upto(ps, m, readings, (n - 1) as nat);
        let pb = resolved_upto(ps, mk, readings, (n - 1) as nat);
        if pa is Ok {
            let sa = pa->Ok_0;
            let sb = pb->Ok_0;
            let name = p.name@;
            assert(sa.0.remove(name).remove(k) =~= sb.0.remove(name));
            match candidate_of(p, m) {
                Some(v) => {
                    match coerce_outcome(p, v, reading_at(readings, n - 1)) {
                        Ok((cv, number)) => {
                            assert(sa.0.insert(name, cv).remove(k) =~= sb.0.insert(name, cv));
                        },
                        Err(_) => {},
                    }
                },
                None => {},
            }
        }
    }
}

/// For a tool that does not expose its working directory and has no
/// parameter named `working_dir`, a `working_dir` argument changes
/// nothing: resolving the arguments fails or succeeds alike, with the same
/// error, the same logged arguments, environment and object checked
/// against the schema, and the same requested working directory.
pub proof fn lemma_hidden_working_dir_ignored(
    tool: Tool,
    m: Map<Seq<char>, JsonView>,
    readings: Seq<Option<NumberReading>>,
    run_working_dir: Option<Seq<char>>,
    settings: AppSettings,
    working_dir: Option<Seq<char>>,
)
    requires
        !tool.working_dir_expose,
        forall|i: int| 0 <= i < tool.parameters@.len() ==> (#[trigger] tool.parameters@[i]).name@ != "working_dir"@,
    ensures
        ({
            let a = resolve_outcome(tool.parameters@, JsonView::Object(m), readings);
            let b = resolve_outcome(tool.parameters@, JsonView::Object(m.remove("working_dir"@)), readings);
            &&& a is Ok <==> b is Ok
            &&& a is Err ==> a == b
            &&& a is Ok ==> {
                &&& schema_instance(false, a->Ok_0, working_dir) == schema_instance(false, b->Ok_0, working_dir)
                &&& logged_arguments(a->Ok_0, working_dir) == logged_arguments(b->Ok_0, working_dir)
                &&& a->Ok_0.2 == b->Ok_0.2
            }
        }),
        requested_dir_outcome(tool, m, run_working_dir, settings) == requested_dir_outcome(
            tool,
            m.remove("working_dir"@),
            run_working_dir,
            settings,
        ),
{
    let ps = tool.parameters@;
    lemma_resolved_ignores_key(ps, m, readings, ps.len(), "working_dir"@);
    let a = resolved_upto(ps, m, readings, ps.len());
    let b = resolved_upto(ps, m.remove("working_dir"@), readings, ps.len());
    if a is Ok {
        assert(a->Ok_0.0.remove("working_dir"@) == b->Ok_0.0.remove("working_dir"@)) by {
            assert(b->Ok_0.0.remove("working_dir"@) =~= a->Ok_0.0.remove("working_dir"@).remove(
                "working_dir"@,
            ));
        }
    }
}

} // verus!
