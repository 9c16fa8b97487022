//! Tool parameters, the validation rules attached to them, and the checks
//! that a parameter definition must pass.
use vstd::prelude::*;

use crate::domain::{
    check_outcome, is_valid_parameter_name, parameter_name_message, validate_parameter_name,
    ParameterType,
};
use crate::error::AppError;
use crate::float::{is_finite, is_finite_bits, less_than, less_than_bits, Number64};
use crate::json::JsonValue;
use crate::pattern::{compile_pattern, regex_compile_error};
use crate::text::concat2;

verus! {

/// Constraints on the values a parameter accepts.
#[derive(Debug)]
pub struct ValidationRules {
    pub min: Option<Number64>,
    pub max: Option<Number64>,
    pub regex: Option<String>,
    pub format: Option<String>,
    pub integer: bool,
    pub enum_values: Vec<String>,
}

/// A parameter of a stored tool.
#[derive(Debug)]
pub struct ToolParameter {
    pub id: u128,
    pub tool_id: u128,
    pub name: String,
    pub parameter_type: ParameterType,
    pub description: Option<String>,
    pub required: bool,
    pub default_value: Option<JsonValue>,
    pub validation: ValidationRules,
    pub position: i64,
}

/// A parameter definition as it is submitted for creation.
#[derive(Debug)]
pub struct NewParameter {
    pub name: String,
    pub parameter_type: ParameterType,
    pub description: Option<String>,
    pub required: bool,
    pub default_value: Option<JsonValue>,
    pub validation: ValidationRules,
    pub position: i64,
}

/// A partial change to a parameter: each field that is present replaces
/// the stored one.
#[derive(Debug)]
pub struct UpdateParameter {
    pub name: Option<String>,
    pub parameter_type: Option<ParameterType>,
    pub description: Option<String>,
    pub required: Option<bool>,
    pub default_value: Option<JsonValue>,
    pub validation: Option<ValidationRules>,
    pub position: Option<i64>,
}

impl ValidationRules {
    /// No constraints at all.
    pub fn empty() -> (r: ValidationRules)
        ensures
            r.min is None,
            r.max is None,
            r.regex is None,
            r.format is None,
            !r.integer,
            r.enum_values@.len() == 0,
    {
        ValidationRules {
            min: None,
            max: None,
            regex: None,
            format: None,
            integer: false,
            enum_values: Vec::new(),
        }
    }
}

/// The first problem of a set of rules for a parameter of kind `t`, if
/// any, in the order the checks are made.
pub open spec fn rules_problem(t: ParameterType, v: ValidationRules) -> Option<Seq<char>> {
    if t == ParameterType::Enum && v.enum_values@.len() == 0 {
        Some("enum parameters must define enum_values"@)
    } else if v.integer && t != ParameterType::Number {
        Some("integer validation only applies to number parameters"@)
    } else if (v.min is Some || v.max is Some) && (t == ParameterType::Boolean || t
        == ParameterType::Enum) {
        Some("min/max validation only applies to string, path, or number parameters"@)
    } else if v.min matches Some(m) && !is_finite(m.bits) {
        Some("min must be finite"@)
    } else if v.max matches Some(m) && !is_finite(m.bits) {
        Some("max must be finite"@)
    } else if v.min matches Some(lo) && v.max matches Some(hi) && less_than(hi.bits, lo.bits) {
        Some("min must be less than or equal to max"@)
    } else {
        match v.regex {
            Some(p) => match regex_compile_error(p@) {
                Some(e) => Some("invalid regex: "@ + e),
                None => None,
            },
            None => None,
        }
    }
}

/// Checks the rules of a parameter of kind `parameter_type`.
pub fn validate_parameter_rules(parameter_type: &ParameterType, validation: &ValidationRules) -> (r:
    Result<(), AppError>)
    ensures
        check_outcome(rules_problem(*parameter_type, *validation), r),
{
    if *parameter_type == ParameterType::Enum && validation.enum_values.len() == 0 {
        return Err(AppError::validation("enum parameters must define enum_values"));
    }
    if validation.integer && *parameter_type != ParameterType::Number {
        return Err(AppError::validation("integer validation only applies to number parameters"));
    }
    let has_range = validation.min.is_some() || validation.max.is_some();
    if has_range && (*parameter_type == ParameterType::Boolean || *parameter_type
        == ParameterType::Enum) {
        return Err(
            AppError::validation(
                "min/max validation only applies to string, path, or number parameters",
            ),
        );
    }
    if let Some(minimum) = &validation.min {
        if !is_finite_bits(minimum.bits) {
            return Err(AppError::validation("min must be finite"));
        }
    }
    if let Some(maximum) = &validation.max {
        if !is_finite_bits(maximum.bits) {
            return Err(AppError::validation("max must be finite"));
        }
    }
    if let (Some(minimum), Some(maximum)) = (&validation.min, &validation.max) {
        if less_than_bits(maximum.bits, minimum.bits) {
            return Err(AppError::validation("min must be less than or equal to max"));
        }
    }
    if let Some(pattern) = &validation.regex {
        match compile_pattern(pattern.as_str()) {
            Ok(_) => {},
            Err(message) => {
                return Err(AppError::Validation(concat2("invalid regex: ", message.as_str())));
            },
        }
    }
    Ok(())
}

/// The first problem of a new parameter: its name, then its rules.
pub open spec fn new_parameter_problem(p: NewParameter) -> Option<Seq<char>> {
    if !is_valid_parameter_name(p.name@) {
        Some(parameter_name_message())
    } else {
        rules_problem(p.parameter_type, p.validation)
    }
}

/// The first problem of a parameter change: a name that is given must be
/// valid; rules are checked when both a kind and rules are given.
pub open spec fn update_parameter_problem(p: UpdateParameter) -> Option<Seq<char>> {
    if p.name matches Some(n) && !is_valid_parameter_name(n@) {
        Some(parameter_name_message())
    } else {
        match (p.parameter_type, p.validation) {
            (Some(t), Some(v)) => rules_problem(t, v),
            _ => None,
        }
    }
}

/// Checks a parameter definition before it is created.
pub fn validate_parameter(parameter: &NewParameter) -> (r: Result<(), AppError>)
    ensures
        check_outcome(new_parameter_problem(*parameter), r),
{
    validate_parameter_name(parameter.name.as_str())?;
    validate_parameter_rules(&parameter.parameter_type, &parameter.validation)
}

/// Checks a parameter change before it is applied.
pub fn validate_parameter_update(parameter: &UpdateParameter) -> (r: Result<(), AppError>)
    ensures
        check_outcome(update_parameter_problem(*parameter), r),
{
    if let Some(name) = &parameter.name {
        validate_parameter_name(name.as_str())?;
    }
    if let (Some(parameter_type), Some(validation)) = (&parameter.parameter_type, &parameter.validation) {
        validate_parameter_rules(parameter_type, validation)?;
    }
    Ok(())
}

} // verus!
