//! Checking call arguments against the input schema of a tool with a JSON
//! Schema validator.
use vstd::prelude::*;

use crate::encode::{json_text, json_text_of};
use crate::error::{is_validation_error, AppError};
use crate::json::{json_view, JsonValue, JsonView};
use crate::schema::{input_schema, input_schema_map};
use crate::text::{concat2, concat3, join_strings, joined, views};
use crate::tool::Tool;

verus! {

/// What the JSON Schema validator answers when the JSON text
/// `instance_text` is checked against the schema written in the JSON text
/// `schema_text`: the instance location and the message of each error, in
/// the order the validator reports them, or a message when a text is no
/// JSON or the schema is no valid schema.
pub uninterp spec fn json_schema_check(schema_text: Seq<char>, instance_text: Seq<char>) -> Result<
    Seq<(Seq<char>, Seq<char>)>,
    Seq<char>,
>;

/// The validator's answer as plain sequences.
pub open spec fn answer_view(a: Result<Vec<(String, String)>, String>) -> Result<
    Seq<(Seq<char>, Seq<char>)>,
    Seq<char>,
> {
    match a {
        Ok(errors) => Ok(errors@.map_values(|e: (String, String)| (e.0@, e.1@))),
        Err(m) => Err(m@),
    }
}

/// Checks `instance_text` against the schema in `schema_text`: both are
/// read with `serde_json::from_str`, the validator is built with
/// `jsonschema::validator_for`, and each error of `iter_errors` is given
/// as its instance path and its display text.  The contract claims that
/// the answer depends on the two texts alone; what the validator reports
/// for given texts is not stated.
#[verifier::external_body]
fn json_schema_errors(schema_text: &str, instance_text: &str) -> (r: Result<Vec<(String, String)>, String>)
    ensures
        answer_view(r) == json_schema_check(schema_text@, instance_text@),
{
    let schema: serde_json::Value = serde_json::from_str(schema_text).map_err(|e| e.to_string())?;
    let instance: serde_json::Value = serde_json::from_str(instance_text).map_err(|e| e.to_string())?;
    let validator = jsonschema::validator_for(&schema).map_err(|e| e.to_string())?;
    let mut errors = Vec::new();
    for error in validator.iter_errors(&instance) {
        errors.push((error.instance_path().to_string(), error.to_string()));
    }
    Ok(errors)
}

/// How one validator error is reported: `location: message`, or the bare
/// message when the location is the whole instance.
pub open spec fn schema_error_text(e: (Seq<char>, Seq<char>)) -> Seq<char> {
    if e.0.len() == 0 {
        e.1
    } else {
        e.0 + ": "@ + e.1
    }
}

/// The reports of a list of validator errors.
pub open spec fn schema_error_texts(es: Seq<(Seq<char>, Seq<char>)>) -> Seq<Seq<char>> {
    es.map_values(|e: (Seq<char>, Seq<char>)| schema_error_text(e))
}

/// The outcome of a schema check for the validator's answer: an internal
/// error when the validator could not run, success when it found no error,
/// else a validation error listing the reports separated by `; `.
pub open spec fn schema_check_outcome(
    answer: Result<Seq<(Seq<char>, Seq<char>)>, Seq<char>>,
    r: Result<(), AppError>,
) -> bool {
    match answer {
        Err(m) => r matches Err(AppError::Internal(d)) && d@ == "invalid generated JSON Schema: "@ + m,
        Ok(es) => if es.len() == 0 {
            r is Ok
        } else {
            is_validation_error(r, joined(schema_error_texts(es), "; "@))
        },
    }
}

/// Turns the validator's answer into the outcome of the check.
pub fn schema_answer_outcome(answer: Result<Vec<(String, String)>, String>) -> (r: Result<(), AppError>)
    ensures
        schema_check_outcome(answer_view(answer), r),
{
    match answer {
        Err(m) => Err(AppError::Internal(concat2("invalid generated JSON Schema: ", m.as_str()))),
        Ok(errors) => {
            if errors.len() == 0 {
                return Ok(());
            }
            let ghost es = errors@.map_values(|e: (String, String)| (e.0@, e.1@));
            let mut reports: Vec<String> = Vec::new();
            let mut i: usize = 0;
            while i < errors.len()
                invariant
                    i <= errors@.len(),
                    es == errors@.map_values(|e: (String, String)| (e.0@, e.1@)),
                    reports@.len() == i,
                    forall|k: int| 0 <= k < i ==> (#[trigger] reports@[k])@ == schema_error_text(es[k]),
                decreases errors@.len() - i,
            {
                let path = errors[i].0.as_str();
                let message = errors[i].1.as_str();
                let report = if path.is_empty() {
                    String::from_str(message)
                } else {
                    concat3(path, ": ", message)
                };
                reports.push(report);
                i = i + 1;
            }
            assert(views(reports@) =~= schema_error_texts(es));
            Err(AppError::Validation(join_strings(&reports, "; ")))
        },
    }
}

/// Checks call arguments against the input schema of `tool`: the schema
/// and the arguments are written as JSON text and handed to the JSON
/// Schema validator, whose answer decides the outcome.  The schema is the
/// value `input_schema` builds, whose meaning is the tool's input schema.
pub fn validate_with_json_schema(tool: &Tool, instance: &JsonValue) -> (r: Result<(), AppError>)
    ensures
        exists|schema: JsonValue|
            #![trigger json_text_of(schema)]
            json_view(schema) == JsonView::Object(
                input_schema_map(tool.parameters@, tool.working_dir_expose, tool.working_dir_required),
            ) && schema_check_outcome(
                json_schema_check(json_text_of(schema), json_text_of(*instance)),
                r,
            ),
{
    let schema = input_schema(tool);
    let schema_text = json_text(&schema);
    let instance_text = json_text(instance);
    let answer = json_schema_errors(schema_text.as_str(), instance_text.as_str());
    let r = schema_answer_outcome(answer);
    assert(json_text_of(schema) == schema_text@);
    r
}

} // verus!
