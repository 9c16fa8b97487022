//! The tools a fresh installation starts with: a debate tool that asks
//! the local Codex command-line client for a second opinion.
use vstd::prelude::*;

use crate::domain::{NewTool, ParameterType};
use crate::float::Number64;
use crate::json::{json_view, JsonValue, JsonView};
use crate::rules::{NewParameter, ValidationRules};
use crate::text::concat3;

verus! {

/// A seed tool definition.
pub struct DefaultToolSpec {
    pub name: &'static str,
    pub description: &'static str,
    pub category: &'static str,
    /// The client's part of the script; the debate prompt follows it.
    pub client_script: &'static str,
    pub timeout_ms: i64,
    pub working_dir_expose: bool,
    pub enabled: bool,
    pub parameters: Vec<DefaultParameterSpec>,
}

/// The default value of a seed parameter.
#[derive(Debug, Clone, Copy)]
pub enum DefaultParameterValue {
    Absent,
    Text(&'static str),
}

/// A bound of a seed parameter: the number's bit pattern and its two
/// texts.
#[derive(Debug, Clone, Copy)]
pub struct DefaultBound {
    pub bits: u64,
    pub text: &'static str,
    pub json_text: &'static str,
}

/// The validation rules of a seed parameter.
pub struct DefaultValidationSpec {
    pub min: Option<DefaultBound>,
    pub max: Option<DefaultBound>,
    pub enum_values: Vec<&'static str>,
}

/// A seed parameter definition.
pub struct DefaultParameterSpec {
    pub name: &'static str,
    pub parameter_type: ParameterType,
    pub description: &'static str,
    pub required: bool,
    pub default_value: DefaultParameterValue,
    pub validation: DefaultValidationSpec,
}

pub const AI_CLI_DEBATE_CODEX_SCRIPT: &'static str = r###"#!/usr/bin/env sh
set -eu

selected_label="Codex CLI"

codex_bin() {
  if [ -n "${CODEX_BIN:-}" ]; then
    [ -x "${CODEX_BIN}" ] || return 1
    printf '%s\n' "$CODEX_BIN"
  elif command -v codex >/dev/null 2>&1; then
    command -v codex
  elif [ -x "/Applications/Codex.app/Contents/Resources/codex" ]; then
    printf '%s\n' "/Applications/Codex.app/Contents/Resources/codex"
  else
    return 1
  fi
}

run_debate_prompt() {
  prompt_text="$1"
  if ! bin="$(codex_bin)"; then
    printf '%s\n' "Codex CLI is not available." >&2
    exit 127
  fi

  if [ -n "${model:-}" ]; then
    "$bin" -a never exec --skip-git-repo-check --sandbox read-only --color never -m "$model" "$prompt_text" </dev/null
  else
    "$bin" -a never exec --skip-git-repo-check --sandbox read-only --color never "$prompt_text" </dev/null
  fi
}
"###;
pub const AI_CLI_DEBATE_PROMPT_SCRIPT: &'static str = r###"
language_instruction() {
  case "${language:-tr}" in
    tr) printf '%s\n' "Respond in Turkish." ;;
    en) printf '%s\n' "Respond in English." ;;
    original) printf '%s\n' "Use the most natural language for the request." ;;
    *) printf '%s\n' "Respond in Turkish." ;;
  esac
}

topic_text="${topic:-}"
if [ -z "$topic_text" ]; then
  printf '%s\n' "topic is required" >&2
  exit 2
fi

mode_instruction="Challenge Codex's current position, identify weak assumptions, and propose stronger alternatives."
case "${mode:-critic}" in
  steelman)
    mode_instruction="First steelman Codex's position, then explain the best opposing argument."
    ;;
  judge)
    mode_instruction="Act as a neutral judge. Compare Codex's position with the strongest counter-position and decide what would change your mind."
    ;;
  red_team)
    mode_instruction="Red-team Codex's position professionally. Focus on failure modes, hidden risks, and missing evidence."
    ;;
esac

PROMPT="$(printf '%s\n' \
  "You are ${selected_label} in a structured debate with the primary Codex session." \
  "$(language_instruction)" \
  "" \
  "Debate mode:" \
  "${mode:-critic}" \
  "" \
  "Mode instruction:" \
  "$mode_instruction" \
  "" \
  "Topic or decision under debate:" \
  "$topic_text" \
  "" \
  "Primary Codex current position:" \
  "${codex_position:-No Codex position was provided. Infer a reasonable target from the topic and clearly state your assumption.}" \
  "" \
  "Additional context:" \
  "${context:-No additional context was provided.}" \
  "" \
  "Rules:" \
  "- Be direct and specific, not performatively agreeable." \
  "- Separate evidence from inference." \
  "- If a claim needs current facts or external verification, flag it explicitly." \
  "- Keep the answer useful for the primary Codex session to respond to in the next turn." \
  "" \
  "Return exactly these sections:" \
  "## ${selected_label} Stance" \
  "## Strongest Agreement" \
  "## Main Disagreement" \
  "## Risks / Missing Evidence" \
  "## Questions For Codex" \
  "## Suggested Next Move")"

run_debate_prompt "$PROMPT"
"###;

/// The script of a debate seed: its client's part, a line break, then the
/// debate prompt.
pub open spec fn debate_script(client_script: Seq<char>) -> Seq<char> {
    client_script + "\n"@ + AI_CLI_DEBATE_PROMPT_SCRIPT@
}

/// The script of the Codex debate tool.
pub open spec fn codex_script() -> Seq<char> {
    debate_script(AI_CLI_DEBATE_CODEX_SCRIPT@)
}

/// The script of the Codex debate tool.
pub fn codex_debate_script() -> (r: String)
    ensures
        r@ == codex_script(),
{
    concat3(AI_CLI_DEBATE_CODEX_SCRIPT, "\n", AI_CLI_DEBATE_PROMPT_SCRIPT)
}

/// The JSON form of a seed default value.
pub open spec fn default_value_view(v: DefaultParameterValue) -> Option<JsonView> {
    match v {
        DefaultParameterValue::Absent => None,
        DefaultParameterValue::Text(t) => Some(JsonView::Str(t@)),
    }
}

impl DefaultParameterValue {
    /// The default value as JSON.
    pub fn to_json(&self) -> (r: Option<JsonValue>)
        ensures
            match r {
                Some(j) => default_value_view(*self) == Some(json_view(j)),
                None => default_value_view(*self) is None,
            },
    {
        match self {
            DefaultParameterValue::Absent => None,
            DefaultParameterValue::Text(t) => Some(JsonValue::String(String::from_str(t))),
        }
    }
}

/// Whether a number carries the given seed bound.
pub open spec fn number_from_bound(n: Number64, b: DefaultBound) -> bool {
    n.bits == b.bits && n.text@ == b.text@ && n.json_text@ == b.json_text@
}

/// Whether an optional number carries the optional seed bound.
pub open spec fn opt_number_from_bound(n: Option<Number64>, b: Option<DefaultBound>) -> bool {
    match (n, b) {
        (Some(x), Some(y)) => number_from_bound(x, y),
        (None, None) => true,
        _ => false,
    }
}

/// The number that a seed bound stands for.
fn bound_number(b: &DefaultBound) -> (r: Number64)
    ensures
        number_from_bound(r, *b),
{
    Number64 { bits: b.bits, text: String::from_str(b.text), json_text: String::from_str(b.json_text) }
}

fn opt_bound_number(b: &Option<DefaultBound>) -> (r: Option<Number64>)
    ensures
        opt_number_from_bound(r, *b),
{
    match b {
        Some(x) => Some(bound_number(x)),
        None => None,
    }
}

/// The texts of a list of seed strings.
pub open spec fn str_views(v: Seq<&'static str>) -> Seq<Seq<char>> {
    v.map_values(|s: &'static str| s@)
}

/// The texts of a list of strings.
pub open spec fn string_views(v: Seq<String>) -> Seq<Seq<char>> {
    v.map_values(|s: String| s@)
}

impl DefaultValidationSpec {
    /// Rules that bound a length, with no other constraint.
    pub fn length(min: Option<DefaultBound>, max: Option<DefaultBound>) -> (r: Self)
        ensures
            r.min == min,
            r.max == max,
            r.enum_values@.len() == 0,
    {
        DefaultValidationSpec { min, max, enum_values: Vec::new() }
    }

    /// Rules that allow only the given values.
    pub fn enumeration(enum_values: Vec<&'static str>) -> (r: Self)
        ensures
            r.min is None,
            r.max is None,
            r.enum_values == enum_values,
    {
        DefaultValidationSpec { min: None, max: None, enum_values }
    }

    /// The validation rules these stand for.
    pub fn to_rules(&self) -> (r: ValidationRules)
        ensures
            opt_number_from_bound(r.min, self.min),
            opt_number_from_bound(r.max, self.max),
            r.regex is None,
            r.format is None,
            !r.integer,
            string_views(r.enum_values@) == str_views(self.enum_values@),
    {
        let mut values: Vec<String> = Vec::new();
        let mut i: usize = 0;
        while i < self.enum_values.len()
            invariant
                i <= self.enum_values@.len(),
                values@.len() == i,
                forall|k: int| 0 <= k < i ==> #[trigger] values@[k]@ == self.enum_values@[k]@,
            decreases self.enum_values@.len() - i,
        {
            values.push(String::from_str(self.enum_values[i]));
            i = i + 1;
        }
        assert(string_views(values@) =~= str_views(self.enum_values@));
        ValidationRules {
            min: opt_bound_number(&self.min),
            max: opt_bound_number(&self.max),
            regex: None,
            format: None,
            integer: false,
            enum_values: values,
        }
    }
}

impl DefaultParameterSpec {
    /// The parameter definition this seed stands for, at the given position.
    pub fn new_parameter(&self, position: i64) -> (r: NewParameter)
        ensures
            r.name@ == self.name@,
            r.parameter_type == self.parameter_type,
            r.description matches Some(d) && d@ == self.description@,
            r.required == self.required,
            match r.default_value {
                Some(j) => default_value_view(self.default_value) == Some(json_view(j)),
                None => default_value_view(self.default_value) is None,
            },
            opt_number_from_bound(r.validation.min, self.validation.min),
            opt_number_from_bound(r.validation.max, self.validation.max),
            r.validation.regex is None,
            r.validation.format is None,
            !r.validation.integer,
            string_views(r.validation.enum_values@) == str_views(self.validation.enum_values@),
            r.position == position,
    {
        NewParameter {
            name: String::from_str(self.name),
            parameter_type: self.parameter_type,
            description: Some(String::from_str(self.description)),
            required: self.required,
            default_value: self.default_value.to_json(),
            validation: self.validation.to_rules(),
            position,
        }
    }

    /// The parameter's name.
    pub fn name(&self) -> (r: &str)
        ensures
            r@ == self.name@,
    {
        self.name
    }
}

impl DefaultToolSpec {
    /// The tool's name.
    pub fn name(&self) -> (r: &str)
        ensures
            r@ == self.name@,
    {
        self.name
    }

    /// The tool's parameter seeds, in order.
    pub fn parameters(&self) -> (r: &[DefaultParameterSpec])
        ensures
            r@ == self.parameters@,
    {
        self.parameters.as_slice()
    }

    /// The tool definition this seed stands for.
    pub fn new_tool(&self) -> (r: NewTool)
        ensures
            r.name@ == self.name@,
            r.description@ == self.description@,
            r.category matches Some(c) && c@ == self.category@,
            r.script_body matches Some(b) && b@ == debate_script(self.client_script@),
            r.script_path is None,
            r.working_dir is None,
            r.working_dir_expose == self.working_dir_expose,
            !r.working_dir_required,
            r.timeout_ms == self.timeout_ms,
            r.enabled == self.enabled,
    {
        let script = concat3(self.client_script, "\n", AI_CLI_DEBATE_PROMPT_SCRIPT);
        NewTool {
            name: String::from_str(self.name),
            description: String::from_str(self.description),
            category: Some(String::from_str(self.category)),
            script_body: Some(script),
            script_path: None,
            working_dir: None,
            working_dir_expose: self.working_dir_expose,
            working_dir_required: false,
            timeout_ms: self.timeout_ms,
            enabled: self.enabled,
        }
    }
}

/// A bound of 1.
pub open spec fn bound_one() -> DefaultBound {
    DefaultBound { bits: 0x3ff0_0000_0000_0000, text: "1", json_text: "1.0" }
}

fn one() -> (r: DefaultBound)
    ensures
        r == bound_one(),
{
    DefaultBound { bits: 0x3ff0_0000_0000_0000, text: "1", json_text: "1.0" }
}

/// A bound of 24000.
pub open spec fn bound_topic_limit() -> DefaultBound {
    DefaultBound { bits: 0x40d7_7000_0000_0000, text: "24000", json_text: "24000.0" }
}

fn topic_limit() -> (r: DefaultBound)
    ensures
        r == bound_topic_limit(),
{
    DefaultBound { bits: 0x40d7_7000_0000_0000, text: "24000", json_text: "24000.0" }
}

/// A bound of 48000.
pub open spec fn bound_context_limit() -> DefaultBound {
    DefaultBound { bits: 0x40e7_7000_0000_0000, text: "48000", json_text: "48000.0" }
}

fn context_limit() -> (r: DefaultBound)
    ensures
        r == bound_context_limit(),
{
    DefaultBound { bits: 0x40e7_7000_0000_0000, text: "48000", json_text: "48000.0" }
}

/// A bound of 160.
pub open spec fn bound_model_limit() -> DefaultBound {
    DefaultBound { bits: 0x4064_0000_0000_0000, text: "160", json_text: "160.0" }
}

fn model_limit() -> (r: DefaultBound)
    ensures
        r == bound_model_limit(),
{
    DefaultBound { bits: 0x4064_0000_0000_0000, text: "160", json_text: "160.0" }
}

/// The languages a debate answer can be asked in.
pub fn ai_cli_languages() -> (r: Vec<&'static str>)
    ensures
        str_views(r@) == seq!["tr"@, "en"@, "original"@],
{
    let r = vec!["tr", "en", "original"];
    assert(str_views(r@) =~= seq!["tr"@, "en"@, "original"@]);
    r
}

/// The ways the other client can take part in a debate.
pub fn ai_cli_debate_modes() -> (r: Vec<&'static str>)
    ensures
        str_views(r@) == seq!["critic"@, "steelman"@, "judge"@, "red_team"@],
{
    let r = vec!["critic", "steelman", "judge", "red_team"];
    assert(str_views(r@) =~= seq!["critic"@, "steelman"@, "judge"@, "red_team"@]);
    r
}

/// Whether a seed parameter has the given name, kind, description,
/// requiredness, default, bounds and allowed values.
pub open spec fn is_seed_parameter(
    p: DefaultParameterSpec,
    name: Seq<char>,
    parameter_type: ParameterType,
    description: Seq<char>,
    required: bool,
    default_value: Option<JsonView>,
    min: Option<DefaultBound>,
    max: Option<DefaultBound>,
    enum_values: Seq<Seq<char>>,
) -> bool {
    &&& p.name@ == name
    &&& p.parameter_type == parameter_type
    &&& p.description@ == description
    &&& p.required == required
    &&& default_value_view(p.default_value) == default_value
    &&& p.validation.min == min
    &&& p.validation.max == max
    &&& str_views(p.validation.enum_values@) == enum_values
}

/// The parameters of the debate tool, in order: topic, codex_position,
/// context, mode, language, model.
pub open spec fn is_debate_parameters(r: Seq<DefaultParameterSpec>) -> bool {
    &&& r.len() == 6
    &&& is_seed_parameter(r[0], "topic"@, ParameterType::String,
        "Question, decision, proposal, or claim to debate."@, true, None, Some(bound_one()),
        Some(bound_topic_limit()), Seq::empty())
    &&& is_seed_parameter(r[1], "codex_position"@, ParameterType::String,
        "Codex current argument or proposed answer for the other CLI to challenge."@, false,
        Some(JsonView::Str(""@)), None, Some(bound_context_limit()), Seq::empty())
    &&& is_seed_parameter(r[2], "context"@, ParameterType::String,
        "Relevant files, constraints, evidence, product context, or transcript."@, false,
        Some(JsonView::Str(""@)), None, Some(bound_context_limit()), Seq::empty())
    &&& is_seed_parameter(r[3], "mode"@, ParameterType::Enum,
        "How the other CLI should participate in the debate."@, false,
        Some(JsonView::Str("critic"@)), None, None,
        seq!["critic"@, "steelman"@, "judge"@, "red_team"@])
    &&& is_seed_parameter(r[4], "language"@, ParameterType::Enum, "Response language instruction."@,
        false, Some(JsonView::Str("tr"@)), None, None, seq!["tr"@, "en"@, "original"@])
    &&& is_seed_parameter(r[5], "model"@, ParameterType::String,
        "Optional CLI model name. Leave empty to use the CLI default."@, false,
        Some(JsonView::Str(""@)), None, Some(bound_model_limit()), Seq::empty())
}

/// The parameters of the debate tool.
pub fn ai_cli_debate_parameters() -> (r: Vec<DefaultParameterSpec>)
    ensures
        is_debate_parameters(r@),
{
    let r = vec![
        DefaultParameterSpec {
            name: "topic",
            parameter_type: ParameterType::String,
            description: "Question, decision, proposal, or claim to debate.",
            required: true,
            default_value: DefaultParameterValue::Absent,
            validation: DefaultValidationSpec::length(Some(one()), Some(topic_limit())),
        },
        DefaultParameterSpec {
            name: "codex_position",
            parameter_type: ParameterType::String,
            description: "Codex current argument or proposed answer for the other CLI to challenge.",
            required: false,
            default_value: DefaultParameterValue::Text(""),
            validation: DefaultValidationSpec::length(None, Some(context_limit())),
        },
        DefaultParameterSpec {
            name: "context",
            parameter_type: ParameterType::String,
            description: "Relevant files, constraints, evidence, product context, or transcript.",
            required: false,
            default_value: DefaultParameterValue::Text(""),
            validation: DefaultValidationSpec::length(None, Some(context_limit())),
        },
        DefaultParameterSpec {
            name: "mode",
            parameter_type: ParameterType::Enum,
            description: "How the other CLI should participate in the debate.",
            required: false,
            default_value: DefaultParameterValue::Text("critic"),
            validation: DefaultValidationSpec::enumeration(ai_cli_debate_modes()),
        },
        DefaultParameterSpec {
            name: "language",
            parameter_type: ParameterType::Enum,
            description: "Response language instruction.",
            required: false,
            default_value: DefaultParameterValue::Text("tr"),
            validation: DefaultValidationSpec::enumeration(ai_cli_languages()),
        },
        DefaultParameterSpec {
            name: "model",
            parameter_type: ParameterType::String,
            description: "Optional CLI model name. Leave empty to use the CLI default.",
            required: false,
            default_value: DefaultParameterValue::Text(""),
            validation: DefaultValidationSpec::length(None, Some(model_limit())),
        },
    ];
    assert(str_views(r@[0].validation.enum_values@) =~= Seq::<Seq<char>>::empty());
    assert(str_views(r@[1].validation.enum_values@) =~= Seq::<Seq<char>>::empty());
    assert(str_views(r@[2].validation.enum_values@) =~= Seq::<Seq<char>>::empty());
    assert(str_views(r@[5].validation.enum_values@) =~= Seq::<Seq<char>>::empty());
    r
}

/// Whether a seed is the debate tool with the given name, description and
/// client script: in the AI category, with a five-minute timeout, the
/// working directory exposed, disabled, and the debate parameters.
pub open spec fn is_debate_tool(
    t: DefaultToolSpec,
    name: Seq<char>,
    description: Seq<char>,
    client_script: Seq<char>,
) -> bool {
    &&& t.name@ == name
    &&& t.description@ == description
    &&& t.client_script@ == client_script
    &&& t.category@ == "AI"@
    &&& t.timeout_ms == 300_000
    &&& t.working_dir_expose
    &&& !t.enabled
    &&& is_debate_parameters(t.parameters@)
}

fn codex_debate() -> (r: DefaultToolSpec)
    ensures
        is_debate_tool(
            r,
            "codex_debate"@,
            "Runs a local Codex CLI debate as a second opinion on a topic, decision, or proposal."@,
            AI_CLI_DEBATE_CODEX_SCRIPT@,
        ),
{
    DefaultToolSpec {
        name: "codex_debate",
        description: "Runs a local Codex CLI debate as a second opinion on a topic, decision, or proposal.",
        category: "AI",
        client_script: AI_CLI_DEBATE_CODEX_SCRIPT,
        timeout_ms: 300_000,
        working_dir_expose: true,
        enabled: false,
        parameters: ai_cli_debate_parameters(),
    }
}

/// The seed tools: the Codex debate.
pub fn default_tools() -> (r: Vec<DefaultToolSpec>)
    ensures
        r@.len() == 1,
        is_debate_tool(
            r@[0],
            "codex_debate"@,
            "Runs a local Codex CLI debate as a second opinion on a topic, decision, or proposal."@,
            AI_CLI_DEBATE_CODEX_SCRIPT@,
        ),
{
    vec![codex_debate()]
}

} // verus!
