//! The JSON Schema that describes the arguments of a tool, as MCP clients
//! see it.
use vstd::prelude::*;

use crate::domain::ParameterType;
use crate::float::{is_finite, is_finite_bits, length_limit, length_limit_of, Number64};
use crate::json::{json_view, lemma_object_view, object_map, JsonNumber, JsonObject, JsonValue, JsonView};
use crate::rules::{ToolParameter, ValidationRules};
use crate::tool::Tool;

verus! {

/// The JSON Schema type of a parameter.
pub open spec fn schema_type_name(t: ParameterType, integer: bool) -> Seq<char> {
    match t {
        ParameterType::String | ParameterType::Enum | ParameterType::Path => "string"@,
        ParameterType::Number => if integer {
            "integer"@
        } else {
            "number"@
        },
        ParameterType::Boolean => "boolean"@,
    }
}

/// The JSON number a double bound becomes: the double when it is finite,
/// `null` otherwise.
pub open spec fn bound_view(n: Number64) -> JsonView {
    if is_finite(n.bits) {
        JsonView::Float(n.bits, n.json_text@)
    } else {
        JsonView::Null
    }
}

/// The views of a list of strings as JSON strings.
pub open spec fn string_items(v: Seq<String>) -> Seq<JsonView> {
    Seq::new(v.len(), |i: int| JsonView::Str(v[i]@))
}

/// `m` with `k` set to `v` when `v` is present.
pub open spec fn insert_opt(
    m: Map<Seq<char>, JsonView>,
    k: Seq<char>,
    v: Option<JsonView>,
) -> Map<Seq<char>, JsonView> {
    match v {
        Some(x) => m.insert(k, x),
        None => m,
    }
}

/// The keywords of the range part of a parameter schema.
pub open spec fn range_keywords(
    m: Map<Seq<char>, JsonView>,
    t: ParameterType,
    v: ValidationRules,
) -> Map<Seq<char>, JsonView> {
    match t {
        ParameterType::Number => insert_opt(
            insert_opt(
                m,
                "minimum"@,
                match v.min {
                    Some(n) => Some(bound_view(n)),
                    None => None,
                },
            ),
            "maximum"@,
            match v.max {
                Some(n) => Some(bound_view(n)),
                None => None,
            },
        ),
        ParameterType::String | ParameterType::Path => insert_opt(
            insert_opt(
                m,
                "minLength"@,
                match v.min {
                    Some(n) => match length_limit_of(n.bits) {
                        Some(l) => Some(JsonView::Int(l as int)),
                        None => None,
                    },
                    None => None,
                },
            ),
            "maxLength"@,
            match v.max {
                Some(n) => match length_limit_of(n.bits) {
                    Some(l) => Some(JsonView::Int(l as int)),
                    None => None,
                },
                None => None,
            },
        ),
        _ => m,
    }
}

/// The schema of one parameter, keyword by keyword.
pub open spec fn parameter_schema_map(p: ToolParameter) -> Map<Seq<char>, JsonView> {
    let v = p.validation;
    let base = Map::<Seq<char>, JsonView>::empty().insert(
        "type"@,
        JsonView::Str(schema_type_name(p.parameter_type, v.integer)),
    );
    let described = insert_opt(
        base,
        "description"@,
        match p.description {
            Some(d) => Some(JsonView::Str(d@)),
            None => None,
        },
    );
    let defaulted = insert_opt(
        described,
        "default"@,
        match p.default_value {
            Some(d) => Some(json_view(d)),
            None => None,
        },
    );
    let ranged = range_keywords(defaulted, p.parameter_type, v);
    let patterned = insert_opt(
        ranged,
        "pattern"@,
        match v.regex {
            Some(r) => Some(JsonView::Str(r@)),
            None => None,
        },
    );
    let formatted = if p.parameter_type == ParameterType::Path {
        patterned.insert("format"@, JsonView::Str("path"@))
    } else {
        insert_opt(
            patterned,
            "format"@,
            match v.format {
                Some(f) => Some(JsonView::Str(f@)),
                None => None,
            },
        )
    };
    if p.parameter_type == ParameterType::Enum || v.enum_values@.len() > 0 {
        formatted.insert("enum"@, JsonView::Array(string_items(v.enum_values@)))
    } else {
        formatted
    }
}

/// The `type` keyword of a parameter schema: `boolean` for a Boolean
/// parameter, `integer` for a Number parameter that must be whole and
/// `number` for another, `string` for String, Enum and Path parameters.
pub proof fn lemma_schema_type(p: ToolParameter)
    ensures
        parameter_schema_map(p).contains_key("type"@),
        parameter_schema_map(p)["type"@] == JsonView::Str(
            match p.parameter_type {
                ParameterType::Boolean => "boolean"@,
                ParameterType::Number => if p.validation.integer {
                    "integer"@
                } else {
                    "number"@
                },
                _ => "string"@,
            },
        ),
{
    reveal_strlit("type");
    reveal_strlit("description");
    reveal_strlit("default");
    reveal_strlit("minimum");
    reveal_strlit("maximum");
    reveal_strlit("minLength");
    reveal_strlit("maxLength");
    reveal_strlit("pattern");
    reveal_strlit("format");
    reveal_strlit("enum");
    assert("type"@.len() != "description"@.len());
    assert("type"@.len() != "default"@.len());
    assert("type"@.len() != "minimum"@.len());
    assert("type"@.len() != "maximum"@.len());
    assert("type"@.len() != "minLength"@.len());
    assert("type"@.len() != "maxLength"@.len());
    assert("type"@.len() != "pattern"@.len());
    assert("type"@.len() != "format"@.len());
    assert("type"@[0] != "enum"@[0]);
}

/// The range of a Number parameter is its schema's bounds: `minimum` is
/// the lower bound and `maximum` the upper one, each present exactly when
/// the rule sets it; a String or Path parameter's whole-number length
/// bounds are its `minLength` and `maxLength`.
pub proof fn lemma_schema_bounds(p: ToolParameter)
    ensures
        p.parameter_type == ParameterType::Number ==> (p.validation.min matches Some(n) ==> parameter_schema_map(
            p,
        ).contains_key("minimum"@) && parameter_schema_map(p)["minimum"@] == bound_view(n)),
        p.parameter_type == ParameterType::Number ==> (p.validation.max matches Some(n) ==> parameter_schema_map(
            p,
        ).contains_key("maximum"@) && parameter_schema_map(p)["maximum"@] == bound_view(n)),
        p.parameter_type == ParameterType::Number ==> (p.validation.min is None <==> !parameter_schema_map(
            p,
        ).contains_key("minimum"@)),
        p.parameter_type == ParameterType::Number ==> (p.validation.max is None <==> !parameter_schema_map(
            p,
        ).contains_key("maximum"@)),
        p.parameter_type == ParameterType::String || p.parameter_type == ParameterType::Path ==> (
        p.validation.min matches Some(n) ==> (length_limit_of(n.bits) matches Some(l) ==> parameter_schema_map(
            p,
        ).contains_key("minLength"@) && parameter_schema_map(p)["minLength"@] == JsonView::Int(l as int))),
        p.parameter_type == ParameterType::String || p.parameter_type == ParameterType::Path ==> (
        p.validation.max matches Some(n) ==> (length_limit_of(n.bits) matches Some(l) ==> parameter_schema_map(
            p,
        ).contains_key("maxLength"@) && parameter_schema_map(p)["maxLength"@] == JsonView::Int(l as int))),
{
    reveal_strlit("type");
    reveal_strlit("description");
    reveal_strlit("default");
    reveal_strlit("minimum");
    reveal_strlit("maximum");
    reveal_strlit("minLength");
    reveal_strlit("maxLength");
    reveal_strlit("pattern");
    reveal_strlit("format");
    reveal_strlit("enum");
    assert("minimum"@[1] != "maximum"@[1]);
    assert("minLength"@[1] != "maxLength"@[1]);
    assert("minimum"@.len() != "type"@.len());
    assert("minimum"@.len() != "description"@.len());
    assert("minimum"@[1] != "default"@[1]);
    assert("minimum"@.len() != "pattern"@.len() || "minimum"@[0] != "pattern"@[0]);
    assert("minimum"@.len() != "format"@.len());
    assert("minimum"@.len() != "enum"@.len());
    assert("maximum"@.len() != "type"@.len());
    assert("maximum"@.len() != "description"@.len());
    assert("maximum"@[0] != "default"@[0]);
    assert("maximum"@[0] != "pattern"@[0]);
    assert("maximum"@.len() != "format"@.len());
    assert("maximum"@.len() != "enum"@.len());
    assert("minLength"@.len() != "type"@.len());
    assert("minLength"@[0] != "description"@[0]);
    assert("minLength"@.len() != "default"@.len());
    assert("minLength"@.len() != "pattern"@.len());
    assert("minLength"@.len() != "format"@.len());
    assert("minLength"@.len() != "enum"@.len());
    assert("maxLength"@.len() != "type"@.len());
    assert("maxLength"@[0] != "description"@[0]);
    assert("maxLength"@.len() != "default"@.len());
    assert("maxLength"@.len() != "pattern"@.len());
    assert("maxLength"@.len() != "format"@.len());
    assert("maxLength"@.len() != "enum"@.len());
}

/// The `properties` keyword for a list of parameters: each parameter's
/// schema under its name, a later parameter replacing an earlier one of the
/// same name.
pub open spec fn parameter_properties(ps: Seq<ToolParameter>) -> Map<Seq<char>, JsonView>
    decreases ps.len(),
{
    if ps.len() == 0 {
        Map::empty()
    } else {
        parameter_properties(ps.drop_last()).insert(
            ps.last().name@,
            JsonView::Object(parameter_schema_map(ps.last())),
        )
    }
}

/// The names of the required parameters, in order.
pub open spec fn required_names(ps: Seq<ToolParameter>) -> Seq<JsonView>
    decreases ps.len(),
{
    if ps.len() == 0 {
        Seq::empty()
    } else if ps.last().required {
        required_names(ps.drop_last()).push(JsonView::Str(ps.last().name@))
    } else {
        required_names(ps.drop_last())
    }
}

/// The schema of the `working_dir` argument.
pub open spec fn working_dir_schema() -> Map<Seq<char>, JsonView> {
    Map::<Seq<char>, JsonView>::empty().insert("type"@, JsonView::Str("string"@)).insert(
        "format"@,
        JsonView::Str("path"@),
    ).insert("description"@, JsonView::Str("Working directory used to execute the tool"@))
}

/// The input schema of a tool with these parameters: an object schema
/// whose properties are the parameters (and `working_dir` when it is
/// exposed), listing the required ones, and allowing nothing else.
pub open spec fn input_schema_map(
    ps: Seq<ToolParameter>,
    working_dir_expose: bool,
    working_dir_required: bool,
) -> Map<Seq<char>, JsonView> {
    let props = if working_dir_expose {
        parameter_properties(ps).insert("working_dir"@, JsonView::Object(working_dir_schema()))
    } else {
        parameter_properties(ps)
    };
    let req = if working_dir_expose && working_dir_required {
        required_names(ps).push(JsonView::Str("working_dir"@))
    } else {
        required_names(ps)
    };
    Map::<Seq<char>, JsonView>::empty().insert(
        "$schema"@,
        JsonView::Str("https://json-schema.org/draft/2020-12/schema"@),
    ).insert("type"@, JsonView::Str("object"@)).insert("properties"@, JsonView::Object(props)).insert(
        "required"@,
        JsonView::Array(req),
    ).insert("additionalProperties"@, JsonView::Bool(false))
}

/// Whether `k` is the name of one of the parameters.
pub open spec fn names_parameter(ps: Seq<ToolParameter>, k: Seq<char>) -> bool {
    exists|i: int| 0 <= i < ps.len() && (#[trigger] ps[i]).name@ == k
}

proof fn lemma_properties_are_parameters(ps: Seq<ToolParameter>)
    ensures
        forall|k: Seq<char>| #[trigger] parameter_properties(ps).contains_key(k) <==> names_parameter(ps, k),
    decreases ps.len(),
{
    if ps.len() > 0 {
        let d = ps.drop_last();
        lemma_properties_are_parameters(d);
        assert forall|k: Seq<char>| #[trigger] parameter_properties(ps).contains_key(k) <==> names_parameter(ps, k) by {
            assert(parameter_properties(d).contains_key(k) <==> names_parameter(d, k));
            assert(parameter_properties(ps) == parameter_properties(d).insert(
                ps.last().name@,
                JsonView::Object(parameter_schema_map(ps.last())),
            ));
            if k == ps.last().name@ {
                assert(ps[ps.len() - 1].name@ == k);
            }
            if names_parameter(ps, k) {
                let i = choose|i: int| 0 <= i < ps.len() && (#[trigger] ps[i]).name@ == k;
                if i < ps.len() - 1 {
                    assert(d[i] == ps[i]);
                }
            }
            if names_parameter(d, k) {
                let i = choose|i: int| 0 <= i < d.len() && (#[trigger] d[i]).name@ == k;
                assert(ps[i] == d[i]);
            }
        }
    }
}

proof fn lemma_required_are_parameters(ps: Seq<ToolParameter>)
    ensures
        forall|j: int|
            0 <= j < required_names(ps).len() ==> (#[trigger] required_names(ps)[j]) is Str
                && names_parameter(ps, required_names(ps)[j]->Str_0),
    decreases ps.len(),
{
    if ps.len() > 0 {
        let d = ps.drop_last();
        lemma_required_are_parameters(d);
        assert forall|j: int| 0 <= j < required_names(ps).len() implies (#[trigger] required_names(ps)[j]) is Str
            && names_parameter(ps, required_names(ps)[j]->Str_0) by {
            if j < required_names(d).len() {
                assert(required_names(ps)[j] == required_names(d)[j]);
                let k = required_names(d)[j]->Str_0;
                let i = choose|i: int| 0 <= i < d.len() && (#[trigger] d[i]).name@ == k;
                assert(ps[i] == d[i]);
            } else {
                assert(ps[ps.len() - 1].name@ == ps.last().name@);
            }
        }
    }
}

/// In a tool's input schema, the properties are exactly the parameters (and
/// `working_dir` when it is exposed), and every name listed as required is
/// one of the properties.
pub proof fn lemma_input_schema_required_are_properties(
    ps: Seq<ToolParameter>,
    working_dir_expose: bool,
    working_dir_required: bool,
)
    ensures
        ({
            let m = input_schema_map(ps, working_dir_expose, working_dir_required);
            &&& m["properties"@] is Object
            &&& m["required"@] is Array
            &&& forall|k: Seq<char>|
                #[trigger] m["properties"@]->Object_0.contains_key(k) <==> (names_parameter(ps, k) || (
                working_dir_expose && k == "working_dir"@))
            &&& forall|j: int|
                0 <= j < m["required"@]->Array_0.len() ==> (#[trigger] m["required"@]->Array_0[j]) is Str
                    && m["properties"@]->Object_0.contains_key(m["required"@]->Array_0[j]->Str_0)
        }),
{
    reveal_strlit("properties");
    reveal_strlit("required");
    reveal_strlit("additionalProperties");
    reveal_strlit("$schema");
    reveal_strlit("type");
    lemma_properties_are_parameters(ps);
    lemma_required_are_parameters(ps);
    assert("properties"@.len() == 10 && "required"@.len() == 8 && "additionalProperties"@.len() == 20);
    assert("$schema"@.len() == 7 && "type"@.len() == 4);
    assert("properties"@ != "required"@ && "properties"@ != "additionalProperties"@);
    assert("required"@ != "additionalProperties"@);
    let m = input_schema_map(ps, working_dir_expose, working_dir_required);
    assert(m["properties"@] is Object);
    assert(m["required"@] is Array);
    let req = m["required"@]->Array_0;
    let props = m["properties"@]->Object_0;
    assert forall|j: int| 0 <= j < req.len() implies (#[trigger] req[j]) is Str && props.contains_key(req[j]->Str_0) by {
        if j < required_names(ps).len() {
            assert(req[j] == required_names(ps)[j]);
        }
    }
}

proof fn lemma_properties_values(ps: Seq<ToolParameter>)
    requires
        forall|i: int, j: int| 0 <= i < j < ps.len() ==> (#[trigger] ps[i]).name@ != (#[trigger] ps[j]).name@,
    ensures
        forall|i: int|
            0 <= i < ps.len() ==> parameter_properties(ps).contains_key((#[trigger] ps[i]).name@)
                && parameter_properties(ps)[ps[i].name@] == JsonView::Object(parameter_schema_map(ps[i])),
    decreases ps.len(),
{
    if ps.len() > 0 {
        let d = ps.drop_last();
        assert forall|i: int, j: int| 0 <= i < j < d.len() implies (#[trigger] d[i]).name@ != (#[trigger] d[j]).name@ by {
            assert(d[i] == ps[i] && d[j] == ps[j]);
        }
        lemma_properties_values(d);
        assert forall|i: int| 0 <= i < ps.len() implies parameter_properties(ps).contains_key((#[trigger] ps[i]).name@)
            && parameter_properties(ps)[ps[i].name@] == JsonView::Object(parameter_schema_map(ps[i])) by {
            if i < ps.len() - 1 {
                assert(d[i] == ps[i]);
                assert(ps[i].name@ != ps[ps.len() - 1].name@);
            }
        }
    }
}

/// In a tool's input schema whose parameter names are distinct (and none
/// is `working_dir` when that is exposed), the type is `object`, no other
/// property is allowed, each parameter's property is its own schema, the
/// `working_dir` property (when exposed) is the path schema, and the
/// required names are those of the required parameters in order, then
/// `working_dir` when it is exposed and required.
pub proof fn lemma_input_schema_properties(
    ps: Seq<ToolParameter>,
    working_dir_expose: bool,
    working_dir_required: bool,
)
    requires
        forall|i: int, j: int| 0 <= i < j < ps.len() ==> (#[trigger] ps[i]).name@ != (#[trigger] ps[j]).name@,
        working_dir_expose ==> forall|i: int| 0 <= i < ps.len() ==> (#[trigger] ps[i]).name@ != "working_dir"@,
    ensures
        ({
            let m = input_schema_map(ps, working_dir_expose, working_dir_required);
            let props = m["properties"@]->Object_0;
            &&& m["type"@] == JsonView::Str("object"@)
            &&& m["additionalProperties"@] == JsonView::Bool(false)
            &&& forall|i: int|
                0 <= i < ps.len() ==> props[(#[trigger] ps[i]).name@] == JsonView::Object(
                    parameter_schema_map(ps[i]),
                )
            &&& working_dir_expose ==> props["working_dir"@] == JsonView::Object(working_dir_schema())
            &&& m["required"@] == JsonView::Array(
                if working_dir_expose && working_dir_required {
                    required_names(ps).push(JsonView::Str("working_dir"@))
                } else {
                    required_names(ps)
                },
            )
        }),
{
    reveal_strlit("properties");
    reveal_strlit("required");
    reveal_strlit("additionalProperties");
    reveal_strlit("$schema");
    reveal_strlit("type");
    assert("properties"@.len() == 10 && "required"@.len() == 8 && "additionalProperties"@.len() == 20);
    assert("$schema"@.len() == 7 && "type"@.len() == 4);
    assert("type"@ != "properties"@ && "type"@ != "required"@ && "type"@ != "additionalProperties"@);
    assert("properties"@ != "required"@ && "properties"@ != "additionalProperties"@);
    assert("required"@ != "additionalProperties"@);
    lemma_properties_values(ps);
    let m = input_schema_map(ps, working_dir_expose, working_dir_required);
    let props = m["properties"@]->Object_0;
    assert forall|i: int| 0 <= i < ps.len() implies props[(#[trigger] ps[i]).name@] == JsonView::Object(
        parameter_schema_map(ps[i]),
    ) by {
        if working_dir_expose {
            assert(ps[i].name@ != "working_dir"@);
        }
    }
}

fn key(s: &str) -> (r: String)
    ensures
        r@ == s@,
{
    String::from_str(s)
}

/// The JSON Schema type name of a parameter.
pub fn json_schema_type(parameter: &ToolParameter) -> (r: &'static str)
    ensures
        r@ == schema_type_name(parameter.parameter_type, parameter.validation.integer),
{
    match parameter.parameter_type {
        ParameterType::String | ParameterType::Enum | ParameterType::Path => "string",
        ParameterType::Number => if parameter.validation.integer {
            "integer"
        } else {
            "number"
        },
        ParameterType::Boolean => "boolean",
    }
}

fn bound_value(n: &Number64) -> (r: JsonValue)
    ensures
        json_view(r) == bound_view(*n),
{
    if is_finite_bits(n.bits) {
        JsonValue::Number(JsonNumber::Float(n.duplicate()))
    } else {
        JsonValue::Null
    }
}

fn string_array(v: &Vec<String>) -> (r: JsonValue)
    ensures
        json_view(r) == JsonView::Array(string_items(v@)),
{
    let mut items: Vec<JsonValue> = Vec::new();
    let mut i: usize = 0;
    while i < v.len()
        invariant
            i <= v@.len(),
            items@.len() == i,
            forall|k: int| 0 <= k < i ==> json_view(#[trigger] items@[k]) == JsonView::Str(v@[k]@),
        decreases v@.len() - i,
    {
        items.push(JsonValue::String(v[i].clone()));
        i = i + 1;
    }
    let r = JsonValue::Array(items);
    assert(crate::json::array_views(items@) =~= string_items(v@));
    r
}

/// The schema of one parameter.
pub fn parameter_schema(parameter: &ToolParameter) -> (r: JsonObject)
    ensures
        object_map(r) == parameter_schema_map(*parameter),
{
    let v = &parameter.validation;
    let mut schema = JsonObject::new();
    schema.insert(key("type"), JsonValue::text(json_schema_type(parameter)));
    if let Some(description) = &parameter.description {
        schema.insert(key("description"), JsonValue::String(description.clone()));
    }
    if let Some(default_value) = &parameter.default_value {
        schema.insert(key("default"), default_value.duplicate());
    }
    match parameter.parameter_type {
        ParameterType::Number => {
            if let Some(minimum) = &v.min {
                schema.insert(key("minimum"), bound_value(minimum));
            }
            if let Some(maximum) = &v.max {
                schema.insert(key("maximum"), bound_value(maximum));
            }
        },
        ParameterType::String | ParameterType::Path => {
            if let Some(minimum) = length_limit(&v.min) {
                schema.insert(key("minLength"), JsonValue::Number(JsonNumber::PosInt(minimum)));
            }
            if let Some(maximum) = length_limit(&v.max) {
                schema.insert(key("maxLength"), JsonValue::Number(JsonNumber::PosInt(maximum)));
            }
        },
        ParameterType::Boolean | ParameterType::Enum => {},
    }
    if let Some(pattern) = &v.regex {
        schema.insert(key("pattern"), JsonValue::String(pattern.clone()));
    }
    if parameter.parameter_type == ParameterType::Path {
        schema.insert(key("format"), JsonValue::text("path"));
    } else if let Some(format) = &v.format {
        schema.insert(key("format"), JsonValue::String(format.clone()));
    }
    if parameter.parameter_type == ParameterType::Enum || v.enum_values.len() > 0 {
        schema.insert(key("enum"), string_array(&v.enum_values));
    }
    assert(object_map(schema) =~= parameter_schema_map(*parameter));
    schema
}

/// The input schema of a tool with these parameters.
pub fn input_schema_for_parts(
    parameters: &Vec<ToolParameter>,
    working_dir_expose: bool,
    working_dir_required: bool,
) -> (r: JsonValue)
    ensures
        json_view(r) == JsonView::Object(
            input_schema_map(parameters@, working_dir_expose, working_dir_required),
        ),
{
    let mut properties = JsonObject::new();
    let mut required: Vec<JsonValue> = Vec::new();
    let mut i: usize = 0;
    while i < parameters.len()
        invariant
            i <= parameters@.len(),
            object_map(properties) == parameter_properties(parameters@.subrange(0, i as int)),
            crate::json::array_views(required@) == required_names(parameters@.subrange(0, i as int)),
        decreases parameters@.len() - i,
    {
        let ghost before = parameters@.subrange(0, i as int);
        let ghost req_before = required@;
        let parameter = &parameters[i];
        if parameter.required {
            required.push(JsonValue::String(parameter.name.clone()));
        }
        let schema = parameter_schema(parameter);
        proof {
            lemma_object_view(schema);
        }
        properties.insert(parameter.name.clone(), JsonValue::Object(schema));
        i = i + 1;
        proof {
            let now = parameters@.subrange(0, i as int);
            assert(now.drop_last() =~= before);
            assert(now.last() == parameters@[i - 1]);
            assert(crate::json::array_views(required@) =~= required_names(now));
        }
    }
    assert(parameters@.subrange(0, parameters@.len() as int) =~= parameters@);
    if working_dir_expose {
        let mut wd = JsonObject::new();
        wd.insert(key("type"), JsonValue::text("string"));
        wd.insert(key("format"), JsonValue::text("path"));
        wd.insert(key("description"), JsonValue::text("Working directory used to execute the tool"));
        proof {
            lemma_object_view(wd);
        }
        properties.insert(key("working_dir"), JsonValue::Object(wd));
        if working_dir_required {
            let ghost req_before = required@;
            required.push(JsonValue::text("working_dir"));
            assert(crate::json::array_views(required@) =~= crate::json::array_views(req_before).push(
                JsonView::Str("working_dir"@),
            ));
        }
    }
    proof {
        lemma_object_view(properties);
    }
    let mut schema = JsonObject::new();
    schema.insert(key("$schema"), JsonValue::text("https://json-schema.org/draft/2020-12/schema"));
    schema.insert(key("type"), JsonValue::text("object"));
    schema.insert(key("properties"), JsonValue::Object(properties));
    schema.insert(key("required"), JsonValue::Array(required));
    schema.insert(key("additionalProperties"), JsonValue::Bool(false));
    proof {
        lemma_object_view(schema);
        assert(object_map(schema) =~= input_schema_map(parameters@, working_dir_expose, working_dir_required));
    }
    JsonValue::Object(schema)
}

/// The input schema of a tool.
pub fn input_schema(tool: &Tool) -> (r: JsonValue)
    ensures
        json_view(r) == JsonView::Object(
            input_schema_map(tool.parameters@, tool.working_dir_expose, tool.working_dir_required),
        ),
{
    input_schema_for_parts(&tool.parameters, tool.working_dir_expose, tool.working_dir_required)
}

} // verus!
