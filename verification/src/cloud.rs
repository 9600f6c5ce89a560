//! The cloud-facing pieces the core computes itself: mapping schema types
//! to the cloud protocol's upper-case names, building the function
//! declarations sent with a cloud request, and cleaning string values that
//! come back from it.  (Integral numbers arriving float-encoded are
//! normalised to integers by the transport conversion before values reach
//! the core.)

use vstd::prelude::*;
use crate::schema::ArgPair;
use crate::schema::ArgVal;
use crate::schema::ArgValue;
use crate::schema::PropType;
use crate::schema::ToolDefinition;
use crate::schema::ToolModel;
use crate::schema::arg_model;
use crate::schema::tool_model;
use crate::text::chars_vec;
use crate::text::push_char;
use crate::text::str_eq;
use crate::text::views_of;

verus! {

/// The upper-case name the cloud protocol uses for a schema type string;
/// anything unrecognised is treated as an object.
pub open spec fn gemini_type_spec(t: Seq<char>) -> Seq<char> {
    if t == "string"@ {
        "STRING"@
    } else if t == "integer"@ {
        "INTEGER"@
    } else if t == "number"@ {
        "NUMBER"@
    } else if t == "boolean"@ {
        "BOOLEAN"@
    } else if t == "array"@ {
        "ARRAY"@
    } else {
        "OBJECT"@
    }
}

/// Map a JSON-schema type string to the cloud protocol's upper-case name.
pub fn gemini_type<'a>(schema_type: &'a str) -> (r: &'a str)
    ensures
        r@ == gemini_type_spec(schema_type@),
{
    if str_eq(schema_type, "string") {
        "STRING"
    } else if str_eq(schema_type, "integer") {
        "INTEGER"
    } else if str_eq(schema_type, "number") {
        "NUMBER"
    } else if str_eq(schema_type, "boolean") {
        "BOOLEAN"
    } else if str_eq(schema_type, "array") {
        "ARRAY"
    } else {
        "OBJECT"
    }
}

/// The lower-case JSON-schema name of a declared parameter type.
pub open spec fn schema_name_spec(t: PropType) -> Seq<char> {
    match t {
        PropType::Str => "string"@,
        PropType::Int => "integer"@,
        PropType::Num => "number"@,
        PropType::Bool => "boolean"@,
        PropType::Arr => "array"@,
        PropType::Obj => "object"@,
    }
}

/// The lower-case JSON-schema name of a declared parameter type.
pub fn schema_kind_name(t: PropType) -> (r: &'static str)
    ensures
        r@ == schema_name_spec(t),
{
    match t {
        PropType::Str => "string",
        PropType::Int => "integer",
        PropType::Num => "number",
        PropType::Bool => "boolean",
        PropType::Arr => "array",
        PropType::Obj => "object",
    }
}

/// One property of a declaration, with its type in the protocol's format.
pub struct GeminiProperty {
    pub name: String,
    pub kind_name: String,
    pub description: String,
}

/// One function declaration of a cloud request.
pub struct FunctionDeclaration {
    pub name: String,
    pub description: String,
    pub properties: Vec<GeminiProperty>,
    pub required: Vec<String>,
}

/// A declaration carries the tool's name, description, properties with
/// protocol-format types, and its required names unchanged.
pub open spec fn decl_matches(d: FunctionDeclaration, t: ToolModel) -> bool {
    &&& d.name@ == t.name
    &&& d.description@ == t.description
    &&& d.properties@.len() == t.properties.len()
    &&& forall|i: int|
        0 <= i < t.properties.len() ==> {
            let p = #[trigger] d.properties@[i];
            &&& p.name@ == t.properties[i].name
            &&& p.kind_name@ == gemini_type_spec(schema_name_spec(t.properties[i].typ))
            &&& p.description@ == t.properties[i].description
        }
    &&& views_of(d.required@) == t.required
}

/// Build the function declarations for a cloud request from the tool
/// definitions.
pub fn build_function_declarations(tools: &Vec<ToolDefinition>) -> (r: Vec<FunctionDeclaration>)
    ensures
        r@.len() == tools@.len(),
        forall|i: int|
            0 <= i < r@.len() ==> decl_matches(#[trigger] r@[i], tool_model(tools@[i])),
{
    let mut out: Vec<FunctionDeclaration> = Vec::new();
    let mut i: usize = 0;
    while i < tools.len()
        invariant
            i <= tools@.len(),
            out@.len() == i,
            forall|j: int|
                0 <= j < i ==> decl_matches(#[trigger] out@[j], tool_model(tools@[j])),
        decreases tools@.len() - i,
    {
        let t = &tools[i];
        let mut properties: Vec<GeminiProperty> = Vec::new();
        let mut k: usize = 0;
        while k < t.parameters.properties.len()
            invariant
                k <= t.parameters.properties@.len(),
                properties@.len() == k,
                forall|q: int|
                    0 <= q < k ==> {
                        let p = #[trigger] properties@[q];
                        &&& p.name@ == t.parameters.properties@[q].name@
                        &&& p.kind_name@ == gemini_type_spec(
                            schema_name_spec(t.parameters.properties@[q].typ),
                        )
                        &&& p.description@ == t.parameters.properties@[q].description@
                    },
            decreases t.parameters.properties@.len() - k,
        {
            let p = &t.parameters.properties[k];
            let kind_name = gemini_type(schema_kind_name(p.typ));
            properties.push(
                GeminiProperty {
                    name: p.name.clone(),
                    kind_name: kind_name.to_owned(),
                    description: p.description.clone(),
                },
            );
            k = k + 1;
        }
        let mut required: Vec<String> = Vec::new();
        let mut q: usize = 0;
        while q < t.parameters.required.len()
            invariant
                q <= t.parameters.required@.len(),
                required@.len() == q,
                forall|w: int|
                    0 <= w < q ==> (#[trigger] required@[w])@ == t.parameters.required@[w]@,
            decreases t.parameters.required@.len() - q,
        {
            required.push(t.parameters.required[q].clone());
            q = q + 1;
        }
        let d = FunctionDeclaration {
            name: t.name.clone(),
            description: t.description.clone(),
            properties,
            required,
        };
        proof {
            assert(views_of(d.required@) =~= tool_model(tools@[i as int]).required);
            assert(decl_matches(d, tool_model(tools@[i as int])));
        }
        out.push(d);
        i = i + 1;
    }
    out
}

/// A character the cloud protocol sometimes appends to string values.
pub open spec fn trail_punct(c: char) -> bool {
    c == '.' || c == ',' || c == '!' || c == '?' || c == ';' || c == ':'
}

/// A string with its trailing punctuation stripped.
pub open spec fn strip_punct(s: Seq<char>) -> Seq<char>
    decreases s.len(),
{
    if s.len() > 0 && trail_punct(s.last()) {
        strip_punct(s.drop_last())
    } else {
        s
    }
}

/// What cleaning does to one bound value: trailing punctuation is
/// stripped from text; everything else passes through unchanged.
pub open spec fn clean_value_model(v: ArgVal) -> ArgVal {
    match v {
        ArgVal::Text(s) => ArgVal::Text(strip_punct(s)),
        other => other,
    }
}

/// What cleaning does to a whole argument value: each binding of an
/// object is cleaned; anything else passes through unchanged.
pub open spec fn clean_args_model(a: ArgVal) -> ArgVal {
    match a {
        ArgVal::Obj(entries) => ArgVal::Obj(
            entries.map_values(|p: (Seq<char>, ArgVal)| (p.0, clean_value_model(p.1))),
        ),
        other => other,
    }
}

/// Strip trailing punctuation from a string.
fn strip_trailing(s: &String) -> (r: String)
    ensures
        r@ == strip_punct(s@),
{
    let cs = chars_vec(s.as_str());
    let mut end: usize = cs.len();
    proof {
        assert(s@.take(end as int) =~= s@);
    }
    loop
        invariant
            end <= cs@.len(),
            cs@ == s@,
            strip_punct(s@) == strip_punct(s@.take(end as int)),
        ensures
            end <= cs@.len(),
            cs@ == s@,
            strip_punct(s@) == strip_punct(s@.take(end as int)),
            end == 0 || !trail_punct(s@[end - 1]),
        decreases end,
    {
        if end == 0 {
            break ;
        }
        let c = cs[end - 1];
        if !(c == '.' || c == ',' || c == '!' || c == '?' || c == ';' || c == ':') {
            break ;
        }
        proof {
            assert(s@.take(end as int).last() == s@[end - 1]);
            assert(s@.take(end as int).drop_last() =~= s@.take(end as int - 1));
        }
        end = end - 1;
    }
    proof {
        assert(strip_punct(s@.take(end as int)) == s@.take(end as int));
    }
    let mut r = String::new();
    let mut i: usize = 0;
    while i < end
        invariant
            end <= cs@.len(),
            cs@ == s@,
            i <= end,
            r@ == s@.take(i as int),
        decreases end - i,
    {
        proof {
            assert(s@.take(i as int + 1) =~= s@.take(i as int).push(s@[i as int]));
        }
        push_char(&mut r, cs[i]);
        i = i + 1;
    }
    r
}

/// Clean an argument value coming back from the cloud protocol: trailing
/// punctuation is stripped from each string bound in an argument object.
pub fn clean_args(raw: ArgValue) -> (r: ArgValue)
    ensures
        arg_model(r) == clean_args_model(arg_model(raw)),
{
    match raw {
        ArgValue::Obj(pairs) => {
            let ghost pre = pairs@;
            let mut out: Vec<ArgPair> = Vec::new();
            let mut i: usize = 0;
            while i < pairs.len()
                invariant
                    i <= pre.len(),
                    pre == pairs@,
                    out@.len() == i,
                    forall|j: int|
                        0 <= j < i ==> (#[trigger] out@[j]).key@ == pre[j].key@ && arg_model(
                            out@[j].value,
                        ) == clean_value_model(arg_model(pre[j].value)),
                decreases pre.len() - i,
            {
                let p = &pairs[i];
                let value = match &p.value {
                    ArgValue::Text(sv) => ArgValue::Text(strip_trailing(sv)),
                    other => other.duplicate(),
                };
                out.push(ArgPair { key: p.key.clone(), value });
                i = i + 1;
            }
            let r = ArgValue::Obj(out);
            proof {
                let ghost before = ArgValue::Obj(pairs);
                assert(arg_model(r)->Obj_0 =~~= clean_args_model(arg_model(before))->Obj_0);
                assert(arg_model(r) =~~= clean_args_model(arg_model(before)));
            }
            r
        },
        other => other,
    }
}

} // verus!
