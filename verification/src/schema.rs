//! The data model: tool schemas, argument values, result payloads, and the
//! mathematical models (deep views) that the contracts speak of.

use vstd::prelude::*;
use vstd::string::StringExecFns;
use crate::text::str_eq;

verus! {

/// The type a tool parameter is declared with in its schema.
#[derive(Clone, Copy, PartialEq, Eq, Structural, Debug)]
pub enum PropType {
    Str,
    Int,
    Num,
    Bool,
    Arr,
    Obj,
}

/// One declared parameter of a tool.
#[derive(Clone, Debug)]
pub struct PropDef {
    pub name: String,
    pub typ: PropType,
    pub description: String,
}

/// A tool's parameter schema: its declared properties and the names that a
/// call must always supply.
#[derive(Clone, Debug)]
pub struct ParamSchema {
    pub properties: Vec<PropDef>,
    pub required: Vec<String>,
}

impl ParamSchema {
    /// Every required name is one of the declared property names.
    pub open spec fn wf(&self) -> bool {
        forall|i: int|
            0 <= i < self.required@.len() ==> exists|j: int|
                0 <= j < self.properties@.len() && self.properties@[j].name@
                    == (#[trigger] self.required@[i])@
    }

    /// A schema with no properties and no required names.
    pub fn empty() -> (r: ParamSchema)
        ensures
            r.properties@.len() == 0,
            r.required@.len() == 0,
            r.wf(),
    {
        ParamSchema { properties: Vec::new(), required: Vec::new() }
    }
}

/// The first declared property named `key`, if any.
pub open spec fn find_prop(props: Seq<PropDef>, key: Seq<char>) -> Option<PropDef>
    decreases props.len(),
{
    if props.len() == 0 {
        None
    } else if props[0].name@ == key {
        Some(props[0])
    } else {
        find_prop(props.drop_first(), key)
    }
}

/// A named, schema-described callable action.
#[derive(Clone, Debug)]
pub struct ToolDefinition {
    pub name: String,
    pub description: String,
    pub parameters: ParamSchema,
}

/// The mathematical model of one declared parameter.
#[verifier::ext_equal]
pub ghost struct PropModel {
    pub name: Seq<char>,
    pub typ: PropType,
    pub description: Seq<char>,
}

/// The mathematical model of a tool definition.
#[verifier::ext_equal]
pub ghost struct ToolModel {
    pub name: Seq<char>,
    pub description: Seq<char>,
    pub properties: Seq<PropModel>,
    pub required: Seq<Seq<char>>,
}

/// The model of a tool definition: its deep view.
pub open spec fn tool_model(t: ToolDefinition) -> ToolModel {
    ToolModel {
        name: t.name@,
        description: t.description@,
        properties: t.parameters.properties@.map_values(
            |p: PropDef| PropModel { name: p.name@, typ: p.typ, description: p.description@ },
        ),
        required: t.parameters.required@.map_values(|r: String| r@),
    }
}

/// The models of a sequence of tool definitions.
pub open spec fn tools_model(s: Seq<ToolDefinition>) -> Seq<ToolModel> {
    s.map_values(|t: ToolDefinition| tool_model(t))
}

/// The names of a sequence of modelled tools.
pub open spec fn model_names(ts: Seq<ToolModel>) -> Seq<Seq<char>> {
    ts.map_values(|t: ToolModel| t.name)
}

/// A tool model with the given name and an empty schema.
pub open spec fn plain_tool_model(name: Seq<char>, description: Seq<char>) -> ToolModel {
    ToolModel { name, description, properties: Seq::empty(), required: Seq::empty() }
}

/// A tool model with one required string parameter.
pub open spec fn one_string_tool_model(
    name: Seq<char>,
    description: Seq<char>,
    prop: Seq<char>,
    prop_description: Seq<char>,
) -> ToolModel {
    ToolModel {
        name,
        description,
        properties: seq![PropModel { name: prop, typ: PropType::Str, description: prop_description }],
        required: seq![prop],
    }
}

impl ToolDefinition {
    /// A tool with no parameters.
    pub fn plain(name: &str, description: &str) -> (r: ToolDefinition)
        ensures
            tool_model(r) == plain_tool_model(name@, description@),
            r.parameters.wf(),
    {
        let r = ToolDefinition {
            name: name.to_owned(),
            description: description.to_owned(),
            parameters: ParamSchema::empty(),
        };
        proof {
            assert(tool_model(r).properties =~= plain_tool_model(name@, description@).properties);
            assert(tool_model(r).required =~= plain_tool_model(name@, description@).required);
            assert(tool_model(r) =~~= plain_tool_model(name@, description@));
        }
        r
    }

    /// A tool with a single required string parameter.
    pub fn with_string_param(
        name: &str,
        description: &str,
        prop: &str,
        prop_description: &str,
    ) -> (r: ToolDefinition)
        ensures
            tool_model(r) == one_string_tool_model(name@, description@, prop@, prop_description@),
            r.parameters.wf(),
    {
        let mut properties: Vec<PropDef> = Vec::new();
        properties.push(
            PropDef {
                name: prop.to_owned(),
                typ: PropType::Str,
                description: prop_description.to_owned(),
            },
        );
        let mut required: Vec<String> = Vec::new();
        required.push(prop.to_owned());
        let r = ToolDefinition {
            name: name.to_owned(),
            description: description.to_owned(),
            parameters: ParamSchema { properties, required },
        };
        proof {
            let g = one_string_tool_model(name@, description@, prop@, prop_description@);
            assert(tool_model(r).properties =~~= g.properties);
            assert(tool_model(r).required =~~= g.required);
            assert(tool_model(r) =~~= g);
            assert(r.parameters.required@[0]@ == r.parameters.properties@[0].name@);
        }
        r
    }

    /// A deep copy of this definition.
    pub fn duplicate(&self) -> (r: ToolDefinition)
        ensures
            tool_model(r) == tool_model(*self),
    {
        let mut properties: Vec<PropDef> = Vec::new();
        let mut i: usize = 0;
        while i < self.parameters.properties.len()
            invariant
                i <= self.parameters.properties@.len(),
                properties@.len() == i,
                forall|j: int|
                    0 <= j < i ==> (#[trigger] properties@[j]).name@
                        == self.parameters.properties@[j].name@ && properties@[j].typ
                        == self.parameters.properties@[j].typ && properties@[j].description@
                        == self.parameters.properties@[j].description@,
            decreases self.parameters.properties@.len() - i,
        {
            let p = &self.parameters.properties[i];
            properties.push(
                PropDef { name: p.name.clone(), typ: p.typ, description: p.description.clone() },
            );
            i = i + 1;
        }
        let mut required: Vec<String> = Vec::new();
        let mut k: usize = 0;
        while k < self.parameters.required.len()
            invariant
                k <= self.parameters.required@.len(),
                required@.len() == k,
                forall|j: int|
                    0 <= j < k ==> (#[trigger] required@[j])@ == self.parameters.required@[j]@,
            decreases self.parameters.required@.len() - k,
        {
            required.push(self.parameters.required[k].clone());
            k = k + 1;
        }
        let r = ToolDefinition {
            name: self.name.clone(),
            description: self.description.clone(),
            parameters: ParamSchema { properties, required },
        };
        proof {
            assert(tool_model(r).properties =~~= tool_model(*self).properties);
            assert(tool_model(r).required =~~= tool_model(*self).required);
            assert(tool_model(r) =~~= tool_model(*self));
        }
        r
    }
}

/// An argument value handed to a tool: the JSON-like values that the routing
/// rules inspect.  A non-integral number keeps only its sign, which is all
/// the rules ever read of one; the transport layers normalise integral
/// numbers to `Int` before values reach the core.
#[derive(Debug)]
pub enum ArgValue {
    Null,
    Bool(bool),
    Int(i64),
    Fraction { negative: bool },
    Text(String),
    List(Vec<ArgValue>),
    Obj(Vec<ArgPair>),
}

/// One key/value binding of an argument object.
#[derive(Debug)]
pub struct ArgPair {
    pub key: String,
    pub value: ArgValue,
}

/// The mathematical model of an argument value.
#[verifier::ext_equal]
pub ghost enum ArgVal {
    Null,
    Bool(bool),
    Int(int),
    Fraction { negative: bool },
    Text(Seq<char>),
    List(Seq<ArgVal>),
    Obj(Seq<(Seq<char>, ArgVal)>),
}

/// The model of an argument value: its deep view.
pub open spec fn arg_model(v: ArgValue) -> ArgVal
    decreases v,
    via arg_model_decreases
{
    match v {
        ArgValue::Null => ArgVal::Null,
        ArgValue::Bool(b) => ArgVal::Bool(b),
        ArgValue::Int(n) => ArgVal::Int(n as int),
        ArgValue::Fraction { negative } => ArgVal::Fraction { negative },
        ArgValue::Text(s) => ArgVal::Text(s@),
        ArgValue::List(items) => ArgVal::List(
            Seq::new(
                items@.len(),
                |i: int|
                    if 0 <= i < items@.len() {
                        arg_model(items@[i])
                    } else {
                        ArgVal::Null
                    },
            ),
        ),
        ArgValue::Obj(pairs) => ArgVal::Obj(
            Seq::new(
                pairs@.len(),
                |i: int|
                    if 0 <= i < pairs@.len() {
                        (pairs@[i].key@, arg_model(pairs@[i].value))
                    } else {
                        (Seq::empty(), ArgVal::Null)
                    },
            ),
        ),
    }
}

#[via_fn]
proof fn arg_model_decreases(v: ArgValue) {
    match v {
        ArgValue::List(items) => {
            assert forall|i: int| 0 <= i < items@.len() implies decreases_to!(v
                => items@[i]) by {
                assert(decreases_to!(v => items));
                assert(decreases_to!(items => items@));
                assert(decreases_to!(items@ => items@[i]));
            }
        },
        ArgValue::Obj(pairs) => {
            assert forall|i: int| 0 <= i < pairs@.len() implies decreases_to!(v
                => pairs@[i].value) by {
                assert(decreases_to!(v => pairs));
                assert(decreases_to!(pairs => pairs@));
                assert(decreases_to!(pairs@ => pairs@[i]));
                assert(decreases_to!(pairs@[i] => pairs@[i].value));
            }
        },
        _ => {},
    }
}

/// The first value bound to `key` in a modelled object, if any.
pub open spec fn val_get(entries: Seq<(Seq<char>, ArgVal)>, key: Seq<char>) -> Option<ArgVal>
    decreases entries.len(),
{
    if entries.len() == 0 {
        None
    } else if entries[0].0 == key {
        Some(entries[0].1)
    } else {
        val_get(entries.drop_first(), key)
    }
}

/// Whether a modelled object binds `key` at all.
pub open spec fn val_has_key(entries: Seq<(Seq<char>, ArgVal)>, key: Seq<char>) -> bool {
    exists|i: int| 0 <= i < entries.len() && entries[i].0 == key
}

impl ArgValue {
    /// Look a key up in an argument object; `None` when this value is not
    /// an object or does not bind the key.
    pub fn get<'a>(&'a self, key: &str) -> (r: Option<&'a ArgValue>)
        ensures
            match arg_model(*self) {
                ArgVal::Obj(entries) => match r {
                    Some(v) => val_get(entries, key@) == Some(arg_model(*v)),
                    None => val_get(entries, key@) is None,
                },
                _ => r is None,
            },
    {
        match self {
            ArgValue::Obj(pairs) => {
                let ghost entries = arg_model(*self)->Obj_0;
                let mut i: usize = 0;
                proof {
                    assert(entries.skip(0) =~= entries);
                }
                while i < pairs.len()
                    invariant
                        i <= pairs@.len(),
                        entries == arg_model(*self)->Obj_0,
                        *self matches ArgValue::Obj(q) && q == pairs,
                        entries.len() == pairs@.len(),
                        val_get(entries, key@) == val_get(entries.skip(i as int), key@),
                    decreases pairs@.len() - i,
                {
                    proof {
                        assert(entries.skip(i as int).len() > 0);
                        assert(entries.skip(i as int)[0] == entries[i as int]);
                        assert(entries.skip(i as int).drop_first() =~= entries.skip(i as int + 1));
                        assert(entries[i as int] == (pairs@[i as int].key@, arg_model(
                            pairs@[i as int].value,
                        )));
                    }
                    if str_eq(pairs[i].key.as_str(), key) {
                        return Some(&pairs[i].value);
                    }
                    i = i + 1;
                }
                proof {
                    assert(entries.skip(i as int) =~= Seq::<(Seq<char>, ArgVal)>::empty());
                }
                None
            },
            _ => None,
        }
    }

    /// The characters of this value when it is text; `None` otherwise.
    pub fn as_text<'a>(&'a self) -> (r: Option<&'a String>)
        ensures
            match arg_model(*self) {
                ArgVal::Text(cs) => r matches Some(s) && s@ == cs,
                _ => r is None,
            },
    {
        match self {
            ArgValue::Text(s) => Some(s),
            _ => None,
        }
    }

    /// A deep copy of this value.
    pub fn duplicate(&self) -> (r: ArgValue)
        ensures
            arg_model(r) == arg_model(*self),
        decreases *self,
    {
        match self {
            ArgValue::Null => ArgValue::Null,
            ArgValue::Bool(b) => ArgValue::Bool(*b),
            ArgValue::Int(n) => ArgValue::Int(*n),
            ArgValue::Fraction { negative } => ArgValue::Fraction { negative: *negative },
            ArgValue::Text(s) => ArgValue::Text(s.clone()),
            ArgValue::List(items) => {
                let mut out: Vec<ArgValue> = Vec::new();
                let mut i: usize = 0;
                while i < items.len()
                    invariant
                        i <= items@.len(),
                        out@.len() == i,
                        *self matches ArgValue::List(v) && v == items,
                        forall|j: int|
                            0 <= j < i ==> arg_model(#[trigger] out@[j]) == arg_model(items@[j]),
                    decreases items@.len() - i,
                {
                    proof {
                        assert(decreases_to!(*self => items@[i as int]));
                    }
                    out.push(items[i].duplicate());
                    i = i + 1;
                }
                let r = ArgValue::List(out);
                proof {
                    assert(arg_model(r)->List_0 =~= arg_model(*self)->List_0);
                    assert(arg_model(r) =~= arg_model(*self));
                }
                r
            },
            ArgValue::Obj(pairs) => {
                let mut out: Vec<ArgPair> = Vec::new();
                let mut i: usize = 0;
                while i < pairs.len()
                    invariant
                        i <= pairs@.len(),
                        out@.len() == i,
                        *self matches ArgValue::Obj(v) && v == pairs,
                        forall|j: int|
                            0 <= j < i ==> (#[trigger] out@[j]).key@ == pairs@[j].key@ && arg_model(
                                out@[j].value,
                            ) == arg_model(pairs@[j].value),
                    decreases pairs@.len() - i,
                {
                    proof {
                        assert(decreases_to!(*self => pairs@[i as int].value));
                    }
                    out.push(
                        ArgPair { key: pairs[i].key.clone(), value: pairs[i].value.duplicate() },
                    );
                    i = i + 1;
                }
                let r = ArgValue::Obj(out);
                proof {
                    assert(arg_model(r)->Obj_0 =~= arg_model(*self)->Obj_0);
                    assert(arg_model(r) =~= arg_model(*self));
                }
                r
            },
        }
    }
}

/// A structured result payload.  `Centi(n)` is a fixed-point number holding
/// `n` hundredths of a unit, used where a payload reports a fractional
/// reading.
#[derive(Debug)]
pub enum DataValue {
    Null,
    Bool(bool),
    Int(i64),
    Centi(i64),
    Text(String),
    List(Vec<DataValue>),
    Obj(Vec<DataPair>),
}

/// One key/value binding of a payload object.
#[derive(Debug)]
pub struct DataPair {
    pub key: String,
    pub value: DataValue,
}

/// The mathematical model of a result payload.
#[verifier::ext_equal]
pub ghost enum DataVal {
    Null,
    Bool(bool),
    Int(int),
    Centi(int),
    Text(Seq<char>),
    List(Seq<DataVal>),
    Obj(Seq<(Seq<char>, DataVal)>),
}

/// The model of a payload value: its deep view.
pub open spec fn data_model(v: DataValue) -> DataVal
    decreases v,
    via data_model_decreases
{
    match v {
        DataValue::Null => DataVal::Null,
        DataValue::Bool(b) => DataVal::Bool(b),
        DataValue::Int(n) => DataVal::Int(n as int),
        DataValue::Centi(n) => DataVal::Centi(n as int),
        DataValue::Text(s) => DataVal::Text(s@),
        DataValue::List(items) => DataVal::List(
            Seq::new(
                items@.len(),
                |i: int|
                    if 0 <= i < items@.len() {
                        data_model(items@[i])
                    } else {
                        DataVal::Null
                    },
            ),
        ),
        DataValue::Obj(pairs) => DataVal::Obj(
            Seq::new(
                pairs@.len(),
                |i: int|
                    if 0 <= i < pairs@.len() {
                        (pairs@[i].key@, data_model(pairs@[i].value))
                    } else {
                        (Seq::empty(), DataVal::Null)
                    },
            ),
        ),
    }
}

#[via_fn]
proof fn data_model_decreases(v: DataValue) {
    match v {
        DataValue::List(items) => {
            assert forall|i: int| 0 <= i < items@.len() implies decreases_to!(v
                => items@[i]) by {
                assert(decreases_to!(v => items));
                assert(decreases_to!(items => items@));
                assert(decreases_to!(items@ => items@[i]));
            }
        },
        DataValue::Obj(pairs) => {
            assert forall|i: int| 0 <= i < pairs@.len() implies decreases_to!(v
                => pairs@[i].value) by {
                assert(decreases_to!(v => pairs));
                assert(decreases_to!(pairs => pairs@));
                assert(decreases_to!(pairs@ => pairs@[i]));
                assert(decreases_to!(pairs@[i] => pairs@[i].value));
            }
        },
        _ => {},
    }
}

/// The first value bound to `key` in a modelled payload object, if any.
pub open spec fn dval_get(entries: Seq<(Seq<char>, DataVal)>, key: Seq<char>) -> Option<DataVal>
    decreases entries.len(),
{
    if entries.len() == 0 {
        None
    } else if entries[0].0 == key {
        Some(entries[0].1)
    } else {
        dval_get(entries.drop_first(), key)
    }
}

impl DataValue {
    /// Look a key up in a payload object; `None` when this value is not an
    /// object or does not bind the key.
    pub fn get<'a>(&'a self, key: &str) -> (r: Option<&'a DataValue>)
        ensures
            match data_model(*self) {
                DataVal::Obj(entries) => match r {
                    Some(v) => dval_get(entries, key@) == Some(data_model(*v)),
                    None => dval_get(entries, key@) is None,
                },
                _ => r is None,
            },
    {
        match self {
            DataValue::Obj(pairs) => {
                let ghost entries = data_model(*self)->Obj_0;
                let mut i: usize = 0;
                proof {
                    assert(entries.skip(0) =~= entries);
                }
                while i < pairs.len()
                    invariant
                        i <= pairs@.len(),
                        entries == data_model(*self)->Obj_0,
                        *self matches DataValue::Obj(q) && q == pairs,
                        entries.len() == pairs@.len(),
                        dval_get(entries, key@) == dval_get(entries.skip(i as int), key@),
                    decreases pairs@.len() - i,
                {
                    proof {
                        assert(entries.skip(i as int).len() > 0);
                        assert(entries.skip(i as int)[0] == entries[i as int]);
                        assert(entries.skip(i as int).drop_first() =~= entries.skip(i as int + 1));
                        assert(entries[i as int] == (pairs@[i as int].key@, data_model(
                            pairs@[i as int].value,
                        )));
                    }
                    if str_eq(pairs[i].key.as_str(), key) {
                        return Some(&pairs[i].value);
                    }
                    i = i + 1;
                }
                proof {
                    assert(entries.skip(i as int) =~= Seq::<(Seq<char>, DataVal)>::empty());
                }
                None
            },
            _ => None,
        }
    }

    /// A deep copy of this value.
    pub fn duplicate(&self) -> (r: DataValue)
        ensures
            data_model(r) == data_model(*self),
        decreases *self,
    {
        match self {
            DataValue::Null => DataValue::Null,
            DataValue::Bool(b) => DataValue::Bool(*b),
            DataValue::Int(n) => DataValue::Int(*n),
            DataValue::Centi(n) => DataValue::Centi(*n),
            DataValue::Text(s) => DataValue::Text(s.clone()),
            DataValue::List(items) => {
                let mut out: Vec<DataValue> = Vec::new();
                let mut i: usize = 0;
                while i < items.len()
                    invariant
                        i <= items@.len(),
                        out@.len() == i,
                        *self matches DataValue::List(v) && v == items,
                        forall|j: int|
                            0 <= j < i ==> data_model(#[trigger] out@[j]) == data_model(
                                items@[j],
                            ),
                    decreases items@.len() - i,
                {
                    proof {
                        assert(decreases_to!(*self => items@[i as int]));
                    }
                    out.push(items[i].duplicate());
                    i = i + 1;
                }
                let r = DataValue::List(out);
                proof {
                    assert(data_model(r)->List_0 =~= data_model(*self)->List_0);
                    assert(data_model(r) =~= data_model(*self));
                }
                r
            },
            DataValue::Obj(pairs) => {
                let mut out: Vec<DataPair> = Vec::new();
                let mut i: usize = 0;
                while i < pairs.len()
                    invariant
                        i <= pairs@.len(),
                        out@.len() == i,
                        *self matches DataValue::Obj(v) && v == pairs,
                        forall|j: int|
                            0 <= j < i ==> (#[trigger] out@[j]).key@ == pairs@[j].key@
                                && data_model(out@[j].value) == data_model(pairs@[j].value),
                    decreases pairs@.len() - i,
                {
                    proof {
                        assert(decreases_to!(*self => pairs@[i as int].value));
                    }
                    out.push(
                        DataPair { key: pairs[i].key.clone(), value: pairs[i].value.duplicate() },
                    );
                    i = i + 1;
                }
                let r = DataValue::Obj(out);
                proof {
                    assert(data_model(r)->Obj_0 =~= data_model(*self)->Obj_0);
                    assert(data_model(r) =~= data_model(*self));
                }
                r
            },
        }
    }
}

/// The result of executing a tool: never an exception, always a value.
#[derive(Debug)]
pub struct ToolResult {
    pub success: bool,
    pub data: DataValue,
    pub error: Option<String>,
}

/// The mathematical model of a tool result.
#[verifier::ext_equal]
pub ghost struct ResultModel {
    pub success: bool,
    pub data: DataVal,
    pub error: Option<Seq<char>>,
}

/// The model of a tool result: its deep view.
pub open spec fn result_model(r: ToolResult) -> ResultModel {
    ResultModel {
        success: r.success,
        data: data_model(r.data),
        error: match r.error {
            Some(e) => Some(e@),
            None => None,
        },
    }
}

impl ToolResult {
    /// A deep copy of this result.
    pub fn duplicate(&self) -> (r: ToolResult)
        ensures
            result_model(r) == result_model(*self),
    {
        let error = match &self.error {
            Some(e) => Some(e.clone()),
            None => None,
        };
        ToolResult { success: self.success, data: self.data.duplicate(), error }
    }
}

/// The structured failure returned when a tool name is not known.
pub open spec fn unknown_tool_model(name: Seq<char>) -> ResultModel {
    ResultModel { success: false, data: DataVal::Null, error: Some("Unknown tool: "@ + name) }
}

/// Build the structured failure for an unknown tool name.
pub fn unknown_tool_result(tool_name: &str) -> (r: ToolResult)
    ensures
        result_model(r) == unknown_tool_model(tool_name@),
{
    let mut msg = String::from_str("Unknown tool: ");
    msg.append(tool_name);
    ToolResult { success: false, data: DataValue::Null, error: Some(msg) }
}

/// The payload carries the "escalate to cloud" signal: a top-level
/// `requires_cloud` key bound to `Bool(true)`.
pub open spec fn escalates_model(m: ResultModel) -> bool {
    match m.data {
        DataVal::Obj(entries) => match dval_get(entries, "requires_cloud"@) {
            Some(v) => v matches DataVal::Bool(true),
            _ => false,
        },
        _ => false,
    }
}

/// Whether a tool result asks the caller to escalate to the cloud.
pub fn escalates(r: &ToolResult) -> (b: bool)
    ensures
        b == escalates_model(result_model(*r)),
{
    match r.data.get("requires_cloud") {
        Some(v) => match v {
            DataValue::Bool(b) => *b,
            _ => false,
        },
        None => false,
    }
}

/// One proposed tool invocation from an inference backend.
#[derive(Debug)]
pub struct FunctionCall {
    pub name: String,
    pub arguments: ArgValue,
}

/// The mathematical model of a proposed invocation.
#[verifier::ext_equal]
pub ghost struct CallModel {
    pub name: Seq<char>,
    pub args: ArgVal,
}

/// The model of a proposed invocation: its deep view.
pub open spec fn call_model(c: FunctionCall) -> CallModel {
    CallModel { name: c.name@, args: arg_model(c.arguments) }
}

/// The models of a sequence of proposed invocations.
pub open spec fn calls_model(s: Seq<FunctionCall>) -> Seq<CallModel> {
    s.map_values(|c: FunctionCall| call_model(c))
}

impl FunctionCall {
    /// A deep copy of this invocation.
    pub fn duplicate(&self) -> (r: FunctionCall)
        ensures
            call_model(r) == call_model(*self),
    {
        FunctionCall { name: self.name.clone(), arguments: self.arguments.duplicate() }
    }
}

} // verus!
