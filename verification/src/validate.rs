//! The Validator: a deterministic, total predicate that accepts or rejects a
//! set of proposed tool calls against the tool schemas, required-argument
//! presence, value type constraints, text grounding, and a confidence gate
//! that depends on the size of the tool universe.

use vstd::prelude::*;
use crate::schema::ArgVal;
use crate::schema::ArgPair;
use crate::schema::ArgValue;
use crate::schema::CallModel;
use crate::schema::FunctionCall;
use crate::schema::PropDef;
use crate::schema::PropType;
use crate::schema::ToolDefinition;
use crate::schema::arg_model;
use crate::schema::call_model;
use crate::schema::calls_model;
use crate::schema::find_prop;
use crate::schema::val_has_key;
use crate::text::all_space;
use crate::text::extract_words;
use crate::text::space_char;
use crate::text::str_eq;
use crate::text::views_of;
use crate::text::words_of;

verus! {

/// The first tool named `name`, if any.
pub open spec fn find_tool(tools: Seq<ToolDefinition>, name: Seq<char>) -> Option<ToolDefinition>
    decreases tools.len(),
{
    if tools.len() == 0 {
        None
    } else if tools[0].name@ == name {
        Some(tools[0])
    } else {
        find_tool(tools.drop_first(), name)
    }
}

/// A string value is grounded in the user's text: it has at least one word,
/// and every one of its words occurs among the words of the text.
pub open spec fn grounded(sv: Seq<char>, msg: Seq<char>) -> bool {
    let vw = words_of(sv);
    vw.len() > 0 && forall|k: int| 0 <= k < vw.len() ==> words_of(msg).contains(#[trigger] vw[k])
}

/// A value passes the checks for a string-declared parameter: it is text,
/// it keeps a character after trimming, and it is grounded in the text.
pub open spec fn string_arg_ok(v: ArgVal, msg: Seq<char>) -> bool {
    match v {
        ArgVal::Text(s) => (exists|i: int| 0 <= i < s.len() && !space_char(s[i])) && grounded(
            s,
            msg,
        ),
        _ => false,
    }
}

/// A value passes the checks for an integer-declared parameter: it is
/// numeric and not negative (a non-integral encoding is accepted).
pub open spec fn integer_arg_ok(v: ArgVal) -> bool {
    match v {
        ArgVal::Int(n) => n >= 0,
        ArgVal::Fraction { negative } => !negative,
        _ => false,
    }
}

/// One binding of a call's argument object is acceptable for tool `t`:
/// a key the schema does not declare is ignored; a declared one is held to
/// its declared type.
pub open spec fn binding_ok(t: ToolDefinition, key: Seq<char>, v: ArgVal, msg: Seq<char>) -> bool {
    match find_prop(t.parameters.properties@, key) {
        None => true,
        Some(p) => {
            &&& (p.typ == PropType::Str ==> string_arg_ok(v, msg))
            &&& (p.typ == PropType::Int ==> integer_arg_ok(v))
        },
    }
}

/// The arguments are an object that binds `key`.
pub open spec fn args_bind(args: ArgVal, key: Seq<char>) -> bool {
    args matches ArgVal::Obj(entries) && val_has_key(entries, key)
}

/// Every name on the tool's required list is present among the argument keys.
pub open spec fn required_ok(t: ToolDefinition, args: ArgVal) -> bool {
    forall|i: int|
        0 <= i < t.parameters.required@.len() ==> args_bind(
            args,
            (#[trigger] t.parameters.required@[i])@,
        )
}

/// A proposed call is acceptable: its tool exists in the universe, its
/// required arguments are present, and every declared argument passes its
/// type and grounding checks.
pub open spec fn call_ok(c: CallModel, tools: Seq<ToolDefinition>, msg: Seq<char>) -> bool {
    match find_tool(tools, c.name) {
        None => false,
        Some(t) => {
            &&& required_ok(t, c.args)
            &&& (c.args matches ArgVal::Obj(entries) ==> forall|i: int|
                0 <= i < entries.len() ==> binding_ok(
                    t,
                    (#[trigger] entries[i]).0,
                    entries[i].1,
                    msg,
                ))
        },
    }
}

/// Every structural check of the Validator except the confidence gate.
pub open spec fn calls_ok(calls: Seq<CallModel>, tools: Seq<ToolDefinition>, msg: Seq<char>) -> bool {
    &&& calls.len() > 0
    &&& forall|i: int| 0 <= i < calls.len() ==> call_ok(#[trigger] calls[i], tools, msg)
}

/// The confidence gate: with three or more candidate tools, confidence
/// (in hundredths) must reach 90.
pub open spec fn gate_ok(confidence: int, tools_len: int) -> bool {
    tools_len >= 3 ==> confidence >= 90
}

/// The Validator's acceptance predicate.
pub open spec fn validate_spec(
    calls: Seq<CallModel>,
    confidence: int,
    tools: Seq<ToolDefinition>,
    msg: Seq<char>,
) -> bool {
    &&& calls_ok(calls, tools, msg)
    &&& gate_ok(confidence, tools.len() as int)
}

/// Whatever the universe and the text, an empty call list is rejected.
pub proof fn lemma_rejects_empty_calls(
    confidence: int,
    tools: Seq<ToolDefinition>,
    msg: Seq<char>,
)
    ensures
        !validate_spec(Seq::empty(), confidence, tools, msg),
{
}

/// Whatever the other calls and checks, a call list naming a tool absent
/// from the universe is rejected.
pub proof fn lemma_rejects_unknown_tool(
    calls: Seq<CallModel>,
    confidence: int,
    tools: Seq<ToolDefinition>,
    msg: Seq<char>,
    i: int,
)
    requires
        0 <= i < calls.len(),
        forall|j: int| 0 <= j < tools.len() ==> (#[trigger] tools[j]).name@ != calls[i].name,
    ensures
        !validate_spec(calls, confidence, tools, msg),
{
    lemma_find_tool_absent(tools, calls[i].name);
}

proof fn lemma_find_tool_absent(tools: Seq<ToolDefinition>, name: Seq<char>)
    requires
        forall|j: int| 0 <= j < tools.len() ==> (#[trigger] tools[j]).name@ != name,
    ensures
        find_tool(tools, name) is None,
    decreases tools.len(),
{
    if tools.len() > 0 {
        assert(tools[0].name@ != name);
        assert(forall|j: int|
            0 <= j < tools.drop_first().len() ==> (#[trigger] tools.drop_first()[j]).name@
                != name);
        lemma_find_tool_absent(tools.drop_first(), name);
    }
}

pub proof fn lemma_confidence_gate(
    calls: Seq<CallModel>,
    confidence: int,
    tools: Seq<ToolDefinition>,
    msg: Seq<char>,
)
    requires
        tools.len() >= 3,
    ensures
        validate_spec(calls, confidence, tools, msg) == (confidence >= 90 && calls_ok(
            calls,
            tools,
            msg,
        )),
{
}

/// Find the index of the first tool with the given name.
fn find_tool_index(tools: &Vec<ToolDefinition>, name: &str) -> (r: Option<usize>)
    ensures
        match r {
            Some(i) => i < tools@.len() && find_tool(tools@, name@) == Some(tools@[i as int]),
            None => find_tool(tools@, name@) is None,
        },
{
    let ghost all = tools@;
    let mut i: usize = 0;
    proof {
        assert(all.skip(0) =~= all);
    }
    while i < tools.len()
        invariant
            i <= all.len(),
            all == tools@,
            find_tool(all, name@) == find_tool(all.skip(i as int), name@),
        decreases all.len() - i,
    {
        proof {
            assert(all.skip(i as int).len() > 0);
            assert(all.skip(i as int)[0] == all[i as int]);
            assert(all.skip(i as int).drop_first() =~= all.skip(i as int + 1));
        }
        if str_eq(tools[i].name.as_str(), name) {
            return Some(i);
        }
        i = i + 1;
    }
    proof {
        assert(all.skip(i as int) =~= Seq::<ToolDefinition>::empty());
    }
    None
}

/// Find the first declared property with the given name.
fn find_prop_ref<'a>(props: &'a Vec<PropDef>, name: &str) -> (r: Option<&'a PropDef>)
    ensures
        match r {
            Some(p) => find_prop(props@, name@) == Some(*p),
            None => find_prop(props@, name@) is None,
        },
{
    let ghost all = props@;
    let mut i: usize = 0;
    proof {
        assert(all.skip(0) =~= all);
    }
    while i < props.len()
        invariant
            i <= all.len(),
            all == props@,
            find_prop(all, name@) == find_prop(all.skip(i as int), name@),
        decreases all.len() - i,
    {
        proof {
            assert(all.skip(i as int).len() > 0);
            assert(all.skip(i as int)[0] == all[i as int]);
            assert(all.skip(i as int).drop_first() =~= all.skip(i as int + 1));
        }
        if str_eq(props[i].name.as_str(), name) {
            return Some(&props[i]);
        }
        i = i + 1;
    }
    proof {
        assert(all.skip(i as int) =~= Seq::<PropDef>::empty());
    }
    None
}

/// Is one of the strings view-equal to `w`?
fn contains_string(ws: &Vec<String>, w: &String) -> (r: bool)
    ensures
        r == views_of(ws@).contains(w@),
{
    let mut i: usize = 0;
    while i < ws.len()
        invariant
            i <= ws@.len(),
            forall|j: int| 0 <= j < i ==> views_of(ws@)[j] != w@,
        decreases ws@.len() - i,
    {
        if ws[i].eq(w) {
            assert(views_of(ws@)[i as int] == w@);
            return true;
        }
        i = i + 1;
    }
    assert(forall|j: int| 0 <= j < ws@.len() ==> views_of(ws@)[j] != w@);
    false
}

/// Does the argument object bind `key`?  (False when the arguments are not
/// an object.)
fn args_have_key(args: &ArgValue, key: &str) -> (r: bool)
    ensures
        r == args_bind(arg_model(*args), key@),
{
    match args {
        ArgValue::Obj(pairs) => {
            let ghost entries = arg_model(*args)->Obj_0;
            let mut i: usize = 0;
            while i < pairs.len()
                invariant
                    i <= pairs@.len(),
                    entries == arg_model(*args)->Obj_0,
                    *args matches ArgValue::Obj(q) && q == pairs,
                    entries.len() == pairs@.len(),
                    forall|j: int| 0 <= j < i ==> (#[trigger] entries[j]).0 != key@,
                decreases pairs@.len() - i,
            {
                proof {
                    assert(entries[i as int] == (pairs@[i as int].key@, arg_model(
                        pairs@[i as int].value,
                    )));
                }
                if str_eq(pairs[i].key.as_str(), key) {
                    assert(entries[i as int].0 == key@);
                    return true;
                }
                i = i + 1;
            }
            false
        },
        _ => false,
    }
}

/// Check that a text value keeps a non-space character and that each of its
/// words occurs among the given words of the user's text.
fn string_grounded(s: &String, msg_words: &Vec<String>, Ghost(msg): Ghost<Seq<char>>) -> (r: bool)
    requires
        views_of(msg_words@) == words_of(msg),
    ensures
        r == string_arg_ok(ArgVal::Text(s@), msg),
{
    if all_space(s.as_str()) {
        return false;
    }
    let vw = extract_words(s.as_str());
    if vw.len() == 0 {
        assert(words_of(s@).len() == 0);
        return false;
    }
    let mut k: usize = 0;
    while k < vw.len()
        invariant
            k <= vw@.len(),
            views_of(vw@) == words_of(s@),
            views_of(msg_words@) == words_of(msg),
            forall|j: int| 0 <= j < k ==> words_of(msg).contains(#[trigger] words_of(s@)[j]),
        decreases vw@.len() - k,
    {
        if !contains_string(msg_words, &vw[k]) {
            assert(!words_of(msg).contains(words_of(s@)[k as int]));
            return false;
        }
        assert(words_of(msg).contains(words_of(s@)[k as int]));
        k = k + 1;
    }
    proof {
        assert(words_of(s@).len() > 0);
        assert(grounded(s@, msg));
        assert(exists|i: int| 0 <= i < s@.len() && !space_char(s@[i]));
        assert(string_arg_ok(ArgVal::Text(s@), msg));
    }
    true
}

/// Check one binding of a call's argument object against tool `t`.
fn binding_check(
    t: &ToolDefinition,
    pair: &ArgPair,
    msg_words: &Vec<String>,
    Ghost(msg): Ghost<Seq<char>>,
) -> (r: bool)
    requires
        views_of(msg_words@) == words_of(msg),
    ensures
        r == binding_ok(*t, pair.key@, arg_model(pair.value), msg),
{
    match find_prop_ref(&t.parameters.properties, pair.key.as_str()) {
        None => true,
        Some(p) => {
            if matches!(p.typ, PropType::Str) {
                match &pair.value {
                    ArgValue::Text(s) => string_grounded(s, msg_words, Ghost(msg)),
                    _ => false,
                }
            } else if matches!(p.typ, PropType::Int) {
                match &pair.value {
                    ArgValue::Int(n) => *n >= 0,
                    ArgValue::Fraction { negative } => !*negative,
                    _ => false,
                }
            } else {
                true
            }
        },
    }
}

/// Check one proposed call.
fn check_call(
    c: &FunctionCall,
    tools: &Vec<ToolDefinition>,
    msg_words: &Vec<String>,
    Ghost(msg): Ghost<Seq<char>>,
) -> (r: bool)
    requires
        views_of(msg_words@) == words_of(msg),
    ensures
        r == call_ok(call_model(*c), tools@, msg),
{
    let t = match find_tool_index(tools, c.name.as_str()) {
        Some(i) => &tools[i],
        None => {
            return false;
        },
    };
    let mut ri: usize = 0;
    while ri < t.parameters.required.len()
        invariant
            ri <= t.parameters.required@.len(),
            find_tool(tools@, c.name@) == Some(*t),
            views_of(msg_words@) == words_of(msg),
            forall|j: int|
                0 <= j < ri ==> args_bind(
                    arg_model(c.arguments),
                    (#[trigger] t.parameters.required@[j])@,
                ),
        decreases t.parameters.required@.len() - ri,
    {
        if !args_have_key(&c.arguments, t.parameters.required[ri].as_str()) {
            return false;
        }
        ri = ri + 1;
    }
    proof {
        assert(required_ok(*t, arg_model(c.arguments)));
    }
    match &c.arguments {
        ArgValue::Obj(pairs) => {
            let ghost entries = arg_model(c.arguments)->Obj_0;
            let mut pi: usize = 0;
            while pi < pairs.len()
                invariant
                    pi <= pairs@.len(),
                    entries == arg_model(c.arguments)->Obj_0,
                    c.arguments matches ArgValue::Obj(q) && q == pairs,
                    entries.len() == pairs@.len(),
                    find_tool(tools@, c.name@) == Some(*t),
                    views_of(msg_words@) == words_of(msg),
                    required_ok(*t, arg_model(c.arguments)),
                    forall|j: int|
                        0 <= j < pi ==> binding_ok(
                            *t,
                            (#[trigger] entries[j]).0,
                            entries[j].1,
                            msg,
                        ),
                decreases pairs@.len() - pi,
            {
                proof {
                    assert(entries[pi as int] == (pairs@[pi as int].key@, arg_model(
                        pairs@[pi as int].value,
                    )));
                }
                if !binding_check(t, &pairs[pi], msg_words, Ghost(msg)) {
                    return false;
                }
                pi = pi + 1;
            }
        },
        _ => {},
    }
    true
}

/// The Validator.  `confidence` is in hundredths: 90 stands for 0.90.
///
/// Accepts exactly when: the call list is non-empty; every call names a
/// tool of the universe; every required argument of that tool is present;
/// every argument declared `string` is non-blank text whose words all occur
/// in the user's text; every argument declared `integer` is numeric and not
/// negative; and, when the universe holds three or more tools, the
/// confidence reaches 90.
pub fn validate_local_result(
    function_calls: &Vec<FunctionCall>,
    confidence: u32,
    tools: &Vec<ToolDefinition>,
    user_message: &str,
) -> (r: bool)
    ensures
        r == validate_spec(
            calls_model(function_calls@),
            confidence as int,
            tools@,
            user_message@,
        ),
{
    if function_calls.len() == 0 {
        return false;
    }
    let msg_words = extract_words(user_message);
    let ghost cm = calls_model(function_calls@);
    let mut i: usize = 0;
    while i < function_calls.len()
        invariant
            i <= function_calls@.len(),
            cm == calls_model(function_calls@),
            views_of(msg_words@) == words_of(user_message@),
            forall|j: int| 0 <= j < i ==> call_ok(#[trigger] cm[j], tools@, user_message@),
        decreases function_calls@.len() - i,
    {
        proof {
            assert(cm[i as int] == call_model(function_calls@[i as int]));
        }
        if !check_call(&function_calls[i], tools, &msg_words, Ghost(user_message@)) {
            return false;
        }
        i = i + 1;
    }
    if tools.len() >= 3 && confidence < 90 {
        return false;
    }
    true
}

} // verus!
