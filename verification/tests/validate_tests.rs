use sentinel::schema::ArgPair;
use sentinel::schema::ArgValue;
use sentinel::schema::FunctionCall;
use sentinel::schema::ToolDefinition;
use sentinel::text::extract_words;
use sentinel::validate::validate_local_result;

fn plain_universe(names: &[&str]) -> Vec<ToolDefinition> {
    names.iter().map(|n| ToolDefinition::plain(n, "a tool")).collect()
}

fn call(name: &str, args: Vec<(&str, ArgValue)>) -> FunctionCall {
    FunctionCall {
        name: name.to_string(),
        arguments: ArgValue::Obj(
            args.into_iter()
                .map(|(k, v)| ArgPair { key: k.to_string(), value: v })
                .collect(),
        ),
    }
}

fn kill_universe() -> Vec<ToolDefinition> {
    vec![ToolDefinition::with_string_param(
        "kill_process",
        "Force-kill a process by name",
        "process_name",
        "Name of the process to kill",
    )]
}

#[test]
fn test_validator_rejects_empty_call_list() {
    let universe = plain_universe(&["a", "b"]);
    assert!(!validate_local_result(&Vec::new(), 100, &universe, "anything at all"));
}

#[test]
fn test_validator_rejects_unknown_tool() {
    let universe = plain_universe(&["a", "b"]);
    let calls = vec![call("c", vec![])];
    assert!(!validate_local_result(&calls, 100, &universe, "anything at all"));
}

#[test]
fn test_confidence_gate_boundary_with_three_tools() {
    let universe = plain_universe(&["a", "b", "c"]);
    let calls = vec![call("a", vec![])];
    // everything else held valid: only the confidence moves
    assert!(!validate_local_result(&calls, 89, &universe, "do the thing"));
    assert!(validate_local_result(&calls, 90, &universe, "do the thing"));
}

#[test]
fn test_no_gate_below_three_tools() {
    let universe = plain_universe(&["a", "b"]);
    let calls = vec![call("a", vec![])];
    assert!(validate_local_result(&calls, 10, &universe, "do the thing"));
}

#[test]
fn test_grounding_accepts_and_rejects() {
    let universe = kill_universe();
    let calls = vec![call(
        "kill_process",
        vec![("process_name", ArgValue::Text("Safari".to_string()))],
    )];
    // case-insensitive token match against the user's own words
    assert!(validate_local_result(&calls, 100, &universe, "kill safari please"));
    assert!(!validate_local_result(&calls, 100, &universe, "kill chrome"));
}

#[test]
fn test_missing_required_argument_rejected() {
    let universe = kill_universe();
    let calls = vec![call("kill_process", vec![])];
    assert!(!validate_local_result(&calls, 100, &universe, "kill safari please"));
}

#[test]
fn test_blank_string_argument_rejected() {
    let universe = kill_universe();
    let calls = vec![call(
        "kill_process",
        vec![("process_name", ArgValue::Text("   ".to_string()))],
    )];
    assert!(!validate_local_result(&calls, 100, &universe, "kill safari please"));
}

#[test]
fn test_non_string_value_for_string_parameter_rejected() {
    let universe = kill_universe();
    let calls = vec![call("kill_process", vec![("process_name", ArgValue::Int(7))])];
    assert!(!validate_local_result(&calls, 100, &universe, "kill 7 please"));
}

#[test]
fn test_integer_argument_sign() {
    let mut universe = kill_universe();
    universe.push(ToolDefinition {
        name: "wait".to_string(),
        description: "wait some seconds".to_string(),
        parameters: sentinel::schema::ParamSchema {
            properties: vec![sentinel::schema::PropDef {
                name: "seconds".to_string(),
                typ: sentinel::schema::PropType::Int,
                description: "how long".to_string(),
            }],
            required: vec!["seconds".to_string()],
        },
    });
    let ok = vec![call("wait", vec![("seconds", ArgValue::Int(5))])];
    assert!(validate_local_result(&ok, 100, &universe, "wait 5 seconds"));
    let negative = vec![call("wait", vec![("seconds", ArgValue::Int(-5))])];
    assert!(!validate_local_result(&negative, 100, &universe, "wait 5 seconds"));
    let fractional = vec![call(
        "wait",
        vec![("seconds", ArgValue::Fraction { negative: false })],
    )];
    assert!(validate_local_result(&fractional, 100, &universe, "wait a bit"));
    let negative_fraction = vec![call(
        "wait",
        vec![("seconds", ArgValue::Fraction { negative: true })],
    )];
    assert!(!validate_local_result(&negative_fraction, 100, &universe, "wait a bit"));
    let textual = vec![call("wait", vec![("seconds", ArgValue::Text("five".to_string()))])];
    assert!(!validate_local_result(&textual, 100, &universe, "wait five seconds"));
}

#[test]
fn test_undeclared_argument_is_ignored() {
    let universe = kill_universe();
    let calls = vec![call(
        "kill_process",
        vec![
            ("process_name", ArgValue::Text("safari".to_string())),
            ("extra", ArgValue::Text("hallucinated".to_string())),
        ],
    )];
    assert!(validate_local_result(&calls, 100, &universe, "kill safari please"));
}

#[test]
fn test_extract_words_lowercases_and_splits() {
    let words = extract_words("Kill SAFARI, please!");
    assert_eq!(words, vec!["kill", "safari", "please"]);
    assert!(extract_words("  ?!  ").is_empty());
    assert_eq!(extract_words("a-b_c"), vec!["a", "b", "c"]);
}
