use sentinel::cloud::build_function_declarations;
use sentinel::cloud::clean_args;
use sentinel::cloud::gemini_type;
use sentinel::schema::ArgPair;
use sentinel::schema::ArgValue;
use sentinel::schema::ToolDefinition;

#[test]
fn test_gemini_type_mapping() {
    assert_eq!(gemini_type("string"), "STRING");
    assert_eq!(gemini_type("integer"), "INTEGER");
    assert_eq!(gemini_type("number"), "NUMBER");
    assert_eq!(gemini_type("boolean"), "BOOLEAN");
    assert_eq!(gemini_type("object"), "OBJECT");
}

#[test]
fn test_gemini_type_array_and_unknown() {
    assert_eq!(gemini_type("array"), "ARRAY");
    assert_eq!(gemini_type("whatever"), "OBJECT");
    assert_eq!(gemini_type(""), "OBJECT");
}

#[test]
fn test_build_function_declarations() {
    let tools = vec![ToolDefinition::with_string_param(
        "test_tool",
        "A test tool",
        "query",
        "Search query",
    )];
    let decls = build_function_declarations(&tools);
    assert_eq!(decls.len(), 1);
    assert_eq!(decls[0].name, "test_tool");
    assert_eq!(decls[0].description, "A test tool");
    assert_eq!(decls[0].properties.len(), 1);
    assert_eq!(decls[0].properties[0].name, "query");
    assert_eq!(decls[0].properties[0].kind_name, "STRING");
    assert_eq!(decls[0].properties[0].description, "Search query");
    assert_eq!(decls[0].required, vec!["query".to_string()]);
}

#[test]
fn test_clean_args_strips_trailing_punctuation() {
    let raw = ArgValue::Obj(vec![
        ArgPair { key: "name".to_string(), value: ArgValue::Text("test.".to_string()) },
        ArgPair { key: "loud".to_string(), value: ArgValue::Text("hey!?".to_string()) },
        ArgPair { key: "count".to_string(), value: ArgValue::Int(10) },
    ]);
    let cleaned = clean_args(raw);
    let name = cleaned.get("name").and_then(|v| v.as_text()).unwrap();
    assert_eq!(name, "test");
    let loud = cleaned.get("loud").and_then(|v| v.as_text()).unwrap();
    assert_eq!(loud, "hey");
    match cleaned.get("count").unwrap() {
        ArgValue::Int(n) => assert_eq!(*n, 10),
        _ => panic!("count should stay an integer"),
    }
}

#[test]
fn test_clean_args_preserves_non_integral_numbers() {
    let raw = ArgValue::Obj(vec![ArgPair {
        key: "ratio".to_string(),
        value: ArgValue::Fraction { negative: false },
    }]);
    let cleaned = clean_args(raw);
    match cleaned.get("ratio").unwrap() {
        ArgValue::Fraction { negative } => assert!(!negative),
        _ => panic!("ratio should stay a fraction"),
    }
}

#[test]
fn test_clean_args_passes_non_objects_through() {
    let raw = ArgValue::Text("free text.".to_string());
    let cleaned = clean_args(raw);
    match cleaned {
        // only bindings inside an object are cleaned
        ArgValue::Text(s) => assert_eq!(s, "free text."),
        _ => panic!("a bare value should pass through unchanged"),
    }
}
