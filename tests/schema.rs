use anything_cli::json::Json;
use anything_cli::schema::{
    accept_envelope, envelope_from_json, instruction_from_json, parse_anything_schema,
    validate_envelope, AnythingSchema, Instruction,
};

#[test]
fn envelope_with_empty_list_is_accepted() {
    let e = parse_anything_schema(r#"{"schema":"anything-cli/v0.1.0","instructions":[]}"#).unwrap();
    assert_eq!(e.schema, "anything-cli/v0.1.0");
    assert_eq!(e.instructions.unwrap().len(), 0);
}

#[test]
fn envelope_without_list_is_rejected() {
    assert!(parse_anything_schema(r#"{"schema":"anything-cli/v0.1.0"}"#).is_none());
    assert!(parse_anything_schema(r#"{"schema":"anything-cli/v0.1.0","instructions":null}"#).is_none());
}

#[test]
fn envelope_of_other_schema_is_rejected() {
    assert!(parse_anything_schema(r#"{"schema":"other/v1","instructions":[]}"#).is_none());
    assert!(parse_anything_schema(r#"{"schema":"anything-cli/v1.0.0","instructions":[]}"#).is_none());
}

#[test]
fn malformed_text_is_rejected() {
    assert!(parse_anything_schema("not json").is_none());
    assert!(parse_anything_schema(r#"{"instructions":[]}"#).is_none());
    assert!(parse_anything_schema(r#"{"schema":5,"instructions":[]}"#).is_none());
    assert!(parse_anything_schema(r#"[1,2]"#).is_none());
    assert!(parse_anything_schema(r#"{"schema":"anything-cli/v0","instructions":[{"content":"x"}]}"#).is_none());
    assert!(parse_anything_schema(r#"{"schema":"anything-cli/v0","instructions":[{"action":"print","error":"yes"}]}"#).is_none());
    assert!(parse_anything_schema(r#"{"schema":"anything-cli/v0","instructions":{}}"#).is_none());
}

#[test]
fn instructions_are_read_in_order() {
    let text = r#"{"schema":"anything-cli/v0.2","extra":1,"instructions":[
        {"action":"print","content":"hi","error":false},
        {"action":"ping"},
        {"action":"none","content":null,"error":true}]}"#;
    let e = parse_anything_schema(text).unwrap();
    let list = e.instructions.unwrap();
    assert_eq!(list.len(), 3);
    assert_eq!(list[0].action, "print");
    assert_eq!(list[0].content, Some("hi".to_string()));
    assert_eq!(list[0].error, Some(false));
    assert_eq!(list[1].action, "ping");
    assert_eq!(list[1].content, None);
    assert_eq!(list[1].error, None);
    assert_eq!(list[2].action, "none");
    assert_eq!(list[2].content, None);
    assert_eq!(list[2].error, Some(true));
}

#[test]
fn numbers_and_nested_values_are_read() {
    let text = r#"{"schema":"anything-cli/v0.3","n":1.5,"deep":{"a":[1,{"b":null}]},"instructions":[{"action":"none","extra":[1,2]}]}"#;
    let e = parse_anything_schema(text).unwrap();
    assert_eq!(e.schema, "anything-cli/v0.3");
    assert_eq!(e.instructions.unwrap()[0].action, "none");
    assert!(parse_anything_schema(r#"{"schema":"anything-cli/v0","instructions":[{"action":1}]}"#).is_none());
}

#[test]
fn reencoded_envelope_is_accepted_again() {
    let text = r#"{"schema":"anything-cli/v0.1.0","instructions":[
        {"action":"execute","content":"true","error":true},{"action":"frobnicate"}]}"#;
    let e = parse_anything_schema(text).unwrap();
    let again = validate_envelope(&e.to_json()).unwrap();
    assert_eq!(again.schema, e.schema);
    let (a, b) = (again.instructions.unwrap(), e.instructions.unwrap());
    assert_eq!(a.len(), b.len());
    for (x, y) in a.iter().zip(b.iter()) {
        assert_eq!(x.action, y.action);
        assert_eq!(x.content, y.content);
        assert_eq!(x.error, y.error);
    }
}

#[test]
fn envelope_without_list_reads_but_is_not_accepted() {
    let j = Json::Object(vec![("schema".to_string(), Json::Str("anything-cli/v0.1.0".to_string()))]);
    let e = envelope_from_json(&j).unwrap();
    assert!(e.instructions.is_none());
    assert!(!e.is_supported());
    assert!(accept_envelope(e).is_none());
    assert!(validate_envelope(&j).is_none());
    let wrong = Json::Object(vec![
        ("schema".to_string(), Json::Str("anything-cli/v0.1.0".to_string())),
        ("instructions".to_string(), Json::Number("3".to_string())),
    ]);
    assert!(envelope_from_json(&wrong).is_none());
    assert!(envelope_from_json(&Json::Bool(true)).is_none());
}

#[test]
fn instruction_round_trip() {
    let i = Instruction {
        action: "print".to_string(),
        content: Some("x".to_string()),
        error: None,
    };
    let back = instruction_from_json(&i.to_json()).unwrap();
    assert_eq!(back.action, "print");
    assert_eq!(back.content, Some("x".to_string()));
    assert_eq!(back.error, None);
    let e = AnythingSchema { schema: "anything-cli/v0".to_string(), instructions: Some(vec![i]) };
    assert!(e.is_supported());
}
