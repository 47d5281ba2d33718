use cdumay_result::jsonify::JsonResult;
use cdumay_result::value_map::ValueMap;
use cdumay_result::ResultBuilder;
use serde_value::Value;
use uuid::Uuid;

#[test]
fn test_builder() {
    let result = ResultBuilder::default()
        .stdout("Test".to_string())
        .retval({
            let mut extra = ValueMap::new();
            extra.insert("Hello".into(), Value::String("World".to_string()));
            extra
        })
        .build();
    assert_eq!(result.stdout, Some("Test".to_string()));
    assert!(result.retval.contains_key("Hello"))
}

#[test]
fn builder_without_overrides_gives_the_defaults() {
    let result = ResultBuilder::default().build();
    assert_eq!(result.retcode, 0);
    assert_eq!(result.stdout, None);
    assert_eq!(result.stderr, None);
    assert!(result.retval.is_empty());
    assert_eq!(result.retval.len(), 0);
    assert!(!result.is_error());
}

#[test]
fn builder_sets_each_field() {
    let id = Uuid::parse_str("da1c7a76-33a8-448e-9ada-3a1b17c12279").unwrap();
    let mut values = ValueMap::new();
    values.insert("custom_field".to_string(), Value::String("custom_value".to_string()));
    let result = ResultBuilder::default()
        .uuid(id)
        .retcode(301)
        .stdout("Custom operation result".to_string())
        .stderr("warning".to_string())
        .retval(values)
        .build();
    assert_eq!(format!("{}", result.uuid), "da1c7a76-33a8-448e-9ada-3a1b17c12279".to_string());
    assert_eq!(result.retcode, 301);
    assert_eq!(result.stdout, Some("Custom operation result".to_string()));
    assert_eq!(result.stderr, Some("warning".to_string()));
    assert_eq!(
        result.retval.get("custom_field"),
        Some(&Value::String("custom_value".to_string()))
    );
    assert!(result.is_error());
}

#[test]
fn builder_keeps_the_last_value_of_a_field() {
    let first = Uuid::parse_str("550e8400-e29b-41d4-a716-446655440000").unwrap();
    let second = Uuid::parse_str("da1c7a76-33a8-448e-9ada-3a1b17c12279").unwrap();
    let result = ResultBuilder::default()
        .retcode(5)
        .stdout("a".to_string())
        .uuid(first)
        .retcode(6)
        .uuid(second)
        .stdout("b".to_string())
        .build();
    assert_eq!(result.uuid, second);
    assert_eq!(result.retcode, 6);
    assert_eq!(result.stdout, Some("b".to_string()));
    assert_eq!(result.stderr, None);
}

#[test]
fn json_result_holds_the_same_fields() {
    let id = Uuid::parse_str("550e8400-e29b-41d4-a716-446655440000").unwrap();
    let mut values = ValueMap::new();
    values.insert("context".to_string(), Value::String("Example".to_string()));
    let result = ResultBuilder::default()
        .uuid(id)
        .retcode(1)
        .stderr("Failed".to_string())
        .retval(values)
        .build();
    let json = JsonResult::from(result);
    assert_eq!(json.uuid, id);
    assert_eq!(json.retcode, 1);
    assert_eq!(json.stdout, None);
    assert_eq!(json.stderr, Some("Failed".to_string()));
    assert_eq!(json.retval.get("context"), Some(&Value::String("Example".to_string())));
    assert!(json.is_error());

    let json = JsonResult::from(ResultBuilder::default().retcode(299).build());
    assert!(!json.is_error());
    let json = JsonResult::from(ResultBuilder::default().retcode(300).build());
    assert!(json.is_error());
}

#[test]
fn builder_with_a_given_identifier() {
    let id = Uuid::parse_str("550e8400-e29b-41d4-a716-446655440000").unwrap();
    let result = ResultBuilder::with_uuid(id).build();
    assert_eq!(result.uuid, id);
    assert_eq!(result.retcode, 0);
    assert_eq!(result.stdout, None);
    assert_eq!(result.stderr, None);
    assert!(result.retval.is_empty());
    let result = ResultBuilder::with_uuid(id).retcode(1).stderr("e".to_string()).build();
    assert_eq!(result.uuid, id);
    assert_eq!(result.to_string(), "Result: Err(1, stderr: Some(\"e\"))");
}
