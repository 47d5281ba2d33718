use cdumay_result::repr::ResultRepr;
use cdumay_result::value_map::ValueMap;
use serde_json::Value;
use std::ops::Add;
use uuid::Uuid;

#[test]
fn repr_test_error() {
    let r1 = ResultRepr::from_error_parts(500, "Generic Error".to_string(), Some({
        let mut extra = ValueMap::new();
        extra.insert("context".into(), Value::String("Example".to_string()));
        extra
    }));
    assert_eq!(r1.is_error(), true);
    assert_eq!(r1.stderr, Some("Generic Error".to_string()))
}

#[test]
fn repr_test_add_err_ok() {
    let mut r1 = ResultRepr::default();
    r1.retcode = 1;
    r1.stderr = Some("Something wrong!".to_string());
    r1.retval.insert("Error".to_string(), Value::from("Err-46892"));
    assert_eq!(r1.is_error(), true);
    assert_eq!(format!("{}", r1.to_string()), "Result: Err(1, stderr: Some(\"Something wrong!\"))".to_string());

    let mut r2 = ResultRepr::default();
    r2.stdout = Some("Ok !".to_string());
    r2.retval.insert("Success".to_string(), Value::from("Yes!"));
    assert_eq!(format!("{}", r2.to_string()), "Result: Ok(0, stdout: Some(\"Ok !\"))".to_string());

    let r3 = r1.add(&r2);
    assert_eq!(r3.is_error(), true);
    let r4 = r2.add(&r1);
    assert_eq!(r4.is_error(), true);
}

#[test]
fn test_add_ok_ok() {
    let mut r1 = ResultRepr::default();
    let mut r2 = ResultRepr::default();
    let mut r3 = r1.add(&r2);
    assert_eq!(r3.is_error(), false);
    assert_eq!(r3.stdout, None);

    r1.stdout = Some("Ok!".to_string());
    r2.stdout = Some("Ok!".to_string());
    r3 = r1.add(&r2);
    assert_eq!(r3.stdout, Some("Ok!\nOk!".to_string()));

    r1.stderr = Some("Error!".to_string());
    r2.stderr = Some("Error!".to_string());
    r3 = r1.add(&r2);
    assert_eq!(r3.stderr, Some("Error!\nError!".to_string()));
}

#[test]
fn repr_default_is_an_empty_success() {
    let r = ResultRepr::default();
    assert_eq!(r.retcode, 0);
    assert_eq!(r.stdout, None);
    assert_eq!(r.stderr, None);
    assert!(r.retval.is_empty());
    assert!(!r.is_error());
    assert_eq!(r.uuid.get_version_num(), 4);
    assert_ne!(r.uuid, ResultRepr::default().uuid);
}

#[test]
fn repr_is_error_follows_the_status_code() {
    let mut r = ResultRepr::default();
    for (code, expected) in [(0u16, false), (1, true), (2, false), (299, false), (300, true), (65535, true)] {
        r.retcode = code;
        assert_eq!(r.is_error(), expected, "code {}", code);
    }
}

#[test]
fn repr_add_keeps_absent_channels_absent() {
    let mut a = ResultRepr::default();
    a.stderr = Some("bad".to_string());
    a.retcode = 1;
    let mut b = ResultRepr::default();
    b.stdout = Some("ok".to_string());
    let c = a.add(&b);
    assert_eq!(c.stdout, Some("ok".to_string()));
    assert_eq!(c.stderr, Some("bad".to_string()));
    assert_eq!(c.retcode, 1);
    let d = b.add(&b);
    assert_eq!(d.stdout, Some("ok\nok".to_string()));
    assert_eq!(d.stderr, None);
    assert_eq!(d.retcode, 0);
}

#[test]
fn repr_add_is_biased_to_the_second() {
    let first = Uuid::parse_str("550e8400-e29b-41d4-a716-446655440000").unwrap();
    let second = Uuid::parse_str("da1c7a76-33a8-448e-9ada-3a1b17c12279").unwrap();
    let mut a = ResultRepr::default();
    a.uuid = first;
    a.retval.insert("k".to_string(), Value::from(1));
    a.retval.insert("a".to_string(), Value::Null);
    let mut b = ResultRepr::default();
    b.uuid = second;
    b.retval.insert("k".to_string(), Value::from(2));
    b.retval.insert("b".to_string(), Value::Bool(false));

    let ab = a.add(&b);
    assert_eq!(ab.uuid, second);
    assert_eq!(ab.retval.get("k"), Some(&Value::from(2)));
    assert_eq!(ab.retval.get("a"), Some(&Value::Null));
    assert_eq!(ab.retval.get("b"), Some(&Value::Bool(false)));
    assert_eq!(ab.retval.len(), 3);
    let ba = b.add(&a);
    assert_eq!(ba.uuid, first);
    assert_eq!(ba.retval.get("k"), Some(&Value::from(1)));
    assert_eq!((&a + &b).retval.get("k"), Some(&Value::from(2)));
}

#[test]
fn repr_from_error_parts() {
    let r = ResultRepr::from_error_parts(1, "Unexpected error".to_string(), None);
    assert_eq!(r.retcode, 1);
    assert_eq!(r.stdout, None);
    assert_eq!(r.stderr, Some("Unexpected error".to_string()));
    assert!(r.retval.is_empty());
    assert!(r.is_error());
    assert_eq!(r.to_string(), "Result: Err(1, stderr: Some(\"Unexpected error\"))");
}

#[test]
fn repr_clone_keeps_every_field() {
    let mut r = ResultRepr::default();
    r.retcode = 3;
    r.stdout = Some("o".to_string());
    r.retval.insert("n".to_string(), Value::from(vec![1, 2, 3]));
    let c = r.clone();
    assert_eq!(c.uuid, r.uuid);
    assert_eq!(c.retcode, 3);
    assert_eq!(c.stdout, Some("o".to_string()));
    assert_eq!(c.stderr, None);
    assert_eq!(c.retval.get("n"), Some(&Value::from(vec![1, 2, 3])));
}

#[test]
fn repr_add_may_be_grouped_either_way() {
    let mut a = ResultRepr::default();
    a.retcode = 2;
    a.stdout = Some("a".to_string());
    a.retval.insert("k".to_string(), Value::from("a"));
    a.retval.insert("a".to_string(), Value::from(1));
    let mut b = ResultRepr::default();
    b.retcode = 300;
    b.stderr = Some("b".to_string());
    b.retval.insert("k".to_string(), Value::from("b"));
    let mut c = ResultRepr::default();
    c.stdout = Some("c".to_string());
    c.stderr = Some("c".to_string());
    c.retval.insert("c".to_string(), Value::Null);

    let left = a.add(&b).add(&c);
    let right = a.add(&b.add(&c));
    assert_eq!(left.uuid, c.uuid);
    assert_eq!(right.uuid, c.uuid);
    assert_eq!(left.retcode, 300);
    assert_eq!(right.retcode, 300);
    assert_eq!(left.stdout, Some("a\nc".to_string()));
    assert_eq!(right.stdout, Some("a\nc".to_string()));
    assert_eq!(left.stderr, Some("b\nc".to_string()));
    assert_eq!(right.stderr, Some("b\nc".to_string()));
    assert_eq!(left.retval.into_entries(), right.retval.clone().into_entries());
    assert_eq!(right.retval.get("k"), Some(&Value::from("b")));
    assert_eq!(right.retval.len(), 3);
}

#[test]
fn repr_with_a_given_identifier() {
    let id = Uuid::parse_str("da1c7a76-33a8-448e-9ada-3a1b17c12279").unwrap();
    let r = ResultRepr::with_uuid(id);
    assert_eq!(r.uuid, id);
    assert_eq!(r.retcode, 0);
    assert_eq!(r.stdout, None);
    assert_eq!(r.stderr, None);
    assert!(r.retval.is_empty());

    let mut extra = ValueMap::new();
    extra.insert("context".to_string(), Value::from("Example"));
    let r = ResultRepr::from_error_parts_with_uuid(id, 404, "gone".to_string(), Some(extra));
    assert_eq!(r.uuid, id);
    assert_eq!(r.retcode, 404);
    assert_eq!(r.stdout, None);
    assert_eq!(r.stderr, Some("gone".to_string()));
    assert_eq!(r.retval.into_entries(), vec![("context".to_string(), Value::from("Example"))]);
    let r = ResultRepr::from_error_parts_with_uuid(id, 0, String::new(), None);
    assert_eq!(r.uuid, id);
    assert_eq!(r.stderr, Some(String::new()));
    assert!(r.retval.is_empty());
    assert!(!r.is_error());
}
