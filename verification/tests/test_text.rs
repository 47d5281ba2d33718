use cdumay_result::text::{decimal_string, join_lines, render_line};

#[test]
fn decimal_string_writes_the_digits() {
    assert_eq!(decimal_string(0), "0");
    assert_eq!(decimal_string(1), "1");
    assert_eq!(decimal_string(9), "9");
    assert_eq!(decimal_string(10), "10");
    assert_eq!(decimal_string(99), "99");
    assert_eq!(decimal_string(100), "100");
    assert_eq!(decimal_string(299), "299");
    assert_eq!(decimal_string(300), "300");
    assert_eq!(decimal_string(1234), "1234");
    assert_eq!(decimal_string(60007), "60007");
    assert_eq!(decimal_string(65535), "65535");
}

#[test]
fn decimal_string_agrees_with_display() {
    for n in 0..=u16::MAX {
        assert_eq!(decimal_string(n), format!("{}", n));
    }
}

#[test]
fn join_lines_of_each_case() {
    let a = Some("a".to_string());
    let b = Some("b".to_string());
    assert_eq!(join_lines(&None, &None), None);
    assert_eq!(join_lines(&a, &None), Some("a".to_string()));
    assert_eq!(join_lines(&None, &b), Some("b".to_string()));
    assert_eq!(join_lines(&a, &b), Some("a\nb".to_string()));
    assert_eq!(join_lines(&b, &a), Some("b\na".to_string()));
    let empty = Some(String::new());
    assert_eq!(join_lines(&empty, &empty), Some("\n".to_string()));
    assert_eq!(join_lines(&empty, &None), Some(String::new()));
    let lines = Some("x\ny".to_string());
    assert_eq!(join_lines(&lines, &a), Some("x\ny\na".to_string()));
}

#[test]
fn render_line_of_each_case() {
    assert_eq!(render_line(false, 0, None), "Result: Ok(0, stdout: None)");
    assert_eq!(render_line(true, 1, None), "Result: Err(1, stderr: None)");
    assert_eq!(render_line(false, 200, Some("\"done\"")), "Result: Ok(200, stdout: Some(\"done\"))");
    assert_eq!(render_line(true, 500, Some("\"\"")), "Result: Err(500, stderr: Some(\"\"))");
    assert_eq!(render_line(true, 65535, Some("x")), "Result: Err(65535, stderr: Some(x))");
}
