use vinted_logger::json::{decimal_string, render_array, render_object, same_text, Member};

#[test]
fn decimal_string_writes_digits_without_leading_zeros() {
    assert_eq!(decimal_string(0), "0");
    assert_eq!(decimal_string(7), "7");
    assert_eq!(decimal_string(10), "10");
    assert_eq!(decimal_string(1_234_567_890), "1234567890");
    assert_eq!(decimal_string(u64::MAX), "18446744073709551615");
}

#[test]
fn same_text_compares_characters() {
    assert!(same_text("", ""));
    assert!(same_text("target", "target"));
    assert!(!same_text("target", "targets"));
    assert!(!same_text("target", "Target"));
    assert!(!same_text("é", "e"));
    assert!(same_text("žuvis", "žuvis"));
}

#[test]
fn render_object_keeps_the_order_and_quotes_the_keys() {
    assert_eq!(render_object(&Vec::new()), "{}");
    let members = vec![
        Member { key: "b".to_string(), text: "1".to_string() },
        Member { key: "a\"".to_string(), text: "[true]".to_string() },
        Member { key: "b".to_string(), text: "null".to_string() },
    ];
    assert_eq!(render_object(&members), "{\"b\":1,\"a\\\"\":[true],\"b\":null}");
}

#[test]
fn render_array_separates_with_commas() {
    assert_eq!(render_array(&Vec::new()), "[]");
    assert_eq!(render_array(&vec!["1".to_string()]), "[1]");
    assert_eq!(render_array(&vec!["1".to_string(), "{}".to_string(), "\"x\"".to_string()]), "[1,{},\"x\"]");
}
