use serde_json::Value;
use vinted_logger::json::FieldValue;
use vinted_logger::vinted_json_formatter::encode_record;
use vinted_logger::vinted_udp_logger::visitor::AdditionalFieldVisitor;
use vinted_logger::vinted_udp_logger::LogRecord;

fn written(visitor: AdditionalFieldVisitor) -> Value {
    serde_json::from_str(&encode_record(&visitor.finish(), "T", &Vec::new())).unwrap()
}

#[test]
fn record_str_puts_other_names_behind_an_underscore() {
    let mut visitor = AdditionalFieldVisitor::new(LogRecord::new("svc", None, None));
    visitor.record_str("yak", "shaved");
    visitor.record_str("", "nameless");
    let value = written(visitor);
    assert_eq!(value["_yak"], Value::from("shaved"));
    assert_eq!(value["_"], Value::from("nameless"));
}

#[test]
fn record_str_fills_the_four_parts() {
    let mut visitor = AdditionalFieldVisitor::new(LogRecord::new("svc", None, None));
    visitor.record_str("target", "t");
    visitor.record_str("module", "m");
    visitor.record_str("file", "f");
    visitor.record_str("message", "msg");
    let value = written(visitor);
    assert_eq!(value["target"], Value::from("t"));
    assert_eq!(value["module"], Value::from("m"));
    assert_eq!(value["file"], Value::from("f"));
    assert_eq!(value["message"], Value::from("msg"));
    assert!(value.get("_target").is_none());
    assert!(value.get("_message").is_none());
}

#[test]
fn record_value_ignores_names_that_are_no_part() {
    let mut visitor = AdditionalFieldVisitor::new(LogRecord::new("svc", None, None));
    assert!(!visitor.record_value("level", "bogus"));
    assert!(!visitor.record_value("line", "3"));
    assert!(visitor.record_value("message", "kept"));
    assert!(!visitor.record_value("message", "late"));
    let value = written(visitor);
    assert_eq!(value["level"], Value::from("Trace"));
    assert_eq!(value["message"], Value::from("kept"));
    assert!(value.get("line").is_none());
    assert!(value.get("_level").is_none());
}

#[test]
fn record_additional_value_keeps_the_type_of_the_value() {
    let mut visitor = AdditionalFieldVisitor::new(LogRecord::new("svc", None, None));
    visitor.record_additional_value("count", FieldValue::Number(i64::MIN));
    visitor.record_additional_value("big", FieldValue::Number(i64::MAX));
    visitor.record_additional_value("zero", FieldValue::Number(0));
    visitor.record_additional_value("yes", FieldValue::Bool(true));
    visitor.record_additional_value("no", FieldValue::Bool(false));
    visitor.record_additional_value("message", FieldValue::Text("apart".to_string()));
    visitor.record_additional_value("nothing", FieldValue::Null);
    visitor.record_additional_value("nested", FieldValue::Other("{\"a\":[1.5]}".to_string()));
    let text = encode_record(&visitor.finish(), "T", &Vec::new());
    assert!(text.contains("\"_nothing\":null"));
    assert!(text.contains("\"_nested\":\"{\\\"a\\\":[1.5]}\""));
    assert!(text.contains("\"_count\":-9223372036854775808"));
    assert!(text.contains("\"_big\":9223372036854775807"));
    assert!(text.contains("\"_zero\":0"));
    assert!(text.contains("\"_yes\":true"));
    assert!(text.contains("\"_no\":false"));
    assert!(text.contains("\"message\":\"\""));
    assert!(text.contains("\"_message\":\"apart\""));
}

#[test]
fn record_debug_records_what_the_value_prints() {
    let mut visitor = AdditionalFieldVisitor::new(LogRecord::new("svc", None, None));
    visitor.record_debug("count", &format!("{:#?}", 3));
    visitor.record_debug("pair", &format!("{:#?}", (1, "a")));
    visitor.record_debug("message", &format!("{:#?}", "quoted"));
    visitor.record_debug("message", &format!("{:#?}", 2));
    let value = written(visitor);
    assert_eq!(value["_message"], Value::from("2"));
    assert_eq!(value["_count"], Value::from("3"));
    assert_eq!(value["_pair"], Value::from("(\n    1,\n    \"a\",\n)"));
    assert_eq!(value["message"], Value::from("\"quoted\""));
}
