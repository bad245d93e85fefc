use vinted_logger::level::Level;

#[test]
fn level_names_are_capitalised() {
    assert_eq!(Level::Trace.as_str(), "Trace");
    assert_eq!(Level::Debug.as_str(), "Debug");
    assert_eq!(Level::Info.as_str(), "Info");
    assert_eq!(Level::Warn.as_str(), "Warn");
    assert_eq!(Level::Error.as_str(), "Error");
}

#[test]
fn levels_are_ordered_by_severity() {
    assert!(Level::Error.at_least(Level::Warn));
    assert!(Level::Warn.at_least(Level::Info));
    assert!(Level::Info.at_least(Level::Debug));
    assert!(Level::Debug.at_least(Level::Trace));
    assert!(Level::Info.at_least(Level::Info));
    assert!(!Level::Trace.at_least(Level::Debug));
    assert_eq!(Level::Trace.severity(), 0);
    assert_eq!(Level::Error.severity(), 4);
}
