use serde_json::Value;
use vinted_logger::context::{FaultPolicy, Frame, MalformedContext};
use vinted_logger::event::{Event, Field};
use vinted_logger::json::FieldValue;
use vinted_logger::level::Level;
use vinted_logger::vinted_json_formatter::{is_stamp, stamp, stamp_of};
use vinted_logger::mailbox::SendOutcome;
use vinted_logger::shipper::{Action, Family, Outcome, Phase, Shipper, MAX_DATAGRAM};
use vinted_logger::vinted_udp_logger::{from_config, BackgroundTask, Builder, Logger, DEFAULT_BUFFER};

fn pipeline(builder: Builder) -> (Logger, BackgroundTask) {
    builder.connect_udp("127.0.0.1:12201".to_string()).expect("connect_udp never fails")
}

fn connect(shipper: &mut Shipper) {
    assert!(matches!(
        shipper.step(Outcome::Resolved { families: vec![Family::V4] }),
        Action::Bind { family: Family::V4 }
    ));
    assert!(matches!(shipper.step(Outcome::Bound), Action::Receive));
}

fn next_payload(logger: &mut Logger, shipper: &mut Shipper) -> Vec<u8> {
    match logger.ship(shipper) {
        Some(Action::Send { payload, .. }) => {
            assert!(matches!(shipper.step(Outcome::Sent), Action::Receive));
            payload
        },
        other => panic!("a payload was expected, not {:?}", other),
    }
}

fn parse(payload: &[u8]) -> Value {
    assert_eq!(payload.last(), Some(&0u8));
    serde_json::from_slice(&payload[..payload.len() - 1]).expect("the payload is JSON")
}

fn event(level: Level, fields: &[(&str, &str)]) -> Event {
    Event {
        level,
        target: None,
        module: None,
        file: None,
        line: None,
        fields: fields
            .iter()
            .map(|(name, value)| Field {
                name: name.to_string(),
                value: FieldValue::Text(value.to_string()),
            })
            .collect(),
    }
}

#[test]
fn default_buffer_is_five_hundred_and_twelve() {
    assert_eq!(DEFAULT_BUFFER, 512);
}

#[test]
fn logged_field_named_level_is_kept_apart() {
    let (mut logger, mut task) = pipeline(Logger::builder().facility("svc"));
    connect(&mut task.shipper);
    let fields = vec![Field { name: "level".to_string(), value: FieldValue::Text("bogus".to_string()) }];
    assert_eq!(logger.log_at(Level::Info, "hi", &fields, "T"), SendOutcome::Accepted);
    let value = parse(&next_payload(&mut logger, &mut task.shipper));
    assert_eq!(value["level"], Value::from("Info"));
    assert_eq!(value["_level"], Value::from("bogus"));
    assert_eq!(value["message"], Value::from("hi"));
    assert_eq!(value["facility"], Value::from("svc"));
    assert_eq!(value["environment"], Value::from("dev"));
}

#[test]
fn logged_field_named_message_is_an_additional_field() {
    let (mut logger, mut task) = pipeline(Logger::builder());
    connect(&mut task.shipper);
    let fields = vec![
        Field { name: "message".to_string(), value: FieldValue::Text("other".to_string()) },
        Field { name: "target".to_string(), value: FieldValue::Number(5) },
    ];
    logger.log_at(Level::Error, "real", &fields, "T");
    let value = parse(&next_payload(&mut logger, &mut task.shipper));
    assert_eq!(value["message"], Value::from("real"));
    assert_eq!(value["_message"], Value::from("other"));
    assert_eq!(value["_target"], Value::from(5));
    assert!(value.get("target").is_none());
}

#[test]
fn payload_is_exact_and_ends_with_a_zero_byte() {
    let (mut logger, mut task) =
        pipeline(Logger::builder().facility("svc").environment("prod").host("box"));
    connect(&mut task.shipper);
    logger.log_at(Level::Warn, "m", &Vec::new(), "2024-01-02T03:04:05+00:00");
    let payload = next_payload(&mut logger, &mut task.shipper);
    let mut expected = "{\"@timestamp\":\"2024-01-02T03:04:05+00:00\",\"level\":\"Warn\",\
                        \"facility\":\"svc\",\"environment\":\"prod\",\"message\":\"m\",\
                        \"host\":\"box\"}"
        .as_bytes()
        .to_vec();
    expected.push(0);
    assert_eq!(payload, expected);
}

#[test]
fn text_beyond_ascii_is_shipped_as_utf8() {
    let (mut logger, mut task) = pipeline(Logger::builder());
    connect(&mut task.shipper);
    logger.log_at(Level::Info, "žuvis 🐟", &Vec::new(), "T");
    let payload = next_payload(&mut logger, &mut task.shipper);
    assert!(std::str::from_utf8(&payload[..payload.len() - 1]).unwrap().contains("žuvis 🐟"));
    assert_eq!(parse(&payload)["message"], Value::from("žuvis 🐟"));
}

#[test]
fn persistent_fields_are_in_every_record_and_yield_to_the_event() {
    let builder = Logger::builder()
        .additional_field("region", FieldValue::Text("eu".to_string()))
        .additional_field("shard", FieldValue::Number(3))
        .additional_field("canary", FieldValue::Bool(false))
        .additional_field("owner", FieldValue::Null)
        .additional_field("load", FieldValue::Other("0.75".to_string()))
        .additional_field("tags", FieldValue::Other("[\"a\",\"b\"]".to_string()));
    let (mut logger, mut task) = pipeline(builder);
    connect(&mut task.shipper);
    logger.on_event_at(&event(Level::Info, &[("message", "a")]), &Vec::new(), "T").unwrap();
    logger
        .on_event_at(&event(Level::Info, &[("message", "b"), ("region", "us")]), &Vec::new(), "T")
        .unwrap();
    let first = parse(&next_payload(&mut logger, &mut task.shipper));
    assert_eq!(first["_region"], Value::from("eu"));
    assert_eq!(first["_shard"], Value::from(3));
    assert_eq!(first["_canary"], Value::from("false"));
    assert_eq!(first["_owner"], Value::from("null"));
    assert_eq!(first["_load"], Value::from("0.75"));
    assert_eq!(first["_tags"], Value::from("[\"a\",\"b\"]"));
    let second = parse(&next_payload(&mut logger, &mut task.shipper));
    assert_eq!(second["_region"], Value::from("us"));
    assert_eq!(second["_shard"], Value::from(3));
}

#[test]
fn additional_field_added_twice_keeps_the_last_value() {
    let builder = Logger::builder()
        .additional_field("k", FieldValue::Number(1))
        .additional_field("k", FieldValue::Bool(true));
    let (mut logger, mut task) = pipeline(builder);
    connect(&mut task.shipper);
    logger.log_at(Level::Info, "", &Vec::new(), "T");
    let value = parse(&next_payload(&mut logger, &mut task.shipper));
    assert_eq!(value["_k"], Value::from("true"));
}

#[test]
fn events_beyond_capacity_are_dropped() {
    let (mut logger, mut task) = pipeline(Logger::builder().buffer(2));
    assert_eq!(logger.log_at(Level::Info, "0", &Vec::new(), "T"), SendOutcome::Accepted);
    assert_eq!(logger.log_at(Level::Info, "1", &Vec::new(), "T"), SendOutcome::Accepted);
    assert_eq!(logger.log_at(Level::Info, "2", &Vec::new(), "T"), SendOutcome::Dropped);
    assert_eq!(logger.queued(), 2);
    logger.log(Level::Info, "3", &Vec::new());
    assert_eq!(logger.queued(), 2);
    connect(&mut task.shipper);
    assert_eq!(parse(&next_payload(&mut logger, &mut task.shipper))["message"], Value::from("0"));
    assert_eq!(parse(&next_payload(&mut logger, &mut task.shipper))["message"], Value::from("1"));
    assert!(logger.ship(&mut task.shipper).is_none());
}

#[test]
fn log_stamps_the_time_itself() {
    let (mut logger, mut task) = pipeline(Logger::builder());
    connect(&mut task.shipper);
    logger.log(Level::Debug, "now", &Vec::new());
    let value = parse(&next_payload(&mut logger, &mut task.shipper));
    let stamp = value["@timestamp"].as_str().unwrap();
    assert!(stamp.ends_with("+00:00"));
    assert_eq!(&stamp[10..11], "T");
    assert_eq!(value["level"], Value::from("Debug"));
}

#[test]
fn on_event_ships_context_and_origin() {
    let (mut logger, mut task) = pipeline(Logger::builder().facility("svc"));
    connect(&mut task.shipper);
    let mut e = event(Level::Warn, &[("message", "dark"), ("smell", "damp")]);
    e.target = Some("cave".to_string());
    e.module = Some("cave::deep".to_string());
    e.file = Some("cave.rs".to_string());
    e.line = Some(4_294_967_295);
    let chain = vec![
        Frame { name: "outer".to_string(), fields: "{}".to_string() },
        Frame { name: "inner".to_string(), fields: "{\"n\":1}".to_string() },
    ];
    assert_eq!(logger.on_event(&e, &chain), Ok(SendOutcome::Accepted));
    let value = parse(&next_payload(&mut logger, &mut task.shipper));
    assert_eq!(value["target"], Value::from("cave"));
    assert_eq!(value["module"], Value::from("cave::deep"));
    assert_eq!(value["file"], Value::from("cave.rs"));
    assert_eq!(value["line"], Value::from(4_294_967_295u64));
    assert_eq!(value["_smell"], Value::from("damp"));
    assert_eq!(value["spans"][0]["name"], Value::from("outer"));
    assert_eq!(value["spans"][1]["name"], Value::from("inner"));
    assert_eq!(value["span"]["name"], Value::from("inner"));
    assert_eq!(value["span"]["n"], Value::from(1));
}

#[test]
fn strict_logger_refuses_faulty_context_and_sends_nothing() {
    let (mut logger, _task) = pipeline(Logger::builder().policy(FaultPolicy::Strict));
    let chain = vec![Frame { name: "cave".to_string(), fields: "not json".to_string() }];
    assert_eq!(
        logger.on_event_at(&event(Level::Info, &[]), &chain, "T"),
        Err(MalformedContext { frame: 0 })
    );
    assert_eq!(logger.on_event(&event(Level::Info, &[]), &chain), Err(MalformedContext { frame: 0 }));
    assert_eq!(logger.queued(), 0);
}

#[test]
fn lenient_logger_ships_faulty_context_with_a_marker() {
    let (mut logger, mut task) = pipeline(Logger::builder());
    connect(&mut task.shipper);
    let chain = vec![Frame { name: "cave".to_string(), fields: "not json".to_string() }];
    assert_eq!(
        logger.on_event_at(&event(Level::Info, &[("message", "m")]), &chain, "T"),
        Ok(SendOutcome::Accepted)
    );
    let payload = next_payload(&mut logger, &mut task.shipper);
    let text = std::str::from_utf8(&payload).unwrap();
    assert!(text.contains("\"field_error\""));
    let value = parse(&payload);
    assert!(value["span"]["field_error"].is_string());
    assert_eq!(value["span"]["field"], Value::from("not json"));
    assert_eq!(value["spans"][0]["name"], Value::from("cave"));
}

#[test]
fn record_too_long_for_a_datagram_is_truncated_and_marked() {
    let (mut logger, mut task) = pipeline(Logger::builder().facility("svc"));
    connect(&mut task.shipper);
    let long = "x".repeat(MAX_DATAGRAM);
    let fields = vec![Field { name: "k".to_string(), value: FieldValue::Number(1) }];
    assert_eq!(logger.log_at(Level::Error, &long, &fields, "T"), SendOutcome::Accepted);
    let payload = next_payload(&mut logger, &mut task.shipper);
    assert!(payload.len() <= MAX_DATAGRAM);
    let mut expected = "{\"@timestamp\":\"T\",\"level\":\"Error\",\"facility\":\"svc\",\
                        \"environment\":\"dev\",\"message\":\"\",\"_truncated\":true}"
        .as_bytes()
        .to_vec();
    expected.push(0);
    assert_eq!(payload, expected);
}

#[test]
fn record_that_cannot_be_shortened_enough_is_rejected() {
    let long = "f".repeat(MAX_DATAGRAM);
    let (mut logger, _task) = pipeline(Logger::builder().facility(&long));
    assert_eq!(logger.log_at(Level::Error, "m", &Vec::new(), "T"), SendOutcome::Dropped);
    assert_eq!(logger.queued(), 0);
}

#[test]
fn payload_of_exactly_one_datagram_is_shipped_whole() {
    let (mut logger, mut task) = pipeline(Logger::builder().facility("svc"));
    connect(&mut task.shipper);
    let frame = "{\"@timestamp\":\"T\",\"level\":\"Info\",\"facility\":\"svc\",\
                 \"environment\":\"dev\",\"message\":\"\"}";
    let room = MAX_DATAGRAM - frame.len() - 1;
    logger.log_at(Level::Info, &"m".repeat(room), &Vec::new(), "T");
    let payload = next_payload(&mut logger, &mut task.shipper);
    assert_eq!(payload.len(), MAX_DATAGRAM);
    assert_eq!(parse(&payload)["message"].as_str().unwrap().len(), room);
    logger.log_at(Level::Info, &"m".repeat(room + 1), &Vec::new(), "T");
    let payload = next_payload(&mut logger, &mut task.shipper);
    assert_eq!(parse(&payload)["_truncated"], Value::from(true));
}

#[test]
fn closed_logger_drops_and_the_shipper_stops() {
    let (mut logger, mut task) = pipeline(Logger::builder());
    connect(&mut task.shipper);
    logger.log_at(Level::Info, "last", &Vec::new(), "T");
    logger.close();
    assert_eq!(logger.log_at(Level::Info, "late", &Vec::new(), "T"), SendOutcome::Dropped);
    assert_eq!(logger.queued(), 1);
    assert_eq!(parse(&next_payload(&mut logger, &mut task.shipper))["message"], Value::from("last"));
    assert!(matches!(logger.ship(&mut task.shipper), Some(Action::Stop)));
    assert_eq!(task.shipper.phase(), Phase::Stopped);
}

#[test]
fn closed_logger_stops_a_task_that_cannot_resolve() {
    let (mut logger, mut task) = pipeline(Logger::builder());
    logger.close();
    assert!(matches!(logger.ship(&mut task.shipper), Some(Action::Stop)));
    assert_eq!(task.shipper.phase(), Phase::Stopped);

    let (mut logger, mut task) = pipeline(Logger::builder());
    assert!(logger.ship(&mut task.shipper).is_none());
    assert!(matches!(task.shipper.step(Outcome::ResolutionFailed), Action::Sleep { .. }));
    logger.log_at(Level::Info, "kept", &Vec::new(), "T");
    logger.close();
    // A payload still waits: the task goes on until it has sent it.
    assert!(logger.ship(&mut task.shipper).is_none());
    assert!(matches!(task.shipper.step(Outcome::Elapsed), Action::Resolve));
    connect(&mut task.shipper);
    assert_eq!(parse(&next_payload(&mut logger, &mut task.shipper))["message"], Value::from("kept"));
    assert!(matches!(logger.ship(&mut task.shipper), Some(Action::Stop)));
}

#[test]
fn time_stamp_has_the_shape_of_rfc_3339_in_utc() {
    let text = stamp();
    assert!(is_stamp(&text));
    assert!(text.len() >= 25 && text.len() <= 35);
    assert!(text.ends_with("+00:00"));
    assert_eq!(&text[4..5], "-");
    assert_eq!(&text[10..11], "T");
    assert!(&text[0..4] >= "2024");
}

#[test]
fn stamp_of_writes_the_time_since_1970() {
    assert_eq!(stamp_of(0, 0), "1970-01-01T00:00:00+00:00");
    assert_eq!(stamp_of(1_700_000_000, 0), "2023-11-14T22:13:20+00:00");
    assert_eq!(stamp_of(1_700_000_000, 500_000_000), "2023-11-14T22:13:20.500+00:00");
    assert_eq!(stamp_of(1_700_000_000, 123_456_000), "2023-11-14T22:13:20.123456+00:00");
    assert_eq!(stamp_of(1_700_000_000, 1), "2023-11-14T22:13:20.000000001+00:00");
    assert_eq!(stamp_of(253_402_300_799, 999_999_999), "9999-12-31T23:59:59.999999999+00:00");
}

#[test]
fn stamp_of_falls_back_to_the_start_of_1970() {
    // A year of five digits, a time that cannot be held, nanoseconds out of range.
    assert_eq!(stamp_of(253_402_300_800, 0), "1970-01-01T00:00:00+00:00");
    assert_eq!(stamp_of(u64::MAX, 0), "1970-01-01T00:00:00+00:00");
    assert_eq!(stamp_of(i64::MAX as u64, 0), "1970-01-01T00:00:00+00:00");
    assert_eq!(stamp_of(0, 2_000_000_000), "1970-01-01T00:00:00+00:00");
}

#[test]
fn is_stamp_knows_a_time_stamp() {
    assert!(is_stamp("2024-01-02T03:04:05+00:00"));
    assert!(is_stamp("2024-01-02T03:04:05.1+00:00"));
    assert!(is_stamp("2024-01-02T03:04:05.123456789+00:00"));
    assert!(!is_stamp(""));
    assert!(!is_stamp("2024-01-02T03:04:05Z"));
    assert!(!is_stamp("2024-01-02T03:04:05+01:00"));
    assert!(!is_stamp("2024-01-02 03:04:05+00:00"));
    assert!(!is_stamp("2024-01-02T03:04:05.+00:00"));
    assert!(!is_stamp("2024-01-02T03:04:05.1234567890+00:00"));
    assert!(!is_stamp("+10000-01-01T00:00:00+00:00"));
    assert!(!is_stamp("２024-01-02T03:04:05+00:00"));
}

#[test]
fn connect_udp_starts_with_an_empty_mailbox_and_a_resolving_task() {
    let (mut logger, mut task) = pipeline(Logger::builder().buffer(1));
    assert_eq!(task.address, "127.0.0.1:12201");
    assert_eq!(task.shipper.phase(), Phase::Resolving);
    assert_eq!(logger.queued(), 0);
    assert!(logger.ship(&mut task.shipper).is_none());
}

#[test]
fn local_host_sets_the_name_of_this_machine() {
    if let Ok(builder) = Logger::builder().local_host() {
        let (mut logger, mut task) = pipeline(builder);
        connect(&mut task.shipper);
        logger.log_at(Level::Info, "", &Vec::new(), "T");
        let value = parse(&next_payload(&mut logger, &mut task.shipper));
        assert!(value["host"].is_string());
    }
}

#[test]
fn from_config_builds_a_pipeline_in_production_only() {
    assert!(from_config("development", "mc-logger").is_none());
    assert!(from_config("", "mc-logger").is_none());
    assert!(from_config("Production", "mc-logger").is_none());
    let (mut logger, mut task) = from_config("production", "mc-logger").expect("production ships");
    assert_eq!(task.address, "127.0.0.1:5005");
    connect(&mut task.shipper);
    logger.log_at(Level::Info, "up", &Vec::new(), "T");
    let value = parse(&next_payload(&mut logger, &mut task.shipper));
    assert_eq!(value["facility"], Value::from("mc-logger"));
    assert_eq!(value["environment"], Value::from("production"));
    assert!(value.get("host").is_none());
}
