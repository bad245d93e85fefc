use vinted_logger::shipper::{Action, Family, Outcome, Phase, SendFault};
use vinted_logger::vinted_json_formatter::{WriteAdaptor, WriteError};
use vinted_logger::vinted_udp_writer::VintedUdpWriter;
use vinted_logger::{try_init, Target, UDP_JSON_ADDRESS};

#[test]
fn write_adaptor_appends_utf8() {
    let mut adaptor = WriteAdaptor::new("a".to_string());
    assert_eq!(adaptor.write("bç".as_bytes()), Ok(3));
    assert_eq!(adaptor.write(b""), Ok(0));
    assert_eq!(adaptor.flush(), Ok(()));
    assert_eq!(adaptor.write("🐟".as_bytes()), Ok(4));
    assert_eq!(adaptor.into_inner(), "abç🐟");
}

#[test]
fn write_adaptor_refuses_bytes_that_are_not_utf8() {
    let mut adaptor = WriteAdaptor::new(String::new());
    assert_eq!(adaptor.write(b"ok"), Ok(2));
    assert_eq!(adaptor.write(&[0xff, 0xfe]), Err(WriteError::InvalidData));
    assert_eq!(adaptor.write(&[0xe2, 0x82]), Err(WriteError::InvalidData));
    assert_eq!(adaptor.write(&[0xed, 0xa0, 0x80]), Err(WriteError::InvalidData));
    assert_eq!(adaptor.write(&[0xc0, 0x80]), Err(WriteError::InvalidData));
    assert_eq!(adaptor.into_inner(), "ok");
}

#[test]
fn writer_ships_each_write_as_one_payload() {
    let mut writer = VintedUdpWriter::new("127.0.0.1:9091");
    assert_eq!(writer.address(), "127.0.0.1:9091");
    assert_eq!(writer.write(b"{\"a\":1}\n"), 8);
    assert_eq!(writer.write(b"{\"b\":2}\n"), 8);
    assert!(writer.ship().is_none());
    assert!(matches!(
        writer.step(Outcome::Resolved { families: vec![Family::V4] }),
        Action::Bind { family: Family::V4 }
    ));
    assert!(matches!(writer.step(Outcome::Bound), Action::Receive));
    match writer.ship() {
        Some(Action::Send { payload, address }) => {
            assert_eq!(payload, b"{\"a\":1}\n".to_vec());
            assert_eq!(address, 0);
        },
        other => panic!("unexpected action {:?}", other),
    }
    assert!(matches!(writer.step(Outcome::SendFailed { fault: SendFault::Interrupted }), Action::Receive));
    match writer.ship() {
        Some(Action::Send { payload, .. }) => assert_eq!(payload, b"{\"b\":2}\n".to_vec()),
        other => panic!("unexpected action {:?}", other),
    }
    assert!(matches!(writer.step(Outcome::Sent), Action::Receive));
    writer.close();
    assert_eq!(writer.write(b"late"), 4);
    assert!(matches!(writer.ship(), Some(Action::Stop)));
}

#[test]
fn writer_drops_what_exceeds_its_mailbox() {
    let mut writer = VintedUdpWriter::new("127.0.0.1:9091");
    for i in 0..600u32 {
        assert_eq!(writer.write(&i.to_be_bytes()), 4);
    }
    writer.step(Outcome::Resolved { families: vec![Family::V4] });
    writer.step(Outcome::Bound);
    let mut shipped = 0u32;
    while let Some(Action::Send { payload, .. }) = writer.ship() {
        assert_eq!(payload, shipped.to_be_bytes().to_vec());
        shipped += 1;
        writer.step(Outcome::Sent);
    }
    assert_eq!(shipped, 512);
}

#[test]
fn try_init_picks_formatter_and_writer_by_target() {
    assert_eq!(UDP_JSON_ADDRESS, "127.0.0.1:9091");

    let udp = try_init("svc", Target::UdpJson);
    let line = udp
        .formatter
        .expect("JSON")
        .format_event_at(
            &vinted_logger::event::Event {
                level: vinted_logger::level::Level::Info,
                target: None,
                module: None,
                file: None,
                line: None,
                fields: Vec::new(),
            },
            &Vec::new(),
            vinted_logger::context::FaultPolicy::Strict,
            "T",
            None,
        )
        .unwrap();
    assert_eq!(
        line,
        "{\"@timestamp\":\"T\",\"level\":\"Info\",\"facility\":\"svc\",\"message\":\"\"}\n"
    );
    assert_eq!(udp.writer.expect("UDP").address(), "127.0.0.1:9091");

    let console_json = try_init("svc", Target::ConsoleJson);
    assert!(console_json.formatter.is_some());
    assert!(console_json.writer.is_none());

    let console = try_init("svc", Target::Console);
    assert!(console.formatter.is_none());
    assert!(console.writer.is_none());
}

#[test]
fn closed_writer_stops_while_resolution_fails() {
    let mut writer = VintedUdpWriter::new("nowhere:1");
    writer.close();
    assert!(matches!(writer.ship(), Some(Action::Stop)));
    assert!(matches!(writer.step(Outcome::ResolutionFailed), Action::Stop));
    assert!(matches!(writer.ship(), Some(Action::Stop)));
}

#[test]
fn new_writer_is_resolving() {
    let mut writer = VintedUdpWriter::new("a:1");
    assert!(matches!(writer.step(Outcome::ResolutionFailed), Action::Sleep { millis: 10_000 }));
    assert!(matches!(writer.step(Outcome::Elapsed), Action::Resolve));
    let _ = Phase::Resolving;
}
