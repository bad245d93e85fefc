use vinted_logger::mailbox::{Mailbox, SendOutcome};
use vinted_logger::shipper::{
    bind_address, Action, Family, Outcome, Phase, SendFault, Shipper, DEFAULT_REFRESH,
    DEFAULT_TIMEOUT, MAX_DATAGRAM,
};

fn connected(families: Vec<Family>) -> Shipper {
    let mut shipper = Shipper::new(10_000, 100);
    assert!(matches!(shipper.step(Outcome::Resolved { families }), Action::Bind { .. }));
    assert!(matches!(shipper.step(Outcome::Bound), Action::Receive));
    assert_eq!(shipper.phase(), Phase::Connected);
    shipper
}

#[test]
fn defaults_are_ten_seconds_and_one_datagram() {
    assert_eq!(DEFAULT_TIMEOUT, 10_000);
    assert_eq!(DEFAULT_REFRESH, 60_000);
    assert_eq!(MAX_DATAGRAM, 65_507);
}

#[test]
fn new_shipper_is_resolving() {
    assert_eq!(Shipper::new(1, 1).phase(), Phase::Resolving);
}

#[test]
fn reconnect_recovers_service() {
    let mut mailbox = Mailbox::new(2);
    let mut shipper = Shipper::new(10_000, 100);

    // The destination does not resolve: the shipper waits one backoff.
    match shipper.step(Outcome::ResolutionFailed) {
        Action::Sleep { millis } => assert_eq!(millis, 10_000),
        other => panic!("unexpected action {:?}", other),
    }
    assert_eq!(shipper.phase(), Phase::Backoff);

    // During the outage events arrive; those beyond capacity are dropped.
    assert_eq!(mailbox.try_send(b"one".to_vec()), SendOutcome::Accepted);
    assert_eq!(mailbox.try_send(b"two".to_vec()), SendOutcome::Accepted);
    assert_eq!(mailbox.try_send(b"three".to_vec()), SendOutcome::Dropped);
    assert_eq!(mailbox.try_send(b"four".to_vec()), SendOutcome::Dropped);
    assert_eq!(mailbox.len(), 2);
    assert!(shipper.poll(&mut mailbox).is_none());
    assert_eq!(mailbox.len(), 2);

    // The backoff is over and the destination resolves.
    assert!(matches!(shipper.step(Outcome::Elapsed), Action::Resolve));
    match shipper.step(Outcome::Resolved { families: vec![Family::V4] }) {
        Action::Bind { family } => assert_eq!(family, Family::V4),
        other => panic!("unexpected action {:?}", other),
    }
    assert!(matches!(shipper.step(Outcome::Bound), Action::Receive));

    // Sending resumes with what was accepted, in order.
    match shipper.poll(&mut mailbox) {
        Some(Action::Send { payload, address }) => {
            assert_eq!(payload, b"one".to_vec());
            assert_eq!(address, 0);
        },
        other => panic!("unexpected action {:?}", other),
    }
    assert!(matches!(shipper.step(Outcome::Sent), Action::Receive));
    match shipper.poll(&mut mailbox) {
        Some(Action::Send { payload, .. }) => assert_eq!(payload, b"two".to_vec()),
        other => panic!("unexpected action {:?}", other),
    }
    assert!(matches!(shipper.step(Outcome::Sent), Action::Receive));
    assert!(shipper.poll(&mut mailbox).is_none());
    assert_eq!(shipper.phase(), Phase::Connected);
}

#[test]
fn empty_resolution_backs_off() {
    let mut shipper = Shipper::new(250, 100);
    match shipper.step(Outcome::Resolved { families: Vec::new() }) {
        Action::Sleep { millis } => assert_eq!(millis, 250),
        other => panic!("unexpected action {:?}", other),
    }
    assert_eq!(shipper.phase(), Phase::Backoff);
}

#[test]
fn bind_matches_the_family_of_each_address_in_turn() {
    let mut shipper = Shipper::new(10, 100);
    match shipper.step(Outcome::Resolved { families: vec![Family::V6, Family::V4] }) {
        Action::Bind { family } => assert_eq!(family, Family::V6),
        other => panic!("unexpected action {:?}", other),
    }
    match shipper.step(Outcome::BindFailed) {
        Action::Bind { family } => assert_eq!(family, Family::V4),
        other => panic!("unexpected action {:?}", other),
    }
    match shipper.step(Outcome::BindFailed) {
        Action::Sleep { millis } => assert_eq!(millis, 10),
        other => panic!("unexpected action {:?}", other),
    }
    assert_eq!(shipper.phase(), Phase::Backoff);
}

#[test]
fn second_address_is_used_after_first_failed_to_bind() {
    let mut shipper = Shipper::new(10, 100);
    shipper.step(Outcome::Resolved { families: vec![Family::V6, Family::V4] });
    shipper.step(Outcome::BindFailed);
    assert!(matches!(shipper.step(Outcome::Bound), Action::Receive));
    match shipper.step(Outcome::Payload { payload: vec![9] }) {
        Action::Send { payload, address } => {
            assert_eq!(payload, vec![9]);
            assert_eq!(address, 1);
        },
        other => panic!("unexpected action {:?}", other),
    }
}

#[test]
fn failed_send_loses_only_the_payload() {
    let mut shipper = connected(vec![Family::V4]);
    assert!(matches!(shipper.step(Outcome::Payload { payload: vec![1] }), Action::Send { .. }));
    assert_eq!(shipper.phase(), Phase::Sending);
    assert!(matches!(shipper.step(Outcome::SendFailed { fault: SendFault::WouldBlock }), Action::Receive));
    assert_eq!(shipper.phase(), Phase::Connected);
    match shipper.step(Outcome::Payload { payload: vec![2] }) {
        Action::Send { payload, .. } => assert_eq!(payload, vec![2]),
        other => panic!("unexpected action {:?}", other),
    }
}

#[test]
fn unusable_endpoint_leads_back_to_resolving() {
    let mut shipper = connected(vec![Family::V4]);
    shipper.step(Outcome::Payload { payload: vec![1] });
    assert!(matches!(shipper.step(Outcome::SendFailed { fault: SendFault::Other }), Action::Resolve));
    assert_eq!(shipper.phase(), Phase::Resolving);
}

#[test]
fn refresh_leads_back_to_resolving() {
    let mut shipper = connected(vec![Family::V4]);
    assert!(matches!(shipper.step(Outcome::RefreshDue), Action::Resolve));
    assert_eq!(shipper.phase(), Phase::Resolving);
}

#[test]
fn payload_over_the_limit_is_not_sent() {
    let mut shipper = connected(vec![Family::V4]);
    assert!(matches!(shipper.step(Outcome::Payload { payload: vec![0; 101] }), Action::Receive));
    assert_eq!(shipper.phase(), Phase::Connected);
    match shipper.step(Outcome::Payload { payload: vec![0; 100] }) {
        Action::Send { payload, .. } => assert_eq!(payload.len(), 100),
        other => panic!("unexpected action {:?}", other),
    }
}

#[test]
fn closed_and_drained_mailbox_stops_the_shipper() {
    let mut mailbox = Mailbox::new(2);
    let mut shipper = connected(vec![Family::V4]);
    mailbox.try_send(vec![1]);
    mailbox.close();
    assert!(matches!(shipper.poll(&mut mailbox), Some(Action::Send { .. })));
    assert!(matches!(shipper.step(Outcome::Sent), Action::Receive));
    assert!(matches!(shipper.poll(&mut mailbox), Some(Action::Stop)));
    assert_eq!(shipper.phase(), Phase::Stopped);
    assert!(matches!(shipper.step(Outcome::Elapsed), Action::Stop));
    assert!(matches!(shipper.step(Outcome::Resolved { families: vec![Family::V4] }), Action::Stop));
    assert_eq!(shipper.phase(), Phase::Stopped);
    assert!(matches!(shipper.poll(&mut mailbox), Some(Action::Stop)));
}

#[test]
fn shutdown_is_seen_while_resolution_fails() {
    let mut mailbox = Mailbox::new(2);
    let mut shipper = Shipper::new(10_000, 100);
    assert!(shipper.poll(&mut mailbox).is_none());
    assert!(matches!(shipper.step(Outcome::ResolutionFailed), Action::Sleep { .. }));
    mailbox.close();
    assert!(matches!(shipper.poll(&mut mailbox), Some(Action::Stop)));
    assert_eq!(shipper.phase(), Phase::Stopped);
    assert!(matches!(shipper.step(Outcome::Elapsed), Action::Stop));
}

#[test]
fn shutdown_is_seen_in_every_phase() {
    // Resolving
    let mut mailbox = Mailbox::new(1);
    mailbox.close();
    let mut shipper = Shipper::new(10, 100);
    assert!(matches!(shipper.poll(&mut mailbox), Some(Action::Stop)));
    assert_eq!(shipper.phase(), Phase::Stopped);
    // Binding
    let mut shipper = Shipper::new(10, 100);
    shipper.step(Outcome::Resolved { families: vec![Family::V4] });
    assert_eq!(shipper.phase(), Phase::Binding);
    assert!(matches!(shipper.poll(&mut mailbox), Some(Action::Stop)));
    // Connected
    let mut shipper = connected(vec![Family::V4]);
    assert!(matches!(shipper.poll(&mut mailbox), Some(Action::Stop)));
    // Sending
    let mut shipper = connected(vec![Family::V4]);
    shipper.step(Outcome::Payload { payload: vec![1] });
    assert_eq!(shipper.phase(), Phase::Sending);
    assert!(matches!(shipper.poll(&mut mailbox), Some(Action::Stop)));
    assert_eq!(shipper.phase(), Phase::Stopped);
}

#[test]
fn closed_mailbox_is_drained_before_the_shipper_stops() {
    let mut mailbox = Mailbox::new(3);
    mailbox.try_send(vec![1]);
    mailbox.try_send(vec![2]);
    mailbox.close();
    let mut shipper = Shipper::new(10, 100);
    // Not connected yet: nothing is taken, and the shipper goes on.
    assert!(shipper.poll(&mut mailbox).is_none());
    shipper.step(Outcome::Resolved { families: vec![Family::V4] });
    assert!(shipper.poll(&mut mailbox).is_none());
    shipper.step(Outcome::Bound);
    for expected in [1u8, 2] {
        match shipper.poll(&mut mailbox) {
            Some(Action::Send { payload, .. }) => assert_eq!(payload, vec![expected]),
            other => panic!("unexpected action {:?}", other),
        }
        assert!(matches!(shipper.step(Outcome::Sent), Action::Receive));
    }
    assert!(matches!(shipper.poll(&mut mailbox), Some(Action::Stop)));
}

#[test]
fn closed_outcome_stops_in_every_phase() {
    let mut shipper = Shipper::new(10, 100);
    assert!(matches!(shipper.step(Outcome::Closed), Action::Stop));
    assert_eq!(shipper.phase(), Phase::Stopped);
    let mut shipper = Shipper::new(10, 100);
    shipper.step(Outcome::ResolutionFailed);
    assert!(matches!(shipper.step(Outcome::Closed), Action::Stop));
    let mut shipper = connected(vec![Family::V6]);
    shipper.step(Outcome::Payload { payload: vec![1] });
    assert!(matches!(shipper.step(Outcome::Closed), Action::Stop));
    assert_eq!(shipper.phase(), Phase::Stopped);
}

#[test]
fn passing_faults_keep_the_endpoint() {
    for fault in [SendFault::Interrupted, SendFault::WouldBlock, SendFault::TimedOut] {
        assert!(!fault.is_unusable());
        let mut shipper = connected(vec![Family::V4]);
        shipper.step(Outcome::Payload { payload: vec![1] });
        assert!(matches!(shipper.step(Outcome::SendFailed { fault }), Action::Receive));
    }
    assert!(SendFault::Other.is_unusable());
}

#[test]
fn bind_address_is_the_unspecified_address_of_the_family() {
    assert_eq!(bind_address(Family::V4), "0.0.0.0:0");
    assert_eq!(bind_address(Family::V6), "[::]:0");
}

#[test]
fn unexpected_event_is_taken_for_a_fault() {
    let mut shipper = Shipper::new(77, 100);
    match shipper.step(Outcome::Sent) {
        Action::Sleep { millis } => assert_eq!(millis, 77),
        other => panic!("unexpected action {:?}", other),
    }
    assert_eq!(shipper.phase(), Phase::Backoff);
    assert!(matches!(shipper.step(Outcome::Bound), Action::Sleep { .. }));
    assert!(matches!(shipper.step(Outcome::Elapsed), Action::Resolve));
}

#[test]
fn poll_leaves_the_mailbox_alone_unless_connected() {
    let mut mailbox = Mailbox::new(2);
    mailbox.try_send(vec![1]);
    let mut shipper = Shipper::new(10, 100);
    assert!(shipper.poll(&mut mailbox).is_none());
    assert_eq!(mailbox.len(), 1);
    assert_eq!(shipper.phase(), Phase::Resolving);
}
