use vinted_logger::mailbox::{Mailbox, Received, SendOutcome};

fn payload(received: Received) -> Vec<u8> {
    match received {
        Received::Payload(p) => p,
        other => panic!("a payload was expected, not {:?}", other),
    }
}

#[test]
fn new_mailbox_is_open_and_empty() {
    let mut mailbox = Mailbox::new(3);
    assert_eq!(mailbox.capacity(), 3);
    assert_eq!(mailbox.len(), 0);
    assert!(!mailbox.is_closed());
    assert!(matches!(mailbox.recv(), Received::Empty));
}

#[test]
fn full_mailbox_drops_silently() {
    let mut mailbox = Mailbox::new(2);
    assert_eq!(mailbox.try_send(vec![1]), SendOutcome::Accepted);
    assert_eq!(mailbox.try_send(vec![2]), SendOutcome::Accepted);
    assert_eq!(mailbox.try_send(vec![3]), SendOutcome::Dropped);
    assert_eq!(mailbox.len(), 2);
    assert_eq!(mailbox.capacity(), 2);
    assert!(!mailbox.is_closed());
    assert_eq!(payload(mailbox.recv()), vec![1]);
    assert_eq!(payload(mailbox.recv()), vec![2]);
    assert!(matches!(mailbox.recv(), Received::Empty));
}

#[test]
fn never_more_buffered_than_capacity() {
    for capacity in 1..6usize {
        let mut mailbox = Mailbox::new(capacity);
        let mut accepted = 0;
        for i in 0..(capacity + 4) {
            if mailbox.try_send(vec![i as u8]) == SendOutcome::Accepted {
                accepted += 1;
            }
            assert!(mailbox.len() <= capacity);
        }
        assert_eq!(accepted, capacity);
        assert_eq!(mailbox.len(), capacity);
        for i in 0..capacity {
            assert_eq!(payload(mailbox.recv()), vec![i as u8]);
        }
        assert!(matches!(mailbox.recv(), Received::Empty));
    }
}

#[test]
fn accepted_payloads_leave_in_order() {
    let mut mailbox = Mailbox::new(3);
    assert_eq!(mailbox.try_send(b"e0".to_vec()), SendOutcome::Accepted);
    assert_eq!(mailbox.try_send(b"e1".to_vec()), SendOutcome::Accepted);
    assert_eq!(payload(mailbox.recv()), b"e0".to_vec());
    assert_eq!(mailbox.try_send(b"e2".to_vec()), SendOutcome::Accepted);
    assert_eq!(mailbox.try_send(b"e3".to_vec()), SendOutcome::Accepted);
    assert_eq!(mailbox.try_send(b"e4".to_vec()), SendOutcome::Dropped);
    assert_eq!(payload(mailbox.recv()), b"e1".to_vec());
    assert_eq!(payload(mailbox.recv()), b"e2".to_vec());
    assert_eq!(payload(mailbox.recv()), b"e3".to_vec());
    assert!(matches!(mailbox.recv(), Received::Empty));
}

#[test]
fn room_returns_when_a_payload_has_left() {
    let mut mailbox = Mailbox::new(1);
    assert_eq!(mailbox.try_send(vec![1]), SendOutcome::Accepted);
    assert_eq!(mailbox.try_send(vec![2]), SendOutcome::Dropped);
    assert_eq!(payload(mailbox.recv()), vec![1]);
    assert_eq!(mailbox.try_send(vec![3]), SendOutcome::Accepted);
    assert_eq!(payload(mailbox.recv()), vec![3]);
}

#[test]
fn closed_mailbox_drops_and_drains() {
    let mut mailbox = Mailbox::new(4);
    assert_eq!(mailbox.try_send(vec![1]), SendOutcome::Accepted);
    mailbox.close();
    assert!(mailbox.is_closed());
    assert_eq!(mailbox.try_send(vec![2]), SendOutcome::Dropped);
    assert_eq!(mailbox.len(), 1);
    assert_eq!(payload(mailbox.recv()), vec![1]);
    assert!(matches!(mailbox.recv(), Received::Closed));
    assert!(matches!(mailbox.recv(), Received::Closed));
}

#[test]
fn empty_payload_is_a_payload() {
    let mut mailbox = Mailbox::new(1);
    assert_eq!(mailbox.try_send(Vec::new()), SendOutcome::Accepted);
    assert_eq!(mailbox.len(), 1);
    assert_eq!(payload(mailbox.recv()), Vec::<u8>::new());
}

#[test]
fn capacity_may_be_larger_than_memory() {
    let mut mailbox = Mailbox::new(usize::MAX);
    assert_eq!(mailbox.capacity(), usize::MAX);
    assert_eq!(mailbox.try_send(vec![1]), SendOutcome::Accepted);
    assert_eq!(mailbox.len(), 1);
    assert_eq!(payload(mailbox.recv()), vec![1]);
}
