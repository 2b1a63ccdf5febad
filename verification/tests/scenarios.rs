use chat_hub::ids::IdAllocator;
use chat_hub::lifecycle::{Connection, InboundEvent, LifecycleState, PumpStep};
use chat_hub::registry::Registry;

fn deliver(from: u64, text: &str) -> PumpStep {
    PumpStep::Deliver(format!("<User#{}>: {}", from, text))
}

fn connect(alloc: &mut IdAllocator, reg: &mut Registry) -> Connection {
    let mut c = Connection::open(alloc, reg);
    assert_eq!(c.state, LifecycleState::Connecting);
    c.activate();
    assert_eq!(c.state, LifecycleState::Active);
    c
}

#[test]
fn three_sessions_one_hello() {
    let mut alloc = IdAllocator::new();
    let mut reg = Registry::new();
    let mut c1 = connect(&mut alloc, &mut reg);
    let mut c2 = connect(&mut alloc, &mut reg);
    let mut c3 = connect(&mut alloc, &mut reg);
    assert_eq!((c1.id, c2.id, c3.id), (1, 2, 3));

    c1.handle_inbound(&mut reg, InboundEvent::Text(String::from("hello")));

    assert_eq!(c2.pump(&mut reg), deliver(1, "hello"));
    assert_eq!(c2.pump(&mut reg), PumpStep::Idle);
    assert_eq!(c3.pump(&mut reg), deliver(1, "hello"));
    assert_eq!(c3.pump(&mut reg), PumpStep::Idle);
    assert_eq!(c1.pump(&mut reg), PumpStep::Idle);
}

#[test]
fn disconnect_narrows_the_fan_out() {
    let mut alloc = IdAllocator::new();
    let mut reg = Registry::new();
    let mut c1 = connect(&mut alloc, &mut reg);
    let mut c2 = connect(&mut alloc, &mut reg);
    let mut c3 = connect(&mut alloc, &mut reg);

    c2.disconnect(&mut reg);
    assert_eq!(c2.state, LifecycleState::Draining);
    assert!(reg.contains(1));
    assert!(!reg.contains(2));
    assert!(reg.contains(3));
    assert_eq!(reg.count(), 2);

    c1.handle_inbound(&mut reg, InboundEvent::Text(String::from("ping")));

    assert_eq!(c3.pump(&mut reg), deliver(1, "ping"));
    assert_eq!(c3.pump(&mut reg), PumpStep::Idle);
    assert_eq!(c1.pump(&mut reg), PumpStep::Idle);
    // The disconnected session drains dry without seeing "ping".
    assert_eq!(c2.pump(&mut reg), PumpStep::Finished);
    assert_eq!(c2.state, LifecycleState::Closed);
}

#[test]
fn draining_session_still_receives_what_was_queued_before_removal() {
    let mut alloc = IdAllocator::new();
    let mut reg = Registry::new();
    let mut c1 = connect(&mut alloc, &mut reg);
    let mut c2 = connect(&mut alloc, &mut reg);

    c1.handle_inbound(&mut reg, InboundEvent::Text(String::from("a")));
    c1.handle_inbound(&mut reg, InboundEvent::Text(String::from("b")));
    c2.disconnect(&mut reg);
    c1.handle_inbound(&mut reg, InboundEvent::Text(String::from("after")));

    assert_eq!(c2.pump(&mut reg), deliver(1, "a"));
    assert_eq!(c2.pump(&mut reg), deliver(1, "b"));
    assert_eq!(c2.pump(&mut reg), PumpStep::Finished);
    assert_eq!(c2.state, LifecycleState::Closed);
}

#[test]
fn non_text_frames_are_ignored() {
    let mut alloc = IdAllocator::new();
    let mut reg = Registry::new();
    let mut c1 = connect(&mut alloc, &mut reg);
    let mut c2 = connect(&mut alloc, &mut reg);

    c1.handle_inbound(&mut reg, InboundEvent::NonText);
    assert_eq!(c2.pump(&mut reg), PumpStep::Idle);
    assert_eq!(c1.pump(&mut reg), PumpStep::Idle);
}

#[test]
fn write_error_closes_the_queue_but_not_the_registry_entry() {
    let mut alloc = IdAllocator::new();
    let mut reg = Registry::new();
    let mut c1 = connect(&mut alloc, &mut reg);
    let mut c2 = connect(&mut alloc, &mut reg);
    let mut c3 = connect(&mut alloc, &mut reg);

    c2.on_write_error(&mut reg);
    assert_eq!(c2.state, LifecycleState::Closed);
    assert!(reg.contains(2));

    // Broadcasting to the dead queue raises no error and still reaches c3.
    c1.handle_inbound(&mut reg, InboundEvent::Text(String::from("x")));
    assert_eq!(reg.pop_frame(2), None);
    assert_eq!(c3.pump(&mut reg), deliver(1, "x"));

    // The read side observes the disconnect later and cleans up.
    c2.disconnect(&mut reg);
    assert_eq!(c2.state, LifecycleState::Closed);
    assert!(!reg.contains(2));
}

#[test]
fn double_disconnect_is_idempotent() {
    let mut alloc = IdAllocator::new();
    let mut reg = Registry::new();
    let mut c1 = connect(&mut alloc, &mut reg);
    let _c2 = connect(&mut alloc, &mut reg);

    c1.disconnect(&mut reg);
    assert_eq!(reg.count(), 1);
    c1.disconnect(&mut reg);
    assert_eq!(reg.count(), 1);
    assert_eq!(c1.state, LifecycleState::Draining);
}

#[test]
fn hundred_sessions_each_broadcast_once() {
    const N: u64 = 100;
    let mut alloc = IdAllocator::new();
    let mut reg = Registry::new();
    let mut conns = Vec::new();
    for _ in 0..N {
        conns.push(connect(&mut alloc, &mut reg));
    }
    assert_eq!(reg.count(), N as usize);

    for i in 0..N as usize {
        let text = format!("msg-{}", conns[i].id);
        conns[i].handle_inbound(&mut reg, InboundEvent::Text(text));
    }

    for i in 0..N as usize {
        let me = conns[i].id;
        let mut got = Vec::new();
        loop {
            match conns[i].pump(&mut reg) {
                PumpStep::Deliver(s) => got.push(s),
                PumpStep::Idle => break,
                PumpStep::Finished => panic!("active session finished early"),
            }
        }
        // Exactly one message from each of the 99 peers, none from itself.
        assert_eq!(got.len(), (N - 1) as usize);
        for peer in 1..=N {
            let expected = format!("<User#{}>: msg-{}", peer, peer);
            if peer == me {
                assert!(!got.contains(&expected));
            } else {
                assert!(got.contains(&expected));
            }
        }
    }
}
