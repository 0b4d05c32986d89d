use bytes::{BufMut, BytesMut};
use ws_engine::frame::Frame;
use ws_engine::session::{Inbound, Step};
use ws_engine::Opcode;

fn incoming(opcode: Opcode, fin: bool, payload: &[u8]) -> Frame {
    let mut buf = BytesMut::new();
    buf.put_slice(payload);
    Frame {
        fin,
        rsv: 0,
        opcode,
        mask: true,
        payload_len: payload.len() as u8,
        buf_len: payload.len(),
        masking_key: [9, 8, 7, 6],
        buf,
    }
}

#[test]
fn a_ping_is_answered_with_one_pong_of_the_same_payload() {
    let mut inbound = Inbound::new();
    match inbound.on_frame(incoming(Opcode::Ping, true, b"are you there")) {
        Step::Reply(m) => {
            assert!(m.is_pong);
            assert!(!m.is_text && !m.is_binary && !m.is_close);
            assert_eq!(&m.buf[..], b"are you there");
        }
        other => panic!("expected a reply, got {:?}", other),
    }
    assert!(!inbound.is_closed());
}

#[test]
fn a_pong_is_dropped() {
    let mut inbound = Inbound::new();
    assert!(matches!(inbound.on_frame(incoming(Opcode::Pong, true, b"late")), Step::Continue));
    assert!(!inbound.is_closed());
}

#[test]
fn a_close_frame_is_echoed_and_ends_the_stream() {
    let mut inbound = Inbound::new();
    match inbound.on_frame(incoming(Opcode::Close, true, &[0x03, 0xE8])) {
        Step::Close(m) => {
            assert!(m.is_close);
            assert_eq!(&m.buf[..], &[0x03, 0xE8]);
        }
        other => panic!("expected a close, got {:?}", other),
    }
    assert!(inbound.is_closed());
    for frame in [
        incoming(Opcode::Text, true, b"too late"),
        incoming(Opcode::Ping, true, b"p"),
        incoming(Opcode::Close, true, b""),
        incoming(Opcode::Binary, false, b"b"),
    ] {
        assert!(matches!(inbound.on_frame(frame), Step::Finished));
        assert!(inbound.is_closed());
    }
}

#[test]
fn a_synthetic_close_goes_the_way_of_any_close() {
    let mut inbound = Inbound::new();
    match inbound.on_frame(Frame::create_close_with_code(1002)) {
        Step::Close(m) => assert_eq!(&m.buf[..], &[0x03, 0xEA]),
        other => panic!("expected a close, got {:?}", other),
    }
    assert!(inbound.is_closed());
}

#[test]
fn a_whole_text_frame_is_delivered_at_once() {
    let mut inbound = Inbound::new();
    match inbound.on_frame(incoming(Opcode::Text, true, b"hi")) {
        Step::Deliver(m) => {
            assert!(m.is_text);
            assert_eq!(m.text().unwrap(), "hi");
        }
        other => panic!("expected a message, got {:?}", other),
    }
}

#[test]
fn fragments_are_delivered_with_the_last_one() {
    let mut inbound = Inbound::new();
    assert!(matches!(inbound.on_frame(incoming(Opcode::Text, false, b"one ")), Step::Continue));
    assert!(matches!(
        inbound.on_frame(incoming(Opcode::Continuation, false, b"two ")),
        Step::Continue
    ));
    match inbound.on_frame(incoming(Opcode::Continuation, true, b"three")) {
        Step::Deliver(m) => {
            assert!(m.is_text && !m.is_binary);
            assert_eq!(&m.buf[..], b"one two three");
        }
        other => panic!("expected a message, got {:?}", other),
    }
    match inbound.on_frame(incoming(Opcode::Binary, true, &[1])) {
        Step::Deliver(m) => {
            assert!(m.is_binary);
            assert_eq!(&m.buf[..], &[1]);
        }
        other => panic!("expected a message, got {:?}", other),
    }
}

#[test]
fn a_ping_between_fragments_leaves_the_message_alone() {
    let mut inbound = Inbound::new();
    assert!(matches!(inbound.on_frame(incoming(Opcode::Binary, false, &[1, 2])), Step::Continue));
    match inbound.on_frame(incoming(Opcode::Ping, true, b"x")) {
        Step::Reply(m) => assert_eq!(&m.buf[..], b"x"),
        other => panic!("expected a reply, got {:?}", other),
    }
    match inbound.on_frame(incoming(Opcode::Continuation, true, &[3])) {
        Step::Deliver(m) => {
            assert!(m.is_binary);
            assert_eq!(&m.buf[..], &[1, 2, 3]);
        }
        other => panic!("expected a message, got {:?}", other),
    }
}

#[test]
fn the_end_of_the_stream_finishes_the_connection() {
    let mut inbound = Inbound::default();
    assert!(matches!(inbound.on_frame(incoming(Opcode::Text, false, b"half")), Step::Continue));
    assert!(matches!(inbound.on_end(), Step::Finished));
    assert!(inbound.is_closed());
    assert!(matches!(
        inbound.on_frame(incoming(Opcode::Continuation, true, b"rest")),
        Step::Finished
    ));
}
