use bytes::{BufMut, Bytes, BytesMut};
use ws_engine::frame::Frame;
use ws_engine::{Message, Opcode, WebsocketError};

fn frame_of(opcode: Opcode, fin: bool, payload: &[u8]) -> Frame {
    let mut buf = BytesMut::new();
    buf.put_slice(payload);
    Frame {
        fin,
        rsv: 0,
        opcode,
        mask: true,
        payload_len: payload.len() as u8,
        buf_len: payload.len(),
        masking_key: [1, 2, 3, 4],
        buf,
    }
}

fn flags(m: &Message) -> (bool, bool, bool, bool) {
    (m.is_text, m.is_binary, m.is_close, m.is_pong)
}

#[test]
fn new_message_has_no_kind_and_no_payload() {
    let m = Message::new();
    assert_eq!(flags(&m), (false, false, false, false));
    assert!(m.buf.is_empty());
    let d = Message::default();
    assert_eq!(flags(&d), (false, false, false, false));
    assert!(d.buf.is_empty());
}

#[test]
fn from_text_carries_the_utf8_bytes() {
    let m = Message::from_text("héllo ✓".to_string());
    assert_eq!(flags(&m), (true, false, false, false));
    assert_eq!(&m.buf[..], "héllo ✓".as_bytes());
    assert_eq!(m.text().unwrap(), "héllo ✓");
}

#[test]
fn from_binary_carries_the_bytes() {
    let m = Message::from_binary(Bytes::from(vec![0u8, 255, 7]));
    assert_eq!(flags(&m), (false, true, false, false));
    assert_eq!(&m.binary()[..], &[0, 255, 7]);
}

#[test]
fn text_fails_on_invalid_utf8() {
    let frames = vec![frame_of(Opcode::Text, true, &[0x66, 0xFF, 0x6F])];
    let m = Message::from_non_control_frames(frames);
    assert!(m.is_text);
    assert_eq!(m.text(), Err(WebsocketError::FromUtf8Error));
    let frames = vec![frame_of(Opcode::Text, true, &[0xC3])];
    assert_eq!(
        Message::from_non_control_frames(frames).text(),
        Err(WebsocketError::FromUtf8Error)
    );
}

#[test]
fn text_accepts_the_empty_payload() {
    let m = Message::from_non_control_frames(vec![frame_of(Opcode::Text, true, b"")]);
    assert_eq!(m.text().unwrap(), "");
}

#[test]
fn three_fragments_reassemble_into_one_text_message() {
    let frames = vec![
        frame_of(Opcode::Text, false, b"Hel"),
        frame_of(Opcode::Continuation, false, b"lo, wo"),
        frame_of(Opcode::Continuation, true, b"rld"),
    ];
    let m = Message::from_non_control_frames(frames);
    assert_eq!(flags(&m), (true, false, false, false));
    assert_eq!(&m.buf[..], b"Hello, world");
    assert_eq!(m.text().unwrap(), "Hello, world");
}

#[test]
fn a_character_split_across_fragments_is_valid_once_joined() {
    let bytes = "é".as_bytes();
    let frames = vec![
        frame_of(Opcode::Text, false, &bytes[..1]),
        frame_of(Opcode::Continuation, true, &bytes[1..]),
    ];
    assert_eq!(Message::from_non_control_frames(frames).text().unwrap(), "é");
}

#[test]
fn binary_fragments_reassemble_in_order() {
    let frames = vec![
        frame_of(Opcode::Binary, false, &[1, 2]),
        frame_of(Opcode::Continuation, false, &[]),
        frame_of(Opcode::Continuation, true, &[3]),
    ];
    let m = Message::from_non_control_frames(frames);
    assert_eq!(flags(&m), (false, true, false, false));
    assert_eq!(&m.binary()[..], &[1, 2, 3]);
}

#[test]
fn the_kind_comes_from_the_first_frame() {
    let m = Message::from_non_control_frames(vec![frame_of(Opcode::Continuation, true, b"x")]);
    assert_eq!(flags(&m), (false, false, false, false));
    assert_eq!(&m.buf[..], b"x");
}

#[test]
fn pong_carries_the_payload_of_the_ping() {
    let m = Message::create_pong_from_ping_frame(frame_of(Opcode::Ping, true, b"probe"));
    assert_eq!(flags(&m), (false, false, false, true));
    assert_eq!(&m.buf[..], b"probe");
}

#[test]
fn close_message_carries_the_payload_of_the_close_frame() {
    let m = Message::from_close(Frame::create_close_with_code(1002));
    assert_eq!(flags(&m), (false, false, true, false));
    assert_eq!(&m.buf[..], &[0x03, 0xEA]);
}

#[test]
fn each_error_has_its_message() {
    assert_eq!(WebsocketError::IoError.message(), "transport error");
    assert_eq!(WebsocketError::SendError.message(), "channel closed");
    assert_eq!(
        WebsocketError::FromUtf8Error.message(),
        "invalid utf-8 sequence in text message"
    );
}
