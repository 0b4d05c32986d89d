use bytes::{BufMut, Bytes, BytesMut};
use ws_engine::{Message, Opcode, WebsocketCodec};

fn client_frame(first: u8, payload: &[u8], key: [u8; 4]) -> Vec<u8> {
    let mut out = vec![first];
    let len = payload.len();
    if len <= 125 {
        out.push(0x80 | len as u8);
    } else if len <= 65535 {
        out.push(0x80 | 126);
        out.extend_from_slice(&(len as u16).to_be_bytes());
    } else {
        out.push(0x80 | 127);
        out.extend_from_slice(&(len as u64).to_be_bytes());
    }
    out.extend_from_slice(&key);
    for (i, b) in payload.iter().enumerate() {
        out.push(b ^ key[i % 4]);
    }
    out
}

fn filled(bytes: &[u8]) -> BytesMut {
    let mut buf = BytesMut::new();
    buf.put_slice(bytes);
    buf
}

fn sample(len: usize) -> Vec<u8> {
    (0..len).map(|i| (i * 13 + 1) as u8).collect()
}

/// The encoder's frame as a client would send it: mask bit set, key
/// inserted, payload masked.
fn mask_encoded(encoded: &[u8], header_len: usize, key: [u8; 4]) -> Vec<u8> {
    let mut out = encoded[..header_len].to_vec();
    out[1] |= 0x80;
    out.extend_from_slice(&key);
    for (i, b) in encoded[header_len..].iter().enumerate() {
        out.push(b ^ key[i % 4]);
    }
    out
}

#[test]
fn decode_does_nothing_on_an_empty_buffer() {
    let mut codec = WebsocketCodec::default();
    let mut buf = BytesMut::new();
    assert!(codec.decode(&mut buf).unwrap().is_none());
    assert!(buf.is_empty());
    assert_eq!(codec.frame_index(), 0);
}

#[test]
fn decode_keeps_a_partial_frame_between_calls() {
    let wire = client_frame(0x81, b"split me", [1, 2, 3, 4]);
    let mut codec = WebsocketCodec::default();
    let mut buf = filled(&wire[..9]);
    assert!(codec.decode(&mut buf).unwrap().is_none());
    assert!(buf.is_empty());
    buf.put_slice(&wire[9..]);
    let frame = codec.decode(&mut buf).unwrap().expect("a whole frame");
    assert_eq!(frame.opcode, Opcode::Text);
    assert_eq!(&frame.buf[..], b"split me");
}

#[test]
fn decode_counts_the_frames_of_a_fragmented_message() {
    let mut codec = WebsocketCodec::default();
    let mut buf = filled(&client_frame(0x01, b"a", [1, 2, 3, 4]));
    codec.decode(&mut buf).unwrap().expect("first fragment");
    assert_eq!(codec.frame_index(), 1);
    buf.put_slice(&client_frame(0x00, b"b", [1, 2, 3, 4]));
    codec.decode(&mut buf).unwrap().expect("second fragment");
    assert_eq!(codec.frame_index(), 2);
    buf.put_slice(&client_frame(0x80, b"c", [1, 2, 3, 4]));
    let last = codec.decode(&mut buf).unwrap().expect("last fragment");
    assert!(last.fin);
    assert_eq!(codec.frame_index(), 0);
}

#[test]
fn decode_leaves_the_index_alone_for_whole_messages_and_control_frames() {
    let mut codec = WebsocketCodec::default();
    for first in [0x81u8, 0x82, 0x89, 0x8A, 0x88] {
        let mut buf = filled(&client_frame(first, b"x", [7, 7, 7, 7]));
        codec.decode(&mut buf).unwrap().expect("a whole frame");
        assert_eq!(codec.frame_index(), 0);
    }
}

#[test]
fn decode_counts_a_ping_in_the_middle_of_a_message() {
    let mut codec = WebsocketCodec::default();
    let mut buf = filled(&client_frame(0x02, b"a", [1, 2, 3, 4]));
    codec.decode(&mut buf).unwrap().expect("first fragment");
    assert_eq!(codec.frame_index(), 1);
    buf.put_slice(&client_frame(0x89, b"p", [1, 2, 3, 4]));
    let ping = codec.decode(&mut buf).unwrap().expect("the ping");
    assert_eq!(ping.opcode, Opcode::Ping);
    assert_eq!(codec.frame_index(), 2);
    buf.put_slice(&client_frame(0x8A, b"p", [1, 2, 3, 4]));
    codec.decode(&mut buf).unwrap().expect("the pong");
    assert_eq!(codec.frame_index(), 2);
}

#[test]
fn decode_rejects_a_new_message_in_the_middle_of_another() {
    let mut codec = WebsocketCodec::default();
    let mut buf = filled(&client_frame(0x01, b"a", [1, 2, 3, 4]));
    codec.decode(&mut buf).unwrap().expect("first fragment");
    buf.put_slice(&client_frame(0x81, b"b", [1, 2, 3, 4]));
    let frame = codec.decode(&mut buf).unwrap().expect("a close frame");
    assert_eq!(frame.opcode, Opcode::Close);
    assert_eq!(&frame.buf[..], &[0x03, 0xEA]);
    assert_eq!(codec.frame_index(), 1);
}

#[test]
fn decode_rejects_a_continuation_that_continues_nothing() {
    let mut codec = WebsocketCodec::default();
    let mut buf = filled(&client_frame(0x80, b"b", [1, 2, 3, 4]));
    let frame = codec.decode(&mut buf).unwrap().expect("a close frame");
    assert_eq!(frame.opcode, Opcode::Close);
    assert_eq!(&frame.buf[..], &[0x03, 0xEA]);
    assert_eq!(codec.frame_index(), 0);
}

#[test]
fn decode_rejects_reserved_bits() {
    let mut codec = WebsocketCodec::default();
    let mut buf = filled(&client_frame(0xC1, b"b", [1, 2, 3, 4]));
    let frame = codec.decode(&mut buf).unwrap().expect("a close frame");
    assert_eq!(frame.opcode, Opcode::Close);
    assert!(frame.fin);
    assert_eq!(&frame.buf[..], &[0x03, 0xEA]);
}

#[test]
fn encode_writes_the_header_byte_of_each_kind() {
    let mut codec = WebsocketCodec::default();
    let mut close = Message::new();
    close.is_close = true;
    let mut pong = Message::new();
    pong.is_pong = true;
    let cases = [
        (close, 0x88u8),
        (Message::from_text(String::new()), 0x81),
        (Message::from_binary(Bytes::new()), 0x82),
        (pong, 0x8A),
    ];
    for (msg, first) in cases {
        let mut buf = BytesMut::new();
        codec.encode(msg, &mut buf).unwrap();
        assert_eq!(&buf[..], &[first, 0x00]);
    }
}

#[test]
fn encode_picks_the_length_form_by_the_payload_length() {
    let mut codec = WebsocketCodec::default();
    let cases: [(usize, Vec<u8>); 6] = [
        (0, vec![0x00]),
        (1, vec![0x01]),
        (125, vec![0x7D]),
        (126, vec![0x7E, 0x00, 0x7E]),
        (65535, vec![0x7E, 0xFF, 0xFF]),
        (65536, vec![0x7F, 0, 0, 0, 0, 0, 1, 0, 0]),
    ];
    for (len, prefix) in cases {
        let payload = sample(len);
        let mut buf = BytesMut::new();
        codec.encode(Message::from_binary(Bytes::from(payload.clone())), &mut buf).unwrap();
        assert_eq!(buf[0], 0x82);
        assert_eq!(&buf[1..1 + prefix.len()], &prefix[..]);
        assert_eq!(&buf[1 + prefix.len()..], &payload[..]);
    }
}

#[test]
fn encode_appends_to_what_the_buffer_holds() {
    let mut codec = WebsocketCodec::default();
    let mut buf = filled(b"kept");
    codec.encode(Message::from_text("hi".to_string()), &mut buf).unwrap();
    assert_eq!(&buf[..], &[b'k', b'e', b'p', b't', 0x81, 0x02, b'h', b'i']);
}

#[test]
fn encoded_messages_come_back_from_the_decoder_once_masked() {
    for len in [0usize, 1, 125, 126, 65535, 65536] {
        for text in [true, false] {
            let payload: Vec<u8> = (0..len).map(|i| b'a' + (i % 26) as u8).collect();
            let msg = if text {
                Message::from_text(String::from_utf8(payload.clone()).unwrap())
            } else {
                Message::from_binary(Bytes::from(payload.clone()))
            };
            let mut encoder = WebsocketCodec::default();
            let mut encoded = BytesMut::new();
            encoder.encode(msg, &mut encoded).unwrap();
            let header_len = if len <= 125 { 2 } else if len <= 65535 { 4 } else { 10 };
            assert_eq!(encoded.len(), header_len + len);

            let mut decoder = WebsocketCodec::default();
            let mut wire = filled(&mask_encoded(&encoded, header_len, [0x5A, 0x00, 0xFF, 0x3C]));
            let frame = decoder.decode(&mut wire).unwrap().expect("a whole frame");
            assert!(frame.fin);
            assert_eq!(frame.opcode, if text { Opcode::Text } else { Opcode::Binary });
            assert_eq!(frame.buf_len, len);
            assert_eq!(&frame.buf[..], &payload[..]);
            assert!(wire.is_empty());
            assert_eq!(decoder.frame_index(), 0);
        }
    }
}

#[test]
fn the_encoder_s_own_unmasked_output_is_refused() {
    let mut codec = WebsocketCodec::default();
    let mut buf = BytesMut::new();
    codec.encode(Message::from_text("plain".to_string()), &mut buf).unwrap();
    let frame = codec.decode(&mut buf).unwrap().expect("a close frame");
    assert_eq!(frame.opcode, Opcode::Close);
    assert_eq!(&frame.buf[..], &[0x03, 0xEA]);
}
