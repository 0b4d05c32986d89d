//! Application messages: what the embedder receives and sends.

use crate::buffer::{
    buffer_slice, buffered, bytes_of_string, clone_frozen, freeze, frozen, frozen_slice,
    new_buffer, put_slice,
};
use crate::error::{WebsocketError, WebsocketResult};
use crate::frame::{Frame, FrameView, Opcode};
use bytes::Bytes;
use vstd::prelude::*;
use vstd::slice::slice_to_vec;
use vstd::utf8::{encode_utf8, valid_utf8};

verus! {

/// One application message: its kind, as four flags of which a message that
/// can be sent has one set, and its payload.
#[derive(Debug)]
pub struct Message {
    pub is_text: bool,
    pub is_binary: bool,
    pub is_close: bool,
    pub is_pong: bool,
    /// The payload: UTF-8 for a text message, anything otherwise.
    pub buf: Bytes,
}

/// A message as contracts speak of it.
pub struct MessageView {
    pub is_text: bool,
    pub is_binary: bool,
    pub is_close: bool,
    pub is_pong: bool,
    pub payload: Seq<u8>,
}

impl MessageView {
    /// The message of no kind, with no payload.
    pub open spec fn blank() -> MessageView {
        MessageView {
            is_text: false,
            is_binary: false,
            is_close: false,
            is_pong: false,
            payload: Seq::<u8>::empty(),
        }
    }

    pub open spec fn text(payload: Seq<u8>) -> MessageView {
        MessageView { is_text: true, payload, ..MessageView::blank() }
    }

    pub open spec fn binary(payload: Seq<u8>) -> MessageView {
        MessageView { is_binary: true, payload, ..MessageView::blank() }
    }

    pub open spec fn close(payload: Seq<u8>) -> MessageView {
        MessageView { is_close: true, payload, ..MessageView::blank() }
    }

    pub open spec fn pong(payload: Seq<u8>) -> MessageView {
        MessageView { is_pong: true, payload, ..MessageView::blank() }
    }

    /// Whether the message is of some kind.
    pub open spec fn has_kind(self) -> bool {
        self.is_close || self.is_text || self.is_binary || self.is_pong
    }

    /// The message that a finished run of data frames makes: its kind is
    /// that of the first frame, its payload the payloads of all of them in
    /// the order of arrival.
    pub open spec fn assembled(frames: Seq<FrameView>) -> MessageView
        recommends
            frames.len() > 0,
    {
        MessageView {
            is_text: frames[0].opcode == Opcode::Text,
            is_binary: frames[0].opcode == Opcode::Binary,
            payload: joined_payloads(frames),
            ..MessageView::blank()
        }
    }
}

/// The payloads of `frames`, one after the other.
pub open spec fn joined_payloads(frames: Seq<FrameView>) -> Seq<u8>
    decreases frames.len(),
{
    if frames.len() == 0 {
        Seq::<u8>::empty()
    } else {
        joined_payloads(frames.drop_last()) + frames.last().payload
    }
}

/// The views of a sequence of frames.
pub open spec fn views_of(frames: Seq<Frame>) -> Seq<FrameView> {
    Seq::new(frames.len(), |i: int| frames[i]@)
}

impl View for Message {
    type V = MessageView;

    open spec fn view(&self) -> MessageView {
        MessageView {
            is_text: self.is_text,
            is_binary: self.is_binary,
            is_close: self.is_close,
            is_pong: self.is_pong,
            payload: frozen(self.buf),
        }
    }
}

/// `String::from_utf8`: the text that `bytes` spell in UTF-8, which exists
/// exactly when they are valid UTF-8, and whose encoding they then are.
#[verifier::external_body]
fn text_of_utf8(bytes: Vec<u8>) -> (text: Option<String>)
    ensures
        text is Some <==> valid_utf8(bytes@),
        text matches Some(s) ==> encode_utf8(s@) == bytes@,
{
    match String::from_utf8(bytes) {
        Ok(s) => Some(s),
        Err(_) => None,
    }
}

impl Default for Message {
    fn default() -> (message: Self)
        ensures
            message@ == MessageView::blank(),
    {
        Message {
            is_text: false,
            is_binary: false,
            is_close: false,
            is_pong: false,
            buf: freeze(new_buffer()),
        }
    }
}

impl Message {
    /// A message of no kind and with no payload, to be filled in.
    pub fn new() -> (message: Self)
        ensures
            message@ == MessageView::blank(),
    {
        Message::default()
    }

    /// The pong that answers a ping: it carries the ping's payload.
    pub fn create_pong_from_ping_frame(frame: Frame) -> (message: Self)
        requires
            frame.opcode == Opcode::Ping,
        ensures
            message@ == MessageView::pong(frame@.payload),
    {
        Message {
            is_text: false,
            is_binary: false,
            is_close: false,
            is_pong: true,
            buf: freeze(frame.buf),
        }
    }

    /// The message that the data frames of one message make, in the order
    /// in which they arrived.
    pub fn from_non_control_frames(frames: Vec<Frame>) -> (message: Self)
        requires
            frames.len() > 0,
        ensures
            message@ == MessageView::assembled(views_of(frames@)),
    {
        let mut payload = new_buffer();
        let mut i: usize = 0;
        while i < frames.len()
            invariant
                i <= frames.len(),
                buffered(payload) == joined_payloads(views_of(frames@).take(i as int)),
            decreases frames.len() - i,
        {
            put_slice(&mut payload, buffer_slice(&frames[i].buf));
            proof {
                let all = views_of(frames@);
                assert(all.take(i + 1).drop_last() =~= all.take(i as int));
                assert(all.take(i + 1).last() == frames[i as int]@);
            }
            i += 1;
        }
        proof {
            assert(views_of(frames@).take(frames.len() as int) =~= views_of(frames@));
        }
        Message {
            is_text: frames[0].opcode.is_text(),
            is_binary: frames[0].opcode.is_binary(),
            is_close: false,
            is_pong: false,
            buf: freeze(payload),
        }
    }

    /// The payload of a text message as text. Fails where the payload is
    /// not UTF-8.
    pub fn text(&self) -> (text: WebsocketResult<String>)
        requires
            self.is_text,
        ensures
            text is Ok <==> valid_utf8(self@.payload),
            text matches Ok(s) ==> encode_utf8(s@) == self@.payload,
            text matches Err(e) ==> e == WebsocketError::FromUtf8Error,
    {
        match text_of_utf8(slice_to_vec(frozen_slice(&self.buf))) {
            Some(s) => Ok(s),
            None => Err(WebsocketError::FromUtf8Error),
        }
    }

    /// The payload of a binary message.
    pub fn binary(&self) -> (payload: Bytes)
        requires
            self.is_binary,
        ensures
            frozen(payload) == self@.payload,
    {
        clone_frozen(&self.buf)
    }

    /// The close message that carries the payload of a close frame.
    pub fn from_close(frame: Frame) -> (message: Self)
        ensures
            message@ == MessageView::close(frame@.payload),
    {
        Message {
            is_text: false,
            is_binary: false,
            is_close: true,
            is_pong: false,
            buf: freeze(frame.buf),
        }
    }

    /// A text message that carries `text`.
    pub fn from_text(text: String) -> (message: Self)
        ensures
            message@ == MessageView::text(encode_utf8(text@)),
    {
        Message {
            is_text: true,
            is_binary: false,
            is_close: false,
            is_pong: false,
            buf: bytes_of_string(text),
        }
    }

    /// A binary message that carries `buf`.
    pub fn from_binary(buf: Bytes) -> (message: Self)
        ensures
            message@ == MessageView::binary(frozen(buf)),
    {
        Message { is_text: false, is_binary: true, is_close: false, is_pong: false, buf }
    }
}

} // verus!
