//! The codec: frames out of a stream buffer, messages into one.

use crate::buffer::{be16, be64, buffer_len, buffered, frozen_slice, put_slice, put_u16, put_u64, put_u8};
use crate::error::WebsocketResult;
use crate::frame::builder::{spec_build, BuildOutcome, BuilderView};
use crate::frame::{view_of, Frame, FrameBuilder, FrameView, Opcode};
use crate::message::{Message, MessageView};
use bytes::BytesMut;
use vstd::prelude::*;

verus! {

/// The decoder of one connection's inbound frames and the encoder of its
/// outbound messages.
#[derive(Debug)]
pub struct WebsocketCodec {
    frame_builder: FrameBuilder,
}

/// The frame index after `frame` has been read at index `frame_index`.
/// A data frame that is not final continues a fragmented message, and so,
/// as this decoder counts, does a ping in the middle of one; the final
/// continuation ends the message; every other frame leaves the index alone.
pub open spec fn next_frame_index(frame_index: usize, frame: FrameView) -> int {
    if (!frame.fin && frame.opcode.is_data()) || (frame_index > 0 && frame.opcode == Opcode::Ping) {
        frame_index + 1
    } else if frame.fin && frame.opcode == Opcode::Continuation {
        0
    } else {
        frame_index as int
    }
}

/// What one call of [`WebsocketCodec::decode`] does in state `s` on `input`:
/// nothing on an empty buffer; otherwise one call of the frame decoder, and
/// where that yields a frame, the new frame index and a reset.
pub open spec fn spec_decode(s: BuilderView, input: Seq<u8>) -> BuildOutcome {
    if input.len() == 0 {
        BuildOutcome { state: s, rest: input, frame: None }
    } else {
        let built = spec_build(s, input);
        match built.frame {
            Some(frame) => BuildOutcome {
                state: BuilderView {
                    frame_index: next_frame_index(s.frame_index, frame) as usize,
                    ..built.state.reset()
                },
                ..built
            },
            None => built,
        }
    }
}

/// The first byte of the frame that carries a message: FIN set, no reserved
/// bit, and the opcode of the message's kind.
pub open spec fn header_byte(m: MessageView) -> u8
    recommends
        m.has_kind(),
{
    if m.is_close {
        0x88
    } else if m.is_text {
        0x81
    } else if m.is_binary {
        0x82
    } else {
        0x8A
    }
}

/// The unmasked length bytes of a payload of `len` bytes: the length itself
/// up to 125; `0x7E` and 16 bits big-endian up to 65535; `0x7F` and 64 bits
/// big-endian beyond.
pub open spec fn length_prefix(len: nat) -> Seq<u8>
    recommends
        len <= u64::MAX,
{
    if len <= 125 {
        seq![len as u8]
    } else if len <= 65535 {
        seq![0x7Eu8] + be16(len as u16)
    } else {
        seq![0x7Fu8] + be64(len as u64)
    }
}

/// The one frame that carries a message: header byte, length, payload.
pub open spec fn wire_encoding(m: MessageView) -> Seq<u8>
    recommends
        m.has_kind(),
{
    seq![header_byte(m)] + length_prefix(m.payload.len()) + m.payload
}

impl View for WebsocketCodec {
    type V = BuilderView;

    closed spec fn view(&self) -> BuilderView {
        self.frame_builder@
    }
}

impl Default for WebsocketCodec {
    fn default() -> (codec: Self)
        ensures
            codec@ == BuilderView::fresh(0),
            codec.wf(),
    {
        WebsocketCodec { frame_builder: FrameBuilder::default() }
    }
}

impl WebsocketCodec {
    /// Whether the decoder inside keeps its invariant.
    pub open spec fn wf(&self) -> bool {
        self@.wf()
    }

    /// How many frames of the fragmented message in progress have been
    /// decoded; zero while none is in progress.
    pub fn frame_index(&self) -> (frame_index: usize)
        ensures
            frame_index == self@.frame_index,
    {
        self.frame_builder.frame_index()
    }

    /// Decodes at most one frame from the front of `buf`. `Ok(None)` asks
    /// for more input; what was read so far is kept.
    pub fn decode(&mut self, buf: &mut BytesMut) -> (frame: WebsocketResult<Option<Frame>>)
        requires
            old(self).wf(),
            old(self)@.frame_index < usize::MAX,
        ensures
            frame is Ok,
            final(self)@ == spec_decode(old(self)@, buffered(*old(buf))).state,
            buffered(*final(buf)) == spec_decode(old(self)@, buffered(*old(buf))).rest,
            view_of(frame->Ok_0) == spec_decode(old(self)@, buffered(*old(buf))).frame,
            frame matches Ok(Some(f)) ==> f@.is_complete(),
            final(self).wf(),
    {
        if buffer_len(buf) == 0 {
            return Ok(None);
        }
        match self.frame_builder.build(buf) {
            Some(frame) => {
                let frame_index: usize = self.frame_builder.frame_index();
                self.frame_builder.soft_reset();
                if (!frame.fin && matches!(
                    frame.opcode,
                    Opcode::Text | Opcode::Binary | Opcode::Continuation
                )) || (frame_index > 0 && matches!(frame.opcode, Opcode::Ping)) {
                    self.frame_builder.set_frame_index(frame_index + 1);
                } else if frame.fin && matches!(frame.opcode, Opcode::Continuation) {
                    self.frame_builder.set_frame_index(0);
                }
                Ok(Some(frame))
            },
            None => Ok(None),
        }
    }

    /// Appends to `buf` the one frame that carries `msg`: final, unmasked,
    /// with the shortest length form that holds the payload's length.
    pub fn encode(&mut self, msg: Message, buf: &mut BytesMut) -> (done: WebsocketResult<()>)
        requires
            msg@.has_kind(),
        ensures
            done is Ok,
            buffered(*final(buf)) == buffered(*old(buf)) + wire_encoding(msg@),
            *final(self) == *old(self),
    {
        let ghost before = buffered(*buf);
        if msg.is_close {
            put_u8(buf, 0x88);
        } else if msg.is_text {
            put_u8(buf, 0x81);
        } else if msg.is_binary {
            put_u8(buf, 0x82);
        } else {
            put_u8(buf, 0x8A);
        }
        let payload = frozen_slice(&msg.buf);
        let len: usize = payload.len();
        if len > 65535 {
            put_u8(buf, 0x7F);
            put_u64(buf, len as u64);
        } else if len > 125 {
            put_u8(buf, 0x7E);
            put_u16(buf, len as u16);
        } else {
            put_u8(buf, len as u8);
        }
        put_slice(buf, payload);
        assert(buffered(*buf) =~= before + wire_encoding(msg@));
        Ok(())
    }
}

} // verus!
