//! Wire frames and the kinds they come in.

pub mod builder;
pub mod opcode;

use crate::buffer::{be16, buffered, new_buffer, put_u16};
use bytes::BytesMut;
pub use builder::Builder as FrameBuilder;
pub use opcode::Opcode;
use vstd::prelude::*;

verus! {

/// One frame as it travels on the wire, with its payload already unmasked.
#[derive(Debug)]
pub struct Frame {
    /// Final fragment of its message.
    pub fin: bool,
    /// The three reserved bits; anything but zero is a protocol violation.
    pub rsv: u8,
    pub opcode: Opcode,
    /// Whether the frame carried a masking key.
    pub mask: bool,
    /// The seven-bit length field: the length itself up to 125, or 126 or
    /// 127 where an extended length follows.
    pub payload_len: u8,
    /// The payload length that the header declares.
    pub buf_len: usize,
    /// The masking key, all zero where `mask` is not set.
    pub masking_key: [u8; 4],
    /// The payload.
    pub buf: BytesMut,
}

/// A frame as contracts speak of it: the header fields and the payload bytes.
pub struct FrameView {
    pub fin: bool,
    pub rsv: u8,
    pub opcode: Opcode,
    pub mask: bool,
    pub payload_len: u8,
    pub buf_len: usize,
    pub masking_key: Seq<u8>,
    pub payload: Seq<u8>,
}

impl FrameView {
    /// The frame that closes a connection with the status `code`: final,
    /// unmasked, its payload the two big-endian bytes of the code.
    pub open spec fn close_with_code(code: u16) -> FrameView {
        FrameView {
            fin: true,
            rsv: 0,
            opcode: Opcode::Close,
            mask: false,
            payload_len: 2,
            buf_len: 2,
            masking_key: seq![0u8, 0u8, 0u8, 0u8],
            payload: be16(code),
        }
    }

    /// The frame with no field set and no payload.
    pub open spec fn unset() -> FrameView {
        FrameView {
            fin: false,
            rsv: 0,
            opcode: Opcode::Unset,
            mask: false,
            payload_len: 0,
            buf_len: 0,
            masking_key: seq![0u8, 0u8, 0u8, 0u8],
            payload: Seq::<u8>::empty(),
        }
    }

    /// Whether the payload has the length that the header declares.
    pub open spec fn is_complete(self) -> bool {
        self.payload.len() == self.buf_len
    }
}

impl View for Frame {
    type V = FrameView;

    open spec fn view(&self) -> FrameView {
        FrameView {
            fin: self.fin,
            rsv: self.rsv,
            opcode: self.opcode,
            mask: self.mask,
            payload_len: self.payload_len,
            buf_len: self.buf_len,
            masking_key: self.masking_key@,
            payload: buffered(self.buf),
        }
    }
}

/// The view of a frame that may be absent.
pub open spec fn view_of(frame: Option<Frame>) -> Option<FrameView> {
    match frame {
        Some(f) => Some(f@),
        None => None,
    }
}

impl Default for Frame {
    fn default() -> (frame: Self)
        ensures
            frame@ == FrameView::unset(),
    {
        let frame = Frame {
            fin: false,
            rsv: 0,
            opcode: Opcode::Unset,
            mask: false,
            payload_len: 0,
            buf_len: 0,
            masking_key: [0, 0, 0, 0],
            buf: new_buffer(),
        };
        assert(frame.masking_key@ =~= seq![0u8, 0u8, 0u8, 0u8]);
        frame
    }
}

impl Frame {
    pub fn is_last(&self) -> (b: bool)
        ensures
            b == self.fin,
    {
        self.fin
    }

    pub fn is_control(&self) -> (b: bool)
        ensures
            b == self.opcode.is_control(),
    {
        self.opcode.is_control()
    }

    pub fn is_non_control(&self) -> (b: bool)
        ensures
            b == !self.opcode.is_control(),
    {
        !self.is_control()
    }

    /// A close frame that carries the status `code` and nothing else.
    pub fn create_close_with_code(code: u16) -> (frame: Self)
        ensures
            frame@ == FrameView::close_with_code(code),
            frame@.is_complete(),
    {
        let mut buf = new_buffer();
        put_u16(&mut buf, code);
        let frame = Frame {
            fin: true,
            rsv: 0,
            opcode: Opcode::Close,
            mask: false,
            payload_len: 2,
            buf_len: 2,
            masking_key: [0, 0, 0, 0],
            buf,
        };
        assert(frame.masking_key@ =~= seq![0u8, 0u8, 0u8, 0u8]);
        assert(frame@.payload =~= be16(code));
        frame
    }
}

} // verus!
