//! The incremental frame decoder.
//!
//! A frame header is laid out as follows (RFC 6455, section 5.2):
//!
//! ```text
//!  0                   1                   2                   3
//!  0 1 2 3 4 5 6 7 8 9 0 1 2 3 4 5 6 7 8 9 0 1 2 3 4 5 6 7 8 9 0 1
//! +-+-+-+-+-------+-+-------------+-------------------------------+
//! |F|R|R|R| opcode|M| Payload len |    Extended payload length    |
//! |I|S|S|S|  (4)  |A|     (7)     |             (16/64)           |
//! |N|V|V|V|       |S|             |   (if payload len==126/127)   |
//! | |1|2|3|       |K|             |                               |
//! +-+-+-+-+-------+-+-------------+ - - - - - - - - - - - - - - - +
//! |     Extended payload length continued, if payload len == 127  |
//! + - - - - - - - - - - - - - - - +-------------------------------+
//! |                               |Masking-key, if MASK set to 1  |
//! +-------------------------------+-------------------------------+
//! | Masking-key (continued)       |          Payload Data         |
//! +-------------------------------- - - - - - - - - - - - - - - - +
//! ```
//!
//! The decoder reads it in five stages: the first byte, the second byte,
//! the extended length, the masking key, the payload. It keeps what it has
//! read when the input runs out in the middle and takes up there on the next
//! call. [`spec_build`] says what one call does; [`Builder::build`] does it.

use crate::buffer::{
    buffer_len, buffered, from_be16, from_be64, new_buffer, put_u8, split_off_all, take_u16,
    take_u64, take_u8,
};
use crate::frame::{view_of, Frame, FrameView, Opcode};
use bytes::BytesMut;
use vstd::prelude::*;

verus! {

/// The close status that answers every violation of the framing rules.
pub const PROTOCOL_ERROR: u16 = 1002;

/// The decoder's state between two calls.
#[derive(Debug)]
pub struct Builder {
    /// How many frames of the fragmented message in progress have been
    /// read; zero while none is in progress. The decoder reads it and never
    /// writes it.
    pub frame_index: usize,
    first_byte_readed: bool,
    fin: bool,
    rsv: u8,
    opcode: Opcode,
    second_byte_readed: bool,
    mask: bool,
    payload_len: u8,
    masking_key_readed: bool,
    masking_key: [u8; 4],
    buf_len_readed: bool,
    buf_len: usize,
    buf: BytesMut,
}

/// The decoder's state as contracts speak of it.
pub struct BuilderView {
    pub frame_index: usize,
    pub first_byte_readed: bool,
    pub fin: bool,
    pub rsv: u8,
    pub opcode: Opcode,
    pub second_byte_readed: bool,
    pub mask: bool,
    pub payload_len: u8,
    pub masking_key_readed: bool,
    pub masking_key: Seq<u8>,
    pub buf_len_readed: bool,
    pub buf_len: usize,
    /// The part of the payload read so far, unmasked.
    pub payload: Seq<u8>,
}

/// What one call of the decoder leaves behind.
pub struct BuildOutcome {
    /// The decoder's state after the call.
    pub state: BuilderView,
    /// The input that the call did not consume.
    pub rest: Seq<u8>,
    /// The frame that the call produced, if any.
    pub frame: Option<FrameView>,
}

/// The FIN bit of a first header byte.
pub open spec fn fin_bit(byte: u8) -> bool {
    (0x80u8 & byte) >> 7 != 0
}

/// The three reserved bits of a first header byte.
pub open spec fn rsv_bits(byte: u8) -> u8 {
    (0x70u8 & byte) >> 4
}

/// The opcode of a first header byte.
pub open spec fn opcode_of(byte: u8) -> Opcode {
    Opcode::of_nibble(byte & 0x0F)
}

/// The MASK bit of a second header byte.
pub open spec fn mask_bit(byte: u8) -> bool {
    (0x80u8 & byte) >> 7 != 0
}

/// The seven-bit length field of a second header byte.
pub open spec fn length_field(byte: u8) -> u8 {
    0x7Fu8 & byte
}

/// Whether `opcode` may not open a frame while `frame_index` frames of a
/// fragmented message have been read: reserved opcodes never may, a
/// continuation needs a message in progress, and a new text or binary frame
/// needs none.
pub open spec fn opcode_out_of_place(frame_index: usize, opcode: Opcode) -> bool {
    ||| opcode.is_reserved()
    ||| (frame_index == 0 && opcode == Opcode::Continuation)
    ||| (frame_index > 0 && (opcode == Opcode::Text || opcode == Opcode::Binary))
}

/// Whether a first header byte breaks the framing rules.
pub open spec fn first_byte_rejected(frame_index: usize, byte: u8) -> bool {
    rsv_bits(byte) != 0 || opcode_out_of_place(frame_index, opcode_of(byte))
}

/// Whether a control frame is fragmented or declares more than 125 bytes.
pub open spec fn control_frame_rejected(opcode: Opcode, fin: bool, length_field: u8) -> bool {
    opcode.is_control() && (length_field > 125 || !fin)
}

/// How many bytes of extended length follow a length field.
pub open spec fn extended_length_size(length_field: u8) -> nat {
    if length_field <= 125 {
        0
    } else if length_field == 126 {
        2
    } else {
        8
    }
}

/// The payload length that a length field and the bytes after it declare.
pub open spec fn declared_length(length_field: u8, input: Seq<u8>) -> usize
    recommends
        input.len() >= extended_length_size(length_field),
{
    if length_field <= 125 {
        length_field as usize
    } else if length_field == 126 {
        from_be16(input.take(2)) as usize
    } else {
        from_be64(input.take(8)) as usize
    }
}

/// `data` with the masking key applied, where the first byte of `data` is
/// byte number `offset` of its payload: byte `i` is combined with key byte
/// `(offset + i) % 4`. Masking and unmasking are the same operation.
pub open spec fn unmask(data: Seq<u8>, key: Seq<u8>, offset: nat) -> Seq<u8>
    recommends
        key.len() == 4,
{
    Seq::new(data.len(), |i: int| data[i] ^ key[(offset + i) % 4])
}

impl BuilderView {
    /// A decoder that has read nothing of the next frame.
    pub open spec fn fresh(frame_index: usize) -> BuilderView {
        BuilderView {
            frame_index,
            first_byte_readed: false,
            fin: false,
            rsv: 0,
            opcode: Opcode::Unset,
            second_byte_readed: false,
            mask: false,
            payload_len: 0,
            masking_key_readed: false,
            masking_key: seq![0u8, 0u8, 0u8, 0u8],
            buf_len_readed: false,
            buf_len: 0,
            payload: Seq::<u8>::empty(),
        }
    }

    /// The state after a reset: nothing read of the next frame. The frame
    /// index stays, and so does the stale declared length, which the next
    /// frame overwrites before it is read.
    pub open spec fn reset(self) -> BuilderView {
        BuilderView { buf_len: self.buf_len, ..BuilderView::fresh(self.frame_index) }
    }

    /// Whether no stage of the next frame has been read.
    pub open spec fn at_frame_start(self) -> bool {
        &&& !self.first_byte_readed
        &&& !self.second_byte_readed
        &&& !self.buf_len_readed
        &&& !self.masking_key_readed
        &&& self.payload.len() == 0
    }

    /// The invariant of the decoder: the key has four bytes, and no more
    /// payload has been gathered than the header declared.
    pub open spec fn wf(self) -> bool {
        &&& self.masking_key.len() == 4
        &&& if self.buf_len_readed {
            self.payload.len() <= self.buf_len
        } else {
            self.payload.len() == 0
        }
    }

    /// The frame that the fields read so far and the gathered payload make.
    pub open spec fn snapshot(self) -> FrameView {
        FrameView {
            fin: self.fin,
            rsv: self.rsv,
            opcode: self.opcode,
            mask: self.mask,
            payload_len: self.payload_len,
            buf_len: self.buf_len,
            masking_key: self.masking_key,
            payload: self.payload,
        }
    }
}

/// The call ends for want of input.
pub open spec fn need_more(state: BuilderView, rest: Seq<u8>) -> BuildOutcome {
    BuildOutcome { state, rest, frame: None }
}

/// The call ends on a violation of the framing rules, with the close frame
/// that reports it.
pub open spec fn protocol_error(state: BuilderView, rest: Seq<u8>) -> BuildOutcome {
    BuildOutcome { state, rest, frame: Some(FrameView::close_with_code(PROTOCOL_ERROR)) }
}

/// The payload stage. An unmasked frame is a violation. Otherwise as many
/// bytes as the payload still lacks, or as many as there are, leave the
/// input and join the payload unmasked; once the payload is whole, the
/// frame is handed out and the gathered payload with it.
#[verifier::opaque]
pub open spec fn read_payload(s: BuilderView, input: Seq<u8>) -> BuildOutcome {
    if !s.mask {
        protocol_error(s, input)
    } else {
        let missing = s.buf_len - s.payload.len();
        let n = if input.len() < missing {
            input.len() as int
        } else {
            missing
        };
        let gathered = BuilderView {
            payload: s.payload + unmask(input.take(n), s.masking_key, s.payload.len()),
            ..s
        };
        if gathered.payload.len() == s.buf_len {
            BuildOutcome {
                state: BuilderView { payload: Seq::<u8>::empty(), ..gathered },
                rest: input.skip(n),
                frame: Some(gathered.snapshot()),
            }
        } else {
            need_more(gathered, input.skip(n))
        }
    }
}

/// The masking-key stage: where the frame is masked, four bytes, all at
/// once or not at all.
#[verifier::opaque]
pub open spec fn read_masking_key(s: BuilderView, input: Seq<u8>) -> BuildOutcome {
    if s.mask && !s.masking_key_readed {
        if input.len() < 4 {
            need_more(s, input)
        } else {
            read_payload(
                BuilderView { masking_key: input.take(4), masking_key_readed: true, ..s },
                input.skip(4),
            )
        }
    } else {
        read_payload(s, input)
    }
}

/// The length stage: the length field itself up to 125, else the two or
/// eight bytes of extended length, all at once or not at all.
#[verifier::opaque]
pub open spec fn read_length(s: BuilderView, input: Seq<u8>) -> BuildOutcome {
    if !s.buf_len_readed {
        let size = extended_length_size(s.payload_len);
        if input.len() < size {
            need_more(s, input)
        } else {
            read_masking_key(
                BuilderView {
                    buf_len: declared_length(s.payload_len, input),
                    buf_len_readed: true,
                    ..s
                },
                input.skip(size as int),
            )
        }
    } else {
        read_masking_key(s, input)
    }
}

/// The stage of the second header byte: the mask bit and the length field.
/// A control frame that is fragmented or too long is a violation.
#[verifier::opaque]
pub open spec fn read_second_byte(s: BuilderView, input: Seq<u8>) -> BuildOutcome {
    if !s.second_byte_readed {
        if input.len() == 0 {
            need_more(s, input)
        } else {
            let read = BuilderView {
                mask: mask_bit(input[0]),
                payload_len: length_field(input[0]),
                second_byte_readed: true,
                ..s
            };
            if control_frame_rejected(read.opcode, read.fin, read.payload_len) {
                protocol_error(read, input.skip(1))
            } else {
                read_length(read, input.skip(1))
            }
        }
    } else {
        read_length(s, input)
    }
}

/// What one call of the decoder does in state `s` on `input`, from the
/// stage of the first header byte on. Reserved bits that are set, and an
/// opcode that is reserved or out of place, are violations; the fields read
/// up to the violation stay in the state.
#[verifier::opaque]
pub open spec fn spec_build(s: BuilderView, input: Seq<u8>) -> BuildOutcome {
    if !s.first_byte_readed {
        if input.len() == 0 {
            need_more(s, input)
        } else {
            let byte = input[0];
            let flags = BuilderView { fin: fin_bit(byte), rsv: rsv_bits(byte), ..s };
            if rsv_bits(byte) != 0 {
                protocol_error(flags, input.skip(1))
            } else if opcode_out_of_place(s.frame_index, opcode_of(byte)) {
                protocol_error(BuilderView { opcode: opcode_of(byte), ..flags }, input.skip(1))
            } else {
                read_second_byte(
                    BuilderView { opcode: opcode_of(byte), first_byte_readed: true, ..flags },
                    input.skip(1),
                )
            }
        }
    } else {
        read_second_byte(s, input)
    }
}

impl View for Builder {
    type V = BuilderView;

    closed spec fn view(&self) -> BuilderView {
        BuilderView {
            frame_index: self.frame_index,
            first_byte_readed: self.first_byte_readed,
            fin: self.fin,
            rsv: self.rsv,
            opcode: self.opcode,
            second_byte_readed: self.second_byte_readed,
            mask: self.mask,
            payload_len: self.payload_len,
            masking_key_readed: self.masking_key_readed,
            masking_key: self.masking_key@,
            buf_len_readed: self.buf_len_readed,
            buf_len: self.buf_len,
            payload: buffered(self.buf),
        }
    }
}

impl Default for Builder {
    fn default() -> (builder: Self)
        ensures
            builder@ == BuilderView::fresh(0),
            builder.wf(),
    {
        let builder = Builder {
            frame_index: 0,
            first_byte_readed: false,
            fin: false,
            rsv: 0,
            opcode: Opcode::Unset,
            second_byte_readed: false,
            mask: false,
            payload_len: 0,
            masking_key_readed: false,
            masking_key: [0, 0, 0, 0],
            buf_len_readed: false,
            buf_len: 0,
            buf: new_buffer(),
        };
        assert(builder.masking_key@ =~= seq![0u8, 0u8, 0u8, 0u8]);
        builder
    }
}

/// Moves the first `n` bytes of `input` to the end of `acc`, unmasking each
/// with the key byte that its place in the payload calls for.
fn unmask_into(acc: &mut BytesMut, input: &mut BytesMut, key: &[u8; 4], n: usize)
    requires
        n <= buffered(*old(input)).len(),
        buffered(*old(acc)).len() + n <= usize::MAX,
    ensures
        buffered(*final(acc)) == buffered(*old(acc)) + unmask(
            buffered(*old(input)).take(n as int),
            key@,
            buffered(*old(acc)).len(),
        ),
        buffered(*final(input)) == buffered(*old(input)).skip(n as int),
{
    let ghost acc0 = buffered(*acc);
    let ghost input0 = buffered(*input);
    let offset: usize = buffer_len(acc);
    let mut i: usize = 0;
    while i < n
        invariant
            i <= n,
            n <= input0.len(),
            offset == acc0.len(),
            offset + n <= usize::MAX,
            buffered(*input) == input0.skip(i as int),
            buffered(*acc) == acc0 + unmask(input0.take(i as int), key@, acc0.len()),
        decreases n - i,
    {
        let byte: u8 = take_u8(input);
        let k: u8 = key[(offset + i) % 4];
        put_u8(acc, byte ^ k);
        proof {
            assert(input0.skip(i as int).skip(1) =~= input0.skip(i + 1));
            assert(acc0 + unmask(input0.take(i + 1), key@, acc0.len()) =~= (acc0 + unmask(
                input0.take(i as int),
                key@,
                acc0.len(),
            )).push(byte ^ k));
        }
        i += 1;
    }
    proof {
        assert(input0.take(0) =~= Seq::<u8>::empty());
    }
}

impl Builder {
    /// Whether the state keeps the decoder's invariant.
    pub open spec fn wf(&self) -> bool {
        self@.wf()
    }

    /// The frame index.
    pub fn frame_index(&self) -> (frame_index: usize)
        ensures
            frame_index == self@.frame_index,
    {
        self.frame_index
    }

    /// Sets the frame index and nothing else.
    pub fn set_frame_index(&mut self, frame_index: usize)
        ensures
            final(self)@ == (BuilderView { frame_index, ..old(self)@ }),
    {
        self.frame_index = frame_index;
    }

    /// Forgets what was read of the current frame. The frame index stays.
    pub fn soft_reset(&mut self)
        ensures
            final(self)@ == old(self)@.reset(),
            final(self).wf(),
    {
        self.first_byte_readed = false;
        self.fin = false;
        self.rsv = 0;
        self.opcode = Opcode::Unset;
        self.second_byte_readed = false;
        self.mask = false;
        self.payload_len = 0;
        self.masking_key_readed = false;
        self.masking_key = [0, 0, 0, 0];
        self.buf_len_readed = false;
        self.buf = new_buffer();
        assert(self.masking_key@ =~= seq![0u8, 0u8, 0u8, 0u8]);
    }

    /// The payload stage of [`Builder::build`].
    fn gather_payload(&mut self, buf: &mut BytesMut) -> (frame: Option<Frame>)
        requires
            old(self).wf(),
            old(self)@.buf_len_readed,
        ensures
            final(self)@ == read_payload(old(self)@, buffered(*old(buf))).state,
            buffered(*final(buf)) == read_payload(old(self)@, buffered(*old(buf))).rest,
            view_of(frame) == read_payload(old(self)@, buffered(*old(buf))).frame,
            final(self)@.frame_index == old(self)@.frame_index,
            frame matches Some(f) ==> f@.is_complete(),
            final(self).wf(),
    {
        reveal(read_payload);
        if !self.mask {
            return Some(Frame::create_close_with_code(PROTOCOL_ERROR));
        }
        let gathered: usize = buffer_len(&self.buf);
        let available: usize = buffer_len(buf);
        let missing: usize = self.buf_len - gathered;
        let n: usize = if available < missing {
            available
        } else {
            missing
        };
        unmask_into(&mut self.buf, buf, &self.masking_key, n);
        if buffer_len(&self.buf) != self.buf_len {
            return None;
        }
        let frame = Frame {
            fin: self.fin,
            rsv: self.rsv,
            opcode: self.opcode,
            mask: self.mask,
            payload_len: self.payload_len,
            buf_len: self.buf_len,
            masking_key: self.masking_key,
            buf: split_off_all(&mut self.buf),
        };
        Some(frame)
    }

    /// The masking-key stage of [`Builder::build`], and what follows it.
    fn take_masking_key(&mut self, buf: &mut BytesMut) -> (frame: Option<Frame>)
        requires
            old(self).wf(),
            old(self)@.buf_len_readed,
        ensures
            final(self)@ == read_masking_key(old(self)@, buffered(*old(buf))).state,
            buffered(*final(buf)) == read_masking_key(old(self)@, buffered(*old(buf))).rest,
            view_of(frame) == read_masking_key(old(self)@, buffered(*old(buf))).frame,
            final(self)@.frame_index == old(self)@.frame_index,
            frame matches Some(f) ==> f@.is_complete(),
            final(self).wf(),
    {
        reveal(read_masking_key);
        if self.mask && !self.masking_key_readed {
            if buffer_len(buf) < 4 {
                return None;
            }
            let ghost before = buffered(*buf);
            let k0: u8 = take_u8(buf);
            let k1: u8 = take_u8(buf);
            let k2: u8 = take_u8(buf);
            let k3: u8 = take_u8(buf);
            self.masking_key = [k0, k1, k2, k3];
            self.masking_key_readed = true;
            proof {
                assert(self.masking_key@ =~= before.take(4));
                assert(buffered(*buf) =~= before.skip(4));
            }
        }
        self.gather_payload(buf)
    }

    /// The length stage of [`Builder::build`], and what follows it.
    fn take_length(&mut self, buf: &mut BytesMut) -> (frame: Option<Frame>)
        requires
            old(self).wf(),
        ensures
            final(self)@ == read_length(old(self)@, buffered(*old(buf))).state,
            buffered(*final(buf)) == read_length(old(self)@, buffered(*old(buf))).rest,
            view_of(frame) == read_length(old(self)@, buffered(*old(buf))).frame,
            final(self)@.frame_index == old(self)@.frame_index,
            frame matches Some(f) ==> f@.is_complete(),
            final(self).wf(),
    {
        reveal(read_length);
        if !self.buf_len_readed {
            if self.payload_len <= 125 {
                self.buf_len = self.payload_len as usize;
                assert(buffered(*buf).skip(0) =~= buffered(*buf));
            } else if self.payload_len == 126 {
                if buffer_len(buf) < 2 {
                    return None;
                }
                self.buf_len = take_u16(buf) as usize;
            } else {
                if buffer_len(buf) < 8 {
                    return None;
                }
                self.buf_len = #[verifier::truncate]
                (take_u64(buf) as usize);
            }
            self.buf_len_readed = true;
        }
        self.take_masking_key(buf)
    }

    /// The stage of the second header byte of [`Builder::build`], and what
    /// follows it.
    fn take_second_byte(&mut self, buf: &mut BytesMut) -> (frame: Option<Frame>)
        requires
            old(self).wf(),
        ensures
            final(self)@ == read_second_byte(old(self)@, buffered(*old(buf))).state,
            buffered(*final(buf)) == read_second_byte(old(self)@, buffered(*old(buf))).rest,
            view_of(frame) == read_second_byte(old(self)@, buffered(*old(buf))).frame,
            final(self)@.frame_index == old(self)@.frame_index,
            frame matches Some(f) ==> f@.is_complete(),
            final(self).wf(),
    {
        reveal(read_second_byte);
        if !self.second_byte_readed {
            if buffer_len(buf) == 0 {
                return None;
            }
            let byte: u8 = take_u8(buf);
            self.mask = (0x80u8 & byte) >> 7 != 0;
            self.payload_len = 0x7Fu8 & byte;
            self.second_byte_readed = true;
            if self.opcode.is_control() && (self.payload_len > 125 || !self.fin) {
                return Some(Frame::create_close_with_code(PROTOCOL_ERROR));
            }
        }
        self.take_length(buf)
    }

    /// Reads as much of the next frame as `buf` holds, and hands the frame
    /// out once it is whole. A violation of the framing rules yields a close
    /// frame with status 1002 in its place. `None` asks for more input.
    pub fn build(&mut self, buf: &mut BytesMut) -> (frame: Option<Frame>)
        requires
            old(self).wf(),
        ensures
            final(self)@ == spec_build(old(self)@, buffered(*old(buf))).state,
            buffered(*final(buf)) == spec_build(old(self)@, buffered(*old(buf))).rest,
            view_of(frame) == spec_build(old(self)@, buffered(*old(buf))).frame,
            final(self)@.frame_index == old(self)@.frame_index,
            frame matches Some(f) ==> f@.is_complete(),
            final(self).wf(),
    {
        reveal(spec_build);
        if !self.first_byte_readed {
            if buffer_len(buf) == 0 {
                return None;
            }
            let byte: u8 = take_u8(buf);
            self.fin = (0x80u8 & byte) >> 7 != 0;
            self.rsv = (0x70u8 & byte) >> 4;
            if self.rsv != 0 {
                return Some(Frame::create_close_with_code(PROTOCOL_ERROR));
            }
            self.opcode = Opcode::from_header_byte(byte);
            if matches!(self.opcode, Opcode::RsvControl | Opcode::RsvNonControl) || (
            self.frame_index == 0 && self.opcode == Opcode::Continuation) || (self.frame_index > 0
                && matches!(self.opcode, Opcode::Text | Opcode::Binary)) {
                return Some(Frame::create_close_with_code(PROTOCOL_ERROR));
            }
            self.first_byte_readed = true;
        }
        self.take_second_byte(buf)
    }
}

} // verus!
