//! What holds of the decoder, the codec and the receiving side as a whole,
//! stated over their specifications and proved.

use crate::buffer::{be16, be64, from_be16, from_be64};
use crate::codec::{header_byte, length_prefix, spec_decode, wire_encoding};
use crate::frame::builder::{
    control_frame_rejected, declared_length, extended_length_size, fin_bit, length_field,
    mask_bit, opcode_of, opcode_out_of_place, read_length, read_masking_key, read_payload,
    read_second_byte, rsv_bits, spec_build, unmask, BuildOutcome, BuilderView, PROTOCOL_ERROR,
};
use crate::frame::{FrameView, Opcode};
use crate::message::MessageView;
use crate::session::{state_after, step_on, InboundView, StepView};
use vstd::prelude::*;

verus! {

/// A frame whose first byte has a reserved bit set is answered with the
/// close frame of status 1002, whatever its opcode and whatever follows it.
/// Only that one byte is consumed.
pub proof fn reserved_bits_are_rejected(s: BuilderView, input: Seq<u8>)
    requires
        !s.first_byte_readed,
        input.len() > 0,
        rsv_bits(input[0]) != 0,
    ensures
        spec_build(s, input).frame == Some(FrameView::close_with_code(PROTOCOL_ERROR)),
        spec_build(s, input).rest == input.skip(1),
        spec_decode(s, input).frame == Some(FrameView::close_with_code(PROTOCOL_ERROR)),
        spec_decode(s, input).rest == input.skip(1),
{
    reveal(spec_build);
}

/// A continuation frame that arrives while no message is in progress, and a
/// text or binary frame that arrives in the middle of one, are answered
/// with the close frame of status 1002.
pub proof fn misplaced_opcodes_are_rejected(s: BuilderView, input: Seq<u8>)
    requires
        !s.first_byte_readed,
        input.len() > 0,
        (s.frame_index == 0 && opcode_of(input[0]) == Opcode::Continuation) || (s.frame_index > 0
            && (opcode_of(input[0]) == Opcode::Text || opcode_of(input[0]) == Opcode::Binary)),
    ensures
        spec_build(s, input).frame == Some(FrameView::close_with_code(PROTOCOL_ERROR)),
        spec_build(s, input).rest == input.skip(1),
        spec_decode(s, input).frame == Some(FrameView::close_with_code(PROTOCOL_ERROR)),
        spec_decode(s, input).rest == input.skip(1),
{
    reveal(spec_build);
}

proof fn payload_stage_keeps(s: BuilderView, input: Seq<u8>)
    requires
        s.wf(),
        s.buf_len_readed,
    ensures
        read_payload(s, input).state.frame_index == s.frame_index,
        read_payload(s, input).state.wf(),
        read_payload(s, input).frame matches Some(f) ==> f.is_complete(),
{
    reveal(read_payload);
}

proof fn key_stage_keeps(s: BuilderView, input: Seq<u8>)
    requires
        s.wf(),
        s.buf_len_readed,
    ensures
        read_masking_key(s, input).state.frame_index == s.frame_index,
        read_masking_key(s, input).state.wf(),
        read_masking_key(s, input).frame matches Some(f) ==> f.is_complete(),
{
    reveal(read_masking_key);
    if s.mask && !s.masking_key_readed && input.len() >= 4 {
        payload_stage_keeps(
            BuilderView { masking_key: input.take(4), masking_key_readed: true, ..s },
            input.skip(4),
        );
    } else {
        payload_stage_keeps(s, input);
    }
}

proof fn length_stage_keeps(s: BuilderView, input: Seq<u8>)
    requires
        s.wf(),
    ensures
        read_length(s, input).state.frame_index == s.frame_index,
        read_length(s, input).state.wf(),
        read_length(s, input).frame matches Some(f) ==> f.is_complete(),
{
    reveal(read_length);
    if !s.buf_len_readed {
        let size = extended_length_size(s.payload_len);
        if input.len() >= size {
            key_stage_keeps(
                BuilderView {
                    buf_len: declared_length(s.payload_len, input),
                    buf_len_readed: true,
                    ..s
                },
                input.skip(size as int),
            );
        }
    } else {
        key_stage_keeps(s, input);
    }
}

proof fn second_byte_stage_keeps(s: BuilderView, input: Seq<u8>)
    requires
        s.wf(),
    ensures
        read_second_byte(s, input).state.frame_index == s.frame_index,
        read_second_byte(s, input).state.wf(),
        read_second_byte(s, input).frame matches Some(f) ==> f.is_complete(),
{
    reveal(read_second_byte);
    if !s.second_byte_readed {
        if input.len() > 0 {
            let read = BuilderView {
                mask: mask_bit(input[0]),
                payload_len: length_field(input[0]),
                second_byte_readed: true,
                ..s
            };
            length_stage_keeps(read, input.skip(1));
        }
    } else {
        length_stage_keeps(s, input);
    }
}

/// The frame decoder never touches the frame index, it keeps its
/// invariant, and every frame that it hands out is whole: the payload has
/// the length that the header declares.
pub proof fn build_keeps_invariant(s: BuilderView, input: Seq<u8>)
    requires
        s.wf(),
    ensures
        spec_build(s, input).state.frame_index == s.frame_index,
        spec_build(s, input).state.wf(),
        spec_build(s, input).frame matches Some(f) ==> f.is_complete(),
{
    reveal(spec_build);
    if !s.first_byte_readed {
        if input.len() > 0 {
            let byte = input[0];
            if rsv_bits(byte) == 0 && !opcode_out_of_place(s.frame_index, opcode_of(byte)) {
                second_byte_stage_keeps(
                    BuilderView {
                        opcode: opcode_of(byte),
                        first_byte_readed: true,
                        fin: fin_bit(byte),
                        rsv: rsv_bits(byte),
                        ..s
                    },
                    input.skip(1),
                );
            }
        }
    } else {
        second_byte_stage_keeps(s, input);
    }
}

/// A decoder that has read the first header byte takes up at the second.
proof fn resumes_at_second_byte(s: BuilderView, input: Seq<u8>)
    requires
        s.first_byte_readed,
    ensures
        spec_build(s, input) == read_second_byte(s, input),
{
    reveal(spec_build);
}

/// A decoder that has read both header bytes takes up at the length.
proof fn resumes_at_length(s: BuilderView, input: Seq<u8>)
    requires
        s.first_byte_readed,
        s.second_byte_readed,
    ensures
        spec_build(s, input) == read_length(s, input),
{
    resumes_at_second_byte(s, input);
    reveal(read_second_byte);
}

/// A decoder that has read the length takes up at the masking key.
proof fn resumes_at_key(s: BuilderView, input: Seq<u8>)
    requires
        s.first_byte_readed,
        s.second_byte_readed,
        s.buf_len_readed,
    ensures
        spec_build(s, input) == read_masking_key(s, input),
{
    resumes_at_length(s, input);
    reveal(read_length);
}

/// A decoder that has read the masking key takes up at the payload.
proof fn resumes_at_payload(s: BuilderView, input: Seq<u8>)
    requires
        s.first_byte_readed,
        s.second_byte_readed,
        s.buf_len_readed,
        s.mask ==> s.masking_key_readed,
    ensures
        spec_build(s, input) == read_payload(s, input),
{
    resumes_at_key(s, input);
    reveal(read_masking_key);
}

/// How one call on `a + b` relates to a call on `a` alone: where the call
/// on `a` yields a frame, the call on `a + b` yields the same and leaves
/// `b` behind as well; where it asks for more, `resumed` is what the next
/// call makes of the state and the rest it left, with `b` behind them.
pub open spec fn splits_as(first: BuildOutcome, whole: BuildOutcome, b: Seq<u8>, resumed: BuildOutcome) -> bool {
    match first.frame {
        Some(_) => whole == (BuildOutcome { rest: first.rest + b, ..first }),
        None => whole == resumed,
    }
}

proof fn payload_stage_splits(s: BuilderView, a: Seq<u8>, b: Seq<u8>)
    requires
        s.wf(),
        s.first_byte_readed,
        s.second_byte_readed,
        s.buf_len_readed,
        s.mask ==> s.masking_key_readed,
    ensures
        splits_as(
            read_payload(s, a),
            read_payload(s, a + b),
            b,
            spec_build(read_payload(s, a).state, read_payload(s, a).rest + b),
        ),
{
    reveal(read_payload);
    let first = read_payload(s, a);
    let whole = read_payload(s, a + b);
    resumes_at_payload(first.state, first.rest + b);
    if !s.mask {
        assert(a + b =~= first.rest + b);
    } else {
        let missing = s.buf_len - s.payload.len();
        if a.len() < missing {
            let n = if b.len() < missing - a.len() {
                b.len() as int
            } else {
                missing - a.len()
            };
            let offset = s.payload.len();
            assert(a.take(a.len() as int) =~= a);
            assert(a.skip(a.len() as int) =~= Seq::<u8>::empty());
            assert(first.rest + b =~= b);
            assert((a + b).skip(a.len() + n) =~= b.skip(n));
            assert(s.payload + unmask((a + b).take(a.len() + n), s.masking_key, offset) =~= (
            s.payload + unmask(a, s.masking_key, offset)) + unmask(
                b.take(n),
                s.masking_key,
                (s.payload + unmask(a, s.masking_key, offset)).len(),
            ));
        } else {
            assert((a + b).take(missing) =~= a.take(missing));
            assert((a + b).skip(missing) =~= a.skip(missing) + b);
        }
    }
}

proof fn key_stage_splits(s: BuilderView, a: Seq<u8>, b: Seq<u8>)
    requires
        s.wf(),
        s.first_byte_readed,
        s.second_byte_readed,
        s.buf_len_readed,
    ensures
        splits_as(
            read_masking_key(s, a),
            read_masking_key(s, a + b),
            b,
            spec_build(read_masking_key(s, a).state, read_masking_key(s, a).rest + b),
        ),
{
    reveal(read_masking_key);
    if s.mask && !s.masking_key_readed {
        if a.len() < 4 {
            resumes_at_key(s, a + b);
        } else {
            let keyed = BuilderView { masking_key: a.take(4), masking_key_readed: true, ..s };
            assert((a + b).take(4) =~= a.take(4));
            assert((a + b).skip(4) =~= a.skip(4) + b);
            payload_stage_splits(keyed, a.skip(4), b);
        }
    } else {
        payload_stage_splits(s, a, b);
    }
}

proof fn length_stage_splits(s: BuilderView, a: Seq<u8>, b: Seq<u8>)
    requires
        s.wf(),
        s.first_byte_readed,
        s.second_byte_readed,
    ensures
        splits_as(
            read_length(s, a),
            read_length(s, a + b),
            b,
            spec_build(read_length(s, a).state, read_length(s, a).rest + b),
        ),
{
    reveal(read_length);
    if !s.buf_len_readed {
        let size = extended_length_size(s.payload_len);
        if a.len() < size {
            resumes_at_length(s, a + b);
        } else {
            let sized = BuilderView {
                buf_len: declared_length(s.payload_len, a),
                buf_len_readed: true,
                ..s
            };
            assert((a + b).take(2) =~= a.take(2) || a.len() < 2);
            assert((a + b).take(8) =~= a.take(8) || a.len() < 8);
            assert((a + b).skip(size as int) =~= a.skip(size as int) + b);
            key_stage_splits(sized, a.skip(size as int), b);
        }
    } else {
        key_stage_splits(s, a, b);
    }
}

proof fn second_byte_stage_splits(s: BuilderView, a: Seq<u8>, b: Seq<u8>)
    requires
        s.wf(),
        s.first_byte_readed,
    ensures
        splits_as(
            read_second_byte(s, a),
            read_second_byte(s, a + b),
            b,
            spec_build(read_second_byte(s, a).state, read_second_byte(s, a).rest + b),
        ),
{
    reveal(read_second_byte);
    if !s.second_byte_readed {
        if a.len() == 0 {
            assert(a + b =~= b);
            resumes_at_second_byte(s, a + b);
        } else {
            let read = BuilderView {
                mask: mask_bit(a[0]),
                payload_len: length_field(a[0]),
                second_byte_readed: true,
                ..s
            };
            assert((a + b)[0] == a[0]);
            assert((a + b).skip(1) =~= a.skip(1) + b);
            if !control_frame_rejected(
                read.opcode,
                read.fin,
                read.payload_len,
            ) {
                length_stage_splits(read, a.skip(1), b);
            }
        }
    } else {
        length_stage_splits(s, a, b);
    }
}

/// Input may be cut anywhere. Where a call of the frame decoder on `a`
/// yields a frame, a call on `a + b` yields the same frame and state and
/// leaves `b` behind as well. Where the call on `a` asks for more, a second
/// call, on what the first left followed by `b`, ends exactly as one call on
/// `a + b` does.
pub proof fn build_splits(s: BuilderView, a: Seq<u8>, b: Seq<u8>)
    requires
        s.wf(),
    ensures
        splits_as(
            spec_build(s, a),
            spec_build(s, a + b),
            b,
            spec_build(spec_build(s, a).state, spec_build(s, a).rest + b),
        ),
{
    reveal(spec_build);
    if !s.first_byte_readed {
        if a.len() > 0 {
            let byte = a[0];
            assert((a + b)[0] == a[0]);
            assert((a + b).skip(1) =~= a.skip(1) + b);
            if rsv_bits(byte) == 0 && !opcode_out_of_place(
                s.frame_index,
                opcode_of(byte),
            ) {
                let read = BuilderView {
                    opcode: opcode_of(byte),
                    first_byte_readed: true,
                    fin: fin_bit(byte),
                    rsv: rsv_bits(byte),
                    ..s
                };
                second_byte_stage_splits(read, a.skip(1), b);
            }
        } else {
            assert(a + b =~= b);
            assert(spec_build(s, a).rest + b =~= b);
        }
    } else {
        second_byte_stage_splits(s, a, b);
    }
}

/// The same holds of the codec: where a call on `a` yields a frame, a call
/// on `a + b` yields the same and leaves `b` behind as well; where it asks
/// for more, a second call, on what the first left followed by `b`, ends
/// exactly as one call on `a + b` does.
pub proof fn decode_splits(s: BuilderView, a: Seq<u8>, b: Seq<u8>)
    requires
        s.wf(),
    ensures
        splits_as(
            spec_decode(s, a),
            spec_decode(s, a + b),
            b,
            spec_decode(spec_decode(s, a).state, spec_decode(s, a).rest + b),
        ),
        spec_decode(s, a).frame is None ==> spec_decode(s, a).state.wf(),
{
    if a.len() > 0 {
        build_splits(s, a, b);
        build_keeps_invariant(s, a);
        if b.len() == 0 {
            assert(a + b =~= a);
            assert(spec_build(s, a).rest + b =~= spec_build(s, a).rest);
        }
    }
}

/// The chunks of an input, put together again.
pub open spec fn joined(chunks: Seq<Seq<u8>>) -> Seq<u8>
    decreases chunks.len(),
{
    if chunks.len() == 0 {
        Seq::<u8>::empty()
    } else {
        chunks[0] + joined(chunks.skip(1))
    }
}

/// What comes of handing the codec its input chunk by chunk. Each call sees
/// what the call before it left, followed by the next chunk. The first
/// frame ends the run, and the chunks not yet seen stay behind it.
pub open spec fn decode_chunks(s: BuilderView, pending: Seq<u8>, chunks: Seq<Seq<u8>>) -> BuildOutcome
    decreases chunks.len(),
{
    if chunks.len() == 0 {
        spec_decode(s, pending)
    } else {
        let out = spec_decode(s, pending + chunks[0]);
        match out.frame {
            Some(_) => BuildOutcome { rest: out.rest + joined(chunks.skip(1)), ..out },
            None => decode_chunks(out.state, out.rest, chunks.skip(1)),
        }
    }
}

/// However the input is cut into chunks, byte by byte or not at all, the
/// codec ends with the same frame, the same state and the same bytes left
/// over as on the whole input at once. The unmasked payload is part of
/// that frame.
pub proof fn chunking_does_not_matter(s: BuilderView, pending: Seq<u8>, chunks: Seq<Seq<u8>>)
    requires
        s.wf(),
    ensures
        decode_chunks(s, pending, chunks) == spec_decode(s, pending + joined(chunks)),
    decreases chunks.len(),
{
    if chunks.len() == 0 {
        assert(pending + joined(chunks) =~= pending);
    } else {
        let a = pending + chunks[0];
        let b = joined(chunks.skip(1));
        assert(a + b =~= pending + joined(chunks));
        decode_splits(s, a, b);
        let out = spec_decode(s, a);
        if out.frame is None {
            chunking_does_not_matter(out.state, out.rest, chunks.skip(1));
        }
    }
}

/// The length bytes follow the rule of the protocol: one byte up to 125;
/// the marker 126 and sixteen bits up to 65535; the marker 127 and
/// sixty-four bits beyond. Read back as a big-endian number, the extended
/// bytes give the length again.
pub proof fn length_prefix_follows_the_rule(len: nat)
    requires
        len <= u64::MAX,
    ensures
        len <= 125 ==> length_prefix(len) == seq![len as u8],
        125 < len <= 65535 ==> length_prefix(len).len() == 3 && length_prefix(len)[0] == 126
            && from_be16(length_prefix(len).skip(1)) == len,
        65535 < len ==> length_prefix(len).len() == 9 && length_prefix(len)[0] == 127
            && from_be64(length_prefix(len).skip(1)) == len,
{
    if 125 < len <= 65535 {
        be16_reads_back(len as u16);
        assert(length_prefix(len).skip(1) =~= be16(len as u16));
    } else if 65535 < len {
        be64_reads_back(len as u64);
        assert(length_prefix(len).skip(1) =~= be64(len as u64));
    }
}

proof fn be16_reads_back(n: u16)
    ensures
        from_be16(be16(n)) == n,
{
    assert(((((n >> 8) as u8) as u16) << 8) | (((n & 0xFF) as u8) as u16) == n) by (bit_vector);
}

proof fn be64_reads_back(n: u64)
    ensures
        from_be64(be64(n)) == n,
{
    assert(((((n >> 56) as u8) as u64) << 56) | (((((n >> 48) & 0xFF) as u8) as u64) << 48) | (((((n
        >> 40) & 0xFF) as u8) as u64) << 40) | (((((n >> 32) & 0xFF) as u8) as u64) << 32) | (((((n
        >> 24) & 0xFF) as u8) as u64) << 24) | (((((n >> 16) & 0xFF) as u8) as u64) << 16) | (((((n
        >> 8) & 0xFF) as u8) as u64) << 8) | (((n & 0xFF) as u8) as u64) == n) by (bit_vector);
}

/// The length bytes as a client sends them: with the mask bit set.
pub open spec fn masked_length_prefix(len: nat) -> Seq<u8>
    recommends
        len <= u64::MAX,
{
    length_prefix(len).update(0, length_prefix(len)[0] | 0x80)
}

/// The frame that carries a message as a client sends it: the header byte
/// and length bytes that the encoder writes, with the mask bit set, then the
/// masking key, then the payload masked with it.
pub open spec fn masked_encoding(m: MessageView, key: Seq<u8>) -> Seq<u8>
    recommends
        m.has_kind(),
        key.len() == 4,
{
    seq![header_byte(m)] + masked_length_prefix(m.payload.len()) + key + unmask(m.payload, key, 0)
}

/// The frame that the decoder makes of a masked text or binary message.
pub open spec fn data_frame_of(m: MessageView, key: Seq<u8>) -> FrameView {
    FrameView {
        fin: true,
        rsv: 0,
        opcode: if m.is_text {
            Opcode::Text
        } else {
            Opcode::Binary
        },
        mask: true,
        payload_len: length_prefix(m.payload.len())[0],
        buf_len: m.payload.len() as usize,
        masking_key: key,
        payload: m.payload,
    }
}

/// Masking twice with one key gives the data back.
pub proof fn unmask_undoes_mask(data: Seq<u8>, key: Seq<u8>, offset: nat)
    requires
        key.len() == 4,
    ensures
        unmask(unmask(data, key, offset), key, offset) == data,
{
    assert forall|i: int| 0 <= i < data.len() implies unmask(
        unmask(data, key, offset),
        key,
        offset,
    )[i] == data[i] by {
        let x = data[i];
        let k = key[(offset + i) % 4];
        assert((x ^ k) ^ k == x) by (bit_vector);
    }
    assert(unmask(unmask(data, key, offset), key, offset) =~= data);
}

/// A text or binary message that the encoder has framed comes back from
/// the decoder, once masked as a client's frames are: with no message in
/// progress, the decoder reads the whole frame, leaves nothing over, and
/// yields a final frame of the message's kind with the message's payload.
/// The encoder's own output is unmasked, which the decoder refuses; the
/// mask is what a client adds.
pub proof fn encoding_round_trips(s: BuilderView, m: MessageView, key: Seq<u8>)
    requires
        s.at_frame_start(),
        s.frame_index == 0,
        m == MessageView::text(m.payload) || m == MessageView::binary(m.payload),
        key.len() == 4,
        m.payload.len() <= usize::MAX,
    ensures
        wire_encoding(m) == seq![header_byte(m)] + length_prefix(m.payload.len()) + m.payload,
        spec_decode(s, masked_encoding(m, key)) == (BuildOutcome {
            state: BuilderView { buf_len: m.payload.len() as usize, ..BuilderView::fresh(0) },
            rest: Seq::<u8>::empty(),
            frame: Some(data_frame_of(m, key)),
        }),
{
    let len = m.payload.len();
    let header = header_byte(m);
    let prefix = masked_length_prefix(len);
    let masked = unmask(m.payload, key, 0);
    let input = masked_encoding(m, key);
    let opcode = if m.is_text {
        Opcode::Text
    } else {
        Opcode::Binary
    };
    // The first byte.
    assert((0x80u8 & 0x81u8) >> 7 != 0 && (0x70u8 & 0x81u8) >> 4 == 0 && 0x81u8 & 0x0F == 1)
        by (bit_vector);
    assert((0x80u8 & 0x82u8) >> 7 != 0 && (0x70u8 & 0x82u8) >> 4 == 0 && 0x82u8 & 0x0F == 2)
        by (bit_vector);
    assert(input.len() > 0 && input[0] == header);
    let r1 = prefix + key + masked;
    assert(input.skip(1) =~= r1);
    let s1 = BuilderView { fin: true, rsv: 0, opcode, first_byte_readed: true, ..s };
    assert(spec_build(s, input) == read_second_byte(s1, r1)) by {
        reveal(spec_build);
    }
    // The second byte.
    let field = length_prefix(len)[0];
    assert(r1[0] == field | 0x80);
    assert((0x80u8 & (field | 0x80)) >> 7 != 0 && 0x7Fu8 & (field | 0x80) == field) by (bit_vector)
        requires
            field <= 127,
    ;
    let extended = length_prefix(len).skip(1);
    let r2 = extended + key + masked;
    assert(r1.skip(1) =~= r2);
    let s2 = BuilderView { mask: true, payload_len: field, second_byte_readed: true, ..s1 };
    assert(read_second_byte(s1, r1) == read_length(s2, r2)) by {
        reveal(read_second_byte);
    }
    // The length.
    let r3 = key + masked;
    if 125 < len <= 65535 {
        be16_reads_back(len as u16);
        assert(extended =~= be16(len as u16));
        assert(r2.take(2) =~= be16(len as u16));
    } else if 65535 < len {
        be64_reads_back(len as u64);
        assert(extended =~= be64(len as u64));
        assert(r2.take(8) =~= be64(len as u64));
    }
    assert(declared_length(field, r2) == len);
    assert(r2.skip(extended.len() as int) =~= r3);
    let s3 = BuilderView { buf_len: len as usize, buf_len_readed: true, ..s2 };
    assert(read_length(s2, r2) == read_masking_key(s3, r3)) by {
        reveal(read_length);
    }
    // The masking key.
    assert(r3.take(4) =~= key);
    assert(r3.skip(4) =~= masked);
    let s4 = BuilderView { masking_key: key, masking_key_readed: true, ..s3 };
    assert(read_masking_key(s3, r3) == read_payload(s4, masked)) by {
        reveal(read_masking_key);
    }
    // The payload.
    unmask_undoes_mask(m.payload, key, 0);
    assert(masked.take(len as int) =~= masked);
    assert(masked.skip(len as int) =~= Seq::<u8>::empty());
    assert(s4.payload + unmask(masked, key, 0) =~= m.payload);
    assert(read_payload(s4, masked) == (BuildOutcome {
        state: BuilderView { payload: Seq::<u8>::empty(), ..s4 },
        rest: Seq::<u8>::empty(),
        frame: Some(data_frame_of(m, key)),
    })) by {
        reveal(read_payload);
    }
}

/// What the connection does, frame after frame, from state `s` on.
pub open spec fn steps_on(s: InboundView, frames: Seq<FrameView>) -> Seq<StepView>
    decreases frames.len(),
{
    if frames.len() == 0 {
        Seq::<StepView>::empty()
    } else {
        seq![step_on(s, frames[0])] + steps_on(state_after(s, frames[0]), frames.skip(1))
    }
}

/// The state after the frames have arrived one after the other.
pub open spec fn state_after_all(s: InboundView, frames: Seq<FrameView>) -> InboundView
    decreases frames.len(),
{
    if frames.len() == 0 {
        s
    } else {
        state_after_all(state_after(s, frames[0]), frames.skip(1))
    }
}

/// There is one step for each frame.
pub proof fn one_step_per_frame(s: InboundView, frames: Seq<FrameView>)
    ensures
        steps_on(s, frames).len() == frames.len(),
    decreases frames.len(),
{
    if frames.len() > 0 {
        one_step_per_frame(state_after(s, frames[0]), frames.skip(1));
    }
}

/// A ping on an open connection is answered with exactly one message, a
/// pong that carries the ping's payload. Nothing is handed to the embedder,
/// and the message in progress, if any, is left as it was.
pub proof fn ping_is_answered_with_pong(s: InboundView, frame: FrameView)
    requires
        !s.closed,
        frame.opcode == Opcode::Ping,
    ensures
        step_on(s, frame) == StepView::Reply(MessageView::pong(frame.payload)),
        state_after(s, frame) == s,
{
}

/// Once the connection has ended, no frame has any effect.
pub proof fn nothing_after_the_end(s: InboundView, frames: Seq<FrameView>)
    requires
        s.closed,
    ensures
        forall|j: int| 0 <= j < frames.len() ==> steps_on(s, frames)[j] == StepView::Finished,
        state_after_all(s, frames) == s,
    decreases frames.len(),
{
    one_step_per_frame(s, frames);
    if frames.len() > 0 {
        nothing_after_the_end(s, frames.skip(1));
        one_step_per_frame(s, frames.skip(1));
    }
}

/// The first close frame on an open connection ends it. It is answered
/// with exactly one close message, which carries its payload; no step
/// before it is a close, and every step after it is `Finished`: no message
/// is delivered or sent any more.
pub proof fn close_ends_the_stream(s: InboundView, frames: Seq<FrameView>, i: int)
    requires
        !s.closed,
        0 <= i < frames.len(),
        frames[i].opcode == Opcode::Close,
        forall|j: int| 0 <= j < i ==> frames[j].opcode != Opcode::Close,
    ensures
        steps_on(s, frames).len() == frames.len(),
        steps_on(s, frames)[i] == StepView::Close(MessageView::close(frames[i].payload)),
        forall|j: int| 0 <= j < i ==> !(steps_on(s, frames)[j] is Close),
        forall|j: int| i < j < frames.len() ==> steps_on(s, frames)[j] == StepView::Finished,
        state_after_all(s, frames).closed,
    decreases frames.len(),
{
    one_step_per_frame(s, frames);
    let next = state_after(s, frames[0]);
    let tail = frames.skip(1);
    one_step_per_frame(next, tail);
    if i == 0 {
        nothing_after_the_end(next, tail);
    } else {
        assert(tail[i - 1] == frames[i]);
        assert forall|j: int| 0 <= j < i - 1 implies tail[j].opcode != Opcode::Close by {
            assert(tail[j] == frames[j + 1]);
        }
        close_ends_the_stream(next, tail, i - 1);
        assert forall|j: int| 0 <= j < i implies !(steps_on(s, frames)[j] is Close) by {
            if j > 0 {
                assert(steps_on(s, frames)[j] == steps_on(next, tail)[j - 1]);
            }
        }
        assert forall|j: int| i < j < frames.len() implies steps_on(s, frames)[j]
            == StepView::Finished by {
            assert(steps_on(s, frames)[j] == steps_on(next, tail)[j - 1]);
        }
    }
}

/// A text message sent in three fragments, a text frame and two
/// continuations of which the last is final, is delivered once, with the
/// third frame, as one text message whose payload is the three payloads in
/// order.
pub proof fn three_fragments_make_one_message(first: FrameView, second: FrameView, third: FrameView)
    requires
        first.opcode == Opcode::Text && !first.fin,
        second.opcode == Opcode::Continuation && !second.fin,
        third.opcode == Opcode::Continuation && third.fin,
    ensures
        steps_on(InboundView::idle(), seq![first, second, third]) == seq![
            StepView::Continue,
            StepView::Continue,
            StepView::Deliver(MessageView::text(first.payload + second.payload + third.payload)),
        ],
        state_after_all(InboundView::idle(), seq![first, second, third]) == InboundView::idle(),
{
    let frames = seq![first, second, third];
    let s0 = InboundView::idle();
    let s1 = state_after(s0, first);
    let s2 = state_after(s1, second);
    let s3 = state_after(s2, third);
    assert(frames.skip(1) =~= seq![second, third]);
    assert(seq![second, third].skip(1) =~= seq![third]);
    assert(seq![third].skip(1) =~= Seq::<FrameView>::empty());
    let all = s2.frames.push(third);
    assert(all =~= frames);
    assert(crate::message::joined_payloads(all) =~= first.payload + second.payload + third.payload) by {
        reveal_with_fuel(crate::message::joined_payloads, 4);
        assert(all.drop_last() =~= seq![first, second]);
        assert(all.drop_last().drop_last() =~= seq![first]);
        assert(all.drop_last().drop_last().drop_last() =~= Seq::<FrameView>::empty());
    }
    reveal_with_fuel(steps_on, 4);
    reveal_with_fuel(state_after_all, 4);
    assert(steps_on(s0, frames) =~= seq![
        StepView::Continue,
        StepView::Continue,
        StepView::Deliver(MessageView::text(first.payload + second.payload + third.payload)),
    ]);
}

} // verus!
