//! The kind of a frame, as carried in the low four bits of its first byte.

use vstd::prelude::*;

verus! {

/// What a frame is for.
///
/// `Unset` marks a decoder that has not read an opcode yet; no finished
/// frame carries it.
#[derive(Debug, PartialEq, Eq, Clone, Copy, Structural)]
pub enum Opcode {
    /// `0x0`: a further fragment of a message already begun.
    Continuation,
    /// `0x1`: text data.
    Text,
    /// `0x2`: binary data.
    Binary,
    /// `0x3..=0x7`: reserved for future data frames.
    RsvNonControl,
    /// `0x8`: the connection is closing.
    Close,
    /// `0x9`: ping.
    Ping,
    /// `0xA`: pong.
    Pong,
    /// `0xB..=0xF`: reserved for future control frames.
    RsvControl,
    /// No opcode read yet.
    Unset,
}

impl Default for Opcode {
    fn default() -> (op: Self)
        ensures
            op == Opcode::Unset,
    {
        Opcode::Unset
    }
}

impl Opcode {
    /// The opcode that the four-bit value `nibble` stands for.
    pub open spec fn of_nibble(nibble: u8) -> Opcode {
        if nibble == 0x0 {
            Opcode::Continuation
        } else if nibble == 0x1 {
            Opcode::Text
        } else if nibble == 0x2 {
            Opcode::Binary
        } else if nibble <= 0x7 {
            Opcode::RsvNonControl
        } else if nibble == 0x8 {
            Opcode::Close
        } else if nibble == 0x9 {
            Opcode::Ping
        } else if nibble == 0xA {
            Opcode::Pong
        } else {
            Opcode::RsvControl
        }
    }

    /// Whether the opcode is one of the control kinds.
    pub open spec fn spec_is_control(&self) -> bool {
        *self == Opcode::Ping || *self == Opcode::Pong || *self == Opcode::Close || *self
            == Opcode::RsvControl
    }

    /// Whether the opcode carries application data, whole or in part.
    pub open spec fn is_data(self) -> bool {
        self == Opcode::Text || self == Opcode::Binary || self == Opcode::Continuation
    }

    /// Whether the opcode is one of the two reserved ranges.
    pub open spec fn is_reserved(self) -> bool {
        self == Opcode::RsvControl || self == Opcode::RsvNonControl
    }

    pub fn is_continuation(&self) -> (b: bool)
        ensures
            b == (*self == Opcode::Continuation),
    {
        *self == Opcode::Continuation
    }

    pub fn is_text(&self) -> (b: bool)
        ensures
            b == (*self == Opcode::Text),
    {
        *self == Opcode::Text
    }

    pub fn is_binary(&self) -> (b: bool)
        ensures
            b == (*self == Opcode::Binary),
    {
        *self == Opcode::Binary
    }

    pub fn is_rsv_non_control(&self) -> (b: bool)
        ensures
            b == (*self == Opcode::RsvNonControl),
    {
        *self == Opcode::RsvNonControl
    }

    pub fn is_close(&self) -> (b: bool)
        ensures
            b == (*self == Opcode::Close),
    {
        *self == Opcode::Close
    }

    pub fn is_ping(&self) -> (b: bool)
        ensures
            b == (*self == Opcode::Ping),
    {
        *self == Opcode::Ping
    }

    pub fn is_pong(&self) -> (b: bool)
        ensures
            b == (*self == Opcode::Pong),
    {
        *self == Opcode::Pong
    }

    pub fn is_rsv_control(&self) -> (b: bool)
        ensures
            b == (*self == Opcode::RsvControl),
    {
        *self == Opcode::RsvControl
    }

    /// True for `Ping`, `Pong`, `Close` and the reserved control range.
    #[verifier::when_used_as_spec(spec_is_control)]
    pub fn is_control(&self) -> (b: bool)
        ensures
            b == self.spec_is_control(),
    {
        matches!(*self, Opcode::Ping | Opcode::Pong | Opcode::Close | Opcode::RsvControl)
    }

    pub fn is_unset(&self) -> (b: bool)
        ensures
            b == (*self == Opcode::Unset),
    {
        *self == Opcode::Unset
    }

    /// Reads the opcode out of the first byte of a frame header.
    pub fn from_header_byte(byte: u8) -> (op: Opcode)
        ensures
            op == Opcode::of_nibble(byte & 0x0F),
            op != Opcode::Unset,
    {
        let nibble: u8 = byte & 0x0F;
        if nibble == 0x0 {
            Opcode::Continuation
        } else if nibble == 0x1 {
            Opcode::Text
        } else if nibble == 0x2 {
            Opcode::Binary
        } else if nibble <= 0x7 {
            Opcode::RsvNonControl
        } else if nibble == 0x8 {
            Opcode::Close
        } else if nibble == 0x9 {
            Opcode::Ping
        } else if nibble == 0xA {
            Opcode::Pong
        } else {
            Opcode::RsvControl
        }
    }
}

} // verus!
