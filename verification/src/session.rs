//! What a connection does with each frame that arrives.
//!
//! The connection reads frames and sends messages; what to do with a frame
//! is decided here. [`Inbound`] holds the data frames of the message in
//! progress and whether the connection was closed. [`Inbound::on_frame`]
//! takes one frame and says what the connection is to do next. The sending
//! side writes what it is handed, in order, until [`ends_sending`] says stop.

use crate::frame::{Frame, FrameView, Opcode};
use crate::message::{views_of, Message, MessageView};
use vstd::prelude::*;

verus! {

/// How many outbound messages may wait to be written before the senders
/// have to wait themselves.
pub const OUTBOUND_CAPACITY: usize = 100;

/// Whether the sending side stops once `msg` has been written: it does
/// after a close message, and after no other.
pub fn ends_sending(msg: &Message) -> (ends: bool)
    ensures
        ends == msg@.is_close,
{
    msg.is_close
}

/// The state of the receiving side of a connection.
#[derive(Debug)]
pub struct Inbound {
    frames: Vec<Frame>,
    closed: bool,
}

/// What the connection is to do after a frame.
#[derive(Debug)]
pub enum Step {
    /// Read the next frame.
    Continue,
    /// Send this message to the peer, then read the next frame.
    Reply(Message),
    /// Send this message to the peer and stop reading: the connection is
    /// closed and no more messages come.
    Close(Message),
    /// Hand this message to the embedder.
    Deliver(Message),
    /// The connection has ended; there is nothing more to do.
    Finished,
}

/// The receiving side as contracts speak of it.
pub struct InboundView {
    /// The data frames of the message in progress, in order of arrival.
    pub frames: Seq<FrameView>,
    /// Whether a close frame, or the end of the stream, has been seen.
    pub closed: bool,
}

/// A step as contracts speak of it.
pub enum StepView {
    Continue,
    Reply(MessageView),
    Close(MessageView),
    Deliver(MessageView),
    Finished,
}

impl InboundView {
    /// A connection on which nothing has arrived.
    pub open spec fn idle() -> InboundView {
        InboundView { frames: Seq::<FrameView>::empty(), closed: false }
    }

    /// A connection that has ended.
    pub open spec fn ended() -> InboundView {
        InboundView { frames: Seq::<FrameView>::empty(), closed: true }
    }
}

impl View for Step {
    type V = StepView;

    open spec fn view(&self) -> StepView {
        match *self {
            Step::Continue => StepView::Continue,
            Step::Reply(m) => StepView::Reply(m@),
            Step::Close(m) => StepView::Close(m@),
            Step::Deliver(m) => StepView::Deliver(m@),
            Step::Finished => StepView::Finished,
        }
    }
}

/// The state after `frame` has arrived in state `s`.
///
/// Nothing changes once the connection has ended. A close frame ends it.
/// Other control frames change nothing. A data frame joins the message in
/// progress, and the final one completes it and leaves none in progress.
pub open spec fn state_after(s: InboundView, frame: FrameView) -> InboundView {
    if s.closed {
        s
    } else if frame.opcode.is_control() {
        if frame.opcode == Opcode::Close {
            InboundView::ended()
        } else {
            s
        }
    } else if frame.fin {
        InboundView::idle()
    } else {
        InboundView { frames: s.frames.push(frame), closed: false }
    }
}

/// What the connection is to do when `frame` arrives in state `s`.
///
/// Nothing once the connection has ended. A close frame is answered with a
/// close message of the same payload, and reading stops. A ping is answered
/// with a pong of the same payload. A pong is dropped. The final data frame
/// delivers the message that it completes.
pub open spec fn step_on(s: InboundView, frame: FrameView) -> StepView {
    if s.closed {
        StepView::Finished
    } else if frame.opcode.is_control() {
        if frame.opcode == Opcode::Close {
            StepView::Close(MessageView::close(frame.payload))
        } else if frame.opcode == Opcode::Ping {
            StepView::Reply(MessageView::pong(frame.payload))
        } else {
            StepView::Continue
        }
    } else if frame.fin {
        StepView::Deliver(MessageView::assembled(s.frames.push(frame)))
    } else {
        StepView::Continue
    }
}

impl View for Inbound {
    type V = InboundView;

    closed spec fn view(&self) -> InboundView {
        InboundView { frames: views_of(self.frames@), closed: self.closed }
    }
}

impl Default for Inbound {
    fn default() -> (inbound: Self)
        ensures
            inbound@ == InboundView::idle(),
    {
        let inbound = Inbound { frames: Vec::new(), closed: false };
        assert(views_of(inbound.frames@) =~= Seq::<FrameView>::empty());
        inbound
    }
}

impl Inbound {
    /// The receiving side of a connection on which nothing has arrived.
    pub fn new() -> (inbound: Self)
        ensures
            inbound@ == InboundView::idle(),
    {
        Inbound::default()
    }

    /// Whether the connection has ended.
    pub fn is_closed(&self) -> (closed: bool)
        ensures
            closed == self@.closed,
    {
        self.closed
    }

    /// Takes the next frame and says what the connection is to do.
    pub fn on_frame(&mut self, frame: Frame) -> (step: Step)
        ensures
            step@ == step_on(old(self)@, frame@),
            final(self)@ == state_after(old(self)@, frame@),
    {
        if self.closed {
            return Step::Finished;
        }
        if frame.is_control() {
            if frame.opcode.is_close() {
                self.closed = true;
                self.frames = Vec::new();
                assert(views_of(self.frames@) =~= Seq::<FrameView>::empty());
                return Step::Close(Message::from_close(frame));
            }
            if frame.opcode.is_ping() {
                return Step::Reply(Message::create_pong_from_ping_frame(frame));
            }
            return Step::Continue;
        }
        let is_last = frame.is_last();
        let ghost before = views_of(self.frames@);
        let ghost arrived = frame@;
        self.frames.push(frame);
        assert(views_of(self.frames@) =~= before.push(arrived));
        if is_last {
            let mut whole: Vec<Frame> = Vec::new();
            std::mem::swap(&mut self.frames, &mut whole);
            assert(views_of(self.frames@) =~= Seq::<FrameView>::empty());
            return Step::Deliver(Message::from_non_control_frames(whole));
        }
        Step::Continue
    }

    /// Takes note that the stream of frames has ended, by its end or by a
    /// failure of the transport.
    pub fn on_end(&mut self) -> (step: Step)
        ensures
            step@ == StepView::Finished,
            final(self)@ == InboundView::ended(),
    {
        self.closed = true;
        self.frames = Vec::new();
        assert(views_of(self.frames@) =~= Seq::<FrameView>::empty());
        Step::Finished
    }
}

} // verus!
