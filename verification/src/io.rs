//! What a negotiation asks of its I/O stream, what the stream answers,
//! and what a step of a negotiation yields.

use vstd::prelude::*;
use crate::protocol::{HeaderLine, Message, MessageView, NegotiationError, ProtocolError};

verus! {

/// An operation on the message stream that a negotiation asks for.
#[derive(Debug, PartialEq, Eq)]
pub enum IoOp {
    /// Wait until the stream can take a message.
    PollReady,
    /// Hand a message to the stream.
    StartSend(Message),
    /// Wait until every message handed over has been sent.
    PollFlush,
    /// Wait for the next message of the remote.
    PollNext,
}

/// An operation on the message stream, as its contents.
pub ghost enum OpView {
    PollReady,
    StartSend(MessageView),
    PollFlush,
    PollNext,
}

impl View for IoOp {
    type V = OpView;

    open spec fn view(&self) -> OpView {
        match self {
            IoOp::PollReady => OpView::PollReady,
            IoOp::StartSend(m) => OpView::StartSend(m@),
            IoOp::PollFlush => OpView::PollFlush,
            IoOp::PollNext => OpView::PollNext,
        }
    }
}

/// What the stream answered to the operation asked for.
#[derive(Debug, PartialEq, Eq)]
pub enum Event {
    /// The operation cannot complete yet; it is to be tried again later.
    Pending,
    /// The stream is ready, the message was handed over, or the flush is done.
    Ready,
    /// The remote sent this message.
    Received(Message),
    /// The remote closed the stream.
    Closed,
    /// The operation failed with this error.
    Failed(ProtocolError),
}

/// Whether an event is a possible answer to an operation.
pub open spec fn event_answers(op: OpView, event: Event) -> bool {
    match op {
        OpView::PollReady | OpView::PollFlush => match event {
            Event::Pending | Event::Ready | Event::Failed(_) => true,
            _ => false,
        },
        OpView::StartSend(_) => match event {
            Event::Ready | Event::Failed(_) => true,
            _ => false,
        },
        OpView::PollNext => match event {
            Event::Pending | Event::Received(_) | Event::Closed | Event::Failed(_) => true,
            _ => false,
        },
    }
}

/// How the negotiated stream continues after the negotiation.
#[derive(Clone, Copy, Debug, PartialEq, Eq)]
pub enum NegotiatedKind {
    /// Both peers agreed on the protocol.
    Completed,
    /// The dialer settled on the protocol before the listener confirmed it;
    /// the listener's answer, preceded by this header if any, is still to be read.
    Expecting { header: Option<HeaderLine> },
}

/// The protocol that a negotiation selected.
#[derive(Clone, Copy, Debug, PartialEq, Eq)]
pub struct Selected {
    /// The position of the protocol in the list the negotiation was given.
    pub index: usize,
    /// How the stream continues.
    pub negotiated: NegotiatedKind,
}

/// What a step of a negotiation yields.
#[derive(Debug, PartialEq, Eq)]
pub enum Step {
    /// Go on with the next operation.
    Continue,
    /// Wait: the operation is to be tried again when the stream is woken.
    Pending,
    /// The negotiation is over.
    Ready(Result<Selected, NegotiationError>),
}

/// The step that ends a negotiation with an error.
pub open spec fn fail(e: NegotiationError) -> Step {
    Step::Ready(Err(e))
}

/// The step that ends a negotiation with an error of the protocol.
pub open spec fn fail_protocol(e: ProtocolError) -> Step {
    Step::Ready(Err(NegotiationError::ProtocolError(e)))
}

/// The events other than `Pending`, in order.
pub open spec fn drop_pending(events: Seq<Event>) -> Seq<Event>
    decreases events.len(),
{
    if events.len() == 0 {
        events
    } else if events.last() == Event::Pending {
        drop_pending(events.drop_last())
    } else {
        drop_pending(events.drop_last()).push(events.last())
    }
}

/// The entries of a run's trace whose event is not `Pending`, in order.
/// Each entry is the operation asked for, the stream's answer, and the step.
pub open spec fn answered(trace: Seq<(OpView, Event, Step)>) -> Seq<(OpView, Event, Step)>
    decreases trace.len(),
{
    if trace.len() == 0 {
        trace
    } else if trace.last().1 == Event::Pending {
        answered(trace.drop_last())
    } else {
        answered(trace.drop_last()).push(trace.last())
    }
}

/// The messages handed over to the stream in a run, in order.
pub open spec fn sent_messages(trace: Seq<(OpView, Event, Step)>) -> Seq<MessageView>
    decreases trace.len(),
{
    if trace.len() == 0 {
        Seq::empty()
    } else {
        let prev = sent_messages(trace.drop_last());
        match trace.last().0 {
            OpView::StartSend(m) => if trace.last().1 == Event::Ready {
                prev.push(m)
            } else {
                prev
            },
            _ => prev,
        }
    }
}

/// The messages read from the stream in a run, in order.
pub open spec fn received_messages(trace: Seq<(OpView, Event, Step)>) -> Seq<MessageView>
    decreases trace.len(),
{
    if trace.len() == 0 {
        Seq::empty()
    } else {
        let prev = received_messages(trace.drop_last());
        match trace.last().1 {
            Event::Received(m) => prev.push(m@),
            _ => prev,
        }
    }
}

/// The number of flushes that completed in a run.
pub open spec fn flushes_done(trace: Seq<(OpView, Event, Step)>) -> nat
    decreases trace.len(),
{
    if trace.len() == 0 {
        0
    } else {
        let prev = flushes_done(trace.drop_last());
        if trace.last().0 == OpView::PollFlush && trace.last().1 == Event::Ready {
            prev + 1
        } else {
            prev
        }
    }
}

/// The number of rejections read in a run.
pub open spec fn rejections_read(trace: Seq<(OpView, Event, Step)>) -> nat
    decreases trace.len(),
{
    if trace.len() == 0 {
        0
    } else {
        let prev = rejections_read(trace.drop_last());
        match trace.last().1 {
            Event::Received(m) => if m@ == MessageView::NotAvailable {
                prev + 1
            } else {
                prev
            },
            _ => prev,
        }
    }
}

} // verus!
