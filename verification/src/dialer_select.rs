//! Protocol negotiation for the peer acting as the dialer (or initiator).
//!
//! The dialer sends the header of its version together with its first
//! protocol, then proposes its protocols one after the other until the
//! listener confirms one of them.

use vstd::prelude::*;
use crate::io::{
    event_answers, fail, fail_protocol, Event, IoOp, NegotiatedKind, OpView, Selected, Step,
};
use crate::protocol::{
    bytes_eq, header_line_from, is_valid_protocol, names_view, spec_header_line, HeaderLine,
    Message, MessageView, NegotiationError, Protocol, ProtocolError, Version,
};

verus! {

/// Where a dialer stands in its negotiation.
#[derive(Clone, Copy, Debug, PartialEq, Eq, Structural)]
pub enum DialerState {
    /// Waiting for the stream to take the header.
    SendHeader,
    /// Handing the header over.
    StartHeader,
    /// Waiting for the stream to take the proposal of protocol `index`.
    SendProtocol { index: usize },
    /// Handing the proposal of protocol `index` over.
    StartProtocol { index: usize },
    /// Flushing the proposal of protocol `index`.
    FlushProtocol { index: usize },
    /// Waiting for the listener's answer to protocol `index`.
    AwaitProtocol { index: usize },
    /// The negotiation is over.
    Done,
}

/// A dialer's negotiation, as its contents.
pub ghost struct DialerView {
    /// The protocols to propose, in order.
    pub protocols: Seq<Seq<u8>>,
    /// Where the negotiation stands.
    pub state: DialerState,
    /// The version the dialer commits to.
    pub version: Version,
}

/// The protocol that a state is about, if any.
pub open spec fn dialer_index(state: DialerState) -> Option<usize> {
    match state {
        DialerState::SendProtocol { index } => Some(index),
        DialerState::StartProtocol { index } => Some(index),
        DialerState::FlushProtocol { index } => Some(index),
        DialerState::AwaitProtocol { index } => Some(index),
        _ => None,
    }
}

/// A dialer is well formed when its list of protocols fits in memory,
/// the protocol its state is about exists,
/// and is valid once its proposal is being handed over.
pub open spec fn dialer_wf(d: DialerView) -> bool {
    &&& d.protocols.len() <= usize::MAX
    &&& dialer_index(d.state) matches Some(i) ==> i < d.protocols.len()
    &&& d.state matches DialerState::StartProtocol { index } ==> is_valid_protocol(
        d.protocols[index as int],
    )
}

/// The operation that a dialer asks of the stream in its state.
pub open spec fn dialer_op(d: DialerView) -> OpView {
    match d.state {
        DialerState::StartHeader => OpView::StartSend(
            MessageView::Header(spec_header_line(d.version)),
        ),
        DialerState::StartProtocol { index } => OpView::StartSend(
            MessageView::Protocol(d.protocols[index as int]),
        ),
        DialerState::FlushProtocol { .. } => OpView::PollFlush,
        DialerState::AwaitProtocol { .. } => OpView::PollNext,
        _ => OpView::PollReady,
    }
}

/// The answer to a readiness, send or flush operation: go on to `next`
/// once it is done, stay while it is pending, and fail with its error.
pub open spec fn dialer_after(
    stay: DialerState,
    next: (DialerState, Step),
    event: Event,
) -> (DialerState, Step) {
    match event {
        Event::Ready => next,
        Event::Failed(e) => (DialerState::Done, fail_protocol(e)),
        _ => (stay, Step::Pending),
    }
}

/// What a dialer does with a message of the listener while it awaits the
/// answer to protocol `i`.
pub open spec fn dialer_on_message(d: DialerView, i: usize, m: MessageView) -> (
    DialerState,
    Step,
) {
    let invalid = (DialerState::Done, fail_protocol(ProtocolError::InvalidMessage));
    match m {
        MessageView::Header(h) => if h == spec_header_line(d.version) {
            (DialerState::AwaitProtocol { index: i }, Step::Continue)
        } else {
            invalid
        },
        MessageView::Protocol(p) => if p == d.protocols[i as int] {
            (
                DialerState::Done,
                Step::Ready(Ok(Selected { index: i, negotiated: NegotiatedKind::Completed })),
            )
        } else {
            invalid
        },
        MessageView::NotAvailable => if i + 1 < d.protocols.len() {
            (DialerState::SendProtocol { index: (i + 1) as usize }, Step::Continue)
        } else {
            (DialerState::Done, fail(NegotiationError::Failed))
        },
        _ => invalid,
    }
}

/// The next state of a dialer, and what the step yields, given the answer
/// of the stream to the operation of its current state.
pub open spec fn dialer_next(d: DialerView, event: Event) -> (DialerState, Step) {
    let n = d.protocols.len();
    match d.state {
        DialerState::SendHeader => dialer_after(
            d.state,
            (DialerState::StartHeader, Step::Continue),
            event,
        ),
        DialerState::StartHeader => dialer_after(
            d.state,
            if n == 0 {
                (DialerState::Done, fail(NegotiationError::Failed))
            } else {
                (DialerState::SendProtocol { index: 0 }, Step::Continue)
            },
            event,
        ),
        DialerState::SendProtocol { index } => dialer_after(
            d.state,
            if is_valid_protocol(d.protocols[index as int]) {
                (DialerState::StartProtocol { index }, Step::Continue)
            } else {
                (DialerState::Done, fail_protocol(ProtocolError::InvalidProtocol))
            },
            event,
        ),
        DialerState::StartProtocol { index } => dialer_after(
            d.state,
            if index + 1 < n || d.version == Version::V1 {
                (DialerState::FlushProtocol { index }, Step::Continue)
            } else {
                (
                    DialerState::Done,
                    Step::Ready(
                        Ok(
                            Selected {
                                index,
                                negotiated: NegotiatedKind::Expecting {
                                    header: Some(spec_header_line(Version::V1Lazy)),
                                },
                            },
                        ),
                    ),
                )
            },
            event,
        ),
        DialerState::FlushProtocol { index } => dialer_after(
            d.state,
            (DialerState::AwaitProtocol { index }, Step::Continue),
            event,
        ),
        DialerState::AwaitProtocol { index } => match event {
            Event::Received(m) => dialer_on_message(d, index, m@),
            Event::Closed => (DialerState::Done, fail(NegotiationError::Failed)),
            Event::Failed(e) => (DialerState::Done, fail_protocol(e)),
            _ => (d.state, Step::Pending),
        },
        DialerState::Done => (DialerState::Done, Step::Pending),
    }
}

/// A dialer's protocol negotiation, driven one stream operation at a time.
pub struct DialerSelectFuture {
    protocols: Vec<Vec<u8>>,
    state: DialerState,
    version: Version,
}

impl View for DialerSelectFuture {
    type V = DialerView;

    closed spec fn view(&self) -> DialerView {
        DialerView {
            protocols: names_view(self.protocols@),
            state: self.state,
            version: self.version,
        }
    }
}

impl DialerSelectFuture {
    #[verifier::type_invariant]
    spec fn inv(self) -> bool {
        dialer_wf(self@)
    }

    /// Every dialer is well formed.
    pub fn check_wf(&self)
        ensures
            dialer_wf(self@),
    {
        proof {
            use_type_invariant(self);
        }
    }

    /// Whether the negotiation is over.
    pub fn is_done(&self) -> (r: bool)
        ensures
            r == (self@.state == DialerState::Done),
    {
        self.state == DialerState::Done
    }

    /// The operation to perform on the stream next.
    pub fn io_op(&self) -> (op: IoOp)
        requires
            self@.state != DialerState::Done,
        ensures
            op@ == dialer_op(self@),
    {
        proof {
            use_type_invariant(self);
        }
        match self.state {
            DialerState::StartHeader => IoOp::StartSend(
                Message::Header(header_line_from(self.version)),
            ),
            DialerState::StartProtocol { index } => IoOp::StartSend(
                Message::Protocol(Protocol::from_valid(self.protocols[index].as_slice())),
            ),
            DialerState::FlushProtocol { .. } => IoOp::PollFlush,
            DialerState::AwaitProtocol { .. } => IoOp::PollNext,
            _ => IoOp::PollReady,
        }
    }

    /// What the dialer does with a message while it awaits the answer to
    /// protocol `index`.
    fn on_message(&self, index: usize, m: &Message) -> (r: (DialerState, Step))
        requires
            dialer_wf(self@),
            index < self@.protocols.len(),
        ensures
            r == dialer_on_message(self@, index, m@),
    {
        let n = self.protocols.len();
        assert(self@.protocols.len() == n);
        let invalid = (DialerState::Done, Step::Ready(Err(NegotiationError::ProtocolError(ProtocolError::InvalidMessage))));
        match m {
            Message::Header(h) => {
                if *h == header_line_from(self.version) {
                    (DialerState::AwaitProtocol { index }, Step::Continue)
                } else {
                    invalid
                }
            },
            Message::Protocol(p) => {
                if bytes_eq(p.as_bytes(), self.protocols[index].as_slice()) {
                    (
                        DialerState::Done,
                        Step::Ready(Ok(Selected { index, negotiated: NegotiatedKind::Completed })),
                    )
                } else {
                    invalid
                }
            },
            Message::NotAvailable => {
                if index + 1 < n {
                    (DialerState::SendProtocol { index: index + 1 }, Step::Continue)
                } else {
                    (DialerState::Done, Step::Ready(Err(NegotiationError::Failed)))
                }
            },
            _ => invalid,
        }
    }

    /// Feeds the answer of the stream to the operation asked for, moves the
    /// negotiation on, and says whether to go on, wait, or stop.
    pub fn poll(&mut self, event: Event) -> (step: Step)
        requires
            old(self)@.state != DialerState::Done,
            event_answers(dialer_op(old(self)@), event),
        ensures
            final(self)@.protocols == old(self)@.protocols,
            final(self)@.version == old(self)@.version,
            (final(self)@.state, step) == dialer_next(old(self)@, event),
    {
        proof {
            use_type_invariant(&*self);
        }
        let n = self.protocols.len();
        let (next, step): (DialerState, Step) = match self.state {
            DialerState::SendHeader => match event {
                Event::Ready => (DialerState::StartHeader, Step::Continue),
                Event::Failed(e) => (DialerState::Done, Step::Ready(Err(NegotiationError::ProtocolError(e)))),
                _ => (self.state, Step::Pending),
            },
            DialerState::StartHeader => match event {
                Event::Ready => {
                    if n == 0 {
                        (DialerState::Done, Step::Ready(Err(NegotiationError::Failed)))
                    } else {
                        (DialerState::SendProtocol { index: 0 }, Step::Continue)
                    }
                },
                Event::Failed(e) => (DialerState::Done, Step::Ready(Err(NegotiationError::ProtocolError(e)))),
                _ => (self.state, Step::Pending),
            },
            DialerState::SendProtocol { index } => match event {
                Event::Ready => {
                    let r = Protocol::try_from_bytes(self.protocols[index].as_slice());
                    match r {
                        Ok(_) => (DialerState::StartProtocol { index }, Step::Continue),
                        Err(e) => (DialerState::Done, Step::Ready(Err(NegotiationError::ProtocolError(e)))),
                    }
                },
                Event::Failed(e) => (DialerState::Done, Step::Ready(Err(NegotiationError::ProtocolError(e)))),
                _ => (self.state, Step::Pending),
            },
            DialerState::StartProtocol { index } => match event {
                Event::Ready => {
                    if index + 1 < n {
                        (DialerState::FlushProtocol { index }, Step::Continue)
                    } else {
                        match self.version {
                            Version::V1 => (DialerState::FlushProtocol { index }, Step::Continue),
                            Version::V1Lazy => {
                                let hl = header_line_from(Version::V1Lazy);
                                (
                                    DialerState::Done,
                                    Step::Ready(
                                        Ok(
                                            Selected {
                                                index,
                                                negotiated: NegotiatedKind::Expecting {
                                                    header: Some(hl),
                                                },
                                            },
                                        ),
                                    ),
                                )
                            },
                        }
                    }
                },
                Event::Failed(e) => (DialerState::Done, Step::Ready(Err(NegotiationError::ProtocolError(e)))),
                _ => (self.state, Step::Pending),
            },
            DialerState::FlushProtocol { index } => match event {
                Event::Ready => (DialerState::AwaitProtocol { index }, Step::Continue),
                Event::Failed(e) => (DialerState::Done, Step::Ready(Err(NegotiationError::ProtocolError(e)))),
                _ => (self.state, Step::Pending),
            },
            DialerState::AwaitProtocol { index } => match event {
                Event::Received(m) => self.on_message(index, &m),
                Event::Closed => (DialerState::Done, Step::Ready(Err(NegotiationError::Failed))),
                Event::Failed(e) => (DialerState::Done, Step::Ready(Err(NegotiationError::ProtocolError(e)))),
                _ => (self.state, Step::Pending),
            },
            DialerState::Done => (DialerState::Done, Step::Pending),
        };
        self.state = next;
        step
    }
}

/// Starts a negotiation for a peer acting as the dialer, which proposes
/// `protocols` in order and commits to `version`.
pub fn dialer_select_proto(protocols: Vec<Vec<u8>>, version: Version) -> (d: DialerSelectFuture)
    ensures
        d@ == (DialerView {
            protocols: names_view(protocols@),
            state: DialerState::SendHeader,
            version,
        }),
{
    let n = protocols.len();
    assert(names_view(protocols@).len() == n);
    DialerSelectFuture { protocols, state: DialerState::SendHeader, version }
}

/// The dialer with another version.
pub open spec fn with_version(d: DialerView, version: Version) -> DialerView {
    DialerView { version, ..d }
}

/// Every step keeps a dialer well formed.
pub proof fn lemma_dialer_step_keeps_wf(d: DialerView, event: Event)
    requires
        dialer_wf(d),
        d.state != DialerState::Done,
    ensures
        dialer_wf((DialerView { state: dialer_next(d, event).0, ..d })),
{
}

/// While the stream is not ready, the dialer waits where it is.
pub proof fn lemma_dialer_pending_waits(d: DialerView)
    requires
        d.state != DialerState::Done,
        event_answers(dialer_op(d), Event::Pending),
    ensures
        dialer_next(d, Event::Pending) == (d.state, Step::Pending),
{
}

/// The dialer ends the negotiation exactly when a step is ready, and then
/// it is done.
pub proof fn lemma_dialer_done_iff_ready(d: DialerView, event: Event)
    requires
        dialer_wf(d),
        d.state != DialerState::Done,
        event_answers(dialer_op(d), event),
    ensures
        (dialer_next(d, event).1 is Ready) <==> dialer_next(d, event).0 == DialerState::Done,
{
}

/// A listener that closes the stream while the dialer awaits an answer
/// fails the negotiation gracefully, not with a protocol error.
pub proof fn lemma_dialer_eof_is_failure(d: DialerView)
    requires
        d.state is AwaitProtocol,
    ensures
        dialer_next(d, Event::Closed) == (DialerState::Done, fail(NegotiationError::Failed)),
{
}

/// The dialer opens every negotiation with the header of its version,
/// which is the V1 header for both versions.
pub proof fn lemma_dialer_sends_header_of_version(d: DialerView)
    requires
        d.state == DialerState::StartHeader,
    ensures
        dialer_op(d) == OpView::StartSend(MessageView::Header(spec_header_line(d.version))),
        spec_header_line(d.version) == HeaderLine::V1,
{
}

/// Whether the dialer is handing over the proposal of its last protocol.
pub open spec fn proposes_last(d: DialerView) -> bool {
    match d.state {
        DialerState::StartProtocol { index } => index + 1 == d.protocols.len(),
        _ => false,
    }
}

/// The only effect of `V1Lazy` compared to `V1` is at the proposal of the
/// last protocol: in every other state the two versions ask for the same
/// operations and take the same steps.
pub proof fn lemma_dialer_versions_agree_elsewhere(d: DialerView, event: Event)
    requires
        dialer_wf(d),
        !proposes_last(d),
    ensures
        dialer_op(with_version(d, Version::V1)) == dialer_op(with_version(d, Version::V1Lazy)),
        dialer_next(with_version(d, Version::V1), event) == dialer_next(
            with_version(d, Version::V1Lazy),
            event,
        ),
{
}

/// Once the proposal of its last protocol is handed over, a `V1Lazy`
/// dialer settles on it and expects the listener's `V1` answer, where a
/// `V1` dialer flushes the proposal to await the answer.
pub proof fn lemma_dialer_lazy_settles_on_last(d: DialerView, index: usize)
    requires
        d.state == (DialerState::StartProtocol { index }),
        index + 1 == d.protocols.len(),
    ensures
        dialer_op(with_version(d, Version::V1)) == dialer_op(with_version(d, Version::V1Lazy)),
        dialer_next(with_version(d, Version::V1), Event::Ready) == (
            DialerState::FlushProtocol { index },
            Step::Continue,
        ),
        dialer_next(with_version(d, Version::V1Lazy), Event::Ready) == (
            DialerState::Done,
            Step::Ready(
                Ok(
                    Selected {
                        index,
                        negotiated: NegotiatedKind::Expecting { header: Some(HeaderLine::V1) },
                    },
                ),
            ),
        ),
{
}

/// The dialer selects only a protocol of its own list, and only one that
/// the listener confirmed, or, for `V1Lazy`, the last one, once proposed.
pub proof fn lemma_dialer_selects_confirmed(d: DialerView, event: Event, sel: Selected)
    requires
        dialer_wf(d),
        d.state != DialerState::Done,
        event_answers(dialer_op(d), event),
        dialer_next(d, event).1 == Step::Ready(Ok(sel)),
    ensures
        sel.index < d.protocols.len(),
        sel.negotiated == NegotiatedKind::Completed ==> {
            &&& d.state == (DialerState::AwaitProtocol { index: sel.index })
            &&& event matches Event::Received(m)
            &&& m@ == MessageView::Protocol(d.protocols[sel.index as int])
        },
        sel.negotiated != NegotiatedKind::Completed ==> {
            &&& d.version == Version::V1Lazy
            &&& d.state == (DialerState::StartProtocol { index: sel.index })
            &&& sel.index + 1 == d.protocols.len()
            &&& event == Event::Ready
            &&& sel.negotiated == (NegotiatedKind::Expecting { header: Some(HeaderLine::V1) })
        },
{
}

/// The dialer proposes its protocols in order: it starts with the first,
/// and moves to the next one only when the listener rejected the current
/// one.
pub proof fn lemma_dialer_proposes_in_order(d: DialerView, event: Event)
    requires
        dialer_wf(d),
        d.state != DialerState::Done,
        event_answers(dialer_op(d), event),
        dialer_index(dialer_next(d, event).0) is Some,
    ensures
        ({
            let j = dialer_index(dialer_next(d, event).0)->0;
            ||| dialer_index(d.state) == Some(j)
            ||| (j == 0 && d.state == DialerState::StartHeader)
            ||| (j > 0 && d.state == (DialerState::AwaitProtocol { index: (j - 1) as usize })
                && (event matches Event::Received(m) && m@ == MessageView::NotAvailable))
        }),
{
}

/// A dialer whose every protocol the listener rejected fails gracefully.
pub proof fn lemma_dialer_all_rejected_fails(d: DialerView, index: usize, m: Message)
    requires
        d.state == (DialerState::AwaitProtocol { index }),
        index + 1 == d.protocols.len(),
        m@ == MessageView::NotAvailable,
    ensures
        dialer_next(d, Event::Received(m)) == (DialerState::Done, fail(NegotiationError::Failed)),
{
}

/// A dialer with no protocol to propose fails once it has sent the header.
pub proof fn lemma_dialer_nothing_to_propose(d: DialerView)
    requires
        d.state == DialerState::StartHeader,
        d.protocols.len() == 0,
    ensures
        dialer_next(d, Event::Ready) == (DialerState::Done, fail(NegotiationError::Failed)),
{
}

/// The dialer sends the header and its first proposal in one go: once the
/// header is handed over it goes straight to proposing its first protocol,
/// without flushing the header on its own.
pub proof fn lemma_dialer_header_with_first_proposal(d: DialerView)
    requires
        d.state == DialerState::StartHeader,
        d.protocols.len() > 0,
        is_valid_protocol(d.protocols[0]),
    ensures
        dialer_next(d, Event::Ready) == (DialerState::SendProtocol { index: 0 }, Step::Continue),
        dialer_op((DialerView { state: DialerState::SendProtocol { index: 0 }, ..d }))
            == OpView::PollReady,
        dialer_next((DialerView { state: DialerState::SendProtocol { index: 0 }, ..d }), Event::Ready)
            == (DialerState::StartProtocol { index: 0 }, Step::Continue),
        dialer_op((DialerView { state: DialerState::StartProtocol { index: 0 }, ..d }))
            == OpView::StartSend(MessageView::Protocol(d.protocols[0])),
{
}

/// The operation a dialer asks of its stream in each state: it waits for
/// the stream to be ready before each message, hands over its header, then
/// its proposal of protocol `index`, flushes that proposal, and then reads
/// the listener's answer.
pub proof fn lemma_dialer_asks(d: DialerView)
    ensures
        d.state == DialerState::SendHeader ==> dialer_op(d) == OpView::PollReady,
        d.state == DialerState::StartHeader ==> dialer_op(d) == OpView::StartSend(
            MessageView::Header(HeaderLine::V1),
        ),
        d.state is SendProtocol ==> dialer_op(d) == OpView::PollReady,
        d.state matches DialerState::StartProtocol { index } ==> dialer_op(d) == OpView::StartSend(
            MessageView::Protocol(d.protocols[index as int]),
        ),
        d.state is FlushProtocol ==> dialer_op(d) == OpView::PollFlush,
        d.state is AwaitProtocol ==> dialer_op(d) == OpView::PollNext,
{
}

/// What a dialer awaiting the answer to its proposal of protocol `i` does
/// with each message: the listener's header leaves it waiting; the
/// confirmation of that very protocol selects it; a rejection moves it to
/// its next protocol, or fails when it has none left; anything else is a
/// protocol violation.
pub proof fn lemma_dialer_reads_answer(d: DialerView, i: usize, m: Message)
    requires
        d.state == (DialerState::AwaitProtocol { index: i }),
        i < d.protocols.len(),
    ensures
        m@ == MessageView::Header(HeaderLine::V1) ==> dialer_next(d, Event::Received(m)) == (
            DialerState::AwaitProtocol { index: i },
            Step::Continue,
        ),
        m@ == MessageView::Protocol(d.protocols[i as int]) ==> dialer_next(d, Event::Received(m))
            == (
            DialerState::Done,
            Step::Ready(Ok(Selected { index: i, negotiated: NegotiatedKind::Completed })),
        ),
        m@ == MessageView::NotAvailable && i + 1 < d.protocols.len() ==> dialer_next(
            d,
            Event::Received(m),
        ) == (DialerState::SendProtocol { index: (i + 1) as usize }, Step::Continue),
        m@ == MessageView::NotAvailable && i + 1 == d.protocols.len() ==> dialer_next(
            d,
            Event::Received(m),
        ) == (DialerState::Done, Step::Ready(Err(NegotiationError::Failed))),
        (m@ is ListProtocols || m@ is Protocols || (m@ is Protocol && m@ != MessageView::Protocol(
            d.protocols[i as int],
        ))) ==> dialer_next(d, Event::Received(m)) == (
            DialerState::Done,
            Step::Ready(Err(NegotiationError::ProtocolError(ProtocolError::InvalidMessage))),
        ),
{
}

/// An error of the stream ends a dialer's negotiation with that very
/// error, whatever the dialer was doing: only the end of the stream and
/// the rejection of its last protocol end it with `Failed`.
pub proof fn lemma_dialer_passes_errors_on(d: DialerView, e: ProtocolError)
    requires
        d.state != DialerState::Done,
    ensures
        dialer_next(d, Event::Failed(e)) == (
            DialerState::Done,
            Step::Ready(Err(NegotiationError::ProtocolError(e))),
        ),
{
}

/// Once the stream is ready for the proposal of protocol `i`, the dialer
/// hands it over if its name is valid, and otherwise ends the negotiation
/// with `InvalidProtocol`.
pub proof fn lemma_dialer_checks_proposal(d: DialerView, i: usize)
    requires
        d.state == (DialerState::SendProtocol { index: i }),
    ensures
        is_valid_protocol(d.protocols[i as int]) ==> dialer_next(d, Event::Ready) == (
            DialerState::StartProtocol { index: i },
            Step::Continue,
        ),
        !is_valid_protocol(d.protocols[i as int]) ==> dialer_next(d, Event::Ready) == (
            DialerState::Done,
            Step::Ready(Err(NegotiationError::ProtocolError(ProtocolError::InvalidProtocol))),
        ),
{
}

} // verus!
