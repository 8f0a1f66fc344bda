//! Protocol negotiation for the peer acting as the listener (or responder).
//!
//! The listener answers the dialer's header with its own, then answers
//! each message of the dialer: a request for its protocols with the list
//! of them, a proposal with a confirmation when it supports the protocol
//! and a rejection when it does not. A confirmation ends the negotiation.

use vstd::prelude::*;
use smallvec::SmallVec;
use crate::io::{
    event_answers, fail, fail_protocol, Event, IoOp, NegotiatedKind, OpView, Selected, Step,
};
use crate::protocol::{
    bytes_eq, is_valid_protocol, names_view, protocol_names, HeaderLine, IoErrorKind, Message, MessageView,
    NegotiationError, Protocol, ProtocolError,
};

verus! {

/// The protocols that a listener supports, each with its position in the
/// list the listener was given, kept inline for up to eight of them.
#[verifier::external_body]
pub struct SupportedProtocols {
    entries: SmallVec<[(usize, Protocol); 8]>,
}

/// The entries of the supported protocols, in order: each is the position
/// of the protocol in the listener's list and the protocol's name.
pub uninterp spec fn supported_entries(v: SupportedProtocols) -> Seq<(usize, Seq<u8>)>;

/// `SmallVec::new`: an empty vector.
#[verifier::external_body]
fn supported_new() -> (v: SupportedProtocols)
    ensures
        supported_entries(v) == Seq::<(usize, Seq<u8>)>::empty(),
{
    SupportedProtocols { entries: SmallVec::new() }
}

/// `SmallVec::push`: appends the item at the end, leaving the others as
/// they were. When the vector is full it grows to the next power of two of
/// its new length, and panics ("capacity overflow") when that many items
/// take more than `isize::MAX` bytes: with items of 16 bytes (on 32-bit
/// targets) from a length of `MAX_SUPPORTED` on; below it, push does not
/// panic on any target.
#[verifier::external_body]
fn supported_push(v: &mut SupportedProtocols, index: usize, protocol: Protocol)
    requires
        supported_entries(*old(v)).len() < MAX_SUPPORTED,
    ensures
        supported_entries(*final(v)) == supported_entries(*old(v)).push((index, protocol@)),
{
    v.entries.push((index, protocol))
}

/// The number of protocols a listener can be given.
pub const MAX_SUPPORTED: usize = 0x400_0000;

/// `SmallVec::len`: the number of items.
#[verifier::external_body]
fn supported_len(v: &SupportedProtocols) -> (n: usize)
    ensures
        n == supported_entries(*v).len(),
{
    v.entries.len()
}

/// Indexing a `SmallVec` (through its slice): the item at position `i`.
#[verifier::external_body]
fn supported_get(v: &SupportedProtocols, i: usize) -> (e: &(usize, Protocol))
    requires
        i < supported_entries(*v).len(),
    ensures
        (e.0, e.1@) == supported_entries(*v)[i as int],
{
    &v.entries[i]
}

/// The entries for the valid protocols of a list, in order: each is the
/// position of a valid protocol in the list, with the protocol.
pub open spec fn valid_entries(names: Seq<Seq<u8>>) -> Seq<(usize, Seq<u8>)>
    decreases names.len(),
{
    if names.len() == 0 {
        Seq::empty()
    } else {
        let i = names.len() - 1;
        let prev = valid_entries(names.drop_last());
        if is_valid_protocol(names[i]) {
            prev.push((i as usize, names[i]))
        } else {
            prev
        }
    }
}

/// The names of the supported protocols.
pub open spec fn entry_names(entries: Seq<(usize, Seq<u8>)>) -> Seq<Seq<u8>> {
    entries.map_values(|e: (usize, Seq<u8>)| e.1)
}

/// Whether `k` is the first entry of the protocol `p`.
pub open spec fn is_first_entry(entries: Seq<(usize, Seq<u8>)>, p: Seq<u8>, k: int) -> bool {
    &&& 0 <= k < entries.len()
    &&& entries[k].1 == p
    &&& forall|j: int| 0 <= j < k ==> entries[j].1 != p
}

/// The first entry of the protocol `p`, if the listener supports it.
pub open spec fn first_entry(entries: Seq<(usize, Seq<u8>)>, p: Seq<u8>) -> Option<int> {
    if exists|k: int| is_first_entry(entries, p, k) {
        Some(choose|k: int| is_first_entry(entries, p, k))
    } else {
        None
    }
}

/// The answer that a listener is sending.
#[derive(Clone, Copy, Debug, PartialEq, Eq)]
pub enum Reply {
    /// The confirmation of the protocol of the given entry.
    Confirm { entry: usize },
    /// The rejection of the protocol proposed last.
    Reject,
    /// The list of the supported protocols.
    List,
}

/// Where a listener stands in its negotiation.
#[derive(Clone, Copy, Debug, PartialEq, Eq)]
pub enum ListenerState {
    /// Waiting for the dialer's header.
    RecvHeader,
    /// Waiting for the stream to take the header.
    SendHeader,
    /// Handing the header over.
    StartHeader,
    /// Waiting for the dialer's next message.
    RecvMessage,
    /// Waiting for the stream to take the reply.
    SendMessage { reply: Reply },
    /// Handing the reply over.
    StartMessage { reply: Reply },
    /// Flushing what was sent; the entry, if any, is the protocol confirmed.
    Flush { selected: Option<usize> },
    /// The negotiation is over.
    Done,
}

/// A listener's negotiation, as its contents.
pub ghost struct ListenerView {
    /// The supported protocols.
    pub entries: Seq<(usize, Seq<u8>)>,
    /// Where the negotiation stands.
    pub state: ListenerState,
    /// Whether the last message sent was a rejection.
    pub last_sent_na: bool,
}

/// The entry that a state is about, if any.
pub open spec fn listener_entry(state: ListenerState) -> Option<usize> {
    match state {
        ListenerState::SendMessage { reply: Reply::Confirm { entry } } => Some(entry),
        ListenerState::StartMessage { reply: Reply::Confirm { entry } } => Some(entry),
        ListenerState::Flush { selected: Some(entry) } => Some(entry),
        _ => None,
    }
}

/// A listener is well formed when its list of entries fits in memory,
/// every entry names a valid protocol, and the entry its state is about
/// exists.
pub open spec fn listener_wf(l: ListenerView) -> bool {
    &&& l.entries.len() <= usize::MAX
    &&& forall|k: int| 0 <= k < l.entries.len() ==> is_valid_protocol(#[trigger] l.entries[k].1)
    &&& listener_entry(l.state) matches Some(k) ==> k < l.entries.len()
}

/// The message of a reply.
pub open spec fn reply_message(entries: Seq<(usize, Seq<u8>)>, reply: Reply) -> MessageView {
    match reply {
        Reply::Confirm { entry } => MessageView::Protocol(entries[entry as int].1),
        Reply::Reject => MessageView::NotAvailable,
        Reply::List => MessageView::Protocols(entry_names(entries)),
    }
}

/// The operation that a listener asks of the stream in its state.
pub open spec fn listener_op(l: ListenerView) -> OpView {
    match l.state {
        ListenerState::RecvHeader => OpView::PollNext,
        ListenerState::StartHeader => OpView::StartSend(MessageView::Header(HeaderLine::V1)),
        ListenerState::RecvMessage => OpView::PollNext,
        ListenerState::StartMessage { reply } => OpView::StartSend(
            reply_message(l.entries, reply),
        ),
        ListenerState::Flush { .. } => OpView::PollFlush,
        _ => OpView::PollReady,
    }
}

/// The answer to a readiness, send or flush operation: go on to `next`
/// once it is done, stay while it is pending, and fail with its error.
pub open spec fn listener_after(
    l: ListenerView,
    next: (ListenerState, bool, Step),
    event: Event,
) -> (ListenerState, bool, Step) {
    match event {
        Event::Ready => next,
        Event::Failed(e) => (ListenerState::Done, l.last_sent_na, fail_protocol(e)),
        _ => (l.state, l.last_sent_na, Step::Pending),
    }
}

/// The reply of a listener to a message of the dialer, if it has one.
pub open spec fn listener_reply(entries: Seq<(usize, Seq<u8>)>, m: MessageView) -> Option<Reply> {
    match m {
        MessageView::ListProtocols => Some(Reply::List),
        MessageView::Protocol(p) => match first_entry(entries, p) {
            Some(k) => Some(Reply::Confirm { entry: k as usize }),
            None => Some(Reply::Reject),
        },
        _ => None,
    }
}

/// Whether an error that follows a rejection means that the dialer gave
/// up: an undecodable message, or the end of the stream.
pub open spec fn ends_after_rejection(e: ProtocolError) -> bool {
    e == ProtocolError::InvalidMessage || e == ProtocolError::IoError(IoErrorKind::UnexpectedEof)
}

/// The next state of a listener, whether its last message sent is a
/// rejection, and what the step yields, given the answer of the stream to
/// the operation of its current state.
pub open spec fn listener_next(l: ListenerView, event: Event) -> (ListenerState, bool, Step) {
    let na = l.last_sent_na;
    let invalid = (ListenerState::Done, na, fail_protocol(ProtocolError::InvalidMessage));
    match l.state {
        ListenerState::RecvHeader => match event {
            Event::Received(m) => match m@ {
                MessageView::Header(_) => (ListenerState::SendHeader, na, Step::Continue),
                _ => invalid,
            },
            Event::Closed => (ListenerState::Done, na, fail(NegotiationError::Failed)),
            Event::Failed(e) => (ListenerState::Done, na, fail_protocol(e)),
            _ => (l.state, na, Step::Pending),
        },
        ListenerState::SendHeader => listener_after(
            l,
            (ListenerState::StartHeader, na, Step::Continue),
            event,
        ),
        ListenerState::StartHeader => listener_after(
            l,
            (ListenerState::Flush { selected: None }, na, Step::Continue),
            event,
        ),
        ListenerState::RecvMessage => match event {
            Event::Received(m) => match listener_reply(l.entries, m@) {
                Some(reply) => (ListenerState::SendMessage { reply }, na, Step::Continue),
                None => invalid,
            },
            Event::Closed => (ListenerState::Done, na, fail(NegotiationError::Failed)),
            Event::Failed(e) => if na && ends_after_rejection(e) {
                (ListenerState::Done, na, fail(NegotiationError::Failed))
            } else {
                (ListenerState::Done, na, fail_protocol(e))
            },
            _ => (l.state, na, Step::Pending),
        },
        ListenerState::SendMessage { reply } => listener_after(
            l,
            (ListenerState::StartMessage { reply }, reply == Reply::Reject, Step::Continue),
            event,
        ),
        ListenerState::StartMessage { reply } => listener_after(
            l,
            (
                ListenerState::Flush {
                    selected: match reply {
                        Reply::Confirm { entry } => Some(entry),
                        _ => None,
                    },
                },
                na,
                Step::Continue,
            ),
            event,
        ),
        ListenerState::Flush { selected } => listener_after(
            l,
            match selected {
                Some(k) => (
                    ListenerState::Done,
                    na,
                    Step::Ready(
                        Ok(
                            Selected {
                                index: l.entries[k as int].0,
                                negotiated: NegotiatedKind::Completed,
                            },
                        ),
                    ),
                ),
                None => (ListenerState::RecvMessage, na, Step::Continue),
            },
            event,
        ),
        ListenerState::Done => (ListenerState::Done, na, Step::Pending),
    }
}

/// A listener's protocol negotiation, driven one stream operation at a time.
pub struct ListenerSelectFuture {
    protocols: SupportedProtocols,
    state: ListenerState,
    last_sent_na: bool,
}

impl View for ListenerSelectFuture {
    type V = ListenerView;

    closed spec fn view(&self) -> ListenerView {
        ListenerView {
            entries: supported_entries(self.protocols),
            state: self.state,
            last_sent_na: self.last_sent_na,
        }
    }
}

impl ListenerSelectFuture {
    #[verifier::type_invariant]
    spec fn inv(self) -> bool {
        listener_wf(self@)
    }

    /// Every listener is well formed.
    pub fn check_wf(&self)
        ensures
            listener_wf(self@),
    {
        proof {
            use_type_invariant(self);
        }
    }

    /// Whether the negotiation is over.
    pub fn is_done(&self) -> (r: bool)
        ensures
            r == (self@.state == ListenerState::Done),
    {
        match self.state {
            ListenerState::Done => true,
            _ => false,
        }
    }

    /// Whether the last message sent was a rejection.
    pub fn last_sent_na(&self) -> (r: bool)
        ensures
            r == self@.last_sent_na,
    {
        self.last_sent_na
    }

    /// The list of the supported protocols.
    fn supported_list(&self) -> (v: Vec<Protocol>)
        ensures
            protocol_names(v@) == entry_names(self@.entries),
    {
        let n = supported_len(&self.protocols);
        let mut v: Vec<Protocol> = Vec::new();
        let mut i: usize = 0;
        while i < n
            invariant
                n == self@.entries.len(),
                i <= n,
                v@.len() == i,
                forall|j: int| 0 <= j < i ==> v@[j]@ == self@.entries[j].1,
            decreases n - i,
        {
            let e = supported_get(&self.protocols, i);
            v.push(e.1.duplicate());
            i = i + 1;
        }
        assert(protocol_names(v@) =~= entry_names(self@.entries));
        v
    }

    /// The operation to perform on the stream next.
    pub fn io_op(&self) -> (op: IoOp)
        requires
            self@.state != ListenerState::Done,
        ensures
            op@ == listener_op(self@),
    {
        proof {
            use_type_invariant(self);
        }
        match self.state {
            ListenerState::RecvHeader => IoOp::PollNext,
            ListenerState::StartHeader => IoOp::StartSend(Message::Header(HeaderLine::V1)),
            ListenerState::RecvMessage => IoOp::PollNext,
            ListenerState::StartMessage { reply } => {
                let m = match reply {
                    Reply::Confirm { entry } => {
                        let e = supported_get(&self.protocols, entry);
                        Message::Protocol(e.1.duplicate())
                    },
                    Reply::Reject => Message::NotAvailable,
                    Reply::List => Message::Protocols(self.supported_list()),
                };
                IoOp::StartSend(m)
            },
            ListenerState::Flush { .. } => IoOp::PollFlush,
            _ => IoOp::PollReady,
        }
    }

    /// The first entry of the protocol named `p`, if any.
    fn find_entry(&self, p: &Protocol) -> (r: Option<usize>)
        ensures
            r matches Some(k) ==> first_entry(self@.entries, p@) == Some(k as int),
            r is None ==> first_entry(self@.entries, p@) is None,
    {
        let n = supported_len(&self.protocols);
        let mut i: usize = 0;
        while i < n
            invariant
                n == self@.entries.len(),
                i <= n,
                forall|j: int| 0 <= j < i ==> self@.entries[j].1 != p@,
            decreases n - i,
        {
            let e = supported_get(&self.protocols, i);
            if bytes_eq(e.1.as_bytes(), p.as_bytes()) {
                proof {
                    let entries = self@.entries;
                    assert(is_first_entry(entries, p@, i as int));
                    let c = choose|k: int| is_first_entry(entries, p@, k);
                    assert(c == i as int) by {
                        if c < i {
                            assert(entries[c].1 != p@);
                        }
                        if c > i {
                            assert(entries[i as int].1 != p@);
                        }
                    }
                }
                return Some(i);
            }
            i = i + 1;
        }
        proof {
            assert(!exists|k: int| is_first_entry(self@.entries, p@, k));
        }
        None
    }

    /// Feeds the answer of the stream to the operation asked for, moves the
    /// negotiation on, and says whether to go on, wait, or stop.
    pub fn poll(&mut self, event: Event) -> (step: Step)
        requires
            old(self)@.state != ListenerState::Done,
            event_answers(listener_op(old(self)@), event),
        ensures
            final(self)@.entries == old(self)@.entries,
            (final(self)@.state, final(self)@.last_sent_na, step) == listener_next(
                old(self)@,
                event,
            ),
    {
        proof {
            use_type_invariant(&*self);
        }
        let na = self.last_sent_na;
        let invalid = (
            ListenerState::Done,
            na,
            Step::Ready(Err(NegotiationError::ProtocolError(ProtocolError::InvalidMessage))),
        );
        let (next, next_na, step): (ListenerState, bool, Step) = match self.state {
            ListenerState::RecvHeader => match event {
                Event::Received(m) => match m {
                    Message::Header(_) => (ListenerState::SendHeader, na, Step::Continue),
                    _ => invalid,
                },
                Event::Closed => (ListenerState::Done, na, Step::Ready(Err(NegotiationError::Failed))),
                Event::Failed(e) => (ListenerState::Done, na, Step::Ready(Err(NegotiationError::ProtocolError(e)))),
                _ => (self.state, na, Step::Pending),
            },
            ListenerState::SendHeader => match event {
                Event::Ready => (ListenerState::StartHeader, na, Step::Continue),
                Event::Failed(e) => (ListenerState::Done, na, Step::Ready(Err(NegotiationError::ProtocolError(e)))),
                _ => (self.state, na, Step::Pending),
            },
            ListenerState::StartHeader => match event {
                Event::Ready => (ListenerState::Flush { selected: None }, na, Step::Continue),
                Event::Failed(e) => (ListenerState::Done, na, Step::Ready(Err(NegotiationError::ProtocolError(e)))),
                _ => (self.state, na, Step::Pending),
            },
            ListenerState::RecvMessage => match event {
                Event::Received(m) => match m {
                    Message::ListProtocols => (
                        ListenerState::SendMessage { reply: Reply::List },
                        na,
                        Step::Continue,
                    ),
                    Message::Protocol(p) => {
                        let reply = match self.find_entry(&p) {
                            Some(k) => Reply::Confirm { entry: k },
                            None => Reply::Reject,
                        };
                        (ListenerState::SendMessage { reply }, na, Step::Continue)
                    },
                    _ => invalid,
                },
                Event::Closed => (ListenerState::Done, na, Step::Ready(Err(NegotiationError::Failed))),
                Event::Failed(e) => {
                    let gave_up = match e {
                        ProtocolError::InvalidMessage => true,
                        ProtocolError::IoError(IoErrorKind::UnexpectedEof) => true,
                        _ => false,
                    };
                    if na && gave_up {
                        (ListenerState::Done, na, Step::Ready(Err(NegotiationError::Failed)))
                    } else {
                        (ListenerState::Done, na, Step::Ready(Err(NegotiationError::ProtocolError(e))))
                    }
                },
                _ => (self.state, na, Step::Pending),
            },
            ListenerState::SendMessage { reply } => match event {
                Event::Ready => {
                    let rejected = match reply {
                        Reply::Reject => true,
                        _ => false,
                    };
                    (ListenerState::StartMessage { reply }, rejected, Step::Continue)
                },
                Event::Failed(e) => (ListenerState::Done, na, Step::Ready(Err(NegotiationError::ProtocolError(e)))),
                _ => (self.state, na, Step::Pending),
            },
            ListenerState::StartMessage { reply } => match event {
                Event::Ready => {
                    let selected = match reply {
                        Reply::Confirm { entry } => Some(entry),
                        _ => None,
                    };
                    (ListenerState::Flush { selected }, na, Step::Continue)
                },
                Event::Failed(e) => (ListenerState::Done, na, Step::Ready(Err(NegotiationError::ProtocolError(e)))),
                _ => (self.state, na, Step::Pending),
            },
            ListenerState::Flush { selected } => match event {
                Event::Ready => match selected {
                    Some(k) => {
                        let e = supported_get(&self.protocols, k);
                        (
                            ListenerState::Done,
                            na,
                            Step::Ready(Ok(Selected { index: e.0, negotiated: NegotiatedKind::Completed })),
                        )
                    },
                    None => (ListenerState::RecvMessage, na, Step::Continue),
                },
                Event::Failed(e) => (ListenerState::Done, na, Step::Ready(Err(NegotiationError::ProtocolError(e)))),
                _ => (self.state, na, Step::Pending),
            },
            ListenerState::Done => (ListenerState::Done, na, Step::Pending),
        };
        self.state = next;
        self.last_sent_na = next_na;
        step
    }
}

/// Starts a negotiation for a peer acting as the listener, which supports
/// the valid protocols of `protocols` and ignores the others. At most
/// `MAX_SUPPORTED` of the protocols may be valid.
pub fn listener_select_proto(protocols: Vec<Vec<u8>>) -> (l: ListenerSelectFuture)
    requires
        valid_entries(names_view(protocols@)).len() <= MAX_SUPPORTED,
    ensures
        l@ == (ListenerView {
            entries: valid_entries(names_view(protocols@)),
            state: ListenerState::RecvHeader,
            last_sent_na: false,
        }),
{
    let ghost names = names_view(protocols@);
    let n = protocols.len();
    let mut supported = supported_new();
    let mut i: usize = 0;
    while i < n
        invariant
            n == protocols@.len(),
            valid_entries(names).len() <= MAX_SUPPORTED,
            names == names_view(protocols@),
            i <= n,
            supported_entries(supported) == valid_entries(names.take(i as int)),
            supported_entries(supported).len() <= i,
            forall|k: int|
                0 <= k < supported_entries(supported).len() ==> is_valid_protocol(
                    #[trigger] supported_entries(supported)[k].1,
                ),
        decreases n - i,
    {
        proof {
            assert(names.take(i + 1).drop_last() =~= names.take(i as int));
            lemma_valid_entries_len(names.take(i as int));
            lemma_valid_entries_prefix_len(names, i + 1);
        }
        match Protocol::try_from_bytes(protocols[i].as_slice()) {
            Ok(p) => {
                p.check_valid();
                supported_push(&mut supported, i, p);
            },
            Err(_) => {},
        }
        i = i + 1;
    }
    assert(names.take(n as int) =~= names);
    ListenerSelectFuture { protocols: supported, state: ListenerState::RecvHeader, last_sent_na: false }
}

/// A prefix of a list has at most as many valid entries as the list.
pub proof fn lemma_valid_entries_prefix_len(names: Seq<Seq<u8>>, k: int)
    requires
        0 <= k <= names.len(),
    ensures
        valid_entries(names.take(k)).len() <= valid_entries(names).len(),
    decreases names.len(),
{
    if k == names.len() {
        assert(names.take(k) =~= names);
    } else {
        let dl = names.drop_last();
        assert(names.take(k) =~= dl.take(k));
        lemma_valid_entries_prefix_len(dl, k);
    }
}

/// There are at most as many valid entries as names.
pub proof fn lemma_valid_entries_len(names: Seq<Seq<u8>>)
    ensures
        valid_entries(names).len() <= names.len(),
    decreases names.len(),
{
    if names.len() > 0 {
        lemma_valid_entries_len(names.drop_last());
    }
}

/// Every step keeps a listener well formed, and leaves its supported
/// protocols as they are.
pub proof fn lemma_listener_step_keeps_wf(l: ListenerView, event: Event)
    requires
        listener_wf(l),
        l.state != ListenerState::Done,
    ensures
        listener_wf(
            (ListenerView {
                state: listener_next(l, event).0,
                last_sent_na: listener_next(l, event).1,
                ..l
            }),
        ),
{
    if let ListenerState::RecvMessage = l.state {
        if let Event::Received(m) = event {
            if let MessageView::Protocol(p) = m@ {
                if let Some(k) = first_entry(l.entries, p) {
                    let c = choose|k: int| is_first_entry(l.entries, p, k);
                    assert(is_first_entry(l.entries, p, c));
                }
            }
        }
    }
}

/// While the stream is not ready, the listener waits where it is.
pub proof fn lemma_listener_pending_waits(l: ListenerView)
    requires
        l.state != ListenerState::Done,
        event_answers(listener_op(l), Event::Pending),
    ensures
        listener_next(l, Event::Pending) == (l.state, l.last_sent_na, Step::Pending),
{
}

/// The listener ends the negotiation exactly when a step is ready, and
/// then it is done.
pub proof fn lemma_listener_done_iff_ready(l: ListenerView, event: Event)
    requires
        listener_wf(l),
        l.state != ListenerState::Done,
        event_answers(listener_op(l), event),
    ensures
        (listener_next(l, event).2 is Ready) <==> listener_next(l, event).0
            == ListenerState::Done,
{
}

/// A dialer that closes the stream fails the negotiation gracefully, not
/// with a protocol error.
pub proof fn lemma_listener_eof_is_failure(l: ListenerView)
    requires
        l.state == ListenerState::RecvHeader || l.state == ListenerState::RecvMessage,
    ensures
        listener_next(l, Event::Closed) == (
            ListenerState::Done,
            l.last_sent_na,
            fail(NegotiationError::Failed),
        ),
{
}

/// The listener answers the dialer's header with the V1 header, whatever
/// header the dialer sent.
pub proof fn lemma_listener_answers_header(l: ListenerView, m: Message, h: HeaderLine)
    requires
        l.state == ListenerState::RecvHeader,
        m@ == MessageView::Header(h),
    ensures
        listener_next(l, Event::Received(m)) == (
            ListenerState::SendHeader,
            l.last_sent_na,
            Step::Continue,
        ),
        listener_op((ListenerView { state: ListenerState::StartHeader, ..l })) == OpView::StartSend(
            MessageView::Header(HeaderLine::V1),
        ),
{
}

/// The listener confirms a proposed protocol exactly when it supports it,
/// naming the first entry of it, and rejects it otherwise.
pub proof fn lemma_listener_confirms_iff_supported(l: ListenerView, m: Message, p: Seq<u8>)
    requires
        listener_wf(l),
        l.state == ListenerState::RecvMessage,
        m@ == MessageView::Protocol(p),
    ensures
        entry_names(l.entries).contains(p) ==> exists|k: usize|
            {
                &&& #[trigger] listener_next(l, Event::Received(m)).0 == (ListenerState::SendMessage {
                    reply: Reply::Confirm { entry: k },
                })
                &&& is_first_entry(l.entries, p, k as int)
            },
        !entry_names(l.entries).contains(p) ==> listener_next(l, Event::Received(m)).0 == (
            ListenerState::SendMessage { reply: Reply::Reject }),
{
    if entry_names(l.entries).contains(p) {
        let j = choose|j: int| 0 <= j < entry_names(l.entries).len() && entry_names(l.entries)[j] == p;
        assert(l.entries[j].1 == p);
        lemma_first_entry_exists(l.entries, p, j);
        let c = choose|k: int| is_first_entry(l.entries, p, k);
        assert(is_first_entry(l.entries, p, c));
        assert(listener_next(l, Event::Received(m)).0 == (ListenerState::SendMessage {
            reply: Reply::Confirm { entry: c as usize },
        }));
    } else {
        assert forall|k: int| !is_first_entry(l.entries, p, k) by {
            if is_first_entry(l.entries, p, k) {
                assert(entry_names(l.entries)[k] == p);
            }
        }
    }
}

/// When some entry holds `p`, there is a first entry that does.
pub proof fn lemma_first_entry_exists(entries: Seq<(usize, Seq<u8>)>, p: Seq<u8>, j: int)
    requires
        0 <= j < entries.len(),
        entries[j].1 == p,
    ensures
        exists|k: int| is_first_entry(entries, p, k),
    decreases j,
{
    if exists|i: int| 0 <= i < j && entries[i].1 == p {
        let i = choose|i: int| 0 <= i < j && entries[i].1 == p;
        lemma_first_entry_exists(entries, p, i);
    } else {
        assert(is_first_entry(entries, p, j));
    }
}

/// The listener confirms the very protocol that was proposed.
pub proof fn lemma_listener_confirms_what_was_proposed(l: ListenerView, entry: usize)
    requires
        listener_wf(l),
        l.state == (ListenerState::StartMessage { reply: Reply::Confirm { entry } }),
    ensures
        listener_op(l) == OpView::StartSend(MessageView::Protocol(l.entries[entry as int].1)),
{
}

/// Asked for its protocols, the listener sends the list of the protocols
/// it supports, in order.
pub proof fn lemma_listener_lists_supported(l: ListenerView, m: Message)
    requires
        l.state == ListenerState::RecvMessage,
        m@ == MessageView::ListProtocols,
    ensures
        listener_next(l, Event::Received(m)).0 == (ListenerState::SendMessage {
            reply: Reply::List,
        }),
        listener_op((ListenerView { state: ListenerState::StartMessage { reply: Reply::List }, ..l }))
            == OpView::StartSend(MessageView::Protocols(entry_names(l.entries))),
{
}

/// The listener selects only a protocol that it supports and whose
/// confirmation it has sent and flushed.
pub proof fn lemma_listener_selects_confirmed(l: ListenerView, event: Event, sel: Selected)
    requires
        listener_wf(l),
        l.state != ListenerState::Done,
        event_answers(listener_op(l), event),
        listener_next(l, event).2 == Step::Ready(Ok(sel)),
    ensures
        exists|k: usize|
            {
                &&& k < l.entries.len()
                &&& #[trigger] l.entries[k as int].0 == sel.index
                &&& l.state == (ListenerState::Flush { selected: Some(k) })
            },
        event == Event::Ready,
        sel.negotiated == NegotiatedKind::Completed,
{
    if let ListenerState::Flush { selected: Some(k) } = l.state {
        assert(l.entries[k as int].0 == sel.index);
    }
}

/// The listener remembers whether the last message it sent was a
/// rejection: only a reply that is being sent changes what it remembers.
pub proof fn lemma_listener_tracks_rejection(l: ListenerView, event: Event)
    requires
        l.state != ListenerState::Done,
    ensures
        l.state matches ListenerState::SendMessage { reply } ==> (event == Event::Ready
            ==> listener_next(l, event).1 == (reply == Reply::Reject)),
        !(l.state is SendMessage && event == Event::Ready) ==> listener_next(l, event).1
            == l.last_sent_na,
{
}

/// An undecodable message or the end of the stream right after a rejection
/// means that the dialer gave up (it used `V1Lazy` and settled on a
/// protocol that the listener rejected): the negotiation fails gracefully.
/// At any other time such an error is reported as it is.
pub proof fn lemma_listener_error_after_rejection(l: ListenerView, e: ProtocolError)
    requires
        l.state == ListenerState::RecvMessage,
    ensures
        l.last_sent_na && ends_after_rejection(e) ==> listener_next(l, Event::Failed(e)).2 == fail(
            NegotiationError::Failed,
        ),
        !(l.last_sent_na && ends_after_rejection(e)) ==> listener_next(l, Event::Failed(e)).2
            == fail_protocol(e),
{
}

/// The listener supports exactly the valid protocols of its list, in the
/// order of the list, each with its position in the list.
pub proof fn lemma_valid_entries(names: Seq<Seq<u8>>)
    requires
        names.len() <= usize::MAX,
    ensures
        forall|k: int|
            0 <= k < valid_entries(names).len() ==> {
                &&& (#[trigger] valid_entries(names)[k]).0 < names.len()
                &&& valid_entries(names)[k].1 == names[valid_entries(names)[k].0 as int]
                &&& is_valid_protocol(valid_entries(names)[k].1)
            },
        forall|j: int, k: int|
            0 <= j < k < valid_entries(names).len() ==> (#[trigger] valid_entries(names)[j]).0
                < (#[trigger] valid_entries(names)[k]).0,
        forall|i: int|
            0 <= i < names.len() && is_valid_protocol(#[trigger] names[i]) ==> exists|k: int|
                0 <= k < valid_entries(names).len() && (#[trigger] valid_entries(names)[k]).0 == i,
    decreases names.len(),
{
    if names.len() > 0 {
        let prev = names.drop_last();
        lemma_valid_entries(prev);
        let i = names.len() - 1;
        let e = valid_entries(names);
        let pe = valid_entries(prev);
        assert forall|k: int| 0 <= k < pe.len() implies (#[trigger] pe[k]).0 < i by {}
        assert forall|k: int| 0 <= k < pe.len() implies #[trigger] e[k] == pe[k] by {}
        if is_valid_protocol(names[i]) {
            assert(e[pe.len() as int] == (i as usize, names[i]));
        }
        assert forall|j: int|
            0 <= j < names.len() && is_valid_protocol(#[trigger] names[j]) implies exists|k: int|
            0 <= k < e.len() && (#[trigger] e[k]).0 == j by {
            if j < i {
                assert(prev[j] == names[j]);
                let k = choose|k: int| 0 <= k < pe.len() && (#[trigger] pe[k]).0 == j;
                assert(e[k] == pe[k]);
            } else {
                assert(e[pe.len() as int].0 == j);
            }
        }
    }
}

/// The operation a listener asks of its stream in each state: it reads the
/// dialer's header, waits for the stream to be ready, hands over its own
/// header, flushes, reads the dialer's next message, and hands over its
/// reply: the confirmed protocol, `na`, or the list of its protocols.
pub proof fn lemma_listener_asks(l: ListenerView)
    ensures
        l.state == ListenerState::RecvHeader ==> listener_op(l) == OpView::PollNext,
        l.state == ListenerState::SendHeader ==> listener_op(l) == OpView::PollReady,
        l.state == ListenerState::StartHeader ==> listener_op(l) == OpView::StartSend(
            MessageView::Header(HeaderLine::V1),
        ),
        l.state == ListenerState::RecvMessage ==> listener_op(l) == OpView::PollNext,
        l.state is SendMessage ==> listener_op(l) == OpView::PollReady,
        l.state matches ListenerState::StartMessage { reply: Reply::Confirm { entry } }
            ==> listener_op(l) == OpView::StartSend(MessageView::Protocol(l.entries[entry as int].1)),
        l.state == (ListenerState::StartMessage { reply: Reply::Reject }) ==> listener_op(l)
            == OpView::StartSend(MessageView::NotAvailable),
        l.state == (ListenerState::StartMessage { reply: Reply::List }) ==> listener_op(l)
            == OpView::StartSend(MessageView::Protocols(entry_names(l.entries))),
        l.state is Flush ==> listener_op(l) == OpView::PollFlush,
{
}

/// Once the stream is ready, the listener hands over the very reply it
/// chose, and remembers whether it is a rejection.
pub proof fn lemma_listener_keeps_chosen_reply(l: ListenerView, reply: Reply)
    requires
        l.state == (ListenerState::SendMessage { reply }),
    ensures
        listener_next(l, Event::Ready) == (
            ListenerState::StartMessage { reply },
            reply == Reply::Reject,
            Step::Continue,
        ),
{
}

/// The listener after one answer of the stream.
pub open spec fn listener_step_view(l: ListenerView, event: Event) -> ListenerView {
    ListenerView {
        state: listener_next(l, event).0,
        last_sent_na: listener_next(l, event).1,
        ..l
    }
}

/// How a listener answers a message of the dialer, once the stream is
/// ready: a request for its protocols with the list of the protocols it
/// supports; a proposal of a protocol it supports with that protocol, and
/// one it does not support with `na`, which it remembers. After a list or
/// `na` is sent and flushed it waits for the next message; after a
/// confirmation is sent and flushed it selects the protocol's first entry.
pub proof fn lemma_listener_answers(l: ListenerView, m: Message)
    requires
        listener_wf(l),
        l.state == ListenerState::RecvMessage,
    ensures
        ({
            let v1 = listener_step_view(l, Event::Received(m));
            let v2 = listener_step_view(v1, Event::Ready);
            let v3 = listener_step_view(v2, Event::Ready);
            &&& m@ == MessageView::ListProtocols ==> {
                &&& listener_op(v2) == OpView::StartSend(
                    MessageView::Protocols(entry_names(l.entries)),
                )
                &&& !v2.last_sent_na
                &&& listener_next(v3, Event::Ready) == (
                    ListenerState::RecvMessage,
                    false,
                    Step::Continue,
                )
            }
            &&& m@ matches MessageView::Protocol(p) ==> (entry_names(l.entries).contains(p) ==> {
                &&& listener_op(v2) == OpView::StartSend(MessageView::Protocol(p))
                &&& !v2.last_sent_na
                &&& exists|k: int|
                    {
                        &&& is_first_entry(l.entries, p, k)
                        &&& #[trigger] listener_next(v3, Event::Ready) == (
                            ListenerState::Done,
                            false,
                            Step::Ready(
                                Ok(
                                    Selected {
                                        index: l.entries[k].0,
                                        negotiated: NegotiatedKind::Completed,
                                    },
                                ),
                            ),
                        )
                    }
            })
            &&& m@ matches MessageView::Protocol(p) ==> (!entry_names(l.entries).contains(p) ==> {
                &&& listener_op(v2) == OpView::StartSend(MessageView::NotAvailable)
                &&& v2.last_sent_na
                &&& listener_next(v3, Event::Ready) == (ListenerState::RecvMessage, true, Step::Continue)
            })
        }),
{
    if let MessageView::Protocol(p) = m@ {
        lemma_listener_confirms_iff_supported(l, m, p);
        if entry_names(l.entries).contains(p) {
            let k = choose|k: usize|
                {
                    &&& #[trigger] listener_next(l, Event::Received(m)).0 == (ListenerState::SendMessage {
                        reply: Reply::Confirm { entry: k },
                    })
                    &&& is_first_entry(l.entries, p, k as int)
                };
            assert(is_first_entry(l.entries, p, k as int));
        }
    }
}

/// An error of the stream ends a listener's negotiation with that very
/// error, whatever the listener was doing, except an undecodable message
/// or the end of the stream right after it sent `na`, which mean that the
/// dialer gave up.
pub proof fn lemma_listener_passes_errors_on(l: ListenerView, e: ProtocolError)
    requires
        l.state != ListenerState::Done,
        !(l.state == ListenerState::RecvMessage && l.last_sent_na && (e
            == ProtocolError::InvalidMessage || e == ProtocolError::IoError(
            IoErrorKind::UnexpectedEof,
        ))),
    ensures
        listener_next(l, Event::Failed(e)) == (
            ListenerState::Done,
            l.last_sent_na,
            Step::Ready(Err(NegotiationError::ProtocolError(e))),
        ),
{
}

/// A listener's first message must be the dialer's header, and a message
/// it waits for must be a request for its protocols or a proposal:
/// anything else is a protocol violation.
pub proof fn lemma_listener_rejects_unexpected(l: ListenerView, m: Message)
    ensures
        l.state == ListenerState::RecvHeader && !(m@ is Header) ==> listener_next(
            l,
            Event::Received(m),
        ) == (
            ListenerState::Done,
            l.last_sent_na,
            Step::Ready(Err(NegotiationError::ProtocolError(ProtocolError::InvalidMessage))),
        ),
        l.state == ListenerState::RecvMessage && (m@ is Header || m@ is Protocols || m@
            is NotAvailable) ==> listener_next(l, Event::Received(m)) == (
            ListenerState::Done,
            l.last_sent_na,
            Step::Ready(Err(NegotiationError::ProtocolError(ProtocolError::InvalidMessage))),
        ),
{
}

} // verus!
