//! What a dialer and a listener that talk to each other agree on.

use vstd::prelude::*;
use crate::dialer_select::{dialer_next, dialer_op, dialer_wf, DialerState, DialerView};
use crate::io::{fail, Event, NegotiatedKind, OpView, Selected, Step};
use crate::listener_select::{
    entry_names, lemma_listener_confirms_iff_supported, listener_next,
    listener_op, listener_wf,
    is_first_entry, ListenerState, ListenerView, Reply,
};
use crate::listener_runs::lemma_first_entry_position;
use crate::listener_select::{
    first_entry, lemma_listener_step_keeps_wf, listener_step_view, valid_entries,
};
use crate::protocol::{is_valid_protocol, HeaderLine, Message, MessageView, NegotiationError, Version};

verus! {

/// The message that a listener waiting for a message hands to the stream
/// in reply to `m`, once the stream is ready.
pub open spec fn listener_answer(l: ListenerView, m: Message) -> MessageView {
    let v2 = listener_step_view(listener_step_view(l, Event::Received(m)), Event::Ready);
    match listener_op(v2) {
        OpView::StartSend(answer) => answer,
        _ => MessageView::NotAvailable,
    }
}

/// One round of a negotiation: the dialer proposes protocol `i`, the
/// listener answers, and the dialer reads the answer.
///
/// When the listener supports the protocol, both peers select the same
/// protocol: the dialer its protocol `i`, the listener the entry of the
/// same name. Otherwise the listener rejects it, and the dialer goes on
/// with its next protocol, or fails when it has none left.
pub proof fn lemma_round_agrees(
    d: DialerView,
    i: usize,
    l: ListenerView,
    proposal: Message,
    answer: Message,
)
    requires
        dialer_wf(d),
        d.state == (DialerState::StartProtocol { index: i }),
        listener_wf(l),
        l.state == ListenerState::RecvMessage,
        dialer_op(d) == OpView::StartSend(proposal@),
        answer@ == listener_answer(l, proposal),
    ensures
        ({
            let awaiting = DialerView { state: DialerState::AwaitProtocol { index: i }, ..d };
            &&& entry_names(l.entries).contains(d.protocols[i as int]) ==> {
                &&& dialer_next(awaiting, Event::Received(answer)) == (
                    DialerState::Done,
                    Step::Ready(Ok(Selected { index: i, negotiated: NegotiatedKind::Completed })),
                )
                &&& exists|k: usize|
                    {
                        &&& #[trigger] listener_next(l, Event::Received(proposal)).0
                            == (ListenerState::SendMessage { reply: Reply::Confirm { entry: k } })
                        &&& k < l.entries.len()
                        &&& l.entries[k as int].1 == d.protocols[i as int]
                        &&& listener_next(
                            (ListenerView { state: ListenerState::Flush { selected: Some(k) }, ..l }),
                            Event::Ready,
                        ).2 == Step::Ready(
                            Ok(
                                Selected {
                                    index: l.entries[k as int].0,
                                    negotiated: NegotiatedKind::Completed,
                                },
                            ),
                        )
                    }
            }
            &&& !entry_names(l.entries).contains(d.protocols[i as int]) ==> {
                &&& listener_next(l, Event::Received(proposal)).0 == (ListenerState::SendMessage {
                    reply: Reply::Reject,
                })
                &&& answer@ == MessageView::NotAvailable
                &&& dialer_next(awaiting, Event::Received(answer)) == if i + 1 < d.protocols.len() {
                    (DialerState::SendProtocol { index: (i + 1) as usize }, Step::Continue)
                } else {
                    (DialerState::Done, fail(NegotiationError::Failed))
                }
            }
        }),
{
    let p = d.protocols[i as int];
    assert(proposal@ == MessageView::Protocol(p));
    lemma_listener_confirms_iff_supported(l, proposal, p);
    if entry_names(l.entries).contains(p) {
        let k = choose|k: usize|
            {
                &&& #[trigger] listener_next(l, Event::Received(proposal)).0
                    == (ListenerState::SendMessage { reply: Reply::Confirm { entry: k } })
                &&& is_first_entry(l.entries, p, k as int)
            };
        assert(answer@ == MessageView::Protocol(p));
        assert(listener_next(l, Event::Received(proposal)).0
            == (ListenerState::SendMessage { reply: Reply::Confirm { entry: k } }));
    }
}

/// Whether the listener supports the protocol `p`.
pub open spec fn supports(l: ListenerView, p: Seq<u8>) -> bool {
    entry_names(l.entries).contains(p)
}

/// Whether `j` is the first of the dialer's protocols that the listener supports.
pub open spec fn is_first_supported(protocols: Seq<Seq<u8>>, l: ListenerView, j: int) -> bool {
    &&& 0 <= j < protocols.len()
    &&& supports(l, protocols[j])
    &&& forall|k: int| 0 <= k < j ==> !supports(l, protocols[k])
}

/// The first of the dialer's protocols that the listener supports, if any.
pub open spec fn first_supported(protocols: Seq<Seq<u8>>, l: ListenerView) -> Option<int> {
    if exists|j: int| is_first_supported(protocols, l, j) {
        Some(choose|j: int| is_first_supported(protocols, l, j))
    } else {
        None
    }
}

/// The dialer settling on protocol `k` before the listener's answer.
pub open spec fn settled_lazily(k: int) -> Step {
    Step::Ready(
        Ok(
            Selected {
                index: k as usize,
                negotiated: NegotiatedKind::Expecting { header: Some(HeaderLine::V1) },
            },
        ),
    )
}

/// What a dialer's negotiation with a listener comes to: the first of its
/// protocols that the listener supports, except that a `V1Lazy` dialer
/// settles on its last protocol once it proposes it.
pub open spec fn negotiated_outcome(d: DialerView, l: ListenerView) -> Step {
    let n = d.protocols.len();
    match first_supported(d.protocols, l) {
        Some(j) => if d.version == Version::V1Lazy && j + 1 == n {
            settled_lazily(j)
        } else {
            Step::Ready(Ok(Selected { index: j as usize, negotiated: NegotiatedKind::Completed }))
        },
        None => if d.version == Version::V1Lazy {
            settled_lazily(n - 1)
        } else {
            fail(NegotiationError::Failed)
        },
    }
}

/// The dialer at another state.
pub open spec fn at(d: DialerView, state: DialerState) -> DialerView {
    DialerView { state, ..d }
}

/// What the dialer's steps come to from the proposal of protocol `i` on,
/// when every stream operation completes at once and `answers[j]` is the
/// answer to the proposal of protocol `j`.
pub open spec fn dialer_rounds(d: DialerView, i: int, answers: Seq<Message>) -> Step
    decreases d.protocols.len() - i,
{
    if 0 <= i < d.protocols.len() && i < answers.len() {
        let send = dialer_next(at(d, DialerState::SendProtocol { index: i as usize }), Event::Ready);
        let start = dialer_next(at(d, send.0), Event::Ready);
        let flush = dialer_next(at(d, start.0), Event::Ready);
        let recv = dialer_next(at(d, flush.0), Event::Received(answers[i]));
        if !(send.0 is StartProtocol) {
            send.1
        } else if !(start.0 is FlushProtocol) {
            start.1
        } else if recv.0 is SendProtocol {
            dialer_rounds(d, i + 1, answers)
        } else {
            recv.1
        }
    } else {
        Step::Pending
    }
}

/// The first protocol that the listener supports is the first one.
proof fn lemma_first_supported_is(protocols: Seq<Seq<u8>>, l: ListenerView, j: int)
    requires
        is_first_supported(protocols, l, j),
    ensures
        first_supported(protocols, l) == Some(j),
{
    let c = choose|c: int| is_first_supported(protocols, l, c);
    assert(is_first_supported(protocols, l, c));
    if c < j {
        assert(!supports(l, protocols[c]));
    }
    if c > j {
        assert(!supports(l, protocols[j]));
    }
}

/// The rounds from protocol `i` on, when the listener supports none of
/// the protocols before `i`.
proof fn lemma_rounds_from(
    d: DialerView,
    l: ListenerView,
    proposals: Seq<Message>,
    answers: Seq<Message>,
    i: int,
)
    requires
        d.protocols.len() <= usize::MAX,
        listener_wf(l),
        l.state == ListenerState::RecvMessage,
        0 <= i < d.protocols.len(),
        proposals.len() == d.protocols.len(),
        answers.len() == d.protocols.len(),
        forall|j: int|
            0 <= j < d.protocols.len() ==> (#[trigger] proposals[j])@ == MessageView::Protocol(
                d.protocols[j],
            ),
        forall|j: int|
            0 <= j < d.protocols.len() ==> (#[trigger] answers[j])@ == listener_answer(
                l,
                proposals[j],
            ),
        forall|j: int| 0 <= j < i ==> !supports(l, #[trigger] d.protocols[j]),
        forall|j: int|
            0 <= j < d.protocols.len() && !supports(l, #[trigger] d.protocols[j])
                ==> is_valid_protocol(d.protocols[j]),
    ensures
        dialer_rounds(d, i, answers) == negotiated_outcome(d, l),
    decreases d.protocols.len() - i,
{
    let n = d.protocols.len();
    let p = d.protocols[i];
    if supports(l, p) {
        let k = choose|k: int| 0 <= k < entry_names(l.entries).len() && entry_names(l.entries)[k] == p;
        assert(is_valid_protocol(l.entries[k].1));
        assert(is_first_supported(d.protocols, l, i));
        lemma_first_supported_is(d.protocols, l, i);
    } else if i + 1 == n {
        assert forall|j: int| !is_first_supported(d.protocols, l, j) by {
            if is_first_supported(d.protocols, l, j) {
                assert(supports(l, d.protocols[j]));
            }
        }
    }
    assert(is_valid_protocol(p));
    let started = at(d, DialerState::StartProtocol { index: i as usize });
    assert(dialer_wf(started));
    assert(dialer_op(started) == OpView::StartSend(proposals[i]@));
    lemma_round_agrees(started, i as usize, l, proposals[i], answers[i]);
    if !supports(l, p) && i + 1 < n {
        lemma_rounds_from(d, l, proposals, answers, i + 1);
    }
}

/// A negotiation selects the first of the dialer's protocols that the
/// listener supports, and fails when the listener supports none of them;
/// a `V1Lazy` dialer settles on its last protocol once it proposes it.
/// This holds when every stream operation completes, the listener reads
/// each proposal of the dialer and the dialer reads each answer of the
/// listener, and the dialer's protocols that the listener does not support
/// are valid names (an invalid name that the dialer proposes ends the
/// negotiation with an error).
pub proof fn lemma_negotiation_selects_first_supported(
    d: DialerView,
    l: ListenerView,
    proposals: Seq<Message>,
    answers: Seq<Message>,
)
    requires
        d.protocols.len() <= usize::MAX,
        d.protocols.len() > 0,
        listener_wf(l),
        l.state == ListenerState::RecvMessage,
        proposals.len() == d.protocols.len(),
        answers.len() == d.protocols.len(),
        forall|j: int|
            0 <= j < d.protocols.len() ==> (#[trigger] proposals[j])@ == MessageView::Protocol(
                d.protocols[j],
            ),
        forall|j: int|
            0 <= j < d.protocols.len() ==> (#[trigger] answers[j])@ == listener_answer(
                l,
                proposals[j],
            ),
        forall|j: int|
            0 <= j < d.protocols.len() && !supports(l, #[trigger] d.protocols[j])
                ==> is_valid_protocol(d.protocols[j]),
    ensures
        dialer_rounds(d, 0, answers) == negotiated_outcome(d, l),
        first_supported(d.protocols, l) matches Some(j) ==> (exists|k: int|
            0 <= k < l.entries.len() && #[trigger] l.entries[k].1 == d.protocols[j]),
{
    lemma_rounds_from(d, l, proposals, answers, 0);
    if let Some(j) = first_supported(d.protocols, l) {
        let c = choose|c: int| is_first_supported(d.protocols, l, c);
        assert(is_first_supported(d.protocols, l, c));
        let k = choose|k: int| 0 <= k < entry_names(l.entries).len() && entry_names(l.entries)[k] == d.protocols[c];
        assert(l.entries[k].1 == d.protocols[j]);
    }
}

/// What the listener's steps come to from the dialer's proposal of
/// protocol `i` on, when every stream operation completes at once,
/// `proposals[j]` is the dialer's proposal of protocol `j`, and the dialer
/// closes the stream once it has nothing left to propose.
pub open spec fn listener_rounds(l: ListenerView, proposals: Seq<Message>, i: int) -> Step
    decreases proposals.len() - i,
{
    if 0 <= i < proposals.len() {
        let v1 = listener_step_view(l, Event::Received(proposals[i]));
        let v2 = listener_step_view(v1, Event::Ready);
        let v3 = listener_step_view(v2, Event::Ready);
        let flush = listener_next(v3, Event::Ready);
        if !(v1.state is SendMessage) {
            listener_next(l, Event::Received(proposals[i])).2
        } else if flush.0 == ListenerState::RecvMessage {
            listener_rounds(listener_step_view(v3, Event::Ready), proposals, i + 1)
        } else {
            flush.2
        }
    } else {
        listener_next(l, Event::Closed).2
    }
}

/// What a listener's negotiation with a dialer comes to: the first entry
/// of the first of the dialer's protocols that it supports, or failure.
pub open spec fn listener_outcome(protocols: Seq<Seq<u8>>, l: ListenerView) -> Step {
    match first_supported(protocols, l) {
        Some(j) => Step::Ready(
            Ok(
                Selected {
                    index: l.entries[first_entry(l.entries, protocols[j])->0].0,
                    negotiated: NegotiatedKind::Completed,
                },
            ),
        ),
        None => fail(NegotiationError::Failed),
    }
}

/// Which protocol a listener supports first depends on its entries alone.
proof fn lemma_first_supported_same_entries(protocols: Seq<Seq<u8>>, l1: ListenerView, l2: ListenerView)
    requires
        l1.entries == l2.entries,
    ensures
        first_supported(protocols, l1) == first_supported(protocols, l2),
{
    assert forall|j: int| #[trigger] is_first_supported(protocols, l1, j) == is_first_supported(
        protocols,
        l2,
        j,
    ) by {}
    if exists|j: int| is_first_supported(protocols, l1, j) {
        let a = choose|j: int| is_first_supported(protocols, l1, j);
        assert(is_first_supported(protocols, l2, a));
        lemma_first_supported_is(protocols, l2, a);
        lemma_first_supported_is(protocols, l1, a);
    } else if exists|j: int| is_first_supported(protocols, l2, j) {
        let b = choose|j: int| is_first_supported(protocols, l2, j);
        assert(is_first_supported(protocols, l1, b));
    }
}

proof fn lemma_listener_rounds_from(
    protocols: Seq<Seq<u8>>,
    l: ListenerView,
    proposals: Seq<Message>,
    i: int,
)
    requires
        listener_wf(l),
        l.state == ListenerState::RecvMessage,
        0 <= i <= proposals.len(),
        proposals.len() == protocols.len(),
        forall|j: int|
            0 <= j < protocols.len() ==> (#[trigger] proposals[j])@ == MessageView::Protocol(
                protocols[j],
            ),
        forall|j: int| 0 <= j < i ==> !supports(l, #[trigger] protocols[j]),
    ensures
        listener_rounds(l, proposals, i) == listener_outcome(protocols, l),
    decreases proposals.len() - i,
{
    if i < proposals.len() {
        let p = protocols[i];
        lemma_listener_confirms_iff_supported(l, proposals[i], p);
        if supports(l, p) {
            assert(is_first_supported(protocols, l, i));
            let c = choose|c: int| is_first_supported(protocols, l, c);
            assert(is_first_supported(protocols, l, c));
            if c < i {
                assert(!supports(l, protocols[c]));
            }
            if c > i {
                assert(!supports(l, protocols[i]));
            }
            let k = choose|k: usize|
                {
                    &&& #[trigger] listener_next(l, Event::Received(proposals[i])).0
                        == (ListenerState::SendMessage { reply: Reply::Confirm { entry: k } })
                    &&& is_first_entry(l.entries, p, k as int)
                };
            let f = choose|f: int| is_first_entry(l.entries, p, f);
            assert(is_first_entry(l.entries, p, f));
            if f < k {
                assert(l.entries[f].1 != p);
            }
            if f > k {
                assert(l.entries[k as int].1 != p);
            }
        } else {
            let v1 = listener_step_view(l, Event::Received(proposals[i]));
            let v2 = listener_step_view(v1, Event::Ready);
            let v3 = listener_step_view(v2, Event::Ready);
            let v4 = listener_step_view(v3, Event::Ready);
            assert(v1.state == (ListenerState::SendMessage { reply: Reply::Reject }));
            assert(v3.state == (ListenerState::Flush { selected: None }));
            assert(v4.state == ListenerState::RecvMessage);
            lemma_listener_step_keeps_wf(l, Event::Received(proposals[i]));
            lemma_listener_step_keeps_wf(v1, Event::Ready);
            lemma_listener_step_keeps_wf(v2, Event::Ready);
            lemma_listener_step_keeps_wf(v3, Event::Ready);
            assert(v4.entries == l.entries);
            lemma_listener_rounds_from(protocols, v4, proposals, i + 1);
            lemma_first_supported_same_entries(protocols, v4, l);
        }
    } else {
        assert forall|j: int| !is_first_supported(protocols, l, j) by {
            if is_first_supported(protocols, l, j) {
                assert(supports(l, protocols[j]));
            }
        }
    }
}

/// A `V1` dialer's whole negotiation, from its initial state: it sends
/// its header and, when it has a protocol, its first proposal; it reads
/// the listener's header `header_reply`, then `answers[j]` in reply to its
/// proposal of protocol `j`, every stream operation completing at once.
pub open spec fn dialer_negotiation(d: DialerView, header_reply: Message, answers: Seq<Message>) -> Step {
    let h1 = dialer_next(at(d, DialerState::SendHeader), Event::Ready);
    let h2 = dialer_next(at(d, h1.0), Event::Ready);
    let hdr = dialer_next(
        at(d, DialerState::AwaitProtocol { index: 0 }),
        Event::Received(header_reply),
    );
    if !(h2.0 is SendProtocol) {
        h2.1
    } else if hdr.0 != (DialerState::AwaitProtocol { index: 0 }) {
        hdr.1
    } else {
        dialer_rounds(d, 0, answers)
    }
}

/// A listener's whole negotiation, from its initial state: it reads the
/// dialer's header `dialer_header`, sends and flushes its own, then reads
/// `proposals[j]`, the dialer's proposal of protocol `j`, and answers it,
/// every stream operation completing at once, until the dialer has
/// nothing left to propose and closes the stream.
pub open spec fn listener_negotiation(l: ListenerView, dialer_header: Message, proposals: Seq<Message>) -> Step {
    let v1 = listener_step_view(l, Event::Received(dialer_header));
    let v2 = listener_step_view(v1, Event::Ready);
    let v3 = listener_step_view(v2, Event::Ready);
    let v4 = listener_step_view(v3, Event::Ready);
    if !(v1.state is SendHeader) {
        listener_next(l, Event::Received(dialer_header)).2
    } else if v4.state != ListenerState::RecvMessage {
        listener_next(v3, Event::Ready).2
    } else {
        listener_rounds(v4, proposals, 0)
    }
}

/// The listener given `names`, waiting for the dialer's first proposal.
pub open spec fn listener_waiting(names: Seq<Seq<u8>>) -> ListenerView {
    ListenerView {
        entries: valid_entries(names),
        state: ListenerState::RecvMessage,
        last_sent_na: false,
    }
}

/// Both sides of a negotiation between a `V1` dialer proposing
/// `protocols` and a listener given `names`, each from its initial state,
/// headers included, when every stream operation completes, each peer
/// reads every message of the other, and the dialer closes the stream
/// once it has nothing left to propose: when the listener supports some
/// of the dialer's protocols, the dialer selects the first of them, and
/// the listener selects the first position of the same protocol in
/// `names`; otherwise, an empty list of the dialer's included, both fail.
/// The dialer's protocols that the listener does not support must be
/// valid names (an invalid name that the dialer proposes ends the
/// negotiation with an error).
pub proof fn lemma_negotiation_both_sides(
    d: DialerView,
    names: Seq<Seq<u8>>,
    dialer_header: Message,
    listener_header: Message,
    proposals: Seq<Message>,
    answers: Seq<Message>,
)
    requires
        d.protocols.len() <= usize::MAX,
        d.version == Version::V1,
        names.len() <= usize::MAX,
        dialer_op(at(d, DialerState::StartHeader)) == OpView::StartSend(dialer_header@),
        crate::listener_select::listener_op(
            (ListenerView { state: ListenerState::StartHeader, ..crate::listener_runs::listener_initial(names) }),
        ) == OpView::StartSend(listener_header@),
        proposals.len() == d.protocols.len(),
        answers.len() == d.protocols.len(),
        forall|j: int|
            0 <= j < d.protocols.len() ==> (#[trigger] proposals[j])@ == MessageView::Protocol(
                d.protocols[j],
            ),
        forall|j: int|
            0 <= j < d.protocols.len() ==> (#[trigger] answers[j])@ == listener_answer(
                listener_waiting(names),
                proposals[j],
            ),
        forall|j: int|
            0 <= j < d.protocols.len() && !supports(listener_waiting(names), #[trigger] d.protocols[j])
                ==> is_valid_protocol(d.protocols[j]),
    ensures
        ({
            let l0 = crate::listener_runs::listener_initial(names);
            let lw = listener_waiting(names);
            &&& first_supported(d.protocols, lw) matches Some(j) ==> {
                &&& dialer_negotiation(d, listener_header, answers) == Step::Ready(
                    Ok(Selected { index: j as usize, negotiated: NegotiatedKind::Completed }),
                )
                &&& listener_negotiation(l0, dialer_header, proposals) matches Step::Ready(Ok(sel))
                    && {
                    &&& sel.negotiated == NegotiatedKind::Completed
                    &&& sel.index < names.len()
                    &&& names[sel.index as int] == d.protocols[j]
                    &&& forall|y: int| 0 <= y < sel.index ==> names[y] != d.protocols[j]
                }
            }
            &&& first_supported(d.protocols, lw) is None ==> {
                &&& dialer_negotiation(d, listener_header, answers) == fail(NegotiationError::Failed)
                &&& listener_negotiation(l0, dialer_header, proposals) == fail(
                    NegotiationError::Failed,
                )
            }
            &&& forall|j: int|
                0 <= j < d.protocols.len() ==> (supports(lw, #[trigger] d.protocols[j]) <==> exists|
                    x: int,
                | 0 <= x < names.len() && names[x] == d.protocols[j] && is_valid_protocol(names[x]))
        }),
{
    let l = listener_waiting(names);
    let l0 = crate::listener_runs::listener_initial(names);
    crate::listener_select::lemma_valid_entries(names);
    crate::listener_select::lemma_valid_entries_len(names);
    assert(listener_wf(l));
    assert(listener_wf(l0));
    // The listener's opening: header read, own header sent and flushed.
    let v1 = listener_step_view(l0, Event::Received(dialer_header));
    let v2 = listener_step_view(v1, Event::Ready);
    let v3 = listener_step_view(v2, Event::Ready);
    let v4 = listener_step_view(v3, Event::Ready);
    assert(v4 == l);
    lemma_listener_rounds_from(d.protocols, l, proposals, 0);
    if d.protocols.len() > 0 {
        lemma_negotiation_selects_first_supported(d, l, proposals, answers);
    } else {
        assert forall|j: int| !is_first_supported(d.protocols, l, j) by {}
    }
    if let Some(j) = first_supported(d.protocols, l) {
        let c = choose|c: int| is_first_supported(d.protocols, l, c);
        assert(is_first_supported(d.protocols, l, c));
        let p = d.protocols[j];
        let k0 = choose|k: int| 0 <= k < entry_names(l.entries).len() && entry_names(l.entries)[k] == p;
        assert(l.entries[k0].1 == p);
        crate::listener_select::lemma_first_entry_exists(l.entries, p, k0);
        let f = choose|f: int| is_first_entry(l.entries, p, f);
        assert(is_first_entry(l.entries, p, f));
        lemma_first_entry_position(names, p, f);
    }
    assert forall|j: int|
        0 <= j < d.protocols.len() implies (supports(l, #[trigger] d.protocols[j]) <==> exists|x: int|
        0 <= x < names.len() && names[x] == d.protocols[j] && is_valid_protocol(names[x])) by {
        let p = d.protocols[j];
        if supports(l, p) {
            let k = choose|k: int| 0 <= k < entry_names(l.entries).len() && entry_names(l.entries)[k] == p;
            assert(l.entries[k].1 == p);
            let x = l.entries[k].0 as int;
            assert(names[x] == p);
        }
        if exists|x: int| 0 <= x < names.len() && names[x] == p && is_valid_protocol(names[x]) {
            let x = choose|x: int| 0 <= x < names.len() && names[x] == p && is_valid_protocol(names[x]);
            let k = choose|k: int| 0 <= k < l.entries.len() && (#[trigger] l.entries[k]).0 == x;
            assert(entry_names(l.entries)[k] == p);
        }
    }
}

} // verus!
