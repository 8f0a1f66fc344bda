//! Whole runs of a listener: the steps it takes over a sequence of answers
//! of its stream, and what holds of them.

use vstd::prelude::*;
use crate::io::{
    answered, drop_pending, event_answers, received_messages, sent_messages, Event,
    NegotiatedKind, OpView, Selected, Step,
};
use crate::listener_select::{
    entry_names, first_entry, is_first_entry, lemma_listener_step_keeps_wf, lemma_valid_entries,
    listener_next, listener_op, listener_reply, listener_step_view, listener_wf, valid_entries, ListenerState,
    ListenerView, Reply,
};
use crate::protocol::{is_valid_protocol, HeaderLine, MessageView};

verus! {

/// A listener that was just given the protocols `names`.
pub open spec fn listener_initial(names: Seq<Seq<u8>>) -> ListenerView {
    ListenerView {
        entries: valid_entries(names),
        state: ListenerState::RecvHeader,
        last_sent_na: false,
    }
}

/// The listener after the answers `events`, in order.
pub open spec fn listener_run(l: ListenerView, events: Seq<Event>) -> ListenerView
    decreases events.len(),
{
    if events.len() == 0 {
        l
    } else {
        listener_step_view(listener_run(l, events.drop_last()), events.last())
    }
}

/// The trace of a run: for each answer, the operation the listener asked
/// for, the answer, and the step the listener took.
pub open spec fn listener_trace(l: ListenerView, events: Seq<Event>) -> Seq<(OpView, Event, Step)>
    decreases events.len(),
{
    if events.len() == 0 {
        Seq::empty()
    } else {
        let prev = listener_run(l, events.drop_last());
        listener_trace(l, events.drop_last()).push(
            (listener_op(prev), events.last(), listener_next(prev, events.last()).2),
        )
    }
}

/// A run is valid when each answer answers the operation asked for, and
/// no answer comes after the negotiation is over.
pub open spec fn listener_valid_run(l: ListenerView, events: Seq<Event>) -> bool
    decreases events.len(),
{
    events.len() == 0 || {
        &&& listener_valid_run(l, events.drop_last())
        &&& listener_run(l, events.drop_last()).state != ListenerState::Done
        &&& event_answers(listener_op(listener_run(l, events.drop_last())), events.last())
    }
}

/// A run keeps the listener's supported protocols, and its well-formedness.
pub proof fn lemma_listener_run_basics(l: ListenerView, events: Seq<Event>)
    ensures
        listener_run(l, events).entries == l.entries,
        listener_trace(l, events).len() == events.len(),
        listener_wf(l) ==> listener_wf(listener_run(l, events)),
    decreases events.len(),
{
    if events.len() > 0 {
        lemma_listener_run_basics(l, events.drop_last());
        let prev = listener_run(l, events.drop_last());
        if listener_wf(l) && prev.state != ListenerState::Done {
            lemma_listener_step_keeps_wf(prev, events.last());
        }
    }
}

/// Runs over prefixes of the answers are prefixes of the run.
pub proof fn lemma_listener_run_prefix(l: ListenerView, events: Seq<Event>, k: int)
    requires
        0 <= k <= events.len(),
    ensures
        listener_trace(l, events.take(k)) == listener_trace(l, events).take(k),
        listener_valid_run(l, events) ==> listener_valid_run(l, events.take(k)),
        k < events.len() ==> listener_trace(l, events)[k] == (
            listener_op(listener_run(l, events.take(k))),
            events[k],
            listener_next(listener_run(l, events.take(k)), events[k]).2,
        ),
        k < events.len() && listener_valid_run(l, events) ==> {
            &&& listener_run(l, events.take(k)).state != ListenerState::Done
            &&& event_answers(listener_op(listener_run(l, events.take(k))), events[k])
        },
    decreases events.len(),
{
    lemma_listener_run_basics(l, events);
    if k == events.len() {
        assert(events.take(k) =~= events);
    } else {
        let dl = events.drop_last();
        assert(events.take(k) =~= dl.take(k));
        lemma_listener_run_prefix(l, dl, k);
        lemma_listener_run_basics(l, dl);
        assert(listener_trace(l, events).take(k) =~= listener_trace(l, dl).take(k));
        if k == dl.len() {
            assert(dl.take(k) =~= dl);
        } else {
            assert(listener_trace(l, events)[k] == listener_trace(l, dl)[k]);
            assert(events[k] == dl[k]);
        }
    }
}

/// Answering `Pending` leaves the listener as it is and yields `Pending`.
pub proof fn lemma_listener_pending_is_idle(l: ListenerView)
    ensures
        listener_next(l, Event::Pending) == (l.state, l.last_sent_na, Step::Pending),
        listener_step_view(l, Event::Pending) == l,
{
}

proof fn lemma_listener_run_drop_pending(l: ListenerView, events: Seq<Event>)
    ensures
        listener_run(l, events) == listener_run(l, drop_pending(events)),
        listener_trace(l, drop_pending(events)) == answered(listener_trace(l, events)),
    decreases events.len(),
{
    if events.len() > 0 {
        let dl = events.drop_last();
        lemma_listener_run_drop_pending(l, dl);
        let t = listener_trace(l, events);
        assert(t.drop_last() =~= listener_trace(l, dl));
        assert(t.last().1 == events.last());
        if events.last() == Event::Pending {
            lemma_listener_pending_is_idle(listener_run(l, dl));
        } else {
            let dp = drop_pending(dl).push(events.last());
            assert(dp.drop_last() =~= drop_pending(dl));
            assert(drop_pending(events) == dp);
            assert(listener_trace(l, dp) == listener_trace(l, drop_pending(dl)).push(t.last()));
        }
    }
}

/// Pending answers change nothing: two runs whose stream answers alike,
/// except that some operations first answer `Pending` (finitely often),
/// end in the same state and agree at every answer that is not `Pending`:
/// the same operations, the same messages read and sent, and the same
/// steps, so no message is lost, skipped or sent twice across a `Pending`.
pub proof fn lemma_listener_pending_changes_nothing(
    l: ListenerView,
    e1: Seq<Event>,
    e2: Seq<Event>,
)
    requires
        drop_pending(e1) == drop_pending(e2),
    ensures
        listener_run(l, e1) == listener_run(l, e2),
        answered(listener_trace(l, e1)) == answered(listener_trace(l, e2)),
{
    lemma_listener_run_drop_pending(l, e1);
    lemma_listener_run_drop_pending(l, e2);
}

/// In a valid run the listener yields `Pending` exactly when the stream
/// answered `Pending`.
pub proof fn lemma_listener_waits_only_on_pending(l: ListenerView, events: Seq<Event>)
    requires
        listener_valid_run(l, events),
    ensures
        forall|k: int|
            0 <= k < events.len() ==> ((#[trigger] listener_trace(l, events)[k]).2 == Step::Pending
                <==> events[k] == Event::Pending),
{
    assert forall|k: int| 0 <= k < events.len() implies ((#[trigger] listener_trace(
        l,
        events,
    )[k]).2 == Step::Pending <==> events[k] == Event::Pending) by {
        lemma_listener_run_prefix(l, events, k);
    }
}

/// What holds of a listener's run at any point: the messages read and sent,
/// given where the listener stands.
pub open spec fn listener_run_inv(l: ListenerView, t: Seq<(OpView, Event, Step)>) -> bool {
    let sent = sent_messages(t);
    let recv = received_messages(t);
    &&& l.state != ListenerState::Done ==> (recv.len() > 0 ==> recv[0] is Header)
    &&& sent.len() > 0 ==> sent[0] == MessageView::Header(HeaderLine::V1) && recv.len() > 0
    &&& match l.state {
        ListenerState::RecvHeader => sent.len() == 0 && recv.len() == 0,
        ListenerState::SendHeader | ListenerState::StartHeader => sent.len() == 0 && recv.len()
            > 0,
        ListenerState::RecvMessage => sent.len() > 0,
        ListenerState::SendMessage { reply } | ListenerState::StartMessage { reply } => {
            &&& sent.len() > 0
            &&& reply matches Reply::Confirm { entry } ==> {
                &&& recv.len() > 0
                &&& recv.last() == MessageView::Protocol(l.entries[entry as int].1)
                &&& is_first_entry(l.entries, l.entries[entry as int].1, entry as int)
            }
        },
        ListenerState::Flush { selected } => {
            &&& sent.len() > 0
            &&& selected matches Some(k) ==> {
                &&& recv.len() > 0
                &&& recv.last() == MessageView::Protocol(l.entries[k as int].1)
                &&& is_first_entry(l.entries, l.entries[k as int].1, k as int)
                &&& sent.last() == MessageView::Protocol(l.entries[k as int].1)
            }
        },
        ListenerState::Done => true,
    }
}

proof fn lemma_listener_run_inv(l: ListenerView, events: Seq<Event>)
    requires
        listener_wf(l),
        l.state == ListenerState::RecvHeader,
        listener_valid_run(l, events),
    ensures
        listener_run_inv(listener_run(l, events), listener_trace(l, events)),
    decreases events.len(),
{
    lemma_listener_run_basics(l, events);
    if events.len() > 0 {
        let dl = events.drop_last();
        lemma_listener_run_inv(l, dl);
        lemma_listener_run_basics(l, dl);
        let prev = listener_run(l, dl);
        let t = listener_trace(l, events);
        assert(t.drop_last() =~= listener_trace(l, dl));
        let sent = sent_messages(t);
        let psent = sent_messages(listener_trace(l, dl));
        let recv = received_messages(t);
        let precv = received_messages(listener_trace(l, dl));
        assert(psent.len() > 0 ==> sent[0] == psent[0]);
        assert(precv.len() > 0 ==> recv[0] == precv[0]);
        if let ListenerState::RecvMessage = prev.state {
            if let Event::Received(m) = events.last() {
                if let MessageView::Protocol(p) = m@ {
                    if let Some(k) = first_entry(prev.entries, p) {
                        let c = choose|c: int| is_first_entry(prev.entries, p, c);
                        assert(is_first_entry(prev.entries, p, c));
                    }
                }
            }
        }
    }
}

/// Where the listener's selection sits in its list `names`: the
/// first position holding the protocol `p`.
pub proof fn lemma_first_entry_position(names: Seq<Seq<u8>>, p: Seq<u8>, k: int)
    requires
        names.len() <= usize::MAX,
        is_first_entry(valid_entries(names), p, k),
    ensures
        ({
            let x = valid_entries(names)[k].0 as int;
            &&& 0 <= x < names.len()
            &&& names[x] == p
            &&& is_valid_protocol(p)
            &&& forall|y: int| 0 <= y < x ==> names[y] != p
        }),
{
    let e = valid_entries(names);
    lemma_valid_entries(names);
    let x = e[k].0 as int;
    assert(e[k].1 == names[x]);
    assert forall|y: int| 0 <= y < x implies names[y] != p by {
        if names[y] == p {
            let k2 = choose|k2: int| 0 <= k2 < e.len() && (#[trigger] e[k2]).0 == y;
            if k2 > k {
                assert(e[k].0 < e[k2].0);
            } else if k2 == k {
            } else {
                assert(e[k2].1 == names[y]);
            }
        }
    }
}

/// The selection of a listener's run: when a run of a listener given the
/// protocols `names` ends with the selection `sel`, the last message it
/// read is the proposal of a protocol `p`, and `sel.index` is the first
/// position of `p` in `names`; the messages it sent begin with its V1
/// header and end with its confirmation of `p`, which it flushed before
/// the run ended; it sent nothing before it read the dialer's header; and
/// the negotiation is complete.
pub proof fn lemma_listener_selection(names: Seq<Seq<u8>>, events: Seq<Event>, sel: Selected)
    requires
        names.len() <= usize::MAX,
        listener_valid_run(listener_initial(names), events),
        events.len() > 0,
        listener_trace(listener_initial(names), events).last().2 == Step::Ready(Ok(sel)),
    ensures
        ({
            let t = listener_trace(listener_initial(names), events);
            let sent = sent_messages(t);
            let recv = received_messages(t);
            let p = names[sel.index as int];
            &&& sel.index < names.len()
            &&& is_valid_protocol(p)
            &&& forall|y: int| 0 <= y < sel.index ==> names[y] != p
            &&& recv.len() > 0 && recv[0] is Header
            &&& recv.last() == MessageView::Protocol(p)
            &&& sent.len() >= 2
            &&& sent[0] == MessageView::Header(HeaderLine::V1)
            &&& sent.last() == MessageView::Protocol(p)
            &&& t.last().0 == OpView::PollFlush
            &&& t.last().1 == Event::Ready
            &&& sel.negotiated == NegotiatedKind::Completed
            &&& forall|k: int|
                0 <= k <= events.len() && sent_messages(#[trigger] t.take(k)).len() > 0
                    ==> received_messages(t.take(k)).len() > 0
        }),
{
    let l = listener_initial(names);
    let t = listener_trace(l, events);
    lemma_valid_entries(names);
    crate::listener_select::lemma_valid_entries_len(names);
    assert(listener_wf(l));
    lemma_listener_run_basics(l, events);
    let dl = events.drop_last();
    lemma_listener_run_basics(l, dl);
    lemma_listener_run_inv(l, dl);
    lemma_listener_run_inv(l, events);
    let prev = listener_run(l, dl);
    assert(t.drop_last() =~= listener_trace(l, dl));
    if let ListenerState::Flush { selected: Some(k) } = prev.state {
        lemma_first_entry_position(names, prev.entries[k as int].1, k as int);
    }
    assert forall|k: int|
        0 <= k <= events.len() && sent_messages(#[trigger] t.take(k)).len() > 0 implies received_messages(
        t.take(k),
    ).len() > 0 by {
        lemma_listener_run_prefix(l, events, k);
        lemma_listener_run_inv(l, events.take(k));
    }
}

/// There is only one first entry of a protocol.
proof fn lemma_first_entry_unique(entries: Seq<(usize, Seq<u8>)>, p: Seq<u8>, a: int, b: int)
    requires
        is_first_entry(entries, p, a),
        is_first_entry(entries, p, b),
    ensures
        a == b,
{
    if a < b {
        assert(entries[a].1 != p);
    }
    if b < a {
        assert(entries[b].1 != p);
    }
}

/// Two listeners that stand alike and support the same protocols in the
/// same order, whatever positions their lists gave them.
pub open spec fn listeners_alike(l1: ListenerView, l2: ListenerView) -> bool {
    &&& listener_wf(l1)
    &&& listener_wf(l2)
    &&& entry_names(l1.entries) == entry_names(l2.entries)
    &&& l1.state == l2.state
    &&& l1.last_sent_na == l2.last_sent_na
}

/// Steps of two such listeners correspond when they are the same, or both
/// select the protocol of the same entry.
pub open spec fn steps_correspond(l1: ListenerView, l2: ListenerView, s1: Step, s2: Step) -> bool {
    s1 == s2 || exists|k: int|
        0 <= k < l1.entries.len() && s1 == Step::Ready(
            Ok(Selected { index: l1.entries[k].0, negotiated: NegotiatedKind::Completed }),
        ) && s2 == Step::Ready(
            Ok(Selected { index: (#[trigger] l2.entries[k]).0, negotiated: NegotiatedKind::Completed }),
        )
}

proof fn lemma_listeners_alike_step(l1: ListenerView, l2: ListenerView, event: Event)
    requires
        listeners_alike(l1, l2),
    ensures
        listener_op(l1) == listener_op(l2),
        listeners_alike(listener_step_view(l1, event), listener_step_view(l2, event)),
        steps_correspond(l1, l2, listener_next(l1, event).2, listener_next(l2, event).2),
{
    let e1 = l1.entries;
    let e2 = l2.entries;
    assert(e1.len() == entry_names(e1).len());
    assert forall|k: int| 0 <= k < e1.len() implies #[trigger] e1[k].1 == e2[k].1 by {
        assert(entry_names(e1)[k] == e1[k].1);
        assert(entry_names(e2)[k] == e2[k].1);
    }
    if let ListenerState::RecvMessage = l1.state {
        if let Event::Received(m) = event {
            if let MessageView::Protocol(p) = m@ {
                assert forall|k: int| #[trigger] is_first_entry(e1, p, k) == is_first_entry(e2, p, k) by {
                    if 0 <= k < e1.len() {
                        assert forall|j: int| 0 <= j < k implies e1[j].1 == e2[j].1 by {}
                    }
                }
                if exists|k: int| is_first_entry(e1, p, k) {
                    let c1 = choose|k: int| is_first_entry(e1, p, k);
                    let c2 = choose|k: int| is_first_entry(e2, p, k);
                    assert(is_first_entry(e1, p, c1));
                    assert(is_first_entry(e2, p, c1));
                    lemma_first_entry_unique(e2, p, c1, c2);
                } else if exists|k: int| is_first_entry(e2, p, k) {
                    let c2 = choose|k: int| is_first_entry(e2, p, k);
                    assert(is_first_entry(e1, p, c2));
                }
                assert(first_entry(e1, p) == first_entry(e2, p));
                assert(listener_reply(e1, m@) == listener_reply(e2, m@));
            }
        }
    }
    if l1.state != ListenerState::Done {
        lemma_listener_step_keeps_wf(l1, event);
        lemma_listener_step_keeps_wf(l2, event);
    }
    if let ListenerState::Flush { selected: Some(k) } = l1.state {
        if event == Event::Ready {
            assert(e2[k as int] == l2.entries[k as int]);
        }
    }
    if let ListenerState::StartMessage { reply: Reply::List } = l1.state {
        assert(entry_names(e1) == entry_names(e2));
    }
}

/// Two such listeners run alike: over the same answers they end alike, and
/// at each answer they ask for the same operation and take corresponding
/// steps.
pub proof fn lemma_listeners_alike_run(l1: ListenerView, l2: ListenerView, events: Seq<Event>)
    requires
        listeners_alike(l1, l2),
    ensures
        listeners_alike(listener_run(l1, events), listener_run(l2, events)),
        listener_trace(l1, events).len() == events.len(),
        listener_trace(l2, events).len() == events.len(),
        forall|k: int|
            0 <= k < events.len() ==> {
                &&& (#[trigger] listener_trace(l1, events)[k]).0 == listener_trace(l2, events)[k].0
                &&& listener_trace(l1, events)[k].1 == listener_trace(l2, events)[k].1
                &&& steps_correspond(
                    l1,
                    l2,
                    listener_trace(l1, events)[k].2,
                    listener_trace(l2, events)[k].2,
                )
            },
    decreases events.len(),
{
    lemma_listener_run_basics(l1, events);
    lemma_listener_run_basics(l2, events);
    if events.len() > 0 {
        let dl = events.drop_last();
        lemma_listeners_alike_run(l1, l2, dl);
        lemma_listener_run_basics(l1, dl);
        lemma_listener_run_basics(l2, dl);
        let r1 = listener_run(l1, dl);
        let r2 = listener_run(l2, dl);
        lemma_listeners_alike_step(r1, r2, events.last());
        let t1 = listener_trace(l1, events);
        let t2 = listener_trace(l2, events);
        assert forall|k: int| 0 <= k < dl.len() implies t1[k] == listener_trace(l1, dl)[k] && t2[k]
            == listener_trace(l2, dl)[k] by {}
    }
}

/// A list of valid protocols has one entry for each, at its own position.
proof fn lemma_valid_entries_all_valid(names: Seq<Seq<u8>>)
    requires
        names.len() <= usize::MAX,
        forall|k: int| 0 <= k < names.len() ==> is_valid_protocol(#[trigger] names[k]),
    ensures
        valid_entries(names).len() == names.len(),
        forall|k: int|
            0 <= k < names.len() ==> #[trigger] valid_entries(names)[k] == (k as usize, names[k]),
    decreases names.len(),
{
    if names.len() > 0 {
        let dl = names.drop_last();
        lemma_valid_entries_all_valid(dl);
        assert forall|k: int| 0 <= k < names.len() implies #[trigger] valid_entries(names)[k] == (
            k as usize,
            names[k],
        ) by {
            if k < dl.len() {
                assert(dl[k] == names[k]);
            }
        }
    }
}

/// Two steps that select the same protocol, by its positions in two lists.
pub open spec fn same_selection(
    names1: Seq<Seq<u8>>,
    names2: Seq<Seq<u8>>,
    s1: Step,
    s2: Step,
) -> bool {
    s1 == s2 || {
        &&& s1 matches Step::Ready(Ok(a))
        &&& s2 matches Step::Ready(Ok(b))
        &&& a.negotiated == b.negotiated
        &&& a.index < names1.len()
        &&& b.index < names2.len()
        &&& names1[a.index as int] == names2[b.index as int]
    }
}

/// Ignoring the invalid names of a list is the same as filtering them out
/// first: a listener given `names` and one given only the valid names of
/// `names`, in order, support the same protocols, stand alike after the
/// same answers, ask for the same operations, and take the same steps,
/// except that when they select a protocol, each selects it by its
/// position in its own list. An invalid name is never listed, confirmed
/// or selected.
pub proof fn lemma_listener_ignores_invalid_names(names: Seq<Seq<u8>>, events: Seq<Event>)
    requires
        names.len() <= usize::MAX,
    ensures
        ({
            let kept = entry_names(valid_entries(names));
            let l1 = listener_initial(names);
            let l2 = listener_initial(kept);
            &&& forall|k: int| 0 <= k < kept.len() ==> is_valid_protocol(#[trigger] kept[k])
            &&& entry_names(l2.entries) == kept
            &&& listener_run(l1, events).state == listener_run(l2, events).state
            &&& listener_run(l1, events).last_sent_na == listener_run(l2, events).last_sent_na
            &&& forall|k: int|
                0 <= k < events.len() ==> {
                    &&& (#[trigger] listener_trace(l1, events)[k]).0 == listener_trace(
                        l2,
                        events,
                    )[k].0
                    &&& same_selection(
                        names,
                        kept,
                        listener_trace(l1, events)[k].2,
                        listener_trace(l2, events)[k].2,
                    )
                }
        }),
{
    let e1 = valid_entries(names);
    let kept = entry_names(e1);
    let l1 = listener_initial(names);
    let l2 = listener_initial(kept);
    lemma_valid_entries(names);
    crate::listener_select::lemma_valid_entries_len(names);
    assert forall|k: int| 0 <= k < kept.len() implies is_valid_protocol(#[trigger] kept[k]) by {
        assert(kept[k] == e1[k].1);
    }
    lemma_valid_entries_all_valid(kept);
    let e2 = valid_entries(kept);
    assert(entry_names(e2) =~= kept);
    assert(listeners_alike(l1, l2));
    lemma_listeners_alike_run(l1, l2, events);
    let t1 = listener_trace(l1, events);
    let t2 = listener_trace(l2, events);
    assert forall|k: int| 0 <= k < events.len() implies same_selection(
        names,
        kept,
        #[trigger] t1[k].2,
        t2[k].2,
    ) by {
        if t1[k].2 != t2[k].2 {
            let j = choose|j: int|
                0 <= j < l1.entries.len() && t1[k].2 == Step::Ready(
                    Ok(Selected { index: l1.entries[j].0, negotiated: NegotiatedKind::Completed }),
                ) && t2[k].2 == Step::Ready(
                    Ok(
                        Selected {
                            index: (#[trigger] l2.entries[j]).0,
                            negotiated: NegotiatedKind::Completed,
                        },
                    ),
                );
            assert(e2[j] == (j as usize, kept[j]));
            assert(kept[j] == e1[j].1);
        }
    }
}

} // verus!
