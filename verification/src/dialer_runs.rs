//! Whole runs of a dialer: the steps it takes over a sequence of answers
//! of its stream, and what holds of them.

use vstd::prelude::*;
use crate::dialer_select::{
    dialer_next, dialer_op, dialer_wf, lemma_dialer_selects_confirmed, lemma_dialer_step_keeps_wf,
    proposes_last, with_version, DialerState, DialerView,
};
use crate::io::{
    answered, drop_pending, event_answers, flushes_done, received_messages, rejections_read, sent_messages,
    Event, NegotiatedKind, OpView, Step,
};
use crate::protocol::{HeaderLine, MessageView, Version};

verus! {

/// The dialer after one answer of the stream.
pub open spec fn dialer_step_view(d: DialerView, event: Event) -> DialerView {
    DialerView { state: dialer_next(d, event).0, ..d }
}

/// The dialer after the answers `events`, in order.
pub open spec fn dialer_run(d: DialerView, events: Seq<Event>) -> DialerView
    decreases events.len(),
{
    if events.len() == 0 {
        d
    } else {
        dialer_step_view(dialer_run(d, events.drop_last()), events.last())
    }
}

/// The trace of a run: for each answer, the operation the dialer asked
/// for, the answer, and the step the dialer took.
pub open spec fn dialer_trace(d: DialerView, events: Seq<Event>) -> Seq<(OpView, Event, Step)>
    decreases events.len(),
{
    if events.len() == 0 {
        Seq::empty()
    } else {
        let prev = dialer_run(d, events.drop_last());
        dialer_trace(d, events.drop_last()).push(
            (dialer_op(prev), events.last(), dialer_next(prev, events.last()).1),
        )
    }
}

/// A run is valid when each answer answers the operation asked for, and
/// no answer comes after the negotiation is over.
pub open spec fn dialer_valid_run(d: DialerView, events: Seq<Event>) -> bool
    decreases events.len(),
{
    events.len() == 0 || {
        &&& dialer_valid_run(d, events.drop_last())
        &&& dialer_run(d, events.drop_last()).state != DialerState::Done
        &&& event_answers(dialer_op(dialer_run(d, events.drop_last())), events.last())
    }
}

/// A run keeps the dialer's protocols and version, and its well-formedness.
pub proof fn lemma_dialer_run_basics(d: DialerView, events: Seq<Event>)
    ensures
        dialer_run(d, events).protocols == d.protocols,
        dialer_run(d, events).version == d.version,
        dialer_trace(d, events).len() == events.len(),
        dialer_wf(d) ==> dialer_wf(dialer_run(d, events)),
    decreases events.len(),
{
    if events.len() > 0 {
        lemma_dialer_run_basics(d, events.drop_last());
        let prev = dialer_run(d, events.drop_last());
        if dialer_wf(d) && prev.state != DialerState::Done {
            lemma_dialer_step_keeps_wf(prev, events.last());
        }
    }
}

/// Runs over prefixes of the answers are prefixes of the run.
pub proof fn lemma_dialer_run_prefix(d: DialerView, events: Seq<Event>, k: int)
    requires
        0 <= k <= events.len(),
    ensures
        dialer_trace(d, events.take(k)) == dialer_trace(d, events).take(k),
        dialer_valid_run(d, events) ==> dialer_valid_run(d, events.take(k)),
        k < events.len() ==> dialer_trace(d, events)[k] == (
            dialer_op(dialer_run(d, events.take(k))),
            events[k],
            dialer_next(dialer_run(d, events.take(k)), events[k]).1,
        ),
        k < events.len() && dialer_valid_run(d, events) ==> {
            &&& dialer_run(d, events.take(k)).state != DialerState::Done
            &&& event_answers(dialer_op(dialer_run(d, events.take(k))), events[k])
        },
    decreases events.len(),
{
    lemma_dialer_run_basics(d, events);
    if k == events.len() {
        assert(events.take(k) =~= events);
    } else {
        let dl = events.drop_last();
        assert(events.take(k) =~= dl.take(k));
        lemma_dialer_run_prefix(d, dl, k);
        lemma_dialer_run_basics(d, dl);
        assert(dialer_trace(d, events).take(k) =~= dialer_trace(d, dl).take(k));
        if k == dl.len() {
            assert(dl.take(k) =~= dl);
        } else {
            assert(dialer_trace(d, events)[k] == dialer_trace(d, dl)[k]);
            assert(events[k] == dl[k]);
        }
    }
}

/// Answering `Pending` leaves the dialer as it is and yields `Pending`.
pub proof fn lemma_dialer_pending_is_idle(d: DialerView)
    ensures
        dialer_next(d, Event::Pending) == (d.state, Step::Pending),
        dialer_step_view(d, Event::Pending) == d,
{
}

/// A run with the `Pending` answers left out is the same run: it ends in
/// the same state, and asks for, reads and sends the same, and takes the
/// same steps, at every answer that is not `Pending`.
proof fn lemma_dialer_run_drop_pending(d: DialerView, events: Seq<Event>)
    ensures
        dialer_run(d, events) == dialer_run(d, drop_pending(events)),
        dialer_trace(d, drop_pending(events)) == answered(dialer_trace(d, events)),
    decreases events.len(),
{
    if events.len() > 0 {
        let dl = events.drop_last();
        lemma_dialer_run_drop_pending(d, dl);
        let t = dialer_trace(d, events);
        assert(t.drop_last() =~= dialer_trace(d, dl));
        assert(t.last().1 == events.last());
        if events.last() == Event::Pending {
            lemma_dialer_pending_is_idle(dialer_run(d, dl));
        } else {
            let dp = drop_pending(dl).push(events.last());
            assert(dp.drop_last() =~= drop_pending(dl));
            assert(drop_pending(events) == dp);
            assert(dialer_trace(d, dp) == dialer_trace(d, drop_pending(dl)).push(t.last()));
        }
    }
}

/// Pending answers change nothing: two runs whose stream answers alike,
/// except that some operations first answer `Pending` (finitely often),
/// end in the same state and agree at every answer that is not `Pending`:
/// the same operations, the same messages read and sent, and the same
/// steps, so no message is lost, skipped or sent twice across a `Pending`.
pub proof fn lemma_dialer_pending_changes_nothing(d: DialerView, e1: Seq<Event>, e2: Seq<Event>)
    requires
        drop_pending(e1) == drop_pending(e2),
    ensures
        dialer_run(d, e1) == dialer_run(d, e2),
        answered(dialer_trace(d, e1)) == answered(dialer_trace(d, e2)),
{
    lemma_dialer_run_drop_pending(d, e1);
    lemma_dialer_run_drop_pending(d, e2);
}

/// In a valid run the dialer yields `Pending` exactly when the stream
/// answered `Pending`.
pub proof fn lemma_dialer_waits_only_on_pending(d: DialerView, events: Seq<Event>)
    requires
        dialer_valid_run(d, events),
    ensures
        forall|k: int|
            0 <= k < events.len() ==> ((#[trigger] dialer_trace(d, events)[k]).2 == Step::Pending
                <==> events[k] == Event::Pending),
{
    assert forall|k: int| 0 <= k < events.len() implies ((#[trigger] dialer_trace(
        d,
        events,
    )[k]).2 == Step::Pending <==> events[k] == Event::Pending) by {
        lemma_dialer_run_prefix(d, events, k);
    }
}

/// What holds of a dialer's run at any point: the messages sent and the
/// rejections read, given where the dialer stands.
pub open spec fn dialer_run_inv(d: DialerView, t: Seq<(OpView, Event, Step)>) -> bool {
    let sent = sent_messages(t);
    let r = rejections_read(t);
    let f = flushes_done(t);
    let n = d.protocols.len();
    &&& sent.len() > 0 ==> sent[0] == MessageView::Header(HeaderLine::V1)
    &&& forall|m: int| 1 <= m < sent.len() ==> sent[m] == MessageView::Protocol(d.protocols[m - 1])
    &&& sent.len() <= n + 1
    &&& sent.len() <= r + 2
    &&& match d.state {
        DialerState::SendHeader | DialerState::StartHeader => sent.len() == 0 && r == 0 && f == 0,
        DialerState::SendProtocol { index } | DialerState::StartProtocol { index } => sent.len()
            == index + 1 && r == index && f == index,
        DialerState::FlushProtocol { index } => sent.len() == index + 2 && r == index && f == index,
        DialerState::AwaitProtocol { index } => sent.len() == index + 2 && r == index && f == index
            + 1,
        DialerState::Done => true,
    }
}

proof fn lemma_dialer_run_inv(d: DialerView, events: Seq<Event>)
    requires
        dialer_wf(d),
        d.state == DialerState::SendHeader,
        dialer_valid_run(d, events),
    ensures
        dialer_run_inv(dialer_run(d, events), dialer_trace(d, events)),
    decreases events.len(),
{
    lemma_dialer_run_basics(d, events);
    if events.len() > 0 {
        let dl = events.drop_last();
        lemma_dialer_run_inv(d, dl);
        lemma_dialer_run_basics(d, dl);
        let t = dialer_trace(d, events);
        assert(t.drop_last() =~= dialer_trace(d, dl));
        let sent = sent_messages(t);
        let psent = sent_messages(dialer_trace(d, dl));
        assert forall|m: int| 1 <= m < psent.len() implies sent[m] == psent[m] by {}
    }
}

/// The messages of a dialer's run: it sends its header, then proposes its
/// protocols in order, each at most once, proposing the next only after
/// reading a rejection of the one before; it flushes only after its first
/// proposal, so that the header goes with it; and the protocol it selects
/// is the last one it proposed. A `V1` dialer selects a protocol only once
/// it has read the listener's confirmation of that very protocol.
pub proof fn lemma_dialer_message_trace(d: DialerView, events: Seq<Event>)
    requires
        dialer_wf(d),
        d.state == DialerState::SendHeader,
        dialer_valid_run(d, events),
    ensures
        ({
            let t = dialer_trace(d, events);
            let sent = sent_messages(t);
            &&& sent.len() > 0 ==> sent[0] == MessageView::Header(HeaderLine::V1)
            &&& forall|m: int|
                1 <= m < sent.len() ==> sent[m] == MessageView::Protocol(d.protocols[m - 1])
            &&& sent.len() <= d.protocols.len() + 1
            &&& forall|k: int|
                0 <= k <= events.len() ==> sent_messages(#[trigger] t.take(k)).len()
                    <= rejections_read(t.take(k)) + 2
            &&& forall|k: int|
                0 <= k < events.len() && (#[trigger] t[k]).0 == OpView::PollFlush ==> sent_messages(
                    t.take(k),
                ).len() >= 2
            &&& t.len() > 0 ==> (t.last().2 matches Step::Ready(Ok(sel)) ==> {
                &&& sel.index < d.protocols.len()
                &&& sent.len() == sel.index + 2
                &&& sent.last() == MessageView::Protocol(d.protocols[sel.index as int])
            })
            &&& t.len() > 0 && d.version == Version::V1 ==> (t.last().2 matches Step::Ready(
                Ok(sel),
            ) ==> {
                &&& sel.negotiated == NegotiatedKind::Completed
                &&& t.last().0 == OpView::PollNext
                &&& received_messages(t).last() == MessageView::Protocol(
                    d.protocols[sel.index as int],
                )
            })
        }),
{
    let t = dialer_trace(d, events);
    lemma_dialer_run_basics(d, events);
    lemma_dialer_run_inv(d, events);
    assert forall|k: int| 0 <= k <= events.len() implies sent_messages(#[trigger] t.take(k)).len()
        <= rejections_read(t.take(k)) + 2 by {
        lemma_dialer_run_prefix(d, events, k);
        lemma_dialer_run_inv(d, events.take(k));
    }
    assert forall|k: int|
        0 <= k < events.len() && (#[trigger] t[k]).0 == OpView::PollFlush implies sent_messages(
        t.take(k),
    ).len() >= 2 by {
        lemma_dialer_run_prefix(d, events, k);
        lemma_dialer_run_inv(d, events.take(k));
        lemma_dialer_run_basics(d, events.take(k));
    }
    if events.len() > 0 {
        let dl = events.drop_last();
        let prev = dialer_run(d, dl);
        lemma_dialer_run_basics(d, dl);
        lemma_dialer_run_inv(d, dl);
        assert(t.drop_last() =~= dialer_trace(d, dl));
        if let Step::Ready(Ok(sel)) = t.last().2 {
            lemma_dialer_selects_confirmed(prev, events.last(), sel);
        }
    }
}

/// Where a `V1Lazy` dialer settles: at the hand-over of its last proposal.
pub open spec fn lazy_settles_at(d: DialerView, event: Event) -> bool {
    proposes_last(d) && event == Event::Ready
}

/// The two versions agree on a step, except where a `V1Lazy` dialer settles.
proof fn lemma_dialer_versions_step(d: DialerView, event: Event)
    requires
        dialer_wf(d),
        !lazy_settles_at(with_version(d, Version::V1), event),
    ensures
        dialer_op(with_version(d, Version::V1)) == dialer_op(with_version(d, Version::V1Lazy)),
        dialer_next(with_version(d, Version::V1), event) == dialer_next(
            with_version(d, Version::V1Lazy),
            event,
        ),
{
}

/// Whole runs of a `V1` and a `V1Lazy` dialer with the same protocols and
/// the same answers of the stream are the same run, up to the point where
/// the `V1Lazy` dialer hands over the proposal of its last protocol; there
/// it settles on that protocol, where the `V1` dialer flushes the proposal
/// and awaits the answer (`lemma_dialer_lazy_settles_on_last`).
pub proof fn lemma_dialer_version_runs(d: DialerView, events: Seq<Event>)
    requires
        dialer_wf(d),
    ensures
        (forall|k: int|
            0 <= k < events.len() ==> !lazy_settles_at(
                #[trigger] dialer_run(with_version(d, Version::V1), events.take(k)),
                events[k],
            )) ==> {
            &&& dialer_trace(with_version(d, Version::V1), events) == dialer_trace(
                with_version(d, Version::V1Lazy),
                events,
            )
            &&& dialer_run(with_version(d, Version::V1Lazy), events) == with_version(
                dialer_run(with_version(d, Version::V1), events),
                Version::V1Lazy,
            )
        },
    decreases events.len(),
{
    let d1 = with_version(d, Version::V1);
    let d2 = with_version(d, Version::V1Lazy);
    if events.len() > 0 && (forall|k: int|
        0 <= k < events.len() ==> !lazy_settles_at(
            #[trigger] dialer_run(d1, events.take(k)),
            events[k],
        )) {
        let dl = events.drop_last();
        assert forall|k: int| 0 <= k < dl.len() implies !lazy_settles_at(
            #[trigger] dialer_run(d1, dl.take(k)),
            dl[k],
        ) by {
            assert(dl.take(k) =~= events.take(k));
            assert(!lazy_settles_at(dialer_run(d1, events.take(k)), events[k]));
        }
        lemma_dialer_version_runs(d, dl);
        assert(events.take(dl.len() as int) =~= dl);
        assert(!lazy_settles_at(dialer_run(d1, events.take(dl.len() as int)), events[dl.len() as int]));
        lemma_dialer_run_basics(d1, dl);
        let r1 = dialer_run(d1, dl);
        assert(with_version(r1, Version::V1) == r1);
        lemma_dialer_versions_step(r1, events.last());
    }
}

/// A dialer flushes each proposal before it reads the answer: whenever it
/// reads from the stream, it has proposed at least one protocol, and every
/// proposal it handed over (together with the header sent with the first)
/// has been flushed.
pub proof fn lemma_dialer_flushes_before_reading(d: DialerView, events: Seq<Event>)
    requires
        dialer_wf(d),
        d.state == DialerState::SendHeader,
        dialer_valid_run(d, events),
    ensures
        forall|k: int|
            0 <= k < events.len() && (#[trigger] dialer_trace(d, events)[k]).0 == OpView::PollNext
                ==> {
                &&& sent_messages(dialer_trace(d, events).take(k)).len() >= 2
                &&& flushes_done(dialer_trace(d, events).take(k)) + 1 == sent_messages(
                    dialer_trace(d, events).take(k),
                ).len()
            },
{
    let t = dialer_trace(d, events);
    assert forall|k: int|
        0 <= k < events.len() && (#[trigger] t[k]).0 == OpView::PollNext implies {
        &&& sent_messages(t.take(k)).len() >= 2
        &&& flushes_done(t.take(k)) + 1 == sent_messages(t.take(k)).len()
    } by {
        lemma_dialer_run_prefix(d, events, k);
        lemma_dialer_run_inv(d, events.take(k));
        lemma_dialer_run_basics(d, events.take(k));
    }
}

} // verus!
