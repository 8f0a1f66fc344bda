use std::collections::VecDeque;

use multistream_select::dialer_select::dialer_select_proto;
use multistream_select::io::{Event, IoOp, NegotiatedKind, Selected, Step};
use multistream_select::listener_select::listener_select_proto;
use multistream_select::protocol::{
    bytes_eq, header_line_from, HeaderLine, Message, NegotiationError, Protocol, ProtocolError,
    Version,
};

fn names(list: &[&str]) -> Vec<Vec<u8>> {
    list.iter().map(|s| s.as_bytes().to_vec()).collect()
}

/// Performs an operation against in-memory queues: sending always
/// succeeds, receiving takes the next queued message or waits, and a
/// peer that is done closes the stream.
fn perform(op: IoOp, out: &mut VecDeque<Message>, inbox: &mut VecDeque<Message>, peer_done: bool) -> Event {
    match op {
        IoOp::PollReady | IoOp::PollFlush => Event::Ready,
        IoOp::StartSend(m) => {
            out.push_back(m);
            Event::Ready
        }
        IoOp::PollNext => match inbox.pop_front() {
            Some(m) => Event::Received(m),
            None if peer_done => Event::Closed,
            None => Event::Pending,
        },
    }
}

type Outcome = Option<Result<Selected, NegotiationError>>;

/// Runs a dialer and a listener against each other until both are done.
fn run(dialer: &[&str], version: Version, listener: &[&str]) -> (Outcome, Outcome) {
    run_with_delays(dialer, version, listener, false).0
}

/// Like `run`; with `delay`, every poll of the stream first answers
/// `Pending` once. Also returns the messages each side sent.
fn run_with_delays(
    dialer: &[&str],
    version: Version,
    listener: &[&str],
    delay: bool,
) -> ((Outcome, Outcome), (Vec<String>, Vec<String>)) {
    let mut d = dialer_select_proto(names(dialer), version);
    let mut l = listener_select_proto(names(listener));
    let mut to_listener = VecDeque::new();
    let mut to_dialer = VecDeque::new();
    let (mut d_out, mut l_out): (Outcome, Outcome) = (None, None);
    let (mut d_sent, mut l_sent) = (Vec::new(), Vec::new());
    let (mut d_waited, mut l_waited) = (false, false);
    for _ in 0..1000 {
        if d_out.is_none() {
            let op = d.io_op();
            let is_send = matches!(op, IoOp::StartSend(_));
            if delay && !is_send && !d_waited {
                d_waited = true;
                assert_eq!(d.poll(Event::Pending), Step::Pending);
                continue;
            }
            d_waited = false;
            if let IoOp::StartSend(m) = &op {
                d_sent.push(format!("{:?}", m));
            }
            let ev = perform(op, &mut to_listener, &mut to_dialer, l_out.is_some());
            if let Step::Ready(r) = d.poll(ev) {
                d_out = Some(r);
            }
        }
        if l_out.is_none() {
            let op = l.io_op();
            let is_send = matches!(op, IoOp::StartSend(_));
            if delay && !is_send && !l_waited {
                l_waited = true;
                assert_eq!(l.poll(Event::Pending), Step::Pending);
                continue;
            }
            l_waited = false;
            if let IoOp::StartSend(m) = &op {
                l_sent.push(format!("{:?}", m));
            }
            let closed = d_out.is_some() && to_listener.is_empty();
            let ev = perform(op, &mut to_dialer, &mut to_listener, closed);
            if let Step::Ready(r) = l.poll(ev) {
                l_out = Some(r);
            }
        }
        if d_out.is_some() && l_out.is_some() {
            break;
        }
    }
    ((d_out, l_out), (d_sent, l_sent))
}

fn completed(index: usize) -> Outcome {
    Some(Ok(Selected { index, negotiated: NegotiatedKind::Completed }))
}

#[test]
fn negotiation_selects_first_supported_protocol() {
    let (d, l) = run(&["/x", "/b", "/a"], Version::V1, &["/a", "/b"]);
    assert_eq!(d, completed(1));
    assert_eq!(l, completed(1));
}

#[test]
fn negotiation_agrees_on_name() {
    let (d, l) = run(&["/c", "/a"], Version::V1, &["bad", "/b", "/a"]);
    assert_eq!(d, completed(1));
    assert_eq!(l, completed(2));
}

#[test]
fn negotiation_fails_without_common_protocol() {
    let (d, l) = run(&["/x", "/y"], Version::V1, &["/a"]);
    assert_eq!(d, Some(Err(NegotiationError::Failed)));
    assert_eq!(l, Some(Err(NegotiationError::Failed)));
}

#[test]
fn negotiation_lazy_dialer_settles() {
    let (d, l) = run(&["/a"], Version::V1Lazy, &["/a"]);
    assert_eq!(
        d,
        Some(Ok(Selected {
            index: 0,
            negotiated: NegotiatedKind::Expecting { header: Some(HeaderLine::V1) },
        }))
    );
    assert_eq!(l, completed(0));
}

#[test]
fn negotiation_pending_changes_nothing() {
    let plain = run_with_delays(&["/x", "/b", "/a"], Version::V1, &["/a", "/b"], false);
    let delayed = run_with_delays(&["/x", "/b", "/a"], Version::V1, &["/a", "/b"], true);
    assert_eq!(plain, delayed);
    assert_eq!(plain.0 .0, completed(1));
    assert_eq!(plain.1 .0.len(), 3);
}

#[test]
fn protocol_names_must_start_with_slash() {
    assert!(Protocol::try_from_bytes(b"/ipfs/1.0.0").is_ok());
    assert_eq!(Protocol::try_from_bytes(b"/").unwrap().as_bytes(), b"/");
    assert_eq!(Protocol::try_from_bytes(b"ipfs").unwrap_err(), ProtocolError::InvalidProtocol);
    assert_eq!(Protocol::try_from_bytes(b"").unwrap_err(), ProtocolError::InvalidProtocol);
}

#[test]
fn protocol_duplicate_keeps_name() {
    let p = Protocol::try_from_bytes(b"/a/b").unwrap();
    assert_eq!(p.duplicate().as_bytes(), b"/a/b");
}

#[test]
fn bytes_eq_compares_contents() {
    assert!(bytes_eq(b"/a", b"/a"));
    assert!(!bytes_eq(b"/a", b"/b"));
    assert!(!bytes_eq(b"/a", b"/ab"));
    assert!(bytes_eq(b"", b""));
}

#[test]
fn every_version_sends_v1_header() {
    assert_eq!(header_line_from(Version::V1), HeaderLine::V1);
    assert_eq!(header_line_from(Version::V1Lazy), HeaderLine::V1);
}
