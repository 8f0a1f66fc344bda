use multistream_select::dialer_select::{dialer_select_proto, DialerSelectFuture};
use multistream_select::io::{Event, IoOp, NegotiatedKind, Selected, Step};
use multistream_select::protocol::{
    HeaderLine, IoErrorKind, Message, NegotiationError, Protocol, ProtocolError, Version,
};

fn names(list: &[&str]) -> Vec<Vec<u8>> {
    list.iter().map(|s| s.as_bytes().to_vec()).collect()
}

fn proto(s: &str) -> Protocol {
    Protocol::try_from_bytes(s.as_bytes()).unwrap()
}

/// Drives the dialer through the header and the proposal of its current
/// protocol, checking each operation, up to awaiting the answer.
fn propose(d: &mut DialerSelectFuture, expected: &str) {
    assert_eq!(d.io_op(), IoOp::PollReady);
    assert_eq!(d.poll(Event::Ready), Step::Continue);
    assert_eq!(d.io_op(), IoOp::StartSend(Message::Protocol(proto(expected))));
    assert_eq!(d.poll(Event::Ready), Step::Continue);
    assert_eq!(d.io_op(), IoOp::PollFlush);
    assert_eq!(d.poll(Event::Ready), Step::Continue);
    assert_eq!(d.io_op(), IoOp::PollNext);
}

fn send_header(d: &mut DialerSelectFuture) {
    assert_eq!(d.io_op(), IoOp::PollReady);
    assert_eq!(d.poll(Event::Ready), Step::Continue);
    assert_eq!(d.io_op(), IoOp::StartSend(Message::Header(HeaderLine::V1)));
    assert_eq!(d.poll(Event::Ready), Step::Continue);
}

#[test]
fn dialer_selects_confirmed_protocol() {
    let mut d = dialer_select_proto(names(&["/a", "/b"]), Version::V1);
    send_header(&mut d);
    propose(&mut d, "/a");
    assert_eq!(d.poll(Event::Received(Message::Header(HeaderLine::V1))), Step::Continue);
    assert_eq!(d.poll(Event::Received(Message::NotAvailable)), Step::Continue);
    propose(&mut d, "/b");
    assert_eq!(
        d.poll(Event::Received(Message::Protocol(proto("/b")))),
        Step::Ready(Ok(Selected { index: 1, negotiated: NegotiatedKind::Completed }))
    );
    assert!(d.is_done());
}

#[test]
fn dialer_v1_awaits_answer_for_single_protocol() {
    let mut d = dialer_select_proto(names(&["/a"]), Version::V1);
    send_header(&mut d);
    propose(&mut d, "/a");
    assert_eq!(
        d.poll(Event::Received(Message::Protocol(proto("/a")))),
        Step::Ready(Ok(Selected { index: 0, negotiated: NegotiatedKind::Completed }))
    );
}

#[test]
fn dialer_v1_lazy_settles_on_last_protocol() {
    let mut d = dialer_select_proto(names(&["/a"]), Version::V1Lazy);
    send_header(&mut d);
    assert_eq!(d.poll(Event::Ready), Step::Continue);
    assert_eq!(d.io_op(), IoOp::StartSend(Message::Protocol(proto("/a"))));
    assert_eq!(
        d.poll(Event::Ready),
        Step::Ready(Ok(Selected {
            index: 0,
            negotiated: NegotiatedKind::Expecting { header: Some(HeaderLine::V1) },
        }))
    );
    assert!(d.is_done());
}

#[test]
fn dialer_v1_lazy_waits_while_protocols_remain() {
    let mut d = dialer_select_proto(names(&["/a", "/b"]), Version::V1Lazy);
    send_header(&mut d);
    propose(&mut d, "/a");
    assert_eq!(d.poll(Event::Received(Message::NotAvailable)), Step::Continue);
    assert_eq!(d.poll(Event::Ready), Step::Continue);
    assert_eq!(
        d.poll(Event::Ready),
        Step::Ready(Ok(Selected {
            index: 1,
            negotiated: NegotiatedKind::Expecting { header: Some(HeaderLine::V1) },
        }))
    );
}

#[test]
fn dialer_fails_when_all_rejected() {
    let mut d = dialer_select_proto(names(&["/a"]), Version::V1);
    send_header(&mut d);
    propose(&mut d, "/a");
    assert_eq!(
        d.poll(Event::Received(Message::NotAvailable)),
        Step::Ready(Err(NegotiationError::Failed))
    );
}

#[test]
fn dialer_fails_without_protocols() {
    let mut d = dialer_select_proto(Vec::new(), Version::V1);
    assert_eq!(d.poll(Event::Ready), Step::Continue);
    assert_eq!(d.poll(Event::Ready), Step::Ready(Err(NegotiationError::Failed)));
}

#[test]
fn dialer_treats_eof_as_failure() {
    let mut d = dialer_select_proto(names(&["/a"]), Version::V1);
    send_header(&mut d);
    propose(&mut d, "/a");
    assert_eq!(d.poll(Event::Closed), Step::Ready(Err(NegotiationError::Failed)));
}

#[test]
fn dialer_rejects_invalid_protocol_name() {
    let mut d = dialer_select_proto(names(&["a"]), Version::V1);
    send_header(&mut d);
    assert_eq!(
        d.poll(Event::Ready),
        Step::Ready(Err(NegotiationError::ProtocolError(ProtocolError::InvalidProtocol)))
    );
}

#[test]
fn dialer_rejects_unexpected_message() {
    let mut d = dialer_select_proto(names(&["/a"]), Version::V1);
    send_header(&mut d);
    propose(&mut d, "/a");
    assert_eq!(
        d.poll(Event::Received(Message::ListProtocols)),
        Step::Ready(Err(NegotiationError::ProtocolError(ProtocolError::InvalidMessage)))
    );
}

#[test]
fn dialer_rejects_confirmation_of_other_protocol() {
    let mut d = dialer_select_proto(names(&["/a"]), Version::V1);
    send_header(&mut d);
    propose(&mut d, "/a");
    assert_eq!(
        d.poll(Event::Received(Message::Protocol(proto("/b")))),
        Step::Ready(Err(NegotiationError::ProtocolError(ProtocolError::InvalidMessage)))
    );
}

#[test]
fn dialer_waits_while_pending() {
    let mut d = dialer_select_proto(names(&["/a"]), Version::V1);
    assert_eq!(d.poll(Event::Pending), Step::Pending);
    assert_eq!(d.io_op(), IoOp::PollReady);
    send_header(&mut d);
    assert_eq!(d.poll(Event::Pending), Step::Pending);
    assert_eq!(d.io_op(), IoOp::PollReady);
}

#[test]
fn dialer_passes_io_errors_on() {
    let mut d = dialer_select_proto(names(&["/a"]), Version::V1);
    let e = ProtocolError::IoError(IoErrorKind::Other);
    assert_eq!(d.poll(Event::Failed(e)), Step::Ready(Err(NegotiationError::ProtocolError(e))));
    assert!(d.is_done());
}
