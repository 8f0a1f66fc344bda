use multistream_select::io::{Event, IoOp, NegotiatedKind, Selected, Step};
use multistream_select::listener_select::{listener_select_proto, ListenerSelectFuture};
use multistream_select::protocol::{
    HeaderLine, IoErrorKind, Message, NegotiationError, Protocol, ProtocolError,
};

fn names(list: &[&str]) -> Vec<Vec<u8>> {
    list.iter().map(|s| s.as_bytes().to_vec()).collect()
}

fn proto(s: &str) -> Protocol {
    Protocol::try_from_bytes(s.as_bytes()).unwrap()
}

/// Drives the listener through the exchange of headers, up to waiting for
/// the dialer's first message.
fn exchange_headers(l: &mut ListenerSelectFuture) {
    assert_eq!(l.io_op(), IoOp::PollNext);
    assert_eq!(l.poll(Event::Received(Message::Header(HeaderLine::V1))), Step::Continue);
    assert_eq!(l.io_op(), IoOp::PollReady);
    assert_eq!(l.poll(Event::Ready), Step::Continue);
    assert_eq!(l.io_op(), IoOp::StartSend(Message::Header(HeaderLine::V1)));
    assert_eq!(l.poll(Event::Ready), Step::Continue);
    assert_eq!(l.io_op(), IoOp::PollFlush);
    assert_eq!(l.poll(Event::Ready), Step::Continue);
    assert_eq!(l.io_op(), IoOp::PollNext);
}

/// Answers a message of the dialer: checks the reply handed to the stream
/// and returns what the final flush yields.
fn answer(l: &mut ListenerSelectFuture, m: Message, reply: Message) -> Step {
    assert_eq!(l.poll(Event::Received(m)), Step::Continue);
    assert_eq!(l.io_op(), IoOp::PollReady);
    assert_eq!(l.poll(Event::Ready), Step::Continue);
    assert_eq!(l.io_op(), IoOp::StartSend(reply));
    assert_eq!(l.poll(Event::Ready), Step::Continue);
    assert_eq!(l.io_op(), IoOp::PollFlush);
    l.poll(Event::Ready)
}

#[test]
fn listener_confirms_supported_protocol() {
    let mut l = listener_select_proto(names(&["/a", "/b"]));
    exchange_headers(&mut l);
    assert_eq!(
        answer(&mut l, Message::Protocol(proto("/b")), Message::Protocol(proto("/b"))),
        Step::Ready(Ok(Selected { index: 1, negotiated: NegotiatedKind::Completed }))
    );
    assert!(l.is_done());
}

#[test]
fn listener_rejects_unsupported_protocol() {
    let mut l = listener_select_proto(names(&["/a"]));
    exchange_headers(&mut l);
    assert!(!l.last_sent_na());
    assert_eq!(answer(&mut l, Message::Protocol(proto("/c")), Message::NotAvailable), Step::Continue);
    assert!(l.last_sent_na());
    assert_eq!(
        answer(&mut l, Message::Protocol(proto("/a")), Message::Protocol(proto("/a"))),
        Step::Ready(Ok(Selected { index: 0, negotiated: NegotiatedKind::Completed }))
    );
    assert!(!l.last_sent_na());
}

#[test]
fn listener_lists_valid_protocols() {
    let mut l = listener_select_proto(names(&["/a", "bad", "/c"]));
    exchange_headers(&mut l);
    assert_eq!(
        answer(&mut l, Message::ListProtocols, Message::Protocols(vec![proto("/a"), proto("/c")])),
        Step::Continue
    );
    assert_eq!(l.io_op(), IoOp::PollNext);
}

#[test]
fn listener_ignores_invalid_protocols() {
    let mut l = listener_select_proto(names(&["bad", "/x"]));
    exchange_headers(&mut l);
    assert_eq!(
        answer(&mut l, Message::Protocol(proto("/x")), Message::Protocol(proto("/x"))),
        Step::Ready(Ok(Selected { index: 1, negotiated: NegotiatedKind::Completed }))
    );
}

#[test]
fn listener_picks_first_of_equal_names() {
    let mut l = listener_select_proto(names(&["/a", "/x", "/x"]));
    exchange_headers(&mut l);
    assert_eq!(
        answer(&mut l, Message::Protocol(proto("/x")), Message::Protocol(proto("/x"))),
        Step::Ready(Ok(Selected { index: 1, negotiated: NegotiatedKind::Completed }))
    );
}

#[test]
fn listener_requires_header_first() {
    let mut l = listener_select_proto(names(&["/a"]));
    assert_eq!(
        l.poll(Event::Received(Message::Protocol(proto("/a")))),
        Step::Ready(Err(NegotiationError::ProtocolError(ProtocolError::InvalidMessage)))
    );
}

#[test]
fn listener_treats_eof_as_failure() {
    let mut l = listener_select_proto(names(&["/a"]));
    assert_eq!(l.poll(Event::Closed), Step::Ready(Err(NegotiationError::Failed)));
    let mut l = listener_select_proto(names(&["/a"]));
    exchange_headers(&mut l);
    assert_eq!(l.poll(Event::Closed), Step::Ready(Err(NegotiationError::Failed)));
}

#[test]
fn listener_rejects_unexpected_message() {
    let mut l = listener_select_proto(names(&["/a"]));
    exchange_headers(&mut l);
    assert_eq!(
        l.poll(Event::Received(Message::NotAvailable)),
        Step::Ready(Err(NegotiationError::ProtocolError(ProtocolError::InvalidMessage)))
    );
}

#[test]
fn listener_garbage_after_rejection_is_failure() {
    let mut l = listener_select_proto(names(&["/a"]));
    exchange_headers(&mut l);
    assert_eq!(answer(&mut l, Message::Protocol(proto("/c")), Message::NotAvailable), Step::Continue);
    assert_eq!(
        l.poll(Event::Failed(ProtocolError::InvalidMessage)),
        Step::Ready(Err(NegotiationError::Failed))
    );
}

#[test]
fn listener_eof_error_after_rejection_is_failure() {
    let mut l = listener_select_proto(names(&["/a"]));
    exchange_headers(&mut l);
    assert_eq!(answer(&mut l, Message::Protocol(proto("/c")), Message::NotAvailable), Step::Continue);
    assert_eq!(
        l.poll(Event::Failed(ProtocolError::IoError(IoErrorKind::UnexpectedEof))),
        Step::Ready(Err(NegotiationError::Failed))
    );
}

#[test]
fn listener_other_error_after_rejection_passes_on() {
    let mut l = listener_select_proto(names(&["/a"]));
    exchange_headers(&mut l);
    assert_eq!(answer(&mut l, Message::Protocol(proto("/c")), Message::NotAvailable), Step::Continue);
    let e = ProtocolError::IoError(IoErrorKind::Other);
    assert_eq!(l.poll(Event::Failed(e)), Step::Ready(Err(NegotiationError::ProtocolError(e))));
}

#[test]
fn listener_garbage_without_rejection_is_protocol_error() {
    let mut l = listener_select_proto(names(&["/a"]));
    exchange_headers(&mut l);
    assert_eq!(
        l.poll(Event::Failed(ProtocolError::InvalidMessage)),
        Step::Ready(Err(NegotiationError::ProtocolError(ProtocolError::InvalidMessage)))
    );
}

#[test]
fn listener_waits_while_pending() {
    let mut l = listener_select_proto(names(&["/a"]));
    assert_eq!(l.poll(Event::Pending), Step::Pending);
    assert_eq!(l.io_op(), IoOp::PollNext);
}
