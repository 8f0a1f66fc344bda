//! Protocol names, negotiation messages and errors.

use vstd::prelude::*;

verus! {

/// The multistream-select version that a dialer commits to.
#[derive(Clone, Copy, Debug, PartialEq, Eq, Structural)]
pub enum Version {
    /// The plain version 1 of the protocol.
    V1,
    /// Version 1, where a dialer with a single protocol left to propose
    /// settles on it without waiting for the listener's confirmation.
    V1Lazy,
}

/// The header line that opens a negotiation.
#[derive(Clone, Copy, Debug, PartialEq, Eq, Structural)]
pub enum HeaderLine {
    V1,
}

/// The header line sent for a version: every version shares the V1 header.
pub open spec fn spec_header_line(version: Version) -> HeaderLine {
    HeaderLine::V1
}

/// The header line that a dialer of the given version sends.
pub fn header_line_from(version: Version) -> (h: HeaderLine)
    ensures
        h == spec_header_line(version),
{
    match version {
        Version::V1 => HeaderLine::V1,
        Version::V1Lazy => HeaderLine::V1,
    }
}

/// The byte of a slash, with which every protocol name starts.
pub const SLASH: u8 = 0x2fu8;

/// A protocol name is valid when it starts with a slash.
pub open spec fn is_valid_protocol(bytes: Seq<u8>) -> bool {
    bytes.len() > 0 && bytes[0] == SLASH
}

/// Exactly the names that start with a slash (byte `0x2f`) are valid,
/// whatever follows it: any number of further slashes, or none.
pub proof fn lemma_valid_protocol_iff_slash(bytes: Seq<u8>)
    ensures
        is_valid_protocol(bytes) <==> (bytes.len() > 0 && bytes[0] == 0x2fu8),
        bytes.len() > 0 && bytes[0] == 0x2fu8 ==> is_valid_protocol(bytes),
{
}

/// The kind of an I/O error, as far as negotiation tells them apart.
#[derive(Clone, Copy, Debug, PartialEq, Eq, Structural)]
pub enum IoErrorKind {
    /// The stream ended in the middle of a message.
    UnexpectedEof,
    /// Any other I/O error.
    Other,
}

/// An error of the multistream-select protocol itself.
#[derive(Clone, Copy, Debug, PartialEq, Eq, Structural)]
pub enum ProtocolError {
    /// The underlying I/O failed.
    IoError(IoErrorKind),
    /// A message could not be decoded, or came where it does not belong.
    InvalidMessage,
    /// A protocol name is not valid.
    InvalidProtocol,
}

/// Why a negotiation did not select a protocol.
#[derive(Clone, Copy, Debug, PartialEq, Eq, Structural)]
pub enum NegotiationError {
    /// The negotiation broke the protocol, or its I/O failed.
    ProtocolError(ProtocolError),
    /// The peers share no protocol, or the remote gave up.
    Failed,
}

/// A valid protocol name, exchanged during negotiation.
#[derive(Debug, PartialEq, Eq)]
pub struct Protocol {
    bytes: Vec<u8>,
}

impl Protocol {
    #[verifier::type_invariant]
    spec fn inv(self) -> bool {
        is_valid_protocol(self.bytes@)
    }
}

impl View for Protocol {
    type V = Seq<u8>;

    closed spec fn view(&self) -> Seq<u8> {
        self.bytes@
    }
}

impl Protocol {
    /// Makes a protocol of the given name, which must start with a slash.
    pub fn try_from_bytes(bytes: &[u8]) -> (r: Result<Protocol, ProtocolError>)
        ensures
            is_valid_protocol(bytes@) <==> r is Ok,
            r is Ok <==> (bytes@.len() > 0 && bytes@[0] == 0x2fu8),
            r matches Ok(p) ==> p@ == bytes@,
            r matches Err(e) ==> e == ProtocolError::InvalidProtocol,
    {
        if bytes.len() > 0 && bytes[0] == SLASH {
            let v = vstd::slice::slice_to_vec(bytes);
            Ok(Protocol { bytes: v })
        } else {
            Err(ProtocolError::InvalidProtocol)
        }
    }

    /// The protocol of a name known to be valid.
    pub(crate) fn from_valid(bytes: &[u8]) -> (p: Protocol)
        requires
            is_valid_protocol(bytes@),
        ensures
            p@ == bytes@,
    {
        Protocol { bytes: vstd::slice::slice_to_vec(bytes) }
    }

    /// The bytes of the name.
    pub fn as_bytes(&self) -> (b: &[u8])
        ensures
            b@ == self@,
    {
        self.bytes.as_slice()
    }

    /// A second protocol of the same name.
    pub fn duplicate(&self) -> (p: Protocol)
        ensures
            p@ == self@,
    {
        proof {
            use_type_invariant(self);
        }
        let v = vstd::slice::slice_to_vec(self.bytes.as_slice());
        Protocol { bytes: v }
    }

    /// Every protocol name is valid.
    pub fn check_valid(&self)
        ensures
            is_valid_protocol(self@),
    {
        proof {
            use_type_invariant(self);
        }
    }
}

/// Whether two byte strings are equal.
pub fn bytes_eq(a: &[u8], b: &[u8]) -> (r: bool)
    ensures
        r == (a@ == b@),
{
    if a.len() != b.len() {
        return false;
    }
    let n = a.len();
    let mut i: usize = 0;
    while i < n
        invariant
            n == a@.len(),
            n == b@.len(),
            i <= n,
            forall|j: int| 0 <= j < i ==> a@[j] == b@[j],
        decreases n - i,
    {
        if a[i] != b[i] {
            return false;
        }
        i = i + 1;
    }
    assert(a@ =~= b@);
    true
}

/// The contents of a list of byte strings.
pub open spec fn names_view(names: Seq<Vec<u8>>) -> Seq<Seq<u8>> {
    names.map_values(|v: Vec<u8>| v@)
}

/// A message of the negotiation, as its contents.
pub ghost enum MessageView {
    Header(HeaderLine),
    Protocol(Seq<u8>),
    ListProtocols,
    Protocols(Seq<Seq<u8>>),
    NotAvailable,
}

/// A message of the negotiation.
#[derive(Debug, PartialEq, Eq)]
pub enum Message {
    /// The header line that opens a negotiation.
    Header(HeaderLine),
    /// A protocol, proposed by a dialer or confirmed by a listener.
    Protocol(Protocol),
    /// A request for the protocols that the listener supports.
    ListProtocols,
    /// The protocols that the listener supports.
    Protocols(Vec<Protocol>),
    /// A listener's rejection of the protocol proposed last.
    NotAvailable,
}

/// The names of a sequence of protocols.
pub open spec fn protocol_names(ps: Seq<Protocol>) -> Seq<Seq<u8>> {
    ps.map_values(|p: Protocol| p@)
}

impl View for Message {
    type V = MessageView;

    open spec fn view(&self) -> MessageView {
        match self {
            Message::Header(h) => MessageView::Header(*h),
            Message::Protocol(p) => MessageView::Protocol(p@),
            Message::ListProtocols => MessageView::ListProtocols,
            Message::Protocols(ps) => MessageView::Protocols(protocol_names(ps@)),
            Message::NotAvailable => MessageView::NotAvailable,
        }
    }
}

} // verus!
