//! What can go wrong.
use crate::decimal;
use vstd::prelude::*;

verus! {

/// The class that an error belongs to.
#[derive(Copy, Clone, Debug, PartialEq, Eq, Structural)]
pub enum ErrorKind {
    AddrInUse,
    BrokenPipe,
    Other,
    OutOfMemory,
    UnexpectedEof,
    WriteZero,
}

/// What the multiplexer itself reports.
#[derive(Copy, Clone, Debug, PartialEq, Eq, Structural)]
pub enum Fault {
    /// The address names a connection that is open already.
    DuplicateSocket,
    /// There is no memory for the buffer of a new connection.
    OutOfMemory,
    /// The stream ended inside a frame, with this many bytes of it to come.
    PayloadEof { expected: u16 },
    /// The stream handed over more bytes than the frame had left.
    PayloadOverrun,
    /// The stream ended where a frame header was due.
    HeaderEof,
    /// The stream handed over more bytes than the header had left.
    HeaderOverrun,
    /// An earlier error has made the stream unusable.
    SocketFailed,
    /// The connection has been shut down.
    Closed,
    /// The stream took none of the bytes it was offered.
    FlushStalled,
    /// An earlier attempt to shut the connection down failed.
    ShutdownFailed,
}

/// An error that a caller is given: one of the stream, or one of the multiplexer.
#[derive(Debug)]
pub enum MuxError<E> {
    Stream(E),
    Fault(Fault),
}

/// A stream that ends inside a frame is an unexpected end, and the text says in decimal how much was
/// to come.
pub proof fn law_payload_eof(expected: u16, kind: ErrorKind, text: Option<String>)
    ensures
        call_ensures(Fault::kind, (&Fault::PayloadEof { expected },), kind) ==> kind
            == ErrorKind::UnexpectedEof,
        call_ensures(Fault::message, (&Fault::PayloadEof { expected },), text) ==> {
            &&& text is Some
            &&& exists|digits: Seq<char>|
                {
                    &&& text->0@ == "expected "@ + digits + " more bytes"@
                    &&& #[trigger] decimal::number(digits) == expected
                    &&& digits.len() > 1 ==> digits[0] != '0'
                }
        },
{
    decimal::law_decimal_stands_for_its_number(expected as nat);
}

/// Which class each fault belongs to. The end of the stream where more was due is told apart from an
/// address that is taken, from a connection or a stream that can no longer be used, from memory that
/// cannot be had, and from a stream that takes nothing.
pub proof fn law_classes_of_faults(fault: Fault, kind: ErrorKind)
    ensures
        call_ensures(Fault::kind, (&fault,), kind) ==> {
            &&& kind is AddrInUse <==> fault is DuplicateSocket
            &&& kind is OutOfMemory <==> fault is OutOfMemory
            &&& kind is UnexpectedEof <==> fault is PayloadEof || fault is HeaderEof
            &&& kind is BrokenPipe <==> fault is SocketFailed || fault is Closed
            &&& kind is WriteZero <==> fault is FlushStalled
            &&& kind is Other <==> fault is PayloadOverrun || fault is HeaderOverrun || fault
                is ShutdownFailed
        },
{
}

/// The text of each fault. Only that of a closed connection has none.
pub proof fn law_texts_of_faults(fault: Fault, text: Option<String>)
    ensures
        call_ensures(Fault::message, (&fault,), text) ==> {
            &&& text is None <==> fault is Closed
            &&& fault is DuplicateSocket ==> text->0@ == "duplicate socket entry"@
            &&& fault is OutOfMemory ==> text->0@ == "failed to allocate read buffer"@
            &&& fault is PayloadOverrun ==> text->0@ == "read more bytes than in provided buffer"@
            &&& fault is HeaderEof ==> text->0@ == "eof on header read"@
            &&& fault is HeaderOverrun ==> text->0@
                == "reader read more bytes than were provided"@
            &&& fault is SocketFailed ==> text->0@ == "socket hit fatal error"@
            &&& fault is FlushStalled ==> text->0@ == "failed to flush packet buffer"@
            &&& fault is ShutdownFailed ==> text->0@
                == "mux connection shutdown previously failed"@
        },
{
}

impl Fault {
    /// The class of a fault.
    pub open spec fn spec_kind(&self) -> ErrorKind {
        match self {
            Fault::DuplicateSocket => ErrorKind::AddrInUse,
            Fault::OutOfMemory => ErrorKind::OutOfMemory,
            Fault::PayloadEof { .. } => ErrorKind::UnexpectedEof,
            Fault::PayloadOverrun => ErrorKind::Other,
            Fault::HeaderEof => ErrorKind::UnexpectedEof,
            Fault::HeaderOverrun => ErrorKind::Other,
            Fault::SocketFailed => ErrorKind::BrokenPipe,
            Fault::Closed => ErrorKind::BrokenPipe,
            Fault::FlushStalled => ErrorKind::WriteZero,
            Fault::ShutdownFailed => ErrorKind::Other,
        }
    }

    /// The text of a fault. That of a closed connection has none beyond its class.
    pub open spec fn spec_message(&self) -> Option<Seq<char>> {
        match self {
            Fault::DuplicateSocket => Some("duplicate socket entry"@),
            Fault::OutOfMemory => Some("failed to allocate read buffer"@),
            Fault::PayloadEof { expected } => Some(
                "expected "@ + decimal::decimal(*expected as nat) + " more bytes"@,
            ),
            Fault::PayloadOverrun => Some("read more bytes than in provided buffer"@),
            Fault::HeaderEof => Some("eof on header read"@),
            Fault::HeaderOverrun => Some("reader read more bytes than were provided"@),
            Fault::SocketFailed => Some("socket hit fatal error"@),
            Fault::Closed => None,
            Fault::FlushStalled => Some("failed to flush packet buffer"@),
            Fault::ShutdownFailed => Some("mux connection shutdown previously failed"@),
        }
    }

    /// The class of this fault.
    pub fn kind(&self) -> (r: ErrorKind)
        ensures
            r == self.spec_kind(),
    {
        match self {
            Fault::DuplicateSocket => ErrorKind::AddrInUse,
            Fault::OutOfMemory => ErrorKind::OutOfMemory,
            Fault::PayloadEof { .. } => ErrorKind::UnexpectedEof,
            Fault::PayloadOverrun => ErrorKind::Other,
            Fault::HeaderEof => ErrorKind::UnexpectedEof,
            Fault::HeaderOverrun => ErrorKind::Other,
            Fault::SocketFailed => ErrorKind::BrokenPipe,
            Fault::Closed => ErrorKind::BrokenPipe,
            Fault::FlushStalled => ErrorKind::WriteZero,
            Fault::ShutdownFailed => ErrorKind::Other,
        }
    }

    /// The text of this fault.
    pub fn message(&self) -> (r: Option<String>)
        ensures
            match r {
                Some(text) => self.spec_message() == Some(text@),
                None => self.spec_message() is None,
            },
    {
        match self {
            Fault::DuplicateSocket => Some("duplicate socket entry".to_owned()),
            Fault::OutOfMemory => Some("failed to allocate read buffer".to_owned()),
            Fault::PayloadEof { expected } => {
                let mut text: String = "expected ".to_owned();
                text.append(decimal::decimal_string(*expected).as_str());
                text.append(" more bytes");
                Some(text)
            },
            Fault::PayloadOverrun => Some("read more bytes than in provided buffer".to_owned()),
            Fault::HeaderEof => Some("eof on header read".to_owned()),
            Fault::HeaderOverrun => Some(
                "reader read more bytes than were provided".to_owned(),
            ),
            Fault::SocketFailed => Some("socket hit fatal error".to_owned()),
            Fault::Closed => None,
            Fault::FlushStalled => Some("failed to flush packet buffer".to_owned()),
            Fault::ShutdownFailed => Some(
                "mux connection shutdown previously failed".to_owned(),
            ),
        }
    }
}

} // verus!
