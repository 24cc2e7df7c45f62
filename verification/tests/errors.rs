use vt_muxer::decimal::decimal_string;
use vt_muxer::error::{ErrorKind, Fault};

#[test]
fn faults_have_a_kind_and_a_text() {
    let table = [
        (Fault::DuplicateSocket, ErrorKind::AddrInUse, Some("duplicate socket entry")),
        (Fault::OutOfMemory, ErrorKind::OutOfMemory, Some("failed to allocate read buffer")),
        (
            Fault::PayloadEof { expected: 1 },
            ErrorKind::UnexpectedEof,
            Some("expected 1 more bytes"),
        ),
        (
            Fault::PayloadEof { expected: 65535 },
            ErrorKind::UnexpectedEof,
            Some("expected 65535 more bytes"),
        ),
        (
            Fault::PayloadOverrun,
            ErrorKind::Other,
            Some("read more bytes than in provided buffer"),
        ),
        (Fault::HeaderEof, ErrorKind::UnexpectedEof, Some("eof on header read")),
        (
            Fault::HeaderOverrun,
            ErrorKind::Other,
            Some("reader read more bytes than were provided"),
        ),
        (Fault::SocketFailed, ErrorKind::BrokenPipe, Some("socket hit fatal error")),
        (Fault::Closed, ErrorKind::BrokenPipe, None),
        (Fault::FlushStalled, ErrorKind::WriteZero, Some("failed to flush packet buffer")),
        (
            Fault::ShutdownFailed,
            ErrorKind::Other,
            Some("mux connection shutdown previously failed"),
        ),
    ];
    for (fault, kind, text) in table {
        assert_eq!(fault.kind(), kind);
        assert_eq!(fault.message().as_deref(), text);
    }
}

#[test]
fn decimal_notation_has_no_leading_zeros() {
    for n in 0..=u16::MAX {
        assert_eq!(decimal_string(n), n.to_string());
    }
}
