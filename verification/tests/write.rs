use vt_muxer::error::{Fault, MuxError};
use vt_muxer::poll::Poll;
use vt_muxer::protocol::{MuxFrameHeader, HEADER_SIZE, PACKET_SIZE};
use vt_muxer::thin_addr::{SocketAddr, StdIpAddr, StdSocketAddr};
use vt_muxer::write::{
    flush_buf, flush_buf_sent, DoneResult, DropPlan, FlushProgress, Step, WriteCall, WriteCounter,
    WriteInner, WriteResult,
};

type Inner = WriteInner<u32, char>;
type Outcome = Poll<Result<usize, &'static str>>;

fn addr() -> SocketAddr {
    SocketAddr::from_std(StdSocketAddr { ip: StdIpAddr::V4([127, 0, 0, 1]), port: 8080 })
}

fn header(len: u16) -> Vec<u8> {
    let mut bytes = addr().bytes().to_vec();
    bytes.extend_from_slice(&len.to_be_bytes());
    bytes
}

fn frame(payload: &[u8]) -> Vec<u8> {
    let mut bytes = header(payload.len() as u16);
    bytes.extend_from_slice(payload);
    bytes
}

/// A stream that takes what a script says, and everything once the script is over.
struct Stream {
    script: Vec<Outcome>,
    out: Vec<u8>,
    lock_free: bool,
    flushed: usize,
}

impl Stream {
    fn new(script: Vec<Outcome>) -> Self {
        Self { script, out: Vec::new(), lock_free: true, flushed: 0 }
    }

    fn lock(&self) -> Poll<char> {
        if self.lock_free {
            Poll::Ready('l')
        } else {
            Poll::Pending
        }
    }

    fn take(&mut self, bytes: &[u8]) -> Outcome {
        let outcome = if self.script.is_empty() {
            Poll::Ready(Ok(bytes.len()))
        } else {
            self.script.remove(0)
        };
        match outcome {
            Poll::Ready(Ok(n)) => {
                let n = n.min(bytes.len());
                self.out.extend_from_slice(&bytes[..n]);
                Poll::Ready(Ok(n))
            }
            other => other,
        }
    }
}

fn send(inner: &mut Inner, stream: &mut Stream) -> Outcome {
    let (lock, bytes) = inner.unsent();
    assert_eq!(*lock, 'l');
    stream.take(bytes)
}

fn write(inner: &mut Inner, stream: &mut Stream, buf: &[u8]) -> WriteResult<&'static str> {
    let mut call = WriteCall::new(buf);
    let mut step = inner.poll_write(&mut call, 7);
    loop {
        step = match step {
            Step::Lock => inner.write_locked(&call, stream.lock()),
            Step::Send => {
                let sent = send(inner, stream);
                inner.write_sent(&mut call, sent)
            }
            Step::Flush => unreachable!(),
            Step::Return(result) => return result,
        }
    }
}

fn flush(inner: &mut Inner, stream: &mut Stream) -> DoneResult<&'static str> {
    let mut step = inner.poll_flush(8);
    loop {
        step = match step {
            Step::Lock => inner.flush_locked(stream.lock()),
            Step::Send => {
                let sent = send(inner, stream);
                inner.flush_sent(sent)
            }
            Step::Flush => {
                assert_eq!(*inner.held_lock(), 'l');
                stream.flushed += 1;
                inner.flush_flushed(Poll::Ready(Ok(())))
            }
            Step::Return(result) => return result,
        }
    }
}

fn shutdown(inner: &mut Inner, stream: &mut Stream) -> (Option<u32>, DoneResult<&'static str>) {
    let (woken, mut step) = inner.poll_shutdown();
    loop {
        step = match step {
            Step::Lock => inner.shutdown_locked(stream.lock()),
            Step::Send => {
                let sent = send(inner, stream);
                inner.shutdown_sent(sent)
            }
            Step::Flush => unreachable!(),
            Step::Return(result) => return (woken, result),
        }
    }
}

#[test]
fn a_connection_opens_with_an_empty_header() {
    let inner: Inner = WriteInner::new(addr(), 0);
    assert!(inner.can_handshake());
    assert_eq!(inner.handshake(), header(0).as_slice());
    assert_eq!(inner.addr(), addr());
}

#[test]
fn small_writes_are_gathered_in_one_frame() {
    let mut inner: Inner = WriteInner::new(addr(), 0);
    let mut stream = Stream::new(vec![]);
    assert!(matches!(write(&mut inner, &mut stream, b"hello "), Poll::Ready(Ok(6))));
    assert!(!inner.can_handshake());
    assert!(matches!(write(&mut inner, &mut stream, b"world"), Poll::Ready(Ok(5))));
    assert!(matches!(write(&mut inner, &mut stream, b""), Poll::Ready(Ok(0))));
    assert_eq!(stream.out, b"");
    assert!(matches!(flush(&mut inner, &mut stream), Poll::Ready(Ok(()))));
    assert_eq!(stream.out, frame(b"hello world"));
    assert_eq!(stream.flushed, 1);
    assert!(matches!(flush(&mut inner, &mut stream), Poll::Ready(Ok(()))));
    assert_eq!(stream.out, frame(b"hello world"));
    assert_eq!(stream.flushed, 2);
}

#[test]
fn shutting_down_sends_the_rest_and_closes() {
    let mut inner: Inner = WriteInner::new(addr(), 0);
    let mut stream = Stream::new(vec![Poll::Ready(Ok(3)), Poll::Ready(Ok(18)), Poll::Ready(Ok(1))]);
    write(&mut inner, &mut stream, b"hello");
    let (woken, result) = shutdown(&mut inner, &mut stream);
    assert_eq!(woken, Some(7));
    assert!(matches!(result, Poll::Ready(Ok(()))));
    let mut expected = frame(b"hello");
    expected.extend_from_slice(&header(0));
    assert_eq!(stream.out, expected);

    let (woken, result) = shutdown(&mut inner, &mut stream);
    assert_eq!(woken, None);
    assert!(matches!(result, Poll::Ready(Ok(()))));
    assert_eq!(stream.out, expected);
    assert!(matches!(
        write(&mut inner, &mut stream, b"late"),
        Poll::Ready(Err(MuxError::Fault(Fault::Closed)))
    ));
    assert!(matches!(
        flush(&mut inner, &mut stream),
        Poll::Ready(Err(MuxError::Fault(Fault::Closed)))
    ));
    assert_eq!(stream.out, expected);
}

#[test]
fn shutting_down_an_idle_connection_only_closes_it() {
    let mut inner: Inner = WriteInner::new(addr(), 5);
    let mut stream = Stream::new(vec![]);
    stream.lock_free = false;
    let (woken, result) = shutdown(&mut inner, &mut stream);
    assert_eq!(woken, Some(5));
    assert!(matches!(result, Poll::Pending));
    let (woken, result) = shutdown(&mut inner, &mut stream);
    assert_eq!(woken, None);
    assert!(matches!(result, Poll::Pending));
    stream.lock_free = true;
    assert!(matches!(shutdown(&mut inner, &mut stream).1, Poll::Ready(Ok(()))));
    assert_eq!(stream.out, header(0));
}

#[test]
fn a_shutdown_that_fails_stays_failed() {
    let mut inner: Inner = WriteInner::new(addr(), 0);
    let mut stream = Stream::new(vec![Poll::Ready(Err("gone"))]);
    write(&mut inner, &mut stream, b"x");
    assert!(matches!(
        shutdown(&mut inner, &mut stream).1,
        Poll::Ready(Err(MuxError::Stream("gone")))
    ));
    assert!(matches!(
        shutdown(&mut inner, &mut stream).1,
        Poll::Ready(Err(MuxError::Fault(Fault::ShutdownFailed)))
    ));

    let mut inner: Inner = WriteInner::new(addr(), 0);
    let mut stream = Stream::new(vec![Poll::Ready(Ok(5)), Poll::Ready(Ok(0))]);
    assert!(matches!(
        shutdown(&mut inner, &mut stream).1,
        Poll::Ready(Err(MuxError::Fault(Fault::FlushStalled)))
    ));
}

#[test]
fn a_shutdown_waits_for_the_stream() {
    let mut inner: Inner = WriteInner::new(addr(), 0);
    let mut stream = Stream::new(vec![
        Poll::Ready(Ok(4)),
        Poll::Pending,
        Poll::Ready(Ok(17)),
        Poll::Ready(Ok(2)),
        Poll::Pending,
    ]);
    write(&mut inner, &mut stream, b"x");
    assert!(matches!(shutdown(&mut inner, &mut stream).1, Poll::Pending));
    assert!(matches!(shutdown(&mut inner, &mut stream).1, Poll::Pending));
    assert!(matches!(shutdown(&mut inner, &mut stream).1, Poll::Ready(Ok(()))));
    let mut expected = frame(b"x");
    expected.extend_from_slice(&header(0));
    assert_eq!(stream.out, expected);
}

#[test]
fn a_large_write_is_cut_into_frames() {
    let mut inner: Inner = WriteInner::new(addr(), 0);
    let mut stream = Stream::new(vec![]);
    let payload: Vec<u8> = (0..200_000u32).map(|i| (i % 251) as u8).collect();
    assert!(matches!(write(&mut inner, &mut stream, &payload), Poll::Ready(Ok(200_000))));
    shutdown(&mut inner, &mut stream);

    let mut received = Vec::new();
    let mut rest = stream.out.as_slice();
    let mut lens = Vec::new();
    loop {
        let header = MuxFrameHeader::from_bytes(&rest[..HEADER_SIZE]);
        assert_eq!(header.addr(), addr());
        let len = header.len() as usize;
        lens.push(len);
        rest = &rest[HEADER_SIZE..];
        if len == 0 {
            break;
        }
        received.extend_from_slice(&rest[..len]);
        rest = &rest[len..];
    }
    assert!(rest.is_empty());
    assert_eq!(lens, vec![65535, 65535, 65535, 3395, 0]);
    assert!(received == payload);
}

#[test]
fn writes_join_a_frame_that_is_being_sent() {
    // the stream stops before, inside and behind the length
    for (stop, joins) in [(5, true), (18, true), (19, true), (20, false), (22, false)] {
        let mut inner: Inner = WriteInner::new(addr(), 0);
        let mut stream = Stream::new(vec![Poll::Ready(Ok(stop)), Poll::Pending]);
        write(&mut inner, &mut stream, b"abc");
        assert!(matches!(flush(&mut inner, &mut stream), Poll::Pending));
        assert_eq!(stream.out.len(), stop);
        assert!(matches!(write(&mut inner, &mut stream, b"de"), Poll::Ready(Ok(2))));
        assert!(matches!(flush(&mut inner, &mut stream), Poll::Ready(Ok(()))));
        let expected = if joins {
            frame(b"abcde")
        } else {
            let mut two = frame(b"abc");
            two.extend_from_slice(&frame(b"de"));
            two
        };
        assert_eq!(stream.out, expected);
    }
}

#[test]
fn a_write_that_the_stream_holds_up_reports_what_it_took() {
    let mut inner: Inner = WriteInner::new(addr(), 0);
    let full = vec![1u8; PACKET_SIZE as usize];
    let mut stream = Stream::new(vec![Poll::Pending, Poll::Pending]);
    assert!(matches!(write(&mut inner, &mut stream, &full), Poll::Ready(Ok(65535))));
    // nothing fits, so nothing is taken
    assert!(matches!(write(&mut inner, &mut stream, b"more"), Poll::Pending));
    assert!(matches!(write(&mut inner, &mut stream, b"more"), Poll::Pending));
    assert!(matches!(write(&mut inner, &mut stream, b"more"), Poll::Ready(Ok(4))));
    assert_eq!(stream.out, frame(&full));

    let mut inner: Inner = WriteInner::new(addr(), 0);
    let mut stream = Stream::new(vec![Poll::Pending]);
    let long = vec![2u8; PACKET_SIZE as usize + 10];
    assert!(matches!(write(&mut inner, &mut stream, &long), Poll::Ready(Ok(65535))));
    assert!(matches!(write(&mut inner, &mut stream, &long[65535..]), Poll::Ready(Ok(10))));
}

#[test]
fn a_write_without_the_lock_reports_what_it_took_and_waits_if_it_took_nothing() {
    let mut inner: Inner = WriteInner::new(addr(), 0);
    let mut stream = Stream::new(vec![]);
    stream.lock_free = false;
    let long = vec![3u8; PACKET_SIZE as usize + 1];
    assert!(matches!(write(&mut inner, &mut stream, &long), Poll::Ready(Ok(65535))));
    assert!(matches!(write(&mut inner, &mut stream, &long[65535..]), Poll::Pending));
    assert_eq!(stream.out, b"");
    stream.lock_free = true;
    assert!(matches!(write(&mut inner, &mut stream, &long[65535..]), Poll::Ready(Ok(1))));
    assert!(matches!(flush(&mut inner, &mut stream), Poll::Ready(Ok(()))));
    let mut expected = frame(&long[..65535]);
    expected.extend_from_slice(&frame(&long[65535..]));
    assert_eq!(stream.out, expected);
}

#[test]
fn a_failed_write_keeps_the_frame() {
    let full = vec![1u8; PACKET_SIZE as usize];
    for (outcome, stalled) in [(Poll::Ready(Err("gone")), false), (Poll::Ready(Ok(0)), true)] {
        let mut inner: Inner = WriteInner::new(addr(), 0);
        let mut stream = Stream::new(vec![outcome]);
        write(&mut inner, &mut stream, &full);
        match write(&mut inner, &mut stream, b"x") {
            Poll::Ready(Err(MuxError::Stream("gone"))) => assert!(!stalled),
            Poll::Ready(Err(MuxError::Fault(Fault::FlushStalled))) => assert!(stalled),
            _ => panic!(),
        }
        assert!(matches!(flush(&mut inner, &mut stream), Poll::Ready(Ok(()))));
        assert_eq!(stream.out, frame(&full));
    }
}

#[test]
fn a_failed_flush_gives_up_the_lock_and_keeps_the_frame() {
    let mut inner: Inner = WriteInner::new(addr(), 0);
    let mut stream = Stream::new(vec![Poll::Ready(Err("gone")), Poll::Ready(Ok(0))]);
    write(&mut inner, &mut stream, b"x");
    assert!(matches!(flush(&mut inner, &mut stream), Poll::Ready(Err(MuxError::Stream("gone")))));
    assert!(matches!(
        flush(&mut inner, &mut stream),
        Poll::Ready(Err(MuxError::Fault(Fault::FlushStalled)))
    ));
    stream.lock_free = false;
    assert!(matches!(flush(&mut inner, &mut stream), Poll::Pending));
    stream.lock_free = true;
    assert!(matches!(flush(&mut inner, &mut stream), Poll::Ready(Ok(()))));
    assert_eq!(stream.out, frame(b"x"));
}

#[test]
fn a_flush_that_the_stream_does_not_end_keeps_the_lock() {
    let mut inner: Inner = WriteInner::new(addr(), 0);
    let mut stream = Stream::new(vec![]);
    write(&mut inner, &mut stream, b"abc");
    assert!(matches!(inner.poll_flush::<()>(1), Step::Lock));
    assert!(matches!(inner.flush_locked::<()>(Poll::Ready('l')), Step::Send));
    assert!(matches!(inner.flush_sent::<()>(Poll::Ready(Ok(23))), Step::Flush));
    assert!(matches!(inner.flush_flushed::<()>(Poll::Pending), Step::Return(Poll::Pending)));
    assert!(!inner.is_in_place());
    assert!(matches!(inner.poll_flush::<()>(1), Step::Flush));
    assert!(matches!(
        inner.flush_flushed(Poll::Ready(Err(()))),
        Step::Return(Poll::Ready(Err(MuxError::Stream(()))))
    ));
    assert!(inner.is_in_place());
    assert!(inner.can_handshake());
}

#[test]
fn giving_up_finishes_a_frame_that_has_been_started() {
    let mut inner: Inner = WriteInner::new(addr(), 0);
    let mut stream = Stream::new(vec![Poll::Ready(Ok(21)), Poll::Pending]);
    write(&mut inner, &mut stream, b"abc");
    flush(&mut inner, &mut stream);
    match inner.drop_plan() {
        DropPlan::Locked { lock, rest, eof } => {
            assert_eq!(lock, 'l');
            assert_eq!(rest, b"bc");
            assert_eq!(eof, header(0));
            let mut whole = stream.out;
            whole.extend_from_slice(&rest);
            assert_eq!(whole, frame(b"abc"));
        }
        _ => panic!(),
    }
    assert!(inner.is_poisoned());
    assert!(matches!(inner.drop_plan(), DropPlan::Nothing));
}

#[test]
fn giving_up_loses_a_frame_that_has_not_been_started() {
    let mut inner: Inner = WriteInner::new(addr(), 0);
    let mut stream = Stream::new(vec![Poll::Pending]);
    write(&mut inner, &mut stream, b"abc");
    flush(&mut inner, &mut stream);
    assert!(matches!(
        inner.drop_plan(),
        DropPlan::Locked { lock: 'l', rest, eof } if rest.is_empty() && eof == header(0)
    ));

    let mut inner: Inner = WriteInner::new(addr(), 0);
    let mut stream = Stream::new(vec![]);
    write(&mut inner, &mut stream, b"abc");
    assert!(matches!(inner.drop_plan(), DropPlan::Lock { eof } if eof == header(0)));

    let mut inner: Inner = WriteInner::new(addr(), 0);
    shutdown(&mut inner, &mut stream);
    assert!(matches!(inner.drop_plan(), DropPlan::Nothing));
}

#[test]
fn a_panic_poisons() {
    let mut inner: Inner = WriteInner::new(addr(), 0);
    assert!(!inner.is_poisoned());
    inner.poison();
    assert!(inner.is_poisoned());
}

#[test]
fn counters_count_in_their_own_width() {
    let mut narrow: u8 = 3;
    narrow.add(17);
    assert_eq!(narrow.current_count(), 20);
    narrow.add(256);
    assert_eq!(narrow.current_count(), 20);
    let mut wide: u32 = 3;
    wide.add(65_552);
    assert_eq!(wide.current_count(), 65_555);
}

#[test]
fn a_frame_is_emptied_when_its_last_byte_is_gone() {
    let mut buffer = vt_muxer::packet_buffer::PacketBuffer::new(addr());
    buffer.push(b"ab", 0);
    let mut written: u32 = 0;
    assert!(!flush_buf(&mut buffer, &written));
    assert!(matches!(
        flush_buf_sent(&mut buffer, &mut written, Poll::<Result<usize, ()>>::Ready(Ok(21))),
        FlushProgress::Send
    ));
    assert_eq!(written, 21);
    assert_eq!(buffer.packet_size(), 2);
    assert!(matches!(
        flush_buf_sent(&mut buffer, &mut written, Poll::<Result<usize, ()>>::Ready(Ok(1))),
        FlushProgress::Ready(Ok(()))
    ));
    assert!(buffer.is_empty());
}
