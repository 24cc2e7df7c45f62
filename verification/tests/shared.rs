use std::cell::Cell;
use std::rc::Rc;
use vt_muxer::poll::Poll;
use vt_muxer::read::{
    HeaderStep, LockedReaderState, ReaderEntry, ReaderWork, StepResult, DEFAULT_BUFFER_CAPACITY,
};
use vt_muxer::thin_addr::{SocketAddr, StdIpAddr, StdSocketAddr};
use vt_muxer::write::{DoneResult, DropPlan, Step, WriteCall, WriteInner, WriteResult};

fn addr(port: u16) -> SocketAddr {
    SocketAddr::from_std(StdSocketAddr { ip: StdIpAddr::V4([10, 0, 0, 1]), port })
}

/// The stream's lock, held.
struct Guard(Rc<Cell<bool>>);

impl Drop for Guard {
    fn drop(&mut self) {
        self.0.set(false);
    }
}

type Inner = WriteInner<u32, Guard>;

/// A stream that takes few bytes at a time, and every third time none.
struct Stream {
    out: Vec<u8>,
    locked: Rc<Cell<bool>>,
    calls: usize,
    at_most: usize,
}

impl Stream {
    fn new(at_most: usize) -> Self {
        Self { out: Vec::new(), locked: Rc::new(Cell::new(false)), calls: 0, at_most }
    }

    fn lock(&self) -> Poll<Guard> {
        if self.locked.replace(true) {
            Poll::Pending
        } else {
            Poll::Ready(Guard(self.locked.clone()))
        }
    }

    fn send(&mut self, inner: &mut Inner) -> Poll<Result<usize, ()>> {
        self.calls += 1;
        if self.calls % 3 == 0 {
            return Poll::Pending;
        }
        let (_, bytes) = inner.unsent();
        let n = bytes.len().min(self.at_most);
        self.out.extend_from_slice(&bytes[..n]);
        Poll::Ready(Ok(n))
    }

    fn write(&mut self, inner: &mut Inner, buf: &[u8]) -> WriteResult<()> {
        let mut call = WriteCall::new(buf);
        let mut step = inner.poll_write(&mut call, 0);
        loop {
            step = match step {
                Step::Lock => inner.write_locked(&call, self.lock()),
                Step::Send => {
                    let sent = self.send(inner);
                    inner.write_sent(&mut call, sent)
                }
                Step::Flush => unreachable!(),
                Step::Return(result) => return result,
            }
        }
    }

    fn flush(&mut self, inner: &mut Inner) -> DoneResult<()> {
        let mut step = inner.poll_flush(0);
        loop {
            step = match step {
                Step::Lock => inner.flush_locked(self.lock()),
                Step::Send => {
                    let sent = self.send(inner);
                    inner.flush_sent(sent)
                }
                Step::Flush => inner.flush_flushed(Poll::Ready(Ok(()))),
                Step::Return(result) => return result,
            }
        }
    }

    fn shutdown(&mut self, inner: &mut Inner) -> DoneResult<()> {
        let (_, mut step) = inner.poll_shutdown();
        loop {
            step = match step {
                Step::Lock => inner.shutdown_locked(self.lock()),
                Step::Send => {
                    let sent = self.send(inner);
                    inner.shutdown_sent(sent)
                }
                Step::Flush => unreachable!(),
                Step::Return(result) => return result,
            }
        }
    }
}

/// The receiving end: the connections that were opened, whether they still are, and what has been
/// received for them.
struct Receiver {
    state: LockedReaderState<usize, ()>,
    entries: Vec<(SocketAddr, bool, ReaderEntry<u32>)>,
}

impl Receiver {
    fn new() -> Self {
        Self { state: LockedReaderState::new(), entries: Vec::new() }
    }

    fn open(&mut self, socket: SocketAddr) {
        let entry = self.state.new_entry(socket, 0, 0).unwrap();
        assert_eq!(entry.buffer.capacity(), DEFAULT_BUFFER_CAPACITY);
        self.state.insert(socket, self.entries.len());
        self.entries.push((socket, true, entry));
    }

    fn feed(&mut self, mut bytes: &[u8]) {
        while !bytes.is_empty() {
            match self.state.poll_once() {
                ReaderWork::Payload => {
                    let i = *self.state.payload_due().0.unwrap();
                    let entry = &mut self.entries[i].2;
                    let room = entry.buffer.remaining();
                    let limit = self.state.payload_limit(room).min(bytes.len());
                    let (data, rest) = bytes.split_at(limit);
                    bytes = rest;
                    let read: Poll<Result<&[u8], ()>> = Poll::Ready(Ok(data));
                    let (_, step) = self.state.poll_read_into(entry, read, 0);
                    assert!(matches!(step, Poll::Ready(Ok(()))));
                }
                ReaderWork::Header => {
                    let limit = self.state.header_due().min(bytes.len());
                    let (data, rest) = bytes.split_at(limit);
                    bytes = rest;
                    let read: Poll<Result<&[u8], ()>> = Poll::Ready(Ok(data));
                    match self.state.poll_next_packet(read, false) {
                        HeaderStep::Return(Poll::Ready(result)) => assert!(result.is_ok()),
                        HeaderStep::Return(Poll::Pending) => unreachable!(),
                        HeaderStep::Closed(i) => self.entries[i].1 = false,
                        HeaderStep::Open(socket) => {
                            self.open(socket);
                            self.state.send_socket(());
                            let step: StepResult<()> = self.state.poll_send(true);
                            assert!(matches!(step, Poll::Ready(Ok(()))));
                        }
                    }
                }
                _ => unreachable!(),
            }
        }
        assert!(matches!(self.state.poll_once(), ReaderWork::Header));
        assert_eq!(self.state.header_due(), 20);
    }
}

fn payload(seed: usize, len: usize) -> Vec<u8> {
    (0..len).map(|i| (i * 31 + seed * 7) as u8).collect()
}

/// Lets the connections write, flush and shut down in turns. Returns the stream.
fn run(connections: &mut [(Inner, Vec<Vec<u8>>)], at_most: usize) -> Stream {
    let mut stream = Stream::new(at_most);
    for (inner, _) in connections.iter() {
        if inner.addr().port() < 100 {
            assert!(inner.can_handshake());
            let opening = inner.handshake().to_vec();
            stream.out.extend_from_slice(&opening);
        }
    }
    let mut closed = vec![false; connections.len()];
    let mut waited_for_lock = 0;
    while !closed.iter().all(|done| *done) {
        for (i, (inner, chunks)) in connections.iter_mut().enumerate() {
            if closed[i] {
                continue;
            }
            let flushed = stream.flush(inner);
            if matches!(flushed, Poll::Pending) {
                waited_for_lock += 1;
                continue;
            }
            if chunks.is_empty() {
                closed[i] = matches!(stream.shutdown(inner), Poll::Ready(Ok(())));
                while !closed[i] {
                    closed[i] = matches!(stream.shutdown(inner), Poll::Ready(Ok(())));
                }
            } else {
                let chunk = chunks.remove(0);
                match stream.write(inner, &chunk) {
                    Poll::Ready(Ok(n)) => assert_eq!(n, chunk.len()),
                    _ => unreachable!(),
                }
            }
        }
    }
    assert!(waited_for_lock > 0);
    assert!(!stream.locked.get());
    stream
}

#[test]
fn what_connections_write_in_turns_arrives() {
    for at_most in [1, 3, 19, 20, 333] {
        let mut connections = Vec::new();
        let mut expected = Vec::new();
        for port in [1u16, 2, 3] {
            let chunks: Vec<Vec<u8>> =
                (1..6).map(|i| payload(port as usize + i, i * 40 + port as usize)).collect();
            expected.push(chunks.concat());
            connections.push((WriteInner::new(addr(port), 0), chunks));
        }
        let stream = run(&mut connections, at_most);
        let mut receiver = Receiver::new();
        receiver.feed(&stream.out);
        assert_eq!(receiver.entries.len(), 3);
        for (i, (socket, open, entry)) in receiver.entries.iter().enumerate() {
            assert_eq!(*socket, addr(i as u16 + 1));
            assert!(!open);
            assert_eq!(entry.buffer.bytes(), expected[i].as_slice());
        }
    }
}

#[test]
fn large_writes_that_contend_for_the_lock_arrive_once() {
    let mut stream = Stream::new(1000);
    let data = [payload(1, 100000), payload(2, 131000)];
    let mut inners: Vec<Inner> = vec![WriteInner::new(addr(1), 0), WriteInner::new(addr(2), 0)];
    for inner in &inners {
        stream.out.extend_from_slice(&inner.handshake().to_vec());
    }
    let mut taken = [0, 0];
    let mut waited = [0, 0];
    while taken[0] < data[0].len() || taken[1] < data[1].len() {
        for i in 0..2 {
            match stream.write(&mut inners[i], &data[i][taken[i]..]) {
                Poll::Ready(Ok(n)) => taken[i] += n,
                Poll::Ready(Err(_)) => unreachable!(),
                Poll::Pending => waited[i] += 1,
            }
        }
    }
    assert!(waited[0] > 0 && waited[1] > 0);
    let mut closed = [false, false];
    while closed != [true, true] {
        for i in 0..2 {
            closed[i] = matches!(stream.shutdown(&mut inners[i]), Poll::Ready(Ok(())));
        }
    }
    let mut receiver = Receiver::new();
    receiver.feed(&stream.out);
    assert_eq!(receiver.entries.len(), 2);
    for (i, (_, open, entry)) in receiver.entries.iter().enumerate() {
        assert!(!open);
        assert!(entry.buffer.bytes() == data[i].as_slice());
    }
}

#[test]
fn what_is_answered_on_an_open_connection_arrives() {
    let mut receiver = Receiver::new();
    let mut connections = Vec::new();
    let mut expected = Vec::new();
    for port in [100u16, 101] {
        receiver.open(addr(port));
        let chunks = vec![payload(port as usize, 300), payload(port as usize + 1, 5)];
        expected.push(chunks.concat());
        connections.push((WriteInner::new(addr(port), 0), chunks));
    }
    let stream = run(&mut connections, 50);
    receiver.feed(&stream.out);
    assert_eq!(receiver.entries.len(), 2);
    for (i, (_, open, entry)) in receiver.entries.iter().enumerate() {
        assert!(!open);
        assert_eq!(entry.buffer.bytes(), expected[i].as_slice());
    }
}

#[test]
fn giving_up_in_a_frame_keeps_the_stream_in_frames() {
    let mut stream = Stream::new(10);
    let mut first: Inner = WriteInner::new(addr(1), 0);
    let mut second: Inner = WriteInner::new(addr(2), 0);
    stream.out.extend_from_slice(&first.handshake().to_vec());
    stream.out.extend_from_slice(&second.handshake().to_vec());
    assert!(matches!(stream.write(&mut first, &payload(1, 100)), Poll::Ready(Ok(100))));
    assert!(matches!(stream.flush(&mut first), Poll::Pending));
    assert_eq!(stream.out.len(), 60);
    // the other connection cannot get in between
    assert!(matches!(stream.write(&mut second, b"two"), Poll::Ready(Ok(3))));
    assert!(matches!(stream.flush(&mut second), Poll::Pending));
    assert_eq!(stream.out.len(), 60);
    match first.drop_plan() {
        DropPlan::Locked { lock, rest, eof } => {
            assert_eq!(rest.len(), 100);
            stream.out.extend_from_slice(&rest);
            stream.out.extend_from_slice(&eof);
            drop(lock);
        }
        _ => unreachable!(),
    }
    while !matches!(stream.shutdown(&mut second), Poll::Ready(Ok(()))) {}
    let mut receiver = Receiver::new();
    receiver.feed(&stream.out);
    assert_eq!(receiver.entries[0].2.buffer.bytes(), payload(1, 100).as_slice());
    assert_eq!(receiver.entries[1].2.buffer.bytes(), b"two");
    assert!(!receiver.entries[0].1 && !receiver.entries[1].1);
}

#[test]
fn a_full_entry_has_something_to_read_and_is_emptied_by_reading_it() {
    let mut receiver = Receiver::new();
    receiver.open(addr(7));
    let mut sent = Vec::new();
    for _ in 0..2 {
        sent.extend_from_slice(&addr(7).bytes());
        sent.extend_from_slice(&[0xff, 0xff]);
        sent.extend_from_slice(&payload(7, 65535));
    }
    receiver.feed(&sent);
    let entry = &mut receiver.entries[0].2;
    assert_eq!(entry.buffer.remaining(), 0);
    let mut storage = vec![0; 1];
    let mut buf = tokio::io::ReadBuf::new(&mut storage);
    entry.buffer.read(&mut buf);
    assert_eq!(buf.filled(), &payload(7, 1)[..]);
    assert_eq!(entry.buffer.remaining(), 0);
    let mut storage = vec![0; 200000];
    let mut buf = tokio::io::ReadBuf::new(&mut storage);
    entry.buffer.read(&mut buf);
    assert_eq!(buf.filled().len(), 131069);
    assert_eq!(entry.buffer.remaining(), DEFAULT_BUFFER_CAPACITY);
}
