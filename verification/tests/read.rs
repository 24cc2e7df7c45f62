use tokio::io::ReadBuf;
use vt_muxer::error::{Fault, MuxError};
use vt_muxer::poll::Poll;
use vt_muxer::protocol::HEADER_SIZE;
use vt_muxer::read::socket_map::SocketMap;
use vt_muxer::read::{
    HeaderStep, LockedReaderState, ReadAnswer, ReaderEntry, ReaderWork, StepResult,
    DEFAULT_BUFFER_CAPACITY,
};
use vt_muxer::thin_addr::{SocketAddr, StdIpAddr, StdSocketAddr};

/// The handle of a connection is where its entry stands in a list, and the handing over of a
/// connection is its address.
type State = LockedReaderState<usize, SocketAddr>;

fn addr(port: u16) -> SocketAddr {
    SocketAddr::from_std(StdSocketAddr { ip: StdIpAddr::V4([127, 0, 0, 1]), port })
}

fn frame(port: u16, payload: &[u8]) -> Vec<u8> {
    let mut bytes = addr(port).bytes().to_vec();
    bytes.extend_from_slice(&(payload.len() as u16).to_be_bytes());
    bytes.extend_from_slice(payload);
    bytes
}

fn ready(data: &[u8]) -> Poll<Result<&[u8], &'static str>> {
    Poll::Ready(Ok(data))
}

struct Receiver {
    state: State,
    entries: Vec<(SocketAddr, bool, ReaderEntry<u32>)>,
    accepting: bool,
}

impl Receiver {
    fn new() -> Self {
        Self { state: LockedReaderState::new(), entries: Vec::new(), accepting: true }
    }

    /// Takes in a stream, in pieces of at most `piece` bytes.
    fn feed(&mut self, mut bytes: &[u8], piece: usize) {
        while !bytes.is_empty() || matches!(self.state.poll_once(), ReaderWork::Send) {
            match self.state.poll_once() {
                ReaderWork::Payload => {
                    let handle = self.state.payload_due().0.copied();
                    let room = match handle {
                        Some(i) => self.entries[i].2.buffer.remaining(),
                        None => 65535,
                    };
                    let limit = self.state.payload_limit(room).min(piece).min(bytes.len());
                    let (data, rest) = bytes.split_at(limit);
                    bytes = rest;
                    let step: StepResult<&str> = match handle {
                        Some(i) => {
                            let entry = &mut self.entries[i].2;
                            let (wake, step) = self.state.poll_read_into(entry, ready(data), 9);
                            assert!(wake);
                            step
                        }
                        None => self.state.poll_read_discard(Poll::Ready(Ok(limit))),
                    };
                    assert!(matches!(step, Poll::Ready(Ok(()))));
                }
                ReaderWork::Header => {
                    let limit = self.state.header_due().min(piece).min(bytes.len());
                    let (data, rest) = bytes.split_at(limit);
                    bytes = rest;
                    match self.state.poll_next_packet(ready(data), !self.accepting) {
                        HeaderStep::Return(Poll::Ready(result)) => assert!(result.is_ok()),
                        HeaderStep::Return(Poll::Pending) => unreachable!(),
                        HeaderStep::Closed(i) => self.entries[i].1 = false,
                        HeaderStep::Open(socket) => {
                            let entry = self.state.new_entry(socket, 0, 1).unwrap();
                            self.state.insert(socket, self.entries.len());
                            self.entries.push((socket, true, entry));
                            self.state.send_socket(socket);
                        }
                    }
                }
                ReaderWork::Send => {
                    assert_eq!(*self.state.sending(), self.entries.last().unwrap().0);
                    let step: StepResult<&str> = self.state.poll_send(false);
                    assert!(matches!(step, Poll::Pending));
                    let step: StepResult<&str> = self.state.poll_send(true);
                    assert!(matches!(step, Poll::Ready(Ok(()))));
                }
                ReaderWork::Failed(fault) => panic!("{:?}", fault),
            }
        }
    }
}

#[test]
fn a_connection_is_opened_fed_and_closed() {
    let mut stream = frame(1, b"");
    stream.extend_from_slice(&frame(1, b"hello "));
    stream.extend_from_slice(&frame(1, b"world"));
    stream.extend_from_slice(&frame(1, b""));
    for piece in [1, 2, 7, 19, 20, 1000] {
        let mut receiver = Receiver::new();
        receiver.feed(&stream, piece);
        assert_eq!(receiver.entries.len(), 1);
        let (socket, open, entry) = &receiver.entries[0];
        assert_eq!(*socket, addr(1));
        assert!(!open);
        assert_eq!(entry.buffer.bytes(), b"hello world");
        assert!(matches!(receiver.state.poll_once(), ReaderWork::Header));
        assert_eq!(receiver.state.header_due(), HEADER_SIZE);
    }
}

#[test]
fn connections_do_not_disturb_each_other() {
    let mut stream = frame(1, b"");
    stream.extend_from_slice(&frame(2, b""));
    stream.extend_from_slice(&frame(1, b"first "));
    stream.extend_from_slice(&frame(2, b"second "));
    stream.extend_from_slice(&frame(3, b"nobody"));
    stream.extend_from_slice(&frame(1, b"connection"));
    stream.extend_from_slice(&frame(1, b""));
    stream.extend_from_slice(&frame(2, b"connection"));
    stream.extend_from_slice(&frame(1, b"late"));
    let mut receiver = Receiver::new();
    receiver.feed(&stream, 5);
    assert_eq!(receiver.entries.len(), 2);
    assert_eq!(receiver.entries[0].2.buffer.bytes(), b"first connection");
    assert_eq!(receiver.entries[1].2.buffer.bytes(), b"second connection");
    assert!(!receiver.entries[0].1);
    assert!(receiver.entries[1].1);
}

#[test]
fn an_address_can_be_used_again() {
    let mut stream = frame(1, b"");
    stream.extend_from_slice(&frame(1, b"a"));
    stream.extend_from_slice(&frame(1, b""));
    stream.extend_from_slice(&frame(1, b""));
    stream.extend_from_slice(&frame(1, b"b"));
    let mut receiver = Receiver::new();
    receiver.feed(&stream, 100);
    assert_eq!(receiver.entries.len(), 2);
    assert_eq!(receiver.entries[0].2.buffer.bytes(), b"a");
    assert_eq!(receiver.entries[1].2.buffer.bytes(), b"b");
}

#[test]
fn nothing_is_opened_when_nobody_accepts() {
    let mut receiver = Receiver::new();
    receiver.accepting = false;
    let mut stream = frame(1, b"");
    stream.extend_from_slice(&frame(1, b"data"));
    receiver.feed(&stream, 100);
    assert!(receiver.entries.is_empty());
    assert!(matches!(receiver.state.poll_once(), ReaderWork::Header));
}

#[test]
fn an_open_connection_cannot_be_opened_again() {
    let mut state: State = LockedReaderState::new();
    let entry = state.new_entry(addr(1), 'i', 'w').unwrap();
    assert_eq!((entry.reader_pipe_waker, entry.waiting_waker), ('i', 'w'));
    assert_eq!(entry.buffer.capacity(), DEFAULT_BUFFER_CAPACITY);
    assert_eq!(DEFAULT_BUFFER_CAPACITY, 2 * u16::MAX as usize);
    state.insert(addr(1), 0);
    assert_eq!(state.new_entry(addr(1), 'i', 'w').unwrap_err(), Fault::DuplicateSocket);
    assert!(state.new_entry(addr(2), 'i', 'w').is_ok());
    assert_eq!(state.remove(addr(1)), Some(0));
    assert_eq!(state.remove(addr(1)), None);
    assert!(state.new_entry(addr(1), 'i', 'w').is_ok());
}

#[test]
fn a_stream_that_ends_in_a_header_fails() {
    let mut state: State = LockedReaderState::new();
    assert!(matches!(
        state.poll_next_packet(ready(b""), false),
        HeaderStep::Return(Poll::Ready(Err(MuxError::Fault(Fault::HeaderEof))))
    ));
    assert_eq!(state.poll_once(), ReaderWork::Failed(Fault::SocketFailed));
}

#[test]
fn a_header_that_is_too_long_fails() {
    let mut state: State = LockedReaderState::new();
    assert!(matches!(
        state.poll_next_packet(ready(&[0; 21]), false),
        HeaderStep::Return(Poll::Ready(Err(MuxError::Fault(Fault::HeaderOverrun))))
    ));
    assert_eq!(state.poll_once(), ReaderWork::Failed(Fault::SocketFailed));
}

#[test]
fn a_header_comes_in_pieces_and_waits_for_the_stream() {
    let mut state: State = LockedReaderState::new();
    let header = frame(1, b"");
    assert!(matches!(
        state.poll_next_packet(ready(&header[..4]), false),
        HeaderStep::Return(Poll::Ready(Ok(())))
    ));
    assert_eq!(state.header_due(), 16);
    assert!(matches!(
        state.poll_next_packet(Poll::<Result<&[u8], ()>>::Pending, false),
        HeaderStep::Return(Poll::Pending)
    ));
    assert!(matches!(
        state.poll_next_packet(Poll::Ready(Err("gone")), false),
        HeaderStep::Return(Poll::Ready(Err(MuxError::Stream("gone"))))
    ));
    assert_eq!(state.header_due(), 16);
    // a connection for which there is no entry leaves the header where it was
    match state.poll_next_packet(ready(&header[4..]), false) {
        HeaderStep::Open(socket) => assert_eq!(socket, addr(1)),
        _ => panic!(),
    }
    assert_eq!(state.header_due(), 16);
}

fn in_payload(len: usize) -> State {
    let mut state: State = LockedReaderState::new();
    let header = frame(1, &vec![0; len]);
    assert!(matches!(
        state.poll_next_packet(ready(&header[..20]), false),
        HeaderStep::Return(Poll::Ready(Ok(())))
    ));
    assert_eq!(state.payload_due().1 as usize, len);
    state
}

#[test]
fn a_stream_that_ends_in_a_payload_fails() {
    let mut state = in_payload(300);
    let step: StepResult<()> = state.poll_read_discard(Poll::Ready(Ok(100)));
    assert!(matches!(step, Poll::Ready(Ok(()))));
    let step: StepResult<()> = state.poll_read_discard(Poll::Ready(Ok(0)));
    assert!(matches!(
        step,
        Poll::Ready(Err(MuxError::Fault(Fault::PayloadEof { expected: 200 })))
    ));
    assert_eq!(state.poll_once(), ReaderWork::Failed(Fault::SocketFailed));
}

#[test]
fn a_payload_that_is_too_long_fails() {
    for n in [301, 70_000] {
        let mut state = in_payload(300);
        let step: StepResult<()> = state.poll_read_discard(Poll::Ready(Ok(n)));
        assert!(matches!(step, Poll::Ready(Err(MuxError::Fault(Fault::PayloadOverrun)))));
        assert_eq!(state.poll_once(), ReaderWork::Failed(Fault::SocketFailed));
    }
}

#[test]
fn a_payload_waits_for_the_stream_and_for_the_owner() {
    let mut state = in_payload(10);
    let step: StepResult<&str> = state.poll_read_discard(Poll::Pending);
    assert!(matches!(step, Poll::Pending));
    let step = state.poll_read_discard(Poll::Ready(Err("gone")));
    assert!(matches!(step, Poll::Ready(Err(MuxError::Stream("gone")))));

    let mut entry = ReaderEntry::new('i', 'w').unwrap();
    let (wake, step) = state.poll_read_into(&mut entry, Poll::<Result<&[u8], ()>>::Pending, 'x');
    assert!(!wake && matches!(step, Poll::Pending));
    let (wake, step) = state.poll_read_into(&mut entry, Poll::Ready(Err("gone")), 'x');
    assert!(!wake && matches!(step, Poll::Ready(Err(MuxError::Stream("gone")))));
    assert_eq!(entry.waiting_waker, 'w');

    let fill = vec![1u8; DEFAULT_BUFFER_CAPACITY - 3];
    entry.buffer.fill_buffer(ready(&fill));
    assert_eq!(state.payload_limit(entry.buffer.remaining()), 3);
    let (wake, step) = state.poll_read_into(&mut entry, ready(b"abc"), 'x');
    assert!(wake && matches!(step, Poll::Ready(Ok(()))));
    assert_eq!(state.payload_due().1, 7);
    assert_eq!(entry.waiting_waker, 'w');
    let (wake, step) = state.poll_read_into(&mut entry, Poll::<Result<&[u8], ()>>::Pending, 'x');
    assert!(wake && matches!(step, Poll::Pending));
    assert_eq!(entry.waiting_waker, 'x');
    assert_eq!(state.payload_due().1, 7);
}

#[test]
fn the_owner_reads_waits_and_sees_the_end() {
    let mut entry = ReaderEntry::new('i', 'w').unwrap();
    let mut output = [0; 4];

    let mut buf = ReadBuf::new(&mut output[..0]);
    assert_eq!(entry.poll_read(&mut buf, true, 'o'), ReadAnswer::Done { wake: false });
    assert_eq!(entry.reader_pipe_waker, 'i');

    let mut buf = ReadBuf::new(&mut output);
    assert_eq!(entry.poll_read(&mut buf, true, 'o'), ReadAnswer::PollShared);
    assert_eq!(entry.reader_pipe_waker, 'o');

    entry.buffer.fill_buffer(ready(b"abcdef"));
    assert_eq!(entry.poll_read(&mut buf, true, 'p'), ReadAnswer::Done { wake: true });
    assert_eq!(buf.filled(), b"abcd");
    assert_eq!(entry.reader_pipe_waker, 'o');

    let mut output = [0; 4];
    let mut buf = ReadBuf::new(&mut output);
    assert_eq!(entry.poll_read(&mut buf, false, 'p'), ReadAnswer::Done { wake: true });
    assert_eq!(buf.filled(), b"ef");
    assert_eq!(entry.poll_read(&mut buf, false, 'p'), ReadAnswer::Done { wake: false });
    assert_eq!(buf.filled(), b"ef");
    assert_eq!(entry.reader_pipe_waker, 'o');
}

#[test]
fn a_socket_map_knows_each_address_once() {
    let mut map: SocketMap<char> = SocketMap::new();
    assert_eq!(map.get(&addr(1)), None);
    map.insert(addr(1), 'a');
    map.insert(addr(2), 'b');
    map.insert(addr(3), 'c');
    assert_eq!(map.get(&addr(2)), Some(&'b'));
    assert_eq!(map.remove(&addr(2)), Some('b'));
    assert_eq!(map.remove(&addr(2)), None);
    assert!(!map.contains_key(&addr(2)));
    assert_eq!(map.get(&addr(1)), Some(&'a'));
    assert_eq!(map.get(&addr(3)), Some(&'c'));
}
