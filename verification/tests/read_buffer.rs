use std::collections::VecDeque;
use std::io;
use std::pin::Pin;
use std::task::{Context, Poll, Waker};
use tokio::io::{AsyncRead, ReadBuf};
use vt_muxer::error::{ErrorKind, Fault};
use vt_muxer::read::read_buffer::ReadBuffer;

struct BuffReader<R> {
    buffer: ReadBuffer,
    reader: R,
}

impl<R: AsyncRead + Unpin> BuffReader<R> {
    fn new(reader: R, capacity: usize) -> Result<Self, Fault> {
        let buffer = ReadBuffer::new(capacity)?;
        Ok(Self { buffer, reader })
    }
}

fn fill_buffer<R: AsyncRead>(
    buffer: &mut ReadBuffer,
    cx: &mut Context<'_>,
    reader: Pin<&mut R>,
) -> Poll<io::Result<Option<usize>>> {
    let room = buffer.remaining();
    let mut scratch = vec![0; room];
    let mut read_buf = ReadBuf::new(&mut scratch);
    let read = if room == 0 {
        vt_muxer::poll::Poll::Pending
    } else {
        match reader.poll_read(cx, &mut read_buf) {
            Poll::Ready(Ok(())) => vt_muxer::poll::Poll::Ready(Ok(read_buf.filled())),
            Poll::Ready(Err(e)) => vt_muxer::poll::Poll::Ready(Err(e)),
            Poll::Pending => vt_muxer::poll::Poll::Pending,
        }
    };
    match buffer.fill_buffer(read) {
        vt_muxer::poll::Poll::Ready(result) => Poll::Ready(result),
        vt_muxer::poll::Poll::Pending => Poll::Pending,
    }
}

impl<R: AsyncRead + Unpin> AsyncRead for BuffReader<R> {
    fn poll_read(
        self: Pin<&mut Self>,
        cx: &mut Context<'_>,
        buf: &mut ReadBuf<'_>,
    ) -> Poll<io::Result<()>> {
        let this = Pin::into_inner(self);

        while buf.remaining() != 0 {
            let read = match fill_buffer(&mut this.buffer, cx, Pin::new(&mut this.reader)) {
                Poll::Ready(read) => read?,
                Poll::Pending => return Poll::Pending,
            };
            this.buffer.read(buf);
            if read.is_none_or(|read| read == 0) {
                break;
            }
        }

        Poll::Ready(Ok(()))
    }
}

#[test]
fn test_new_buffer() {
    let capacity = 1024;
    let buffer = ReadBuffer::new(capacity).unwrap();

    assert_eq!(buffer.capacity(), capacity);
    assert_eq!(buffer.pos(), 0);
    assert_eq!(buffer.filled(), 0);
}

#[test]
fn test_capacity() {
    let capacity = 2048;
    let buffer = ReadBuffer::new(capacity).unwrap();

    assert_eq!(buffer.capacity(), capacity);
}

/// A simple mock reader that simulates reads from a VecDeque
/// and always returns Ready
struct MockReader {
    data: VecDeque<u8>,
}

impl MockReader {
    fn new(data: Vec<u8>) -> Self {
        Self { data: VecDeque::from(data) }
    }
}

impl AsyncRead for MockReader {
    fn poll_read(
        mut self: Pin<&mut Self>,
        _cx: &mut Context<'_>,
        buf: &mut ReadBuf<'_>,
    ) -> Poll<io::Result<()>> {
        let available = self.data.len();
        if available == 0 {
            return Poll::Ready(Ok(()));
        }

        let can_read = std::cmp::min(available, buf.remaining());
        if can_read == 0 {
            return Poll::Ready(Ok(()));
        }

        for _ in 0..can_read {
            if let Some(byte) = self.data.pop_front() {
                buf.put_slice(&[byte]);
            }
        }

        Poll::Ready(Ok(()))
    }
}

#[test]
fn test_buff_reader_simple_read() {
    // Create test data
    let test_data = b"Hello, world!".to_vec();
    let mock_reader = MockReader::new(test_data.clone());

    // Create BuffReader with a buffer smaller than the test data
    let buffer_size = test_data.len();
    let mut buff_reader = BuffReader::new(mock_reader, buffer_size).unwrap();

    // Create an output buffer to read into
    let mut output = vec![0; test_data.len()];
    let mut read_buf = ReadBuf::new(&mut output);

    // Create a simple context
    let mut cx = Context::from_waker(Waker::noop());

    // First read should fill the buffer and then read from it
    assert!(matches!(
        Pin::new(&mut buff_reader).poll_read(&mut cx, &mut read_buf),
        Poll::Ready(Ok(()))
    ));

    // Should have read all the data
    assert_eq!(read_buf.filled(), test_data.as_slice());
}

#[test]
fn test_buff_reader_partial_reads() {
    // Create test data
    let test_data = b"Hello, world!".to_vec();
    let mock_reader = MockReader::new(test_data.clone());

    // Create BuffReader with a buffer size equal to the test data
    let buffer_size = test_data.len();
    let mut buff_reader = BuffReader::new(mock_reader, buffer_size).unwrap();

    let mut cx = Context::from_waker(Waker::noop());

    // Read first 5 bytes
    let mut output1 = vec![0; 5];
    let mut read_buf1 = ReadBuf::new(&mut output1);
    assert!(matches!(
        Pin::new(&mut buff_reader).poll_read(&mut cx, &mut read_buf1),
        Poll::Ready(Ok(()))
    ));
    assert_eq!(read_buf1.filled(), b"Hello");

    // Read next 8 bytes
    let mut output2 = vec![0; 8];
    let mut read_buf2 = ReadBuf::new(&mut output2);
    assert!(matches!(
        Pin::new(&mut buff_reader).poll_read(&mut cx, &mut read_buf2),
        Poll::Ready(Ok(()))
    ));
    assert_eq!(read_buf2.filled(), b", world!");

    // Should be at end of buffer now
    let mut output3 = vec![0; 10];
    let mut read_buf3 = ReadBuf::new(&mut output3);
    assert!(matches!(
        Pin::new(&mut buff_reader).poll_read(&mut cx, &mut read_buf3),
        Poll::Ready(Ok(()))
    ));
    assert_eq!(read_buf3.filled().len(), 0);
}

#[test]
fn test_buff_reader_multiple_fills() {
    // Create test data larger than our buffer
    let test_data = b"This is a longer string that will require multiple buffer fills".to_vec();
    let mock_reader = MockReader::new(test_data.clone());

    // Create a small buffer to force multiple fills
    let buffer_size = 16;
    let mut buff_reader = BuffReader::new(mock_reader, buffer_size).unwrap();

    // Create an output buffer large enough for all the data
    let mut output = vec![0; test_data.len()];
    let mut read_buf = ReadBuf::new(&mut output);

    let mut cx = Context::from_waker(Waker::noop());

    // Reading should complete in a single call since our MockReader always returns Ready
    assert!(matches!(
        Pin::new(&mut buff_reader).poll_read(&mut cx, &mut read_buf),
        Poll::Ready(Ok(()))
    ));

    // Should have read all the data
    assert_eq!(read_buf.filled(), test_data.as_slice());
}

#[test]
fn test_buff_reader_empty_read() {
    // Create an empty mock reader
    let mock_reader = MockReader::new(vec![]);

    let buffer_size = 16;
    let mut buff_reader = BuffReader::new(mock_reader, buffer_size).unwrap();

    let mut cx = Context::from_waker(Waker::noop());

    let mut output = vec![0; 10];
    let mut read_buf = ReadBuf::new(&mut output);

    // Should be ready with no data
    assert!(matches!(
        Pin::new(&mut buff_reader).poll_read(&mut cx, &mut read_buf),
        Poll::Ready(Ok(()))
    ));
    assert_eq!(read_buf.filled().len(), 0);
}

#[test]
fn test_buff_reader_exact_size() {
    // Create test data that exactly matches the buffer size
    let buffer_size = 8;
    let test_data = b"12345678".to_vec();
    let mock_reader = MockReader::new(test_data.clone());

    let mut buff_reader = BuffReader::new(mock_reader, buffer_size).unwrap();

    let mut cx = Context::from_waker(Waker::noop());

    // The output buffer is smaller than the test data
    let mut output = vec![0; 4];
    let mut read_buf = ReadBuf::new(&mut output);

    // First read should get first 4 bytes
    assert!(matches!(
        Pin::new(&mut buff_reader).poll_read(&mut cx, &mut read_buf),
        Poll::Ready(Ok(()))
    ));
    assert_eq!(read_buf.filled(), b"1234");

    // The second read should get the remaining 4 bytes
    let mut output2 = vec![0; 4];
    let mut read_buf2 = ReadBuf::new(&mut output2);
    assert!(matches!(
        Pin::new(&mut buff_reader).poll_read(&mut cx, &mut read_buf2),
        Poll::Ready(Ok(()))
    ));

    assert_eq!(read_buf2.filled(), b"5678");
}

#[test]
fn test_buff_reader_zero_size_read() {
    // Create a reader with data but try to read 0 bytes
    let test_data = b"Hello".to_vec();
    let mock_reader = MockReader::new(test_data);

    let buffer_size = 16;
    let mut buff_reader = BuffReader::new(mock_reader, buffer_size).unwrap();

    let mut cx = Context::from_waker(Waker::noop());

    // Create an empty output buffer (0 capacity)
    let mut output = vec![0; 0];
    let mut read_buf = ReadBuf::new(&mut output);

    // Should be ready but read 0 bytes
    assert!(matches!(
        Pin::new(&mut buff_reader).poll_read(&mut cx, &mut read_buf),
        Poll::Ready(Ok(()))
    ));
    assert_eq!(read_buf.filled().len(), 0);
}

fn ready(data: &[u8]) -> vt_muxer::poll::Poll<Result<&[u8], ()>> {
    vt_muxer::poll::Poll::Ready(Ok(data))
}

#[test]
fn a_buffer_is_refilled_only_when_it_has_been_read_empty() {
    let mut buffer = ReadBuffer::new(4).unwrap();
    assert!(matches!(
        buffer.fill_buffer(ready(b"abcd")),
        vt_muxer::poll::Poll::Ready(Ok(Some(4)))
    ));
    let mut output = [0; 3];
    let mut read_buf = ReadBuf::new(&mut output);
    buffer.read(&mut read_buf);
    assert_eq!(read_buf.filled(), b"abc");
    assert_eq!(buffer.bytes(), b"d");
    assert_eq!((buffer.pos(), buffer.filled(), buffer.remaining()), (3, 4, 0));
    assert!(matches!(buffer.fill_buffer(ready(b"")), vt_muxer::poll::Poll::Ready(Ok(None))));

    let mut output = [0; 3];
    let mut read_buf = ReadBuf::new(&mut output);
    read_buf.put_slice(b"x");
    buffer.read(&mut read_buf);
    assert_eq!(read_buf.filled(), b"xd");
    assert_eq!((buffer.pos(), buffer.filled(), buffer.remaining()), (0, 0, 4));
}

#[test]
fn a_reader_that_is_not_ready_or_fails_leaves_the_buffer_alone() {
    let mut buffer = ReadBuffer::new(4).unwrap();
    buffer.fill_buffer(ready(b"ab"));
    assert!(matches!(
        buffer.fill_buffer(vt_muxer::poll::Poll::<Result<&[u8], u8>>::Pending),
        vt_muxer::poll::Poll::Pending
    ));
    assert!(matches!(
        buffer.fill_buffer(vt_muxer::poll::Poll::Ready(Err(7))),
        vt_muxer::poll::Poll::Ready(Err(7))
    ));
    assert_eq!(buffer.bytes(), b"ab");
}

#[test]
fn a_buffer_without_memory_is_an_error() {
    let fault = ReadBuffer::new(usize::MAX).unwrap_err();
    assert_eq!(fault, Fault::OutOfMemory);
    assert_eq!(fault.kind(), ErrorKind::OutOfMemory);
    assert_eq!(fault.message().unwrap(), "failed to allocate read buffer");
    assert_eq!(
        ReadBuffer::from_reservation(Vec::new(), false, 16).unwrap_err(),
        Fault::OutOfMemory
    );
    assert_eq!(ReadBuffer::from_reservation(Vec::new(), true, 16).unwrap().capacity(), 16);
}
