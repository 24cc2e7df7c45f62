//! What each call of the receiving side comes to.
//!
//! The laws here speak of what a caller hands to a call and what it gets back, of where in a frame
//! the stream stands, and of which connections are open. What the calls come to together is said in
//! [`crate::delivery`].
use crate::error::{Fault, MuxError};
use crate::outside;
use crate::poll::Poll;
use crate::protocol;
use crate::protocol::{HEADER_SIZE, PACKET_SIZE};
use crate::read::read_buffer;
use crate::read::read_buffer::{ReadBuffer, ReadBufferView};
use crate::read::socket_map::SocketMap;
use crate::read::{
    HeaderStep, LockedReaderState, ReadAnswer, ReaderEntry, ReaderView, ReaderWork, StateView,
    StepResult, DEFAULT_BUFFER_CAPACITY,
};
use crate::thin_addr::SocketAddr;
use tokio::io::ReadBuf;
use vstd::prelude::*;

verus! {

/// What a step has to satisfy in which `n` bytes of payload have come. If they were due the step
/// succeeds, and the stream stands in the same frame with so much less to come, or at the beginning
/// of the next if nothing is. The step fails, and the stream with it, if nothing has come or more
/// than was due, and only then. Which connections are open stays as it is.
pub open spec fn payload_counted<H, F, E>(
    before: ReaderView<H, F>,
    after: ReaderView<H, F>,
    n: nat,
    r: StepResult<E>,
) -> bool {
    let owner = before.state->owner;
    let left = before.state->left;
    &&& after.sockets == before.sockets
    &&& r !is Pending
    &&& r == StepResult::<E>::Ready(Ok(())) <==> 0 < n <= left
    &&& r is Ready && r->Ready_0 is Err <==> after.state is Error
    &&& 0 < n < left ==> {
        &&& after.state is Read
        &&& after.state->owner == owner
        &&& after.state->left + n == left
    }
    &&& 0 < n == left ==> after.state is NextPacket && after.state->header.len() == 0
    &&& n == 0 ==> r == StepResult::<E>::Ready(
        Err(MuxError::Fault(Fault::PayloadEof { expected: left as u16 })),
    )
    &&& n > left ==> r == StepResult::<E>::Ready(Err(MuxError::Fault(Fault::PayloadOverrun)))
}

/// Payload that comes for a connection is put behind what waits to be read, and counted. Its owner is
/// woken. If the buffer of the connection is full nothing is taken in: the owner is woken, and
/// whoever reads from the stream waits for the owner. If nothing has come yet, or the stream fails,
/// everything stays as it is.
pub proof fn law_payload_is_taken_in<H, F, W, E>(
    read: Poll<Result<&[u8], E>>,
    waker: W,
    r: (bool, StepResult<E>),
)
    ensures
        forall|state: &mut LockedReaderState<H, F>, entry: &mut ReaderEntry<W>|
            #[trigger] call_ensures(
                LockedReaderState::<H, F>::poll_read_into::<W, E>,
                (state, entry, read, waker),
                r,
            ) && state.wf() && state@.state is Read && entry.buffer.wf() ==> {
                let old_buffer = entry.buffer@;
                let new_buffer = final(entry).buffer@;
                let full = old_buffer.pos + old_buffer.unread.len() == old_buffer.capacity;
                &&& final(entry).reader_pipe_waker == entry.reader_pipe_waker
                &&& new_buffer.capacity == old_buffer.capacity
                &&& new_buffer.pos == old_buffer.pos
                &&& if full {
                    &&& r.0
                    &&& r.1 is Pending
                    &&& final(state)@ == state@
                    &&& new_buffer.unread == old_buffer.unread
                    &&& final(entry).waiting_waker == waker
                } else {
                    &&& final(entry).waiting_waker == entry.waiting_waker
                    &&& match read {
                        Poll::Ready(Ok(data)) => {
                            &&& r.0
                            &&& new_buffer.unread == old_buffer.unread + data@
                            &&& payload_counted(state@, final(state)@, data@.len(), r.1)
                        },
                        Poll::Ready(Err(e)) => {
                            &&& !r.0
                            &&& r.1 == StepResult::<E>::Ready(Err(MuxError::Stream(e)))
                            &&& final(state)@ == state@
                            &&& new_buffer.unread == old_buffer.unread
                        },
                        Poll::Pending => {
                            &&& !r.0
                            &&& r.1 is Pending
                            &&& final(state)@ == state@
                            &&& new_buffer.unread == old_buffer.unread
                        },
                    }
                }
            },
{
}

/// Payload that nobody will read is counted. If nothing has come yet, or the stream fails, everything
/// stays as it is.
pub proof fn law_payload_is_passed_over<H, F, E>(
    read: Poll<Result<usize, E>>,
    r: StepResult<E>,
)
    ensures
        forall|state: &mut LockedReaderState<H, F>|
            #[trigger] call_ensures(
                LockedReaderState::<H, F>::poll_read_discard::<E>,
                (state, read),
                r,
            ) && state.wf() && state@.state is Read ==> match read {
                Poll::Ready(Ok(n)) => payload_counted(state@, final(state)@, n as nat, r),
                Poll::Ready(Err(e)) => {
                    &&& r == StepResult::<E>::Ready(Err(MuxError::Stream(e)))
                    &&& final(state)@ == state@
                },
                Poll::Pending => {
                    &&& r is Pending
                    &&& final(state)@ == state@
                },
            },
{
}

/// A step that is given part of a header keeps it and succeeds. One that is given nothing, or more
/// than was due, fails, and the stream with it. If nothing has come yet, or the stream fails,
/// everything stays as it is.
pub proof fn law_part_of_a_header<H, F, E>(
    read: Poll<Result<&[u8], E>>,
    disconnected: bool,
    r: HeaderStep<H, E>,
)
    ensures
        forall|state: &mut LockedReaderState<H, F>|
            #[trigger] call_ensures(
                LockedReaderState::<H, F>::poll_next_packet::<E>,
                (state, read, disconnected),
                r,
            ) && state.wf() && state@.state is NextPacket ==> {
                let before = state@.state->header;
                let after = final(state)@;
                match read {
                    Poll::Ready(Ok(data)) => {
                        let total = before.len() + data@.len();
                        &&& data@.len() == 0 ==> r == HeaderStep::<H, E>::Return(
                            Poll::Ready(Err(MuxError::Fault(Fault::HeaderEof))),
                        )
                        &&& total > HEADER_SIZE ==> r == HeaderStep::<H, E>::Return(
                            Poll::Ready(Err(MuxError::Fault(Fault::HeaderOverrun))),
                        )
                        &&& data@.len() == 0 || total > HEADER_SIZE <==> after.state is Error
                        &&& after.state is Error <==> (r matches HeaderStep::Return(Poll::Ready(ans))
                            && ans is Err)
                        &&& r != HeaderStep::<H, E>::Return(Poll::Pending)
                        &&& 0 < data@.len() && total < HEADER_SIZE ==> {
                            &&& r == HeaderStep::<H, E>::Return(Poll::Ready(Ok(())))
                            &&& after.state is NextPacket
                            &&& after.state->header == before + data@
                        }
                        &&& total != HEADER_SIZE ==> after.sockets == state@.sockets
                    },
                    Poll::Ready(Err(e)) => {
                        &&& r == HeaderStep::<H, E>::Return(Poll::Ready(Err(MuxError::Stream(e))))
                        &&& after == state@
                    },
                    Poll::Pending => {
                        &&& r == HeaderStep::<H, E>::Return(Poll::Pending)
                        &&& after == state@
                    },
                }
            },
{
}

/// A step that is given the last of a header does not fail. If the header is that of a frame with
/// payload of the connection `socket`, that payload is due, all of it. If it announces nothing it
/// closes the connection if that is open, and gives back the handle of just that connection. If it is
/// not open it has to be opened, unless nobody accepts connections, and until it has been the header
/// is not used up. No other connection is touched.
pub proof fn law_whole_header<H, F, E>(
    socket: SocketAddr,
    len: nat,
    data: &[u8],
    disconnected: bool,
    r: HeaderStep<H, E>,
)
    requires
        len <= PACKET_SIZE,
        data@.len() > 0,
    ensures
        forall|state: &mut LockedReaderState<H, F>|
            #[trigger] call_ensures(
                LockedReaderState::<H, F>::poll_next_packet::<E>,
                (state, Poll::<Result<&[u8], E>>::Ready(Ok(data)), disconnected),
                r,
            ) && state.wf() && state@.state is NextPacket && state@.state->header + data@
                == protocol::header_bytes(socket, len) ==> {
                let open = state@.sockets.dom().contains(socket);
                let after = final(state)@;
                &&& r is Closed <==> len == 0 && open
                &&& r is Open <==> len == 0 && !open && !disconnected
                &&& r matches HeaderStep::Return(answer) ==> answer == StepResult::<E>::Ready(
                    Ok(()),
                )
                &&& r matches HeaderStep::Closed(handle) ==> handle == state@.sockets[socket]
                &&& r matches HeaderStep::Open(named) ==> named == socket && after == state@
                &&& len > 0 ==> after.state == (StateView::<F>::Read { owner: socket, left: len })
                &&& len == 0 && r !is Open ==> after.state is NextPacket
                    && after.state->header.len() == 0
                &&& r is Closed ==> !after.sockets.dom().contains(socket)
                &&& r !is Closed ==> after.sockets == state@.sockets
                &&& forall|other: SocketAddr|
                    #![trigger after.sockets.dom().contains(other)]
                    #![trigger after.sockets[other]]
                    other != socket ==> {
                        &&& after.sockets.dom().contains(other) <==> state@.sockets.dom().contains(
                            other,
                        )
                        &&& after.sockets.dom().contains(other) ==> after.sockets[other]
                            == state@.sockets[other]
                    }
            },
{
    protocol::law_decoded_header(socket, len);
    assert(protocol::header_bytes(socket, len).len() == HEADER_SIZE);
}

/// What is due from the stream: payload inside a frame, a header at the beginning of one, nothing
/// while a connection is being handed over, and nothing for ever once the stream has failed. Of
/// payload no more is asked for than is due and than there is room for, and no less; of a header what
/// is missing.
pub proof fn law_what_is_due<H, F>(state: LockedReaderState<H, F>, room: usize)
    ensures
        forall|r: ReaderWork| #[trigger]
            call_ensures(LockedReaderState::<H, F>::poll_once, (&state,), r) ==> {
                &&& r is Payload <==> state@.state is Read
                &&& r is Header <==> state@.state is NextPacket
                &&& r is Send <==> state@.state is SendSocket
                &&& r is Failed <==> state@.state is Error
                &&& r matches ReaderWork::Failed(fault) ==> fault == Fault::SocketFailed
            },
        forall|r: (Option<&H>, u16)|
            #[trigger] call_ensures(LockedReaderState::<H, F>::payload_due, (&state,), r)
                && state@.state is Read ==> {
                &&& r.1 == state@.state->left
                &&& r.0 is Some <==> state@.sockets.dom().contains(state@.state->owner)
                &&& r.0 matches Some(handle) ==> *handle == state@.sockets[state@.state->owner]
            },
        forall|r: usize|
            #[trigger] call_ensures(LockedReaderState::<H, F>::payload_limit, (&state, room), r)
                && state@.state is Read ==> {
                &&& r <= room
                &&& r <= state@.state->left
                &&& r == room || r == state@.state->left
            },
        forall|r: usize|
            #[trigger] call_ensures(LockedReaderState::<H, F>::header_due, (&state,), r)
                && state@.state is NextPacket ==> r + state@.state->header.len() == HEADER_SIZE,
{
}

/// A new stream stands at the beginning of a frame, and no connection is open.
pub proof fn law_new_stream<H, F>(state: LockedReaderState<H, F>)
    ensures
        call_ensures(LockedReaderState::<H, F>::new, (), state) ==> {
            &&& state.wf()
            &&& state@.state is NextPacket
            &&& state@.state->header.len() == 0
            &&& forall|socket: SocketAddr| !#[trigger] state@.sockets.dom().contains(socket)
        },
{
}

/// An entry is refused to a connection that is open, as a duplicate, and only to such; for any other
/// it fails only if there is no memory. A new entry is empty, and has the room that every entry has.
pub proof fn law_new_entry<H, F, W>(
    state: LockedReaderState<H, F>,
    socket: SocketAddr,
    idle: W,
    waiting: W,
    r: Result<ReaderEntry<W>, Fault>,
)
    ensures
        call_ensures(LockedReaderState::<H, F>::new_entry::<W>, (&state, socket, idle, waiting), r)
            ==> {
            let open = state@.sockets.dom().contains(socket);
            &&& r == Err::<ReaderEntry<W>, Fault>(Fault::DuplicateSocket) <==> open
            &&& r is Err && !open ==> r->Err_0 == Fault::OutOfMemory && read_buffer::refused(
                DEFAULT_BUFFER_CAPACITY,
            )
            &&& r matches Ok(entry) ==> fresh(entry, idle, waiting)
        },
        call_ensures(ReaderEntry::<W>::new, (idle, waiting), r) ==> {
            &&& r is Err ==> r->Err_0 == Fault::OutOfMemory && read_buffer::refused(
                DEFAULT_BUFFER_CAPACITY,
            )
            &&& r matches Ok(entry) ==> fresh(entry, idle, waiting)
        },
{
}

/// Nothing has been received, and two frames that are as long as a frame can be fit.
pub open spec fn fresh<W>(entry: ReaderEntry<W>, idle: W, waiting: W) -> bool {
    &&& entry.buffer.wf()
    &&& entry.buffer@.unread.len() == 0
    &&& entry.buffer@.pos == 0
    &&& entry.buffer@.capacity == 2 * PACKET_SIZE
    &&& entry.reader_pipe_waker == idle
    &&& entry.waiting_waker == waiting
}

/// Opening a connection, and closing it, changes whether that connection is open and nothing else.
/// Closing gives back the handle that opening was given.
pub proof fn law_opening_and_closing<H, F>(socket: SocketAddr, handle: H, closed: Option<H>)
    ensures
        forall|state: &mut LockedReaderState<H, F>| #[trigger]
            call_ensures(LockedReaderState::<H, F>::insert, (state, socket, handle), ()) ==> {
                &&& final(state)@.state == state@.state
                &&& final(state)@.sockets.dom().contains(socket)
                &&& final(state)@.sockets[socket] == handle
                &&& others_alike(state@.sockets, final(state)@.sockets, socket)
            },
        forall|state: &mut LockedReaderState<H, F>| #[trigger]
            call_ensures(LockedReaderState::<H, F>::remove, (state, socket), closed) ==> {
                &&& final(state)@.state == state@.state
                &&& closed is Some <==> state@.sockets.dom().contains(socket)
                &&& closed matches Some(given) ==> given == state@.sockets[socket]
                &&& !final(state)@.sockets.dom().contains(socket)
                &&& others_alike(state@.sockets, final(state)@.sockets, socket)
            },
        forall|map: &mut SocketMap<H>| #[trigger]
            call_ensures(SocketMap::<H>::insert, (map, socket, handle), ()) ==> {
                &&& final(map)@.dom().contains(socket)
                &&& final(map)@[socket] == handle
                &&& others_alike(map@, final(map)@, socket)
            },
        forall|map: &mut SocketMap<H>| #[trigger]
            call_ensures(SocketMap::<H>::remove, (map, &socket), closed) ==> {
                &&& closed is Some <==> map@.dom().contains(socket)
                &&& closed matches Some(given) ==> given == map@[socket]
                &&& !final(map)@.dom().contains(socket)
                &&& others_alike(map@, final(map)@, socket)
            },
{
}

/// All connections but `socket` are open with the same handles, or are not open.
pub open spec fn others_alike<H>(
    before: Map<SocketAddr, H>,
    after: Map<SocketAddr, H>,
    socket: SocketAddr,
) -> bool {
    forall|other: SocketAddr|
        #![trigger after.dom().contains(other)]
        #![trigger after[other]]
        other != socket ==> {
            &&& after.dom().contains(other) <==> before.dom().contains(other)
            &&& after.dom().contains(other) ==> after[other] == before[other]
        }
}

/// A connection is found if and only if it is open, with its own handle.
pub proof fn law_finding_a_connection<H>(map: SocketMap<H>, socket: SocketAddr)
    ensures
        call_ensures(SocketMap::<H>::new, (), map) ==> map.wf() && forall|any: SocketAddr|
            !#[trigger] map@.dom().contains(any),
        forall|r: Option<&H>| #[trigger]
            call_ensures(SocketMap::<H>::get, (&map, &socket), r) ==> {
                &&& r is Some <==> map@.dom().contains(socket)
                &&& r matches Some(handle) ==> *handle == map@[socket]
            },
        forall|r: bool| #[trigger]
            call_ensures(SocketMap::<H>::contains_key, (&map, &socket), r) ==> (r
                <==> map@.dom().contains(socket)),
{
}

/// While a connection is being handed over the stream stands still. When that is over, whether or not
/// it was taken, the stream stands at the beginning of a frame. Which connections are open stays as
/// it is.
pub proof fn law_handing_over<H, F, E>(future: F, over: bool, r: StepResult<E>)
    ensures
        forall|state: &mut LockedReaderState<H, F>| #[trigger]
            call_ensures(LockedReaderState::<H, F>::send_socket, (state, future), ()) ==> {
                &&& final(state)@.state == (StateView::SendSocket { future })
                &&& final(state)@.sockets == state@.sockets
            },
        forall|state: &mut LockedReaderState<H, F>, r: &mut F| #[trigger]
            call_ensures(LockedReaderState::<H, F>::sending, (state,), r) ==> {
                &&& *r == state@.state->future
                &&& final(state)@.state == (StateView::SendSocket { future: *final(r) })
                &&& final(state)@.sockets == state@.sockets
            },
        forall|state: &mut LockedReaderState<H, F>| #[trigger]
            call_ensures(LockedReaderState::<H, F>::poll_send::<E>, (state, over), r) ==> {
                &&& final(state)@.sockets == state@.sockets
                &&& r is Pending <==> !over
                &&& r matches Poll::Ready(answer) ==> answer is Ok
                &&& over ==> final(state)@.state is NextPacket
                    && final(state)@.state->header.len() == 0
                &&& !over ==> final(state)@ == state@
            },
{
}

/// What reading `n` bytes out of a buffer has to satisfy: they are the first that wait, the others go
/// on waiting, and the buffer can be filled again from its beginning once none do.
pub open spec fn read_out(before: ReadBufferView, after: ReadBufferView, n: nat) -> bool {
    &&& n <= before.unread.len()
    &&& before.unread.take(n as int) + after.unread == before.unread
    &&& after.capacity == before.capacity
    &&& after.unread.len() == 0 ==> after.pos == 0
    &&& after.unread.len() > 0 ==> after.pos == before.pos + n
}

/// What has been filled into a buffer grows by the first `n` of `unread`, which is all of them or as
/// many as there is room for.
pub open spec fn filled_from(
    before: ReadBuf<'_>,
    after: ReadBuf<'_>,
    unread: Seq<u8>,
    n: nat,
) -> bool {
    let filled = outside::read_buf_filled(before);
    &&& outside::read_buf_capacity(after) == outside::read_buf_capacity(before)
    &&& outside::read_buf_filled(after) == filled + unread.take(n as int)
    &&& filled.len() + n <= outside::read_buf_capacity(before)
    &&& n == unread.len() || filled.len() + n == outside::read_buf_capacity(before)
}

/// The owner of a connection reads as much as there is and as fits, in order. A read for which there
/// is no room, or that gets something, is done, and if it gets something whoever waits for room is
/// woken. One that gets nothing is over if no more can come, and if more can the owner is woken by
/// `waker` when it does.
pub proof fn law_owner_reads<W>(linked: bool, waker: W, r: ReadAnswer, n: nat)
    ensures
        forall|entry: &mut ReaderEntry<W>, buf: &mut ReadBuf<'_>|
            #[trigger] call_ensures(
                ReaderEntry::<W>::poll_read,
                (entry, buf, linked, waker),
                r,
            ) && entry.buffer.wf() && n + final(entry).buffer@.unread.len()
                == entry.buffer@.unread.len() ==> {
                let room = outside::read_buf_filled(*buf).len() < outside::read_buf_capacity(*buf);
                &&& read_out(entry.buffer@, final(entry).buffer@, n)
                &&& filled_from(*buf, *final(buf), entry.buffer@.unread, n)
                &&& final(entry).waiting_waker == entry.waiting_waker
                &&& r == (ReadAnswer::Done { wake: true }) <==> n > 0
                &&& r is PollShared <==> n == 0 && room && linked
                &&& final(entry).reader_pipe_waker == if r is PollShared {
                    waker
                } else {
                    entry.reader_pipe_waker
                }
            },
{
    assert forall|entry: &mut ReaderEntry<W>, buf: &mut ReadBuf<'_>|
        #[trigger] call_ensures(
            ReaderEntry::<W>::poll_read,
            (entry, buf, linked, waker),
            r,
        ) && entry.buffer.wf() && n + final(entry).buffer@.unread.len()
            == entry.buffer@.unread.len() implies read_out(
        entry.buffer@,
        final(entry).buffer@,
        n,
    ) && filled_from(*buf, *final(buf), entry.buffer@.unread, n) by {
        let unread = entry.buffer@.unread;
        assert(unread.take(n as int) + unread.skip(n as int) =~= unread);
        assert(unread.take(0) + unread =~= unread);
        assert(outside::read_buf_filled(*buf) + unread.take(0) =~= outside::read_buf_filled(*buf));
    }
}

/// A buffer gives out as much as there is and as fits, in order.
pub proof fn law_buffer_is_read(n: nat)
    ensures
        forall|buffer: &mut ReadBuffer, buf: &mut ReadBuf<'_>|
            #[trigger] call_ensures(ReadBuffer::read, (buffer, buf), ()) && buffer.wf() && n
                + final(buffer)@.unread.len() == buffer@.unread.len() ==> {
                &&& read_out(buffer@, final(buffer)@, n)
                &&& filled_from(*buf, *final(buf), buffer@.unread, n)
            },
{
    assert forall|buffer: &mut ReadBuffer, buf: &mut ReadBuf<'_>|
        #[trigger] call_ensures(ReadBuffer::read, (buffer, buf), ()) && buffer.wf() && n + final(buffer)@.unread.len() == buffer@.unread.len() implies read_out(buffer@, final(buffer)@, n)
        && filled_from(*buf, *final(buf), buffer@.unread, n) by {
        let unread = buffer@.unread;
        assert(unread.take(n as int) + unread.skip(n as int) =~= unread);
        assert(unread.skip(0) =~= unread);
    }
}

/// A buffer that can take nothing is left alone. Any other takes all that the stream gave, behind
/// what waits, and says how much that was; if the stream has nothing yet, or fails, it says so and
/// stays as it is.
pub proof fn law_buffer_is_filled<E>(
    read: Poll<Result<&[u8], E>>,
    r: Poll<Result<Option<usize>, E>>,
)
    ensures
        forall|buffer: &mut ReadBuffer|
            #[trigger] call_ensures(ReadBuffer::fill_buffer::<E>, (buffer, read), r)
                && buffer.wf() ==> {
                let full = buffer@.pos + buffer@.unread.len() == buffer@.capacity;
                let took = r matches Poll::Ready(Ok(Some(_)));
                &&& final(buffer)@.pos == buffer@.pos
                &&& final(buffer)@.capacity == buffer@.capacity
                &&& r == Poll::<Result<Option<usize>, E>>::Ready(Ok(None)) <==> full
                &&& took <==> !full && (read matches Poll::Ready(Ok(_)))
                &&& took ==> {
                    &&& r->Ready_0->Ok_0 == Some(read->Ready_0->Ok_0@.len() as usize)
                    &&& final(buffer)@.unread == buffer@.unread + read->Ready_0->Ok_0@
                }
                &&& !took ==> final(buffer)@.unread == buffer@.unread
                &&& !full && read is Pending ==> r is Pending
                &&& !full ==> (read matches Poll::Ready(Err(e)) ==> r == Poll::<
                    Result<Option<usize>, E>,
                >::Ready(Err(e)))
            },
{
}

/// What a buffer tells of itself. A new one is empty, and is refused only if there is no memory for
/// it.
pub proof fn law_buffer_tells(buffer: ReadBuffer, capacity: usize)
    requires
        buffer.wf(),
    ensures
        forall|r: Result<ReadBuffer, Fault>| #[trigger]
            call_ensures(ReadBuffer::new, (capacity,), r) ==> {
                &&& r is Err ==> r->Err_0 == Fault::OutOfMemory && (read_buffer::refused(capacity)
                    || capacity > isize::MAX)
                &&& r matches Ok(empty) ==> {
                    &&& read_buffer::granted(capacity)
                    &&& capacity <= isize::MAX
                    &&& empty.wf()
                    &&& empty@.unread.len() == 0
                    &&& empty@.pos == 0
                    &&& empty@.capacity == capacity
                }
            },
        forall|storage: Vec<u8>, reserved: bool, r: Result<ReadBuffer, Fault>| #[trigger]
            call_ensures(ReadBuffer::from_reservation, (storage, reserved, capacity), r) ==> {
                &&& r is Ok <==> reserved && capacity <= isize::MAX
                &&& r is Err ==> r->Err_0 == Fault::OutOfMemory
                &&& r matches Ok(empty) ==> {
                    &&& empty.wf()
                    &&& empty@.unread.len() == 0
                    &&& empty@.pos == 0
                    &&& empty@.capacity == capacity
                }
            },
        forall|r: usize| #[trigger]
            call_ensures(ReadBuffer::capacity, (&buffer,), r) ==> r == buffer@.capacity,
        forall|r: usize| #[trigger] call_ensures(ReadBuffer::pos, (&buffer,), r) ==> r == buffer@.pos,
        forall|r: usize| #[trigger]
            call_ensures(ReadBuffer::filled, (&buffer,), r) ==> r == buffer@.pos
                + buffer@.unread.len(),
        forall|r: usize| #[trigger]
            call_ensures(ReadBuffer::remaining, (&buffer,), r) ==> r + buffer@.pos
                + buffer@.unread.len() == buffer@.capacity,
        forall|r: &[u8]| #[trigger]
            call_ensures(ReadBuffer::bytes, (&buffer,), r) ==> r@ == buffer@.unread,
{
}

/// Receiving can always go on. What is due can be taken in whatever the stream answers, as long as it
/// gives no more than it was asked for, and every step leaves the state as it has to be for the next.
pub proof fn law_receiving_can_go_on<H, F, W, E>(
    read: Poll<Result<&[u8], E>>,
    passed: Poll<Result<usize, E>>,
    waker: W,
    disconnected: bool,
    over: bool,
    step: HeaderStep<H, E>,
    taken: (bool, StepResult<E>),
    r: StepResult<E>,
)
    ensures
        forall|state: &mut LockedReaderState<H, F>, entry: &mut ReaderEntry<W>|
            state.wf() && state@.state is Read && entry.buffer.wf() && (
            read matches Poll::Ready(Ok(data)) ==> entry.buffer@.pos + entry.buffer@.unread.len()
                + data@.len() <= entry.buffer@.capacity) ==> #[trigger] call_requires(
                LockedReaderState::<H, F>::poll_read_into::<W, E>,
                (state, entry, read, waker),
            ),
        forall|state: &mut LockedReaderState<H, F>|
            state.wf() && state@.state is Read ==> #[trigger] call_requires(
                LockedReaderState::<H, F>::poll_read_discard::<E>,
                (state, passed),
            ),
        forall|state: &mut LockedReaderState<H, F>|
            state.wf() && state@.state is NextPacket && (read matches Poll::Ready(Ok(data))
                ==> state@.state->header.len() + data@.len() <= HEADER_SIZE)
                ==> #[trigger] call_requires(
                LockedReaderState::<H, F>::poll_next_packet::<E>,
                (state, read, disconnected),
            ),
        forall|state: &mut LockedReaderState<H, F>|
            state.wf() && state@.state is SendSocket ==> #[trigger] call_requires(
                LockedReaderState::<H, F>::poll_send::<E>,
                (state, over),
            ),
        forall|state: &mut LockedReaderState<H, F>, entry: &mut ReaderEntry<W>| #[trigger]
            call_ensures(
                LockedReaderState::<H, F>::poll_read_into::<W, E>,
                (state, entry, read, waker),
                taken,
            ) ==> final(state).wf() && final(entry).buffer.wf(),
        forall|state: &mut LockedReaderState<H, F>| #[trigger]
            call_ensures(LockedReaderState::<H, F>::poll_read_discard::<E>, (state, passed), r)
                ==> final(state).wf(),
        forall|state: &mut LockedReaderState<H, F>| #[trigger]
            call_ensures(
                LockedReaderState::<H, F>::poll_next_packet::<E>,
                (state, read, disconnected),
                step,
            ) ==> final(state).wf(),
        forall|state: &mut LockedReaderState<H, F>| #[trigger]
            call_ensures(LockedReaderState::<H, F>::poll_send::<E>, (state, over), r) ==> final(state).wf(),
{
}

/// A connection that has to be opened can be: an entry can be asked for, and once it has been got the
/// connection can be inserted and handed over.
pub proof fn law_opening_can_go_on<H, F, W>(
    state: LockedReaderState<H, F>,
    socket: SocketAddr,
    idle: W,
    waiting: W,
    got: Result<ReaderEntry<W>, Fault>,
    handle: H,
    future: F,
)
    ensures
        state.wf() ==> call_requires(
            LockedReaderState::<H, F>::new_entry::<W>,
            (&state, socket, idle, waiting),
        ),
        call_ensures(
            LockedReaderState::<H, F>::new_entry::<W>,
            (&state, socket, idle, waiting),
            got,
        ) && got is Ok && state.wf() ==> forall|next: &mut LockedReaderState<H, F>|
            *next == state ==> #[trigger] call_requires(
                LockedReaderState::<H, F>::insert,
                (next, socket, handle),
            ),
        forall|next: &mut LockedReaderState<H, F>| #[trigger]
            call_ensures(LockedReaderState::<H, F>::insert, (next, socket, handle), ()) ==> final(next).wf(),
        forall|next: &mut LockedReaderState<H, F>|
            next.wf() && next@.state is NextPacket ==> #[trigger] call_requires(
                LockedReaderState::<H, F>::send_socket,
                (next, future),
            ),
        forall|next: &mut LockedReaderState<H, F>| #[trigger]
            call_ensures(LockedReaderState::<H, F>::send_socket, (next, future), ()) ==> final(next).wf(),
{
}

} // verus!
