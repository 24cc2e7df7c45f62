//! The receiving side.
//!
//! Frames of all connections come off one stream. [`LockedReaderState`] keeps track of where in a
//! frame the stream stands and of which connections are open, and each open connection has a
//! [`ReaderEntry`], into which the payload of its frames goes and which its owner reads.
//!
//! Whoever reads from the stream asks [`LockedReaderState::poll_once`] what is due, gets it from the
//! stream and hands it over. What is kept for a connection is shared with its owner, so the state
//! knows it only by a handle `H`.
use crate::error::{Fault, MuxError};
use crate::outside;
use crate::poll::Poll;
use crate::protocol;
use crate::protocol::{MuxFrameHeader, HEADER_SIZE, PACKET_SIZE};
use crate::read::read_buffer::ReadBuffer;
use crate::read::read_buffer::ReadBufferView;
use crate::read::socket_map::SocketMap;
use crate::thin_addr::SocketAddr;
use tokio::io::ReadBuf;
use vstd::prelude::*;

pub mod read_buffer;
pub mod socket_map;

verus! {

/// How much can be received for a connection before its owner has to read.
pub const DEFAULT_BUFFER_CAPACITY: usize = 131070;

/// What a step of the receiving side returns.
pub type StepResult<E> = Poll<Result<(), MuxError<E>>>;

/// What is kept for an open connection. `W` wakes a task.
#[derive(Debug)]
pub struct ReaderEntry<W> {
    /// Wakes the owner, who waits for something to read.
    pub reader_pipe_waker: W,
    /// Wakes whoever reads from the stream, and waits for the owner to make room.
    pub waiting_waker: W,
    /// What has been received and not been read.
    pub buffer: ReadBuffer,
}

/// How a read by the owner of a connection goes on.
#[derive(Copy, Clone, Debug, PartialEq, Eq, Structural)]
pub enum ReadAnswer {
    /// The read is done. `wake` says whether room was made, for which somebody may wait.
    Done { wake: bool },
    /// There is nothing to read yet, and the stream has to be read.
    PollShared,
}

impl<W> ReaderEntry<W> {
    /// The entry of a connection that has received nothing. `idle` wakes nobody.
    pub fn new(idle: W, waiting: W) -> (r: Result<Self, Fault>)
        ensures
            match r {
                Ok(entry) => {
                    &&& read_buffer::granted(DEFAULT_BUFFER_CAPACITY)
                    &&& entry.buffer.wf()
                    &&& entry.buffer@ == (ReadBufferView {
                        unread: seq![],
                        pos: 0,
                        capacity: DEFAULT_BUFFER_CAPACITY as nat,
                    })
                    &&& entry.reader_pipe_waker == idle
                    &&& entry.waiting_waker == waiting
                },
                Err(fault) => {
                    &&& fault == Fault::OutOfMemory
                    &&& read_buffer::refused(DEFAULT_BUFFER_CAPACITY)
                },
            },
    {
        match ReadBuffer::new(DEFAULT_BUFFER_CAPACITY) {
            Ok(buffer) => Ok(
                Self { reader_pipe_waker: idle, waiting_waker: waiting, buffer },
            ),
            Err(fault) => Err(fault),
        }
    }

    /// Reads what has been received into `buf`. If nothing has been, the read is over when the
    /// connection is no longer `linked` to the stream; otherwise the owner is to be woken by
    /// `waker`.
    pub fn poll_read(&mut self, buf: &mut ReadBuf<'_>, linked: bool, waker: W) -> (r: ReadAnswer)
        requires
            old(self).buffer.wf(),
        ensures
            final(self).buffer.wf(),
            final(self).waiting_waker == old(self).waiting_waker,
            outside::read_buf_filled(*old(buf)).len() <= outside::read_buf_capacity(*old(buf)),
            outside::read_buf_capacity(*final(buf)) == outside::read_buf_capacity(*old(buf)),
            ({
                let room = outside::read_buf_capacity(*old(buf)) - outside::read_buf_filled(
                    *old(buf),
                ).len();
                let unread = old(self).buffer@.unread;
                let n = if room <= unread.len() {
                    room
                } else {
                    unread.len() as int
                };
                if n > 0 {
                    &&& r == ReadAnswer::Done { wake: true }
                    &&& final(self).buffer@ == old(self).buffer@.consumed(n as nat)
                    &&& final(self).reader_pipe_waker == old(self).reader_pipe_waker
                    &&& outside::read_buf_filled(*final(buf)) == outside::read_buf_filled(
                        *old(buf),
                    ) + unread.take(n)
                } else {
                    &&& final(self).buffer@ == old(self).buffer@
                    &&& outside::read_buf_filled(*final(buf)) == outside::read_buf_filled(
                        *old(buf),
                    )
                    &&& if room == 0 || !linked {
                        &&& r == ReadAnswer::Done { wake: false }
                        &&& final(self).reader_pipe_waker == old(self).reader_pipe_waker
                    } else {
                        &&& r == ReadAnswer::PollShared
                        &&& final(self).reader_pipe_waker == waker
                    }
                }
            }),
    {
        let remaining_start: usize = outside::read_buf_remaining(buf);
        if remaining_start == 0 {
            return ReadAnswer::Done { wake: false };
        }
        let ghost before = outside::read_buf_filled(*buf);
        self.buffer.read(buf);
        if remaining_start != outside::read_buf_remaining(buf) {
            return ReadAnswer::Done { wake: true };
        }
        assert(old(self).buffer@.unread.len() == 0);
        assert(before + old(self).buffer@.unread.take(0) =~= before);
        assert(old(self).buffer@.consumed(0) =~= old(self).buffer@);
        if !linked {
            return ReadAnswer::Done { wake: false };
        }
        self.reader_pipe_waker = waker;
        ReadAnswer::PollShared
    }
}

/// Where in a frame the stream stands. `F` is the handing over of a new connection to whoever
/// accepts them.
#[derive(Debug)]
pub enum SharedReaderState<F> {
    /// In the payload of a frame, of which `left` bytes are to come.
    Read { owner: SocketAddr, left: u16 },
    /// In a header, of which these bytes have come.
    NextPacket { header: Vec<u8> },
    /// Behind a header that opened a connection, which is being handed over.
    SendSocket { future: F },
    /// The stream has failed.
    Error,
}

/// What a [`SharedReaderState`] says.
pub enum StateView<F> {
    Read { owner: SocketAddr, left: nat },
    NextPacket { header: Seq<u8> },
    SendSocket { future: F },
    Error,
}

impl<F> View for SharedReaderState<F> {
    type V = StateView<F>;

    open spec fn view(&self) -> StateView<F> {
        match self {
            SharedReaderState::Read { owner, left } => StateView::Read {
                owner: *owner,
                left: *left as nat,
            },
            SharedReaderState::NextPacket { header } => StateView::NextPacket { header: header@ },
            SharedReaderState::SendSocket { future } => StateView::SendSocket { future: *future },
            SharedReaderState::Error => StateView::Error,
        }
    }
}

/// What a [`LockedReaderState`] holds.
pub struct ReaderView<H, F> {
    pub state: StateView<F>,
    pub sockets: Map<SocketAddr, H>,
}

/// What is due from the stream.
#[derive(Copy, Clone, Debug, PartialEq, Eq, Structural)]
pub enum ReaderWork {
    /// Payload, for [`LockedReaderState::poll_read_into`] if the connection has an owner, for
    /// [`LockedReaderState::poll_read_discard`] if not.
    Payload,
    /// Bytes of a header, for [`LockedReaderState::poll_next_packet`].
    Header,
    /// Nothing: the handing over of a new connection has to go on, and
    /// [`LockedReaderState::poll_send`] be told of it.
    Send,
    /// Nothing any more.
    Failed(Fault),
}

/// What follows from bytes of a header.
#[derive(Debug)]
pub enum HeaderStep<H, E> {
    /// The step returns this.
    Return(StepResult<E>),
    /// A connection was closed: its owner has to be woken, and learns that no more will come once
    /// the handle is gone. The step is done.
    Closed(H),
    /// A connection has to be opened: it needs an entry from [`LockedReaderState::new_entry`], which
    /// [`LockedReaderState::insert`] links to the stream and [`LockedReaderState::send_socket`] hands
    /// over. If there is no entry to be had, the step fails.
    Open(SocketAddr),
}

/// What one step of the receiving side comes to.
pub struct HeaderTurn<H, F, E> {
    pub view: ReaderView<H, F>,
    pub step: HeaderStep<H, E>,
}

impl<H, F> ReaderView<H, F> {
    /// In a payload something is to come, and of a header not all has come.
    pub open spec fn valid(self) -> bool {
        match self.state {
            StateView::Read { left, .. } => 0 < left <= PACKET_SIZE,
            StateView::NextPacket { header } => header.len() < HEADER_SIZE,
            _ => true,
        }
    }

    /// The stream standing elsewhere.
    pub open spec fn with_state(self, state: StateView<F>) -> Self {
        ReaderView { state, ..self }
    }

    /// The stream standing at the beginning of a frame.
    pub open spec fn at_next_packet(self) -> Self {
        self.with_state(StateView::NextPacket { header: seq![] })
    }

    /// The stream after `n` bytes of payload have come. If none have come it has ended too early.
    /// More than were due cannot have come.
    pub open spec fn payload_came(self, n: nat) -> Self {
        match self.state {
            StateView::Read { owner, left } => if n == 0 || n > left {
                self.with_state(StateView::Error)
            } else if n == left {
                self.at_next_packet()
            } else {
                self.with_state(StateView::Read { owner, left: (left - n) as nat })
            },
            _ => self,
        }
    }

    /// What the step in which `n` bytes of payload have come returns.
    pub open spec fn payload_result<E>(self, n: nat) -> StepResult<E> {
        let left = self.state->left;
        if n == 0 {
            Poll::Ready(Err(MuxError::Fault(Fault::PayloadEof { expected: left as u16 })))
        } else if n > left {
            Poll::Ready(Err(MuxError::Fault(Fault::PayloadOverrun)))
        } else {
            Poll::Ready(Ok(()))
        }
    }

    /// What a whole header comes to. One that announces payload is followed by it. One that does
    /// not closes the connection if it is open; if it is not, it opens it, unless nobody accepts
    /// connections.
    pub open spec fn header_came<E>(self, header: Seq<u8>, disconnected: bool) -> HeaderTurn<
        H,
        F,
        E,
    > {
        let (owner, len) = protocol::decoded(header);
        if len > 0 {
            HeaderTurn {
                view: self.with_state(StateView::Read { owner, left: len }),
                step: HeaderStep::Return(Poll::Ready(Ok(()))),
            }
        } else if self.sockets.dom().contains(owner) {
            HeaderTurn {
                view: ReaderView {
                    sockets: self.sockets.remove(owner),
                    ..self
                }.at_next_packet(),
                step: HeaderStep::Closed(self.sockets[owner]),
            }
        } else if disconnected {
            HeaderTurn {
                view: self.at_next_packet(),
                step: HeaderStep::Return(Poll::Ready(Ok(()))),
            }
        } else {
            HeaderTurn { view: self, step: HeaderStep::Open(owner) }
        }
    }

    /// What the stream's answer to the request for the rest of a header comes to. Part of it is
    /// kept, and the stream has to be asked again. If nothing has come the stream has ended too
    /// early.
    pub open spec fn next_packet<E>(
        self,
        read: Poll<Result<Seq<u8>, E>>,
        disconnected: bool,
    ) -> HeaderTurn<H, F, E> {
        match read {
            Poll::Pending => HeaderTurn { view: self, step: HeaderStep::Return(Poll::Pending) },
            Poll::Ready(Err(e)) => HeaderTurn {
                view: self,
                step: HeaderStep::Return(Poll::Ready(Err(MuxError::Stream(e)))),
            },
            Poll::Ready(Ok(data)) => {
                let header = self.state->header + data;
                if data.len() == 0 {
                    HeaderTurn {
                        view: self.with_state(StateView::Error),
                        step: HeaderStep::Return(
                            Poll::Ready(Err(MuxError::Fault(Fault::HeaderEof))),
                        ),
                    }
                } else if header.len() < HEADER_SIZE {
                    HeaderTurn {
                        view: self.with_state(StateView::NextPacket { header }),
                        step: HeaderStep::Return(Poll::Ready(Ok(()))),
                    }
                } else if header.len() == HEADER_SIZE {
                    self.header_came(header, disconnected)
                } else {
                    HeaderTurn {
                        view: self.with_state(StateView::Error),
                        step: HeaderStep::Return(
                            Poll::Ready(Err(MuxError::Fault(Fault::HeaderOverrun))),
                        ),
                    }
                }
            },
        }
    }
}

/// The bytes of a slice that has been read, if one has.
pub open spec fn read_view<E>(read: Poll<Result<&[u8], E>>) -> Poll<Result<Seq<u8>, E>> {
    match read {
        Poll::Pending => Poll::Pending,
        Poll::Ready(Err(e)) => Poll::Ready(Err(e)),
        Poll::Ready(Ok(data)) => Poll::Ready(Ok(data@)),
    }
}

/// Where the stream stands, and which connections are open.
#[derive(Debug)]
pub struct LockedReaderState<H, F> {
    state: SharedReaderState<F>,
    socket_map: SocketMap<H>,
}

impl<H, F> View for LockedReaderState<H, F> {
    type V = ReaderView<H, F>;

    closed spec fn view(&self) -> ReaderView<H, F> {
        ReaderView { state: self.state@, sockets: self.socket_map@ }
    }
}

impl<H, F> LockedReaderState<H, F> {
    /// No connection is open twice.
    pub closed spec fn sockets_wf(&self) -> bool {
        self.socket_map.wf()
    }

    /// The state is as it has to be between two steps.
    pub open spec fn wf(&self) -> bool {
        &&& self.sockets_wf()
        &&& self@.valid()
    }

    /// The state of a stream of which nothing has been read.
    pub fn new() -> (r: Self)
        ensures
            r.wf(),
            r@.state == (StateView::<F>::NextPacket { header: seq![] }),
            r@.sockets == Map::<SocketAddr, H>::empty(),
    {
        Self { state: next_packet(), socket_map: SocketMap::new() }
    }

    /// What is due from the stream.
    pub fn poll_once(&self) -> (r: ReaderWork)
        ensures
            r == match self@.state {
                StateView::Read { .. } => ReaderWork::Payload,
                StateView::NextPacket { .. } => ReaderWork::Header,
                StateView::SendSocket { .. } => ReaderWork::Send,
                StateView::Error => ReaderWork::Failed(Fault::SocketFailed),
            },
    {
        match &self.state {
            SharedReaderState::Read { .. } => ReaderWork::Payload,
            SharedReaderState::NextPacket { .. } => ReaderWork::Header,
            SharedReaderState::SendSocket { .. } => ReaderWork::Send,
            SharedReaderState::Error => ReaderWork::Failed(Fault::SocketFailed),
        }
    }

    /// The handle of the connection whose payload is due, if it is open, and how much is due.
    pub fn payload_due(&self) -> (r: (Option<&H>, u16))
        requires
            self.wf(),
            self@.state is Read,
        ensures
            r.0 == if self@.sockets.dom().contains(self@.state->owner) {
                Some(&self@.sockets[self@.state->owner])
            } else {
                None
            },
            r.1 == self@.state->left,
    {
        match &self.state {
            SharedReaderState::Read { owner, left } => (self.socket_map.get(owner), *left),
            _ => (None, 0),
        }
    }

    /// How much payload to ask the stream for when there is room for `room` bytes.
    pub fn payload_limit(&self, room: usize) -> (r: usize)
        requires
            self.wf(),
            self@.state is Read,
        ensures
            r == if self@.state->left <= room {
                self@.state->left
            } else {
                room as nat
            },
    {
        let (_, left): (Option<&H>, u16) = self.payload_due();
        if left as usize <= room {
            left as usize
        } else {
            room
        }
    }

    fn account<E>(&mut self, read_amount: usize) -> (r: StepResult<E>)
        requires
            old(self).wf(),
            old(self)@.state is Read,
        ensures
            final(self).wf(),
            r == old(self)@.payload_result::<E>(read_amount as nat),
            final(self)@ == old(self)@.payload_came(read_amount as nat),
    {
        match &mut self.state {
            SharedReaderState::Read { left, .. } => {
                let due: u16 = *left;
                if read_amount == 0 {
                    self.state = SharedReaderState::Error;
                    Poll::Ready(Err(MuxError::Fault(Fault::PayloadEof { expected: due })))
                } else if read_amount > due as usize {
                    self.state = SharedReaderState::Error;
                    Poll::Ready(Err(MuxError::Fault(Fault::PayloadOverrun)))
                } else {
                    let new_left: u16 = due - read_amount as u16;
                    if new_left == 0 {
                        self.state = next_packet();
                    } else {
                        *left = new_left;
                    }
                    Poll::Ready(Ok(()))
                }
            },
            _ => Poll::Pending,
        }
    }

    /// Takes in what the stream gave when it was asked for payload of a connection, at most as much
    /// as is due and as its entry has room for. If there is no room the stream is not asked; whoever
    /// reads from it is then woken by `waker` once there is. The first part of the answer says
    /// whether the owner of the connection has to be woken.
    pub fn poll_read_into<W, E>(
        &mut self,
        entry: &mut ReaderEntry<W>,
        read: Poll<Result<&[u8], E>>,
        waker: W,
    ) -> (r: (bool, StepResult<E>))
        requires
            old(self).wf(),
            old(self)@.state is Read,
            old(entry).buffer.wf(),
            read matches Poll::Ready(Ok(data)) ==> data@.len() <= old(
                entry,
            ).buffer@.remaining(),
        ensures
            final(self).wf(),
            final(entry).buffer.wf(),
            final(entry).reader_pipe_waker == old(entry).reader_pipe_waker,
            if old(entry).buffer@.remaining() == 0 {
                &&& r == (true, Poll::<Result<(), MuxError<E>>>::Pending)
                &&& final(self)@ == old(self)@
                &&& final(entry).buffer@ == old(entry).buffer@
                &&& final(entry).waiting_waker == waker
            } else {
                &&& final(entry).waiting_waker == old(entry).waiting_waker
                &&& match read {
                    Poll::Pending => {
                        &&& r == (false, Poll::<Result<(), MuxError<E>>>::Pending)
                        &&& final(self)@ == old(self)@
                        &&& final(entry).buffer@ == old(entry).buffer@
                    },
                    Poll::Ready(Err(e)) => {
                        &&& r == (
                            false,
                            Poll::<Result<(), MuxError<E>>>::Ready(Err(MuxError::Stream(e))),
                        )
                        &&& final(self)@ == old(self)@
                        &&& final(entry).buffer@ == old(entry).buffer@
                    },
                    Poll::Ready(Ok(data)) => {
                        &&& r == (true, old(self)@.payload_result::<E>(data@.len()))
                        &&& final(self)@ == old(self)@.payload_came(data@.len())
                        &&& final(entry).buffer@ == old(entry).buffer@.received(data@)
                    },
                }
            },
    {
        match entry.buffer.fill_buffer(read) {
            Poll::Ready(Ok(Some(amount))) => (true, self.account(amount)),
            Poll::Ready(Ok(None)) => {
                entry.waiting_waker = waker;
                (true, Poll::Pending)
            },
            Poll::Ready(Err(e)) => (false, Poll::Ready(Err(MuxError::Stream(e)))),
            Poll::Pending => (false, Poll::Pending),
        }
    }

    /// Takes in how much the stream gave when it was asked for payload that nobody will read.
    pub fn poll_read_discard<E>(&mut self, read: Poll<Result<usize, E>>) -> (r: StepResult<E>)
        requires
            old(self).wf(),
            old(self)@.state is Read,
        ensures
            final(self).wf(),
            match read {
                Poll::Pending => {
                    &&& r == Poll::<Result<(), MuxError<E>>>::Pending
                    &&& final(self)@ == old(self)@
                },
                Poll::Ready(Err(e)) => {
                    &&& r == Poll::<Result<(), MuxError<E>>>::Ready(Err(MuxError::Stream(e)))
                    &&& final(self)@ == old(self)@
                },
                Poll::Ready(Ok(n)) => {
                    &&& r == old(self)@.payload_result::<E>(n as nat)
                    &&& final(self)@ == old(self)@.payload_came(n as nat)
                },
            },
    {
        match read {
            Poll::Ready(Ok(amount)) => self.account(amount),
            Poll::Ready(Err(e)) => Poll::Ready(Err(MuxError::Stream(e))),
            Poll::Pending => Poll::Pending,
        }
    }

    /// How many bytes of the header are due.
    pub fn header_due(&self) -> (r: usize)
        requires
            self.wf(),
            self@.state is NextPacket,
        ensures
            r == HEADER_SIZE - self@.state->header.len(),
    {
        match &self.state {
            SharedReaderState::NextPacket { header } => HEADER_SIZE - header.len(),
            _ => 0,
        }
    }

    /// Takes in what the stream gave when it was asked for the rest of a header. `disconnected`
    /// says that nobody accepts connections any more.
    pub fn poll_next_packet<E>(&mut self, read: Poll<Result<&[u8], E>>, disconnected: bool) -> (r:
        HeaderStep<H, E>)
        requires
            old(self).wf(),
            old(self)@.state is NextPacket,
            read matches Poll::Ready(Ok(data)) ==> old(self)@.state->header.len() + data@.len()
                <= u8::MAX,
        ensures
            final(self).wf(),
            ({
                let turn: HeaderTurn<H, F, E> = old(self)@.next_packet(
                    read_view(read),
                    disconnected,
                );
                &&& r == turn.step
                &&& final(self)@ == turn.view
            }),
    {
        let data: &[u8] = match read {
            Poll::Ready(Ok(data)) => data,
            Poll::Ready(Err(e)) => {
                return HeaderStep::Return(Poll::Ready(Err(MuxError::Stream(e))));
            },
            Poll::Pending => {
                return HeaderStep::Return(Poll::Pending);
            },
        };
        if data.is_empty() {
            self.state = SharedReaderState::Error;
            return HeaderStep::Return(Poll::Ready(Err(MuxError::Fault(Fault::HeaderEof))));
        }
        let mut header: Vec<u8> = match &self.state {
            SharedReaderState::NextPacket { header } => header.clone(),
            _ => Vec::new(),
        };
        assert(header@ =~= self@.state->header);
        header.extend_from_slice(data);
        assert(header@ =~= self@.state->header + data@);
        if header.len() < HEADER_SIZE {
            self.state = SharedReaderState::NextPacket { header };
            HeaderStep::Return(Poll::Ready(Ok(())))
        } else if header.len() == HEADER_SIZE {
            self.header_came(header.as_slice(), disconnected)
        } else {
            self.state = SharedReaderState::Error;
            HeaderStep::Return(Poll::Ready(Err(MuxError::Fault(Fault::HeaderOverrun))))
        }
    }

    fn header_came<E>(&mut self, header: &[u8], disconnected: bool) -> (r: HeaderStep<H, E>)
        requires
            old(self).wf(),
            old(self)@.state is NextPacket,
            header@.len() == HEADER_SIZE,
        ensures
            final(self).wf(),
            ({
                let turn: HeaderTurn<H, F, E> = old(self)@.header_came(header@, disconnected);
                &&& r == turn.step
                &&& final(self)@ == turn.view
            }),
    {
        let header: MuxFrameHeader = MuxFrameHeader::from_bytes(header);
        let addr: SocketAddr = header.addr();
        let len: u16 = header.len();
        if len > 0 {
            self.state = SharedReaderState::Read { owner: addr, left: len };
            return HeaderStep::Return(Poll::Ready(Ok(())));
        }
        match self.remove(addr) {
            Some(handle) => {
                self.state = next_packet();
                HeaderStep::Closed(handle)
            },
            None => {
                assert(old(self)@.sockets.remove(addr) =~= old(self)@.sockets);
                if disconnected {
                    self.state = next_packet();
                    HeaderStep::Return(Poll::Ready(Ok(())))
                } else {
                    HeaderStep::Open(addr)
                }
            },
        }
    }

    /// An entry for the connection `socket`, which must not be open. `idle` wakes nobody.
    pub fn new_entry<W>(&self, socket: SocketAddr, idle: W, waiting: W) -> (r: Result<
        ReaderEntry<W>,
        Fault,
    >)
        requires
            self.wf(),
        ensures
            self@.sockets.dom().contains(socket) <==> r == Err::<ReaderEntry<W>, Fault>(
                Fault::DuplicateSocket,
            ),
            match r {
                Ok(entry) => {
                    &&& read_buffer::granted(DEFAULT_BUFFER_CAPACITY)
                    &&& entry.buffer.wf()
                    &&& entry.buffer@ == (ReadBufferView {
                        unread: seq![],
                        pos: 0,
                        capacity: DEFAULT_BUFFER_CAPACITY as nat,
                    })
                    &&& entry.reader_pipe_waker == idle
                    &&& entry.waiting_waker == waiting
                },
                Err(fault) => fault == Fault::DuplicateSocket || {
                    &&& fault == Fault::OutOfMemory
                    &&& read_buffer::refused(DEFAULT_BUFFER_CAPACITY)
                },
            },
    {
        if self.socket_map.contains_key(&socket) {
            Err(Fault::DuplicateSocket)
        } else {
            ReaderEntry::new(idle, waiting)
        }
    }

    /// Opens the connection `socket`, whose entry `handle` leads to.
    pub fn insert(&mut self, socket: SocketAddr, handle: H)
        requires
            old(self).wf(),
            !old(self)@.sockets.dom().contains(socket),
        ensures
            final(self).wf(),
            final(self)@.state == old(self)@.state,
            final(self)@.sockets == old(self)@.sockets.insert(socket, handle),
    {
        self.socket_map.insert(socket, handle);
    }

    /// Closes the connection `socket`, and returns its handle if it was open.
    pub fn remove(&mut self, socket: SocketAddr) -> (r: Option<H>)
        requires
            old(self).wf(),
        ensures
            final(self).wf(),
            final(self)@.state == old(self)@.state,
            final(self)@.sockets == old(self)@.sockets.remove(socket),
            r == if old(self)@.sockets.dom().contains(socket) {
                Some(old(self)@.sockets[socket])
            } else {
                None
            },
    {
        self.socket_map.remove(&socket)
    }

    /// Starts to hand over a connection that has been opened.
    pub fn send_socket(&mut self, future: F)
        requires
            old(self).wf(),
            old(self)@.state is NextPacket,
        ensures
            final(self).wf(),
            final(self)@.state == (StateView::SendSocket { future }),
            final(self)@.sockets == old(self)@.sockets,
    {
        self.state = SharedReaderState::SendSocket { future };
    }

    /// The handing over of a connection that is going on.
    pub fn sending(&mut self) -> (r: &mut F)
        requires
            old(self).wf(),
            old(self)@.state is SendSocket,
        ensures
            *r == old(self)@.state->future,
            final(self).wf(),
            final(self)@ == old(self)@.with_state(StateView::SendSocket { future: *final(r) }),
    {
        match &mut self.state {
            SharedReaderState::SendSocket { future } => future,
            _ => vstd::pervasive::unreached(),
        }
    }

    /// Goes on when the handing over of a connection has been tried: whether it was taken does not
    /// matter once it is over.
    pub fn poll_send<E>(&mut self, over: bool) -> (r: StepResult<E>)
        requires
            old(self).wf(),
            old(self)@.state is SendSocket,
        ensures
            final(self).wf(),
            if over {
                &&& r == Poll::<Result<(), MuxError<E>>>::Ready(Ok(()))
                &&& final(self)@ == old(self)@.at_next_packet()
            } else {
                &&& r == Poll::<Result<(), MuxError<E>>>::Pending
                &&& final(self)@ == old(self)@
            },
    {
        if over {
            self.state = next_packet();
            Poll::Ready(Ok(()))
        } else {
            Poll::Pending
        }
    }
}

/// The stream standing at the beginning of a frame.
fn next_packet<F>() -> (r: SharedReaderState<F>)
    ensures
        r@ == (StateView::<F>::NextPacket { header: seq![] }),
{
    let header: Vec<u8> = Vec::new();
    assert(header@ =~= seq![]);
    SharedReaderState::NextPacket { header }
}

} // verus!
