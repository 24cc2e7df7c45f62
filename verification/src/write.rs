//! The sending side of a connection.
//!
//! What a caller writes is gathered in a frame. A frame goes onto the stream, which all connections
//! share, while its connection holds the stream's lock, and the lock is kept until the last byte of
//! the frame has been taken.
//!
//! A call that has to wait for the lock or for the stream is answered with the [`Step`] that comes
//! next. Whoever owns the stream takes the step and hands back what came of it, until the step is
//! [`Step::Return`].
use crate::error::{Fault, MuxError};
use crate::packet_buffer::PacketBuffer;
use crate::packet_buffer::PacketView;
use crate::poll::Poll;
use crate::protocol;
use crate::protocol::{MuxFrameHeader, HEADER_SIZE, PACKET_SIZE};
use crate::thin_addr::SocketAddr;
use vstd::prelude::*;

verus! {

/// Where a connection that is being shut down stands. `L` is the stream's lock, held.
#[derive(Debug)]
#[allow(inconsistent_fields)]
pub enum ShutDownState<L> {
    /// The lock is needed.
    WaitingLock,
    /// The last frame is being sent.
    Flushing { lock: L, written: u32 },
    /// The header that closes the connection is being sent.
    Writing { lock: L, written: u8 },
    /// The connection is closed.
    Done,
    /// The stream failed before the connection was closed.
    Error,
}

/// Where a connection that can be written to stands.
#[derive(Debug)]
pub enum WriteState<L> {
    /// A frame is being filled.
    Buffering,
    /// The frame is being sent, and `written` bytes of it have been.
    Flushing { lock: L, written: u32 },
}

/// Where the sending side of a connection stands. `W` wakes the task that last wrote.
#[derive(Debug)]
pub enum WritePipeState<W, L> {
    /// A call panicked halfway.
    Poisoned,
    Shutdown(ShutDownState<L>),
    Writing(W, WriteState<L>),
}

/// What comes next in a call that may have to wait.
#[derive(Debug)]
pub enum Step<R> {
    /// Ask for the stream's lock.
    Lock,
    /// Offer [`WriteInner::unsent`] to the stream.
    Send,
    /// Flush the stream.
    Flush,
    /// Return this to the caller.
    Return(R),
}

/// A count of how much of a frame has been sent.
pub trait WriteCounter {
    /// The count.
    spec fn count(&self) -> nat;

    /// The first number that is too large for the counter.
    spec fn limit() -> nat;

    /// The count.
    fn current_count(&self) -> (r: u32)
        ensures
            r == self.count(),
    ;

    /// Adds as much of `amt` as the counter's width leaves of it.
    fn add(&mut self, amt: usize)
        requires
            old(self).count() + (amt as nat) % Self::limit() < Self::limit(),
        ensures
            final(self).count() == old(self).count() + (amt as nat) % Self::limit(),
    ;
}

impl WriteCounter for u8 {
    open spec fn count(&self) -> nat {
        *self as nat
    }

    open spec fn limit() -> nat {
        0x100
    }

    fn current_count(&self) -> (r: u32) {
        *self as u32
    }

    fn add(&mut self, amt: usize) {
        let low: u8 = #[verifier::truncate] (amt as u8);
        assert(low == amt % 0x100) by (bit_vector)
            requires
                low == amt as u8,
        ;
        *self = *self + low;
    }
}

impl WriteCounter for u32 {
    open spec fn count(&self) -> nat {
        *self as nat
    }

    open spec fn limit() -> nat {
        0x1_0000_0000
    }

    fn current_count(&self) -> (r: u32) {
        *self
    }

    fn add(&mut self, amt: usize) {
        let wide: u64 = amt as u64;
        let low: u32 = #[verifier::truncate] (wide as u32);
        assert(low == wide % 0x1_0000_0000) by (bit_vector)
            requires
                low == wide as u32,
        ;
        *self = *self + low;
    }
}

/// How far the sending of a frame has come.
#[derive(Debug)]
pub enum FlushProgress<E> {
    /// There are bytes to offer to the stream.
    Send,
    /// The frame is gone, or the stream failed.
    Ready(Result<(), MuxError<E>>),
    /// The stream cannot take anything now.
    Pending,
}

/// What becomes of sending a frame of which `written` bytes have been sent, when the stream answers
/// the offer of the rest with `outcome`.
pub open spec fn flush_progress<E>(
    packet: PacketView,
    written: nat,
    outcome: Poll<Result<usize, E>>,
) -> FlushProgress<E> {
    match outcome {
        Poll::Ready(Ok(n)) => if n == 0 {
            FlushProgress::Ready(Err(MuxError::Fault(Fault::FlushStalled)))
        } else if written + n < packet.bytes().len() {
            FlushProgress::Send
        } else {
            FlushProgress::Ready(Ok(()))
        },
        Poll::Ready(Err(e)) => FlushProgress::Ready(Err(MuxError::Stream(e))),
        Poll::Pending => FlushProgress::Pending,
    }
}

/// Looks whether all of a frame has been sent, and empties it if so.
pub fn flush_buf<C: WriteCounter>(buffer: &mut PacketBuffer, written: &C) -> (r: bool)
    requires
        old(buffer).wf(),
        written.count() <= old(buffer)@.bytes().len(),
    ensures
        final(buffer).wf(),
        r <==> written.count() == old(buffer)@.bytes().len(),
        final(buffer)@ == if r {
            old(buffer)@.cleared()
        } else {
            old(buffer)@
        },
{
    if buffer.bytes_from(written.current_count()).is_empty() {
        buffer.clear();
        true
    } else {
        false
    }
}

/// Takes in what the stream answered to the offer of what is left of a frame.
pub fn flush_buf_sent<C: WriteCounter, E>(
    buffer: &mut PacketBuffer,
    written: &mut C,
    outcome: Poll<Result<usize, E>>,
) -> (r: FlushProgress<E>)
    requires
        old(buffer).wf(),
        old(written).count() <= old(buffer)@.bytes().len(),
        old(buffer)@.bytes().len() < C::limit(),
        outcome matches Poll::Ready(Ok(n)) ==> old(written).count() + n <= old(
            buffer,
        )@.bytes().len(),
    ensures
        final(buffer).wf(),
        r == flush_progress(old(buffer)@, old(written).count(), outcome),
        final(written).count() == match outcome {
            Poll::Ready(Ok(n)) => old(written).count() + n as nat,
            _ => old(written).count(),
        },
        final(buffer)@ == if r == FlushProgress::<E>::Ready(Ok(())) {
            old(buffer)@.cleared()
        } else {
            old(buffer)@
        },
{
    match outcome {
        Poll::Ready(Ok(n)) => {
            if n == 0 {
                return FlushProgress::Ready(Err(MuxError::Fault(Fault::FlushStalled)));
            }
            proof {
                vstd::arithmetic::div_mod::lemma_small_mod(n as nat, C::limit());
            }
            written.add(n);
            if flush_buf(buffer, &*written) {
                FlushProgress::Ready(Ok(()))
            } else {
                FlushProgress::Send
            }
        },
        Poll::Ready(Err(e)) => FlushProgress::Ready(Err(MuxError::Stream(e))),
        Poll::Pending => FlushProgress::Pending,
    }
}

/// What a write returns: how much of what was offered it has taken.
pub type WriteResult<E> = Poll<Result<usize, MuxError<E>>>;

/// What a flush or a shutdown returns.
pub type DoneResult<E> = Poll<Result<(), MuxError<E>>>;

/// What the sending side of a connection holds.
#[verifier::ext_equal]
pub struct WriteView<W, L> {
    pub state: WritePipeState<W, L>,
    pub packet: PacketView,
}

/// What one step of a write comes to: how the sending side stands after it, how many more bytes
/// it has taken, and the step after.
pub struct WriteTurn<W, L, E> {
    pub view: WriteView<W, L>,
    pub taken: nat,
    pub step: Step<WriteResult<E>>,
}

/// What one step of a flush or a shutdown comes to.
pub struct Turn<W, L, E> {
    pub view: WriteView<W, L>,
    pub step: Step<DoneResult<E>>,
}

impl<W, L> WriteView<W, L> {
    /// How much of the frame has been sent, while the lock is held.
    pub open spec fn sending(self) -> Option<nat> {
        match self.state {
            WritePipeState::Writing(_, WriteState::Flushing { written, .. }) => Some(
                written as nat,
            ),
            WritePipeState::Shutdown(ShutDownState::Flushing { written, .. }) => Some(
                written as nat,
            ),
            WritePipeState::Shutdown(ShutDownState::Writing { written, .. }) => Some(
                written as nat,
            ),
            _ => None,
        }
    }

    /// The lock, while it is held.
    pub open spec fn lock(self) -> Option<L> {
        match self.state {
            WritePipeState::Writing(_, WriteState::Flushing { lock, .. }) => Some(lock),
            WritePipeState::Shutdown(ShutDownState::Flushing { lock, .. }) => Some(lock),
            WritePipeState::Shutdown(ShutDownState::Writing { lock, .. }) => Some(lock),
            _ => None,
        }
    }

    /// A frame fits. One that is being sent has not been sent to its end. When there is no payload
    /// to send, either nothing has been sent since the lock was taken, or a whole frame has.
    pub open spec fn valid(self) -> bool {
        &&& self.packet.data.len() <= PACKET_SIZE
        &&& match self.state {
            WritePipeState::Shutdown(ShutDownState::Writing { written, .. }) => {
                &&& self.packet.data.len() == 0
                &&& written < HEADER_SIZE
            },
            _ => self.sending() matches Some(written) ==> if self.packet.data.len() == 0 {
                written == 0 || written > HEADER_SIZE
            } else {
                written < self.packet.bytes().len()
            },
        }
    }

    /// How much has been sent does not lie behind the end of the frame. It does between the sending
    /// of a frame by a flush and the end of that flush.
    pub open spec fn in_place(self) -> bool {
        self.sending() matches Some(written) ==> written <= self.packet.bytes().len()
    }

    /// A frame, or the header that closes the connection, is due to be sent, in whole or in part.
    pub open spec fn has_unsent(self) -> bool {
        self.sending() matches Some(written) && written < self.packet.bytes().len()
    }

    /// What is left to send of the frame.
    pub open spec fn unsent(self) -> Seq<u8> {
        match self.sending() {
            Some(written) => self.packet.bytes().skip(written as int),
            None => seq![],
        }
    }

    /// What is left to send of a frame that has been sent in part.
    pub open spec fn left_behind(self) -> Seq<u8> {
        match self.sending() {
            Some(written) if written > 0 => self.unsent(),
            _ => seq![],
        }
    }

    /// The sending side in another state.
    pub open spec fn with_state(self, state: WritePipeState<W, L>) -> Self {
        WriteView { state, ..self }
    }

    /// The sending side filling a frame.
    pub open spec fn buffering(self) -> Self {
        self.with_state(WritePipeState::Writing(self.state->Writing_0, WriteState::Buffering))
    }

    /// The sending side with `written` bytes of the frame sent.
    pub open spec fn flushing(self, lock: L, written: nat) -> Self {
        self.with_state(
            WritePipeState::Writing(
                self.state->Writing_0,
                WriteState::Flushing { lock, written: written as u32 },
            ),
        )
    }

    /// The sending side with its frame emptied.
    pub open spec fn emptied(self) -> Self {
        WriteView { packet: self.packet.cleared(), ..self }
    }

    /// The sending side stands where this step of a write can be taken.
    pub open spec fn awaits_write<R>(self, step: Step<R>) -> bool {
        match step {
            Step::Lock => {
                &&& self.state matches WritePipeState::Writing(_, WriteState::Buffering)
                &&& self.packet.data.len() > 0
            },
            Step::Send => {
                &&& self.state is Writing
                &&& self.packet.data.len() > 0
                &&& self.has_unsent()
            },
            Step::Flush => false,
            Step::Return(_) => true,
        }
    }

    /// The sending side stands where this step of a flush can be taken.
    pub open spec fn awaits_flush<R>(self, step: Step<R>) -> bool {
        match step {
            Step::Lock => self.state matches WritePipeState::Writing(_, WriteState::Buffering),
            Step::Send => {
                &&& self.state is Writing
                &&& self.packet.data.len() > 0
                &&& self.has_unsent()
            },
            Step::Flush => {
                &&& self.state matches WritePipeState::Writing(_, WriteState::Flushing { .. })
                &&& self.packet.data.len() == 0
            },
            Step::Return(_) => true,
        }
    }

    /// The sending side stands where this step of a shutdown can be taken.
    pub open spec fn awaits_shutdown<R>(self, step: Step<R>) -> bool {
        match step {
            Step::Lock => self.state matches WritePipeState::Shutdown(ShutDownState::WaitingLock),
            Step::Send => {
                &&& self.state is Shutdown
                &&& self.state->Shutdown_0 is Flushing ==> self.packet.data.len() > 0
                &&& self.has_unsent()
            },
            Step::Flush => false,
            Step::Return(_) => true,
        }
    }

    /// Goes on with a write that has taken `wrote` bytes and has `rest` left: as much of it as
    /// there is room for goes into the frame. If the frame is being sent, it is sent on. If not, a
    /// frame that could not take all of the rest is full and has to be sent.
    pub open spec fn write_on<E>(self, wrote: nat, rest: Seq<u8>) -> WriteTurn<W, L, E> {
        if rest.len() == 0 {
            WriteTurn {
                view: self,
                taken: 0,
                step: Step::Return(Poll::Ready(Ok(wrote as usize))),
            }
        } else {
            let written = match self.sending() {
                Some(written) => written,
                None => 0,
            };
            let taken = self.packet.accepted(rest, written);
            WriteTurn {
                view: WriteView { packet: self.packet.extended(rest, written), ..self },
                taken,
                step: if self.sending() is Some {
                    Step::Send
                } else if taken == rest.len() {
                    Step::Return(Poll::Ready(Ok((wrote + taken) as usize)))
                } else {
                    Step::Lock
                },
            }
        }
    }

    /// Begins a write of `buf`. One to a connection that has been shut down fails.
    pub open spec fn write_begin<E>(self, waker: W, buf: Seq<u8>) -> WriteTurn<W, L, E> {
        match self.state {
            WritePipeState::Writing(_, state) => self.with_state(
                WritePipeState::Writing(waker, state),
            ).write_on(0, buf),
            _ => WriteTurn {
                view: self,
                taken: 0,
                step: Step::Return(Poll::Ready(Err(MuxError::Fault(Fault::Closed)))),
            },
        }
    }

    /// Goes on with a write that asked for the lock. Without it the write ends with what it has
    /// taken, and has to wait if it has taken nothing.
    pub open spec fn write_locked<E>(self, wrote: nat, lock: Poll<L>) -> WriteTurn<W, L, E> {
        match lock {
            Poll::Ready(lock) => WriteTurn {
                view: self.flushing(lock, 0),
                taken: 0,
                step: Step::Send,
            },
            Poll::Pending => WriteTurn {
                view: self,
                taken: 0,
                step: if wrote != 0 {
                    Step::Return(Poll::Ready(Ok(wrote as usize)))
                } else {
                    Step::Return(Poll::Pending)
                },
            },
        }
    }

    /// Goes on with a write that offered bytes to the stream. When the frame is gone the rest of
    /// the write is put in the next. If the stream takes nothing now, the write ends with what it
    /// has taken, and has to wait if it has taken nothing. If the stream fails, so does the write,
    /// and the frame is kept.
    pub open spec fn write_sent<E>(
        self,
        wrote: nat,
        rest: Seq<u8>,
        outcome: Poll<Result<usize, E>>,
    ) -> WriteTurn<W, L, E> {
        let written = self.sending()->0;
        match flush_progress(self.packet, written, outcome) {
            FlushProgress::Send => WriteTurn {
                view: self.flushing(self.lock()->0, written + outcome->Ready_0->Ok_0 as nat),
                taken: 0,
                step: Step::Send,
            },
            FlushProgress::Ready(Ok(())) => self.buffering().emptied().write_on(wrote, rest),
            FlushProgress::Ready(Err(e)) => WriteTurn {
                view: self.buffering(),
                taken: 0,
                step: Step::Return(Poll::Ready(Err(e))),
            },
            FlushProgress::Pending => WriteTurn {
                view: self,
                taken: 0,
                step: if wrote != 0 {
                    Step::Return(Poll::Ready(Ok(wrote as usize)))
                } else {
                    Step::Return(Poll::Pending)
                },
            },
        }
    }

    /// The sending side with another lock in the place of the one that is held.
    pub open spec fn with_lock(self, lock: L) -> Self {
        match self.state {
            WritePipeState::Writing(waker, WriteState::Flushing { written, .. }) => self.with_state(
                WritePipeState::Writing(waker, WriteState::Flushing { lock, written }),
            ),
            WritePipeState::Shutdown(
                ShutDownState::Flushing { written, .. },
            ) => self.with_state(
                WritePipeState::Shutdown(ShutDownState::Flushing { lock, written }),
            ),
            WritePipeState::Shutdown(
                ShutDownState::Writing { written, .. },
            ) => self.with_state(
                WritePipeState::Shutdown(ShutDownState::Writing { lock, written }),
            ),
            _ => self,
        }
    }

    /// Goes on with a flush: the lock is needed, then the frame has to be sent if it has any
    /// payload, then the stream has to be flushed.
    pub open spec fn flush_on<E>(self) -> Turn<W, L, E> {
        Turn {
            view: self,
            step: if self.sending() is None {
                Step::Lock
            } else if self.packet.data.len() > 0 {
                Step::Send
            } else {
                Step::Flush
            },
        }
    }

    /// Begins a flush. One of a connection that has been shut down fails.
    pub open spec fn flush_begin<E>(self, waker: W) -> Turn<W, L, E> {
        match self.state {
            WritePipeState::Writing(_, state) => self.with_state(
                WritePipeState::Writing(waker, state),
            ).flush_on(),
            _ => Turn {
                view: self,
                step: Step::Return(Poll::Ready(Err(MuxError::Fault(Fault::Closed)))),
            },
        }
    }

    /// Goes on with a flush that asked for the lock.
    pub open spec fn flush_locked<E>(self, lock: Poll<L>) -> Turn<W, L, E> {
        match lock {
            Poll::Ready(lock) => self.flushing(lock, 0).flush_on(),
            Poll::Pending => Turn { view: self, step: Step::Return(Poll::Pending) },
        }
    }

    /// Goes on with a flush that offered bytes to the stream. The lock is kept until the stream
    /// has been flushed, unless the stream fails.
    pub open spec fn flush_sent<E>(self, outcome: Poll<Result<usize, E>>) -> Turn<W, L, E> {
        let written = self.sending()->0;
        match flush_progress(self.packet, written, outcome) {
            FlushProgress::Send => Turn {
                view: self.flushing(self.lock()->0, written + outcome->Ready_0->Ok_0 as nat),
                step: Step::Send,
            },
            FlushProgress::Ready(Ok(())) => Turn {
                view: self.flushing(
                    self.lock()->0,
                    written + outcome->Ready_0->Ok_0 as nat,
                ).emptied(),
                step: Step::Flush,
            },
            FlushProgress::Ready(Err(e)) => Turn {
                view: self.buffering(),
                step: Step::Return(Poll::Ready(Err(e))),
            },
            FlushProgress::Pending => Turn { view: self, step: Step::Return(Poll::Pending) },
        }
    }

    /// Ends a flush when the stream has answered.
    pub open spec fn flush_flushed<E>(self, outcome: Poll<Result<(), E>>) -> Turn<W, L, E> {
        match outcome {
            Poll::Ready(Ok(())) => Turn {
                view: self.buffering(),
                step: Step::Return(Poll::Ready(Ok(()))),
            },
            Poll::Ready(Err(e)) => Turn {
                view: self.buffering(),
                step: Step::Return(Poll::Ready(Err(MuxError::Stream(e)))),
            },
            Poll::Pending => Turn { view: self, step: Step::Return(Poll::Pending) },
        }
    }

    /// The sending side being shut down.
    pub open spec fn shutting_down(self) -> Self {
        match self.state {
            WritePipeState::Writing(_, WriteState::Buffering) => self.with_state(
                WritePipeState::Shutdown(ShutDownState::WaitingLock),
            ),
            WritePipeState::Writing(_, WriteState::Flushing { lock, written }) => self.with_state(
                WritePipeState::Shutdown(ShutDownState::Flushing { lock, written }),
            ),
            _ => self,
        }
    }

    /// Goes on with a shutdown: the lock is needed, then the frame has to be sent if it has any
    /// payload, then the header that closes the connection has to be sent.
    pub open spec fn shutdown_on<E>(self) -> Turn<W, L, E> {
        match self.state {
            WritePipeState::Shutdown(ShutDownState::WaitingLock) => Turn {
                view: self,
                step: Step::Lock,
            },
            WritePipeState::Shutdown(ShutDownState::Flushing { lock, .. }) => Turn {
                view: if self.packet.data.len() > 0 {
                    self
                } else {
                    self.with_state(
                        WritePipeState::Shutdown(ShutDownState::Writing { lock, written: 0 }),
                    )
                },
                step: Step::Send,
            },
            WritePipeState::Shutdown(ShutDownState::Writing { .. }) => Turn {
                view: self,
                step: Step::Send,
            },
            WritePipeState::Shutdown(ShutDownState::Error) => Turn {
                view: self,
                step: Step::Return(Poll::Ready(Err(MuxError::Fault(Fault::ShutdownFailed)))),
            },
            _ => Turn { view: self, step: Step::Return(Poll::Ready(Ok(()))) },
        }
    }

    /// Goes on with a shutdown that asked for the lock.
    pub open spec fn shutdown_locked<E>(self, lock: Poll<L>) -> Turn<W, L, E> {
        match lock {
            Poll::Ready(lock) => self.with_state(
                WritePipeState::Shutdown(ShutDownState::Flushing { lock, written: 0 }),
            ).shutdown_on(),
            Poll::Pending => Turn { view: self, step: Step::Return(Poll::Pending) },
        }
    }

    /// Goes on with a shutdown that offered bytes to the stream. The lock is given up when the
    /// connection is closed, or when the stream fails.
    pub open spec fn shutdown_sent<E>(self, outcome: Poll<Result<usize, E>>) -> Turn<W, L, E> {
        let written = self.sending()->0;
        match flush_progress(self.packet, written, outcome) {
            FlushProgress::Send => {
                let now = written + outcome->Ready_0->Ok_0;
                Turn {
                    view: self.with_state(
                        WritePipeState::Shutdown(
                            if self.state->Shutdown_0 is Flushing {
                                ShutDownState::Flushing {
                                    lock: self.lock()->0,
                                    written: now as u32,
                                }
                            } else {
                                ShutDownState::Writing { lock: self.lock()->0, written: now as u8 }
                            },
                        ),
                    ),
                    step: Step::Send,
                }
            },
            FlushProgress::Ready(Ok(())) => if self.state->Shutdown_0 is Flushing {
                self.emptied().shutdown_on()
            } else {
                Turn {
                    view: self.with_state(WritePipeState::Shutdown(ShutDownState::Done)).emptied(),
                    step: Step::Return(Poll::Ready(Ok(()))),
                }
            },
            FlushProgress::Ready(Err(e)) => Turn {
                view: self.with_state(WritePipeState::Shutdown(ShutDownState::Error)),
                step: Step::Return(Poll::Ready(Err(e))),
            },
            FlushProgress::Pending => Turn { view: self, step: Step::Return(Poll::Pending) },
        }
    }
}

/// A write in progress.
#[derive(Debug)]
pub struct WriteCall<'a> {
    /// What the caller offered.
    buf: &'a [u8],
    /// How much of it has been taken.
    wrote: usize,
}

impl<'a> WriteCall<'a> {
    /// What the caller offered.
    pub closed spec fn spec_buf(&self) -> Seq<u8> {
        self.buf@
    }

    /// How much of it has been taken.
    pub closed spec fn spec_wrote(&self) -> nat {
        self.wrote as nat
    }

    /// No more has been taken than was offered.
    pub open spec fn wf(&self) -> bool {
        self.spec_wrote() <= self.spec_buf().len() <= usize::MAX
    }

    /// What has not been taken.
    pub open spec fn spec_rest(&self) -> Seq<u8> {
        self.spec_buf().skip(self.spec_wrote() as int)
    }

    /// A write of `buf` that has taken nothing yet.
    pub fn new(buf: &'a [u8]) -> (r: Self)
        ensures
            r.wf(),
            r.spec_buf() == buf@,
            r.spec_wrote() == 0,
    {
        assert(buf.len() == buf@.len());
        Self { buf, wrote: 0 }
    }

    /// How much has been taken.
    pub fn wrote(&self) -> (r: usize)
        ensures
            r == self.spec_wrote(),
    {
        self.wrote
    }

    /// What has not been taken.
    pub fn rest(&self) -> (r: &'a [u8])
        requires
            self.wf(),
        ensures
            r@ == self.spec_rest(),
    {
        let r: &'a [u8] = vstd::slice::slice_subrange(self.buf, self.wrote, self.buf.len());
        assert(r@ =~= self.spec_rest());
        r
    }

    fn take(&mut self, n: u16)
        requires
            old(self).wf(),
            old(self).spec_wrote() + n <= old(self).spec_buf().len(),
        ensures
            final(self).wf(),
            final(self).spec_buf() == old(self).spec_buf(),
            final(self).spec_wrote() == old(self).spec_wrote() + n,
            final(self).spec_rest() == old(self).spec_rest().skip(n as int),
    {
        self.wrote = self.wrote + n as usize;
        assert(self.spec_rest() =~= old(self).spec_rest().skip(n as int));
    }
}

/// What has to be sent when a connection is given up without being shut down. What is to be sent is
/// sent in order, and no further than to the first failure.
#[derive(Debug)]
pub enum DropPlan<L> {
    /// Nothing.
    Nothing,
    /// The header that closes the connection, under the lock.
    Lock { eof: Vec<u8> },
    /// The rest of a frame, and the header that closes the connection, under the lock that is held.
    Locked { lock: L, rest: Vec<u8>, eof: Vec<u8> },
}

/// The sending side of a connection.
#[derive(Debug)]
pub struct WriteInner<W, L> {
    state: WritePipeState<W, L>,
    buffer: PacketBuffer,
}

impl<W, L> View for WriteInner<W, L> {
    type V = WriteView<W, L>;

    closed spec fn view(&self) -> WriteView<W, L> {
        WriteView { state: self.state, packet: self.buffer@ }
    }
}

impl<W, L> WriteInner<W, L> {
    /// The frame is kept as it has to be.
    pub closed spec fn buffer_wf(&self) -> bool {
        self.buffer.wf()
    }

    /// The sending side is as it has to be between two steps.
    pub open spec fn wf(&self) -> bool {
        &&& self.buffer_wf()
        &&& self@.valid()
    }

    /// The sending side of the connection `socket`. Nobody is to be woken by `waker` yet.
    pub fn new(socket: SocketAddr, waker: W) -> (r: Self)
        ensures
            r.wf(),
            r@ == (WriteView {
                state: WritePipeState::<W, L>::Writing(waker, WriteState::Buffering),
                packet: PacketView { addr: socket, data: seq![] },
            }),
    {
        Self {
            state: WritePipeState::Writing(waker, WriteState::Buffering),
            buffer: PacketBuffer::new(socket),
        }
    }

    /// The connection.
    pub fn addr(&self) -> (r: SocketAddr)
        ensures
            r == self@.packet.addr,
    {
        self.buffer.addr()
    }

    fn write_on<E>(&mut self, call: &mut WriteCall<'_>) -> (r: Step<WriteResult<E>>)
        requires
            old(self).wf(),
            old(self)@.state is Writing,
            old(call).wf(),
            old(call).spec_rest().len() > 0 ==> old(self)@.in_place(),
        ensures
            final(self).wf(),
            final(self)@.awaits_write(r),
            final(call).wf(),
            final(call).spec_buf() == old(call).spec_buf(),
            ({
                let turn: WriteTurn<W, L, E> = old(self)@.write_on(
                    old(call).spec_wrote(),
                    old(call).spec_rest(),
                );
                &&& r == turn.step
                &&& final(self)@ == turn.view
                &&& final(call).spec_wrote() == old(call).spec_wrote() + turn.taken
            }),
    {
        let rest: &[u8] = call.rest();
        if rest.is_empty() {
            return Step::Return(Poll::Ready(Ok(call.wrote())));
        }
        let sending: Option<u32> = match &self.state {
            WritePipeState::Writing(_, WriteState::Flushing { written, .. }) => Some(*written),
            _ => None,
        };
        match sending {
            None => {
                let n: u16 = self.buffer.push(rest, 0);
                call.take(n);
                if call.rest().is_empty() {
                    Step::Return(Poll::Ready(Ok(call.wrote())))
                } else {
                    Step::Lock
                }
            },
            Some(written) => {
                if !self.buffer.must_flush_for(written) {
                    let n: u16 = self.buffer.push(rest, written);
                    call.take(n);
                } else {
                    assert(self@.packet.data + rest@.take(0) =~= self@.packet.data);
                }
                Step::Send
            },
        }
    }

    /// Begins a write. The task that writes is to be woken by `waker`.
    pub fn poll_write<E>(&mut self, call: &mut WriteCall<'_>, waker: W) -> (r: Step<
        WriteResult<E>,
    >)
        requires
            old(self).wf(),
            old(self)@.state !is Poisoned,
            old(call).wf(),
            old(call).spec_wrote() == 0,
            old(self)@.state is Writing && old(call).spec_buf().len() > 0 ==> old(
                self,
            )@.in_place(),
        ensures
            final(self).wf(),
            final(self)@.awaits_write(r),
            final(call).wf(),
            final(call).spec_buf() == old(call).spec_buf(),
            ({
                let turn: WriteTurn<W, L, E> = old(self)@.write_begin(
                    waker,
                    old(call).spec_buf(),
                );
                &&& r == turn.step
                &&& final(self)@ == turn.view
                &&& final(call).spec_wrote() == turn.taken
            }),
    {
        match &mut self.state {
            WritePipeState::Writing(last, _) => {
                *last = waker;
            },
            _ => {
                return Step::Return(Poll::Ready(Err(MuxError::Fault(Fault::Closed))));
            },
        }
        assert(call.spec_rest() =~= call.spec_buf());
        self.write_on(call)
    }

    /// Goes on with a write that asked for the lock.
    pub fn write_locked<E>(&mut self, call: &WriteCall<'_>, lock: Poll<L>) -> (r: Step<
        WriteResult<E>,
    >)
        requires
            old(self).wf(),
            old(self)@.awaits_write(Step::<()>::Lock),
            call.wf(),
        ensures
            final(self).wf(),
            final(self)@.awaits_write(r),
            ({
                let turn: WriteTurn<W, L, E> = old(self)@.write_locked(
                    call.spec_wrote(),
                    lock,
                );
                &&& r == turn.step
                &&& final(self)@ == turn.view
            }),
    {
        match poll_locked(&mut self.state, lock) {
            Poll::Ready(()) => Step::Send,
            Poll::Pending => if call.wrote() != 0 {
                Step::Return(Poll::Ready(Ok(call.wrote())))
            } else {
                Step::Return(Poll::Pending)
            },
        }
    }

    /// Goes on with a write that offered [`WriteInner::unsent`] to the stream.
    pub fn write_sent<E>(
        &mut self,
        call: &mut WriteCall<'_>,
        outcome: Poll<Result<usize, E>>,
    ) -> (r: Step<WriteResult<E>>)
        requires
            old(self).wf(),
            old(self)@.awaits_write(Step::<()>::Send),
            old(call).wf(),
            outcome matches Poll::Ready(Ok(n)) ==> n <= old(self)@.unsent().len(),
        ensures
            final(self).wf(),
            final(self)@.awaits_write(r),
            final(call).wf(),
            final(call).spec_buf() == old(call).spec_buf(),
            ({
                let turn: WriteTurn<W, L, E> = old(self)@.write_sent(
                    old(call).spec_wrote(),
                    old(call).spec_rest(),
                    outcome,
                );
                &&& r == turn.step
                &&& final(self)@ == turn.view
                &&& final(call).spec_wrote() == old(call).spec_wrote() + turn.taken
            }),
    {
        let progress: FlushProgress<E> = match &mut self.state {
            WritePipeState::Writing(_, WriteState::Flushing { written, .. }) => flush_buf_sent(
                &mut self.buffer,
                written,
                outcome,
            ),
            _ => FlushProgress::Pending,
        };
        match progress {
            FlushProgress::Send => Step::Send,
            FlushProgress::Ready(result) => {
                if let WritePipeState::Writing(_, state) = &mut self.state {
                    *state = WriteState::Buffering;
                }
                match result {
                    Ok(()) => self.write_on(call),
                    Err(e) => Step::Return(Poll::Ready(Err(e))),
                }
            },
            FlushProgress::Pending => if call.wrote() != 0 {
                Step::Return(Poll::Ready(Ok(call.wrote())))
            } else {
                Step::Return(Poll::Pending)
            },
        }
    }

    /// The lock, and what is left to send of the frame.
    pub fn unsent(&mut self) -> (r: (&mut L, &[u8]))
        requires
            old(self).wf(),
            old(self)@.has_unsent(),
        ensures
            *r.0 == old(self)@.lock()->0,
            r.1@ == old(self)@.unsent(),
            final(self)@ == old(self)@.with_lock(*final(r.0)),
            final(self).wf(),
    {
        match &mut self.state {
            WritePipeState::Writing(_, WriteState::Flushing { lock, written }) => (
                lock,
                self.buffer.bytes_from(*written),
            ),
            WritePipeState::Shutdown(ShutDownState::Flushing { lock, written }) => (
                lock,
                self.buffer.bytes_from(*written),
            ),
            WritePipeState::Shutdown(ShutDownState::Writing { lock, written }) => (
                lock,
                self.buffer.bytes_from(*written as u32),
            ),
            _ => vstd::pervasive::unreached(),
        }
    }

    fn flush_on<E>(&self) -> (r: Step<DoneResult<E>>)
        requires
            self.wf(),
            self@.state is Writing,
        ensures
            r == self@.flush_on::<E>().step,
            self@.awaits_flush(r),
    {
        match &self.state {
            WritePipeState::Writing(_, WriteState::Flushing { .. }) => {
                if !self.buffer.is_empty() {
                    Step::Send
                } else {
                    Step::Flush
                }
            },
            _ => Step::Lock,
        }
    }

    /// Begins a flush. The task that flushes is to be woken by `waker`.
    pub fn poll_flush<E>(&mut self, waker: W) -> (r: Step<DoneResult<E>>)
        requires
            old(self).wf(),
            old(self)@.state !is Poisoned,
        ensures
            final(self).wf(),
            final(self)@.awaits_flush(r),
            ({
                let turn: Turn<W, L, E> = old(self)@.flush_begin(waker);
                &&& r == turn.step
                &&& final(self)@ == turn.view
            }),
    {
        match &mut self.state {
            WritePipeState::Writing(last, _) => {
                *last = waker;
            },
            _ => {
                return Step::Return(Poll::Ready(Err(MuxError::Fault(Fault::Closed))));
            },
        }
        self.flush_on()
    }

    /// Goes on with a flush that asked for the lock.
    pub fn flush_locked<E>(&mut self, lock: Poll<L>) -> (r: Step<DoneResult<E>>)
        requires
            old(self).wf(),
            old(self)@.awaits_flush(Step::<()>::Lock),
        ensures
            final(self).wf(),
            final(self)@.awaits_flush(r),
            ({
                let turn: Turn<W, L, E> = old(self)@.flush_locked(lock);
                &&& r == turn.step
                &&& final(self)@ == turn.view
            }),
    {
        match poll_locked(&mut self.state, lock) {
            Poll::Ready(()) => self.flush_on(),
            Poll::Pending => Step::Return(Poll::Pending),
        }
    }

    /// Goes on with a flush that offered [`WriteInner::unsent`] to the stream.
    pub fn flush_sent<E>(&mut self, outcome: Poll<Result<usize, E>>) -> (r: Step<DoneResult<E>>)
        requires
            old(self).wf(),
            old(self)@.awaits_flush(Step::<()>::Send),
            outcome matches Poll::Ready(Ok(n)) ==> n <= old(self)@.unsent().len(),
        ensures
            final(self).wf(),
            final(self)@.awaits_flush(r),
            ({
                let turn: Turn<W, L, E> = old(self)@.flush_sent(outcome);
                &&& r == turn.step
                &&& final(self)@ == turn.view
            }),
    {
        let progress: FlushProgress<E> = match &mut self.state {
            WritePipeState::Writing(_, WriteState::Flushing { written, .. }) => flush_buf_sent(
                &mut self.buffer,
                written,
                outcome,
            ),
            _ => FlushProgress::Pending,
        };
        match progress {
            FlushProgress::Send => Step::Send,
            FlushProgress::Ready(Ok(())) => Step::Flush,
            FlushProgress::Ready(Err(e)) => {
                if let WritePipeState::Writing(_, state) = &mut self.state {
                    *state = WriteState::Buffering;
                }
                Step::Return(Poll::Ready(Err(e)))
            },
            FlushProgress::Pending => Step::Return(Poll::Pending),
        }
    }

    /// Goes on with a flush that flushed the stream.
    pub fn flush_flushed<E>(&mut self, outcome: Poll<Result<(), E>>) -> (r: Step<DoneResult<E>>)
        requires
            old(self).wf(),
            old(self)@.awaits_flush(Step::<()>::Flush),
        ensures
            final(self).wf(),
            final(self)@.awaits_flush(r),
            ({
                let turn: Turn<W, L, E> = old(self)@.flush_flushed(outcome);
                &&& r == turn.step
                &&& final(self)@ == turn.view
            }),
    {
        match outcome {
            Poll::Ready(result) => {
                if let WritePipeState::Writing(_, state) = &mut self.state {
                    *state = WriteState::Buffering;
                }
                match result {
                    Ok(()) => Step::Return(Poll::Ready(Ok(()))),
                    Err(e) => Step::Return(Poll::Ready(Err(MuxError::Stream(e)))),
                }
            },
            Poll::Pending => Step::Return(Poll::Pending),
        }
    }

    fn shutdown_on<E>(&mut self) -> (r: Step<DoneResult<E>>)
        requires
            old(self).wf(),
            old(self)@.state is Shutdown,
        ensures
            final(self).wf(),
            final(self)@.awaits_shutdown(r),
            ({
                let turn: Turn<W, L, E> = old(self)@.shutdown_on();
                &&& r == turn.step
                &&& final(self)@ == turn.view
            }),
    {
        match &mut self.state {
            WritePipeState::Shutdown(state) => match state {
                ShutDownState::WaitingLock => Step::Lock,
                ShutDownState::Flushing { .. } => {
                    if self.buffer.is_empty() {
                        replace_with::replace_with_or_abort(state, start_closing);
                    }
                    Step::Send
                },
                ShutDownState::Writing { .. } => Step::Send,
                ShutDownState::Done => Step::Return(Poll::Ready(Ok(()))),
                ShutDownState::Error => Step::Return(
                    Poll::Ready(Err(MuxError::Fault(Fault::ShutdownFailed))),
                ),
            },
            _ => Step::Return(Poll::Ready(Ok(()))),
        }
    }

    /// Begins a shutdown, or takes up one that had to wait. The task that last wrote is to be
    /// woken: it cannot write any more.
    pub fn poll_shutdown<E>(&mut self) -> (r: (Option<W>, Step<DoneResult<E>>))
        requires
            old(self).wf(),
            old(self)@.state !is Poisoned,
        ensures
            final(self).wf(),
            final(self)@.awaits_shutdown(r.1),
            r.0 == match old(self)@.state {
                WritePipeState::Writing(waker, _) => Some(waker),
                _ => None,
            },
            ({
                let turn: Turn<W, L, E> = old(self)@.shutting_down().shutdown_on();
                &&& r.1 == turn.step
                &&& final(self)@ == turn.view
            }),
    {
        let writing: bool = match &self.state {
            WritePipeState::Writing(..) => true,
            _ => false,
        };
        let woken: Option<W> = if writing {
            Some(replace_with::replace_with_or_abort_and_return(&mut self.state, shut_down))
        } else {
            None
        };
        (woken, self.shutdown_on())
    }

    /// Goes on with a shutdown that asked for the lock.
    pub fn shutdown_locked<E>(&mut self, lock: Poll<L>) -> (r: Step<DoneResult<E>>)
        requires
            old(self).wf(),
            old(self)@.awaits_shutdown(Step::<()>::Lock),
        ensures
            final(self).wf(),
            final(self)@.awaits_shutdown(r),
            ({
                let turn: Turn<W, L, E> = old(self)@.shutdown_locked(lock);
                &&& r == turn.step
                &&& final(self)@ == turn.view
            }),
    {
        match lock {
            Poll::Ready(lock) => {
                self.state = WritePipeState::Shutdown(
                    ShutDownState::Flushing { lock, written: 0 },
                );
                self.shutdown_on()
            },
            Poll::Pending => Step::Return(Poll::Pending),
        }
    }

    /// Goes on with a shutdown that offered [`WriteInner::unsent`] to the stream.
    pub fn shutdown_sent<E>(&mut self, outcome: Poll<Result<usize, E>>) -> (r: Step<
        DoneResult<E>,
    >)
        requires
            old(self).wf(),
            old(self)@.awaits_shutdown(Step::<()>::Send),
            outcome matches Poll::Ready(Ok(n)) ==> n <= old(self)@.unsent().len(),
        ensures
            final(self).wf(),
            final(self)@.awaits_shutdown(r),
            ({
                let turn: Turn<W, L, E> = old(self)@.shutdown_sent(outcome);
                &&& r == turn.step
                &&& final(self)@ == turn.view
            }),
    {
        let (closing, progress): (bool, FlushProgress<E>) = match &mut self.state {
            WritePipeState::Shutdown(ShutDownState::Flushing { written, .. }) => (
                false,
                flush_buf_sent(&mut self.buffer, written, outcome),
            ),
            WritePipeState::Shutdown(ShutDownState::Writing { written, .. }) => (
                true,
                flush_buf_sent(&mut self.buffer, written, outcome),
            ),
            _ => (false, FlushProgress::Pending),
        };
        match progress {
            FlushProgress::Send => Step::Send,
            FlushProgress::Ready(Ok(())) => {
                if closing {
                    self.state = WritePipeState::Shutdown(ShutDownState::Done);
                }
                self.shutdown_on()
            },
            FlushProgress::Ready(Err(e)) => {
                self.state = WritePipeState::Shutdown(ShutDownState::Error);
                Step::Return(Poll::Ready(Err(e)))
            },
            FlushProgress::Pending => Step::Return(Poll::Pending),
        }
    }

    /// The lock, while it is held.
    pub fn held_lock(&mut self) -> (r: &mut L)
        requires
            old(self).wf(),
            old(self)@.lock() is Some,
        ensures
            *r == old(self)@.lock()->0,
            final(self)@ == old(self)@.with_lock(*final(r)),
            final(self).wf(),
    {
        match &mut self.state {
            WritePipeState::Writing(_, WriteState::Flushing { lock, .. }) => lock,
            WritePipeState::Shutdown(ShutDownState::Flushing { lock, .. }) => lock,
            WritePipeState::Shutdown(ShutDownState::Writing { lock, .. }) => lock,
            _ => vstd::pervasive::unreached(),
        }
    }

    /// What is to be sent, under the lock, to open the connection.
    pub fn handshake(&self) -> (r: &[u8])
        requires
            self.wf(),
            self@.state matches WritePipeState::Writing(_, WriteState::Buffering),
            self@.packet.data.len() == 0,
        ensures
            r@ == protocol::header_bytes(self@.packet.addr, 0),
    {
        let r: &[u8] = self.buffer.bytes();
        assert(self@.packet.data =~= seq![]);
        assert(r@ =~= protocol::header_bytes(self@.packet.addr, 0));
        r
    }

    /// Whether nothing has been written yet, and nothing else is going on.
    pub fn can_handshake(&self) -> (r: bool)
        requires
            self.wf(),
        ensures
            r <==> (self@.state matches WritePipeState::Writing(_, WriteState::Buffering)
                && self@.packet.data.len() == 0),
    {
        match &self.state {
            WritePipeState::Writing(_, WriteState::Buffering) => self.buffer.is_empty(),
            _ => false,
        }
    }

    /// Whether how much has been sent does not lie behind the end of the frame.
    pub fn is_in_place(&self) -> (r: bool)
        requires
            self.wf(),
        ensures
            r <==> self@.in_place(),
    {
        match &self.state {
            WritePipeState::Writing(_, WriteState::Flushing { written, .. }) => *written as usize
                <= self.buffer.bytes().len(),
            WritePipeState::Shutdown(
                ShutDownState::Flushing { written, .. },
            ) => *written as usize <= self.buffer.bytes().len(),
            WritePipeState::Shutdown(
                ShutDownState::Writing { written, .. },
            ) => *written as usize <= self.buffer.bytes().len(),
            _ => true,
        }
    }

    /// Whether a call panicked halfway.
    pub fn is_poisoned(&self) -> (r: bool)
        ensures
            r <==> self@.state is Poisoned,
    {
        match &self.state {
            WritePipeState::Poisoned => true,
            _ => false,
        }
    }

    /// Notes that a call panicked halfway. The lock is given up.
    pub fn poison(&mut self)
        requires
            old(self).wf(),
        ensures
            final(self).wf(),
            final(self)@ == old(self)@.with_state(WritePipeState::Poisoned),
    {
        self.state = WritePipeState::Poisoned;
    }

    /// Gives the connection up without shutting it down, and says what has to be sent so that the
    /// stream stays in order: the rest of a frame that has been sent in part, then the header that
    /// closes the connection. A frame of which nothing has been sent is lost.
    pub fn drop_plan(&mut self) -> (r: DropPlan<L>)
        requires
            old(self).wf(),
            old(self)@.state is Writing ==> old(self)@.in_place(),
        ensures
            final(self).wf(),
            final(self)@ == old(self)@.with_state(WritePipeState::Poisoned),
            match old(self)@.state {
                WritePipeState::Writing(_, WriteState::Buffering) => {
                    &&& r matches DropPlan::Lock { eof }
                    &&& eof@ == protocol::header_bytes(old(self)@.packet.addr, 0)
                },
                WritePipeState::Writing(_, WriteState::Flushing { lock, written }) => {
                    &&& r matches DropPlan::Locked { lock: held, rest, eof }
                    &&& held == lock
                    &&& rest@ == old(self)@.left_behind()
                    &&& eof@ == protocol::header_bytes(old(self)@.packet.addr, 0)
                },
                _ => r is Nothing,
            },
    {
        let eof: Vec<u8> = MuxFrameHeader::empty(self.buffer.addr()).bytes();
        let mut state: WritePipeState<W, L> = WritePipeState::Poisoned;
        core::mem::swap(&mut state, &mut self.state);
        match state {
            WritePipeState::Writing(_, WriteState::Buffering) => DropPlan::Lock { eof },
            WritePipeState::Writing(_, WriteState::Flushing { lock, written }) => {
                let rest: Vec<u8> = if written == 0 {
                    Vec::new()
                } else {
                    vstd::slice::slice_to_vec(self.buffer.bytes_from(written))
                };
                assert(written == 0 ==> rest@ =~= seq![]);
                DropPlan::Locked { lock, rest, eof }
            },
            _ => DropPlan::Nothing,
        }
    }
}

/// Turns from the last frame, which has been sent, to the header that closes the connection.
fn start_closing<L>(flushed: ShutDownState<L>) -> (r: ShutDownState<L>)
    requires
        flushed is Flushing,
    ensures
        r == (ShutDownState::Writing { lock: flushed->Flushing_lock, written: 0 }),
{
    match flushed {
        ShutDownState::Flushing { lock, .. } => ShutDownState::Writing { lock, written: 0 },
        other => other,
    }
}

/// Takes the right to write away from a connection, and with it the waker of the task that last
/// wrote.
fn shut_down<W, L>(open: WritePipeState<W, L>) -> (r: (W, WritePipeState<W, L>))
    requires
        open is Writing,
    ensures
        r.0 == open->Writing_0,
        r.1 == WritePipeState::<W, L>::Shutdown(
            match open->Writing_1 {
                WriteState::Buffering => ShutDownState::WaitingLock,
                WriteState::Flushing { lock, written } => ShutDownState::Flushing {
                    lock,
                    written,
                },
            },
        ),
{
    match open {
        WritePipeState::Writing(waker, WriteState::Buffering) => (
            waker,
            WritePipeState::Shutdown(ShutDownState::WaitingLock),
        ),
        WritePipeState::Writing(waker, WriteState::Flushing { lock, written }) => (
            waker,
            WritePipeState::Shutdown(ShutDownState::Flushing { lock, written }),
        ),
        _ => vstd::pervasive::unreached(),
    }
}

/// Takes the lock, if it could be had, and with it starts sending the frame from its beginning.
fn poll_locked<W, L>(state: &mut WritePipeState<W, L>, lock: Poll<L>) -> (r: Poll<()>)
    requires
        *old(state) matches WritePipeState::Writing(_, WriteState::Buffering),
    ensures
        match lock {
            Poll::Ready(lock) => {
                &&& r == Poll::Ready(())
                &&& *final(state) == WritePipeState::Writing(
                    old(state)->Writing_0,
                    WriteState::Flushing { lock, written: 0 },
                )
            },
            Poll::Pending => {
                &&& r == Poll::<()>::Pending
                &&& *final(state) == *old(state)
            },
        },
{
    match lock {
        Poll::Ready(lock) => {
            if let WritePipeState::Writing(_, write_state) = state {
                *write_state = WriteState::Flushing { lock, written: 0 };
            }
            Poll::Ready(())
        },
        Poll::Pending => Poll::Pending,
    }
}

} // verus!
