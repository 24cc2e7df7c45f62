//! What each call of the sending side comes to.
//!
//! The laws here speak of what a caller hands to a call and what it gets back, of the frame, and of
//! who holds the lock. What the calls of a connection come to together is said in
//! [`crate::stream`] and [`crate::shared`].
use crate::error::{Fault, MuxError};
use crate::packet_buffer;
use crate::packet_buffer::PacketBuffer;
use crate::poll::Poll;
use crate::protocol;
use crate::protocol::PACKET_SIZE;
use crate::thin_addr::SocketAddr;
use crate::write::{
    flush_buf, flush_buf_sent, DoneResult, DropPlan, FlushProgress, ShutDownState, Step,
    WriteCall, WriteCounter, WriteInner, WritePipeState, WriteResult, WriteState, WriteView,
};
use vstd::prelude::*;

verus! {

/// The whole frame as it stands on the wire.
pub open spec fn whole<W, L>(v: WriteView<W, L>) -> Seq<u8> {
    protocol::frame_bytes(v.packet.addr, v.packet.data)
}

/// The first `sent` bytes of the frame, followed by `rest`, are the frame.
pub open spec fn parted<W, L>(v: WriteView<W, L>, sent: nat, rest: Seq<u8>) -> bool {
    sent <= whole(v).len() && whole(v).take(sent as int) + rest == whole(v)
}

/// What the beginning of a write has to satisfy: it takes from the front of what is offered, and
/// leaves nothing that fits into the frame. It ends if it has taken everything and nothing is being
/// sent, and then says so. If not it goes on: by sending if a frame is being sent, and by asking for
/// the lock if the frame is full.
pub open spec fn write_begun<W, L, E>(
    before: WriteView<W, L>,
    after: WriteView<W, L>,
    waker: W,
    buf: Seq<u8>,
    taken: nat,
    r: Step<WriteResult<E>>,
) -> bool {
    let sending = before.state->Writing_1 is Flushing;
    let written = if sending {
        before.state->Writing_1->written as nat
    } else {
        0
    };
    &&& taken <= buf.len()
    &&& after.packet.addr == before.packet.addr
    &&& after.packet.data == before.packet.data + buf.take(taken as int)
    &&& after.packet.data.len() <= PACKET_SIZE
    &&& after.state == WritePipeState::Writing(waker, before.state->Writing_1)
    &&& taken == buf.len() || packet_buffer::settled(after.packet, written)
    &&& r is Send <==> sending && buf.len() > 0
    &&& r is Lock <==> !sending && taken < buf.len()
    &&& r is Lock ==> after.packet.data.len() == PACKET_SIZE
    &&& r !is Flush
    &&& r matches Step::Return(answer) ==> {
        &&& taken == buf.len()
        &&& answer == WriteResult::<E>::Ready(Ok(buf.len() as usize))
    }
}

/// A write begins as it has to. One to a connection that has been shut down is refused, and takes
/// nothing.
pub proof fn law_write_begins<W, L, E>(waker: W, r: Step<WriteResult<E>>)
    ensures
        forall|inner: &mut WriteInner<W, L>, call: &mut WriteCall<'_>|
            #[trigger] call_ensures(WriteInner::<W, L>::poll_write::<E>, (inner, call, waker), r)
                && inner.wf() && call.wf() && call.spec_wrote() == 0 && inner@.state is Writing && (
            call.spec_buf().len() > 0 ==> inner@.in_place()) ==> {
                &&& final(call).spec_buf() == call.spec_buf()
                &&& write_begun(
                    inner@,
                    final(inner)@,
                    waker,
                    call.spec_buf(),
                    final(call).spec_wrote(),
                    r,
                )
            },
        forall|inner: &mut WriteInner<W, L>, call: &mut WriteCall<'_>|
            #[trigger] call_ensures(WriteInner::<W, L>::poll_write::<E>, (inner, call, waker), r)
                && inner@.state is Shutdown ==> {
                &&& r == Step::Return(
                    WriteResult::<E>::Ready(Err(MuxError::Fault(Fault::Closed))),
                )
                &&& final(inner)@ == inner@
                &&& final(call).spec_wrote() == 0
            },
{
    assert forall|inner: &mut WriteInner<W, L>, call: &mut WriteCall<'_>|
        #[trigger] call_ensures(WriteInner::<W, L>::poll_write::<E>, (inner, call, waker), r)
            && inner.wf() && call.wf() && call.spec_wrote() == 0 && inner@.state is Writing && (
        call.spec_buf().len() > 0 ==> inner@.in_place()) implies write_begun(
        inner@,
        final(inner)@,
        waker,
        call.spec_buf(),
        final(call).spec_wrote(),
        r,
    ) by {
        let written = match inner@.state->Writing_1 {
            WriteState::Flushing { written, .. } => written as nat,
            WriteState::Buffering => 0,
        };
        if call.spec_buf().len() > 0 {
            packet_buffer::law_push_takes_all_that_fits(inner@.packet, call.spec_buf(), written);
        }
        assert(inner@.packet.data + call.spec_buf().take(0) =~= inner@.packet.data);
    }
}

/// A write that gets the lock sends its frame from the beginning. One that does not changes nothing,
/// and ends: with what it has taken, if it has taken anything.
pub proof fn law_write_with_and_without_the_lock<W, L, E>(
    call: &WriteCall<'_>,
    lock: Poll<L>,
    r: Step<WriteResult<E>>,
)
    ensures
        forall|inner: &mut WriteInner<W, L>|
            #[trigger] call_ensures(WriteInner::<W, L>::write_locked::<E>, (inner, call, lock), r)
                && inner@.state is Writing ==> match lock {
                Poll::Ready(held) => {
                    &&& r is Send
                    &&& final(inner)@.packet == inner@.packet
                    &&& final(inner)@.state == WritePipeState::Writing(
                        inner@.state->Writing_0,
                        WriteState::Flushing { lock: held, written: 0 },
                    )
                },
                Poll::Pending => {
                    &&& final(inner)@ == inner@
                    &&& r matches Step::Return(answer)
                    &&& call.spec_wrote() == 0 ==> answer is Pending
                    &&& call.spec_wrote() > 0 ==> answer == WriteResult::<E>::Ready(
                        Ok(call.spec_wrote() as usize),
                    )
                },
            },
{
}

/// What a write has to satisfy when the stream has answered the offer of the rest of the frame. As
/// long as the stream takes something the write does not fail. While part of the frame is left it
/// goes on sending, under the lock. When the frame is gone the lock is given up, and as much of what
/// is left to write as fits goes into the next frame: the write ends when that is all, and says that
/// everything has been taken. It fails if the stream takes nothing or fails, and only then.
pub open spec fn write_answered<W, L, E>(
    before: WriteView<W, L>,
    after: WriteView<W, L>,
    buf: Seq<u8>,
    wrote: nat,
    taken: nat,
    outcome: Poll<Result<usize, E>>,
    r: Step<WriteResult<E>>,
) -> bool {
    let waker = before.state->Writing_0;
    let lock = before.state->Writing_1->lock;
    let written = before.state->Writing_1->written;
    match outcome {
        Poll::Ready(Ok(n)) if n > 0 => {
            &&& r !is Flush
            &&& r matches Step::Return(answer) ==> {
                &&& taken == buf.len()
                &&& answer == WriteResult::<E>::Ready(Ok(buf.len() as usize))
            }
            &&& if written + n < whole(before).len() {
                &&& r is Send
                &&& taken == wrote
                &&& after.packet == before.packet
                &&& after.state == WritePipeState::Writing(
                    waker,
                    WriteState::Flushing { lock, written: (written + n) as u32 },
                )
            } else {
                &&& r !is Send
                &&& wrote <= taken <= buf.len()
                &&& after.packet.addr == before.packet.addr
                &&& after.packet.data == buf.subrange(wrote as int, taken as int)
                &&& after.packet.data.len() <= PACKET_SIZE
                &&& after.state == WritePipeState::Writing(waker, WriteState::<L>::Buffering)
                &&& r is Lock <==> taken < buf.len()
                &&& r is Lock ==> after.packet.data.len() == PACKET_SIZE
            }
        },
        Poll::Ready(answer) => {
            &&& r == Step::Return(
                WriteResult::<E>::Ready(
                    Err(
                        match answer {
                            Ok(_) => MuxError::Fault(Fault::FlushStalled),
                            Err(e) => MuxError::Stream(e),
                        },
                    ),
                ),
            )
            &&& taken == wrote
            &&& after.packet == before.packet
            &&& after.state == WritePipeState::Writing(waker, WriteState::<L>::Buffering)
        },
        Poll::Pending => {
            &&& after == before
            &&& taken == wrote
            &&& r matches Step::Return(answer)
            &&& wrote == 0 ==> answer is Pending
            &&& wrote > 0 ==> answer == WriteResult::<E>::Ready(Ok(wrote as usize))
        },
    }
}

/// A write goes on as it has to when the stream has answered.
pub proof fn law_write_goes_on<W, L, E>(outcome: Poll<Result<usize, E>>, r: Step<WriteResult<E>>)
    ensures
        forall|inner: &mut WriteInner<W, L>, call: &mut WriteCall<'_>|
            #[trigger] call_ensures(WriteInner::<W, L>::write_sent::<E>, (inner, call, outcome), r)
                && inner.wf() && call.wf() && inner@.state is Writing && inner@.state->Writing_1
                is Flushing && inner@.packet.data.len() > 0 && (outcome matches Poll::Ready(Ok(n))
                ==> inner@.state->Writing_1->written + n <= whole(inner@).len()) ==> {
                &&& final(call).spec_buf() == call.spec_buf()
                &&& write_answered(
                    inner@,
                    final(inner)@,
                    call.spec_buf(),
                    call.spec_wrote(),
                    final(call).spec_wrote(),
                    outcome,
                    r,
                )
            },
{
    assert forall|inner: &mut WriteInner<W, L>, call: &mut WriteCall<'_>|
        #[trigger] call_ensures(WriteInner::<W, L>::write_sent::<E>, (inner, call, outcome), r)
            && inner.wf() && call.wf() && inner@.state is Writing && inner@.state->Writing_1
            is Flushing && inner@.packet.data.len() > 0 && (outcome matches Poll::Ready(Ok(n))
            ==> inner@.state->Writing_1->written + n <= whole(inner@).len()) implies write_answered(
        inner@,
        final(inner)@,
        call.spec_buf(),
        call.spec_wrote(),
        final(call).spec_wrote(),
        outcome,
        r,
    ) by {
        let buf = call.spec_buf();
        let wrote = call.spec_wrote();
        let taken = final(call).spec_wrote();
        if wrote <= taken <= buf.len() {
            assert(Seq::<u8>::empty() + buf.skip(wrote as int).take(taken - wrote) =~= buf.subrange(
                wrote as int,
                taken as int,
            ));
            assert(buf.subrange(wrote as int, wrote as int) =~= seq![]);
        }
    }
}

/// A flush never ends where it begins: the lock is needed if it is not held, then the frame has to
/// be sent if it carries anything, and then the stream has to be flushed. A flush of a connection
/// that has been shut down is refused.
pub proof fn law_flush_begins<W, L, E>(waker: W, r: Step<DoneResult<E>>)
    ensures
        forall|inner: &mut WriteInner<W, L>|
            #[trigger] call_ensures(WriteInner::<W, L>::poll_flush::<E>, (inner, waker), r)
                && inner@.state is Writing ==> {
                &&& r !is Return
                &&& r is Lock <==> inner@.state->Writing_1 is Buffering
                &&& r is Flush ==> inner@.packet.data.len() == 0
                &&& r is Send ==> inner@.packet.data.len() > 0
                &&& final(inner)@.packet == inner@.packet
                &&& final(inner)@.state == WritePipeState::Writing(waker, inner@.state->Writing_1)
            },
        forall|inner: &mut WriteInner<W, L>|
            #[trigger] call_ensures(WriteInner::<W, L>::poll_flush::<E>, (inner, waker), r)
                && inner@.state is Shutdown ==> {
                &&& r == Step::Return(DoneResult::<E>::Ready(Err(MuxError::Fault(Fault::Closed))))
                &&& final(inner)@ == inner@
            },
{
}

/// A flush that gets the lock sends its frame from the beginning if it carries anything, and flushes
/// the stream if not. One that does not changes nothing, and waits.
pub proof fn law_flush_with_and_without_the_lock<W, L, E>(lock: Poll<L>, r: Step<DoneResult<E>>)
    ensures
        forall|inner: &mut WriteInner<W, L>|
            #[trigger] call_ensures(WriteInner::<W, L>::flush_locked::<E>, (inner, lock), r)
                && inner@.state is Writing ==> match lock {
                Poll::Ready(held) => {
                    &&& r is Send || r is Flush
                    &&& r is Send <==> inner@.packet.data.len() > 0
                    &&& final(inner)@.packet == inner@.packet
                    &&& final(inner)@.state == WritePipeState::Writing(
                        inner@.state->Writing_0,
                        WriteState::Flushing { lock: held, written: 0 },
                    )
                },
                Poll::Pending => {
                    &&& r == Step::Return(DoneResult::<E>::Pending)
                    &&& final(inner)@ == inner@
                },
            },
{
}

/// A flush that sends comes to the flushing of the stream when, and only when, the whole frame is
/// gone; the lock is held until then and after. It fails if the stream takes nothing or fails, and
/// never ends otherwise.
pub proof fn law_flush_goes_on<W, L, E>(outcome: Poll<Result<usize, E>>, r: Step<DoneResult<E>>)
    ensures
        forall|inner: &mut WriteInner<W, L>|
            #[trigger] call_ensures(WriteInner::<W, L>::flush_sent::<E>, (inner, outcome), r)
                && inner.wf() && inner@.state is Writing && inner@.state->Writing_1 is Flushing
                && inner@.packet.data.len() > 0 && (outcome matches Poll::Ready(Ok(n))
                ==> inner@.state->Writing_1->written + n <= whole(inner@).len()) ==> {
                let waker = inner@.state->Writing_0;
                let lock = inner@.state->Writing_1->lock;
                let written = inner@.state->Writing_1->written;
                let after = final(inner)@;
                match outcome {
                    Poll::Ready(Ok(n)) if n > 0 => {
                        &&& r is Send || r is Flush
                        &&& r is Flush <==> written + n == whole(inner@).len()
                        &&& r is Flush <==> after.packet.data.len() == 0
                        &&& r is Send ==> after.packet == inner@.packet
                        &&& after.packet.addr == inner@.packet.addr
                        &&& after.state == WritePipeState::Writing(
                            waker,
                            WriteState::Flushing { lock, written: (written + n) as u32 },
                        )
                    },
                    Poll::Ready(answer) => {
                        &&& r == Step::Return(
                            DoneResult::<E>::Ready(
                                Err(
                                    match answer {
                                        Ok(_) => MuxError::Fault(Fault::FlushStalled),
                                        Err(e) => MuxError::Stream(e),
                                    },
                                ),
                            ),
                        )
                        &&& after.packet == inner@.packet
                        &&& after.state == WritePipeState::Writing(waker, WriteState::<L>::Buffering)
                    },
                    Poll::Pending => {
                        &&& r == Step::Return(DoneResult::<E>::Pending)
                        &&& after == inner@
                    },
                }
            },
{
}

/// A flush ends when the stream has been flushed, with what the stream answered, and gives up the
/// lock.
pub proof fn law_flush_ends<W, L, E>(outcome: Poll<Result<(), E>>, r: Step<DoneResult<E>>)
    ensures
        forall|inner: &mut WriteInner<W, L>|
            #[trigger] call_ensures(WriteInner::<W, L>::flush_flushed::<E>, (inner, outcome), r)
                && inner@.state is Writing ==> {
                let after = final(inner)@;
                &&& after.packet == inner@.packet
                &&& r matches Step::Return(answer)
                &&& match outcome {
                    Poll::Ready(result) => {
                        &&& answer matches Poll::Ready(told)
                        &&& told is Ok <==> result is Ok
                        &&& told matches Err(e) ==> e == MuxError::Stream(result->Err_0)
                        &&& after.state == WritePipeState::Writing(
                            inner@.state->Writing_0,
                            WriteState::<L>::Buffering,
                        )
                    },
                    Poll::Pending => {
                        &&& answer is Pending
                        &&& after == inner@
                    },
                }
            },
{
}

/// A shutdown that begins, or is taken up, ends at once only if the connection is closed or has
/// failed. If not, the lock is needed first; with it the frame is sent on if it carries anything, and
/// the header that closes the connection from its beginning if not. Whoever last wrote is woken when
/// the shutdown begins, and only then.
pub proof fn law_shutdown_begins<W, L, E>(r: (Option<W>, Step<DoneResult<E>>))
    ensures
        forall|inner: &mut WriteInner<W, L>|
            #[trigger] call_ensures(WriteInner::<W, L>::poll_shutdown::<E>, (inner,), r)
                && inner@.state !is Poisoned ==> {
                let before = inner@.state;
                let after = final(inner)@.state;
                let empty = inner@.packet.data.len() == 0;
                &&& final(inner)@.packet == inner@.packet
                &&& after is Shutdown
                &&& r.0 == if before is Writing {
                    Some(before->Writing_0)
                } else {
                    None
                }
                &&& r.1 == Step::Return(DoneResult::<E>::Ready(Ok(()))) <==> before
                    == WritePipeState::<W, L>::Shutdown(ShutDownState::Done)
                &&& r.1 matches Step::Return(Poll::Ready(Err(e))) ==> e == MuxError::<E>::Fault(
                    Fault::ShutdownFailed,
                ) && before == WritePipeState::<W, L>::Shutdown(ShutDownState::Error)
                &&& r.1 != Step::Return(DoneResult::<E>::Pending)
                &&& r.1 !is Flush
                &&& match before {
                    WritePipeState::Writing(_, WriteState::Buffering) => {
                        &&& r.1 is Lock
                        &&& after->Shutdown_0 is WaitingLock
                    },
                    WritePipeState::Writing(_, WriteState::Flushing { lock, written }) => {
                        &&& r.1 is Send
                        &&& after->Shutdown_0 == if empty {
                            ShutDownState::Writing { lock, written: 0 }
                        } else {
                            ShutDownState::Flushing { lock, written }
                        }
                    },
                    WritePipeState::Shutdown(ShutDownState::WaitingLock) => {
                        &&& r.1 is Lock
                        &&& after == before
                    },
                    WritePipeState::Shutdown(ShutDownState::Flushing { lock, .. }) => {
                        &&& r.1 is Send
                        &&& after == if empty {
                            WritePipeState::Shutdown(ShutDownState::Writing { lock, written: 0 })
                        } else {
                            before
                        }
                    },
                    WritePipeState::Shutdown(ShutDownState::Writing { .. }) => {
                        &&& r.1 is Send
                        &&& after == before
                    },
                    _ => {
                        &&& r.1 is Return
                        &&& after == before
                    },
                }
            },
{
}

/// A shutdown that gets the lock sends its frame from the beginning if it carries anything, and the
/// header that closes the connection if not. One that does not changes nothing, and waits.
pub proof fn law_shutdown_with_and_without_the_lock<W, L, E>(
    lock: Poll<L>,
    r: Step<DoneResult<E>>,
)
    ensures
        forall|inner: &mut WriteInner<W, L>| #[trigger]
            call_ensures(WriteInner::<W, L>::shutdown_locked::<E>, (inner, lock), r) ==> match lock {
                Poll::Ready(held) => {
                    &&& r is Send
                    &&& final(inner)@.packet == inner@.packet
                    &&& final(inner)@.state == WritePipeState::<W, L>::Shutdown(
                        if inner@.packet.data.len() > 0 {
                            ShutDownState::Flushing { lock: held, written: 0 }
                        } else {
                            ShutDownState::Writing { lock: held, written: 0 }
                        },
                    )
                },
                Poll::Pending => {
                    &&& r == Step::Return(DoneResult::<E>::Pending)
                    &&& final(inner)@ == inner@
                },
            },
{
}

/// A shutdown that sends succeeds when, and only when, the last byte of the header that closes the
/// connection is gone, and the connection is then closed. When the last byte of the frame is gone
/// that header comes next, from its beginning and under the same lock. A shutdown fails if the stream
/// takes nothing or fails, and it has then failed for good.
pub proof fn law_shutdown_goes_on<W, L, E>(outcome: Poll<Result<usize, E>>, r: Step<DoneResult<E>>)
    ensures
        forall|inner: &mut WriteInner<W, L>|
            #[trigger] call_ensures(WriteInner::<W, L>::shutdown_sent::<E>, (inner, outcome), r)
                && inner.wf() && inner@.awaits_shutdown(Step::<()>::Send) && (
            outcome matches Poll::Ready(Ok(n)) ==> n <= inner@.unsent().len()) ==> {
                let closing = inner@.state->Shutdown_0 is Writing;
                let lock = inner@.lock()->0;
                let written = inner@.sending()->0;
                let after = final(inner)@;
                let done = WritePipeState::<W, L>::Shutdown(ShutDownState::Done);
                &&& r == Step::Return(DoneResult::<E>::Ready(Ok(()))) <==> after.state == done
                &&& after.state == done <==> closing && (outcome matches Poll::Ready(Ok(n)) && n > 0
                    && written + n == whole(inner@).len())
                &&& match outcome {
                    Poll::Ready(Ok(n)) if n > 0 => {
                        &&& after.packet.addr == inner@.packet.addr
                        &&& r is Send || after.state == done
                        &&& if written + n < whole(inner@).len() {
                            &&& after.packet == inner@.packet
                            &&& after.state == WritePipeState::<W, L>::Shutdown(
                                if closing {
                                    ShutDownState::Writing { lock, written: (written + n) as u8 }
                                } else {
                                    ShutDownState::Flushing { lock, written: (written + n) as u32 }
                                },
                            )
                        } else {
                            &&& after.packet.data.len() == 0
                            &&& !closing ==> after.state == WritePipeState::<W, L>::Shutdown(
                                ShutDownState::Writing { lock, written: 0 },
                            )
                        }
                    },
                    Poll::Ready(answer) => {
                        &&& r == Step::Return(
                            DoneResult::<E>::Ready(
                                Err(
                                    match answer {
                                        Ok(_) => MuxError::Fault(Fault::FlushStalled),
                                        Err(e) => MuxError::Stream(e),
                                    },
                                ),
                            ),
                        )
                        &&& after.packet == inner@.packet
                        &&& after.state == WritePipeState::<W, L>::Shutdown(ShutDownState::Error)
                    },
                    Poll::Pending => {
                        &&& r == Step::Return(DoneResult::<E>::Pending)
                        &&& after == inner@
                    },
                }
            },
{
}

/// While the lock is held some of the frame may have been sent, and only then.
pub proof fn law_lock_and_place<W, L>(v: WriteView<W, L>)
    requires
        v.valid(),
    ensures
        v.lock() is Some <==> v.sending() is Some,
        match v.state {
            WritePipeState::Writing(_, WriteState::Flushing { lock, written }) => v.lock() == Some(
                lock,
            ) && v.sending() == Some(written as nat),
            WritePipeState::Shutdown(ShutDownState::Flushing { lock, written }) => v.lock() == Some(
                lock,
            ) && v.sending() == Some(written as nat),
            WritePipeState::Shutdown(ShutDownState::Writing { lock, written }) => v.lock() == Some(
                lock,
            ) && v.sending() == Some(written as nat),
            _ => v.lock() is None,
        },
        v.has_unsent() ==> parted(v, v.sending()->0, v.unsent()) && v.unsent().len() > 0,
        v.in_place() <==> (v.sending() is Some ==> v.sending()->0 <= whole(v).len()),
        !v.in_place() ==> v.packet.data.len() == 0 && v.sending() is Some,
{
    if v.has_unsent() {
        let w = v.sending()->0;
        assert(whole(v).take(w as int) + whole(v).skip(w as int) =~= whole(v));
    }
}

/// What is offered to the stream is what is left of the frame, and offering it changes nothing but
/// the stream behind the lock.
pub proof fn law_offer_is_the_rest_of_the_frame<W, L>()
    ensures
        forall|inner: &mut WriteInner<W, L>, r: (&mut L, &[u8])|
            #[trigger] call_ensures(WriteInner::<W, L>::unsent, (inner,), r) && inner.wf()
                && inner@.has_unsent() ==> {
                &&& *r.0 == inner@.lock()->0
                &&& r.1@.len() > 0
                &&& parted(inner@, inner@.sending()->0, r.1@)
                &&& final(inner)@.packet == inner@.packet
                &&& final(inner)@.sending() == inner@.sending()
                &&& final(inner)@.lock() == Some(*final(r.0))
                &&& inner@.state is Writing ==> final(inner)@.state is Writing
                    && final(inner)@.state->Writing_0 == inner@.state->Writing_0
                &&& inner@.state is Shutdown ==> final(inner)@.state is Shutdown && (
                inner@.state->Shutdown_0 is Flushing <==> final(inner)@.state->Shutdown_0
                    is Flushing)
            },
        forall|inner: &mut WriteInner<W, L>, r: &mut L|
            #[trigger] call_ensures(WriteInner::<W, L>::held_lock, (inner,), r)
                && inner@.lock() is Some ==> {
                &&& *r == inner@.lock()->0
                &&& final(inner)@.packet == inner@.packet
                &&& final(inner)@.sending() == inner@.sending()
                &&& final(inner)@.lock() == Some(*final(r))
                &&& inner@.state is Writing ==> final(inner)@.state is Writing
                    && final(inner)@.state->Writing_0 == inner@.state->Writing_0
                &&& inner@.state is Shutdown ==> final(inner)@.state is Shutdown && (
                inner@.state->Shutdown_0 is Flushing <==> final(inner)@.state->Shutdown_0
                    is Flushing)
            },
{
    assert forall|inner: &mut WriteInner<W, L>, r: (&mut L, &[u8])|
        #[trigger] call_ensures(WriteInner::<W, L>::unsent, (inner,), r) && inner.wf()
            && inner@.has_unsent() implies r.1@.len() > 0 && parted(
        inner@,
        inner@.sending()->0,
        r.1@,
    ) by {
        law_lock_and_place(inner@);
    }
}

/// A connection that is given up finishes a frame that has been sent in part, and no other, and is
/// then closed. One that has been shut down, or has panicked, has nothing to send.
pub proof fn law_giving_up_finishes_what_was_started<W, L>(r: DropPlan<L>)
    ensures
        forall|inner: &mut WriteInner<W, L>|
            #[trigger] call_ensures(WriteInner::<W, L>::drop_plan, (inner,), r) && inner.wf() && (
            inner@.state is Writing ==> inner@.in_place()) ==> {
                &&& final(inner)@.state is Poisoned
                &&& final(inner)@.packet == inner@.packet
                &&& r is Nothing <==> inner@.state !is Writing
                &&& r is Lock <==> inner@.state is Writing && inner@.state->Writing_1 is Buffering
                &&& r matches DropPlan::Lock { eof } ==> eof@ == protocol::header_bytes(
                    inner@.packet.addr,
                    0,
                )
                &&& r matches DropPlan::Locked { lock, rest, eof } ==> {
                    let written = inner@.state->Writing_1->written as nat;
                    &&& lock == inner@.state->Writing_1->lock
                    &&& written > 0 ==> parted(inner@, written, rest@) && rest@.len() > 0
                    &&& written == 0 ==> rest@.len() == 0
                    &&& eof@ == protocol::header_bytes(inner@.packet.addr, 0)
                }
            },
{
    assert forall|inner: &mut WriteInner<W, L>|
        #[trigger] call_ensures(WriteInner::<W, L>::drop_plan, (inner,), r) && inner.wf() && (
        inner@.state is Writing ==> inner@.in_place()) implies (
    r matches DropPlan::Locked { lock, rest, eof } ==> {
        let written = inner@.state->Writing_1->written as nat;
        &&& written > 0 ==> parted(inner@, written, rest@) && rest@.len() > 0
        &&& written == 0 ==> rest@.len() == 0
    }) by {
        law_lock_and_place(inner@);
    }
}

/// A new connection has an empty frame of its own, and is opened by a header that names it and
/// announces nothing.
pub proof fn law_new_connection<W, L>(socket: SocketAddr, waker: W, inner: WriteInner<W, L>)
    ensures
        call_ensures(WriteInner::<W, L>::new, (socket, waker), inner) ==> {
            &&& inner.wf()
            &&& inner@.packet.addr == socket
            &&& inner@.packet.data.len() == 0
            &&& inner@.state == WritePipeState::Writing(waker, WriteState::<L>::Buffering)
        },
        forall|r: SocketAddr| #[trigger]
            call_ensures(WriteInner::<W, L>::addr, (&inner,), r) ==> r == inner@.packet.addr,
        forall|r: bool| #[trigger]
            call_ensures(WriteInner::<W, L>::can_handshake, (&inner,), r) ==> (r <==> (inner@.state
                is Writing && inner@.state->Writing_1 is Buffering && inner@.packet.data.len()
                == 0)),
        forall|r: &[u8]| #[trigger]
            call_ensures(WriteInner::<W, L>::handshake, (&inner,), r) ==> r@
                == protocol::header_bytes(inner@.packet.addr, 0),
        forall|r: bool| #[trigger]
            call_ensures(WriteInner::<W, L>::is_in_place, (&inner,), r) ==> (r <==> (
            inner@.sending() is Some ==> inner@.sending()->0 <= whole(inner@).len())),
        forall|r: bool| #[trigger]
            call_ensures(WriteInner::<W, L>::is_poisoned, (&inner,), r) ==> (r <==> inner@.state
                is Poisoned),
{
}

/// A panic takes the right to do anything away from a connection, and leaves its frame as it is.
pub proof fn law_panic_poisons<W, L>()
    ensures
        forall|inner: &mut WriteInner<W, L>| #[trigger]
            call_ensures(WriteInner::<W, L>::poison, (inner,), ()) ==> final(inner)@.state is Poisoned
                && final(inner)@.packet == inner@.packet,
{
}

/// A frame is emptied when, and only when, its last byte is gone. Until then it stays as it is, and
/// the count grows by what the stream has taken.
pub proof fn law_frame_is_sent_to_its_end<C: WriteCounter, E>(
    outcome: Poll<Result<usize, E>>,
    r: FlushProgress<E>,
    written: C,
    gone: bool,
)
    ensures
        forall|buffer: &mut PacketBuffer| #[trigger]
            call_ensures(flush_buf::<C>, (buffer, &written), gone) ==> {
                let len = protocol::frame_bytes(buffer@.addr, buffer@.data).len();
                &&& gone <==> written.count() == len
                &&& final(buffer)@.addr == buffer@.addr
                &&& gone ==> final(buffer)@.data.len() == 0
                &&& !gone ==> final(buffer)@ == buffer@
            },
        forall|buffer: &mut PacketBuffer, count: &mut C|
            #[trigger] call_ensures(flush_buf_sent::<C, E>, (buffer, count, outcome), r) && (
            outcome matches Poll::Ready(Ok(n)) ==> count.count() + n <= protocol::frame_bytes(
                buffer@.addr,
                buffer@.data,
            ).len()) ==> {
                let len = protocol::frame_bytes(buffer@.addr, buffer@.data).len();
                let ended = outcome matches Poll::Ready(Ok(n)) && n > 0 && count.count() + n == len;
                &&& r == FlushProgress::<E>::Ready(Ok(())) <==> ended
                &&& r is Send <==> (outcome matches Poll::Ready(Ok(n)) && n > 0) && !ended
                &&& r is Pending <==> outcome is Pending
                &&& r matches FlushProgress::Ready(Err(MuxError::Stream(e))) ==> outcome
                    == Poll::<Result<usize, E>>::Ready(Err(e))
                &&& r matches FlushProgress::Ready(Err(MuxError::Fault(f))) ==> outcome
                    == Poll::<Result<usize, E>>::Ready(Ok(0)) && f == Fault::FlushStalled
                &&& final(buffer)@.addr == buffer@.addr
                &&& ended ==> final(buffer)@.data.len() == 0
                &&& !ended ==> final(buffer)@ == buffer@
                &&& final(count).count() == match outcome {
                    Poll::Ready(Ok(n)) => count.count() + n as nat,
                    _ => count.count(),
                }
            },
{
}

/// A counter counts what it holds, and its width is its limit.
pub proof fn law_counters(narrow: u8, wide: u32)
    ensures
        narrow.count() == narrow < <u8 as WriteCounter>::limit() == u8::MAX + 1,
        wide.count() == wide < <u32 as WriteCounter>::limit() == u32::MAX + 1,
{
}

/// A write has taken as much as it says, and has the rest of what was offered to take.
pub proof fn law_write_call(buf: &[u8], call: WriteCall<'_>)
    ensures
        call_ensures(WriteCall::new, (buf,), call) ==> call.wf() && call.spec_buf() == buf@
            && call.spec_wrote() == 0,
        forall|n: usize| #[trigger]
            call_ensures(WriteCall::wrote, (&call,), n) ==> n == call.spec_wrote(),
        forall|rest: &[u8]|
            #[trigger] call_ensures(WriteCall::rest, (&call,), rest) && call.wf()
                ==> call.spec_buf().take(call.spec_wrote() as int) + rest@ == call.spec_buf(),
{
    assert(call.wf() ==> call.spec_buf().take(call.spec_wrote() as int) + call.spec_rest()
        =~= call.spec_buf());
}

/// The step of a write that comes next can be taken, whatever the lock or the stream answers.
pub open spec fn write_can_go_on<W, L, E>(
    inner: WriteInner<W, L>,
    call: WriteCall<'_>,
    r: Step<WriteResult<E>>,
) -> bool {
    &&& inner.wf()
    &&& r is Lock ==> forall|next: &mut WriteInner<W, L>, lock: Poll<L>|
        *next == inner ==> #[trigger] call_requires(
            WriteInner::<W, L>::write_locked::<E>,
            (next, &call, lock),
        )
    &&& r is Send ==> forall|
        next: &mut WriteInner<W, L>,
        again: &mut WriteCall<'_>,
        outcome: Poll<Result<usize, E>>,
    |
        *next == inner && *again == call && (outcome matches Poll::Ready(Ok(n)) ==> n
            <= inner@.unsent().len()) ==> #[trigger] call_requires(
            WriteInner::<W, L>::write_sent::<E>,
            (next, again, outcome),
        )
    &&& r is Send ==> forall|next: &mut WriteInner<W, L>|
        *next == inner ==> #[trigger] call_requires(WriteInner::<W, L>::unsent, (next,))
}

/// A write can always go on: it can be begun where it makes sense, and each of its steps leads to one
/// that can be taken.
pub proof fn law_write_can_go_on<W, L, E>(
    waker: W,
    lock: Poll<L>,
    outcome: Poll<Result<usize, E>>,
    r: Step<WriteResult<E>>,
)
    ensures
        forall|inner: &mut WriteInner<W, L>, call: &mut WriteCall<'_>|
            inner.wf() && call.wf() && call.spec_wrote() == 0 && inner@.state !is Poisoned
                && inner@.in_place() ==> #[trigger] call_requires(
                WriteInner::<W, L>::poll_write::<E>,
                (inner, call, waker),
            ),
        forall|inner: &mut WriteInner<W, L>, call: &mut WriteCall<'_>| #[trigger]
            call_ensures(WriteInner::<W, L>::poll_write::<E>, (inner, call, waker), r)
                ==> write_can_go_on(*final(inner), *final(call), r),
        forall|inner: &mut WriteInner<W, L>, call: &WriteCall<'_>|
            #[trigger] call_ensures(WriteInner::<W, L>::write_locked::<E>, (inner, call, lock), r)
                && call.wf() ==> write_can_go_on(*final(inner), *call, r),
        forall|inner: &mut WriteInner<W, L>, call: &mut WriteCall<'_>| #[trigger]
            call_ensures(WriteInner::<W, L>::write_sent::<E>, (inner, call, outcome), r)
                ==> write_can_go_on(*final(inner), *final(call), r),
{
}

/// The step of a flush that comes next can be taken, whatever the lock or the stream answers.
pub open spec fn flush_can_go_on<W, L, E>(
    inner: WriteInner<W, L>,
    r: Step<DoneResult<E>>,
) -> bool {
    &&& inner.wf()
    &&& r is Lock ==> forall|next: &mut WriteInner<W, L>, lock: Poll<L>|
        *next == inner ==> #[trigger] call_requires(
            WriteInner::<W, L>::flush_locked::<E>,
            (next, lock),
        )
    &&& r is Send ==> forall|next: &mut WriteInner<W, L>, outcome: Poll<Result<usize, E>>|
        *next == inner && (outcome matches Poll::Ready(Ok(n)) ==> n <= inner@.unsent().len())
            ==> #[trigger] call_requires(WriteInner::<W, L>::flush_sent::<E>, (next, outcome))
    &&& r is Send ==> forall|next: &mut WriteInner<W, L>|
        *next == inner ==> #[trigger] call_requires(WriteInner::<W, L>::unsent, (next,))
    &&& r is Flush ==> forall|next: &mut WriteInner<W, L>, outcome: Poll<Result<(), E>>|
        *next == inner ==> #[trigger] call_requires(
            WriteInner::<W, L>::flush_flushed::<E>,
            (next, outcome),
        )
    &&& r is Flush ==> forall|next: &mut WriteInner<W, L>|
        *next == inner ==> #[trigger] call_requires(WriteInner::<W, L>::held_lock, (next,))
}

/// A flush can always go on: it can be begun, and each of its steps leads to one that can be taken.
pub proof fn law_flush_can_go_on<W, L, E>(
    waker: W,
    lock: Poll<L>,
    outcome: Poll<Result<usize, E>>,
    flushed: Poll<Result<(), E>>,
    r: Step<DoneResult<E>>,
)
    ensures
        forall|inner: &mut WriteInner<W, L>|
            inner.wf() && inner@.state !is Poisoned ==> #[trigger] call_requires(
                WriteInner::<W, L>::poll_flush::<E>,
                (inner, waker),
            ),
        forall|inner: &mut WriteInner<W, L>| #[trigger]
            call_ensures(WriteInner::<W, L>::poll_flush::<E>, (inner, waker), r)
                ==> flush_can_go_on(*final(inner), r),
        forall|inner: &mut WriteInner<W, L>| #[trigger]
            call_ensures(WriteInner::<W, L>::flush_locked::<E>, (inner, lock), r)
                ==> flush_can_go_on(*final(inner), r),
        forall|inner: &mut WriteInner<W, L>| #[trigger]
            call_ensures(WriteInner::<W, L>::flush_sent::<E>, (inner, outcome), r)
                ==> flush_can_go_on(*final(inner), r),
        forall|inner: &mut WriteInner<W, L>| #[trigger]
            call_ensures(WriteInner::<W, L>::flush_flushed::<E>, (inner, flushed), r)
                ==> flush_can_go_on(*final(inner), r),
{
}

/// The step of a shutdown that comes next can be taken, whatever the lock or the stream answers.
pub open spec fn shutdown_can_go_on<W, L, E>(
    inner: WriteInner<W, L>,
    r: Step<DoneResult<E>>,
) -> bool {
    &&& inner.wf()
    &&& r is Lock ==> forall|next: &mut WriteInner<W, L>, lock: Poll<L>|
        *next == inner ==> #[trigger] call_requires(
            WriteInner::<W, L>::shutdown_locked::<E>,
            (next, lock),
        )
    &&& r is Send ==> forall|next: &mut WriteInner<W, L>, outcome: Poll<Result<usize, E>>|
        *next == inner && (outcome matches Poll::Ready(Ok(n)) ==> n <= inner@.unsent().len())
            ==> #[trigger] call_requires(WriteInner::<W, L>::shutdown_sent::<E>, (next, outcome))
    &&& r is Send ==> forall|next: &mut WriteInner<W, L>|
        *next == inner ==> #[trigger] call_requires(WriteInner::<W, L>::unsent, (next,))
}

/// A shutdown can always go on: it can be begun, and each of its steps leads to one that can be
/// taken.
pub proof fn law_shutdown_can_go_on<W, L, E>(
    lock: Poll<L>,
    outcome: Poll<Result<usize, E>>,
    begun: (Option<W>, Step<DoneResult<E>>),
    r: Step<DoneResult<E>>,
)
    ensures
        forall|inner: &mut WriteInner<W, L>|
            inner.wf() && inner@.state !is Poisoned ==> #[trigger] call_requires(
                WriteInner::<W, L>::poll_shutdown::<E>,
                (inner,),
            ),
        forall|inner: &mut WriteInner<W, L>| #[trigger]
            call_ensures(WriteInner::<W, L>::poll_shutdown::<E>, (inner,), begun)
                ==> shutdown_can_go_on(*final(inner), begun.1),
        forall|inner: &mut WriteInner<W, L>| #[trigger]
            call_ensures(WriteInner::<W, L>::shutdown_locked::<E>, (inner, lock), r)
                ==> shutdown_can_go_on(*final(inner), r),
        forall|inner: &mut WriteInner<W, L>| #[trigger]
            call_ensures(WriteInner::<W, L>::shutdown_sent::<E>, (inner, outcome), r)
                ==> shutdown_can_go_on(*final(inner), r),
{
}

} // verus!
