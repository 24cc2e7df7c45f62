//! What a connection puts onto the stream.
//!
//! As long as the stream does not fail, that is whole frames, which carry what was written in the
//! order in which it was written, and of the frame that is being sent as much as the connection has
//! sent while it held the lock.
use crate::error::{Fault, MuxError};
use crate::packet_buffer;
use crate::poll::Poll;
use crate::protocol;
use crate::protocol::{HEADER_SIZE, PACKET_SIZE};
use crate::thin_addr::SocketAddr;
use crate::write::{
    DoneResult, ShutDownState, Step, Turn, WritePipeState, WriteResult, WriteState, WriteTurn,
    WriteView,
};
use vstd::prelude::*;

verus! {

/// The payloads one after the other.
pub open spec fn joined(payloads: Seq<Seq<u8>>) -> Seq<u8>
    decreases payloads.len(),
{
    if payloads.len() == 0 {
        seq![]
    } else {
        joined(payloads.drop_last()) + payloads.last()
    }
}

/// What stands on the wire for frames of the connection `socket` with these payloads.
pub open spec fn frames_bytes(socket: SocketAddr, payloads: Seq<Seq<u8>>) -> Seq<u8>
    decreases payloads.len(),
{
    if payloads.len() == 0 {
        seq![]
    } else {
        frames_bytes(socket, payloads.drop_last()) + protocol::frame_bytes(socket, payloads.last())
    }
}

/// Every frame has some payload, and no more than a frame can carry.
pub open spec fn carry_data(payloads: Seq<Seq<u8>>) -> bool {
    forall|i: int|
        #![trigger payloads[i]]
        0 <= i < payloads.len() ==> 0 < payloads[i].len() <= PACKET_SIZE
}

/// How much has been sent of a frame that has not been sent to its end.
pub open spec fn unfinished<W, L>(v: WriteView<W, L>) -> nat {
    match v.state {
        WritePipeState::Shutdown(ShutDownState::Writing { written, .. }) => written as nat,
        _ => match v.sending() {
            Some(written) => if v.packet.data.len() > 0 {
                written
            } else {
                0
            },
            None => 0,
        },
    }
}

/// What a connection has put onto the stream, `sent`, is the frames with these payloads, and of the
/// frame that it is sending as much as it has sent.
pub open spec fn in_order<W, L>(
    v: WriteView<W, L>,
    sent: Seq<u8>,
    payloads: Seq<Seq<u8>>,
) -> bool {
    &&& v.valid()
    &&& carry_data(payloads)
    &&& sent == frames_bytes(v.packet.addr, payloads) + v.packet.bytes().take(
        unfinished(v) as int,
    )
}

/// What has been written to a connection: what its finished frames carry, and what the frame that
/// is being filled or sent does.
pub open spec fn taken_in<W, L>(v: WriteView<W, L>, payloads: Seq<Seq<u8>>) -> Seq<u8> {
    joined(payloads) + v.packet.data
}

/// The finished frames after `n` more bytes have been sent: if those were the last of the frame, it
/// has joined them.
pub open spec fn finished<W, L>(v: WriteView<W, L>, payloads: Seq<Seq<u8>>, n: nat) -> Seq<
    Seq<u8>,
> {
    if n == v.unsent().len() && v.packet.data.len() > 0 {
        payloads.push(v.packet.data)
    } else {
        payloads
    }
}

/// A connection that nothing has been written to is in order: it has put nothing onto the stream.
pub proof fn law_new_connection_is_in_order<W, L>(v: WriteView<W, L>)
    requires
        v.state matches WritePipeState::Writing(_, WriteState::Buffering),
        v.packet.data.len() == 0,
    ensures
        in_order(v, seq![], seq![]),
        taken_in(v, seq![]) == Seq::<u8>::empty(),
{
    assert(frames_bytes(v.packet.addr, seq![]) + v.packet.bytes().take(0) =~= seq![]);
    assert(joined(seq![]) + v.packet.data =~= seq![]);
}

/// Beginning to write keeps a connection in order. What it takes comes behind what it took before.
pub proof fn law_write_begin_keeps_order<W, L, E>(
    v: WriteView<W, L>,
    waker: W,
    buf: Seq<u8>,
    sent: Seq<u8>,
    payloads: Seq<Seq<u8>>,
)
    requires
        v.state is Writing,
        buf.len() > 0 ==> v.in_place(),
        in_order(v, sent, payloads),
    ensures
        ({
            let turn: WriteTurn<W, L, E> = v.write_begin(waker, buf);
            &&& in_order(turn.view, sent, payloads)
            &&& taken_in(turn.view, payloads) == taken_in(v, payloads) + buf.take(
                turn.taken as int,
            )
        }),
{
    let turn: WriteTurn<W, L, E> = v.write_begin(waker, buf);
    if buf.len() > 0 {
        lemma_extended(v, buf, sent, payloads);
    }
    assert(taken_in(turn.view, payloads) =~= taken_in(v, payloads) + buf.take(turn.taken as int));
}

/// Adding to the frame of a connection keeps the connection in order.
proof fn lemma_extended<W, L>(
    v: WriteView<W, L>,
    rest: Seq<u8>,
    sent: Seq<u8>,
    payloads: Seq<Seq<u8>>,
)
    requires
        v.state is Writing,
        v.in_place(),
        in_order(v, sent, payloads),
        rest.len() > 0,
    ensures
        ({
            let written = match v.sending() {
                Some(written) => written,
                None => 0,
            };
            in_order(
                WriteView { packet: v.packet.extended(rest, written), ..v },
                sent,
                payloads,
            )
        }),
{
    let written = match v.sending() {
        Some(written) => written,
        None => 0,
    };
    packet_buffer::law_push_keeps_what_was_sent(v.packet, rest, written);
    packet_buffer::law_push_keeps_within_a_frame(v.packet, rest, written);
    if v.packet.data.len() == 0 {
        assert(v.packet.bytes().take(0) =~= v.packet.extended(rest, written).bytes().take(0));
    }
}

/// Sending the last bytes of a frame finishes it.
proof fn lemma_frame_finished<W, L>(
    v: WriteView<W, L>,
    sent: Seq<u8>,
    payloads: Seq<Seq<u8>>,
)
    requires
        in_order(v, sent, payloads),
        v.packet.data.len() > 0,
        v.has_unsent(),
    ensures
        carry_data(payloads.push(v.packet.data)),
        sent + v.unsent() == frames_bytes(v.packet.addr, payloads.push(v.packet.data)),
        joined(payloads.push(v.packet.data)) == joined(payloads) + v.packet.data,
{
    let more = payloads.push(v.packet.data);
    let written = v.sending()->0;
    assert(more.drop_last() =~= payloads);
    let whole = v.packet.bytes();
    assert(whole.take(written as int) + whole.skip(written as int) =~= whole);
    assert(sent + v.unsent() =~= frames_bytes(v.packet.addr, payloads) + whole);
    assert forall|i: int| #![trigger more[i]] 0 <= i < more.len() implies 0 < more[i].len()
        <= PACKET_SIZE by {
        if i < payloads.len() {
            assert(more[i] == payloads[i]);
        }
    }
}

/// Sending some bytes of a frame takes it further.
proof fn lemma_frame_continued<W, L>(
    v: WriteView<W, L>,
    after: WriteView<W, L>,
    n: nat,
    sent: Seq<u8>,
    payloads: Seq<Seq<u8>>,
)
    requires
        in_order(v, sent, payloads),
        v.has_unsent(),
        unfinished(v) == v.sending()->0,
        0 < n < v.unsent().len(),
        after.valid(),
        after.packet == v.packet,
        unfinished(after) == unfinished(v) + n,
    ensures
        in_order(after, sent + v.unsent().take(n as int), payloads),
{
    let whole = v.packet.bytes();
    let written = v.sending()->0;
    assert(whole.take(written as int) + whole.skip(written as int).take(n as int) =~= whole.take(
        (written + n) as int,
    ));
    assert(sent + v.unsent().take(n as int) =~= frames_bytes(v.packet.addr, payloads)
        + whole.take((written + n) as int));
}

/// Going on with a write when the stream has taken `n` bytes keeps the connection in order. What
/// the write takes comes behind what was taken before.
pub proof fn law_write_sent_keeps_order<W, L, E>(
    v: WriteView<W, L>,
    wrote: nat,
    rest: Seq<u8>,
    n: usize,
    sent: Seq<u8>,
    payloads: Seq<Seq<u8>>,
)
    requires
        v.awaits_write(Step::<()>::Send),
        0 < n <= v.unsent().len(),
        in_order(v, sent, payloads),
    ensures
        ({
            let turn: WriteTurn<W, L, E> = v.write_sent(wrote, rest, Poll::Ready(Ok(n)));
            let after = finished(v, payloads, n as nat);
            &&& in_order(turn.view, sent + v.unsent().take(n as int), after)
            &&& taken_in(turn.view, after) == taken_in(v, payloads) + rest.take(turn.taken as int)
        }),
{
    let turn: WriteTurn<W, L, E> = v.write_sent(wrote, rest, Poll::Ready(Ok(n)));
    let after = finished(v, payloads, n as nat);
    if n < v.unsent().len() {
        lemma_frame_continued(v, turn.view, n as nat, sent, payloads);
    } else {
        lemma_frame_finished(v, sent, payloads);
        assert(v.unsent().take(n as int) =~= v.unsent());
        let fresh = v.buffering().emptied();
        assert(sent + v.unsent() =~= frames_bytes(v.packet.addr, after) + fresh.packet.bytes().take(
            0,
        ));
        if rest.len() > 0 {
            lemma_extended(fresh, rest, sent + v.unsent(), after);
        }
    }
    assert(taken_in(turn.view, after) =~= taken_in(v, payloads) + rest.take(turn.taken as int));
}

/// A write that gets the lock, and one that has to wait for it or for the stream, stays in order,
/// and takes nothing.
pub proof fn law_write_waiting_keeps_order<W, L, E>(
    v: WriteView<W, L>,
    lock: Poll<L>,
    wrote: nat,
    rest: Seq<u8>,
    sent: Seq<u8>,
    payloads: Seq<Seq<u8>>,
)
    requires
        v.state is Writing,
        in_order(v, sent, payloads),
    ensures
        v.awaits_write(Step::<()>::Lock) ==> {
            let turn: WriteTurn<W, L, E> = v.write_locked(wrote, lock);
            &&& in_order(turn.view, sent, payloads)
            &&& taken_in(turn.view, payloads) == taken_in(v, payloads)
            &&& turn.taken == 0
        },
        v.awaits_write(Step::<()>::Send) ==> {
            let turn: WriteTurn<W, L, E> = v.write_sent(wrote, rest, Poll::Pending);
            &&& turn.view == v
            &&& turn.taken == 0
        },
{
}

/// A write that ends reports how much it has taken in all. If it has to wait, for the lock or for
/// the stream, it has taken nothing, so that the same can be written again.
pub proof fn law_write_reports_what_it_took<W, L, E>(
    v: WriteView<W, L>,
    waker: W,
    buf: Seq<u8>,
    wrote: nat,
    lock: Poll<L>,
    outcome: Poll<Result<usize, E>>,
)
    requires
        v.state is Writing,
        wrote <= buf.len() <= usize::MAX,
    ensures
        ({
            let turn: WriteTurn<W, L, E> = v.write_begin(waker, buf);
            &&& turn.taken <= buf.len()
            &&& turn.step matches Step::Return(answer) ==> {
                &&& answer matches Poll::Ready(Ok(m))
                &&& m == turn.taken == buf.len()
            }
        }),
        v.sending() is None ==> {
            let turn: WriteTurn<W, L, E> = v.write_locked(wrote, lock);
            &&& turn.taken == 0
            &&& turn.step matches Step::Return(Poll::Ready(Ok(m))) ==> m == wrote
            &&& turn.step matches Step::Return(Poll::Pending) ==> wrote == 0
        },
        v.sending() is Some ==> {
            let turn: WriteTurn<W, L, E> = v.write_sent(wrote, buf.skip(wrote as int), outcome);
            &&& wrote + turn.taken <= buf.len()
            &&& turn.step matches Step::Return(Poll::Ready(Ok(m))) ==> m == wrote + turn.taken
            &&& turn.step matches Step::Return(Poll::Pending) ==> wrote + turn.taken == 0
        },
{
}

/// Of what a write offered, `buf`, its first `wrote` bytes have come behind what had been written
/// to the connection before it, `before`, and nothing else has.
pub open spec fn has_taken<W, L>(
    v: WriteView<W, L>,
    payloads: Seq<Seq<u8>>,
    before: Seq<u8>,
    buf: Seq<u8>,
    wrote: nat,
) -> bool {
    &&& wrote <= buf.len()
    &&& taken_in(v, payloads) == before + buf.take(wrote as int)
}

/// From its beginning on, a write has taken what it counts, from the front of what it offered. So
/// where it answers that its caller has to wait, what has been written to the connection is what
/// had been before the write, and writing the same again repeats nothing.
pub proof fn law_waiting_write_took_nothing<W, L, E>(
    v: WriteView<W, L>,
    waker: W,
    buf: Seq<u8>,
    wrote: nat,
    lock: Poll<L>,
    n: usize,
    sent: Seq<u8>,
    payloads: Seq<Seq<u8>>,
    before: Seq<u8>,
)
    requires
        v.state is Writing,
        in_order(v, sent, payloads),
    ensures
        before == taken_in(v, payloads) && (buf.len() > 0 ==> v.in_place()) ==> {
            let turn: WriteTurn<W, L, E> = v.write_begin(waker, buf);
            &&& has_taken(turn.view, payloads, before, buf, turn.taken)
            &&& turn.step != Step::Return(WriteResult::<E>::Pending)
        },
        has_taken(v, payloads, before, buf, wrote) && v.awaits_write(Step::<()>::Lock) ==> {
            let turn: WriteTurn<W, L, E> = v.write_locked(wrote, lock);
            &&& has_taken(turn.view, payloads, before, buf, wrote)
            &&& turn.step == Step::Return(WriteResult::<E>::Pending) ==> taken_in(
                turn.view,
                payloads,
            ) == before
        },
        has_taken(v, payloads, before, buf, wrote) && v.awaits_write(Step::<()>::Send) ==> {
            let turn: WriteTurn<W, L, E> = v.write_sent(
                wrote,
                buf.skip(wrote as int),
                Poll::Pending,
            );
            &&& has_taken(turn.view, payloads, before, buf, wrote)
            &&& turn.step == Step::Return(WriteResult::<E>::Pending) ==> taken_in(
                turn.view,
                payloads,
            ) == before
        },
        has_taken(v, payloads, before, buf, wrote) && v.awaits_write(Step::<()>::Send) && 0 < n
            <= v.unsent().len() ==> {
            let turn: WriteTurn<W, L, E> = v.write_sent(
                wrote,
                buf.skip(wrote as int),
                Poll::Ready(Ok(n)),
            );
            &&& has_taken(
                turn.view,
                finished(v, payloads, n as nat),
                before,
                buf,
                wrote + turn.taken,
            )
            &&& turn.step != Step::Return(WriteResult::<E>::Pending)
        },
{
    if before == taken_in(v, payloads) && (buf.len() > 0 ==> v.in_place()) {
        law_write_begin_keeps_order::<W, L, E>(v, waker, buf, sent, payloads);
    }
    if has_taken(v, payloads, before, buf, wrote) {
        assert(wrote == 0 ==> before + buf.take(wrote as int) =~= before);
        let rest = buf.skip(wrote as int);
        if v.awaits_write(Step::<()>::Send) && 0 < n <= v.unsent().len() {
            law_write_sent_keeps_order::<W, L, E>(v, wrote, rest, n, sent, payloads);
            let turn: WriteTurn<W, L, E> = v.write_sent(wrote, rest, Poll::Ready(Ok(n)));
            assert(before + buf.take(wrote as int) + rest.take(turn.taken as int) =~= before
                + buf.take((wrote + turn.taken) as int));
        }
    }
}

/// A flush keeps a connection in order, and takes nothing: when it begins, when it gets the lock,
/// and when the stream has taken `n` bytes.
pub proof fn law_flush_keeps_order<W, L, E>(
    v: WriteView<W, L>,
    waker: W,
    lock: Poll<L>,
    n: usize,
    sent: Seq<u8>,
    payloads: Seq<Seq<u8>>,
)
    requires
        v.state is Writing,
        in_order(v, sent, payloads),
    ensures
        ({
            let turn: Turn<W, L, E> = v.flush_begin(waker);
            &&& in_order(turn.view, sent, payloads)
            &&& taken_in(turn.view, payloads) == taken_in(v, payloads)
        }),
        v.awaits_flush(Step::<()>::Lock) ==> {
            let turn: Turn<W, L, E> = v.flush_locked(lock);
            &&& in_order(turn.view, sent, payloads)
            &&& taken_in(turn.view, payloads) == taken_in(v, payloads)
        },
        v.awaits_flush(Step::<()>::Send) && 0 < n <= v.unsent().len() ==> {
            let turn: Turn<W, L, E> = v.flush_sent(Poll::Ready(Ok(n)));
            let after = finished(v, payloads, n as nat);
            &&& in_order(turn.view, sent + v.unsent().take(n as int), after)
            &&& taken_in(turn.view, after) == taken_in(v, payloads)
        },
{
    if v.awaits_flush(Step::<()>::Send) && 0 < n <= v.unsent().len() {
        let turn: Turn<W, L, E> = v.flush_sent(Poll::Ready(Ok(n)));
        let after = finished(v, payloads, n as nat);
        if n < v.unsent().len() {
            lemma_frame_continued(v, turn.view, n as nat, sent, payloads);
        } else {
            lemma_frame_finished(v, sent, payloads);
            assert(v.unsent().take(n as int) =~= v.unsent());
            assert(sent + v.unsent() =~= frames_bytes(v.packet.addr, after)
                + turn.view.packet.bytes().take(0));
        }
        assert(taken_in(turn.view, after) =~= taken_in(v, payloads));
    }
}

/// Once a flush has come to the flushing of the stream, all that was written is on the stream, in
/// finished frames. It stays so when the flush is over.
pub proof fn law_flush_sends_everything<W, L, E>(
    v: WriteView<W, L>,
    outcome: Poll<Result<(), E>>,
    sent: Seq<u8>,
    payloads: Seq<Seq<u8>>,
)
    requires
        v.awaits_flush(Step::<()>::Flush),
        in_order(v, sent, payloads),
    ensures
        sent == frames_bytes(v.packet.addr, payloads),
        joined(payloads) == taken_in(v, payloads),
        in_order(v.flush_flushed(outcome).view, sent, payloads),
        v.flush_flushed(outcome).view.packet == v.packet,
{
    assert(frames_bytes(v.packet.addr, payloads) + v.packet.bytes().take(0) =~= frames_bytes(
        v.packet.addr,
        payloads,
    ));
    assert(taken_in(v, payloads) =~= joined(payloads));
}

/// What the connection `socket` has put onto the stream since it was opened, `sent`, is the frames
/// with these payloads, and the header that closes it.
pub open spec fn complete(socket: SocketAddr, sent: Seq<u8>, payloads: Seq<Seq<u8>>) -> bool {
    &&& carry_data(payloads)
    &&& sent == frames_bytes(socket, payloads) + protocol::header_bytes(socket, 0)
}

/// A shutdown keeps a connection in order: when it begins or is taken up, and when it gets the
/// lock.
pub proof fn law_shutdown_keeps_order<W, L, E>(
    v: WriteView<W, L>,
    lock: Poll<L>,
    sent: Seq<u8>,
    payloads: Seq<Seq<u8>>,
)
    requires
        in_order(v, sent, payloads),
    ensures
        ({
            let turn: Turn<W, L, E> = v.shutting_down().shutdown_on();
            &&& in_order(turn.view, sent, payloads)
            &&& taken_in(turn.view, payloads) == taken_in(v, payloads)
        }),
        v.awaits_shutdown(Step::<()>::Lock) ==> {
            let turn: Turn<W, L, E> = v.shutdown_locked(lock);
            &&& in_order(turn.view, sent, payloads)
            &&& taken_in(turn.view, payloads) == taken_in(v, payloads)
        },
{
    assert(v.packet.bytes().take(0) =~= seq![]);
}

/// A shutdown that sends keeps the connection in order, and ends with the connection closed: all
/// that was written is on the stream, in finished frames, and behind it the header that closes the
/// connection.
pub proof fn law_shutdown_sends_everything<W, L, E>(
    v: WriteView<W, L>,
    n: usize,
    sent: Seq<u8>,
    payloads: Seq<Seq<u8>>,
)
    requires
        v.awaits_shutdown(Step::<()>::Send),
        0 < n <= v.unsent().len(),
        in_order(v, sent, payloads),
    ensures
        ({
            let turn: Turn<W, L, E> = v.shutdown_sent(Poll::Ready(Ok(n)));
            let after = finished(v, payloads, n as nat);
            let now = sent + v.unsent().take(n as int);
            &&& taken_in(turn.view, after) == taken_in(v, payloads)
            &&& if turn.view.state is Shutdown && turn.view.state->Shutdown_0 is Done {
                &&& complete(v.packet.addr, now, after)
                &&& joined(after) == taken_in(v, payloads)
            } else {
                in_order(turn.view, now, after)
            }
        }),
{
    let turn: Turn<W, L, E> = v.shutdown_sent(Poll::Ready(Ok(n)));
    let after = finished(v, payloads, n as nat);
    let now = sent + v.unsent().take(n as int);
    if n < v.unsent().len() {
        lemma_frame_continued(v, turn.view, n as nat, sent, payloads);
    } else {
        assert(v.unsent().take(n as int) =~= v.unsent());
        if v.state->Shutdown_0 is Flushing {
            lemma_frame_finished(v, sent, payloads);
            assert(now =~= frames_bytes(v.packet.addr, after) + turn.view.packet.bytes().take(0));
        } else {
            let whole = v.packet.bytes();
            let written = v.sending()->0;
            assert(v.packet.data =~= seq![]);
            assert(whole =~= protocol::header_bytes(v.packet.addr, 0));
            assert(whole.take(written as int) + whole.skip(written as int) =~= whole);
            assert(now =~= frames_bytes(v.packet.addr, after) + whole);
        }
    }
    assert(taken_in(turn.view, after) =~= taken_in(v, payloads));
    assert(v.packet.data.len() == 0 ==> joined(after) =~= taken_in(v, payloads));
}

/// While part of a frame has been sent the lock is held. So where the lock is not held, the stream
/// is between two frames, and frames of connections that share it do not get mixed up.
pub proof fn law_lock_is_held_inside_a_frame<W, L>(
    v: WriteView<W, L>,
    sent: Seq<u8>,
    payloads: Seq<Seq<u8>>,
)
    requires
        in_order(v, sent, payloads),
    ensures
        unfinished(v) > 0 ==> v.lock() is Some,
        v.lock() is None ==> sent == frames_bytes(v.packet.addr, payloads),
{
    assert(v.packet.bytes().take(0) =~= seq![]);
    assert(frames_bytes(v.packet.addr, payloads) + Seq::<u8>::empty() =~= frames_bytes(
        v.packet.addr,
        payloads,
    ));
}

/// A connection that is given up leaves the stream in order: after what it has to send then, there
/// are whole frames on the stream, and behind them the header that closes the connection. Of what
/// was written, what the stream has none of is lost.
pub proof fn law_giving_up_leaves_whole_frames<W, L>(
    v: WriteView<W, L>,
    sent: Seq<u8>,
    payloads: Seq<Seq<u8>>,
)
    requires
        v.state is Writing,
        v.in_place(),
        in_order(v, sent, payloads),
    ensures
        ({
            let rest = v.left_behind();
            let after = if rest.len() > 0 {
                payloads.push(v.packet.data)
            } else {
                payloads
            };
            &&& complete(
                v.packet.addr,
                sent + rest + protocol::header_bytes(v.packet.addr, 0),
                after,
            )
            &&& joined(after) == if rest.len() > 0 {
                taken_in(v, payloads)
            } else {
                joined(payloads)
            }
        }),
{
    if v.sending() is Some && v.sending()->0 > 0 {
        assert(v.packet.data.len() > 0);
        lemma_frame_finished(v, sent, payloads);
    } else {
        assert(sent + Seq::<u8>::empty() =~= sent);
        assert(frames_bytes(v.packet.addr, payloads) + v.packet.bytes().take(0) =~= frames_bytes(
            v.packet.addr,
            payloads,
        ));
    }
}

/// A connection that has been shut down stays so. Writing to it and flushing it are refused, and
/// change nothing. It can be shut down again: once it is closed that succeeds, and once it has
/// failed that fails, and both change nothing.
pub proof fn law_shutdown_is_final<W, L, E>(
    v: WriteView<W, L>,
    waker: W,
    buf: Seq<u8>,
    lock: Poll<L>,
    outcome: Poll<Result<usize, E>>,
)
    requires
        v.state is Shutdown,
    ensures
        v.write_begin::<E>(waker, buf) == (WriteTurn::<W, L, E> {
            view: v,
            taken: 0,
            step: Step::Return(Poll::Ready(Err(MuxError::Fault(Fault::Closed)))),
        }),
        v.flush_begin::<E>(waker) == (Turn::<W, L, E> {
            view: v,
            step: Step::Return(Poll::Ready(Err(MuxError::Fault(Fault::Closed)))),
        }),
        v.shutting_down().shutdown_on::<E>().view.state is Shutdown,
        v.shutdown_locked::<E>(lock).view.state is Shutdown,
        v.shutdown_sent(outcome).view.state is Shutdown,
        v.state->Shutdown_0 is Done ==> v.shutting_down().shutdown_on::<E>() == (Turn::<W, L, E> {
            view: v,
            step: Step::Return(Poll::Ready(Ok(()))),
        }),
        v.state->Shutdown_0 is Error ==> v.shutting_down().shutdown_on::<E>() == (Turn::<W, L, E> {
            view: v,
            step: Step::Return(Poll::Ready(Err(MuxError::Fault(Fault::ShutdownFailed)))),
        }),
{
}

/// Flushing a connection to which nothing has been written sends nothing.
pub proof fn law_empty_flush_sends_nothing<W, L, E>(v: WriteView<W, L>, waker: W, lock: Poll<L>)
    requires
        v.state is Writing,
        v.packet.data.len() == 0,
    ensures
        v.flush_begin::<E>(waker).step != Step::<DoneResult<E>>::Send,
        v.flush_begin::<E>(waker).view.packet == v.packet,
        v.sending() is None ==> v.flush_locked::<E>(lock).step != Step::<DoneResult<E>>::Send,
        v.sending() is None ==> v.flush_locked::<E>(lock).view.packet == v.packet,
{
}

} // verus!
