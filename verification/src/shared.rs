//! What connections that share a stream put onto it together.
//!
//! The stream's lock is held by one connection at a time, and only its holder sends. As long as the
//! stream does not fail it carries whole frames, one after the other, and of the frame that the
//! holder is sending as much as it has sent. Among them are the frames of each connection in order.
use crate::delivery;
use crate::packet_buffer;
use crate::poll::Poll;
use crate::protocol;
use crate::protocol::PACKET_SIZE;
use crate::stream;
use crate::thin_addr::SocketAddr;
use crate::write::{Step, Turn, WritePipeState, WriteState, WriteTurn, WriteView};
use vstd::prelude::*;

verus! {

/// What is on the stream, `wire`, is these frames, and of the frame that the connection `v` is
/// sending as much as it has sent.
pub open spec fn framed<W, L>(
    v: WriteView<W, L>,
    wire: Seq<u8>,
    frames: Seq<(SocketAddr, Seq<u8>)>,
) -> bool {
    &&& v.valid()
    &&& delivery::fit(frames)
    &&& wire == delivery::mixed_bytes(frames) + v.packet.bytes().take(stream::unfinished(v) as int)
}

/// The frames on the stream after the connection `v` has sent `n` more bytes: if those were the
/// last of its frame, it has joined them.
pub open spec fn posted<W, L>(
    v: WriteView<W, L>,
    frames: Seq<(SocketAddr, Seq<u8>)>,
    n: nat,
) -> Seq<(SocketAddr, Seq<u8>)> {
    if n == v.unsent().len() {
        frames.push((v.packet.addr, v.packet.data))
    } else {
        frames
    }
}

/// Where nobody holds the lock there are whole frames on the stream. So the lock can pass from one
/// connection to another.
pub proof fn law_lock_can_pass<W, L>(
    v: WriteView<W, L>,
    next: WriteView<W, L>,
    wire: Seq<u8>,
    frames: Seq<(SocketAddr, Seq<u8>)>,
)
    requires
        framed(v, wire, frames),
        v.lock() is None,
        next.valid(),
        next.lock() is None,
    ensures
        wire == delivery::mixed_bytes(frames),
        framed(next, wire, frames),
{
    assert(v.packet.bytes().take(0) =~= seq![]);
    assert(next.packet.bytes().take(0) =~= seq![]);
    assert(delivery::mixed_bytes(frames) + Seq::<u8>::empty() =~= delivery::mixed_bytes(frames));
}

/// One more frame that fits.
proof fn lemma_fit(frames: Seq<(SocketAddr, Seq<u8>)>, socket: SocketAddr, payload: Seq<u8>)
    requires
        delivery::fit(frames),
        payload.len() <= PACKET_SIZE,
    ensures
        delivery::fit(frames.push((socket, payload))),
{
    let more = frames.push((socket, payload));
    assert forall|i: int| #![trigger more[i]] 0 <= i < more.len() implies more[i].1.len()
        <= PACKET_SIZE by {
        if i < frames.len() {
            assert(more[i] == frames[i]);
        }
    }
}

/// A connection that is opened puts one frame onto the stream, under the lock.
pub proof fn law_handshake_is_a_frame<W, L>(
    v: WriteView<W, L>,
    wire: Seq<u8>,
    frames: Seq<(SocketAddr, Seq<u8>)>,
)
    requires
        framed(v, wire, frames),
        v.state matches WritePipeState::Writing(_, WriteState::Buffering),
        v.packet.data.len() == 0,
    ensures
        framed(
            v,
            wire + protocol::header_bytes(v.packet.addr, 0),
            frames.push((v.packet.addr, seq![])),
        ),
{
    let more = frames.push((v.packet.addr, Seq::<u8>::empty()));
    lemma_fit(frames, v.packet.addr, Seq::<u8>::empty());
    assert(more.drop_last() =~= frames);
    assert(protocol::frame_bytes(v.packet.addr, Seq::<u8>::empty()) =~= protocol::header_bytes(
        v.packet.addr,
        0,
    ));
    assert(v.packet.bytes().take(0) =~= seq![]);
    assert(wire + protocol::header_bytes(v.packet.addr, 0) =~= delivery::mixed_bytes(more)
        + v.packet.bytes().take(0));
}

/// Sending keeps the stream in frames, whichever call sends.
pub proof fn law_sending_keeps_frames<W, L, E>(
    v: WriteView<W, L>,
    wrote: nat,
    rest: Seq<u8>,
    n: usize,
    wire: Seq<u8>,
    frames: Seq<(SocketAddr, Seq<u8>)>,
)
    requires
        framed(v, wire, frames),
        0 < n <= v.unsent().len(),
    ensures
        ({
            let now = wire + v.unsent().take(n as int);
            let after = posted(v, frames, n as nat);
            &&& v.awaits_write(Step::<()>::Send) ==> framed(
                v.write_sent::<E>(wrote, rest, Poll::Ready(Ok(n))).view,
                now,
                after,
            )
            &&& v.awaits_flush(Step::<()>::Send) ==> framed(
                v.flush_sent::<E>(Poll::Ready(Ok(n))).view,
                now,
                after,
            )
            &&& v.awaits_shutdown(Step::<()>::Send) ==> framed(
                v.shutdown_sent::<E>(Poll::Ready(Ok(n))).view,
                now,
                after,
            )
        }),
{
    if v.awaits_write(Step::<()>::Send) {
        let turn: WriteTurn<W, L, E> = v.write_sent(wrote, rest, Poll::Ready(Ok(n)));
        if n == v.unsent().len() {
            packet_buffer::law_push_keeps_within_a_frame(v.packet.cleared(), rest, 0);
        }
        lemma_sent(v, turn.view, n as nat, wire, frames);
    }
    if v.awaits_flush(Step::<()>::Send) {
        let turn: Turn<W, L, E> = v.flush_sent(Poll::Ready(Ok(n)));
        lemma_sent(v, turn.view, n as nat, wire, frames);
    }
    if v.awaits_shutdown(Step::<()>::Send) {
        let turn: Turn<W, L, E> = v.shutdown_sent(Poll::Ready(Ok(n)));
        lemma_sent(v, turn.view, n as nat, wire, frames);
    }
}

/// Sending takes a frame further, or finishes it.
proof fn lemma_sent<W, L>(
    v: WriteView<W, L>,
    after: WriteView<W, L>,
    n: nat,
    wire: Seq<u8>,
    frames: Seq<(SocketAddr, Seq<u8>)>,
)
    requires
        framed(v, wire, frames),
        v.has_unsent(),
        stream::unfinished(v) == v.sending()->0,
        0 < n <= v.unsent().len(),
        after.valid(),
        if n < v.unsent().len() {
            &&& after.packet == v.packet
            &&& stream::unfinished(after) == stream::unfinished(v) + n
        } else {
            stream::unfinished(after) == 0
        },
    ensures
        framed(after, wire + v.unsent().take(n as int), posted(v, frames, n)),
{
    let whole = v.packet.bytes();
    let written = v.sending()->0;
    assert(whole.take(written as int) + whole.skip(written as int).take(n as int) =~= whole.take(
        (written + n) as int,
    ));
    if n == v.unsent().len() {
        let more = posted(v, frames, n);
        lemma_fit(frames, v.packet.addr, v.packet.data);
        assert(more.drop_last() =~= frames);
        assert(whole.take((written + n) as int) =~= whole);
        assert(after.packet.bytes().take(0) =~= seq![]);
    }
    assert(wire + v.unsent().take(n as int) =~= delivery::mixed_bytes(posted(v, frames, n))
        + after.packet.bytes().take(stream::unfinished(after) as int));
}

/// What does not send leaves the stream as it is, and keeps it in frames.
pub proof fn law_not_sending_keeps_frames<W, L, E>(
    v: WriteView<W, L>,
    waker: W,
    buf: Seq<u8>,
    wrote: nat,
    lock: Poll<L>,
    flushed: Poll<Result<(), E>>,
    wire: Seq<u8>,
    frames: Seq<(SocketAddr, Seq<u8>)>,
)
    requires
        framed(v, wire, frames),
    ensures
        v.state is Writing && v.in_place() ==> framed(
            v.write_begin::<E>(waker, buf).view,
            wire,
            frames,
        ),
        v.state is Writing ==> framed(v.flush_begin::<E>(waker).view, wire, frames),
        framed(v.shutting_down().shutdown_on::<E>().view, wire, frames),
        v.awaits_write(Step::<()>::Lock) ==> framed(
            v.write_locked::<E>(wrote, lock).view,
            wire,
            frames,
        ),
        v.awaits_flush(Step::<()>::Lock) ==> framed(v.flush_locked::<E>(lock).view, wire, frames),
        v.awaits_flush(Step::<()>::Flush) ==> framed(v.flush_flushed(flushed).view, wire, frames),
        v.awaits_shutdown(Step::<()>::Lock) ==> framed(
            v.shutdown_locked::<E>(lock).view,
            wire,
            frames,
        ),
{
    if v.state is Writing && v.in_place() && buf.len() > 0 {
        let written = match v.sending() {
            Some(written) => written,
            None => 0,
        };
        packet_buffer::law_push_keeps_what_was_sent(v.packet, buf, written);
        packet_buffer::law_push_keeps_within_a_frame(v.packet, buf, written);
        assert(v.packet.bytes().take(0) =~= v.packet.extended(buf, written).bytes().take(0));
    }
    assert(v.packet.bytes().take(0) =~= seq![]);
}

/// The frames of each connection on the stream are its own, in order: those of the connection that
/// sends are those that it has finished, and those of others stay as they are. The last of a
/// connection is the one that closes it.
pub proof fn law_frames_of_each_connection<W, L>(
    v: WriteView<W, L>,
    n: nat,
    frames: Seq<(SocketAddr, Seq<u8>)>,
    before: Seq<(SocketAddr, Seq<u8>)>,
    payloads: Seq<Seq<u8>>,
    other: SocketAddr,
)
    requires
        delivery::own(frames, v.packet.addr) == before + delivery::posted(v.packet.addr, payloads),
        other != v.packet.addr,
    ensures
        ({
            let socket = v.packet.addr;
            let after = posted(v, frames, n);
            &&& delivery::own(after, other) == delivery::own(frames, other)
            &&& if n == v.unsent().len() && v.packet.data.len() == 0 {
                delivery::own(after, socket) == before + delivery::answer(socket, payloads)
            } else {
                delivery::own(after, socket) == before + delivery::posted(
                    socket,
                    stream::finished(v, payloads, n),
                )
            }
        }),
{
    let socket = v.packet.addr;
    let after = posted(v, frames, n);
    if n == v.unsent().len() {
        assert(after.drop_last() =~= frames);
        if v.packet.data.len() == 0 {
            assert(v.packet.data =~= seq![]);
            assert(delivery::own(after, socket) =~= before + delivery::answer(socket, payloads));
        } else {
            assert(delivery::own(after, socket) =~= before + delivery::posted(
                socket,
                stream::finished(v, payloads, n),
            ));
        }
    }
}

} // verus!
