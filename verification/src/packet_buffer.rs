//! The frame that a connection is filling or sending.
use crate::integers::NetworkOrderU16;
use crate::protocol;
use crate::protocol::{HEADER_SIZE, PACKET_SIZE};
use crate::thin_addr::SocketAddr;
use vstd::prelude::*;

verus! {

/// After this many bytes of a frame the first byte of its length has been sent, and the second has
/// not.
pub const LEN_FIELD_CUTOFF: u32 = 19;

/// What a [`PacketBuffer`] holds.
#[verifier::ext_equal]
pub struct PacketView {
    pub addr: SocketAddr,
    pub data: Seq<u8>,
}

impl PacketView {
    /// What stands on the wire for the frame.
    pub open spec fn bytes(self) -> Seq<u8> {
        protocol::frame_bytes(self.addr, self.data)
    }

    /// How many bytes can still be added once `written` bytes of the frame have been sent. Until
    /// the length has gone out the frame can be filled up. When only its first byte has gone out,
    /// it can be filled as far as that byte stays right. After that the frame is settled.
    pub open spec fn room(self, written: nat) -> nat {
        if written < LEN_FIELD_CUTOFF {
            (PACKET_SIZE - self.data.len()) as nat
        } else if written == LEN_FIELD_CUTOFF {
            (255 - self.data.len() % 256) as nat
        } else {
            0
        }
    }

    /// The frame with as much of `more` added as there is room for.
    pub open spec fn extended(self, more: Seq<u8>, written: nat) -> PacketView {
        PacketView { data: self.data + more.take(self.accepted(more, written) as int), ..self }
    }

    /// How many bytes of `more` there is room for.
    pub open spec fn accepted(self, more: Seq<u8>, written: nat) -> nat {
        if more.len() <= self.room(written) {
            more.len()
        } else {
            self.room(written)
        }
    }

    /// The frame emptied.
    pub open spec fn cleared(self) -> PacketView {
        PacketView { data: seq![], ..self }
    }
}

/// A frame that is being filled. It is kept as it stands on the wire, so that it can be sent, and
/// sent on from where the stream stopped, without being copied.
#[derive(Debug)]
pub struct PacketBuffer {
    socket_addr: SocketAddr,
    len: NetworkOrderU16,
    wire: Vec<u8>,
}

impl View for PacketBuffer {
    type V = PacketView;

    closed spec fn view(&self) -> PacketView {
        PacketView { addr: self.socket_addr, data: self.wire@.skip(HEADER_SIZE as int) }
    }
}

impl PacketBuffer {
    /// The frame fits, and it is kept as it stands on the wire.
    pub closed spec fn wf(&self) -> bool {
        &&& self.wire@ == self@.bytes()
        &&& self.len.value() == self@.data.len()
        &&& self@.data.len() <= PACKET_SIZE
    }

    /// An empty frame of the connection `socket`.
    pub fn new(socket: SocketAddr) -> (r: Self)
        ensures
            r.wf(),
            r@ == (PacketView { addr: socket, data: seq![] }),
    {
        let len: NetworkOrderU16 = NetworkOrderU16::new(0);
        let mut wire: Vec<u8> = Vec::with_capacity(HEADER_SIZE + PACKET_SIZE as usize);
        let addr: [u8; 18] = socket.bytes();
        wire.extend_from_slice(addr.as_slice());
        wire.extend_from_slice(len.0.as_slice());
        let r: Self = Self { socket_addr: socket, len, wire };
        assert(r@.data =~= seq![]);
        assert(r.wire@ =~= r@.bytes());
        r
    }

    /// An empty frame of the connection `socket`, on the heap.
    pub fn box_new(socket: SocketAddr) -> (r: Box<Self>)
        ensures
            r.wf(),
            r@ == (PacketView { addr: socket, data: seq![] }),
    {
        Box::new(Self::new(socket))
    }

    /// The connection that the frame belongs to.
    pub fn addr(&self) -> (r: SocketAddr)
        ensures
            r == self@.addr,
    {
        self.socket_addr
    }

    /// How many bytes of payload the frame holds.
    pub fn packet_size(&self) -> (r: u16)
        requires
            self.wf(),
        ensures
            r == self@.data.len(),
    {
        self.len.get()
    }

    /// Whether the frame holds as much as a frame can.
    pub fn is_full(&self) -> (r: bool)
        requires
            self.wf(),
        ensures
            r <==> self@.data.len() == PACKET_SIZE,
    {
        self.packet_size() == PACKET_SIZE
    }

    /// Whether nothing can be added before the frame is sent, when `written` bytes of it have
    /// been.
    pub fn must_flush_for(&self, written: u32) -> (r: bool)
        requires
            self.wf(),
        ensures
            r <==> self@.room(written as nat) == 0,
    {
        if written < LEN_FIELD_CUTOFF {
            self.is_full()
        } else if written == LEN_FIELD_CUTOFF {
            self.len.0[1] == u8::MAX
        } else {
            true
        }
    }

    /// Whether the frame holds no payload.
    pub fn is_empty(&self) -> (r: bool)
        requires
            self.wf(),
        ensures
            r <==> self@.data.len() == 0,
    {
        self.packet_size() == 0
    }

    /// Empties the frame.
    pub fn clear(&mut self)
        requires
            old(self).wf(),
        ensures
            final(self).wf(),
            final(self)@ == old(self)@.cleared(),
    {
        self.len = NetworkOrderU16::new(0);
        self.wire.truncate(HEADER_SIZE);
        self.wire.set(18, self.len.0[0]);
        self.wire.set(19, self.len.0[1]);
        assert(self@.data =~= seq![]);
        assert(self.wire@ =~= self@.bytes());
    }

    /// Adds as much of `data` as there is room for when `written` bytes of the frame have been
    /// sent, and returns how much that was.
    pub fn push(&mut self, data: &[u8], written: u32) -> (r: u16)
        requires
            old(self).wf(),
        ensures
            final(self).wf(),
            r == old(self)@.accepted(data@, written as nat),
            final(self)@ == old(self)@.extended(data@, written as nat),
    {
        let last_len: u16 = self.len.get();
        let max_len: u16 = if written < LEN_FIELD_CUTOFF {
            // the length has not been sent yet: fill the frame up
            PACKET_SIZE - last_len
        } else if written == LEN_FIELD_CUTOFF {
            // the most significant byte has been sent, which leaves what the other can take
            (u8::MAX - self.len.0[1]) as u16
        } else {
            assert(self@.data + data@.take(0) =~= self@.data);
            return 0;
        };
        let len: u16 = if data.len() > max_len as usize {
            max_len
        } else {
            data.len() as u16
        };
        let ghost before = self.wire@;
        let part: &[u8] = vstd::slice::slice_subrange(data, 0, len as usize);
        self.wire.extend_from_slice(part);
        assert(self.wire@ =~= before + part@);
        self.len = NetworkOrderU16::new(len + last_len);
        self.wire.set(18, self.len.0[0]);
        self.wire.set(19, self.len.0[1]);
        assert(part@ =~= data@.take(len as int));
        assert(self@.data =~= old(self)@.data + part@);
        assert(self.wire@ =~= self@.bytes());
        len
    }

    /// The frame as it stands on the wire.
    pub fn bytes(&self) -> (r: &[u8])
        requires
            self.wf(),
        ensures
            r@ == self@.bytes(),
    {
        self.wire.as_slice()
    }

    /// What is left of the frame once `written` bytes of it have been sent.
    pub fn bytes_from(&self, written: u32) -> (r: &[u8])
        requires
            self.wf(),
            written <= self@.bytes().len(),
        ensures
            r@ == self@.bytes().skip(written as int),
    {
        let r: &[u8] = vstd::slice::slice_subrange(
            self.wire.as_slice(),
            written as usize,
            self.wire.len(),
        );
        assert(r@ =~= self@.bytes().skip(written as int));
        r
    }
}

/// Adding to a frame never changes a byte of it that has been sent.
pub proof fn law_push_keeps_what_was_sent(frame: PacketView, more: Seq<u8>, written: nat)
    requires
        frame.data.len() <= PACKET_SIZE,
        written <= frame.bytes().len(),
    ensures
        frame.extended(more, written).bytes().len() >= frame.bytes().len(),
        frame.extended(more, written).bytes().take(written as int) == frame.bytes().take(
            written as int,
        ),
{
    let grown = frame.extended(more, written);
    let n = frame.accepted(more, written);
    assert(grown.data.len() == frame.data.len() + n);
    if written == LEN_FIELD_CUTOFF {
        assert(frame.data.len() / 256 == grown.data.len() / 256);
    }
    if written > LEN_FIELD_CUTOFF {
        assert(grown.data =~= frame.data);
    }
    assert(grown.bytes().take(written as int) =~= frame.bytes().take(written as int));
}

/// Nothing can be added to the frame once `written` bytes of it have been sent: it is full, or with
/// one more byte of payload a byte of the header that has been sent would have to be another.
pub open spec fn settled(frame: PacketView, written: nat) -> bool {
    ||| frame.data.len() == PACKET_SIZE
    ||| exists|i: int|
        0 <= i < written && i < HEADER_SIZE && #[trigger] protocol::header_bytes(
            frame.addr,
            frame.data.len() + 1,
        )[i] != protocol::header_bytes(frame.addr, frame.data.len())[i]
}

/// As much is added to a frame as can be: all that is offered, or so much that the frame is settled.
/// So nothing is added to a settled frame, and something to any other.
pub proof fn law_push_takes_all_that_fits(frame: PacketView, more: Seq<u8>, written: nat)
    requires
        frame.data.len() <= PACKET_SIZE,
        written <= frame.bytes().len(),
    ensures
        ({
            let n = frame.accepted(more, written);
            let after = frame.extended(more, written);
            &&& n <= more.len()
            &&& after.addr == frame.addr
            &&& after.data == frame.data + more.take(n as int)
            &&& n == more.len() || settled(after, written)
            &&& settled(frame, written) ==> n == 0
            &&& more.len() > 0 && !settled(frame, written) ==> n > 0
        }),
        settled(frame, written) <==> frame.room(written) == 0,
{
    lemma_settled(frame, written);
    lemma_settled(frame.extended(more, written), written);
    let n = frame.accepted(more, written);
    if written == LEN_FIELD_CUTOFF && n < more.len() {
        assert((frame.data.len() + n) % 256 == 255);
    }
}

/// When a frame is settled.
proof fn lemma_settled(frame: PacketView, written: nat)
    requires
        frame.data.len() <= PACKET_SIZE,
    ensures
        settled(frame, written) <==> frame.room(written) == 0,
{
    let now = protocol::header_bytes(frame.addr, frame.data.len());
    let next = protocol::header_bytes(frame.addr, frame.data.len() + 1);
    let len = frame.data.len();
    assert(now[18] == (len / 256) as u8 && now[19] == (len % 256) as u8);
    assert(next[18] == ((len + 1) / 256) as u8 && next[19] == ((len + 1) % 256) as u8);
    assert forall|i: int| 0 <= i < 18 implies #[trigger] next[i] == now[i] by {
        assert(next[i] == frame.addr.spec_bytes()[i]);
    }
    if len < PACKET_SIZE {
        assert(next[19] != now[19]);
        assert(next[18] != now[18] <==> len % 256 == 255);
    }
}

/// What is added in two steps is what is added in one, as long as the same part of the frame has
/// been sent.
pub proof fn law_push_in_steps(frame: PacketView, first: Seq<u8>, second: Seq<u8>, written: nat)
    requires
        frame.data.len() <= PACKET_SIZE,
        frame.accepted(first, written) == first.len(),
    ensures
        frame.extended(first, written).extended(second, written) == frame.extended(
            first + second,
            written,
        ),
{
    let one = frame.extended(first, written);
    let both = frame.extended(first + second, written);
    assert(first.take(first.len() as int) =~= first);
    assert(one.data =~= frame.data + first);
    if written == LEN_FIELD_CUTOFF {
        assert(one.data.len() % 256 == frame.data.len() % 256 + first.len());
    }
    assert(one.extended(second, written).data =~= both.data);
}

/// A frame never holds more than a frame can.
pub proof fn law_push_keeps_within_a_frame(frame: PacketView, more: Seq<u8>, written: nat)
    requires
        frame.data.len() <= PACKET_SIZE,
    ensures
        frame.extended(more, written).data.len() <= PACKET_SIZE,
        frame.extended(more, written).addr == frame.addr,
{
}

/// What a frame tells of itself, and what stands for it on the wire.
pub proof fn law_frame_tells(buffer: PacketBuffer, socket: SocketAddr, written: u32)
    requires
        buffer.wf(),
    ensures
        forall|r: PacketBuffer| #[trigger]
            call_ensures(PacketBuffer::new, (socket,), r) ==> r.wf() && r@.addr == socket
                && r@.data.len() == 0,
        forall|r: Box<PacketBuffer>| #[trigger]
            call_ensures(PacketBuffer::box_new, (socket,), r) ==> r.wf() && r@.addr == socket
                && r@.data.len() == 0,
        forall|r: SocketAddr| #[trigger]
            call_ensures(PacketBuffer::addr, (&buffer,), r) ==> r == buffer@.addr,
        forall|r: u16| #[trigger]
            call_ensures(PacketBuffer::packet_size, (&buffer,), r) ==> r == buffer@.data.len(),
        forall|r: bool| #[trigger]
            call_ensures(PacketBuffer::is_full, (&buffer,), r) ==> (r <==> buffer@.data.len()
                == u16::MAX),
        forall|r: bool| #[trigger]
            call_ensures(PacketBuffer::is_empty, (&buffer,), r) ==> (r <==> buffer@.data.len()
                == 0),
        forall|r: bool| #[trigger]
            call_ensures(PacketBuffer::must_flush_for, (&buffer, written), r) ==> (r <==> settled(
                buffer@,
                written as nat,
            )),
        forall|r: &[u8]| #[trigger]
            call_ensures(PacketBuffer::bytes, (&buffer,), r) ==> r@ == protocol::frame_bytes(
                buffer@.addr,
                buffer@.data,
            ),
        forall|r: &[u8]|
            #[trigger] call_ensures(PacketBuffer::bytes_from, (&buffer, written), r) && written
                <= protocol::frame_bytes(buffer@.addr, buffer@.data).len()
                ==> protocol::frame_bytes(buffer@.addr, buffer@.data).take(written as int) + r@
                == protocol::frame_bytes(buffer@.addr, buffer@.data),
{
    lemma_settled(buffer@, written as nat);
    let whole = protocol::frame_bytes(buffer@.addr, buffer@.data);
    assert(written <= whole.len() ==> whole.take(written as int) + whole.skip(written as int)
        =~= whole);
}

/// Adding to a frame puts the first of what is offered behind what the frame holds: all of it, or so
/// much that the frame is settled. What has been sent stays right. Emptying a frame leaves it empty.
pub proof fn law_frame_is_filled(data: &[u8], written: u32, n: u16)
    ensures
        forall|buffer: &mut PacketBuffer|
            #[trigger] call_ensures(PacketBuffer::push, (buffer, data, written), n) && buffer.wf()
                && written <= protocol::frame_bytes(buffer@.addr, buffer@.data).len() ==> {
                let after = final(buffer)@;
                &&& n <= data@.len()
                &&& after.addr == buffer@.addr
                &&& after.data == buffer@.data + data@.take(n as int)
                &&& after.data.len() <= u16::MAX
                &&& n == data@.len() || settled(after, written as nat)
                &&& protocol::frame_bytes(after.addr, after.data).take(written as int)
                    == protocol::frame_bytes(buffer@.addr, buffer@.data).take(written as int)
            },
        forall|buffer: &mut PacketBuffer| #[trigger]
            call_ensures(PacketBuffer::clear, (buffer,), ()) ==> final(buffer)@.addr == buffer@.addr
                && final(buffer)@.data.len() == 0,
{
    assert forall|buffer: &mut PacketBuffer|
        #[trigger] call_ensures(PacketBuffer::push, (buffer, data, written), n) && buffer.wf()
            && written <= protocol::frame_bytes(buffer@.addr, buffer@.data).len() implies {
        let after = final(buffer)@;
        &&& n == data@.len() || settled(after, written as nat)
        &&& protocol::frame_bytes(after.addr, after.data).take(written as int)
            == protocol::frame_bytes(buffer@.addr, buffer@.data).take(written as int)
    } by {
        law_push_takes_all_that_fits(buffer@, data@, written as nat);
        law_push_keeps_what_was_sent(buffer@, data@, written as nat);
        law_push_keeps_within_a_frame(buffer@, data@, written as nat);
    }
}

} // verus!
