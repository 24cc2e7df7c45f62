//! The frame format.
//!
//! A frame is a header of twenty bytes, which names a connection and announces a length, and that
//! many bytes of payload.
use crate::integers;
use crate::integers::NetworkOrderU16;
use crate::thin_addr;
use crate::thin_addr::SocketAddr;
use vstd::prelude::*;

verus! {

/// How many bytes a frame header takes on the wire.
pub const HEADER_SIZE: usize = 20;

/// The most bytes of payload that one frame can carry.
pub const PACKET_SIZE: u16 = 65535;

/// What stands on the wire for the header of a frame of `len` bytes.
pub open spec fn header_bytes(socket: SocketAddr, len: nat) -> Seq<u8> {
    socket.spec_bytes() + integers::be16(len)
}

/// What stands on the wire for a frame.
pub open spec fn frame_bytes(socket: SocketAddr, payload: Seq<u8>) -> Seq<u8> {
    header_bytes(socket, payload.len()) + payload
}

/// The header of a frame.
#[derive(Copy, Clone, Debug)]
pub struct MuxFrameHeader {
    pub socket: SocketAddr,
    pub len: NetworkOrderU16,
}

impl MuxFrameHeader {
    /// What stands on the wire for this header.
    pub open spec fn spec_bytes(&self) -> Seq<u8> {
        self.socket.spec_bytes() + self.len.0@
    }

    /// A header that announces no payload: it opens or closes the connection.
    pub fn empty(socket: SocketAddr) -> (r: Self)
        ensures
            r.socket == socket,
            r.len.value() == 0,
            r.spec_bytes() == header_bytes(socket, 0),
    {
        Self { socket, len: NetworkOrderU16::new(0) }
    }

    /// The connection that the frame belongs to.
    pub fn addr(&self) -> (r: SocketAddr)
        ensures
            r == self.socket,
    {
        self.socket
    }

    /// How many bytes of payload follow.
    pub fn len(&self) -> (r: u16)
        ensures
            r == self.len.value(),
    {
        self.len.get()
    }

    /// What stands on the wire for this header.
    pub fn bytes(&self) -> (r: Vec<u8>)
        ensures
            r@ == self.spec_bytes(),
            r@ == header_bytes(self.socket, self.len.value()),
    {
        let mut r: Vec<u8> = Vec::with_capacity(HEADER_SIZE);
        let socket: [u8; 18] = self.socket.bytes();
        r.extend_from_slice(socket.as_slice());
        assert(r@ =~= self.socket.spec_bytes());
        r.extend_from_slice(self.len.0.as_slice());
        assert(r@ =~= self.spec_bytes());
        proof {
            integers::law_encoding_is_unique(self.len);
        }
        r
    }

    /// The header that `wire` stands for.
    pub fn from_bytes(wire: &[u8]) -> (r: Self)
        requires
            wire@.len() == HEADER_SIZE,
        ensures
            r.spec_bytes() == wire@,
            (r.socket, r.len.value()) == decoded(wire@),
    {
        let socket: SocketAddr = SocketAddr::from_bytes(wire);
        let len: NetworkOrderU16 = NetworkOrderU16([wire[18], wire[19]]);
        let r: Self = Self { socket, len };
        assert(r.spec_bytes() =~= wire@);
        proof {
            integers::law_encoding_is_unique(len);
            law_decoded_header(socket, len.value());
        }
        r
    }
}

/// A header is determined by what stands for it on the wire.
pub proof fn law_header_bytes_are_unique(a: SocketAddr, m: nat, b: SocketAddr, n: nat)
    requires
        m <= PACKET_SIZE,
        n <= PACKET_SIZE,
        header_bytes(a, m) == header_bytes(b, n),
    ensures
        a == b,
        m == n,
{
    assert(a.spec_bytes() =~= header_bytes(a, m).take(18));
    assert(b.spec_bytes() =~= header_bytes(b, n).take(18));
    thin_addr::law_addr_bytes_are_unique(a, b);
    assert(integers::be16(m) =~= header_bytes(a, m).skip(18));
    assert(integers::be16(n) =~= header_bytes(b, n).skip(18));
    integers::law_be16_is_injective(m, n);
}

/// A header takes twenty bytes: those of the address, and the length, its more significant byte
/// first. The payload comes behind it.
pub proof fn law_frame_layout(socket: SocketAddr, payload: Seq<u8>)
    requires
        payload.len() <= PACKET_SIZE,
    ensures
        ({
            let wire = frame_bytes(socket, payload);
            &&& wire.len() == HEADER_SIZE + payload.len()
            &&& wire.take(16) == socket.ip.octets@
            &&& wire[16] == socket.port.0[0]
            &&& wire[17] == socket.port.0[1]
            &&& wire[18] * 256 + wire[19] == payload.len()
            &&& wire.skip(HEADER_SIZE as int) == payload
            &&& wire.take(HEADER_SIZE as int) == header_bytes(socket, payload.len())
        }),
{
    let wire = frame_bytes(socket, payload);
    assert(wire.take(16) =~= socket.ip.octets@);
    assert(wire.skip(HEADER_SIZE as int) =~= payload);
    assert(wire.take(HEADER_SIZE as int) =~= header_bytes(socket, payload.len()));
}

/// What a header tells of itself is what stands on the wire, both ways.
pub proof fn law_header_tells(header: MuxFrameHeader, socket: SocketAddr, wire: &[u8])
    ensures
        call_ensures(MuxFrameHeader::empty, (socket,), header) ==> header.socket == socket
            && header.len.0[0] == 0 && header.len.0[1] == 0,
        forall|r: SocketAddr| #[trigger]
            call_ensures(MuxFrameHeader::addr, (&header,), r) ==> r == header.socket,
        forall|r: u16| #[trigger]
            call_ensures(MuxFrameHeader::len, (&header,), r) ==> r == header.len.0[0] * 256
                + header.len.0[1],
        forall|r: Vec<u8>| #[trigger]
            call_ensures(MuxFrameHeader::bytes, (&header,), r) ==> r@ == header.socket.ip.octets@
                + header.socket.port.0@ + header.len.0@,
        call_ensures(MuxFrameHeader::from_bytes, (wire,), header) ==> wire@
            == header.socket.ip.octets@ + header.socket.port.0@ + header.len.0@,
{
    integers::law_encoding_is_unique(header.len);
}

/// The connection and the length that a header on the wire stands for.
pub open spec fn decoded(wire: Seq<u8>) -> (SocketAddr, nat) {
    choose|socket: SocketAddr, len: nat|
        len <= PACKET_SIZE && #[trigger] header_bytes(socket, len) == wire
}

/// Decoding is the inverse of encoding.
pub proof fn law_decoded_header(socket: SocketAddr, len: nat)
    requires
        len <= PACKET_SIZE,
    ensures
        decoded(header_bytes(socket, len)) == (socket, len),
{
    let (a, n) = decoded(header_bytes(socket, len));
    law_header_bytes_are_unique(a, n, socket, len);
}

} // verus!
