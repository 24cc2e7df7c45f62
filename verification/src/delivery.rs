//! What the receiving end makes of a stream.
//!
//! [`Demux`] says, byte by byte, what a stream asks of the end that receives it. What
//! [`crate::read`] does follows it, and it gives each connection what was sent to it.
use crate::error::MuxError;
use crate::poll::Poll;
use crate::protocol;
use crate::protocol::{HEADER_SIZE, PACKET_SIZE};
use crate::read::read_buffer::ReadBufferView;
use crate::read::{HeaderStep, HeaderTurn, ReaderView, StateView};
use crate::stream;
use crate::thin_addr::SocketAddr;
use vstd::prelude::*;

verus! {

/// Where in a frame a stream stands for the end that receives it.
pub enum Phase {
    /// In a header, of which these bytes have come.
    Header(Seq<u8>),
    /// In the payload of a frame, of which `left` bytes are to come.
    Payload { owner: SocketAddr, left: nat },
    /// Nowhere: the stream has failed, and nothing follows from what comes.
    Failed,
}

/// What the receiving end does about the stream.
pub enum Delivery {
    Opened(SocketAddr),
    Byte(SocketAddr, u8),
    Closed(SocketAddr),
}

/// What the receiving end has made of a stream: where it stands, which connections are open, and
/// what it has done.
#[verifier::ext_equal]
pub struct Demux {
    pub phase: Phase,
    pub open: Set<SocketAddr>,
    pub log: Seq<Delivery>,
}

impl Demux {
    /// After the header of a frame.
    pub open spec fn header(self, header: Seq<u8>, accepting: bool) -> Demux {
        let (owner, len) = protocol::decoded(header);
        if len > 0 {
            Demux { phase: Phase::Payload { owner, left: len }, ..self }
        } else if self.open.contains(owner) {
            Demux {
                phase: Phase::Header(seq![]),
                open: self.open.remove(owner),
                log: self.log.push(Delivery::Closed(owner)),
            }
        } else if accepting {
            Demux {
                phase: Phase::Header(seq![]),
                open: self.open.insert(owner),
                log: self.log.push(Delivery::Opened(owner)),
            }
        } else {
            Demux { phase: Phase::Header(seq![]), ..self }
        }
    }

    /// After one more byte. `accepting` says whether somebody accepts connections.
    pub open spec fn feed(self, byte: u8, accepting: bool) -> Demux {
        match self.phase {
            Phase::Header(header) => if header.len() + 1 < HEADER_SIZE {
                Demux { phase: Phase::Header(header.push(byte)), ..self }
            } else {
                self.header(header.push(byte), accepting)
            },
            Phase::Payload { owner, left } => Demux {
                phase: if left > 1 {
                    Phase::Payload { owner, left: (left - 1) as nat }
                } else {
                    Phase::Header(seq![])
                },
                open: self.open,
                log: if self.open.contains(owner) {
                    self.log.push(Delivery::Byte(owner, byte))
                } else {
                    self.log
                },
            },
            Phase::Failed => self,
        }
    }

    /// After more bytes.
    pub open spec fn feed_all(self, bytes: Seq<u8>, accepting: bool) -> Demux
        decreases bytes.len(),
    {
        if bytes.len() == 0 {
            self
        } else {
            self.feed_all(bytes.drop_last(), accepting).feed(bytes.last(), accepting)
        }
    }

    /// At the beginning of a frame.
    pub open spec fn between_frames(self) -> bool {
        self.phase == Phase::Header(seq![])
    }
}

/// What has been delivered to the connection `socket`.
pub open spec fn delivered(log: Seq<Delivery>, socket: SocketAddr) -> Seq<u8>
    decreases log.len(),
{
    if log.len() == 0 {
        seq![]
    } else {
        match log.last() {
            Delivery::Byte(owner, byte) if owner == socket => delivered(
                log.drop_last(),
                socket,
            ).push(byte),
            _ => delivered(log.drop_last(), socket),
        }
    }
}

/// The delivery of each of `bytes`.
pub open spec fn deliveries(socket: SocketAddr, bytes: Seq<u8>) -> Seq<Delivery> {
    Seq::new(bytes.len(), |i: int| Delivery::Byte(socket, bytes[i]))
}

/// It does not matter in which pieces a stream comes.
pub proof fn law_pieces_do_not_matter(d: Demux, first: Seq<u8>, second: Seq<u8>, accepting: bool)
    ensures
        d.feed_all(first + second, accepting) == d.feed_all(first, accepting).feed_all(
            second,
            accepting,
        ),
    decreases second.len(),
{
    if second.len() == 0 {
        assert(first + second =~= first);
    } else {
        assert((first + second).drop_last() =~= first + second.drop_last());
        law_pieces_do_not_matter(d, first, second.drop_last(), accepting);
    }
}

/// Part of a header is kept.
proof fn lemma_feed_part_of_header(d: Demux, bytes: Seq<u8>, accepting: bool)
    requires
        d.phase is Header,
        d.phase->Header_0.len() + bytes.len() < HEADER_SIZE,
    ensures
        d.feed_all(bytes, accepting) == (Demux {
            phase: Phase::Header(d.phase->Header_0 + bytes),
            ..d
        }),
    decreases bytes.len(),
{
    if bytes.len() == 0 {
        assert(d.phase->Header_0 + bytes =~= d.phase->Header_0);
    } else {
        lemma_feed_part_of_header(d, bytes.drop_last(), accepting);
        assert((d.phase->Header_0 + bytes.drop_last()).push(bytes.last()) =~= d.phase->Header_0
            + bytes);
    }
}

/// A header takes effect when it is complete.
proof fn lemma_feed_header(d: Demux, bytes: Seq<u8>, accepting: bool)
    requires
        d.phase is Header,
        d.phase->Header_0.len() < HEADER_SIZE,
        d.phase->Header_0.len() + bytes.len() == HEADER_SIZE,
    ensures
        d.feed_all(bytes, accepting) == d.header(d.phase->Header_0 + bytes, accepting),
{
    lemma_feed_part_of_header(d, bytes.drop_last(), accepting);
    assert((d.phase->Header_0 + bytes.drop_last()).push(bytes.last()) =~= d.phase->Header_0
        + bytes);
}

/// Payload goes to the connection whose frame it is in, if that connection is open.
proof fn lemma_feed_payload(d: Demux, bytes: Seq<u8>, accepting: bool)
    requires
        d.phase is Payload,
        bytes.len() <= d.phase->left,
        d.phase->left > 0,
    ensures
        d.feed_all(bytes, accepting) == (Demux {
            phase: if bytes.len() == d.phase->left {
                Phase::Header(seq![])
            } else {
                Phase::Payload {
                    owner: d.phase->owner,
                    left: (d.phase->left - bytes.len()) as nat,
                }
            },
            open: d.open,
            log: if d.open.contains(d.phase->owner) {
                d.log + deliveries(d.phase->owner, bytes)
            } else {
                d.log
            },
        }),
    decreases bytes.len(),
{
    let owner = d.phase->owner;
    if bytes.len() == 0 {
        assert(d.log + deliveries(owner, bytes) =~= d.log);
    } else {
        lemma_feed_payload(d, bytes.drop_last(), accepting);
        assert((d.log + deliveries(owner, bytes.drop_last())).push(
            Delivery::Byte(owner, bytes.last()),
        ) =~= d.log + deliveries(owner, bytes));
    }
}

/// A frame delivers its payload to its connection if that is open, and is skipped if not.
pub proof fn law_frame_is_delivered(d: Demux, socket: SocketAddr, payload: Seq<u8>, accepting: bool)
    requires
        d.between_frames(),
        0 < payload.len() <= PACKET_SIZE,
    ensures
        d.feed_all(protocol::frame_bytes(socket, payload), accepting) == (Demux {
            log: if d.open.contains(socket) {
                d.log + deliveries(socket, payload)
            } else {
                d.log
            },
            ..d
        }),
{
    let header = protocol::header_bytes(socket, payload.len());
    law_pieces_do_not_matter(d, header, payload, accepting);
    lemma_feed_header(d, header, accepting);
    assert(d.phase->Header_0 + header =~= header);
    protocol::law_decoded_header(socket, payload.len());
    lemma_feed_payload(d.feed_all(header, accepting), payload, accepting);
}

/// A header without payload closes the connection that it names if that is open. If it is not, it
/// opens it, provided that somebody accepts connections.
pub proof fn law_empty_frame_opens_or_closes(d: Demux, socket: SocketAddr, accepting: bool)
    requires
        d.between_frames(),
    ensures
        d.feed_all(protocol::header_bytes(socket, 0), accepting) == if d.open.contains(socket) {
            Demux {
                open: d.open.remove(socket),
                log: d.log.push(Delivery::Closed(socket)),
                ..d
            }
        } else if accepting {
            Demux {
                open: d.open.insert(socket),
                log: d.log.push(Delivery::Opened(socket)),
                ..d
            }
        } else {
            d
        },
{
    let header = protocol::header_bytes(socket, 0);
    lemma_feed_header(d, header, accepting);
    assert(d.phase->Header_0 + header =~= header);
    protocol::law_decoded_header(socket, 0);
}

/// Frames of an open connection deliver what they carry, in order.
pub proof fn law_frames_are_delivered(
    d: Demux,
    socket: SocketAddr,
    payloads: Seq<Seq<u8>>,
    accepting: bool,
)
    requires
        d.between_frames(),
        d.open.contains(socket),
        stream::carry_data(payloads),
    ensures
        d.feed_all(stream::frames_bytes(socket, payloads), accepting) == (Demux {
            log: d.log + deliveries(socket, stream::joined(payloads)),
            ..d
        }),
    decreases payloads.len(),
{
    if payloads.len() == 0 {
        assert(d.log + deliveries(socket, stream::joined(payloads)) =~= d.log);
    } else {
        let init = payloads.drop_last();
        assert forall|i: int| #![trigger init[i]] 0 <= i < init.len() implies 0 < init[i].len()
            <= PACKET_SIZE by {
            assert(init[i] == payloads[i]);
        }
        law_frames_are_delivered(d, socket, init, accepting);
        let frame = protocol::frame_bytes(socket, payloads.last());
        law_pieces_do_not_matter(d, stream::frames_bytes(socket, init), frame, accepting);
        assert(payloads[payloads.len() - 1] == payloads.last());
        law_frame_is_delivered(
            d.feed_all(stream::frames_bytes(socket, init), accepting),
            socket,
            payloads.last(),
            accepting,
        );
        assert(d.log + deliveries(socket, stream::joined(init)) + deliveries(socket, payloads.last())
            =~= d.log + deliveries(socket, stream::joined(payloads)));
    }
}

/// What `deliveries` delivers.
proof fn lemma_delivered(log: Seq<Delivery>, socket: SocketAddr, bytes: Seq<u8>)
    ensures
        delivered(log + deliveries(socket, bytes), socket) == delivered(log, socket) + bytes,
        forall|other: SocketAddr|
            other != socket ==> #[trigger] delivered(log + deliveries(socket, bytes), other)
                == delivered(log, other),
    decreases bytes.len(),
{
    if bytes.len() == 0 {
        assert(log + deliveries(socket, bytes) =~= log);
        assert(delivered(log, socket) + bytes =~= delivered(log, socket));
    } else {
        let all = log + deliveries(socket, bytes);
        assert(all.drop_last() =~= log + deliveries(socket, bytes.drop_last()));
        assert(all.last() == Delivery::Byte(socket, bytes.last()));
        lemma_delivered(log, socket, bytes.drop_last());
        assert((delivered(log, socket) + bytes.drop_last()).push(bytes.last()) =~= delivered(
            log,
            socket,
        ) + bytes);
        assert forall|other: SocketAddr| other != socket implies #[trigger] delivered(all, other)
            == delivered(log, other) by {
            assert(delivered(log + deliveries(socket, bytes.drop_last()), other) == delivered(
                log,
                other,
            ));
        }
    }
}

/// Frames of any connections, one after the other, as they stand on the wire.
pub open spec fn mixed_bytes(frames: Seq<(SocketAddr, Seq<u8>)>) -> Seq<u8>
    decreases frames.len(),
{
    if frames.len() == 0 {
        seq![]
    } else {
        mixed_bytes(frames.drop_last()) + protocol::frame_bytes(frames.last().0, frames.last().1)
    }
}

/// No frame has more payload than a frame can carry.
pub open spec fn fit(frames: Seq<(SocketAddr, Seq<u8>)>) -> bool {
    forall|i: int|
        #![trigger frames[i]]
        0 <= i < frames.len() ==> frames[i].1.len() <= PACKET_SIZE
}

/// What has been done about the connection `socket`.
pub open spec fn seen(log: Seq<Delivery>, socket: SocketAddr) -> Seq<Delivery>
    decreases log.len(),
{
    if log.len() == 0 {
        seq![]
    } else {
        let before = seen(log.drop_last(), socket);
        let owner = match log.last() {
            Delivery::Opened(owner) => owner,
            Delivery::Byte(owner, _) => owner,
            Delivery::Closed(owner) => owner,
        };
        if owner == socket {
            before.push(log.last())
        } else {
            before
        }
    }
}

/// The frames of the connection `socket` among others.
pub open spec fn own(frames: Seq<(SocketAddr, Seq<u8>)>, socket: SocketAddr) -> Seq<
    (SocketAddr, Seq<u8>),
>
    decreases frames.len(),
{
    if frames.len() == 0 {
        seq![]
    } else if frames.last().0 == socket {
        own(frames.drop_last(), socket).push(frames.last())
    } else {
        own(frames.drop_last(), socket)
    }
}

/// What `deliveries` shows.
proof fn lemma_seen(log: Seq<Delivery>, owner: SocketAddr, bytes: Seq<u8>, socket: SocketAddr)
    ensures
        seen(log + deliveries(owner, bytes), socket) == if owner == socket {
            seen(log, socket) + deliveries(owner, bytes)
        } else {
            seen(log, socket)
        },
    decreases bytes.len(),
{
    let all = log + deliveries(owner, bytes);
    if bytes.len() == 0 {
        assert(all =~= log);
        assert(seen(log, socket) + deliveries(owner, bytes) =~= seen(log, socket));
    } else {
        assert(all.drop_last() =~= log + deliveries(owner, bytes.drop_last()));
        assert(all.last() == Delivery::Byte(owner, bytes.last()));
        lemma_seen(log, owner, bytes.drop_last(), socket);
        assert((seen(log, socket) + deliveries(owner, bytes.drop_last())).push(all.last())
            =~= seen(log, socket) + deliveries(owner, bytes));
    }
}

/// After a frame, with payload or without.
proof fn lemma_feed_frame(
    d: Demux,
    owner: SocketAddr,
    payload: Seq<u8>,
    socket: SocketAddr,
    accepting: bool,
)
    requires
        d.between_frames(),
        payload.len() <= PACKET_SIZE,
    ensures
        ({
            let after = d.feed_all(protocol::frame_bytes(owner, payload), accepting);
            &&& after.between_frames()
            &&& if owner != socket {
                &&& after.open.contains(socket) == d.open.contains(socket)
                &&& seen(after.log, socket) == seen(d.log, socket)
            } else if payload.len() > 0 {
                &&& after.open.contains(socket) == d.open.contains(socket)
                &&& seen(after.log, socket) == if d.open.contains(socket) {
                    seen(d.log, socket) + deliveries(socket, payload)
                } else {
                    seen(d.log, socket)
                }
            } else if d.open.contains(socket) {
                &&& !after.open.contains(socket)
                &&& seen(after.log, socket) == seen(d.log, socket).push(Delivery::Closed(socket))
            } else {
                &&& after.open.contains(socket) == accepting
                &&& seen(after.log, socket) == if accepting {
                    seen(d.log, socket).push(Delivery::Opened(socket))
                } else {
                    seen(d.log, socket)
                }
            }
        }),
{
    if payload.len() > 0 {
        law_frame_is_delivered(d, owner, payload, accepting);
        lemma_seen(d.log, owner, payload, socket);
    } else {
        assert(protocol::frame_bytes(owner, payload) =~= protocol::header_bytes(owner, 0));
        law_empty_frame_opens_or_closes(d, owner, accepting);
        assert(d.log.push(Delivery::Opened(owner)).drop_last() =~= d.log);
        assert(d.log.push(Delivery::Closed(owner)).drop_last() =~= d.log);
    }
}

/// Connections that share a stream do not disturb each other. Whatever frames a stream carries, of
/// whatever connections and in whatever order, what is done about one connection is what would be
/// done if the stream carried its frames alone.
pub proof fn law_connections_are_independent(
    shared: Demux,
    alone: Demux,
    frames: Seq<(SocketAddr, Seq<u8>)>,
    socket: SocketAddr,
    accepting: bool,
)
    requires
        shared.between_frames(),
        alone.between_frames(),
        shared.open.contains(socket) == alone.open.contains(socket),
        seen(shared.log, socket) == seen(alone.log, socket),
        fit(frames),
    ensures
        ({
            let one = shared.feed_all(mixed_bytes(frames), accepting);
            let two = alone.feed_all(mixed_bytes(own(frames, socket)), accepting);
            &&& one.between_frames()
            &&& two.between_frames()
            &&& one.open.contains(socket) == two.open.contains(socket)
            &&& seen(one.log, socket) == seen(two.log, socket)
        }),
    decreases frames.len(),
{
    if frames.len() > 0 {
        let init = frames.drop_last();
        let (owner, payload) = frames.last();
        assert(frames[frames.len() - 1] == frames.last());
        assert forall|i: int| #![trigger init[i]] 0 <= i < init.len() implies init[i].1.len()
            <= PACKET_SIZE by {
            assert(init[i] == frames[i]);
        }
        law_connections_are_independent(shared, alone, init, socket, accepting);
        let frame = protocol::frame_bytes(owner, payload);
        law_pieces_do_not_matter(shared, mixed_bytes(init), frame, accepting);
        lemma_feed_frame(
            shared.feed_all(mixed_bytes(init), accepting),
            owner,
            payload,
            socket,
            accepting,
        );
        if owner == socket {
            assert(own(frames, socket).drop_last() =~= own(init, socket));
            law_pieces_do_not_matter(alone, mixed_bytes(own(init, socket)), frame, accepting);
            lemma_feed_frame(
                alone.feed_all(mixed_bytes(own(init, socket)), accepting),
                owner,
                payload,
                socket,
                accepting,
            );
        }
    }
}

/// What an open connection has put onto the stream by the time it is closed gives it all that its
/// frames carry at the other end, in order, and closes it.
pub proof fn law_what_is_answered_is_delivered(
    socket: SocketAddr,
    sent: Seq<u8>,
    payloads: Seq<Seq<u8>>,
    d: Demux,
    accepting: bool,
)
    requires
        stream::complete(socket, sent, payloads),
        d.between_frames(),
        d.open.contains(socket),
    ensures
        ({
            let after = d.feed_all(sent, accepting);
            &&& after.between_frames()
            &&& after.open == d.open.remove(socket)
            &&& after.log == d.log + deliveries(socket, stream::joined(payloads)).push(
                Delivery::Closed(socket),
            )
            &&& delivered(after.log, socket) == delivered(d.log, socket) + stream::joined(payloads)
        }),
{
    let frames = stream::frames_bytes(socket, payloads);
    law_pieces_do_not_matter(d, frames, protocol::header_bytes(socket, 0), accepting);
    law_frames_are_delivered(d, socket, payloads, accepting);
    let fed = d.feed_all(frames, accepting);
    law_empty_frame_opens_or_closes(fed, socket, accepting);
    let after = d.feed_all(sent, accepting);
    assert(after.log =~= d.log + deliveries(socket, stream::joined(payloads)).push(
        Delivery::Closed(socket),
    ));
    lemma_delivered(d.log, socket, stream::joined(payloads));
    assert(after.log.drop_last() =~= fed.log);
}

/// A connection from its opening to its closing: the header that opens it, followed by what it has
/// put onto the stream by the time it is closed, opens it at the other end, gives it all that its
/// frames carry, in order, and closes it.
pub proof fn law_what_is_written_is_delivered(
    socket: SocketAddr,
    sent: Seq<u8>,
    payloads: Seq<Seq<u8>>,
    d: Demux,
)
    requires
        stream::complete(socket, sent, payloads),
        d.between_frames(),
        !d.open.contains(socket),
    ensures
        ({
            let after = d.feed_all(protocol::header_bytes(socket, 0) + sent, true);
            &&& after.between_frames()
            &&& after.open == d.open
            &&& after.log == d.log.push(Delivery::Opened(socket)) + deliveries(
                socket,
                stream::joined(payloads),
            ).push(Delivery::Closed(socket))
            &&& delivered(after.log, socket) == delivered(d.log, socket) + stream::joined(payloads)
        }),
{
    let handshake = protocol::header_bytes(socket, 0);
    law_pieces_do_not_matter(d, handshake, sent, true);
    law_empty_frame_opens_or_closes(d, socket, true);
    let opened = d.feed_all(handshake, true);
    law_what_is_answered_is_delivered(socket, sent, payloads, opened, true);
    assert(opened.open.remove(socket) =~= d.open);
    assert(opened.log.drop_last() =~= d.log);
}

/// The frames of a connection with these payloads.
pub open spec fn posted(socket: SocketAddr, payloads: Seq<Seq<u8>>) -> Seq<(SocketAddr, Seq<u8>)> {
    Seq::new(payloads.len(), |i: int| (socket, payloads[i]))
}

/// The frames of an open connection up to its closing.
pub open spec fn answer(socket: SocketAddr, payloads: Seq<Seq<u8>>) -> Seq<(SocketAddr, Seq<u8>)> {
    posted(socket, payloads).push((socket, seq![]))
}

/// The frames of a connection from its opening to its closing.
pub open spec fn session(socket: SocketAddr, payloads: Seq<Seq<u8>>) -> Seq<
    (SocketAddr, Seq<u8>),
> {
    seq![(socket, seq![])] + answer(socket, payloads)
}

/// Frames behind frames stand on the wire behind them.
proof fn lemma_mixed_bytes(first: Seq<(SocketAddr, Seq<u8>)>, second: Seq<(SocketAddr, Seq<u8>)>)
    ensures
        mixed_bytes(first + second) == mixed_bytes(first) + mixed_bytes(second),
    decreases second.len(),
{
    if second.len() == 0 {
        assert(first + second =~= first);
        assert(mixed_bytes(first) + mixed_bytes(second) =~= mixed_bytes(first));
    } else {
        assert((first + second).drop_last() =~= first + second.drop_last());
        lemma_mixed_bytes(first, second.drop_last());
        assert(mixed_bytes(first + second) =~= mixed_bytes(first) + mixed_bytes(second));
    }
}

/// What stands on the wire for one frame without payload.
proof fn lemma_empty_frame_bytes(socket: SocketAddr)
    ensures
        protocol::frame_bytes(socket, Seq::<u8>::empty()) == protocol::header_bytes(socket, 0),
        mixed_bytes(seq![(socket, Seq::<u8>::empty())]) == protocol::header_bytes(socket, 0),
{
    let one = seq![(socket, Seq::<u8>::empty())];
    assert(protocol::frame_bytes(socket, Seq::<u8>::empty()) =~= protocol::header_bytes(socket, 0));
    assert(one.drop_last() =~= seq![]);
    assert(mixed_bytes(one.drop_last()) =~= seq![]);
    assert(mixed_bytes(one) =~= protocol::header_bytes(socket, 0));
}

/// What stands on the wire for the frames of a connection.
proof fn lemma_posted_bytes(socket: SocketAddr, payloads: Seq<Seq<u8>>)
    ensures
        mixed_bytes(posted(socket, payloads)) == stream::frames_bytes(socket, payloads),
    decreases payloads.len(),
{
    if payloads.len() > 0 {
        let all = posted(socket, payloads);
        assert(all.drop_last() =~= posted(socket, payloads.drop_last()));
        lemma_posted_bytes(socket, payloads.drop_last());
        assert(all.last() == (socket, payloads.last()));
    }
}

/// What a connection has put onto the stream by the time it is closed is such frames, without the
/// header that opens it and with it.
pub proof fn law_complete_connection_sent_a_session(
    socket: SocketAddr,
    sent: Seq<u8>,
    payloads: Seq<Seq<u8>>,
)
    requires
        stream::complete(socket, sent, payloads),
    ensures
        sent == mixed_bytes(answer(socket, payloads)),
        protocol::header_bytes(socket, 0) + sent == mixed_bytes(session(socket, payloads)),
{
    lemma_posted_bytes(socket, payloads);
    lemma_empty_frame_bytes(socket);
    assert(answer(socket, payloads).drop_last() =~= posted(socket, payloads));
    lemma_mixed_bytes(seq![(socket, seq![])], answer(socket, payloads));
}

/// An open connection on a stream that it shares with others: whatever else the stream carries in
/// between, the connection is given all that its frames carry at the other end, in order, and
/// closed.
pub proof fn law_what_is_answered_is_delivered_on_a_shared_stream(
    socket: SocketAddr,
    payloads: Seq<Seq<u8>>,
    frames: Seq<(SocketAddr, Seq<u8>)>,
    d: Demux,
    accepting: bool,
)
    requires
        stream::carry_data(payloads),
        own(frames, socket) == answer(socket, payloads),
        fit(frames),
        d.between_frames(),
        d.open.contains(socket),
    ensures
        ({
            let after = d.feed_all(mixed_bytes(frames), accepting);
            &&& after.between_frames()
            &&& !after.open.contains(socket)
            &&& seen(after.log, socket) == seen(d.log, socket) + deliveries(
                socket,
                stream::joined(payloads),
            ).push(Delivery::Closed(socket))
        }),
{
    let sent = stream::frames_bytes(socket, payloads) + protocol::header_bytes(socket, 0);
    law_connections_are_independent(d, d, frames, socket, accepting);
    law_complete_connection_sent_a_session(socket, sent, payloads);
    law_what_is_answered_is_delivered(socket, sent, payloads, d, accepting);
    let data = deliveries(socket, stream::joined(payloads));
    lemma_seen(d.log, socket, stream::joined(payloads), socket);
    assert((d.log + data.push(Delivery::Closed(socket))).drop_last() =~= d.log + data);
    assert((seen(d.log, socket) + data).push(Delivery::Closed(socket)) =~= seen(d.log, socket)
        + data.push(Delivery::Closed(socket)));
}

/// A connection from its opening to its closing on a stream that it shares with others: whatever
/// else the stream carries in between, the connection is opened at the other end, given all that
/// its frames carry, in order, and closed.
pub proof fn law_what_is_written_is_delivered_on_a_shared_stream(
    socket: SocketAddr,
    payloads: Seq<Seq<u8>>,
    frames: Seq<(SocketAddr, Seq<u8>)>,
    d: Demux,
)
    requires
        stream::carry_data(payloads),
        own(frames, socket) == session(socket, payloads),
        fit(frames),
        d.between_frames(),
        !d.open.contains(socket),
    ensures
        ({
            let after = d.feed_all(mixed_bytes(frames), true);
            &&& after.between_frames()
            &&& !after.open.contains(socket)
            &&& seen(after.log, socket) == seen(d.log, socket).push(Delivery::Opened(socket))
                + deliveries(socket, stream::joined(payloads)).push(Delivery::Closed(socket))
        }),
{
    let sent = stream::frames_bytes(socket, payloads) + protocol::header_bytes(socket, 0);
    law_connections_are_independent(d, d, frames, socket, true);
    law_complete_connection_sent_a_session(socket, sent, payloads);
    law_what_is_written_is_delivered(socket, sent, payloads, d);
    let data = deliveries(socket, stream::joined(payloads));
    let opened = d.log.push(Delivery::Opened(socket));
    assert(opened.drop_last() =~= d.log);
    lemma_seen(opened, socket, stream::joined(payloads), socket);
    assert((opened + data.push(Delivery::Closed(socket))).drop_last() =~= opened + data);
    assert((seen(opened, socket) + data).push(Delivery::Closed(socket)) =~= seen(d.log, socket).push(
        Delivery::Opened(socket),
    ) + data.push(Delivery::Closed(socket)));
}

/// What a [`ReaderView`] says about the stream, when `log` has been done about it.
pub open spec fn demux_of<H, F>(v: ReaderView<H, F>, log: Seq<Delivery>) -> Demux {
    Demux {
        phase: match v.state {
            StateView::Read { owner, left } => Phase::Payload { owner, left },
            StateView::NextPacket { header } => Phase::Header(header),
            StateView::SendSocket { .. } => Phase::Header(seq![]),
            StateView::Error => Phase::Failed,
        },
        open: v.sockets.dom(),
        log,
    }
}

/// Taking in bytes of a header succeeds, and does what those bytes of the stream ask for. A connection that has
/// to be opened is open once it has been inserted and is being handed over.
pub proof fn law_header_step_follows_the_stream<H, F, E>(
    v: ReaderView<H, F>,
    data: Seq<u8>,
    disconnected: bool,
    handle: H,
    future: F,
    log: Seq<Delivery>,
)
    requires
        v.valid(),
        v.state is NextPacket,
        0 < data.len(),
        v.state->header.len() + data.len() <= HEADER_SIZE,
    ensures
        ({
            let turn: HeaderTurn<H, F, E> = v.next_packet(Poll::Ready(Ok(data)), disconnected);
            let fed = demux_of(v, log).feed_all(data, !disconnected);
            let owner = protocol::decoded(v.state->header + data).0;
            match turn.step {
                HeaderStep::Return(answer) => {
                    &&& answer == Poll::<Result<(), MuxError<E>>>::Ready(Ok(()))
                    &&& demux_of(turn.view, log) == fed
                },
                HeaderStep::Closed(closed) => {
                    &&& demux_of(turn.view, log.push(Delivery::Closed(owner))) == fed
                    &&& v.sockets.dom().contains(owner)
                    &&& closed == v.sockets[owner]
                },
                HeaderStep::Open(socket) => {
                    let opened = ReaderView {
                        state: StateView::SendSocket { future },
                        sockets: turn.view.sockets.insert(socket, handle),
                    };
                    &&& socket == owner
                    &&& demux_of(opened, log.push(Delivery::Opened(socket))) == fed
                },
            }
        }),
{
    let turn: HeaderTurn<H, F, E> = v.next_packet(Poll::Ready(Ok(data)), disconnected);
    let d = demux_of(v, log);
    if v.state->header.len() + data.len() < HEADER_SIZE {
        lemma_feed_part_of_header(d, data, !disconnected);
    } else {
        lemma_feed_header(d, data, !disconnected);
        let owner = protocol::decoded(v.state->header + data).0;
        assert(v.sockets.remove(owner).dom() =~= v.sockets.dom().remove(owner));
        assert(v.sockets.insert(owner, handle).dom() =~= v.sockets.dom().insert(owner));
    }
}

/// Whoever reads a header from the stream waits only while the stream has nothing to give, and is
/// then woken by it.
pub proof fn law_header_step_waits_for_the_stream_only<H, F, E>(
    v: ReaderView<H, F>,
    read: Poll<Result<Seq<u8>, E>>,
    disconnected: bool,
)
    ensures
        v.next_packet(read, disconnected).step == HeaderStep::<H, E>::Return(Poll::Pending)
            <==> read is Pending,
{
}

/// Taking in payload succeeds, and does what those bytes of the stream ask for: they are delivered to the
/// connection whose frame they are in, if it is open.
pub proof fn law_payload_step_follows_the_stream<H, F>(
    v: ReaderView<H, F>,
    data: Seq<u8>,
    accepting: bool,
    log: Seq<Delivery>,
)
    requires
        v.valid(),
        v.state is Read,
        0 < data.len() <= v.state->left,
    ensures
        ({
            let owner = v.state->owner;
            let done = if v.sockets.dom().contains(owner) {
                log + deliveries(owner, data)
            } else {
                log
            };
            &&& demux_of(v.payload_came(data.len()), done) == demux_of(v, log).feed_all(
                data,
                accepting,
            )
            &&& v.payload_came(data.len()).state is Read || v.payload_came(data.len()).state
                is NextPacket
            &&& v.payload_result::<()>(data.len()) == Poll::<Result<(), MuxError<()>>>::Ready(
                Ok(()),
            )
            &&& v.sockets.dom().contains(owner) ==> {
                &&& delivered(log + deliveries(owner, data), owner) == delivered(log, owner) + data
                &&& forall|other: SocketAddr|
                    other != owner ==> #[trigger] delivered(log + deliveries(owner, data), other)
                        == delivered(log, other)
            }
        }),
{
    lemma_feed_payload(demux_of(v, log), data, accepting);
    lemma_delivered(log, v.state->owner, data);
}

/// What the owner of a connection has read, and what waits to be read, is what has been delivered.
pub open spec fn accounted_for(
    read: Seq<u8>,
    buffer: ReadBufferView,
    delivered: Seq<u8>,
) -> bool {
    read + buffer.unread == delivered
}

/// The owner of a connection reads what has been delivered, in order: this is so when payload comes
/// in, and when the owner reads `n` bytes.
pub proof fn law_owner_reads_what_was_delivered(
    read: Seq<u8>,
    buffer: ReadBufferView,
    delivered: Seq<u8>,
    data: Seq<u8>,
    n: nat,
)
    requires
        accounted_for(read, buffer, delivered),
        n <= buffer.unread.len(),
    ensures
        accounted_for(read, buffer.received(data), delivered + data),
        accounted_for(read + buffer.unread.take(n as int), buffer.consumed(n), delivered),
{
    assert(read + (buffer.unread + data) =~= delivered + data);
    assert(read + buffer.unread.take(n as int) + buffer.unread.skip(n as int) =~= delivered);
}

} // verus!
