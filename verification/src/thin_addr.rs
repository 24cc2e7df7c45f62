//! Addresses that hold IPv4 and IPv6 in one form.
//!
//! An IPv4 address is kept as the IPv6 address that it maps to, so that an address always takes
//! sixteen bytes, and a socket address eighteen.
use crate::integers;
use crate::integers::NetworkOrderU16;
use core::hash::{Hash, Hasher};
use vstd::prelude::*;
use vstd::std_specs::cmp::PartialEqSpec;

verus! {

/// How many bytes a socket address takes on the wire.
pub const ADDR_SIZE: usize = 18;

/// An IP address in the form that tells the two families apart.
#[derive(Copy, Clone, Debug)]
pub enum StdIpAddr {
    V4([u8; 4]),
    V6([u8; 16]),
}

/// A socket address in the form that tells the two families apart.
#[derive(Copy, Clone, Debug)]
pub struct StdSocketAddr {
    pub ip: StdIpAddr,
    pub port: u16,
}

/// What a [`StdIpAddr`] holds: its family, and its bytes.
pub enum IpView {
    V4(Seq<u8>),
    V6(Seq<u8>),
}

impl View for StdIpAddr {
    type V = IpView;

    open spec fn view(&self) -> IpView {
        match self {
            StdIpAddr::V4(octets) => IpView::V4(octets@),
            StdIpAddr::V6(octets) => IpView::V6(octets@),
        }
    }
}

/// What the sixteen bytes of an IPv6 address that stands for an IPv4 address begin with.
pub open spec fn mapped_prefix() -> Seq<u8> {
    seq![0u8, 0, 0, 0, 0, 0, 0, 0, 0, 0, 0xff, 0xff]
}

/// The one form: an IPv4 address is put behind the prefix, an IPv6 address stays as it is.
pub open spec fn merged(ip: IpView) -> Seq<u8> {
    match ip {
        IpView::V4(octets) => mapped_prefix() + octets,
        IpView::V6(octets) => octets,
    }
}

/// Whether the sixteen bytes stand for an IPv4 address.
pub open spec fn is_mapped(octets: Seq<u8>) -> bool {
    octets.take(12) == mapped_prefix()
}

/// The two families told apart again.
pub open spec fn canonical(octets: Seq<u8>) -> IpView {
    if is_mapped(octets) {
        IpView::V4(octets.skip(12))
    } else {
        IpView::V6(octets)
    }
}

/// Telling the families apart loses nothing: merging them again gives the same sixteen bytes.
pub proof fn law_canonical_then_merged(octets: Seq<u8>)
    requires
        octets.len() == 16,
    ensures
        merged(canonical(octets)) == octets,
{
    assert(octets.take(12) + octets.skip(12) =~= octets);
}

/// An IPv4 address, and an IPv6 address that does not stand for one, survive being merged. An
/// IPv6 address that stands for an IPv4 address comes back as that IPv4 address.
pub proof fn law_merged_then_canonical(ip: IpView)
    requires
        match ip {
            IpView::V4(octets) => octets.len() == 4,
            IpView::V6(octets) => octets.len() == 16,
        },
    ensures
        match ip {
            IpView::V4(_) => canonical(merged(ip)) == ip,
            IpView::V6(octets) => canonical(merged(ip)) == if is_mapped(octets) {
                IpView::V4(octets.skip(12))
            } else {
                ip
            },
        },
{
    if let IpView::V4(octets) = ip {
        assert((mapped_prefix() + octets).take(12) =~= mapped_prefix());
        assert((mapped_prefix() + octets).skip(12) =~= octets);
    }
}

/// An IP address of either family, in sixteen bytes.
#[derive(Copy, Clone, Debug, Eq, PartialOrd, Ord)]
pub struct IpAddr {
    pub octets: [u8; 16],
}

impl IpAddr {
    /// The address with its family told apart: IPv4 if it is one that was mapped.
    pub fn to_std(self) -> (r: StdIpAddr)
        ensures
            r@ == canonical(self.octets@),
    {
        let mut i: usize = 0;
        while i < 10 && self.octets[i] == 0
            invariant
                0 <= i <= 10,
                forall|j: int| 0 <= j < i ==> self.octets[j] == 0,
            decreases 10 - i,
        {
            i = i + 1;
        }
        let o: [u8; 16] = self.octets;
        let mapped: bool = i == 10 && o[10] == 0xff && o[11] == 0xff;
        if mapped {
            let r: StdIpAddr = StdIpAddr::V4([o[12], o[13], o[14], o[15]]);
            assert(self.octets@.take(12) =~= mapped_prefix());
            assert(r->V4_0@ =~= self.octets@.skip(12));
            r
        } else {
            proof {
                if is_mapped(self.octets@) {
                    assert forall|j: int| 0 <= j < 12 implies self.octets[j] == mapped_prefix()[j] by {
                        assert(self.octets@.take(12)[j] == mapped_prefix()[j]);
                    }
                    assert(mapped_prefix()[i as int] == self.octets[i as int]);
                    assert(false);
                }
            }
            StdIpAddr::V6(o)
        }
    }

    /// The address in the one form.
    pub fn from_std(ip: StdIpAddr) -> (r: Self)
        ensures
            r.octets@ == merged(ip@),
    {
        match ip {
            StdIpAddr::V4(v4) => {
                let octets: [u8; 16] = [
                    0, 0, 0, 0, 0, 0, 0, 0, 0, 0, 0xff, 0xff, v4[0], v4[1], v4[2], v4[3],
                ];
                assert(octets@ =~= mapped_prefix() + v4@);
                Self { octets }
            },
            StdIpAddr::V6(octets) => Self { octets },
        }
    }
}

impl PartialEq for IpAddr {
    fn eq(&self, other: &Self) -> (r: bool) {
        let mut i: usize = 0;
        while i < 16
            invariant
                0 <= i <= 16,
                forall|j: int| 0 <= j < i ==> self.octets[j] == other.octets[j],
            decreases 16 - i,
        {
            if self.octets[i] != other.octets[i] {
                return false;
            }
            i = i + 1;
        }
        assert(self.octets =~= other.octets);
        true
    }
}

impl vstd::std_specs::cmp::PartialEqSpecImpl for IpAddr {
    open spec fn obeys_eq_spec() -> bool {
        true
    }

    open spec fn eq_spec(&self, other: &Self) -> bool {
        *self == *other
    }
}

/// The address of one end of a connection: it names the connection on the stream.
#[derive(Copy, Clone, Debug, Eq, PartialOrd, Ord)]
pub struct SocketAddr {
    pub ip: IpAddr,
    pub port: NetworkOrderU16,
}

impl SocketAddr {
    /// The address as it stands on the wire: the bytes of the IP address, then those of the port.
    pub open spec fn spec_bytes(&self) -> Seq<u8> {
        self.ip.octets@ + self.port.0@
    }

    /// The address with its family told apart.
    pub fn to_std(self) -> (r: StdSocketAddr)
        ensures
            r.ip@ == canonical(self.ip.octets@),
            r.port == self.port.value(),
    {
        StdSocketAddr { ip: self.ip.to_std(), port: self.port.get() }
    }

    /// The address in the one form.
    pub fn from_std(sock: StdSocketAddr) -> (r: Self)
        ensures
            r.ip.octets@ == merged(sock.ip@),
            r.port.0@ == integers::be16(sock.port as nat),
            r.port.value() == sock.port,
    {
        Self { ip: IpAddr::from_std(sock.ip), port: NetworkOrderU16::new(sock.port) }
    }

    /// The IP address.
    pub fn ip(&self) -> (r: IpAddr)
        ensures
            r == self.ip,
    {
        self.ip
    }

    /// The port.
    pub fn port(&self) -> (r: u16)
        ensures
            r == self.port.value(),
    {
        self.port.get()
    }

    /// The address as it stands on the wire.
    pub fn bytes(&self) -> (r: [u8; 18])
        ensures
            r@ == self.spec_bytes(),
    {
        let o: [u8; 16] = self.ip.octets;
        let p: [u8; 2] = self.port.0;
        let r: [u8; 18] = [
            o[0], o[1], o[2], o[3], o[4], o[5], o[6], o[7], o[8], o[9], o[10], o[11], o[12], o[13],
            o[14], o[15], p[0], p[1],
        ];
        assert(r@ =~= self.spec_bytes());
        r
    }

    /// The address that the first bytes of `wire` stand for.
    pub fn from_bytes(wire: &[u8]) -> (r: Self)
        requires
            wire@.len() >= ADDR_SIZE,
        ensures
            r.spec_bytes() == wire@.take(ADDR_SIZE as int),
    {
        let w: &[u8] = wire;
        let octets: [u8; 16] = [
            w[0], w[1], w[2], w[3], w[4], w[5], w[6], w[7], w[8], w[9], w[10], w[11], w[12], w[13],
            w[14], w[15],
        ];
        let port: NetworkOrderU16 = NetworkOrderU16([w[16], w[17]]);
        let r: Self = Self { ip: IpAddr { octets }, port };
        assert(r.spec_bytes() =~= wire@.take(ADDR_SIZE as int));
        r
    }
}

impl PartialEq for SocketAddr {
    fn eq(&self, other: &Self) -> (r: bool) {
        self.ip == other.ip && self.port == other.port
    }
}

impl vstd::std_specs::cmp::PartialEqSpecImpl for SocketAddr {
    open spec fn obeys_eq_spec() -> bool {
        true
    }

    open spec fn eq_spec(&self, other: &Self) -> bool {
        *self == *other
    }
}

/// Ten bytes of zero and two of ones stand before an IPv4 address, and only before one. An IPv6 address
/// stays as it is.
pub proof fn law_mapped_form(ip: StdIpAddr, addr: IpAddr)
    ensures
        forall|r: IpAddr| #[trigger]
            call_ensures(IpAddr::from_std, (ip,), r) ==> match ip {
                StdIpAddr::V4(v4) => stands_for_v4(r.octets@) && r.octets@.skip(12) == v4@,
                StdIpAddr::V6(v6) => r.octets@ == v6@,
            },
        forall|r: StdIpAddr| #[trigger]
            call_ensures(IpAddr::to_std, (addr,), r) ==> match r {
                StdIpAddr::V4(v4) => stands_for_v4(addr.octets@) && v4@ == addr.octets@.skip(12),
                StdIpAddr::V6(v6) => !stands_for_v4(addr.octets@) && v6@ == addr.octets@,
            },
{
    assert(stands_for_v4(addr.octets@) <==> is_mapped(addr.octets@)) by {
        let first = addr.octets@.take(12);
        if is_mapped(addr.octets@) {
            assert forall|i: int| 0 <= i < 12 implies #[trigger] addr.octets@[i] == mapped_prefix()[i] by {
                assert(first[i] == mapped_prefix()[i]);
            }
        }
        if stands_for_v4(addr.octets@) {
            assert(first =~= mapped_prefix());
        }
    }
    if let StdIpAddr::V4(v4) = ip {
        let octets = mapped_prefix() + v4@;
        assert(stands_for_v4(octets));
        assert(octets.skip(12) =~= v4@);
    }
}

/// The sixteen bytes are ten of zero, two of ones, and four more.
pub open spec fn stands_for_v4(octets: Seq<u8>) -> bool {
    &&& forall|i: int| 0 <= i < 10 ==> #[trigger] octets[i] == 0
    &&& octets[10] == 255
    &&& octets[11] == 255
}

/// What a socket address tells of itself, and what stands for it on the wire.
pub proof fn law_addr_tells(addr: SocketAddr, sock: StdSocketAddr, wire: &[u8])
    ensures
        forall|r: StdSocketAddr| #[trigger]
            call_ensures(SocketAddr::to_std, (addr,), r) ==> {
                &&& r.port == addr.port.0[0] * 256 + addr.port.0[1]
                &&& merged(r.ip@) == addr.ip.octets@
                &&& r.ip is V4 <==> stands_for_v4(addr.ip.octets@)
            },
        forall|r: SocketAddr| #[trigger]
            call_ensures(SocketAddr::from_std, (sock,), r) ==> {
                &&& r.port.0[0] * 256 + r.port.0[1] == sock.port
                &&& match sock.ip {
                    StdIpAddr::V4(v4) => stands_for_v4(r.ip.octets@) && r.ip.octets@.skip(12)
                        == v4@,
                    StdIpAddr::V6(v6) => r.ip.octets@ == v6@,
                }
            },
        forall|r: IpAddr| #[trigger] call_ensures(SocketAddr::ip, (&addr,), r) ==> r == addr.ip,
        forall|r: u16| #[trigger]
            call_ensures(SocketAddr::port, (&addr,), r) ==> r == addr.port.0[0] * 256
                + addr.port.0[1],
        forall|r: [u8; 18]| #[trigger]
            call_ensures(SocketAddr::bytes, (&addr,), r) ==> r@ == addr.ip.octets@ + addr.port.0@,
        forall|r: SocketAddr| #[trigger]
            call_ensures(SocketAddr::from_bytes, (wire,), r) ==> r.ip.octets@ + r.port.0@
                == wire@.take(18),
{
    law_mapped_form(sock.ip, addr.ip);
    law_canonical_then_merged(addr.ip.octets@);
    let first = addr.ip.octets@.take(12);
    if is_mapped(addr.ip.octets@) {
        assert forall|i: int| 0 <= i < 12 implies #[trigger] addr.ip.octets@[i] == mapped_prefix()[i] by {
            assert(first[i] == mapped_prefix()[i]);
        }
    }
    if stands_for_v4(addr.ip.octets@) {
        assert(first =~= mapped_prefix());
    }
    if let StdIpAddr::V4(v4) = sock.ip {
        let octets = mapped_prefix() + v4@;
        assert(stands_for_v4(octets));
        assert(octets.skip(12) =~= v4@);
    }
}

/// Two addresses are equal if and only if the same stands for them on the wire.
pub proof fn law_equal_addrs(a: SocketAddr, b: SocketAddr)
    ensures
        a.eq_spec(&b) <==> a.ip.octets@ + a.port.0@ == b.ip.octets@ + b.port.0@,
        a.ip.eq_spec(&b.ip) <==> a.ip.octets@ == b.ip.octets@,
{
    if a.spec_bytes() == b.spec_bytes() {
        law_addr_bytes_are_unique(a, b);
    }
    if a.ip.octets@ == b.ip.octets@ {
        assert(a.ip.octets =~= b.ip.octets);
    }
}

/// Addresses in a row stand on the wire one after the other, each in its own eighteen bytes, and IP
/// addresses each in its own sixteen.
pub proof fn law_addrs_in_a_row(addrs: Seq<SocketAddr>, ips: Seq<IpAddr>, i: int)
    ensures
        addrs_bytes(addrs).len() == 18 * addrs.len(),
        ips_bytes(ips).len() == 16 * ips.len(),
        0 <= i < addrs.len() ==> addrs_bytes(addrs).subrange(18 * i, 18 * i + 18)
            == addrs[i].ip.octets@ + addrs[i].port.0@,
        0 <= i < ips.len() ==> ips_bytes(ips).subrange(16 * i, 16 * i + 16) == ips[i].octets@,
    decreases addrs.len() + ips.len(),
{
    if addrs.len() > 0 {
        let init = addrs.drop_last();
        law_addrs_in_a_row(init, ips, i);
        if 0 <= i < init.len() {
            assert(addrs_bytes(addrs).subrange(18 * i, 18 * i + 18) =~= addrs_bytes(init).subrange(
                18 * i,
                18 * i + 18,
            ));
        } else if i == init.len() {
            assert(addrs_bytes(addrs).subrange(18 * i, 18 * i + 18) =~= addrs.last().spec_bytes());
        }
    } else if ips.len() > 0 {
        let init = ips.drop_last();
        law_addrs_in_a_row(addrs, init, i);
        if 0 <= i < init.len() {
            assert(ips_bytes(ips).subrange(16 * i, 16 * i + 16) =~= ips_bytes(init).subrange(
                16 * i,
                16 * i + 16,
            ));
        } else if i == init.len() {
            assert(ips_bytes(ips).subrange(16 * i, 16 * i + 16) =~= ips.last().octets@);
        }
    }
}

/// An address is determined by what stands for it on the wire.
pub proof fn law_addr_bytes_are_unique(a: SocketAddr, b: SocketAddr)
    requires
        a.spec_bytes() == b.spec_bytes(),
    ensures
        a == b,
{
    assert forall|i: int| 0 <= i < 16 implies a.ip.octets[i] == b.ip.octets[i] by {
        assert(a.spec_bytes()[i] == a.ip.octets@[i]);
        assert(b.spec_bytes()[i] == b.ip.octets@[i]);
    }
    assert forall|i: int| 0 <= i < 2 implies a.port.0[i] == b.port.0[i] by {
        assert(a.spec_bytes()[16 + i] == a.port.0@[i]);
        assert(b.spec_bytes()[16 + i] == b.port.0@[i]);
    }
    assert(a.ip.octets =~= b.ip.octets);
    assert(a.port.0 =~= b.port.0);
}

/// Addresses one after the other, as they stand on the wire.
pub open spec fn addrs_bytes(addrs: Seq<SocketAddr>) -> Seq<u8>
    decreases addrs.len(),
{
    if addrs.len() == 0 {
        seq![]
    } else {
        addrs_bytes(addrs.drop_last()) + addrs.last().spec_bytes()
    }
}

/// IP addresses one after the other, as they stand on the wire.
pub open spec fn ips_bytes(ips: Seq<IpAddr>) -> Seq<u8>
    decreases ips.len(),
{
    if ips.len() == 0 {
        seq![]
    } else {
        ips_bytes(ips.drop_last()) + ips.last().octets@
    }
}

/// The bytes of `addrs`, one address after the other.
pub fn socket_addrs_to_bytes(addrs: &[SocketAddr]) -> (r: Vec<u8>)
    ensures
        r@ == addrs_bytes(addrs@),
{
    let mut r: Vec<u8> = Vec::new();
    let mut i: usize = 0;
    while i < addrs.len()
        invariant
            0 <= i <= addrs@.len(),
            r@ == addrs_bytes(addrs@.take(i as int)),
        decreases addrs@.len() - i,
    {
        let one: [u8; 18] = addrs[i].bytes();
        let ghost before = r@;
        r.extend_from_slice(one.as_slice());
        assert(r@ =~= before + one@);
        assert(addrs@.take(i + 1).drop_last() =~= addrs@.take(i as int));
        i = i + 1;
    }
    assert(addrs@.take(i as int) =~= addrs@);
    r
}

/// The bytes of `ips`, one address after the other.
pub fn ip_addrs_to_bytes(ips: &[IpAddr]) -> (r: Vec<u8>)
    ensures
        r@ == ips_bytes(ips@),
{
    let mut r: Vec<u8> = Vec::new();
    let mut i: usize = 0;
    while i < ips.len()
        invariant
            0 <= i <= ips@.len(),
            r@ == ips_bytes(ips@.take(i as int)),
        decreases ips@.len() - i,
    {
        let ghost before = r@;
        r.extend_from_slice(ips[i].octets.as_slice());
        assert(r@ =~= before + ips[i as int].octets@);
        assert(ips@.take(i + 1).drop_last() =~= ips@.take(i as int));
        i = i + 1;
    }
    assert(ips@.take(i as int) =~= ips@);
    r
}

/// Calls `Hasher::write` of the standard library: the hasher takes in `bytes`. Nothing is claimed
/// of what becomes of the hasher, which is for its type to say. It is public because the contracts
/// of the hash methods name it.
#[verifier::external_body]
pub fn hash_bytes<H: Hasher>(bytes: &[u8], state: &mut H) {
    state.write(bytes)
}

/// An IP address is hashed as its bytes, in one piece.
impl Hash for IpAddr {
    fn hash<H: Hasher>(&self, state: &mut H)
        ensures
            exists|piece: &[u8], s: &mut H|
                piece@ == self.octets@ && *s == *old(state) && *final(s) == *final(state)
                    && #[trigger] call_ensures(hash_bytes::<H>, (piece, s), ()),
    {
        hash_bytes(self.octets.as_slice(), state)
    }

    fn hash_slice<H: Hasher>(data: &[Self], state: &mut H)
        ensures
            exists|piece: &[u8], s: &mut H|
                piece@ == ips_bytes(data@) && *s == *old(state) && *final(s) == *final(state)
                    && #[trigger] call_ensures(hash_bytes::<H>, (piece, s), ()),
    {
        hash_bytes(ip_addrs_to_bytes(data).as_slice(), state)
    }
}

/// A socket address is hashed as what stands for it on the wire, in one piece.
impl Hash for SocketAddr {
    fn hash<H: Hasher>(&self, state: &mut H)
        ensures
            exists|piece: &[u8], s: &mut H|
                piece@ == self.spec_bytes() && *s == *old(state) && *final(s) == *final(state)
                    && #[trigger] call_ensures(hash_bytes::<H>, (piece, s), ()),
    {
        hash_bytes(self.bytes().as_slice(), state)
    }

    fn hash_slice<H: Hasher>(data: &[Self], state: &mut H)
        ensures
            exists|piece: &[u8], s: &mut H|
                piece@ == addrs_bytes(data@) && *s == *old(state) && *final(s) == *final(state)
                    && #[trigger] call_ensures(hash_bytes::<H>, (piece, s), ()),
    {
        hash_bytes(socket_addrs_to_bytes(data).as_slice(), state)
    }
}

} // verus!
