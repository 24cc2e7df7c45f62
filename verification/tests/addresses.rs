use std::cmp::Ordering;
use std::hash::{Hash, Hasher};
use vt_muxer::integers::NetworkOrderU16;
use vt_muxer::protocol::MuxFrameHeader;
use vt_muxer::thin_addr::{
    ip_addrs_to_bytes, socket_addrs_to_bytes, IpAddr, SocketAddr, StdIpAddr, StdSocketAddr,
};

fn v4(octets: [u8; 4], port: u16) -> SocketAddr {
    SocketAddr::from_std(StdSocketAddr { ip: StdIpAddr::V4(octets), port })
}

#[test]
fn integers_are_big_endian() {
    assert_eq!(NetworkOrderU16::new(0x1234).0, [0x12, 0x34]);
    assert_eq!(NetworkOrderU16([0xab, 0xcd]).get(), 0xabcd);
    assert_eq!(NetworkOrderU16::new(0).0, [0, 0]);
    assert_eq!(NetworkOrderU16::new(u16::MAX).0, [0xff, 0xff]);
    for x in [0, 1, 255, 256, 257, 8080, 65534, 65535] {
        assert_eq!(NetworkOrderU16::new(x).get(), x);
    }
}

#[test]
fn integers_compare_with_native_ones() {
    let x = NetworkOrderU16::new(0x0100);
    assert!(x == 0x0100u16);
    assert!(x != 0x0001u16);
    assert!(x > 0x00ffu16);
    assert!(x >= 0x0100u16);
    assert!(x < 0x0101u16);
    assert!(x <= 0x0100u16);
    assert!(!(x < 0x0100u16));
    assert!(!(x > 0x0100u16));
    assert_eq!(x.partial_cmp(&0x0001u16), Some(Ordering::Greater));
    assert_eq!(x.partial_cmp(&0x0100u16), Some(Ordering::Equal));
    assert_eq!(x.partial_cmp(&0xffffu16), Some(Ordering::Less));
}

#[test]
fn integers_are_ordered_by_value() {
    let small = NetworkOrderU16::new(0x00ff);
    let large = NetworkOrderU16::new(0x0100);
    assert_eq!(small.cmp(&large), Ordering::Less);
    assert_eq!(large.cmp(&small), Ordering::Greater);
    assert_eq!(large.cmp(&large), Ordering::Equal);
    assert_eq!(Ord::cmp(&small, &large), Ordering::Less);
    assert_eq!(Ord::cmp(&large, &small), Ordering::Greater);
    assert!(small == small && small != large);
}

#[test]
fn the_partial_order_of_integers_is_level() {
    let small = NetworkOrderU16::new(1);
    let large = NetworkOrderU16::new(2);
    assert_eq!(PartialOrd::partial_cmp(&small, &large), Some(Ordering::Equal));
    assert_eq!(PartialOrd::partial_cmp(&large, &small), Some(Ordering::Equal));
    assert!(!(small < large));
    assert!(large <= small);
    assert_eq!(v4([1, 2, 3, 4], 1).partial_cmp(&v4([1, 2, 3, 4], 2)), Some(Ordering::Equal));
    assert_eq!(v4([1, 2, 3, 4], 1).cmp(&v4([1, 2, 3, 4], 2)), Ordering::Less);
    assert_eq!(v4([1, 2, 3, 4], 1).cmp(&v4([1, 2, 3, 3], 2)), Ordering::Greater);
}

#[test]
fn ipv4_is_mapped_into_ipv6() {
    let ip = IpAddr::from_std(StdIpAddr::V4([127, 0, 0, 1]));
    assert_eq!(ip.octets, [0, 0, 0, 0, 0, 0, 0, 0, 0, 0, 0xff, 0xff, 127, 0, 0, 1]);
    assert!(matches!(ip.to_std(), StdIpAddr::V4([127, 0, 0, 1])));
}

#[test]
fn ipv6_keeps_its_bytes() {
    let localhost = [0, 0, 0, 0, 0, 0, 0, 0, 0, 0, 0, 0, 0, 0, 0, 1];
    let ip = IpAddr::from_std(StdIpAddr::V6(localhost));
    assert_eq!(ip.octets, localhost);
    assert!(matches!(ip.to_std(), StdIpAddr::V6(o) if o == localhost));
    let compatible = [0, 0, 0, 0, 0, 0, 0, 0, 0, 0, 0, 0, 10, 0, 0, 1];
    assert!(matches!(
        IpAddr::from_std(StdIpAddr::V6(compatible)).to_std(),
        StdIpAddr::V6(o) if o == compatible
    ));
    let near = [0, 0, 0, 0, 0, 0, 0, 0, 0, 1, 0xff, 0xff, 10, 0, 0, 1];
    assert!(matches!(
        IpAddr::from_std(StdIpAddr::V6(near)).to_std(),
        StdIpAddr::V6(o) if o == near
    ));
}

#[test]
fn mapped_ipv6_comes_back_as_ipv4() {
    let mapped = [0, 0, 0, 0, 0, 0, 0, 0, 0, 0, 0xff, 0xff, 10, 1, 2, 3];
    let ip = IpAddr::from_std(StdIpAddr::V6(mapped));
    assert!(matches!(ip.to_std(), StdIpAddr::V4([10, 1, 2, 3])));
    assert_eq!(IpAddr::from_std(ip.to_std()), ip);
}

#[test]
fn socket_addresses_have_an_ip_and_a_port() {
    let sock = v4([10, 0, 0, 7], 8080);
    assert_eq!(sock.port(), 8080);
    assert_eq!(sock.ip(), IpAddr::from_std(StdIpAddr::V4([10, 0, 0, 7])));
    let std_form = sock.to_std();
    assert!(matches!(std_form.ip, StdIpAddr::V4([10, 0, 0, 7])));
    assert_eq!(std_form.port, 8080);
    let wire = sock.bytes();
    assert_eq!(&wire[10..], &[0xff, 0xff, 10, 0, 0, 7, 0x1f, 0x90]);
    assert_eq!(SocketAddr::from_bytes(&wire), sock);
    assert!(sock != v4([10, 0, 0, 7], 8081));
    assert!(sock != v4([10, 0, 0, 8], 8080));
}

#[test]
fn headers_survive_the_wire() {
    let sock = v4([10, 0, 0, 7], 8080);
    let header = MuxFrameHeader { socket: sock, len: NetworkOrderU16::new(0x0102) };
    let wire = header.bytes();
    assert_eq!(wire.len(), 20);
    assert_eq!(&wire[18..], &[1, 2]);
    let back = MuxFrameHeader::from_bytes(&wire);
    assert_eq!(back.addr(), sock);
    assert_eq!(back.len(), 0x0102);
    let empty = MuxFrameHeader::empty(sock);
    assert_eq!(empty.addr(), sock);
    assert_eq!(empty.len(), 0);
    assert_eq!(&empty.bytes()[18..], &[0, 0]);
}

#[derive(Default)]
struct Recorder(Vec<Vec<u8>>);

impl Hasher for Recorder {
    fn write(&mut self, bytes: &[u8]) {
        self.0.push(bytes.to_vec());
    }

    fn finish(&self) -> u64 {
        0
    }
}

#[test]
fn addresses_are_hashed_as_their_bytes() {
    let sock = v4([10, 0, 0, 7], 8080);
    let mut recorder = Recorder::default();
    sock.hash(&mut recorder);
    assert_eq!(recorder.0, vec![sock.bytes().to_vec()]);

    let mut recorder = Recorder::default();
    sock.ip().hash(&mut recorder);
    assert_eq!(recorder.0, vec![sock.ip().octets.to_vec()]);

    let other = v4([10, 0, 0, 8], 1);
    let mut recorder = Recorder::default();
    SocketAddr::hash_slice(&[sock, other], &mut recorder);
    assert_eq!(recorder.0, vec![[sock.bytes(), other.bytes()].concat()]);
    assert_eq!(socket_addrs_to_bytes(&[sock, other]), [sock.bytes(), other.bytes()].concat());

    let mut recorder = Recorder::default();
    IpAddr::hash_slice(&[sock.ip(), other.ip()], &mut recorder);
    assert_eq!(recorder.0, vec![[sock.ip().octets, other.ip().octets].concat()]);
    assert_eq!(
        ip_addrs_to_bytes(&[sock.ip(), other.ip()]),
        [sock.ip().octets, other.ip().octets].concat()
    );
}
