//! Integers in the byte order of the wire.
use core::cmp::Ordering;
use vstd::prelude::*;
use vstd::std_specs::cmp::{PartialEqSpec, PartialOrdSpec};

verus! {

/// The big-endian encoding of `n` in two bytes.
pub open spec fn be16(n: nat) -> Seq<u8> {
    seq![(n / 256) as u8, (n % 256) as u8]
}

/// An unsigned 16-bit integer, kept as the two bytes that stand for it on the wire.
#[derive(Copy, Clone, Debug, Eq, Ord, Hash)]
pub struct NetworkOrderU16(pub [u8; 2]);

impl NetworkOrderU16 {
    /// The number that the two bytes stand for.
    pub open spec fn value(&self) -> nat {
        (self.0[0] * 256 + self.0[1]) as nat
    }

    /// The encoding of `x`.
    pub fn new(x: u16) -> (r: Self)
        ensures
            r.0@ == be16(x as nat),
            r.value() == x,
    {
        let hi: u8 = (x / 256) as u8;
        let lo: u8 = (x % 256) as u8;
        let r: Self = Self([hi, lo]);
        assert(r.0@ =~= be16(x as nat));
        r
    }

    /// The number that is encoded.
    pub fn get(self) -> (r: u16)
        ensures
            r == self.value(),
    {
        self.0[0] as u16 * 256 + self.0[1] as u16
    }

    /// The order of the encoded numbers.
    pub fn cmp(&self, other: &Self) -> (r: Ordering)
        ensures
            r == numeric_order(self.value(), other.value()),
    {
        let mine: u16 = self.get();
        let theirs: u16 = other.get();
        if mine < theirs {
            Ordering::Less
        } else if mine == theirs {
            Ordering::Equal
        } else {
            Ordering::Greater
        }
    }
}

/// How two numbers compare.
pub open spec fn numeric_order(a: nat, b: nat) -> Ordering {
    if a < b {
        Ordering::Less
    } else if a == b {
        Ordering::Equal
    } else {
        Ordering::Greater
    }
}

/// Encoding is the inverse of decoding: the bytes are determined by the number they stand for.
pub proof fn law_encoding_is_unique(x: NetworkOrderU16)
    ensures
        x.value() <= u16::MAX,
        x.0@ == be16(x.value()),
{
    assert(x.0@ =~= be16(x.value()));
}

/// Two numbers that fit in 16 bits have the same encoding only if they are equal.
pub proof fn law_be16_is_injective(a: nat, b: nat)
    requires
        a <= u16::MAX,
        b <= u16::MAX,
        be16(a) == be16(b),
    ensures
        a == b,
{
    assert(be16(a)[0] == be16(b)[0]);
    assert(be16(a)[1] == be16(b)[1]);
}

/// A number is encoded with its more significant byte first, and every encoding decodes to the number
/// that was encoded.
pub proof fn law_network_order(x: u16, encoded: NetworkOrderU16, n: nat)
    requires
        n <= u16::MAX,
    ensures
        be16(n).len() == 2,
        be16(n)[0] * 256 + be16(n)[1] == n,
        call_ensures(NetworkOrderU16::new, (x,), encoded) ==> encoded.0[0] * 256 + encoded.0[1] == x,
        forall|r: u16| #[trigger]
            call_ensures(NetworkOrderU16::get, (encoded,), r) ==> r == encoded.0[0] * 256
                + encoded.0[1],
{
}

/// Comparing two encodings is comparing the numbers, as far as they are told apart, and comparing an
/// encoding with a number is comparing two numbers.
pub proof fn law_encodings_compare(a: NetworkOrderU16, b: NetworkOrderU16, n: u16)
    ensures
        forall|r: Ordering| #[trigger]
            call_ensures(NetworkOrderU16::cmp, (&a, &b), r) ==> {
                let x = a.0[0] * 256 + a.0[1];
                let y = b.0[0] * 256 + b.0[1];
                &&& r is Less <==> x < y
                &&& r is Equal <==> x == y
                &&& r is Greater <==> x > y
            },
        a.eq_spec(&b) <==> a.0[0] == b.0[0] && a.0[1] == b.0[1],
        a.eq_spec(&n) <==> a.0[0] * 256 + a.0[1] == n,
        ({
            let x = a.0[0] * 256 + a.0[1];
            &&& a.partial_cmp_spec(&n) == Some(Ordering::Less) <==> x < n
            &&& a.partial_cmp_spec(&n) == Some(Ordering::Equal) <==> x == n
            &&& a.partial_cmp_spec(&n) == Some(Ordering::Greater) <==> x > n
        }),
        a.partial_cmp_spec(&b) == Some(Ordering::Equal),
{
    if a.0[0] == b.0[0] && a.0[1] == b.0[1] {
        assert(a.0 =~= b.0);
    }
}

impl PartialEq for NetworkOrderU16 {
    fn eq(&self, other: &Self) -> (r: bool) {
        let same: bool = self.0[0] == other.0[0] && self.0[1] == other.0[1];
        assert(same ==> self.0 =~= other.0);
        same
    }
}

impl vstd::std_specs::cmp::PartialEqSpecImpl for NetworkOrderU16 {
    open spec fn obeys_eq_spec() -> bool {
        true
    }

    open spec fn eq_spec(&self, other: &Self) -> bool {
        *self == *other
    }
}

/// The partial order puts any two encodings level. The order of the numbers is that of
/// [`NetworkOrderU16::cmp`].
impl PartialOrd for NetworkOrderU16 {
    fn partial_cmp(&self, other: &Self) -> (r: Option<Ordering>) {
        Some(NetworkOrderU16::cmp(other, other))
    }
}

impl vstd::std_specs::cmp::PartialOrdSpecImpl for NetworkOrderU16 {
    open spec fn obeys_partial_cmp_spec() -> bool {
        true
    }

    open spec fn partial_cmp_spec(&self, other: &Self) -> Option<Ordering> {
        Some(Ordering::Equal)
    }
}

impl PartialEq<u16> for NetworkOrderU16 {
    fn eq(&self, other: &u16) -> (r: bool) {
        self.get() == *other
    }

    fn ne(&self, other: &u16) -> (r: bool) {
        self.get() != *other
    }
}

impl vstd::std_specs::cmp::PartialEqSpecImpl<u16> for NetworkOrderU16 {
    open spec fn obeys_eq_spec() -> bool {
        true
    }

    open spec fn eq_spec(&self, other: &u16) -> bool {
        self.value() == *other
    }
}

impl PartialOrd<u16> for NetworkOrderU16 {
    fn partial_cmp(&self, other: &u16) -> (r: Option<Ordering>) {
        let mine: u16 = self.get();
        if mine < *other {
            Some(Ordering::Less)
        } else if mine == *other {
            Some(Ordering::Equal)
        } else {
            Some(Ordering::Greater)
        }
    }

    fn lt(&self, other: &u16) -> (r: bool) {
        self.get() < *other
    }

    fn le(&self, other: &u16) -> (r: bool) {
        self.get() <= *other
    }

    fn gt(&self, other: &u16) -> (r: bool) {
        self.get() > *other
    }

    fn ge(&self, other: &u16) -> (r: bool) {
        self.get() >= *other
    }
}

impl vstd::std_specs::cmp::PartialOrdSpecImpl<u16> for NetworkOrderU16 {
    open spec fn obeys_partial_cmp_spec() -> bool {
        true
    }

    open spec fn partial_cmp_spec(&self, other: &u16) -> Option<Ordering> {
        if self.value() < *other {
            Some(Ordering::Less)
        } else if self.value() == *other {
            Some(Ordering::Equal)
        } else {
            Some(Ordering::Greater)
        }
    }
}

} // verus!
