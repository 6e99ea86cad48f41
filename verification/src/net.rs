//! Plain value types for link-layer and IPv4 addresses.

use vstd::prelude::*;

verus! {

/// A 6-byte hardware (MAC) address; equality is byte-wise.
#[derive(Clone, Copy, PartialEq, Eq, Structural, Debug)]
pub struct MacAddr {
    pub b0: u8,
    pub b1: u8,
    pub b2: u8,
    pub b3: u8,
    pub b4: u8,
    pub b5: u8,
}

impl View for MacAddr {
    type V = Seq<u8>;

    open spec fn view(&self) -> Seq<u8> {
        seq![self.b0, self.b1, self.b2, self.b3, self.b4, self.b5]
    }
}

impl MacAddr {
    pub fn new(a: u8, b: u8, c: u8, d: u8, e: u8, f: u8) -> (r: Self)
        ensures
            r@ == seq![a, b, c, d, e, f],
    {
        MacAddr { b0: a, b1: b, b2: c, b3: d, b4: e, b5: f }
    }
}

impl Default for MacAddr {
    /// The all-zero hardware address.
    fn default() -> (r: Self)
        ensures
            r@ == seq![0u8, 0u8, 0u8, 0u8, 0u8, 0u8],
    {
        MacAddr { b0: 0, b1: 0, b2: 0, b3: 0, b4: 0, b5: 0 }
    }
}

/// An IPv4 address held as its four octets.
#[derive(Clone, Copy, PartialEq, Eq, Structural, Debug)]
pub struct Ipv4Address {
    pub o0: u8,
    pub o1: u8,
    pub o2: u8,
    pub o3: u8,
}

impl View for Ipv4Address {
    type V = Seq<u8>;

    open spec fn view(&self) -> Seq<u8> {
        seq![self.o0, self.o1, self.o2, self.o3]
    }
}

impl Ipv4Address {
    pub fn new(a: u8, b: u8, c: u8, d: u8) -> (r: Self)
        ensures
            r@ == seq![a, b, c, d],
    {
        Ipv4Address { o0: a, o1: b, o2: c, o3: d }
    }
}

/// The ASCII code of a lowercase hexadecimal digit.
pub open spec fn hex_digit(n: u8) -> u8
    recommends
        n < 16,
{
    if n < 10 {
        (48 + n) as u8
    } else {
        (87 + n) as u8
    }
}

/// The two lowercase hexadecimal digits of a byte, as ASCII codes.
pub open spec fn byte_hex(n: u8) -> Seq<u8> {
    seq![hex_digit(n / 16), hex_digit(n % 16)]
}

/// The textual form of a hardware address: lowercase colon-separated hex
/// octets, as ASCII codes.
pub open spec fn mac_text_spec(m: MacAddr) -> Seq<u8> {
    byte_hex(m.b0) + seq![58u8] + byte_hex(m.b1) + seq![58u8] + byte_hex(m.b2) + seq![58u8]
        + byte_hex(m.b3) + seq![58u8] + byte_hex(m.b4) + seq![58u8] + byte_hex(m.b5)
}

/// The ASCII code of a lowercase hexadecimal digit.
fn hex_digit_value(n: u8) -> (r: u8)
    requires
        n < 16,
    ensures
        r == hex_digit(n),
{
    if n < 10 {
        48 + n
    } else {
        87 + n
    }
}

impl MacAddr {
    /// Render the address as lowercase colon-separated hex octets, in
    /// ASCII.
    pub fn text(&self) -> (r: Vec<u8>)
        ensures
            r@ == mac_text_spec(*self),
    {
        let mut v: Vec<u8> = Vec::new();
        v.push(hex_digit_value(self.b0 / 16));
        v.push(hex_digit_value(self.b0 % 16));
        v.push(58);
        v.push(hex_digit_value(self.b1 / 16));
        v.push(hex_digit_value(self.b1 % 16));
        v.push(58);
        v.push(hex_digit_value(self.b2 / 16));
        v.push(hex_digit_value(self.b2 % 16));
        v.push(58);
        v.push(hex_digit_value(self.b3 / 16));
        v.push(hex_digit_value(self.b3 % 16));
        v.push(58);
        v.push(hex_digit_value(self.b4 / 16));
        v.push(hex_digit_value(self.b4 % 16));
        v.push(58);
        v.push(hex_digit_value(self.b5 / 16));
        v.push(hex_digit_value(self.b5 % 16));
        proof {
            assert(v@ =~= mac_text_spec(*self));
        }
        v
    }
}

/// The fixed host portion of the candidate address the responder offers.
pub const CANDIDATE_HOST_OCTET: u8 = 200;

/// Derive the candidate lease address from the bound interface's address:
/// same subnet, fixed host octet.
pub fn get_lease_ip(server_ip: Ipv4Address) -> (r: Ipv4Address)
    ensures
        r.o0 == server_ip.o0,
        r.o1 == server_ip.o1,
        r.o2 == server_ip.o2,
        r.o3 == CANDIDATE_HOST_OCTET,
{
    Ipv4Address { o0: server_ip.o0, o1: server_ip.o1, o2: server_ip.o2, o3: CANDIDATE_HOST_OCTET }
}

} // verus!
