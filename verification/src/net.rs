//! IP addresses as plain integers.
use vstd::prelude::*;

verus! {

/// An IP address: a version 4 address as its 32-bit big-endian value, or a
/// version 6 address as its 128-bit big-endian value.
#[derive(Clone, Copy, Debug, PartialEq, Eq, Hash, Structural)]
pub enum IpAddr {
    V4(u32),
    V6(u128),
}

/// `10.0.0.0/8`, `172.16.0.0/12` or `192.168.0.0/16`.
pub open spec fn is_private_v4(a: u32) -> bool {
    ||| a / 0x0100_0000 == 10
    ||| a / 0x0010_0000 == 0xAC1
    ||| a / 0x0001_0000 == 0xC0A8
}

/// `127.0.0.0/8`.
pub open spec fn is_loopback_v4(a: u32) -> bool {
    a / 0x0100_0000 == 127
}

/// `::1`.
pub open spec fn is_loopback_v6(a: u128) -> bool {
    a == 1
}

/// Unique local addresses: the first 16-bit group masked with `0xfe00` is `0xfc00`.
pub open spec fn is_unique_local_v6(a: u128) -> bool {
    (a / 0x1_0000_0000_0000_0000_0000_0000_0000) / 0x200 == 0x7E
}

/// Addresses that stay on this machine or inside a private network.
pub open spec fn spec_is_private_ip(ip: IpAddr) -> bool {
    match ip {
        IpAddr::V4(a) => is_private_v4(a) || is_loopback_v4(a),
        IpAddr::V6(a) => is_loopback_v6(a) || is_unique_local_v6(a),
    }
}

/// Whether `ip` is private or loopback (for version 6: loopback or unique local).
pub fn is_private_ip(ip: IpAddr) -> (r: bool)
    ensures
        r == spec_is_private_ip(ip),
{
    match ip {
        IpAddr::V4(a) => {
            a / 0x0100_0000 == 10 || a / 0x0010_0000 == 0xAC1 || a / 0x0001_0000 == 0xC0A8
                || a / 0x0100_0000 == 127
        },
        IpAddr::V6(a) => a == 1 || (a / 0x1_0000_0000_0000_0000_0000_0000_0000) / 0x200 == 0x7E,
    }
}

} // verus!

verus! {

/// The decimal text of an IPv4 address: four decimal octets joined by dots.
pub open spec fn dotted_quad(a: u32) -> Seq<char> {
    crate::text::decimal((a / 0x0100_0000) as nat) + seq!['.']
        + crate::text::decimal(((a / 0x0001_0000) % 256) as nat) + seq!['.']
        + crate::text::decimal(((a / 0x0100) % 256) as nat) + seq!['.']
        + crate::text::decimal((a % 256) as nat)
}

/// The text that `std` writes for an address (`Display` of `core::net::IpAddr`, the type `std::net` re-exports).
pub uninterp spec fn ip_text(ip: IpAddr) -> Seq<char>;

/// The address that `std` reads from a text, if it is one (`str::parse::<core::net::IpAddr>`).
pub uninterp spec fn parsed_ip(text: Seq<char>) -> Option<IpAddr>;

/// `ip.to_string()` on the `core::net::IpAddr` with the same value. Its text
/// is named, a function of the address alone; for version 4 it is the
/// dotted decimal form, as `Ipv4Addr`'s `Display` documents. `Display` writes
/// the textual representation that the address types document for their
/// `FromStr` (dotted decimal, and for version 6 the RFC 5952 form), so
/// parsing the text gives the same address back.
#[verifier::external_body]
pub(crate) fn ip_to_string(ip: IpAddr) -> (s: String)
    ensures
        s@ == ip_text(ip),
        ip matches IpAddr::V4(a) ==> s@ == dotted_quad(a),
        parsed_ip(s@) == Some(ip),
{
    match ip {
        IpAddr::V4(a) => core::net::IpAddr::V4(core::net::Ipv4Addr::from(a)),
        IpAddr::V6(a) => core::net::IpAddr::V6(core::net::Ipv6Addr::from(a)),
    }.to_string()
}

/// `text.parse::<core::net::IpAddr>()`: the address written in `text`, if
/// `std` accepts it. What it accepts is left to `std` and named here.
#[verifier::external_body]
pub(crate) fn parse_ip(text: &str) -> (r: Option<IpAddr>)
    ensures
        r == parsed_ip(text@),
{
    match text.parse::<core::net::IpAddr>() {
        Ok(core::net::IpAddr::V4(a)) => Some(IpAddr::V4(u32::from(a))),
        Ok(core::net::IpAddr::V6(a)) => Some(IpAddr::V6(u128::from(a))),
        Err(_) => None,
    }
}

} // verus!
