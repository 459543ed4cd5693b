//! Decoding a captured Ethernet frame down to the flow it belongs to and its
//! transport payload. The header fields are read by `pnet_packet`.
use vstd::prelude::*;
use crate::net::IpAddr;
use crate::model::{ConnectionKey, TransportProtocol};

verus! {

/// The big-endian value of two bytes.
pub open spec fn be16(hi: u8, lo: u8) -> int {
    hi * 256 + lo
}

/// The big-endian value of a byte sequence.
pub open spec fn be_value(s: Seq<u8>) -> nat
    decreases s.len(),
{
    if s.len() == 0 {
        0
    } else {
        be_value(s.drop_last()) * 256 + (s.last() as nat)
    }
}

/// The bytes of `s` from `start` on; empty when `s` is not longer than `start`.
pub open spec fn tail_from(s: Seq<u8>, start: int) -> Seq<u8> {
    if s.len() <= start {
        seq![]
    } else {
        s.subrange(start, s.len() as int)
    }
}

/// Up to `len` bytes of `s` from `start` on; empty when `s` is not longer than `start`.
pub open spec fn window(s: Seq<u8>, start: int, len: int) -> Seq<u8> {
    if s.len() <= start {
        seq![]
    } else if start + len < s.len() {
        s.subrange(start, start + len)
    } else {
        s.subrange(start, s.len() as int)
    }
}

/// Where the payload of an IPv4 packet starts: after 20 bytes, or after the
/// header length (in 32-bit words, the low half of the first byte) when that is more.
pub open spec fn ipv4_payload_start(d: Seq<u8>) -> int {
    if (d[0] % 16) * 4 > 20 {
        (d[0] % 16) * 4
    } else {
        20
    }
}

/// How long the payload of an IPv4 packet says it is: total length less the
/// header length, or 0 when that would be negative.
pub open spec fn ipv4_payload_len(d: Seq<u8>) -> int {
    let total = be16(d[2], d[3]);
    let header = (d[0] % 16) * 4;
    if total > header {
        total - header
    } else {
        0
    }
}

/// The payload of an IPv4 packet of at least 20 bytes.
pub open spec fn ipv4_payload(d: Seq<u8>) -> Seq<u8> {
    window(d, ipv4_payload_start(d), ipv4_payload_len(d))
}

/// The payload of an IPv6 packet of at least 40 bytes: as many bytes after
/// the fixed header as its payload length field says, or fewer if the packet ends.
pub open spec fn ipv6_payload(d: Seq<u8>) -> Seq<u8> {
    window(d, 40, be16(d[4], d[5]))
}

/// Where the payload of a TCP segment starts: after the data offset (in
/// 32-bit words, the high half of byte 12) when it is more than 5, else after 20 bytes.
pub open spec fn tcp_payload_start(d: Seq<u8>) -> int {
    if d[12] / 16 > 5 {
        (d[12] / 16) * 4
    } else {
        20
    }
}

/// The payload of a TCP segment of at least 20 bytes.
pub open spec fn tcp_payload(d: Seq<u8>) -> Seq<u8> {
    tail_from(d, tcp_payload_start(d))
}

/// The payload of a UDP datagram of at least 8 bytes: everything after the header.
pub open spec fn udp_payload(d: Seq<u8>) -> Seq<u8> {
    tail_from(d, 8)
}

/// `EthernetPacket::new(frame).is_some()`: a frame holds an Ethernet header
/// when it has at least 14 bytes.
#[verifier::external_body]
fn ethernet_fits(frame: &[u8]) -> (r: bool)
    ensures
        r == (frame@.len() >= 14),
{
    pnet_packet::ethernet::EthernetPacket::new(frame).is_some()
}

/// `EthernetPacket::get_ethertype`: bytes 12 and 13, big-endian.
#[verifier::external_body]
fn ethernet_ethertype(frame: &[u8]) -> (r: u16)
    requires
        frame@.len() >= 14,
    ensures
        r == be16(frame@[12], frame@[13]),
{
    pnet_packet::ethernet::EthernetPacket::new(frame).unwrap().get_ethertype().0
}

/// `Packet::payload` of an `EthernetPacket`: everything after the 14-byte header.
#[verifier::external_body]
fn ethernet_payload(frame: &[u8]) -> (r: Vec<u8>)
    requires
        frame@.len() >= 14,
    ensures
        r@ == tail_from(frame@, 14),
{
    pnet_packet::Packet::payload(&pnet_packet::ethernet::EthernetPacket::new(frame).unwrap()).to_vec()
}

/// `Ipv4Packet::new(data).is_some()`: at least 20 bytes.
#[verifier::external_body]
fn ipv4_fits(data: &[u8]) -> (r: bool)
    ensures
        r == (data@.len() >= 20),
{
    pnet_packet::ipv4::Ipv4Packet::new(data).is_some()
}

/// `Ipv4Packet::get_source`: bytes 12 to 15, as a big-endian address.
#[verifier::external_body]
fn ipv4_source(data: &[u8]) -> (r: u32)
    requires
        data@.len() >= 20,
    ensures
        r == be_value(data@.subrange(12, 16)),
{
    u32::from(pnet_packet::ipv4::Ipv4Packet::new(data).unwrap().get_source())
}

/// `Ipv4Packet::get_destination`: bytes 16 to 19, as a big-endian address.
#[verifier::external_body]
fn ipv4_destination(data: &[u8]) -> (r: u32)
    requires
        data@.len() >= 20,
    ensures
        r == be_value(data@.subrange(16, 20)),
{
    u32::from(pnet_packet::ipv4::Ipv4Packet::new(data).unwrap().get_destination())
}

/// `Ipv4Packet::get_next_level_protocol`: byte 9.
#[verifier::external_body]
fn ipv4_protocol(data: &[u8]) -> (r: u8)
    requires
        data@.len() >= 20,
    ensures
        r == data@[9],
{
    pnet_packet::ipv4::Ipv4Packet::new(data).unwrap().get_next_level_protocol().0
}

/// `Packet::payload` of an `Ipv4Packet`, bounded by its header and total lengths.
#[verifier::external_body]
fn ipv4_payload_of(data: &[u8]) -> (r: Vec<u8>)
    requires
        data@.len() >= 20,
    ensures
        r@ == ipv4_payload(data@),
{
    pnet_packet::Packet::payload(&pnet_packet::ipv4::Ipv4Packet::new(data).unwrap()).to_vec()
}

/// `Ipv6Packet::new(data).is_some()`: at least 40 bytes.
#[verifier::external_body]
fn ipv6_fits(data: &[u8]) -> (r: bool)
    ensures
        r == (data@.len() >= 40),
{
    pnet_packet::ipv6::Ipv6Packet::new(data).is_some()
}

/// `Ipv6Packet::get_source`: bytes 8 to 23, as a big-endian address.
#[verifier::external_body]
fn ipv6_source(data: &[u8]) -> (r: u128)
    requires
        data@.len() >= 40,
    ensures
        r == be_value(data@.subrange(8, 24)),
{
    u128::from(pnet_packet::ipv6::Ipv6Packet::new(data).unwrap().get_source())
}

/// `Ipv6Packet::get_destination`: bytes 24 to 39, as a big-endian address.
#[verifier::external_body]
fn ipv6_destination(data: &[u8]) -> (r: u128)
    requires
        data@.len() >= 40,
    ensures
        r == be_value(data@.subrange(24, 40)),
{
    u128::from(pnet_packet::ipv6::Ipv6Packet::new(data).unwrap().get_destination())
}

/// `Ipv6Packet::get_next_header`: byte 6.
#[verifier::external_body]
fn ipv6_next_header(data: &[u8]) -> (r: u8)
    requires
        data@.len() >= 40,
    ensures
        r == data@[6],
{
    pnet_packet::ipv6::Ipv6Packet::new(data).unwrap().get_next_header().0
}

/// `Packet::payload` of an `Ipv6Packet`, bounded by its payload length field.
#[verifier::external_body]
fn ipv6_payload_of(data: &[u8]) -> (r: Vec<u8>)
    requires
        data@.len() >= 40,
    ensures
        r@ == ipv6_payload(data@),
{
    pnet_packet::Packet::payload(&pnet_packet::ipv6::Ipv6Packet::new(data).unwrap()).to_vec()
}

/// `TcpPacket::new(data).is_some()`: at least 20 bytes.
#[verifier::external_body]
fn tcp_fits(data: &[u8]) -> (r: bool)
    ensures
        r == (data@.len() >= 20),
{
    pnet_packet::tcp::TcpPacket::new(data).is_some()
}

/// `TcpPacket::get_source`: bytes 0 and 1, big-endian.
#[verifier::external_body]
fn tcp_source_port(data: &[u8]) -> (r: u16)
    requires
        data@.len() >= 20,
    ensures
        r == be16(data@[0], data@[1]),
{
    pnet_packet::tcp::TcpPacket::new(data).unwrap().get_source()
}

/// `TcpPacket::get_destination`: bytes 2 and 3, big-endian.
#[verifier::external_body]
fn tcp_destination_port(data: &[u8]) -> (r: u16)
    requires
        data@.len() >= 20,
    ensures
        r == be16(data@[2], data@[3]),
{
    pnet_packet::tcp::TcpPacket::new(data).unwrap().get_destination()
}

/// `Packet::payload` of a `TcpPacket`: everything after the header and its options.
#[verifier::external_body]
fn tcp_payload_of(data: &[u8]) -> (r: Vec<u8>)
    requires
        data@.len() >= 20,
    ensures
        r@ == tcp_payload(data@),
{
    pnet_packet::Packet::payload(&pnet_packet::tcp::TcpPacket::new(data).unwrap()).to_vec()
}

/// `UdpPacket::new(data).is_some()`: at least 8 bytes.
#[verifier::external_body]
fn udp_fits(data: &[u8]) -> (r: bool)
    ensures
        r == (data@.len() >= 8),
{
    pnet_packet::udp::UdpPacket::new(data).is_some()
}

/// `UdpPacket::get_source`: bytes 0 and 1, big-endian.
#[verifier::external_body]
fn udp_source_port(data: &[u8]) -> (r: u16)
    requires
        data@.len() >= 8,
    ensures
        r == be16(data@[0], data@[1]),
{
    pnet_packet::udp::UdpPacket::new(data).unwrap().get_source()
}

/// `UdpPacket::get_destination`: bytes 2 and 3, big-endian.
#[verifier::external_body]
fn udp_destination_port(data: &[u8]) -> (r: u16)
    requires
        data@.len() >= 8,
    ensures
        r == be16(data@[2], data@[3]),
{
    pnet_packet::udp::UdpPacket::new(data).unwrap().get_destination()
}

/// `Packet::payload` of a `UdpPacket`: everything after the 8-byte header.
#[verifier::external_body]
fn udp_payload_of(data: &[u8]) -> (r: Vec<u8>)
    requires
        data@.len() >= 8,
    ensures
        r@ == udp_payload(data@),
{
    pnet_packet::Packet::payload(&pnet_packet::udp::UdpPacket::new(data).unwrap()).to_vec()
}

/// The key and payload of a transport segment `seg` carried by IP protocol
/// `proto` (6 for TCP, 17 for UDP) from `src_ip` to `dst_ip`; none for any
/// other protocol or a segment too short for its header.
pub open spec fn spec_segment(proto: u8, seg: Seq<u8>, src_ip: IpAddr, dst_ip: IpAddr) -> Option<(ConnectionKey, Seq<u8>)> {
    if proto == 6 && seg.len() >= 20 {
        Some((ConnectionKey {
            src_ip,
            src_port: be16(seg[0], seg[1]) as u16,
            dst_ip,
            dst_port: be16(seg[2], seg[3]) as u16,
            protocol: TransportProtocol::Tcp,
        }, tcp_payload(seg)))
    } else if proto == 17 && seg.len() >= 8 {
        Some((ConnectionKey {
            src_ip,
            src_port: be16(seg[0], seg[1]) as u16,
            dst_ip,
            dst_port: be16(seg[2], seg[3]) as u16,
            protocol: TransportProtocol::Udp,
        }, udp_payload(seg)))
    } else {
        None
    }
}

/// What an IPv4 packet carries: none when it is shorter than 20 bytes.
pub open spec fn spec_ipv4(d: Seq<u8>) -> Option<(ConnectionKey, Seq<u8>)> {
    if d.len() >= 20 {
        spec_segment(
            d[9],
            ipv4_payload(d),
            IpAddr::V4(be_value(d.subrange(12, 16)) as u32),
            IpAddr::V4(be_value(d.subrange(16, 20)) as u32),
        )
    } else {
        None
    }
}

/// What an IPv6 packet carries: none when it is shorter than 40 bytes.
pub open spec fn spec_ipv6(d: Seq<u8>) -> Option<(ConnectionKey, Seq<u8>)> {
    if d.len() >= 40 {
        spec_segment(
            d[6],
            ipv6_payload(d),
            IpAddr::V6(be_value(d.subrange(8, 24)) as u128),
            IpAddr::V6(be_value(d.subrange(24, 40)) as u128),
        )
    } else {
        None
    }
}

/// What an Ethernet frame carries: an IPv4 (ethertype `0x0800`) or IPv6
/// (`0x86DD`) packet whose TCP or UDP segment gives the flow and payload.
pub open spec fn spec_frame(d: Seq<u8>) -> Option<(ConnectionKey, Seq<u8>)> {
    if d.len() < 14 {
        None
    } else if be16(d[12], d[13]) == 0x0800 {
        spec_ipv4(tail_from(d, 14))
    } else if be16(d[12], d[13]) == 0x86DD {
        spec_ipv6(tail_from(d, 14))
    } else {
        None
    }
}

/// `r` is what the spec `s` describes, with the payload as a vector.
pub open spec fn decoded_as(r: Option<(ConnectionKey, Vec<u8>)>, s: Option<(ConnectionKey, Seq<u8>)>) -> bool {
    match r {
        Some((k, p)) => s == Some((k, p@)),
        None => s is None,
    }
}

fn segment_key(proto: u8, seg: &[u8], src_ip: IpAddr, dst_ip: IpAddr) -> (r: Option<(ConnectionKey, Vec<u8>)>)
    ensures
        decoded_as(r, spec_segment(proto, seg@, src_ip, dst_ip)),
{
    if proto == 6 {
        if !tcp_fits(seg) {
            return None;
        }
        let payload = tcp_payload_of(seg);
        Some((ConnectionKey {
            src_ip,
            dst_ip,
            src_port: tcp_source_port(seg),
            dst_port: tcp_destination_port(seg),
            protocol: TransportProtocol::Tcp,
        }, payload))
    } else if proto == 17 {
        if !udp_fits(seg) {
            return None;
        }
        let payload = udp_payload_of(seg);
        Some((ConnectionKey {
            src_ip,
            dst_ip,
            src_port: udp_source_port(seg),
            dst_port: udp_destination_port(seg),
            protocol: TransportProtocol::Udp,
        }, payload))
    } else {
        None
    }
}

/// The flow and transport payload of an IPv4 packet.
pub fn parse_ipv4_packet(payload: &[u8]) -> (r: Option<(ConnectionKey, Vec<u8>)>)
    ensures
        decoded_as(r, spec_ipv4(payload@)),
{
    if !ipv4_fits(payload) {
        return None;
    }
    let src_ip = IpAddr::V4(ipv4_source(payload));
    let dst_ip = IpAddr::V4(ipv4_destination(payload));
    let proto = ipv4_protocol(payload);
    let inner = ipv4_payload_of(payload);
    segment_key(proto, inner.as_slice(), src_ip, dst_ip)
}

/// The flow and transport payload of an IPv6 packet.
pub fn parse_ipv6_packet(payload: &[u8]) -> (r: Option<(ConnectionKey, Vec<u8>)>)
    ensures
        decoded_as(r, spec_ipv6(payload@)),
{
    if !ipv6_fits(payload) {
        return None;
    }
    let src_ip = IpAddr::V6(ipv6_source(payload));
    let dst_ip = IpAddr::V6(ipv6_destination(payload));
    let proto = ipv6_next_header(payload);
    let inner = ipv6_payload_of(payload);
    segment_key(proto, inner.as_slice(), src_ip, dst_ip)
}

/// The flow and transport payload of a captured Ethernet frame.
pub fn parse_packet(data: &[u8]) -> (r: Option<(ConnectionKey, Vec<u8>)>)
    ensures
        decoded_as(r, spec_frame(data@)),
{
    if !ethernet_fits(data) {
        return None;
    }
    let ethertype = ethernet_ethertype(data);
    if ethertype == 0x0800 {
        let inner = ethernet_payload(data);
        parse_ipv4_packet(inner.as_slice())
    } else if ethertype == 0x86DD {
        let inner = ethernet_payload(data);
        parse_ipv6_packet(inner.as_slice())
    } else {
        None
    }
}

/// IPv4 and IPv6 decode what they carry alike: two packets with the same
/// protocol number and the same transport segment give the same ports,
/// transport and payload, or both nothing.
pub proof fn law_ip_versions_decode_alike(d4: Seq<u8>, d6: Seq<u8>)
    requires
        d4.len() >= 20,
        d6.len() >= 40,
        d4[9] == d6[6],
        ipv4_payload(d4) == ipv6_payload(d6),
    ensures
        spec_ipv4(d4) is Some <==> spec_ipv6(d6) is Some,
        spec_ipv4(d4) is Some ==> ({
            let (a, b) = (spec_ipv4(d4)->0, spec_ipv6(d6)->0);
            &&& a.0.src_port == b.0.src_port
            &&& a.0.dst_port == b.0.dst_port
            &&& a.0.protocol == b.0.protocol
            &&& a.1 == b.1
        }),
{
}

/// An IPv4 packet carrying a UDP datagram (protocol 17) of at least its
/// 8-byte header decodes to that flow: addresses from bytes 12 to 19, ports
/// from the first four bytes of the datagram, and the bytes after its header
/// as payload. One carrying a TCP segment (protocol 6) of at least 20 bytes
/// decodes likewise, with TCP as transport.
pub proof fn law_ipv4_transport_decodes(d: Seq<u8>)
    requires
        d.len() >= 20,
    ensures
        ({
            let seg = ipv4_payload(d);
            let src = IpAddr::V4(be_value(d.subrange(12, 16)) as u32);
            let dst = IpAddr::V4(be_value(d.subrange(16, 20)) as u32);
            &&& d[9] == 17 && seg.len() >= 8 ==> spec_ipv4(d) == Some((ConnectionKey {
                src_ip: src,
                src_port: (seg[0] * 256 + seg[1]) as u16,
                dst_ip: dst,
                dst_port: (seg[2] * 256 + seg[3]) as u16,
                protocol: TransportProtocol::Udp,
            }, seg.subrange(8, seg.len() as int)))
            &&& d[9] == 6 && seg.len() >= 20 ==> spec_ipv4(d) is Some && (spec_ipv4(d)->0).0 == (ConnectionKey {
                src_ip: src,
                src_port: (seg[0] * 256 + seg[1]) as u16,
                dst_ip: dst,
                dst_port: (seg[2] * 256 + seg[3]) as u16,
                protocol: TransportProtocol::Tcp,
            })
            &&& d[9] != 6 && d[9] != 17 ==> spec_ipv4(d) is None
        }),
{
}

/// An Ethernet frame of type `0x0800` whose IPv4 packet carries a UDP
/// datagram decodes to that datagram's flow and payload.
pub proof fn law_frame_carries_ipv4_udp(f: Seq<u8>)
    requires
        f.len() >= 34,
        f[12] == 0x08 && f[13] == 0x00,
        f[23] == 17,
        ipv4_payload(f.subrange(14, f.len() as int)).len() >= 8,
    ensures
        ({
            let ip = f.subrange(14, f.len() as int);
            let seg = ipv4_payload(ip);
            spec_frame(f) == Some((ConnectionKey {
                src_ip: IpAddr::V4(be_value(ip.subrange(12, 16)) as u32),
                src_port: (seg[0] * 256 + seg[1]) as u16,
                dst_ip: IpAddr::V4(be_value(ip.subrange(16, 20)) as u32),
                dst_port: (seg[2] * 256 + seg[3]) as u16,
                protocol: TransportProtocol::Udp,
            }, seg.subrange(8, seg.len() as int)))
        }),
{
    let ip = f.subrange(14, f.len() as int);
    assert(tail_from(f, 14) == ip);
    assert(ip[9] == f[23]);
}

} // verus!
