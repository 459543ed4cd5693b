use connwatch::model::TransportProtocol;
use connwatch::net::IpAddr;
use connwatch::packet::{parse_ipv4_packet, parse_ipv6_packet, parse_packet};

fn ethernet(ethertype: u16, payload: &[u8]) -> Vec<u8> {
    let mut f = vec![0u8; 12];
    f.extend_from_slice(&ethertype.to_be_bytes());
    f.extend_from_slice(payload);
    f
}

fn ipv4(proto: u8, header_words: u8, total_len: u16, segment: &[u8]) -> Vec<u8> {
    let mut p = vec![0u8; (header_words as usize * 4).max(20)];
    p[0] = 0x40 | header_words;
    p[2..4].copy_from_slice(&total_len.to_be_bytes());
    p[9] = proto;
    p[12..16].copy_from_slice(&[10, 0, 0, 1]);
    p[16..20].copy_from_slice(&[93, 184, 216, 34]);
    p.extend_from_slice(segment);
    p
}

fn tcp(src: u16, dst: u16, offset_words: u8, data: &[u8]) -> Vec<u8> {
    let mut s = vec![0u8; (offset_words as usize * 4).max(20)];
    s[0..2].copy_from_slice(&src.to_be_bytes());
    s[2..4].copy_from_slice(&dst.to_be_bytes());
    s[12] = offset_words << 4;
    s.extend_from_slice(data);
    s
}

fn udp(src: u16, dst: u16, data: &[u8]) -> Vec<u8> {
    let mut s = vec![0u8; 8];
    s[0..2].copy_from_slice(&src.to_be_bytes());
    s[2..4].copy_from_slice(&dst.to_be_bytes());
    s.extend_from_slice(data);
    s
}

#[test]
fn tcp_over_ipv4_frame() {
    let seg = tcp(51000, 80, 5, b"GET / HTTP/1.1\r\n");
    let pkt = ipv4(6, 5, (20 + seg.len()) as u16, &seg);
    let frame = ethernet(0x0800, &pkt);
    let (key, payload) = parse_packet(&frame).expect("decoded");
    assert_eq!(key.src_ip, IpAddr::V4(0x0A00_0001));
    assert_eq!(key.dst_ip, IpAddr::V4(0x5DB8_D822));
    assert_eq!(key.src_port, 51000);
    assert_eq!(key.dst_port, 80);
    assert_eq!(key.protocol, TransportProtocol::Tcp);
    assert_eq!(payload, b"GET / HTTP/1.1\r\n".to_vec());
}

#[test]
fn ipv4_total_length_bounds_the_payload() {
    let seg = tcp(1, 2, 5, b"abcdef");
    let pkt = ipv4(6, 5, (20 + 20 + 3) as u16, &seg);
    let (_, payload) = parse_ipv4_packet(&pkt).expect("decoded");
    assert_eq!(payload, b"abc".to_vec());
}

#[test]
fn ipv4_options_and_tcp_options_are_skipped() {
    let seg = tcp(1, 2, 6, b"xy");
    let pkt = ipv4(6, 6, (24 + seg.len()) as u16, &seg);
    let (key, payload) = parse_ipv4_packet(&pkt).expect("decoded");
    assert_eq!((key.src_port, key.dst_port), (1, 2));
    assert_eq!(payload, b"xy".to_vec());
}

#[test]
fn udp_over_ipv6_frame() {
    let seg = udp(53, 40000, b"dns");
    let mut pkt = vec![0u8; 40];
    pkt[0] = 0x60;
    pkt[4..6].copy_from_slice(&(seg.len() as u16).to_be_bytes());
    pkt[6] = 17;
    pkt[23] = 1;
    pkt[24] = 0x20;
    pkt[25] = 0x01;
    pkt[39] = 2;
    pkt.extend_from_slice(&seg);
    let frame = ethernet(0x86DD, &pkt);
    let (key, payload) = parse_packet(&frame).expect("decoded");
    assert_eq!(key.src_ip, IpAddr::V6(1));
    assert_eq!(key.dst_ip, IpAddr::V6((0x2001u128 << 112) | 2));
    assert_eq!((key.src_port, key.dst_port), (53, 40000));
    assert_eq!(key.protocol, TransportProtocol::Udp);
    assert_eq!(payload, b"dns".to_vec());
    assert!(parse_ipv6_packet(&pkt[..39]).is_none());
}

#[test]
fn other_frames_are_not_decoded() {
    assert!(parse_packet(&[0u8; 13]).is_none());
    assert!(parse_packet(&ethernet(0x0806, &[0u8; 28])).is_none());
    let icmp = ipv4(1, 5, 28, &[0u8; 8]);
    assert!(parse_packet(&ethernet(0x0800, &icmp)).is_none());
    let short_tcp = ipv4(6, 5, 30, &[0u8; 10]);
    assert!(parse_packet(&ethernet(0x0800, &short_tcp)).is_none());
    assert!(parse_ipv4_packet(&[0x45u8; 19]).is_none());
}
