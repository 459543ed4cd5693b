use connwatch::capture::{
    capture_filter, device_index, find_device, local_end, remote_end, remote_ip, select_device, update_counters, ConnectionTable,
    DeviceChoice, IDLE_TCP_NANOS, IDLE_UDP_NANOS,
};
use connwatch::config::Config;
use connwatch::model::{
    AppEvent, ApplicationProtocol, Connection, ConnectionDirection, ConnectionKey, ConnectionView,
    TransportProtocol,
};
use connwatch::clock::Timestamp;
use connwatch::net::IpAddr;

const LOCAL: IpAddr = IpAddr::V4(0xC0A8_0102);
const REMOTE: IpAddr = IpAddr::V4(0x5DB8_D822);

fn ts(secs: i64) -> Timestamp {
    Timestamp { secs, subsec_nanos: 0 }
}

fn key(src: IpAddr, sport: u16, dst: IpAddr, dport: u16) -> ConnectionKey {
    ConnectionKey { src_ip: src, src_port: sport, dst_ip: dst, dst_port: dport, protocol: TransportProtocol::Tcp }
}

fn config() -> Config {
    Config {
        interface: None,
        pcap_file: None,
        pcap_filter: None,
        db_path: None,
        show_globe: true,
        show_list: true,
        show_detail: true,
        enable_nmap: false,
        nmap_ports: "22,80,443,8080".to_string(),
        mmdb_path: None,
        log_level: "info".to_string(),
        log_auth_headers: false,
    }
}

#[test]
fn first_packet_opens_a_connection() {
    let mut table = ConnectionTable::new();
    let k = key(LOCAL, 50000, REMOTE, 80);
    let out = table.handle_packet_at(k.clone(), b"GET /x HTTP/1.1\r\nHost: h\r\n\r\n", &[LOCAL], ts(100), 5, false);
    assert!(out.is_new);
    assert_eq!(table.len(), 1);
    assert_eq!(out.remote_ip, Some(REMOTE));
    assert_eq!(out.connection.first_seen, ts(100));
    assert_eq!(out.connection.last_seen, ts(100));
    assert_eq!(out.connection.state, "OPEN");
    assert_eq!(out.connection.bytes_sent, 28);
    assert_eq!(out.connection.bytes_recv, 0);
    assert_eq!(out.connection.app_protocol, Some(ApplicationProtocol::Http));
    assert_eq!(out.connection.id, None);
    let req = out.http_request.expect("request");
    assert_eq!(req.host.as_deref(), Some("h"));
    assert_eq!(req.path.as_deref(), Some("/x"));
    match out.event {
        AppEvent::ConnectionAdded(v) => {
            assert_eq!(v.key, k);
            assert_eq!(v.bytes_sent, 28);
        }
        _ => panic!("expected an added connection"),
    }
    assert_eq!(table.state_at(0).last_packet_ts, 5);
}

#[test]
fn later_packets_update_the_connection() {
    let mut table = ConnectionTable::new();
    let k = key(REMOTE, 22, LOCAL, 40000);
    let first = table.handle_packet_at(k.clone(), b"SSH-2.0-x", &[LOCAL], ts(10), 1, false);
    assert_eq!(first.connection.app_protocol, Some(ApplicationProtocol::Ssh));
    assert_eq!(first.connection.direction, ConnectionDirection::Incoming);
    assert_eq!(first.remote_ip, Some(REMOTE));
    assert!(first.http_request.is_none());
    assert_eq!(first.ssh_banner.as_deref(), Some("SSH-2.0-x"));
    let second = table.handle_packet_at(k.clone(), b"\x00\x01\x02", &[LOCAL], ts(20), 2, false);
    assert!(!second.is_new);
    assert_eq!(table.len(), 1);
    assert_eq!(second.connection.first_seen, ts(10));
    assert_eq!(second.connection.last_seen, ts(20));
    assert_eq!(second.connection.bytes_recv, 12);
    assert_eq!(second.connection.app_protocol, Some(ApplicationProtocol::Ssh));
    assert!(second.remote_ip.is_none());
    assert!(second.http_request.is_none());
    assert_eq!(second.ssh_banner, None);
    assert_eq!(table.state_at(0).last_packet_ts, 2);
    match second.event {
        AppEvent::ConnectionUpdated(v) => assert_eq!(v.app_protocol, Some(ApplicationProtocol::Ssh)),
        _ => panic!("expected an update"),
    }
}

/// A TLS record holding a ClientHello whose only extension is `server_name`.
fn client_hello_with_server_name() -> Vec<u8> {
    let mut v = vec![0x16, 0x03, 0x01, 0x00, 0x3f, 0x01, 0x00, 0x00, 0x3b, 0x03, 0x03];
    v.extend_from_slice(&[0x11; 32]);
    v.extend_from_slice(&[0x00, 0x00, 0x02, 0x13, 0x01, 0x01, 0x00, 0x00, 0x0a]);
    v.extend_from_slice(&[0x00, 0x00, 0x00, 0x06, 0x00, 0x04, 0x00, 0x00, 0x01, b'h']);
    v
}

#[test]
fn update_view_shows_the_protocol_this_packet_suggests() {
    let mut table = ConnectionTable::new();
    let k = key(LOCAL, 50000, REMOTE, 443);
    let hello = client_hello_with_server_name();
    let first = table.handle_packet_at(k.clone(), &hello, &[LOCAL], ts(1), 1, false);
    assert_eq!(first.connection.app_protocol, Some(ApplicationProtocol::Https));
    assert_eq!(first.server_name.as_deref(), Some("h"));
    let later = ConnectionKey { dst_port: 443, ..k.clone() };
    let second = table.handle_packet_at(later, b"nothing", &[LOCAL], ts(2), 2, false);
    assert_eq!(second.server_name, None);
    assert_eq!(second.connection.app_protocol, Some(ApplicationProtocol::Https));
    let third = table.handle_packet_at(k, b"SNI again", &[], ts(3), 3, false);
    assert_eq!(third.connection.bytes_sent, hello.len() as u64 + 7 + 4);
    assert_eq!(third.connection.bytes_recv, 4);
}

#[test]
fn every_http_packet_leaves_its_request() {
    let mut table = ConnectionTable::new();
    let k = key(LOCAL, 50000, REMOTE, 80);
    table.handle_packet_at(k.clone(), b"GET /a HTTP/1.1\r\nHost: h\r\n\r\n", &[LOCAL], ts(1), 1, false);
    table.record_row_id(&k, 7);
    let out = table.handle_packet_at(k.clone(), b"GET /b HTTP/1.1\r\nHost: g\r\n\r\n", &[LOCAL], ts(2), 2, false);
    assert!(!out.is_new);
    assert_eq!(out.connection.id, Some(7));
    let req = out.http_request.expect("request of a tracked flow");
    assert_eq!(req.method.as_deref(), Some("GET"));
    assert_eq!(req.path.as_deref(), Some("/b"));
    assert_eq!(req.http_version.as_deref(), Some("HTTP/1.1"));
    assert_eq!(req.host.as_deref(), Some("g"));
    assert_eq!(req.ts, 2);
    let body = table.handle_packet_at(k, b"\xff\xfe", &[LOCAL], ts(3), 3, false);
    assert!(body.http_request.is_none());
}

#[test]
fn a_later_packet_restarts_the_idle_time() {
    let mut table = ConnectionTable::new();
    let k = key(LOCAL, 1, REMOTE, 2);
    table.handle_packet_at(k.clone(), b"", &[LOCAL], ts(0), 0, false);
    table.handle_packet_at(k.clone(), b"", &[LOCAL], ts(0), 100, false);
    assert!(table.expire_idle_at(150, 150, 200).is_empty());
    assert_eq!(table.len(), 1);
    assert_eq!(table.expire_idle_at(150, 150, 251), vec![k]);
}

#[test]
fn a_tracked_flow_names_its_server() {
    let mut table = ConnectionTable::new();
    let k = key(LOCAL, 50000, REMOTE, 443);
    let syn = table.handle_packet_at(k.clone(), b"", &[LOCAL], ts(1), 1, false);
    assert_eq!(syn.connection.app_protocol, None);
    assert_eq!(syn.server_name, None);
    let hello = table.handle_packet_at(k.clone(), &client_hello_with_server_name(), &[LOCAL], ts(2), 2, false);
    assert!(!hello.is_new);
    assert_eq!(hello.connection.app_protocol, Some(ApplicationProtocol::Https));
    assert_eq!(hello.server_name.as_deref(), Some("h"));
    let plain = key(LOCAL, 50001, REMOTE, 80);
    let out = table.handle_packet_at(plain, &client_hello_with_server_name(), &[LOCAL], ts(3), 3, false);
    assert_eq!(out.server_name, None);
}

#[test]
fn idle_limits_are_a_minute_and_half_a_minute() {
    let mut table = ConnectionTable::new();
    let tcp = key(LOCAL, 1, REMOTE, 2);
    let udp = ConnectionKey { protocol: TransportProtocol::Udp, ..key(LOCAL, 3, REMOTE, 4) };
    table.handle_packet_at(tcp.clone(), b"", &[LOCAL], ts(0), 0, false);
    table.handle_packet_at(udp.clone(), b"", &[LOCAL], ts(0), 0, false);
    assert_eq!(IDLE_TCP_NANOS, 60_000_000_000);
    assert_eq!(IDLE_UDP_NANOS, 30_000_000_000);
    assert!(table.expire_idle_at(IDLE_TCP_NANOS, IDLE_UDP_NANOS, 30_000_000_000).is_empty());
    assert_eq!(table.expire_idle_at(IDLE_TCP_NANOS, IDLE_UDP_NANOS, 30_000_000_001), vec![udp]);
    assert!(table.expire_idle_at(IDLE_TCP_NANOS, IDLE_UDP_NANOS, 60_000_000_000).is_empty());
    assert_eq!(table.expire_idle_at(IDLE_TCP_NANOS, IDLE_UDP_NANOS, 60_000_000_001), vec![tcp]);
}

#[test]
fn unknown_direction_splits_bytes() {
    let mut c = Connection::opened_at(key(REMOTE, 1, REMOTE, 2), ConnectionDirection::Unknown, ts(0));
    update_counters(&mut c, ConnectionDirection::Unknown, 7);
    assert_eq!((c.bytes_sent, c.bytes_recv), (3, 3));
    update_counters(&mut c, ConnectionDirection::Outgoing, 7);
    assert_eq!((c.bytes_sent, c.bytes_recv), (10, 3));
    update_counters(&mut c, ConnectionDirection::Incoming, 1);
    assert_eq!((c.bytes_sent, c.bytes_recv), (10, 4));
}

#[test]
fn counters_fit_reports_overflow() {
    let mut table = ConnectionTable::new();
    let k = key(LOCAL, 1, REMOTE, 2);
    assert!(table.counters_fit_for(&k, &[LOCAL], usize::MAX));
    table.handle_packet_at(k.clone(), &[0u8; 10], &[LOCAL], ts(0), 0, false);
    assert!(table.counters_fit_for(&k, &[LOCAL], 100));
    assert!(!table.counters_fit_for(&k, &[LOCAL], (u64::MAX - 5) as usize));
}

#[test]
fn idle_flows_expire() {
    let mut table = ConnectionTable::new();
    let tcp = key(LOCAL, 1, REMOTE, 2);
    let udp = ConnectionKey { protocol: TransportProtocol::Udp, ..key(LOCAL, 3, REMOTE, 4) };
    table.handle_packet_at(tcp.clone(), b"", &[LOCAL], ts(0), 0, false);
    table.handle_packet_at(udp.clone(), b"", &[LOCAL], ts(0), 1_000, false);
    let closed = table.expire_idle_at(60_000, 30_000, 45_000);
    assert_eq!(closed, vec![udp.clone()]);
    assert_eq!(table.len(), 1);
    assert!(table.find(&tcp).is_some());
    let none = table.expire_idle_at(60_000, 30_000, 60_000);
    assert!(none.is_empty());
    let closed = table.expire_idle_at(60_000, 30_000, 60_001);
    assert_eq!(closed, vec![tcp]);
    assert_eq!(table.len(), 0);
}

#[test]
fn future_packets_never_expire() {
    let mut table = ConnectionTable::new();
    let k = key(LOCAL, 1, REMOTE, 2);
    table.handle_packet_at(k, b"", &[LOCAL], ts(0), i128::MAX, false);
    assert!(table.expire_idle_at(0, 0, i128::MIN).is_empty());
    let mut far = ConnectionTable::new();
    far.handle_packet_at(key(LOCAL, 1, REMOTE, 2), b"", &[LOCAL], ts(0), i128::MIN, false);
    assert_eq!(far.expire_idle_at(i128::MAX as u128, 0, i128::MAX).len(), 1);
}

#[test]
fn row_ids_are_recorded() {
    let mut table = ConnectionTable::new();
    let k = key(LOCAL, 1, REMOTE, 2);
    table.handle_packet_at(k.clone(), b"", &[LOCAL], ts(0), 0, false);
    table.record_row_id(&k, 42);
    assert_eq!(table.state_at(0).connection.id, Some(42));
    let out = table.handle_packet_at(k, b"z", &[LOCAL], ts(1), 1, false);
    assert_eq!(out.connection.id, Some(42));
}

#[test]
fn remote_end_follows_direction() {
    let k = key(LOCAL, 1, REMOTE, 2);
    assert_eq!(remote_ip(&k, ConnectionDirection::Outgoing), REMOTE);
    assert_eq!(remote_ip(&k, ConnectionDirection::Incoming), LOCAL);
    assert_eq!(remote_ip(&k, ConnectionDirection::Unknown), REMOTE);
}

#[test]
fn new_connection_view_keeps_key() {
    let k = key(LOCAL, 1, REMOTE, 2);
    let c = Connection::new(k.clone(), ConnectionDirection::Outgoing);
    assert_eq!(c.first_seen, c.last_seen);
    assert_eq!(c.state, "OPEN");
    let v = ConnectionView::from_connection(&c);
    assert_eq!(v.key, k);
    assert_eq!(v.direction, ConnectionDirection::Outgoing);
    let w = ConnectionView::from(&c);
    assert_eq!(w.key, k);
    assert_eq!(w.state, "OPEN");
}

#[test]
fn capture_filter_defaults_to_tcp_or_udp() {
    let mut cfg = config();
    assert_eq!(capture_filter(&cfg), "tcp or udp");
    cfg.pcap_filter = Some("port 53".to_string());
    assert_eq!(capture_filter(&cfg), "port 53");
}

#[test]
fn device_selection() {
    let names = vec!["lo".to_string(), "eth0".to_string(), "wlan0".to_string()];
    let loopback = vec![true, false, false];
    assert_eq!(select_device(&names, &loopback, &None), DeviceChoice::Listed(1));
    assert_eq!(select_device(&names, &loopback, &Some("wlan0".to_string())), DeviceChoice::Listed(2));
    assert_eq!(select_device(&names, &loopback, &Some("lo".to_string())), DeviceChoice::Listed(0));
    assert_eq!(select_device(&names, &loopback, &Some("eth9".to_string())), DeviceChoice::Missing);
    let only_loopback = vec!["lo".to_string(), "lo0".to_string()];
    assert_eq!(select_device(&only_loopback, &vec![true, true], &None), DeviceChoice::LastListed);
    assert_eq!(select_device(&vec![], &vec![], &None), DeviceChoice::LastListed);
    let wireless_first = vec!["wlo1".to_string(), "lo".to_string()];
    assert_eq!(select_device(&wireless_first, &vec![false, true], &None), DeviceChoice::Listed(0));
    assert_eq!(find_device(&names, &"eth0".to_string()), Some(1));
    assert_eq!(find_device(&names, &"eth".to_string()), None);
}

#[test]
fn config_from_cli_fills_default_db_path() {
    let cfg = Config::from_cli(config(), "/tmp/x.db".to_string());
    assert_eq!(cfg.db_path.as_deref(), Some("/tmp/x.db"));
    let mut given = config();
    given.db_path = Some("/data/c.db".to_string());
    let cfg = Config::from_cli(given, "/tmp/x.db".to_string());
    assert_eq!(cfg.db_path.as_deref(), Some("/data/c.db"));
    assert_eq!(cfg.nmap_ports, "22,80,443,8080");
}

#[test]
fn ends_follow_direction() {
    let k = key(LOCAL, 40000, REMOTE, 443);
    assert_eq!(local_end(&k, ConnectionDirection::Outgoing), (LOCAL, 40000));
    assert_eq!(remote_end(&k, ConnectionDirection::Outgoing), (REMOTE, 443));
    let back = key(REMOTE, 22, LOCAL, 50000);
    assert_eq!(local_end(&back, ConnectionDirection::Incoming), (LOCAL, 50000));
    assert_eq!(remote_end(&back, ConnectionDirection::Incoming), (REMOTE, 22));
    assert_eq!(local_end(&k, ConnectionDirection::Unknown), (LOCAL, 40000));
    assert_eq!(remote_end(&k, ConnectionDirection::Unknown), (REMOTE, 443));
}

#[test]
fn chosen_device_position() {
    assert_eq!(device_index(DeviceChoice::Listed(1), 3), Some(1));
    assert_eq!(device_index(DeviceChoice::Listed(3), 3), None);
    assert_eq!(device_index(DeviceChoice::LastListed, 3), Some(2));
    assert_eq!(device_index(DeviceChoice::LastListed, 0), None);
    assert_eq!(device_index(DeviceChoice::Missing, 3), None);
    let names = vec!["lo".to_string(), "eth0".to_string()];
    let loopback = vec![true, false];
    assert_eq!(device_index(select_device(&names, &loopback, &None), names.len()), Some(1));
}
