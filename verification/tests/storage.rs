use connwatch::model::{
    ApplicationProtocol, Connection, ConnectionDirection, ConnectionKey, EndpointInfo, ScanResult,
    ScanStatus, TransportProtocol,
};
use connwatch::clock::Timestamp;
use connwatch::net::IpAddr;
use connwatch::storage::{
    closed_state_text, connection_from_row, connection_write, endpoint_row, key_row,
    parse_app_protocol, parse_transport, protocol_to_string, scan_row, ts_to_dt, ConnectionWrite,
    StoredConnection,
};

#[test]
fn protocol_texts_round_trip() {
    for p in [
        ApplicationProtocol::Http,
        ApplicationProtocol::Https,
        ApplicationProtocol::Ssh,
        ApplicationProtocol::Unknown,
        ApplicationProtocol::Other("FTP".to_string()),
    ] {
        assert_eq!(parse_app_protocol(protocol_to_string(&p)), p);
    }
    assert_eq!(protocol_to_string(&ApplicationProtocol::Https), "HTTPS");
    assert_eq!(parse_app_protocol("HTTP".to_string()), ApplicationProtocol::Http);
    assert_eq!(parse_app_protocol("http".to_string()), ApplicationProtocol::Other("http".to_string()));
}

#[test]
fn other_protocol_named_like_a_fixed_one_does_not_round_trip() {
    let p = ApplicationProtocol::Other("SSH".to_string());
    assert_eq!(parse_app_protocol(protocol_to_string(&p)), ApplicationProtocol::Ssh);
}

#[test]
fn transport_texts_round_trip() {
    for t in [TransportProtocol::Tcp, TransportProtocol::Udp, TransportProtocol::Other("SCTP".to_string())] {
        assert_eq!(parse_transport(&t.to_string()), t);
    }
    assert_eq!(TransportProtocol::Udp.to_string(), "UDP");
    assert_eq!(parse_transport("tcp"), TransportProtocol::Other("tcp".to_string()));
}

#[test]
fn scan_status_texts() {
    assert_eq!(ScanStatus::Pending.to_string(), "PENDING");
    assert_eq!(ScanStatus::Running.to_string(), "RUNNING");
    assert_eq!(ScanStatus::Done.to_string(), "DONE");
    assert_eq!(ScanStatus::Failed.to_string(), "FAILED");
    assert_eq!(closed_state_text(), "CLOSED");
}

fn stored(src_ip: &str) -> StoredConnection {
    StoredConnection {
        id: None,
        first_seen: 0,
        last_seen: 0,
        src_ip: src_ip.to_string(),
        src_port: 0,
        dst_ip: String::new(),
        dst_port: 0,
        transport: "TCP".to_string(),
        app_protocol: None,
        state: "OPEN".to_string(),
        bytes_sent: 0,
        bytes_recv: 0,
    }
}

#[test]
fn ip_text_matches_std() {
    let key = ConnectionKey {
        src_ip: IpAddr::V4(0x7F00_0001),
        src_port: 1,
        dst_ip: IpAddr::V6(0x2001_0db8_0000_0000_0000_0000_0000_0001),
        dst_port: 2,
        protocol: TransportProtocol::Tcp,
    };
    let row = key_row(&key);
    assert_eq!(row.src_ip, "127.0.0.1");
    assert_eq!(row.dst_ip, "2001:db8::1");
    assert_eq!(connection_from_row(stored("10.1.2.3")).src_ip, IpAddr::V4(0x0A01_0203));
    assert_eq!(connection_from_row(stored("::1")).src_ip, IpAddr::V6(1));
    assert_eq!(connection_from_row(stored("not an address")).src_ip, IpAddr::V4(0));
    assert_eq!(connection_from_row(stored("")).dst_ip, IpAddr::V4(0));
}

fn sample() -> Connection {
    let key = ConnectionKey {
        src_ip: IpAddr::V4(0x7F00_0001),
        src_port: 10000,
        dst_ip: IpAddr::V4(0x7F00_0001),
        dst_port: 80,
        protocol: TransportProtocol::Tcp,
    };
    let mut c = Connection::opened_at(key, ConnectionDirection::Outgoing, Timestamp { secs: 1_700_000_000, subsec_nanos: 0 });
    c.bytes_sent = u64::MAX;
    c.app_protocol = Some(ApplicationProtocol::Http);
    c
}

#[test]
fn new_connections_are_inserted_known_ones_updated() {
    let mut c = sample();
    match connection_write(&c) {
        ConnectionWrite::Insert(row) => {
            assert_eq!(row.src_ip, "127.0.0.1");
            assert_eq!(row.src_port, 10000);
            assert_eq!(row.dst_port, 80);
            assert_eq!(row.transport, "TCP");
            assert_eq!(row.app_protocol.as_deref(), Some("HTTP"));
            assert_eq!(row.state, "OPEN");
            assert_eq!(row.bytes_sent, -1);
            assert_eq!(row.first_seen, 1_700_000_000);
        }
        _ => panic!("expected an insert"),
    }
    c.id = Some(9);
    match connection_write(&c) {
        ConnectionWrite::Update { id, bytes_sent, state, .. } => {
            assert_eq!(id, 9);
            assert_eq!(bytes_sent, -1);
            assert_eq!(state, "OPEN");
        }
        _ => panic!("expected an update"),
    }
}

#[test]
fn rows_read_back() {
    let row = StoredConnection {
        id: Some(3),
        first_seen: 1_700_000_000,
        last_seen: 1_700_000_050,
        src_ip: "192.168.1.2".to_string(),
        src_port: 70000,
        dst_ip: "garbage".to_string(),
        dst_port: 443,
        transport: "UDP".to_string(),
        app_protocol: Some("QUIC".to_string()),
        state: "CLOSED".to_string(),
        bytes_sent: -1,
        bytes_recv: 5,
    };
    let c = connection_from_row(row);
    assert_eq!(c.id, Some(3));
    assert_eq!(c.first_seen, Timestamp { secs: 1_700_000_000, subsec_nanos: 0 });
    assert_eq!(c.last_seen, Timestamp { secs: 1_700_000_050, subsec_nanos: 0 });
    assert_eq!(c.src_ip, IpAddr::V4(0xC0A8_0102));
    assert_eq!(c.src_port, 70000u32 as u16);
    assert_eq!(c.dst_ip, IpAddr::V4(0));
    assert_eq!(c.transport, TransportProtocol::Udp);
    assert_eq!(c.app_protocol, Some(ApplicationProtocol::Other("QUIC".to_string())));
    assert_eq!(c.bytes_sent, u64::MAX);
    assert_eq!(c.direction, ConnectionDirection::Unknown);
}

#[test]
fn representable_times_read_back_unchanged() {
    assert_eq!(ts_to_dt(0), 0);
    assert_eq!(ts_to_dt(-86_400), -86_400);
    let now_ish = ts_to_dt(i64::MAX);
    assert!(now_ish > 1_600_000_000 && now_ish < i64::MAX);
}

#[test]
fn key_scan_and_endpoint_rows() {
    let key = ConnectionKey {
        src_ip: IpAddr::V4(0x0A00_0001),
        src_port: 1,
        dst_ip: IpAddr::V6(1),
        dst_port: 2,
        protocol: TransportProtocol::Other("SCTP".to_string()),
    };
    let k = key_row(&key);
    assert_eq!((k.src_ip.as_str(), k.dst_ip.as_str(), k.transport.as_str()), ("10.0.0.1", "::1", "SCTP"));
    let scan = ScanResult {
        dst_ip: IpAddr::V4(0x0808_0808),
        ts: 5,
        status: ScanStatus::Done,
        ports: Some("22".to_string()),
        result_raw: Some("<xml/>".to_string()),
    };
    let s = scan_row(&scan);
    assert_eq!((s.dst_ip.as_str(), s.status.as_str(), s.ts), ("8.8.8.8", "DONE", 5));
    let info = EndpointInfo {
        ip: IpAddr::V4(0x0101_0101),
        country: Some("AU".to_string()),
        city: None,
        latitude: Some((-33.5f64).to_bits()),
        longitude: None,
        hostname: None,
        last_updated: Some(7),
    };
    let e = endpoint_row(&info);
    assert_eq!(e.ip, "1.1.1.1");
    assert_eq!(e.latitude.map(f64::from_bits), Some(-33.5));
    assert_eq!(e.last_updated, Some(7));
}

#[test]
fn inserted_rows_read_back_as_the_same_connection() {
    let mut c = sample();
    c.bytes_recv = 17;
    c.state = "CLOSED".to_string();
    let row = match connection_write(&c) {
        ConnectionWrite::Insert(row) => row,
        _ => panic!("expected an insert"),
    };
    let stored = StoredConnection {
        id: Some(11),
        first_seen: row.first_seen,
        last_seen: row.last_seen,
        src_ip: row.src_ip.clone(),
        src_port: row.src_port,
        dst_ip: row.dst_ip.clone(),
        dst_port: row.dst_port,
        transport: row.transport.clone(),
        app_protocol: row.app_protocol.clone(),
        state: row.state.clone(),
        bytes_sent: row.bytes_sent,
        bytes_recv: row.bytes_recv,
    };
    let back = connection_from_row(stored);
    assert_eq!(back.id, Some(11));
    assert_eq!((back.first_seen, back.last_seen), (c.first_seen, c.last_seen));
    assert_eq!((back.src_ip, back.src_port, back.dst_ip, back.dst_port), (c.src_ip, c.src_port, c.dst_ip, c.dst_port));
    assert_eq!(back.transport, c.transport);
    assert_eq!(back.app_protocol, c.app_protocol);
    assert_eq!(back.state, c.state);
    assert_eq!((back.bytes_sent, back.bytes_recv), (c.bytes_sent, c.bytes_recv));
    assert_eq!(back.direction, ConnectionDirection::Unknown);
}

#[test]
fn every_address_reads_back_from_its_row() {
    let addrs = [
        IpAddr::V4(0),
        IpAddr::V4(0xFFFF_FFFF),
        IpAddr::V6(0),
        IpAddr::V6(1),
        IpAddr::V6(0x0000_0000_0000_0000_0000_FFFF_C0A8_0001),
        IpAddr::V6(0x2001_0db8_0000_0000_0001_0000_0000_0001),
        IpAddr::V6(u128::MAX),
    ];
    for ip in addrs {
        let mut c = sample();
        c.src_ip = ip;
        c.dst_ip = ip;
        let row = match connection_write(&c) {
            ConnectionWrite::Insert(row) => row,
            _ => panic!("expected an insert"),
        };
        let back = connection_from_row(StoredConnection {
            id: Some(1),
            first_seen: row.first_seen,
            last_seen: row.last_seen,
            src_ip: row.src_ip.clone(),
            src_port: row.src_port,
            dst_ip: row.dst_ip.clone(),
            dst_port: row.dst_port,
            transport: row.transport.clone(),
            app_protocol: row.app_protocol.clone(),
            state: row.state.clone(),
            bytes_sent: row.bytes_sent,
            bytes_recv: row.bytes_recv,
        });
        assert_eq!((back.src_ip, back.dst_ip), (ip, ip));
    }
}
