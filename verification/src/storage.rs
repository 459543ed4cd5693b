//! How connections, scans and endpoints are written to and read from the
//! database: the text of each enumeration, and the row of each record.
use vstd::prelude::*;
use crate::net::{IpAddr, ip_to_string, ip_text, parse_ip, parsed_ip};
use crate::model::{
    AppProtocolModel, ApplicationProtocol, Connection, ConnectionDirection, ConnectionKey,
    EndpointInfo, ScanResult, TransportModel, TransportProtocol, duplicate_text, transport_text,
    scan_status_text,
};
use crate::clock::{Timestamp, timestamp_in_chrono_range, timestamp_representable};
use crate::text::owned;

verus! {

/// `HTTP`
pub open spec fn http_text() -> Seq<char> { seq!['H', 'T', 'T', 'P'] }
/// `HTTPS`
pub open spec fn https_text() -> Seq<char> { seq!['H', 'T', 'T', 'P', 'S'] }
/// `SSH`
pub open spec fn ssh_text() -> Seq<char> { seq!['S', 'S', 'H'] }
/// `UNKNOWN`
pub open spec fn unknown_text() -> Seq<char> { seq!['U', 'N', 'K', 'N', 'O', 'W', 'N'] }

/// The stored text of an application protocol: `HTTP`, `HTTPS`, `SSH`,
/// `UNKNOWN`, or the name of `Other`.
pub open spec fn app_protocol_text(p: AppProtocolModel) -> Seq<char> {
    match p {
        AppProtocolModel::Http => http_text(),
        AppProtocolModel::Https => https_text(),
        AppProtocolModel::Ssh => ssh_text(),
        AppProtocolModel::Other(s) => s,
        AppProtocolModel::Unknown => unknown_text(),
    }
}

/// The application protocol a stored text names; any text other than the
/// four fixed names is `Other` with that text.
pub open spec fn app_protocol_of(s: Seq<char>) -> AppProtocolModel {
    if s == http_text() {
        AppProtocolModel::Http
    } else if s == https_text() {
        AppProtocolModel::Https
    } else if s == ssh_text() {
        AppProtocolModel::Ssh
    } else if s == unknown_text() {
        AppProtocolModel::Unknown
    } else {
        AppProtocolModel::Other(s)
    }
}

/// The transport protocol a stored text names; any text other than `TCP`
/// and `UDP` is `Other` with that text.
pub open spec fn transport_of(s: Seq<char>) -> TransportModel {
    if s == seq!['T', 'C', 'P'] {
        TransportModel::Tcp
    } else if s == seq!['U', 'D', 'P'] {
        TransportModel::Udp
    } else {
        TransportModel::Other(s)
    }
}

/// The text under which an application protocol is stored.
pub fn protocol_to_string(proto: &ApplicationProtocol) -> (s: String)
    ensures
        s@ == app_protocol_text(proto@),
{
    match proto {
        ApplicationProtocol::Http => {
            proof { reveal_strlit("HTTP"); }
            let s = owned("HTTP");
            assert(s@ =~= http_text());
            s
        },
        ApplicationProtocol::Https => {
            proof { reveal_strlit("HTTPS"); }
            let s = owned("HTTPS");
            assert(s@ =~= https_text());
            s
        },
        ApplicationProtocol::Ssh => {
            proof { reveal_strlit("SSH"); }
            let s = owned("SSH");
            assert(s@ =~= ssh_text());
            s
        },
        ApplicationProtocol::Other(v) => v.clone(),
        ApplicationProtocol::Unknown => {
            proof { reveal_strlit("UNKNOWN"); }
            let s = owned("UNKNOWN");
            assert(s@ =~= unknown_text());
            s
        },
    }
}

/// The application protocol that a stored text names.
pub fn parse_app_protocol(value: String) -> (p: ApplicationProtocol)
    ensures
        p@ == app_protocol_of(value@),
{
    proof {
        reveal_strlit("HTTP");
        reveal_strlit("HTTPS");
        reveal_strlit("SSH");
        reveal_strlit("UNKNOWN");
    }
    let http = owned("HTTP");
    let https = owned("HTTPS");
    let ssh = owned("SSH");
    let unknown = owned("UNKNOWN");
    assert(http@ =~= http_text());
    assert(https@ =~= https_text());
    assert(ssh@ =~= ssh_text());
    assert(unknown@ =~= unknown_text());
    if value.eq(&http) {
        ApplicationProtocol::Http
    } else if value.eq(&https) {
        ApplicationProtocol::Https
    } else if value.eq(&ssh) {
        ApplicationProtocol::Ssh
    } else if value.eq(&unknown) {
        ApplicationProtocol::Unknown
    } else {
        ApplicationProtocol::Other(value)
    }
}

/// The transport protocol that a stored text names.
pub fn parse_transport(value: &str) -> (t: TransportProtocol)
    ensures
        t@ == transport_of(value@),
{
    proof {
        reveal_strlit("TCP");
        reveal_strlit("UDP");
    }
    let v = owned(value);
    let tcp = owned("TCP");
    let udp = owned("UDP");
    assert(tcp@ =~= seq!['T', 'C', 'P']);
    assert(udp@ =~= seq!['U', 'D', 'P']);
    if v.eq(&tcp) {
        TransportProtocol::Tcp
    } else if v.eq(&udp) {
        TransportProtocol::Udp
    } else {
        TransportProtocol::Other(v)
    }
}

/// Reading back the stored text of an application protocol gives the same
/// protocol, unless it is an `Other` whose name is one of the fixed names.
pub proof fn law_app_protocol_round_trip(p: AppProtocolModel)
    requires
        p matches AppProtocolModel::Other(s) ==> s != http_text() && s != https_text()
            && s != ssh_text() && s != unknown_text(),
    ensures
        app_protocol_of(app_protocol_text(p)) == p,
{
    match p {
        AppProtocolModel::Http => {},
        AppProtocolModel::Https => {
            assert(https_text() != http_text()) by { assert(https_text().len() != http_text().len()); }
        },
        AppProtocolModel::Ssh => {
            assert(ssh_text() != http_text()) by { assert(ssh_text().len() != http_text().len()); }
            assert(ssh_text() != https_text()) by { assert(ssh_text().len() != https_text().len()); }
        },
        AppProtocolModel::Other(_) => {},
        AppProtocolModel::Unknown => {
            assert(unknown_text() != http_text()) by { assert(unknown_text().len() != http_text().len()); }
            assert(unknown_text() != https_text()) by { assert(unknown_text().len() != https_text().len()); }
            assert(unknown_text() != ssh_text()) by { assert(unknown_text().len() != ssh_text().len()); }
        },
    }
}

/// Reading back the stored text of a transport protocol gives the same
/// protocol, unless it is an `Other` named `TCP` or `UDP`.
pub proof fn law_transport_round_trip(t: TransportModel)
    requires
        t matches TransportModel::Other(s) ==> s != seq!['T', 'C', 'P'] && s != seq!['U', 'D', 'P'],
    ensures
        transport_of(transport_text(t)) == t,
{
    match t {
        TransportModel::Udp => {
            assert(seq!['U', 'D', 'P'] != seq!['T', 'C', 'P']) by {
                assert(seq!['U', 'D', 'P'][0] != seq!['T', 'C', 'P'][0]);
            }
        },
        _ => {},
    }
}

/// Distinct scan statuses are stored under distinct texts.
pub proof fn law_scan_status_text_distinct(a: crate::model::ScanStatus, b: crate::model::ScanStatus)
    requires
        a != b,
    ensures
        scan_status_text(a) != scan_status_text(b),
{
    let (x, y) = (scan_status_text(a), scan_status_text(b));
    if x.len() == y.len() {
        assert(x[0] != y[0]);
    }
}

/// A stored time, read back: the same instant when `chrono` can represent
/// it, otherwise the current time. Either way the result is an instant that
/// `chrono` can represent.
pub fn ts_to_dt(ts: i64) -> (r: i64)
    ensures
        timestamp_in_chrono_range(r),
        timestamp_in_chrono_range(ts) ==> r == ts,
{
    if timestamp_representable(ts) {
        ts
    } else {
        crate::clock::now_timestamp()
    }
}

/// The columns of a new `connections` row.
#[derive(Clone, Debug)]
pub struct ConnectionRow {
    pub first_seen: i64,
    pub last_seen: i64,
    pub src_ip: String,
    pub src_port: i64,
    pub dst_ip: String,
    pub dst_port: i64,
    pub transport: String,
    pub app_protocol: Option<String>,
    pub state: String,
    pub bytes_sent: i64,
    pub bytes_recv: i64,
}

/// How a connection is written: an update of the columns that change, for a
/// connection that has a row id; otherwise a new row.
#[derive(Clone, Debug)]
pub enum ConnectionWrite {
    Update {
        last_seen: i64,
        state: String,
        bytes_sent: i64,
        bytes_recv: i64,
        app_protocol: Option<String>,
        id: i64,
    },
    Insert(ConnectionRow),
}

/// The stored text of an optional application protocol.
pub open spec fn opt_protocol_text(p: Option<ApplicationProtocol>) -> Option<Seq<char>> {
    match p {
        Some(a) => Some(app_protocol_text(a@)),
        None => None,
    }
}

/// The characters of an optional string.
pub open spec fn opt_text(o: Option<String>) -> Option<Seq<char>> {
    match o {
        Some(s) => Some(s@),
        None => None,
    }
}

fn protocol_column(p: &Option<ApplicationProtocol>) -> (r: Option<String>)
    ensures
        opt_text(r) == opt_protocol_text(*p),
{
    match p {
        Some(a) => Some(protocol_to_string(a)),
        None => None,
    }
}

/// `row` holds the columns of a new row for `conn`.
pub open spec fn inserted_row(conn: Connection, row: ConnectionRow) -> bool {
    &&& row.first_seen == conn.first_seen.secs
    &&& row.last_seen == conn.last_seen.secs
    &&& row.src_ip@ == ip_text(conn.src_ip)
    &&& parsed_ip(row.src_ip@) == Some(conn.src_ip)
    &&& row.src_port == conn.src_port as i64
    &&& row.dst_ip@ == ip_text(conn.dst_ip)
    &&& parsed_ip(row.dst_ip@) == Some(conn.dst_ip)
    &&& row.dst_port == conn.dst_port as i64
    &&& row.transport@ == transport_text(conn.transport@)
    &&& opt_text(row.app_protocol) == opt_protocol_text(conn.app_protocol)
    &&& row.state == conn.state
    &&& row.bytes_sent == conn.bytes_sent as i64
    &&& row.bytes_recv == conn.bytes_recv as i64
}

/// What writing `conn` to the database does: counters are stored as signed
/// 64-bit values (two's complement), addresses and protocols as text.
pub fn connection_write(conn: &Connection) -> (w: ConnectionWrite)
    ensures
        match w {
            ConnectionWrite::Update { last_seen, state, bytes_sent, bytes_recv, app_protocol, id } => {
                &&& conn.id == Some(id)
                &&& last_seen == conn.last_seen.secs
                &&& state == conn.state
                &&& bytes_sent == conn.bytes_sent as i64
                &&& bytes_recv == conn.bytes_recv as i64
                &&& opt_text(app_protocol) == opt_protocol_text(conn.app_protocol)
            },
            ConnectionWrite::Insert(row) => conn.id is None && inserted_row(*conn, row),
        },
{
    match conn.id {
        Some(id) => ConnectionWrite::Update {
            last_seen: conn.last_seen.secs,
            state: conn.state.clone(),
            bytes_sent: conn.bytes_sent as i64,
            bytes_recv: conn.bytes_recv as i64,
            app_protocol: protocol_column(&conn.app_protocol),
            id,
        },
        None => ConnectionWrite::Insert(ConnectionRow {
            first_seen: conn.first_seen.secs,
            last_seen: conn.last_seen.secs,
            src_ip: ip_to_string(conn.src_ip),
            src_port: conn.src_port as i64,
            dst_ip: ip_to_string(conn.dst_ip),
            dst_port: conn.dst_port as i64,
            transport: conn.transport.to_string(),
            app_protocol: protocol_column(&conn.app_protocol),
            state: conn.state.clone(),
            bytes_sent: conn.bytes_sent as i64,
            bytes_recv: conn.bytes_recv as i64,
        }),
    }
}

/// The columns that identify a flow's rows.
#[derive(Clone, Debug)]
pub struct KeyRow {
    pub src_ip: String,
    pub src_port: i64,
    pub dst_ip: String,
    pub dst_port: i64,
    pub transport: String,
}

/// The columns by which the rows of flow `key` are found.
pub fn key_row(key: &ConnectionKey) -> (r: KeyRow)
    ensures
        r.src_ip@ == ip_text(key.src_ip),
        r.src_port == key.src_port as i64,
        r.dst_ip@ == ip_text(key.dst_ip),
        r.dst_port == key.dst_port as i64,
        r.transport@ == transport_text(key.protocol@),
{
    KeyRow {
        src_ip: ip_to_string(key.src_ip),
        src_port: key.src_port as i64,
        dst_ip: ip_to_string(key.dst_ip),
        dst_port: key.dst_port as i64,
        transport: key.protocol.to_string(),
    }
}

/// The `state` column of a connection that has expired: `CLOSED`.
pub open spec fn closed_state() -> Seq<char> {
    seq!['C', 'L', 'O', 'S', 'E', 'D']
}

/// The text stored for an expired connection's state.
pub fn closed_state_text() -> (s: String)
    ensures
        s@ == closed_state(),
{
    proof { reveal_strlit("CLOSED"); }
    let s = owned("CLOSED");
    assert(s@ =~= closed_state());
    s
}

/// The columns of a `scans` row.
#[derive(Clone, Debug)]
pub struct ScanRow {
    pub dst_ip: String,
    pub ts: i64,
    pub status: String,
    pub ports: Option<String>,
    pub result_raw: Option<String>,
}

/// The row under which a scan record is stored.
pub fn scan_row(scan: &ScanResult) -> (r: ScanRow)
    ensures
        r.dst_ip@ == ip_text(scan.dst_ip),
        r.ts == scan.ts,
        r.status@ == scan_status_text(scan.status),
        r.ports == scan.ports,
        r.result_raw == scan.result_raw,
{
    ScanRow {
        dst_ip: ip_to_string(scan.dst_ip),
        ts: scan.ts,
        status: scan.status.to_string(),
        ports: duplicate_text(&scan.ports),
        result_raw: duplicate_text(&scan.result_raw),
    }
}

/// The columns of an `endpoint_info` row; coordinates as `f64` bit patterns.
#[derive(Clone, Debug)]
pub struct EndpointRow {
    pub ip: String,
    pub country: Option<String>,
    pub city: Option<String>,
    pub latitude: Option<u64>,
    pub longitude: Option<u64>,
    pub hostname: Option<String>,
    pub last_updated: Option<i64>,
}

/// The row under which what is known of an endpoint is stored.
pub fn endpoint_row(info: &EndpointInfo) -> (r: EndpointRow)
    ensures
        r.ip@ == ip_text(info.ip),
        r.country == info.country,
        r.city == info.city,
        r.latitude == info.latitude,
        r.longitude == info.longitude,
        r.hostname == info.hostname,
        r.last_updated == info.last_updated,
{
    EndpointRow {
        ip: ip_to_string(info.ip),
        country: duplicate_text(&info.country),
        city: duplicate_text(&info.city),
        latitude: info.latitude,
        longitude: info.longitude,
        hostname: duplicate_text(&info.hostname),
        last_updated: info.last_updated,
    }
}

/// The columns of a `connections` row as read back.
#[derive(Clone, Debug)]
pub struct StoredConnection {
    pub id: Option<i64>,
    pub first_seen: i64,
    pub last_seen: i64,
    pub src_ip: String,
    pub src_port: i64,
    pub dst_ip: String,
    pub dst_port: i64,
    pub transport: String,
    pub app_protocol: Option<String>,
    pub state: String,
    pub bytes_sent: i64,
    pub bytes_recv: i64,
}

/// `0.0.0.0`, read in place of an address that does not parse.
pub open spec fn unspecified_v4() -> IpAddr {
    IpAddr::V4(0)
}

/// The address a stored text holds, or `0.0.0.0` when it holds none.
pub open spec fn stored_ip(text: Seq<char>) -> IpAddr {
    match parsed_ip(text) {
        Some(ip) => ip,
        None => unspecified_v4(),
    }
}

fn ip_column(text: &String) -> (ip: IpAddr)
    ensures
        ip == stored_ip(text@),
{
    match parse_ip(text.as_str()) {
        Some(ip) => ip,
        None => IpAddr::V4(0),
    }
}

/// The application protocol named by an optional stored text.
pub open spec fn opt_app_protocol_of(s: Option<Seq<char>>) -> Option<AppProtocolModel> {
    match s {
        Some(t) => Some(app_protocol_of(t)),
        None => None,
    }
}

/// The view of an optional application protocol.
pub open spec fn opt_protocol_model(p: Option<ApplicationProtocol>) -> Option<AppProtocolModel> {
    match p {
        Some(a) => Some(a@),
        None => None,
    }
}

/// The instant `t` cut to its whole second, as a stored time reads back.
pub open spec fn whole_second(t: Timestamp) -> Timestamp {
    Timestamp { secs: t.secs, subsec_nanos: 0 }
}

/// `c` is the connection read back from the stored columns `row`: times are
/// whole seconds.
pub open spec fn read_back(row: StoredConnection, c: Connection) -> bool {
    &&& c.id == row.id
    &&& c.first_seen.subsec_nanos == 0 && timestamp_in_chrono_range(c.first_seen.secs)
    &&& c.last_seen.subsec_nanos == 0 && timestamp_in_chrono_range(c.last_seen.secs)
    &&& timestamp_in_chrono_range(row.first_seen) ==> c.first_seen.secs == row.first_seen
    &&& timestamp_in_chrono_range(row.last_seen) ==> c.last_seen.secs == row.last_seen
    &&& c.src_ip == stored_ip(row.src_ip@)
    &&& c.src_port == row.src_port as u16
    &&& c.dst_ip == stored_ip(row.dst_ip@)
    &&& c.dst_port == row.dst_port as u16
    &&& c.transport@ == transport_of(row.transport@)
    &&& opt_protocol_model(c.app_protocol) == opt_app_protocol_of(opt_text(row.app_protocol))
    &&& c.state == row.state
    &&& c.bytes_sent == row.bytes_sent as u64
    &&& c.bytes_recv == row.bytes_recv as u64
    &&& c.direction == ConnectionDirection::Unknown
}

/// `stored` holds, under row id `id`, the columns of `row`.
pub open spec fn stored_as(row: ConnectionRow, stored: StoredConnection, id: i64) -> bool {
    &&& stored.id == Some(id)
    &&& stored.first_seen == row.first_seen
    &&& stored.last_seen == row.last_seen
    &&& stored.src_ip@ == row.src_ip@
    &&& stored.src_port == row.src_port
    &&& stored.dst_ip@ == row.dst_ip@
    &&& stored.dst_port == row.dst_port
    &&& stored.transport@ == row.transport@
    &&& opt_text(stored.app_protocol) == opt_text(row.app_protocol)
    &&& stored.state == row.state
    &&& stored.bytes_sent == row.bytes_sent
    &&& stored.bytes_recv == row.bytes_recv
}

/// A connection written as a new row and read back is the same connection,
/// under its row id, with its times cut to whole seconds and an unknown
/// direction, provided that its times are within `chrono`'s range and no
/// protocol is an `Other` named like a fixed one.
pub proof fn law_connection_row_round_trip(conn: Connection, row: ConnectionRow, stored: StoredConnection, id: i64, c: Connection)
    requires
        inserted_row(conn, row),
        stored_as(row, stored, id),
        read_back(stored, c),
        timestamp_in_chrono_range(conn.first_seen.secs),
        timestamp_in_chrono_range(conn.last_seen.secs),
        conn.transport@ matches TransportModel::Other(s) ==> s != seq!['T', 'C', 'P'] && s != seq!['U', 'D', 'P'],
        conn.app_protocol matches Some(p) ==> (p@ matches AppProtocolModel::Other(s) ==> s != http_text()
            && s != https_text() && s != ssh_text() && s != unknown_text()),
    ensures
        c.id == Some(id),
        c.first_seen == whole_second(conn.first_seen),
        c.last_seen == whole_second(conn.last_seen),
        c.key_model() == conn.key_model(),
        opt_protocol_model(c.app_protocol) == opt_protocol_model(conn.app_protocol),
        c.state == conn.state,
        c.bytes_sent == conn.bytes_sent,
        c.bytes_recv == conn.bytes_recv,
{
    let (bs, br, sp, dp) = (conn.bytes_sent, conn.bytes_recv, conn.src_port, conn.dst_port);
    assert((bs as i64) as u64 == bs) by (bit_vector);
    assert((br as i64) as u64 == br) by (bit_vector);
    assert((sp as i64) as u16 == sp) by (bit_vector);
    assert((dp as i64) as u16 == dp) by (bit_vector);
    law_transport_round_trip(conn.transport@);
    if let Some(p) = conn.app_protocol {
        law_app_protocol_round_trip(p@);
    }
}

/// A connection read back from its row: ports and counters are taken as
/// their low 16 and 64 bits, an address that does not parse reads as
/// `0.0.0.0`, and the direction is unknown.
pub fn connection_from_row(row: StoredConnection) -> (c: Connection)
    ensures
        read_back(row, c),
{
    let first_seen = Timestamp { secs: ts_to_dt(row.first_seen), subsec_nanos: 0 };
    let last_seen = Timestamp { secs: ts_to_dt(row.last_seen), subsec_nanos: 0 };
    let src_ip = ip_column(&row.src_ip);
    let dst_ip = ip_column(&row.dst_ip);
    let transport = parse_transport(row.transport.as_str());
    let app_protocol = match row.app_protocol {
        Some(t) => Some(parse_app_protocol(t)),
        None => None,
    };
    Connection {
        id: row.id,
        first_seen,
        last_seen,
        src_ip,
        src_port: row.src_port as u16,
        dst_ip,
        dst_port: row.dst_port as u16,
        transport,
        app_protocol,
        state: row.state,
        bytes_sent: row.bytes_sent as u64,
        bytes_recv: row.bytes_recv as u64,
        direction: ConnectionDirection::Unknown,
    }
}

} // verus!
