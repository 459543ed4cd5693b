//! The data that flows through the monitor: connection keys and records,
//! protocols, HTTP request metadata, endpoint and scan records, and the events
//! that the capture side hands to the interface.
use vstd::prelude::*;
use crate::net::IpAddr;
use crate::text::owned;
pub use crate::clock::Timestamp;

verus! {

/// The transport protocol of a connection.
#[derive(Clone, Debug, PartialEq, Eq, Hash)]
pub enum TransportProtocol {
    Tcp,
    Udp,
    Other(String),
}

/// What a `TransportProtocol` denotes, with the name of `Other` as characters.
pub enum TransportModel {
    Tcp,
    Udp,
    Other(Seq<char>),
}

impl View for TransportProtocol {
    type V = TransportModel;

    open spec fn view(&self) -> TransportModel {
        match self {
            TransportProtocol::Tcp => TransportModel::Tcp,
            TransportProtocol::Udp => TransportModel::Udp,
            TransportProtocol::Other(s) => TransportModel::Other(s@),
        }
    }
}

/// `TCP`, `UDP`, or the name carried by `Other`.
pub open spec fn transport_text(t: TransportModel) -> Seq<char> {
    match t {
        TransportModel::Tcp => seq!['T', 'C', 'P'],
        TransportModel::Udp => seq!['U', 'D', 'P'],
        TransportModel::Other(s) => s,
    }
}

impl TransportProtocol {
    /// The protocol's display text: `TCP`, `UDP`, or the name of `Other`.
    pub fn to_string(&self) -> (s: String)
        ensures
            s@ == transport_text(self@),
    {
        match self {
            TransportProtocol::Tcp => {
                proof { reveal_strlit("TCP"); }
                owned("TCP")
            },
            TransportProtocol::Udp => {
                proof { reveal_strlit("UDP"); }
                owned("UDP")
            },
            TransportProtocol::Other(v) => v.clone(),
        }
    }

    /// A copy equal to `self`.
    pub fn duplicate(&self) -> (r: Self)
        ensures
            r == *self,
    {
        match self {
            TransportProtocol::Tcp => TransportProtocol::Tcp,
            TransportProtocol::Udp => TransportProtocol::Udp,
            TransportProtocol::Other(v) => TransportProtocol::Other(v.clone()),
        }
    }

    /// Whether the two protocols denote the same thing.
    pub fn same_as(&self, other: &Self) -> (r: bool)
        ensures
            r == (self@ == other@),
    {
        match (self, other) {
            (TransportProtocol::Tcp, TransportProtocol::Tcp) => true,
            (TransportProtocol::Udp, TransportProtocol::Udp) => true,
            (TransportProtocol::Other(a), TransportProtocol::Other(b)) => {
                let r = a.eq(b);
                proof {
                    if r { assert(self@ == other@); } else { assert(self@ != other@); }
                }
                r
            },
            _ => false,
        }
    }
}

/// The application protocol recognised on a connection.
#[derive(Clone, Debug, PartialEq, Eq, Hash)]
pub enum ApplicationProtocol {
    Http,
    Https,
    Ssh,
    Other(String),
    Unknown,
}

/// What an `ApplicationProtocol` denotes, with the name of `Other` as characters.
pub enum AppProtocolModel {
    Http,
    Https,
    Ssh,
    Other(Seq<char>),
    Unknown,
}

impl View for ApplicationProtocol {
    type V = AppProtocolModel;

    open spec fn view(&self) -> AppProtocolModel {
        match self {
            ApplicationProtocol::Http => AppProtocolModel::Http,
            ApplicationProtocol::Https => AppProtocolModel::Https,
            ApplicationProtocol::Ssh => AppProtocolModel::Ssh,
            ApplicationProtocol::Other(s) => AppProtocolModel::Other(s@),
            ApplicationProtocol::Unknown => AppProtocolModel::Unknown,
        }
    }
}

impl ApplicationProtocol {
    /// A copy equal to `self`.
    pub fn duplicate(&self) -> (r: Self)
        ensures
            r == *self,
    {
        match self {
            ApplicationProtocol::Http => ApplicationProtocol::Http,
            ApplicationProtocol::Https => ApplicationProtocol::Https,
            ApplicationProtocol::Ssh => ApplicationProtocol::Ssh,
            ApplicationProtocol::Other(v) => ApplicationProtocol::Other(v.clone()),
            ApplicationProtocol::Unknown => ApplicationProtocol::Unknown,
        }
    }
}

/// A copy of an optional application protocol, equal to it.
pub fn duplicate_app_protocol(p: &Option<ApplicationProtocol>) -> (r: Option<ApplicationProtocol>)
    ensures
        r == *p,
{
    match p {
        Some(a) => Some(a.duplicate()),
        None => None,
    }
}

/// A copy of an optional string, equal to it.
pub fn duplicate_text(s: &Option<String>) -> (r: Option<String>)
    ensures
        r == *s,
{
    match s {
        Some(v) => Some(v.clone()),
        None => None,
    }
}

/// The five values that identify a flow of packets.
#[derive(Clone, Debug, PartialEq, Eq, Hash)]
pub struct ConnectionKey {
    pub src_ip: IpAddr,
    pub src_port: u16,
    pub dst_ip: IpAddr,
    pub dst_port: u16,
    pub protocol: TransportProtocol,
}

/// What a `ConnectionKey` denotes.
pub struct KeyModel {
    pub src_ip: IpAddr,
    pub src_port: u16,
    pub dst_ip: IpAddr,
    pub dst_port: u16,
    pub protocol: TransportModel,
}

impl View for ConnectionKey {
    type V = KeyModel;

    open spec fn view(&self) -> KeyModel {
        KeyModel {
            src_ip: self.src_ip,
            src_port: self.src_port,
            dst_ip: self.dst_ip,
            dst_port: self.dst_port,
            protocol: self.protocol@,
        }
    }
}

impl ConnectionKey {
    /// A copy equal to `self`.
    pub fn duplicate(&self) -> (r: Self)
        ensures
            r == *self,
    {
        ConnectionKey {
            src_ip: self.src_ip,
            src_port: self.src_port,
            dst_ip: self.dst_ip,
            dst_port: self.dst_port,
            protocol: self.protocol.duplicate(),
        }
    }
}

/// Whether two keys denote the same flow: all five values agree.
pub fn same_key(a: &ConnectionKey, b: &ConnectionKey) -> (r: bool)
    ensures
        r == (a@ == b@),
{
    a.src_ip == b.src_ip && a.dst_ip == b.dst_ip && a.src_port == b.src_port && a.dst_port
        == b.dst_port && a.protocol.same_as(&b.protocol)
}

/// Which side of a connection is this machine.
#[derive(Clone, Copy, Debug, PartialEq, Eq, Structural)]
pub enum ConnectionDirection {
    Incoming,
    Outgoing,
    Unknown,
}

/// A tracked connection.
#[derive(Clone, Debug)]
pub struct Connection {
    pub id: Option<i64>,
    pub first_seen: Timestamp,
    pub last_seen: Timestamp,
    pub src_ip: IpAddr,
    pub src_port: u16,
    pub dst_ip: IpAddr,
    pub dst_port: u16,
    pub transport: TransportProtocol,
    pub app_protocol: Option<ApplicationProtocol>,
    pub state: String,
    pub bytes_sent: u64,
    pub bytes_recv: u64,
    pub direction: ConnectionDirection,
}

/// The state text of a connection that is open: `OPEN`.
pub open spec fn open_state() -> Seq<char> {
    seq!['O', 'P', 'E', 'N']
}

impl Connection {
    /// The key of the flow this connection belongs to.
    pub open spec fn key_model(&self) -> KeyModel {
        KeyModel {
            src_ip: self.src_ip,
            src_port: self.src_port,
            dst_ip: self.dst_ip,
            dst_port: self.dst_port,
            protocol: self.transport@,
        }
    }

    /// Whether `self` is the record of a connection for `key` just opened at
    /// time `now`: no row id, no traffic, no application protocol, state `OPEN`.
    pub open spec fn is_opened(&self, key: ConnectionKey, direction: ConnectionDirection, now: Timestamp) -> bool {
        &&& self.id is None
        &&& self.first_seen == now
        &&& self.last_seen == now
        &&& self.src_ip == key.src_ip
        &&& self.src_port == key.src_port
        &&& self.dst_ip == key.dst_ip
        &&& self.dst_port == key.dst_port
        &&& self.transport == key.protocol
        &&& self.app_protocol is None
        &&& self.state@ == open_state()
        &&& self.bytes_sent == 0
        &&& self.bytes_recv == 0
        &&& self.direction == direction
    }

    /// A copy equal to `self`.
    pub fn duplicate(&self) -> (r: Self)
        ensures
            r == *self,
    {
        Connection {
            id: self.id,
            first_seen: self.first_seen,
            last_seen: self.last_seen,
            src_ip: self.src_ip,
            src_port: self.src_port,
            dst_ip: self.dst_ip,
            dst_port: self.dst_port,
            transport: self.transport.duplicate(),
            app_protocol: duplicate_app_protocol(&self.app_protocol),
            state: self.state.clone(),
            bytes_sent: self.bytes_sent,
            bytes_recv: self.bytes_recv,
            direction: self.direction,
        }
    }

    /// A new connection for `key`, opened now by the clock.
    pub fn new(key: ConnectionKey, direction: ConnectionDirection) -> (c: Self)
        ensures
            c.is_opened(key, direction, c.first_seen),
    {
        let now = crate::clock::now_utc();
        Self::opened_at(key, direction, now)
    }

    /// A new connection for `key`, opened at `now`.
    pub fn opened_at(key: ConnectionKey, direction: ConnectionDirection, now: Timestamp) -> (c: Self)
        ensures
            c.is_opened(key, direction, now),
    {
        proof { reveal_strlit("OPEN"); }
        let state = owned("OPEN");
        assert(state@ =~= open_state());
        Connection {
            id: None,
            first_seen: now,
            last_seen: now,
            src_ip: key.src_ip,
            src_port: key.src_port,
            dst_ip: key.dst_ip,
            dst_port: key.dst_port,
            transport: key.protocol,
            app_protocol: None,
            state,
            bytes_sent: 0,
            bytes_recv: 0,
            direction,
        }
    }
}

/// A change to a tracked connection.
#[derive(Clone, Debug)]
pub enum ConnectionEvent {
    Opened(Connection),
    Updated(Connection),
    Closed(ConnectionKey),
}

/// Metadata of one HTTP request. `ts` is in seconds since the epoch.
#[derive(Clone, Debug)]
pub struct HttpRequest {
    pub ts: i64,
    pub method: Option<String>,
    pub host: Option<String>,
    pub path: Option<String>,
    pub http_version: Option<String>,
    pub authorization: Option<String>,
    pub user_agent: Option<String>,
}

/// What is known of a remote endpoint. Coordinates are held as the IEEE-754
/// bit patterns of the `f64` degrees; `last_updated` is in seconds since the epoch.
#[derive(Clone, Debug)]
pub struct EndpointInfo {
    pub ip: IpAddr,
    pub country: Option<String>,
    pub city: Option<String>,
    pub latitude: Option<u64>,
    pub longitude: Option<u64>,
    pub hostname: Option<String>,
    pub last_updated: Option<i64>,
}

/// The progress of a port scan.
#[derive(Clone, Copy, Debug, PartialEq, Eq, Structural)]
pub enum ScanStatus {
    Pending,
    Running,
    Done,
    Failed,
}

/// `PENDING`, `RUNNING`, `DONE` or `FAILED`.
pub open spec fn scan_status_text(s: ScanStatus) -> Seq<char> {
    match s {
        ScanStatus::Pending => seq!['P', 'E', 'N', 'D', 'I', 'N', 'G'],
        ScanStatus::Running => seq!['R', 'U', 'N', 'N', 'I', 'N', 'G'],
        ScanStatus::Done => seq!['D', 'O', 'N', 'E'],
        ScanStatus::Failed => seq!['F', 'A', 'I', 'L', 'E', 'D'],
    }
}

impl ScanStatus {
    /// The status as stored: `PENDING`, `RUNNING`, `DONE` or `FAILED`.
    pub fn to_string(&self) -> (s: String)
        ensures
            s@ == scan_status_text(*self),
    {
        match self {
            ScanStatus::Pending => {
                proof { reveal_strlit("PENDING"); }
                owned("PENDING")
            },
            ScanStatus::Running => {
                proof { reveal_strlit("RUNNING"); }
                owned("RUNNING")
            },
            ScanStatus::Done => {
                proof { reveal_strlit("DONE"); }
                owned("DONE")
            },
            ScanStatus::Failed => {
                proof { reveal_strlit("FAILED"); }
                owned("FAILED")
            },
        }
    }
}

/// One record of a port scan of `dst_ip`; `ts` is in seconds since the epoch.
#[derive(Clone, Debug)]
pub struct ScanResult {
    pub dst_ip: IpAddr,
    pub ts: i64,
    pub status: ScanStatus,
    pub ports: Option<String>,
    pub result_raw: Option<String>,
}

/// The part of a connection that the interface shows.
#[derive(Clone, Debug)]
pub struct ConnectionView {
    pub key: ConnectionKey,
    pub direction: ConnectionDirection,
    pub state: String,
    pub last_seen: Timestamp,
    pub bytes_sent: u64,
    pub bytes_recv: u64,
    pub app_protocol: Option<ApplicationProtocol>,
}

/// Whether `v` shows exactly the connection `c`.
pub open spec fn shows(v: ConnectionView, c: Connection) -> bool {
    &&& v.key.src_ip == c.src_ip
    &&& v.key.src_port == c.src_port
    &&& v.key.dst_ip == c.dst_ip
    &&& v.key.dst_port == c.dst_port
    &&& v.key.protocol == c.transport
    &&& v.direction == c.direction
    &&& v.state == c.state
    &&& v.last_seen == c.last_seen
    &&& v.bytes_sent == c.bytes_sent
    &&& v.bytes_recv == c.bytes_recv
    &&& v.app_protocol == c.app_protocol
}

impl ConnectionView {
    /// A copy equal to `self`.
    pub fn duplicate(&self) -> (r: Self)
        ensures
            r == *self,
    {
        ConnectionView {
            key: self.key.duplicate(),
            direction: self.direction,
            state: self.state.clone(),
            last_seen: self.last_seen,
            bytes_sent: self.bytes_sent,
            bytes_recv: self.bytes_recv,
            app_protocol: duplicate_app_protocol(&self.app_protocol),
        }
    }

    /// The view of a connection.
    pub fn from_connection(conn: &Connection) -> (v: Self)
        ensures
            shows(v, *conn),
    {
        ConnectionView {
            key: ConnectionKey {
                src_ip: conn.src_ip,
                src_port: conn.src_port,
                dst_ip: conn.dst_ip,
                dst_port: conn.dst_port,
                protocol: conn.transport.duplicate(),
            },
            direction: conn.direction,
            state: conn.state.clone(),
            last_seen: conn.last_seen,
            bytes_sent: conn.bytes_sent,
            bytes_recv: conn.bytes_recv,
            app_protocol: duplicate_app_protocol(&conn.app_protocol),
        }
    }
}

/// The view of a connection, as a value.
pub open spec fn view_of(conn: Connection) -> ConnectionView {
    ConnectionView {
        key: ConnectionKey {
            src_ip: conn.src_ip,
            src_port: conn.src_port,
            dst_ip: conn.dst_ip,
            dst_port: conn.dst_port,
            protocol: conn.transport,
        },
        direction: conn.direction,
        state: conn.state,
        last_seen: conn.last_seen,
        bytes_sent: conn.bytes_sent,
        bytes_recv: conn.bytes_recv,
        app_protocol: conn.app_protocol,
    }
}

impl<'a> From<&'a Connection> for ConnectionView {
    fn from(conn: &'a Connection) -> (v: Self) {
        let v = ConnectionView::from_connection(conn);
        assert(v == view_of(*conn));
        v
    }
}

impl<'a> vstd::std_specs::convert::FromSpecImpl<&'a Connection> for ConnectionView {
    open spec fn obeys_from_spec() -> bool {
        true
    }

    open spec fn from_spec(conn: &'a Connection) -> ConnectionView {
        view_of(*conn)
    }
}

/// A tracked connection together with the time of its last packet, in
/// nanoseconds since the Unix epoch.
#[derive(Clone, Debug)]
pub struct ConnectionState {
    pub connection: Connection,
    pub last_packet_ts: i128,
}

impl ConnectionState {
    /// A copy equal to `self`.
    pub fn duplicate(&self) -> (r: Self)
        ensures
            r == *self,
    {
        ConnectionState { connection: self.connection.duplicate(), last_packet_ts: self.last_packet_ts }
    }
}

/// A message from the capture and scan side to the interface.
pub enum AppEvent {
    ConnectionAdded(ConnectionView),
    ConnectionUpdated(ConnectionView),
    ConnectionClosed(ConnectionKey),
    EndpointUpdated(EndpointInfo),
    ScanUpdated(ScanResult),
}

} // verus!
