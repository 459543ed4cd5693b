//! Connection tracking: the table of live flows, what one captured packet
//! does to it, idle expiry, and the choices made when capture starts.
use vstd::prelude::*;
use vstd::utf8::{valid_utf8, decode_utf8};
use crate::net::IpAddr;
use crate::config::Config;
use crate::clock::{Timestamp, nanos_of};
use crate::model::{
    AppEvent, ApplicationProtocol, Connection, ConnectionDirection, ConnectionKey, ConnectionState,
    ConnectionView, HttpRequest, KeyModel, TransportProtocol, shows,
};
use crate::analysis::{
    detect_application_protocol, http_model, infer_direction, parse_http_request_at,
    banner_line, first_line, request_matches, sni_host_name, spec_detect, spec_direction, spec_sni_host,
};

verus! {

/// The byte counters of `c` after a packet of `len` bytes in direction `dir`:
/// sent for outgoing, received for incoming, half to each (rounded down) when unknown.
pub open spec fn counted(c: Connection, dir: ConnectionDirection, len: nat) -> (int, int) {
    match dir {
        ConnectionDirection::Outgoing => (c.bytes_sent + len, c.bytes_recv as int),
        ConnectionDirection::Incoming => (c.bytes_sent as int, c.bytes_recv + len),
        ConnectionDirection::Unknown => (c.bytes_sent + len / 2, c.bytes_recv + len / 2),
    }
}

/// The counters of `c` can take a packet of `len` bytes in direction `dir`
/// without overflowing.
pub open spec fn counters_fit(c: Connection, dir: ConnectionDirection, len: nat) -> bool {
    counted(c, dir, len).0 <= u64::MAX && counted(c, dir, len).1 <= u64::MAX
}

/// `c` with its counters advanced for a packet of `len` bytes in direction `dir`.
pub open spec fn with_counted(c: Connection, dir: ConnectionDirection, len: nat) -> Connection {
    Connection {
        bytes_sent: counted(c, dir, len).0 as u64,
        bytes_recv: counted(c, dir, len).1 as u64,
        ..c
    }
}

/// Counts a packet of `bytes` bytes in direction `direction`.
pub fn update_counters(conn: &mut Connection, direction: ConnectionDirection, bytes: u64)
    requires
        counters_fit(*old(conn), direction, bytes as nat),
    ensures
        *final(conn) == with_counted(*old(conn), direction, bytes as nat),
{
    match direction {
        ConnectionDirection::Outgoing => conn.bytes_sent = conn.bytes_sent + bytes,
        ConnectionDirection::Incoming => conn.bytes_recv = conn.bytes_recv + bytes,
        ConnectionDirection::Unknown => {
            conn.bytes_sent = conn.bytes_sent + bytes / 2;
            conn.bytes_recv = conn.bytes_recv + bytes / 2;
        },
    }
}

/// The remote end of a flow: the destination unless the flow is incoming.
pub open spec fn spec_remote_ip(key: KeyModel, dir: ConnectionDirection) -> IpAddr {
    match dir {
        ConnectionDirection::Incoming => key.src_ip,
        _ => key.dst_ip,
    }
}

/// The remote end of a flow: the destination unless the flow is incoming.
pub fn remote_ip(key: &ConnectionKey, direction: ConnectionDirection) -> (r: IpAddr)
    ensures
        r == spec_remote_ip(key@, direction),
{
    match direction {
        ConnectionDirection::Outgoing => key.dst_ip,
        ConnectionDirection::Incoming => key.src_ip,
        ConnectionDirection::Unknown => key.dst_ip,
    }
}

/// The local end of a flow, address and port: the destination when the flow
/// is incoming, the source otherwise.
pub open spec fn spec_local_end(key: ConnectionKey, dir: ConnectionDirection) -> (IpAddr, u16) {
    match dir {
        ConnectionDirection::Incoming => (key.dst_ip, key.dst_port),
        _ => (key.src_ip, key.src_port),
    }
}

/// The remote end of a flow, address and port: the source when the flow is
/// incoming, the destination otherwise.
pub open spec fn spec_remote_end(key: ConnectionKey, dir: ConnectionDirection) -> (IpAddr, u16) {
    match dir {
        ConnectionDirection::Incoming => (key.src_ip, key.src_port),
        _ => (key.dst_ip, key.dst_port),
    }
}

/// The local end of flow `key` in direction `direction`.
pub fn local_end(key: &ConnectionKey, direction: ConnectionDirection) -> (r: (IpAddr, u16))
    ensures
        r == spec_local_end(*key, direction),
{
    match direction {
        ConnectionDirection::Incoming => (key.dst_ip, key.dst_port),
        _ => (key.src_ip, key.src_port),
    }
}

/// The remote end of flow `key` in direction `direction`.
pub fn remote_end(key: &ConnectionKey, direction: ConnectionDirection) -> (r: (IpAddr, u16))
    ensures
        r == spec_remote_end(*key, direction),
        r.0 == spec_remote_ip(key@, direction),
{
    match direction {
        ConnectionDirection::Incoming => (key.src_ip, key.src_port),
        _ => (key.dst_ip, key.dst_port),
    }
}

/// A tracked connection after another packet at time `now`: last seen then,
/// counters advanced, and the application protocol set if it had none.
pub open spec fn stepped(c: Connection, dir: ConnectionDirection, len: nat, proto: Option<ApplicationProtocol>, now: Timestamp) -> Connection {
    Connection {
        last_seen: now,
        app_protocol: if c.app_protocol is None { proto } else { c.app_protocol },
        ..with_counted(c, dir, len)
    }
}

/// `c` is the record of flow `key` first seen at `now` with a packet of `len`
/// bytes in direction `dir` that suggested protocol `proto`.
pub open spec fn first_record(c: Connection, key: ConnectionKey, dir: ConnectionDirection, len: nat, proto: Option<ApplicationProtocol>, now: Timestamp) -> bool {
    &&& c.id is None
    &&& c.first_seen == now
    &&& c.last_seen == now
    &&& c.src_ip == key.src_ip
    &&& c.src_port == key.src_port
    &&& c.dst_ip == key.dst_ip
    &&& c.dst_port == key.dst_port
    &&& c.transport == key.protocol
    &&& c.app_protocol == proto
    &&& c.state@ == crate::model::open_state()
    &&& c.direction == dir
    &&& c.bytes_sent as int == match dir {
        ConnectionDirection::Outgoing => len as int,
        ConnectionDirection::Incoming => 0,
        ConnectionDirection::Unknown => (len / 2) as int,
    }
    &&& c.bytes_recv as int == match dir {
        ConnectionDirection::Outgoing => 0,
        ConnectionDirection::Incoming => len as int,
        ConnectionDirection::Unknown => (len / 2) as int,
    }
}

/// `v` shows `c`, except that a protocol suggested by this packet is shown in
/// place of the stored one.
pub open spec fn shows_update(v: ConnectionView, c: Connection, proto: Option<ApplicationProtocol>) -> bool {
    shows(v, Connection { app_protocol: if proto is Some { proto } else { c.app_protocol }, ..c })
}

/// What a packet leaves for the side that stores and shows it.
pub struct PacketOutcome {
    /// `ConnectionAdded` for a new flow, `ConnectionUpdated` otherwise.
    pub event: AppEvent,
    /// The connection as it now stands, to be stored.
    pub connection: Connection,
    /// Whether the flow was not tracked before this packet.
    pub is_new: bool,
    /// For a packet taken for HTTP: the request metadata, to be stored under
    /// the connection's row id.
    pub http_request: Option<HttpRequest>,
    /// For a new flow: its remote end, to be located and queued for a scan.
    pub remote_ip: Option<IpAddr>,
    /// For a packet taken for HTTPS: the host name its ClientHello asks
    /// for, to be stored as the remote end's host name.
    pub server_name: Option<String>,
    /// For a packet taken for SSH: the banner line it opens with, to be
    /// stored with the connection.
    pub ssh_banner: Option<String>,
}

/// The live flows, each under its key.
pub struct ConnectionTable {
    entries: Vec<(ConnectionKey, ConnectionState)>,
}

impl View for ConnectionTable {
    type V = Seq<(ConnectionKey, ConnectionState)>;

    closed spec fn view(&self) -> Seq<(ConnectionKey, ConnectionState)> {
        self.entries@
    }
}

/// No two entries share a key, and each entry's connection is for its key.
pub open spec fn table_wf(es: Seq<(ConnectionKey, ConnectionState)>) -> bool {
    &&& forall|i: int, j: int| 0 <= i < j < es.len() ==> #[trigger] es[i].0@ != #[trigger] es[j].0@
    &&& forall|i: int| 0 <= i < es.len() ==> (#[trigger] es[i]).1.connection.key_model() == es[i].0@
}

/// Some entry has key `k`.
pub open spec fn tracks(es: Seq<(ConnectionKey, ConnectionState)>, k: KeyModel) -> bool {
    exists|i: int| 0 <= i < es.len() && #[trigger] es[i].0@ == k
}

impl ConnectionTable {
    /// An empty table.
    pub fn new() -> (t: Self)
        ensures
            t@ == Seq::<(ConnectionKey, ConnectionState)>::empty(),
            table_wf(t@),
    {
        ConnectionTable { entries: Vec::new() }
    }

    /// The number of tracked flows.
    pub fn len(&self) -> (n: usize)
        ensures
            n == self@.len(),
    {
        self.entries.len()
    }

    /// The index of the entry with key `key`, if any.
    pub fn find(&self, key: &ConnectionKey) -> (r: Option<usize>)
        ensures
            r matches Some(i) ==> i < self@.len() && self@[i as int].0@ == key@,
            r is None ==> !tracks(self@, key@),
    {
        let mut i: usize = 0;
        while i < self.entries.len()
            invariant
                i <= self@.len(),
                self@ == self.entries@,
                forall|k: int| 0 <= k < i ==> self@[k].0@ != key@,
            decreases self@.len() - i,
        {
            if crate::model::same_key(&self.entries[i].0, key) {
                return Some(i);
            }
            i = i + 1;
        }
        None
    }

    /// The state of the entry at `i`.
    pub fn state_at(&self, i: usize) -> (s: &ConnectionState)
        requires
            i < self@.len(),
        ensures
            *s == self@[i as int].1,
    {
        &self.entries[i].1
    }

    /// Whether a packet of `len` bytes for `key` from a machine with
    /// addresses `local_ips` leaves the flow's counters in range.
    pub fn counters_fit_for(&self, key: &ConnectionKey, local_ips: &[IpAddr], len: usize) -> (r: bool)
        requires
            table_wf(self@),
        ensures
            r == (forall|i: int| 0 <= i < self@.len() && #[trigger] self@[i].0@ == key@
                ==> counters_fit(self@[i].1.connection, spec_direction(local_ips@, key.src_ip, key.dst_ip), len as nat)),
    {
        let direction = infer_direction(local_ips, key.src_ip, key.dst_ip);
        match self.find(key) {
            None => true,
            Some(i) => {
                let c = &self.entries[i].1.connection;
                let n = len as u64;
                let r = match direction {
                    ConnectionDirection::Outgoing => c.bytes_sent <= u64::MAX - n,
                    ConnectionDirection::Incoming => c.bytes_recv <= u64::MAX - n,
                    ConnectionDirection::Unknown => c.bytes_sent <= u64::MAX - n / 2 && c.bytes_recv <= u64::MAX - n / 2,
                };
                assert forall|j: int| 0 <= j < self@.len() && #[trigger] self@[j].0@ == key@ implies j == i by {
                    if j < i { assert(self@[j].0@ != self@[i as int].0@); }
                    if j > i { assert(self@[i as int].0@ != self@[j].0@); }
                }
                r
            },
        }
    }
}

/// The packet of flow `key` carrying `payload`, seen from a machine with
/// addresses `local_ips` at `now`, which is `now_nanos` nanoseconds, took
/// the table from `old` to `new` and left `out`.
pub open spec fn packet_step(
    old: Seq<(ConnectionKey, ConnectionState)>,
    new: Seq<(ConnectionKey, ConnectionState)>,
    out: PacketOutcome,
    key: ConnectionKey,
    payload: Seq<u8>,
    local_ips: Seq<IpAddr>,
    now: Timestamp,
    now_nanos: i128,
    log_auth_headers: bool,
) -> bool {
    let dir = spec_direction(local_ips, key.src_ip, key.dst_ip);
    let proto = spec_detect(key.src_port, key.dst_port, payload);
    let len = payload.len();
    if tracks(old, key@) {
        &&& new.len() == old.len()
        &&& forall|i: int| 0 <= i < old.len() && #[trigger] old[i].0@ == key@ ==> {
            &&& new[i].0 == old[i].0
            &&& new[i].1.connection == stepped(old[i].1.connection, dir, len, proto, now)
            &&& new[i].1.last_packet_ts == now_nanos
            &&& out.connection == new[i].1.connection
        }
        &&& forall|i: int| 0 <= i < old.len() && #[trigger] old[i].0@ != key@ ==> new[i] == old[i]
        &&& out.event matches AppEvent::ConnectionUpdated(v) && shows_update(v, out.connection, proto)
        &&& !out.is_new
        &&& out.remote_ip is None
        &&& packet_request(out, payload, proto, now, log_auth_headers)
    } else {
        &&& new == old.push((key, ConnectionState { connection: out.connection, last_packet_ts: now_nanos }))
        &&& first_record(out.connection, key, dir, len, proto, now)
        &&& out.event matches AppEvent::ConnectionAdded(v) && shows(v, out.connection)
        &&& out.is_new
        &&& out.remote_ip == Some(spec_remote_ip(key@, dir))
        &&& packet_request(out, payload, proto, now, log_auth_headers)
    }
}

/// What a packet leaves to be stored besides the connection: a request
/// exactly when the packet was taken for HTTP and is valid UTF-8, and then
/// the request it carries; a host name exactly when it was taken for HTTPS
/// and its ClientHello names a host in valid UTF-8, and then that name; a
/// banner exactly when it was taken for SSH and its first line is valid
/// UTF-8, and then that line.
pub open spec fn packet_request(
    out: PacketOutcome,
    payload: Seq<u8>,
    proto: Option<ApplicationProtocol>,
    now: Timestamp,
    log_auth_headers: bool,
) -> bool {
    &&& (out.http_request is Some <==> proto == Some(ApplicationProtocol::Http) && valid_utf8(payload))
    &&& out.http_request matches Some(req) ==> request_matches(req, http_model(decode_utf8(payload), log_auth_headers), now.secs)
    &&& (out.server_name is Some <==> proto == Some(ApplicationProtocol::Https)
        && (spec_sni_host(payload) matches Some(h) && valid_utf8(h)))
    &&& out.server_name matches Some(t) ==> (spec_sni_host(payload) matches Some(h) && t@ == decode_utf8(h))
    &&& (out.ssh_banner is Some <==> proto == Some(ApplicationProtocol::Ssh) && valid_utf8(first_line(payload)))
    &&& out.ssh_banner matches Some(t) ==> t@ == decode_utf8(first_line(payload))
}

impl ConnectionTable {
    /// Tracks one captured packet of flow `key` carrying `payload`, seen from
    /// a machine with addresses `local_ips` at `now`, which is `now_nanos`
    /// nanoseconds since the epoch. A tracked flow is last seen now, its
    /// idle time restarts, its counters advance, and it takes the detected
    /// protocol if it had none; an untracked flow is added, opened now. Either
    /// way a packet taken for HTTP leaves its request to be stored, one taken
    /// for HTTPS the host name its ClientHello asks for, and one taken for
    /// SSH its banner line.
    pub fn handle_packet_at(
        &mut self,
        key: ConnectionKey,
        payload: &[u8],
        local_ips: &[IpAddr],
        now: Timestamp,
        now_nanos: i128,
        log_auth_headers: bool,
    ) -> (out: PacketOutcome)
        requires
            table_wf(old(self)@),
            forall|i: int| 0 <= i < old(self)@.len() && #[trigger] old(self)@[i].0@ == key@
                ==> counters_fit(old(self)@[i].1.connection, spec_direction(local_ips@, key.src_ip, key.dst_ip), payload@.len()),
        ensures
            table_wf(final(self)@),
            packet_step(old(self)@, final(self)@, out, key, payload@, local_ips@, now, now_nanos, log_auth_headers),
    {
        let direction = infer_direction(local_ips, key.src_ip, key.dst_ip);
        let app_proto = detect_application_protocol(key.src_port, key.dst_port, payload);
        let len = payload.len() as u64;
        let http_request = match app_proto {
            Some(ApplicationProtocol::Http) => parse_http_request_at(payload, log_auth_headers, now.secs),
            _ => None,
        };
        let server_name = match app_proto {
            Some(ApplicationProtocol::Https) => sni_host_name(payload),
            _ => None,
        };
        let ssh_banner = match app_proto {
            Some(ApplicationProtocol::Ssh) => banner_line(payload),
            _ => None,
        };
        match self.find(&key) {
            Some(i) => {
                let ghost old_entries = self@;
                let mut conn = self.entries[i].1.connection.duplicate();
                conn.last_seen = now;
                update_counters(&mut conn, direction, len);
                if conn.app_protocol.is_none() {
                    conn.app_protocol = crate::model::duplicate_app_protocol(&app_proto);
                }
                let mut view = ConnectionView::from_connection(&conn);
                if app_proto.is_some() {
                    view.app_protocol = app_proto;
                }
                let k = self.entries[i].0.duplicate();
                let out_conn = conn.duplicate();
                self.entries.set(i, (k, ConnectionState { connection: conn, last_packet_ts: now_nanos }));
                proof {
                    assert forall|j: int| 0 <= j < old_entries.len() && #[trigger] old_entries[j].0@ == key@ implies j == i by {
                        if j < i { assert(old_entries[j].0@ != old_entries[i as int].0@); }
                        if j > i { assert(old_entries[i as int].0@ != old_entries[j].0@); }
                    }
                    assert(tracks(old_entries, key@));
                    assert forall|a: int, b: int| 0 <= a < b < self@.len() implies #[trigger] self@[a].0@ != #[trigger] self@[b].0@ by {
                        assert(self@[a].0@ == old_entries[a].0@);
                        assert(self@[b].0@ == old_entries[b].0@);
                        assert(old_entries[a].0@ != old_entries[b].0@);
                    }
                    assert forall|a: int| 0 <= a < self@.len() implies (#[trigger] self@[a]).1.connection.key_model() == self@[a].0@ by {
                        assert(old_entries[a].1.connection.key_model() == old_entries[a].0@);
                    }
                }
                PacketOutcome {
                    event: AppEvent::ConnectionUpdated(view),
                    connection: out_conn,
                    is_new: false,
                    http_request,
                    server_name,
                    ssh_banner,
                    remote_ip: None,
                }
            },
            None => {
                let ghost old_entries = self@;
                let mut conn = Connection::opened_at(key.duplicate(), direction, now);
                update_counters(&mut conn, direction, len);
                conn.app_protocol = crate::model::duplicate_app_protocol(&app_proto);
                let remote = remote_ip(&key, direction);
                let view = ConnectionView::from_connection(&conn);
                let out_conn = conn.duplicate();
                self.entries.push((key, ConnectionState { connection: conn, last_packet_ts: now_nanos }));
                proof {
                    assert forall|a: int, b: int| 0 <= a < b < self@.len() implies #[trigger] self@[a].0@ != #[trigger] self@[b].0@ by {
                        if b < old_entries.len() {
                            assert(old_entries[a].0@ != old_entries[b].0@);
                        } else {
                            assert(old_entries[a].0@ != key@);
                        }
                    }
                    assert forall|a: int| 0 <= a < self@.len() implies (#[trigger] self@[a]).1.connection.key_model() == self@[a].0@ by {
                        if a < old_entries.len() {
                            assert(old_entries[a].1.connection.key_model() == old_entries[a].0@);
                        }
                    }
                }
                PacketOutcome {
                    event: AppEvent::ConnectionAdded(view),
                    connection: out_conn,
                    is_new: true,
                    http_request,
                    server_name,
                    ssh_banner,
                    remote_ip: Some(remote),
                }
            },
        }
    }
}

impl ConnectionTable {
    /// Tracks one captured packet of flow `key` carrying `payload`, seen from
    /// a machine with addresses `local_ips`, at the time the clock gives.
    pub fn handle_packet(
        &mut self,
        key: ConnectionKey,
        payload: &[u8],
        local_ips: &[IpAddr],
        log_auth_headers: bool,
    ) -> (out: PacketOutcome)
        requires
            table_wf(old(self)@),
            forall|i: int| 0 <= i < old(self)@.len() && #[trigger] old(self)@[i].0@ == key@
                ==> counters_fit(old(self)@[i].1.connection, spec_direction(local_ips@, key.src_ip, key.dst_ip), payload@.len()),
        ensures
            table_wf(final(self)@),
            exists|now: Timestamp, now_nanos: i128| now_nanos == nanos_of(now)
                && #[trigger] packet_step(old(self)@, final(self)@, out, key, payload@, local_ips@, now, now_nanos, log_auth_headers),
    {
        let now = crate::clock::now_utc();
        let now_nanos = crate::clock::to_nanos(now);
        self.handle_packet_at(key, payload, local_ips, now, now_nanos, log_auth_headers)
    }
}

/// How long a TCP flow may stay silent before it is dropped: a minute, in nanoseconds.
pub const IDLE_TCP_NANOS: u128 = 60_000_000_000;

/// How long any other flow may stay silent before it is dropped: half a
/// minute, in nanoseconds.
pub const IDLE_UDP_NANOS: u128 = 30_000_000_000;

/// How long a flow may stay silent, in nanoseconds: `idle_tcp` for TCP, `idle_udp` otherwise.
pub open spec fn idle_limit(c: Connection, idle_tcp: u128, idle_udp: u128) -> int {
    match c.transport {
        TransportProtocol::Tcp => idle_tcp as int,
        _ => idle_udp as int,
    }
}

/// The time since the last packet, in nanoseconds; 0 when that lies in the future.
pub open spec fn idle_for(st: ConnectionState, now: i128) -> int {
    if now > st.last_packet_ts {
        now - st.last_packet_ts
    } else {
        0
    }
}

/// The flow has been silent for longer than its limit.
pub open spec fn is_expired(st: ConnectionState, idle_tcp: u128, idle_udp: u128, now: i128) -> bool {
    idle_for(st, now) > idle_limit(st.connection, idle_tcp, idle_udp)
}

/// The entry stays: it has not expired.
pub open spec fn stays(idle_tcp: u128, idle_udp: u128, now: i128) -> spec_fn((ConnectionKey, ConnectionState)) -> bool {
    |e: (ConnectionKey, ConnectionState)| !is_expired(e.1, idle_tcp, idle_udp, now)
}

/// The entry goes: it has expired.
pub open spec fn goes(idle_tcp: u128, idle_udp: u128, now: i128) -> spec_fn((ConnectionKey, ConnectionState)) -> bool {
    |e: (ConnectionKey, ConnectionState)| is_expired(e.1, idle_tcp, idle_udp, now)
}

/// The keys of the entries, in order.
pub open spec fn entry_keys(es: Seq<(ConnectionKey, ConnectionState)>) -> Seq<ConnectionKey> {
    es.map_values(|e: (ConnectionKey, ConnectionState)| e.0)
}

proof fn lemma_filter_within(es: Seq<(ConnectionKey, ConnectionState)>, p: spec_fn((ConnectionKey, ConnectionState)) -> bool)
    ensures
        forall|m: int| 0 <= m < es.filter(p).len() ==> es.contains(#[trigger] es.filter(p)[m]),
    decreases es.len(),
{
    reveal(Seq::filter);
    if es.len() > 0 {
        lemma_filter_within(es.drop_last(), p);
        let sub = es.drop_last().filter(p);
        assert forall|m: int| 0 <= m < es.filter(p).len() implies es.contains(#[trigger] es.filter(p)[m]) by {
            if m < sub.len() {
                assert(es.drop_last().contains(sub[m]));
                let j = choose|j: int| 0 <= j < es.drop_last().len() && es.drop_last()[j] == sub[m];
                assert(es[j] == sub[m]);
            } else {
                assert(es[es.len() - 1] == es.filter(p)[m]);
            }
        }
    }
}

proof fn lemma_filter_wf(es: Seq<(ConnectionKey, ConnectionState)>, p: spec_fn((ConnectionKey, ConnectionState)) -> bool)
    requires
        table_wf(es),
    ensures
        table_wf(es.filter(p)),
    decreases es.len(),
{
    reveal(Seq::filter);
    if es.len() > 0 {
        let init = es.drop_last();
        assert(table_wf(init));
        lemma_filter_wf(init, p);
        lemma_filter_within(init, p);
        let sub = init.filter(p);
        let r = es.filter(p);
        if p(es.last()) {
            assert(r == sub.push(es.last()));
            assert forall|a: int, b: int| 0 <= a < b < r.len() implies #[trigger] r[a].0@ != #[trigger] r[b].0@ by {
                if b < sub.len() {
                    assert(r[a] == sub[a] && r[b] == sub[b]);
                } else {
                    assert(init.contains(sub[a]));
                    let j = choose|j: int| 0 <= j < init.len() && init[j] == sub[a];
                    assert(es[j] == sub[a]);
                    assert(es[j].0@ != es[es.len() - 1].0@);
                }
            }
            assert forall|a: int| 0 <= a < r.len() implies (#[trigger] r[a]).1.connection.key_model() == r[a].0@ by {
                if a < sub.len() {
                    assert(r[a] == sub[a]);
                }
            }
        } else {
            assert(r == sub);
        }
    }
}

impl ConnectionTable {
    /// Drops the flows that have been silent longer than their limit at time
    /// `now` (nanoseconds since the epoch), keeping the others in order, and
    /// returns the dropped flows' keys in order.
    pub fn expire_idle_at(&mut self, idle_tcp: u128, idle_udp: u128, now: i128) -> (closed: Vec<ConnectionKey>)
        requires
            table_wf(old(self)@),
            idle_tcp <= i128::MAX,
            idle_udp <= i128::MAX,
        ensures
            table_wf(final(self)@),
            final(self)@ == old(self)@.filter(stays(idle_tcp, idle_udp, now)),
            closed@ == entry_keys(old(self)@.filter(goes(idle_tcp, idle_udp, now))),
    {
        let ghost es = self@;
        let mut old_entries: Vec<(ConnectionKey, ConnectionState)> = Vec::new();
        std::mem::swap(&mut old_entries, &mut self.entries);
        let mut kept: Vec<(ConnectionKey, ConnectionState)> = Vec::new();
        let mut closed: Vec<ConnectionKey> = Vec::new();
        let ghost keep = stays(idle_tcp, idle_udp, now);
        let ghost drop = goes(idle_tcp, idle_udp, now);
        let mut i: usize = 0;
        while i < old_entries.len()
            invariant
                old_entries@ == es,
                i <= es.len(),
                keep == stays(idle_tcp, idle_udp, now),
                drop == goes(idle_tcp, idle_udp, now),
                idle_tcp <= i128::MAX,
                idle_udp <= i128::MAX,
                kept@ == es.take(i as int).filter(keep),
                closed@ == entry_keys(es.take(i as int).filter(drop)),
            decreases es.len() - i,
        {
            let st = &old_entries[i].1;
            let limit: u128 = match st.connection.transport {
                TransportProtocol::Tcp => idle_tcp,
                _ => idle_udp,
            };
            let expired = if now > st.last_packet_ts {
                match now.checked_sub(st.last_packet_ts) {
                    Some(d) => d as u128 > limit,
                    None => true,
                }
            } else {
                false
            };
            assert(expired == is_expired(es[i as int].1, idle_tcp, idle_udp, now));
            proof {
                reveal(Seq::filter);
                assert(es.take(i + 1).drop_last() =~= es.take(i as int));
                assert(es.take(i + 1).last() == es[i as int]);
            }
            let ghost before_closed = closed@;
            if expired {
                closed.push(old_entries[i].0.duplicate());
                assert(closed@ =~= entry_keys(es.take(i + 1).filter(drop)));
            } else {
                kept.push((old_entries[i].0.duplicate(), old_entries[i].1.duplicate()));
                assert(closed@ =~= entry_keys(es.take(i + 1).filter(drop)));
            }
            i = i + 1;
        }
        assert(es.take(es.len() as int) =~= es);
        self.entries = kept;
        proof { lemma_filter_wf(es, keep); }
        closed
    }

    /// Drops the flows that have been silent longer than their limit now, by
    /// the clock, and returns their keys.
    pub fn expire_idle(&mut self, idle_tcp: u128, idle_udp: u128) -> (closed: Vec<ConnectionKey>)
        requires
            table_wf(old(self)@),
            idle_tcp <= i128::MAX,
            idle_udp <= i128::MAX,
        ensures
            table_wf(final(self)@),
            exists|now: i128| {
                &&& final(self)@ == old(self)@.filter(#[trigger] stays(idle_tcp, idle_udp, now))
                &&& closed@ == entry_keys(old(self)@.filter(goes(idle_tcp, idle_udp, now)))
            },
    {
        let now = crate::clock::now_nanos();
        self.expire_idle_at(idle_tcp, idle_udp, now)
    }

    /// Records the database row id of the flow `key`, if it is tracked.
    pub fn record_row_id(&mut self, key: &ConnectionKey, id: i64)
        requires
            table_wf(old(self)@),
        ensures
            table_wf(final(self)@),
            final(self)@.len() == old(self)@.len(),
            forall|i: int| 0 <= i < old(self)@.len() ==> {
                let e = #[trigger] old(self)@[i];
                if e.0@ == key@ {
                    final(self)@[i] == (e.0, ConnectionState { connection: Connection { id: Some(id), ..e.1.connection }, ..e.1 })
                } else {
                    final(self)@[i] == e
                }
            },
    {
        let ghost es = self@;
        match self.find(key) {
            None => {},
            Some(i) => {
                let mut st = self.entries[i].1.duplicate();
                st.connection.id = Some(id);
                let k = self.entries[i].0.duplicate();
                self.entries.set(i, (k, st));
                proof {
                    assert forall|j: int| 0 <= j < es.len() && #[trigger] es[j].0@ == key@ implies j == i by {
                        if j < i { assert(es[j].0@ != es[i as int].0@); }
                        if j > i { assert(es[i as int].0@ != es[j].0@); }
                    }
                    assert forall|a: int, b: int| 0 <= a < b < self@.len() implies #[trigger] self@[a].0@ != #[trigger] self@[b].0@ by {
                        assert(es[a].0@ != es[b].0@);
                    }
                    assert forall|a: int| 0 <= a < self@.len() implies (#[trigger] self@[a]).1.connection.key_model() == self@[a].0@ by {
                        assert(es[a].1.connection.key_model() == es[a].0@);
                    }
                }
            },
        }
    }
}

/// `tcp or udp`
pub open spec fn default_filter() -> Seq<char> {
    seq!['t', 'c', 'p', ' ', 'o', 'r', ' ', 'u', 'd', 'p']
}

/// The BPF filter to capture with: the configured one, else `tcp or udp`.
pub fn capture_filter(config: &Config) -> (f: String)
    ensures
        f@ == (match config.pcap_filter {
            Some(c) => c@,
            None => default_filter(),
        }),
{
    match &config.pcap_filter {
        Some(f) => f.clone(),
        None => {
            proof { reveal_strlit("tcp or udp"); }
            let f = crate::text::owned("tcp or udp");
            assert(f@ =~= default_filter());
            f
        },
    }
}

/// The index of the first name equal to `name`, or -1.
pub open spec fn name_index(names: Seq<String>, name: Seq<char>) -> int
    decreases names.len(),
{
    if names.len() == 0 {
        -1
    } else {
        let r = name_index(names.drop_last(), name);
        if r >= 0 {
            r
        } else if names.last()@ == name {
            names.len() - 1
        } else {
            -1
        }
    }
}

proof fn lemma_name_index(names: Seq<String>, name: Seq<char>)
    ensures
        -1 <= name_index(names, name) < names.len(),
        name_index(names, name) >= 0 ==> names[name_index(names, name)]@ == name
            && forall|k: int| 0 <= k < name_index(names, name) ==> names[k]@ != name,
        name_index(names, name) == -1 ==> forall|k: int| 0 <= k < names.len() ==> names[k]@ != name,
    decreases names.len(),
{
    if names.len() > 0 {
        lemma_name_index(names.drop_last(), name);
        let init = names.drop_last();
        assert forall|k: int| 0 <= k < init.len() implies init[k] == names[k] by {}
    }
}

/// The position of the first device called `name`.
pub fn find_device(names: &Vec<String>, name: &String) -> (r: Option<usize>)
    ensures
        match r {
            Some(i) => i as int == name_index(names@, name@),
            None => name_index(names@, name@) == -1,
        },
{
    proof { lemma_name_index(names@, name@); }
    let mut i: usize = 0;
    while i < names.len()
        invariant
            i <= names@.len(),
            forall|k: int| 0 <= k < i ==> names@[k]@ != name@,
            -1 <= name_index(names@, name@) < names@.len(),
            name_index(names@, name@) >= 0 ==> names@[name_index(names@, name@)]@ == name@
                && forall|k: int| 0 <= k < name_index(names@, name@) ==> names@[k]@ != name@,
            name_index(names@, name@) == -1 ==> forall|k: int| 0 <= k < names@.len() ==> names@[k]@ != name@,
        decreases names@.len() - i,
    {
        if names[i].eq(name) {
            return Some(i);
        }
        i = i + 1;
    }
    None
}

/// Which capture device to open.
#[derive(Clone, Copy, Debug, PartialEq, Eq, Structural)]
pub enum DeviceChoice {
    /// The device at this position of the list.
    Listed(usize),
    /// The last device of a fresh listing (every device is a loopback).
    LastListed,
    /// The requested interface is not in the list.
    Missing,
}

/// The device to capture on, among devices named `names` of which those
/// marked in `loopback` are loopback interfaces: the one named `interface`
/// when one is requested, else the first that is not a loopback, else the
/// last of a fresh listing.
pub fn select_device(names: &Vec<String>, loopback: &Vec<bool>, interface: &Option<String>) -> (d: DeviceChoice)
    requires
        loopback@.len() == names@.len(),
    ensures
        interface is Some ==> match d {
            DeviceChoice::Listed(i) => i as int == name_index(names@, interface->0@),
            DeviceChoice::Missing => name_index(names@, interface->0@) == -1,
            DeviceChoice::LastListed => false,
        },
        interface is None ==> match d {
            DeviceChoice::Listed(i) => i < names@.len() && !loopback@[i as int]
                && forall|k: int| 0 <= k < i ==> #[trigger] loopback@[k],
            DeviceChoice::LastListed => forall|k: int| 0 <= k < names@.len() ==> #[trigger] loopback@[k],
            DeviceChoice::Missing => false,
        },
{
    match interface {
        Some(want) => match find_device(names, want) {
            Some(i) => DeviceChoice::Listed(i),
            None => DeviceChoice::Missing,
        },
        None => {
            let mut i: usize = 0;
            while i < loopback.len()
                invariant
                    interface is None,
                    loopback@.len() == names@.len(),
                    i <= loopback@.len(),
                    forall|k: int| 0 <= k < i ==> #[trigger] loopback@[k],
                decreases loopback@.len() - i,
            {
                if !loopback[i] {
                    return DeviceChoice::Listed(i);
                }
                i = i + 1;
            }
            DeviceChoice::LastListed
        },
    }
}

/// The position of the device chosen by `choice` in a list of `count`
/// devices: the listed one, the last for `LastListed` (none in an empty
/// list), none for a missing interface.
pub fn device_index(choice: DeviceChoice, count: usize) -> (r: Option<usize>)
    ensures
        r == match choice {
            DeviceChoice::Listed(i) => if i < count { Some(i) } else { None },
            DeviceChoice::LastListed => if count > 0 { Some((count - 1) as usize) } else { None },
            DeviceChoice::Missing => None,
        },
{
    match choice {
        DeviceChoice::Listed(i) => if i < count { Some(i) } else { None },
        DeviceChoice::LastListed => if count > 0 { Some(count - 1) } else { None },
        DeviceChoice::Missing => None,
    }
}

/// A packet adds its whole length to the connection's traffic when its
/// direction is known, and its length rounded down to even when it is not.
pub proof fn law_counters_account_for_packet(c: Connection, dir: ConnectionDirection, len: nat)
    ensures
        counted(c, dir, len).0 + counted(c, dir, len).1 == c.bytes_sent + c.bytes_recv + match dir {
            ConnectionDirection::Unknown => (2 * (len / 2)) as int,
            _ => len as int,
        },
        counted(c, dir, len).0 >= c.bytes_sent,
        counted(c, dir, len).1 >= c.bytes_recv,
{
}

/// Once a connection has an application protocol, later packets keep it;
/// every later packet leaves it last seen at that packet's time.
pub proof fn law_protocol_is_sticky(c: Connection, dir: ConnectionDirection, len: nat, proto: Option<ApplicationProtocol>, now: Timestamp)
    requires
        c.app_protocol is Some,
    ensures
        stepped(c, dir, len, proto, now).app_protocol == c.app_protocol,
        stepped(c, dir, len, proto, now).last_seen == now,
        stepped(c, dir, len, proto, now).first_seen == c.first_seen,
        stepped(c, dir, len, proto, now).key_model() == c.key_model(),
{
}

/// After expiry no remaining flow has been silent past its limit, and every
/// flow that went had been.
pub proof fn law_expiry_is_exact(es: Seq<(ConnectionKey, ConnectionState)>, idle_tcp: u128, idle_udp: u128, now: i128)
    ensures
        forall|i: int| 0 <= i < es.filter(stays(idle_tcp, idle_udp, now)).len()
            ==> !is_expired(#[trigger] es.filter(stays(idle_tcp, idle_udp, now))[i].1, idle_tcp, idle_udp, now),
        forall|i: int| 0 <= i < es.filter(goes(idle_tcp, idle_udp, now)).len()
            ==> is_expired(#[trigger] es.filter(goes(idle_tcp, idle_udp, now))[i].1, idle_tcp, idle_udp, now),
{
    broadcast use vstd::seq_lib::group_filter_ensures;
    assert forall|i: int| 0 <= i < es.filter(stays(idle_tcp, idle_udp, now)).len()
        implies !is_expired(#[trigger] es.filter(stays(idle_tcp, idle_udp, now))[i].1, idle_tcp, idle_udp, now) by {
        assert(stays(idle_tcp, idle_udp, now)(es.filter(stays(idle_tcp, idle_udp, now))[i]));
    }
    assert forall|i: int| 0 <= i < es.filter(goes(idle_tcp, idle_udp, now)).len()
        implies is_expired(#[trigger] es.filter(goes(idle_tcp, idle_udp, now))[i].1, idle_tcp, idle_udp, now) by {
        assert(goes(idle_tcp, idle_udp, now)(es.filter(goes(idle_tcp, idle_udp, now))[i]));
    }
}

/// A packet restarts its flow's idle time: after it, the flow is not dropped
/// at any later time that lies within its limit of the packet's time.
pub proof fn law_packet_restarts_idle_time(
    old: Seq<(ConnectionKey, ConnectionState)>,
    new: Seq<(ConnectionKey, ConnectionState)>,
    out: PacketOutcome,
    key: ConnectionKey,
    payload: Seq<u8>,
    local_ips: Seq<IpAddr>,
    now: Timestamp,
    now_nanos: i128,
    log_auth_headers: bool,
    idle_tcp: u128,
    idle_udp: u128,
    later: i128,
)
    requires
        packet_step(old, new, out, key, payload, local_ips, now, now_nanos, log_auth_headers),
    ensures
        tracks(new, key@),
        forall|i: int| 0 <= i < new.len() && #[trigger] new[i].0@ == key@
            && later - now_nanos <= idle_limit(new[i].1.connection, idle_tcp, idle_udp)
            ==> stays(idle_tcp, idle_udp, later)(new[i]),
{
    if tracks(old, key@) {
        let j = choose|j: int| 0 <= j < old.len() && #[trigger] old[j].0@ == key@;
        assert(new[j].0 == old[j].0);
        assert forall|i: int| 0 <= i < new.len() && #[trigger] new[i].0@ == key@ implies new[i].1.last_packet_ts == now_nanos by {
            if old[i].0@ != key@ {
                assert(new[i] == old[i]);
            }
        }
    } else {
        assert(new[old.len() as int].0 == key);
        assert forall|i: int| 0 <= i < new.len() && #[trigger] new[i].0@ == key@ implies new[i].1.last_packet_ts == now_nanos by {
            if i < old.len() {
                assert(new[i] == old[i]);
            }
        }
    }
}

/// A flow that had a packet is still tracked after an expiry run at any later
/// time within its limit of that packet: `idle_tcp` for TCP, `idle_udp`
/// otherwise.
pub proof fn law_recent_flow_survives_expiry(
    old: Seq<(ConnectionKey, ConnectionState)>,
    new: Seq<(ConnectionKey, ConnectionState)>,
    out: PacketOutcome,
    key: ConnectionKey,
    payload: Seq<u8>,
    local_ips: Seq<IpAddr>,
    now: Timestamp,
    now_nanos: i128,
    log_auth_headers: bool,
    idle_tcp: u128,
    idle_udp: u128,
    later: i128,
)
    requires
        table_wf(old),
        packet_step(old, new, out, key, payload, local_ips, now, now_nanos, log_auth_headers),
        key.protocol is Tcp ==> later - now_nanos <= idle_tcp,
        !(key.protocol is Tcp) ==> later - now_nanos <= idle_udp,
    ensures
        tracks(new.filter(stays(idle_tcp, idle_udp, later)), key@),
{
    broadcast use vstd::seq_lib::group_filter_ensures;
    law_packet_restarts_idle_time(old, new, out, key, payload, local_ips, now, now_nanos, log_auth_headers, idle_tcp, idle_udp, later);
    let i = choose|i: int| 0 <= i < new.len() && #[trigger] new[i].0@ == key@;
    if tracks(old, key@) {
        if old[i].0@ != key@ {
            assert(new[i] == old[i]);
        }
        assert(old[i].1.connection.key_model() == old[i].0@);
        assert(new[i].1.connection.transport == old[i].1.connection.transport);
    } else {
        if i < old.len() {
            assert(new[i] == old[i]);
            assert(false);
        }
        assert(new[i].1.connection == out.connection);
    }
    assert(new[i].1.connection.transport@ == key.protocol@);
    assert(stays(idle_tcp, idle_udp, later)(new[i]));
    let f = new.filter(stays(idle_tcp, idle_udp, later));
    assert(f.contains(new[i]));
    let j = choose|j: int| 0 <= j < f.len() && f[j] == new[i];
    assert(f[j].0@ == key@);
}

/// The first packet of a flow is counted as every later one is: the new
/// connection's counters are those of a connection with no traffic advanced
/// by the packet. Outgoing, its whole length is sent; incoming, received;
/// of unknown direction, half of it (rounded down) goes to each counter.
pub proof fn law_first_packet_counted_like_later_ones(
    old: Seq<(ConnectionKey, ConnectionState)>,
    new: Seq<(ConnectionKey, ConnectionState)>,
    out: PacketOutcome,
    key: ConnectionKey,
    payload: Seq<u8>,
    local_ips: Seq<IpAddr>,
    now: Timestamp,
    now_nanos: i128,
    log_auth_headers: bool,
)
    requires
        !tracks(old, key@),
        packet_step(old, new, out, key, payload, local_ips, now, now_nanos, log_auth_headers),
    ensures
        (out.connection.bytes_sent as int, out.connection.bytes_recv as int) == counted(
            Connection { bytes_sent: 0, bytes_recv: 0, ..out.connection },
            spec_direction(local_ips, key.src_ip, key.dst_ip),
            payload.len(),
        ),
        local_ips.contains(key.src_ip) && !local_ips.contains(key.dst_ip)
            ==> out.connection.bytes_sent == payload.len() && out.connection.bytes_recv == 0,
        local_ips.contains(key.dst_ip) && !local_ips.contains(key.src_ip)
            ==> out.connection.bytes_sent == 0 && out.connection.bytes_recv == payload.len(),
        local_ips.contains(key.src_ip) == local_ips.contains(key.dst_ip)
            ==> out.connection.bytes_sent == payload.len() / 2
                && out.connection.bytes_recv == payload.len() / 2,
{
}

/// The view of a newly opened connection shows the key it was opened for,
/// with no traffic and state `OPEN`.
pub proof fn law_new_connection_shows_its_key(c: Connection, v: ConnectionView, key: ConnectionKey, dir: ConnectionDirection, now: Timestamp)
    requires
        c.is_opened(key, dir, now),
        shows(v, c),
    ensures
        v.key == key,
        v.direction == dir,
        v.bytes_sent == 0 && v.bytes_recv == 0,
        v.state@ == crate::model::open_state(),
        v.last_seen == now,
{
}

} // verus!
