//! Direction of a flow, application protocol heuristics, and HTTP request
//! metadata extracted from a payload.
use vstd::prelude::*;
use vstd::utf8::{valid_utf8, decode_utf8};
use crate::net::IpAddr;
use crate::model::{ApplicationProtocol, ConnectionDirection, HttpRequest};
use crate::text::{
    chars_of, chars_start_with, copy_range, owned, split_crlf, split_crlf_exec, starts_with_chars,
    string_from_chars, trim, trim_exec, utf8_str, views_of, words, words_exec, is_white_space, lemma_trim_shape,
};

verus! {

/// `ips` holds `ip`.
pub fn contains_ip(ips: &[IpAddr], ip: IpAddr) -> (r: bool)
    ensures
        r == ips@.contains(ip),
{
    let mut i: usize = 0;
    while i < ips.len()
        invariant
            i <= ips@.len(),
            forall|k: int| 0 <= k < i ==> ips@[k] != ip,
        decreases ips@.len() - i,
    {
        if ips[i] == ip {
            assert(ips@[i as int] == ip);
            return true;
        }
        i = i + 1;
    }
    false
}

/// Outgoing when only the source is local, incoming when only the
/// destination is, unknown otherwise.
pub open spec fn spec_direction(local_ips: Seq<IpAddr>, src_ip: IpAddr, dst_ip: IpAddr) -> ConnectionDirection {
    if local_ips.contains(src_ip) && !local_ips.contains(dst_ip) {
        ConnectionDirection::Outgoing
    } else if local_ips.contains(dst_ip) && !local_ips.contains(src_ip) {
        ConnectionDirection::Incoming
    } else {
        ConnectionDirection::Unknown
    }
}

/// The direction of a packet from `src_ip` to `dst_ip`, seen from a machine
/// whose addresses are `local_ips`.
pub fn infer_direction(local_ips: &[IpAddr], src_ip: IpAddr, dst_ip: IpAddr) -> (d: ConnectionDirection)
    ensures
        d == spec_direction(local_ips@, src_ip, dst_ip),
{
    let src_local = contains_ip(local_ips, src_ip);
    let dst_local = contains_ip(local_ips, dst_ip);
    if src_local && !dst_local {
        ConnectionDirection::Outgoing
    } else if dst_local && !src_local {
        ConnectionDirection::Incoming
    } else {
        ConnectionDirection::Unknown
    }
}

/// Swapping the two ends of a flow swaps incoming and outgoing and keeps unknown.
pub proof fn law_direction_swaps(local_ips: Seq<IpAddr>, a: IpAddr, b: IpAddr)
    ensures
        (spec_direction(local_ips, a, b) == ConnectionDirection::Outgoing)
            <==> (spec_direction(local_ips, b, a) == ConnectionDirection::Incoming),
        (spec_direction(local_ips, a, b) == ConnectionDirection::Unknown)
            <==> (spec_direction(local_ips, b, a) == ConnectionDirection::Unknown),
{
}

/// The direction depends only on which of the two addresses are local, not
/// on where in the list they stand: outgoing when only the source is, incoming
/// when only the destination is, unknown otherwise; two lists that hold the
/// same addresses, in any order and with any repeats, give the same direction.
pub proof fn law_direction_by_membership(a: Seq<IpAddr>, b: Seq<IpAddr>, src_ip: IpAddr, dst_ip: IpAddr)
    requires
        forall|x: IpAddr| a.contains(x) <==> b.contains(x),
    ensures
        spec_direction(a, src_ip, dst_ip) == spec_direction(b, src_ip, dst_ip),
        (exists|i: int| 0 <= i < a.len() && a[i] == src_ip) && !(exists|i: int| 0 <= i < a.len() && a[i] == dst_ip)
            ==> spec_direction(a, src_ip, dst_ip) == ConnectionDirection::Outgoing,
        (exists|i: int| 0 <= i < a.len() && a[i] == dst_ip) && !(exists|i: int| 0 <= i < a.len() && a[i] == src_ip)
            ==> spec_direction(a, src_ip, dst_ip) == ConnectionDirection::Incoming,
        (exists|i: int| 0 <= i < a.len() && a[i] == src_ip) == (exists|i: int| 0 <= i < a.len() && a[i] == dst_ip)
            ==> spec_direction(a, src_ip, dst_ip) == ConnectionDirection::Unknown,
{
    assert(a.contains(src_ip) == b.contains(src_ip));
    assert(a.contains(dst_ip) == b.contains(dst_ip));
}

/// `s` begins with `p`.
pub open spec fn bytes_start_with(s: Seq<u8>, p: Seq<u8>) -> bool {
    s.len() >= p.len() && s.subrange(0, p.len() as int) == p
}

/// `s` begins with `p`.
pub fn starts_with_bytes(s: &[u8], p: &[u8]) -> (r: bool)
    ensures
        r == bytes_start_with(s@, p@),
{
    if s.len() < p.len() {
        return false;
    }
    let mut i: usize = 0;
    while i < p.len()
        invariant
            i <= p@.len() <= s@.len(),
            forall|k: int| 0 <= k < i ==> s@[k] == p@[k],
        decreases p@.len() - i,
    {
        if s[i] != p[i] {
            assert(s@.subrange(0, p@.len() as int)[i as int] != p@[i as int]);
            return false;
        }
        i = i + 1;
    }
    assert(s@.subrange(0, p@.len() as int) =~= p@);
    true
}

/// `SSH-`
pub open spec fn ssh_prefix() -> Seq<u8> {
    seq![0x53u8, 0x53u8, 0x48u8, 0x2Du8]
}

/// The request methods whose request lines are recognised as HTTP, each
/// with the space that follows it: `GET `, `POST `, `PUT `, `HEAD `, `DELETE `.
pub open spec fn http_method_prefixes() -> Seq<Seq<u8>> {
    seq![
        seq![0x47u8, 0x45u8, 0x54u8, 0x20u8],
        seq![0x50u8, 0x4Fu8, 0x53u8, 0x54u8, 0x20u8],
        seq![0x50u8, 0x55u8, 0x54u8, 0x20u8],
        seq![0x48u8, 0x45u8, 0x41u8, 0x44u8, 0x20u8],
        seq![0x44u8, 0x45u8, 0x4Cu8, 0x45u8, 0x54u8, 0x45u8, 0x20u8],
    ]
}

/// `payload` starts with one of the recognised request methods.
pub open spec fn spec_looks_like_http(payload: Seq<u8>) -> bool {
    exists|k: int| 0 <= k < 5 && bytes_start_with(payload, #[trigger] http_method_prefixes()[k])
}

/// Ports 80 and 8080.
pub open spec fn spec_is_http_port(port: u16) -> bool {
    port == 80 || port == 8080
}

/// Whether `port` is one on which HTTP is expected.
pub fn is_http_port(port: u16) -> (r: bool)
    ensures
        r == spec_is_http_port(port),
{
    port == 80 || port == 8080
}

/// Whether `payload` starts like an HTTP request line.
pub fn looks_like_http(payload: &[u8]) -> (r: bool)
    ensures
        r == spec_looks_like_http(payload@),
{
    let get: [u8; 4] = [0x47, 0x45, 0x54, 0x20];
    let post: [u8; 5] = [0x50, 0x4F, 0x53, 0x54, 0x20];
    let put: [u8; 4] = [0x50, 0x55, 0x54, 0x20];
    let head: [u8; 5] = [0x48, 0x45, 0x41, 0x44, 0x20];
    let delete: [u8; 7] = [0x44, 0x45, 0x4C, 0x45, 0x54, 0x45, 0x20];
    let ghost ms = http_method_prefixes();
    assert(get@ =~= ms[0]);
    assert(post@ =~= ms[1]);
    assert(put@ =~= ms[2]);
    assert(head@ =~= ms[3]);
    assert(delete@ =~= ms[4]);
    let r = starts_with_bytes(payload, &get) || starts_with_bytes(payload, &post)
        || starts_with_bytes(payload, &put) || starts_with_bytes(payload, &head)
        || starts_with_bytes(payload, &delete);
    proof {
        if r {
            if bytes_start_with(payload@, ms[0]) {
                assert(bytes_start_with(payload@, http_method_prefixes()[0]));
            } else if bytes_start_with(payload@, ms[1]) {
                assert(bytes_start_with(payload@, http_method_prefixes()[1]));
            } else if bytes_start_with(payload@, ms[2]) {
                assert(bytes_start_with(payload@, http_method_prefixes()[2]));
            } else if bytes_start_with(payload@, ms[3]) {
                assert(bytes_start_with(payload@, http_method_prefixes()[3]));
            } else {
                assert(bytes_start_with(payload@, http_method_prefixes()[4]));
            }
        }
    }
    r
}

/// The big-endian 16-bit number in bytes `i` and `i + 1` of `p`.
pub open spec fn be16(p: Seq<u8>, i: int) -> int {
    p[i] as int * 256 + p[i + 1] as int
}

/// Where, among the TLS extensions that start at `q` and end before `end`
/// (each a 16-bit type, a 16-bit length and that many bytes), the first one
/// whose header lies before `end` and whose type is 0, `server_name`,
/// starts; -1 when there is none.
pub open spec fn server_name_at(p: Seq<u8>, q: int, end: int) -> int
    decreases end - q,
{
    if q < 0 || q + 4 > end {
        -1
    } else if be16(p, q) == 0 {
        q
    } else if q + 4 + be16(p, q + 2) > end {
        -1
    } else {
        server_name_at(p, q + 4 + be16(p, q + 2), end)
    }
}

/// Where the session id's length byte of a ClientHello stands: after the
/// record header (5 bytes), the handshake header (4), the client version (2)
/// and the random (32).
pub open spec fn session_id_at() -> int {
    43
}

/// When `p` is a TLS handshake record (content type 0x16) that opens a
/// ClientHello (handshake type 0x01), where its extensions start and where
/// they end, as far as `p` holds them. After the session id (an 8-bit length
/// and that many bytes) come the cipher suites (a 16-bit length and that many
/// bytes), the compression methods (an 8-bit length and that many bytes) and
/// the extensions (a 16-bit length and the extensions).
pub open spec fn hello_extensions(p: Seq<u8>) -> Option<(int, int)> {
    let suites = session_id_at() + 1 + p[session_id_at()] as int;
    let methods = suites + 2 + be16(p, suites);
    let exts = methods + 1 + p[methods] as int;
    let ext_end = exts + 2 + be16(p, exts);
    if p.len() > session_id_at() && p[0] == 0x16u8 && p[5] == 0x01u8 && suites + 2 <= p.len()
        && methods + 1 <= p.len() && exts + 2 <= p.len() {
        Some((exts + 2, if ext_end < p.len() { ext_end } else { p.len() as int }))
    } else {
        None
    }
}

/// `p` is a TLS ClientHello record whose extensions, as far as `p` holds
/// them, include `server_name`.
pub open spec fn spec_client_hello_with_sni(p: Seq<u8>) -> bool {
    hello_extensions(p) matches Some(r) && server_name_at(p, r.0, r.1) >= 0
}

/// The host name that the `server_name` extension of ClientHello `p` gives
/// first, as bytes. The extension's data is a 16-bit list length, then
/// entries of a type byte, a 16-bit length and that many bytes; the first
/// entry counts when it is of type 0 (`host_name`) and lies within the
/// extension as far as `p` holds it.
pub open spec fn spec_sni_host(p: Seq<u8>) -> Option<Seq<u8>> {
    match hello_extensions(p) {
        Some(r) => {
            let e = server_name_at(p, r.0, r.1);
            let data_end = if e + 4 + be16(p, e + 2) < r.1 { e + 4 + be16(p, e + 2) } else { r.1 };
            if e >= 0 && e + 9 <= data_end && p[e + 6] == 0 && e + 9 + be16(p, e + 7) <= data_end {
                Some(p.subrange(e + 9, e + 9 + be16(p, e + 7)))
            } else {
                None
            }
        },
        None => None,
    }
}

proof fn lemma_server_name_at(p: Seq<u8>, q: int, end: int)
    ensures
        server_name_at(p, q, end) >= 0 ==> q <= server_name_at(p, q, end)
            && server_name_at(p, q, end) + 4 <= end
            && be16(p, server_name_at(p, q, end)) == 0,
    decreases end - q,
{
    if q >= 0 && q + 4 <= end && be16(p, q) != 0 && q + 4 + be16(p, q + 2) <= end {
        lemma_server_name_at(p, q + 4 + be16(p, q + 2), end);
    }
}

/// Where the `server_name` extension stands among the extensions of `p`
/// from `from` up to `end`.
fn find_server_name(p: &[u8], from: usize, end: usize) -> (r: Option<usize>)
    requires
        end <= p@.len(),
    ensures
        match r {
            Some(e) => server_name_at(p@, from as int, end as int) == e,
            None => server_name_at(p@, from as int, end as int) == -1,
        },
{
    let mut q = from;
    while q <= end && end - q >= 4
        invariant
            end <= p@.len(),
            server_name_at(p@, q as int, end as int) == server_name_at(p@, from as int, end as int),
        decreases end - q,
    {
        if p[q] == 0 && p[q + 1] == 0 {
            assert(be16(p@, q as int) == 0);
            return Some(q);
        }
        let len = p[q + 2] as usize * 256 + p[q + 3] as usize;
        assert(be16(p@, q as int) != 0);
        assert(len == be16(p@, q + 2));
        if len > end - q - 4 {
            return None;
        }
        q = q + 4 + len;
    }
    None
}

/// Where the extensions of ClientHello `payload` start and end.
fn extensions_of(payload: &[u8]) -> (r: Option<(usize, usize)>)
    ensures
        match r {
            Some((a, b)) => hello_extensions(payload@) == Some((a as int, b as int)) && b <= payload@.len(),
            None => hello_extensions(payload@) is None,
        },
{
    let n = payload.len();
    if n <= 43 || payload[0] != 0x16 || payload[5] != 0x01 {
        return None;
    }
    let suites = 44 + payload[43] as usize;
    if suites > n || n - suites < 2 {
        return None;
    }
    let suites_len = payload[suites] as usize * 256 + payload[suites + 1] as usize;
    if suites_len > n - (suites + 2) {
        return None;
    }
    let methods = suites + 2 + suites_len;
    if methods >= n {
        return None;
    }
    let methods_len = payload[methods] as usize;
    if methods_len > n - (methods + 1) {
        return None;
    }
    let exts = methods + 1 + methods_len;
    if n - exts < 2 {
        return None;
    }
    let exts_len = payload[exts] as usize * 256 + payload[exts + 1] as usize;
    let end = if exts_len < n - (exts + 2) { exts + 2 + exts_len } else { n };
    Some((exts + 2, end))
}

/// Whether `payload` is a TLS ClientHello record that carries the
/// `server_name` extension.
pub fn client_hello_with_sni(payload: &[u8]) -> (r: bool)
    ensures
        r == spec_client_hello_with_sni(payload@),
{
    match extensions_of(payload) {
        Some((a, b)) => find_server_name(payload, a, b).is_some(),
        None => false,
    }
}

/// The host name that ClientHello `payload` asks for in its `server_name`
/// extension, when there is one and it is valid UTF-8.
pub fn sni_host_name(payload: &[u8]) -> (r: Option<String>)
    ensures
        r is Some <==> (spec_sni_host(payload@) matches Some(h) && valid_utf8(h)),
        r matches Some(t) ==> spec_sni_host(payload@) matches Some(h) && t@ == decode_utf8(h),
{
    let (a, b) = match extensions_of(payload) {
        Some(r) => r,
        None => return None,
    };
    let e = match find_server_name(payload, a, b) {
        Some(e) => e,
        None => return None,
    };
    proof { lemma_server_name_at(payload@, a as int, b as int); }
    let ext_len = payload[e + 2] as usize * 256 + payload[e + 3] as usize;
    let data_end = if ext_len < b - (e + 4) { e + 4 + ext_len } else { b };
    if data_end < 9 || e > data_end - 9 || payload[e + 6] != 0 {
        return None;
    }
    let name_len = payload[e + 7] as usize * 256 + payload[e + 8] as usize;
    if name_len > data_end - (e + 9) {
        return None;
    }
    let name = copy_range(payload, e + 9, e + 9 + name_len);
    match utf8_str(name.as_slice()) {
        Some(t) => Some(owned(t)),
        None => None,
    }
}

/// Where the line that starts at `i` in `p` ends: at the first CR or LF from
/// `i` on, or at the end of `p`.
pub open spec fn line_end_from(p: Seq<u8>, i: int) -> int
    decreases p.len() - i,
{
    if i < 0 || i >= p.len() {
        p.len() as int
    } else if p[i] == 0x0Du8 || p[i] == 0x0Au8 {
        i
    } else {
        line_end_from(p, i + 1)
    }
}

/// The first line of `p`, without its line break.
pub open spec fn first_line(p: Seq<u8>) -> Seq<u8> {
    p.subrange(0, line_end_from(p, 0))
}

proof fn lemma_line_end_from(p: Seq<u8>, i: int)
    requires
        0 <= i <= p.len(),
    ensures
        i <= line_end_from(p, i) <= p.len(),
    decreases p.len() - i,
{
    if i < p.len() && !(p[i] == 0x0Du8 || p[i] == 0x0Au8) {
        lemma_line_end_from(p, i + 1);
    }
}

/// The first line of `payload`, such as the banner an SSH peer opens with,
/// when it is valid UTF-8.
pub fn banner_line(payload: &[u8]) -> (r: Option<String>)
    ensures
        r is Some <==> valid_utf8(first_line(payload@)),
        r matches Some(t) ==> t@ == decode_utf8(first_line(payload@)),
{
    let mut i: usize = 0;
    while i < payload.len() && payload[i] != 0x0D && payload[i] != 0x0A
        invariant
            i <= payload@.len(),
            line_end_from(payload@, i as int) == line_end_from(payload@, 0),
        decreases payload@.len() - i,
    {
        i = i + 1;
    }
    proof { lemma_line_end_from(payload@, i as int); }
    let line = copy_range(payload, 0, i);
    match utf8_str(line.as_slice()) {
        Some(t) => Some(owned(t)),
        None => None,
    }
}

/// SSH when port 22 is involved and the payload starts with `SSH-`; HTTPS
/// when port 443 is involved and the payload is a TLS ClientHello carrying
/// the `server_name` extension; HTTP when port
/// 80 or 8080 is involved and the payload starts with a request method;
/// nothing otherwise. The first that applies wins.
pub open spec fn spec_detect(src_port: u16, dst_port: u16, payload: Seq<u8>) -> Option<ApplicationProtocol> {
    if (src_port == 22 || dst_port == 22) && bytes_start_with(payload, ssh_prefix()) {
        Some(ApplicationProtocol::Ssh)
    } else if (src_port == 443 || dst_port == 443) && spec_client_hello_with_sni(payload) {
        Some(ApplicationProtocol::Https)
    } else if (spec_is_http_port(src_port) || spec_is_http_port(dst_port)) && spec_looks_like_http(payload) {
        Some(ApplicationProtocol::Http)
    } else {
        None
    }
}

/// The application protocol that the ports and the first bytes of a payload suggest.
pub fn detect_application_protocol(src_port: u16, dst_port: u16, payload: &[u8]) -> (r: Option<ApplicationProtocol>)
    ensures
        r == spec_detect(src_port, dst_port, payload@),
{
    if src_port == 22 || dst_port == 22 {
        let banner: [u8; 4] = [0x53, 0x53, 0x48, 0x2D];
        assert(banner@ =~= ssh_prefix());
        if starts_with_bytes(payload, &banner) {
            return Some(ApplicationProtocol::Ssh);
        }
    }
    if src_port == 443 || dst_port == 443 {
        if client_hello_with_sni(payload) {
            return Some(ApplicationProtocol::Https);
        }
    }
    if is_http_port(src_port) || is_http_port(dst_port) {
        if looks_like_http(payload) {
            return Some(ApplicationProtocol::Http);
        }
    }
    None
}

} // verus!

verus! {

/// `Host:`
pub open spec fn host_label() -> Seq<char> {
    seq!['H', 'o', 's', 't', ':']
}

/// `Authorization:`
pub open spec fn authorization_label() -> Seq<char> {
    seq!['A', 'u', 't', 'h', 'o', 'r', 'i', 'z', 'a', 't', 'i', 'o', 'n', ':']
}

/// `User-Agent:`
pub open spec fn user_agent_label() -> Seq<char> {
    seq!['U', 's', 'e', 'r', '-', 'A', 'g', 'e', 'n', 't', ':']
}

/// `[REDACTED]`, stored in place of an authorization value that is not to be logged.
pub open spec fn redacted() -> Seq<char> {
    seq!['[', 'R', 'E', 'D', 'A', 'C', 'T', 'E', 'D', ']']
}

/// The header values that a request carries.
pub struct HeaderModel {
    pub host: Option<Seq<char>>,
    pub authorization: Option<Seq<char>>,
    pub user_agent: Option<Seq<char>>,
}

/// The header values after reading one more header line: a `Host:`,
/// `Authorization:` or `User-Agent:` line sets its value (trimmed; the
/// authorization value is replaced by `[REDACTED]` unless `log_auth`); any
/// other line changes nothing.
pub open spec fn apply_header(acc: HeaderModel, line: Seq<char>, log_auth: bool) -> HeaderModel {
    if chars_start_with(line, host_label()) {
        HeaderModel {
            host: Some(trim(line.subrange(5, line.len() as int))),
            authorization: acc.authorization,
            user_agent: acc.user_agent,
        }
    } else if chars_start_with(line, authorization_label()) {
        HeaderModel {
            host: acc.host,
            authorization: Some(
                if log_auth {
                    trim(line.subrange(14, line.len() as int))
                } else {
                    redacted()
                },
            ),
            user_agent: acc.user_agent,
        }
    } else if chars_start_with(line, user_agent_label()) {
        HeaderModel {
            host: acc.host,
            authorization: acc.authorization,
            user_agent: Some(trim(line.subrange(11, line.len() as int))),
        }
    } else {
        acc
    }
}

/// The header values after reading `lines` in order, starting from none.
pub open spec fn fold_headers(lines: Seq<Seq<char>>, log_auth: bool) -> HeaderModel
    decreases lines.len(),
{
    if lines.len() == 0 {
        HeaderModel { host: None, authorization: None, user_agent: None }
    } else {
        apply_header(fold_headers(lines.drop_last(), log_auth), lines.last(), log_auth)
    }
}

/// The index of the first empty line at or after `i`, or `lines.len()`.
pub open spec fn first_empty_from(lines: Seq<Seq<char>>, i: int) -> int
    decreases lines.len() - i,
{
    if i < 0 || i >= lines.len() {
        lines.len() as int
    } else if lines[i].len() == 0 {
        i
    } else {
        first_empty_from(lines, i + 1)
    }
}

/// The header lines: those after the request line, up to the first empty line.
pub open spec fn header_lines(lines: Seq<Seq<char>>) -> Seq<Seq<char>> {
    lines.subrange(1, first_empty_from(lines, 1))
}

/// What a request's text says: the first three words of its first line
/// (method, path, version) and its header values.
pub struct HttpModel {
    pub method: Option<Seq<char>>,
    pub path: Option<Seq<char>>,
    pub version: Option<Seq<char>>,
    pub headers: HeaderModel,
}

/// The `n`-th word, if there is one.
pub open spec fn nth_word(ws: Seq<Seq<char>>, n: int) -> Option<Seq<char>> {
    if 0 <= n < ws.len() {
        Some(ws[n])
    } else {
        None
    }
}

/// The request that `text` describes, header values read as `log_auth` says.
pub open spec fn http_model(text: Seq<char>, log_auth: bool) -> HttpModel {
    let lines = split_crlf(text);
    let ws = words(lines[0]);
    HttpModel {
        method: nth_word(ws, 0),
        path: nth_word(ws, 1),
        version: nth_word(ws, 2),
        headers: fold_headers(header_lines(lines), log_auth),
    }
}

/// The characters of an optional string.
pub open spec fn opt_chars(o: Option<String>) -> Option<Seq<char>> {
    match o {
        Some(s) => Some(s@),
        None => None,
    }
}

/// `r` records exactly what `m` describes, at time `ts`.
pub open spec fn request_matches(r: HttpRequest, m: HttpModel, ts: i64) -> bool {
    &&& r.ts == ts
    &&& opt_chars(r.method) == m.method
    &&& opt_chars(r.path) == m.path
    &&& opt_chars(r.http_version) == m.version
    &&& opt_chars(r.host) == m.headers.host
    &&& opt_chars(r.authorization) == m.headers.authorization
    &&& opt_chars(r.user_agent) == m.headers.user_agent
}

/// The `n`-th word as a string, if there is one.
fn nth_word_string(ws: &Vec<Vec<char>>, n: usize) -> (r: Option<String>)
    ensures
        opt_chars(r) == nth_word(views_of(ws@), n as int),
{
    if n < ws.len() {
        Some(string_from_chars(ws[n].as_slice()))
    } else {
        None
    }
}

/// The trimmed text of `line` after its first `skip` characters.
fn value_after(line: &Vec<char>, skip: usize) -> (r: String)
    requires
        skip <= line@.len(),
    ensures
        r@ == trim(line@.subrange(skip as int, line@.len() as int)),
{
    let rest = copy_range(line.as_slice(), skip, line.len());
    let t = trim_exec(rest.as_slice());
    string_from_chars(t.as_slice())
}

/// Metadata of the HTTP request at the start of `payload`, recorded at time
/// `ts`: absent exactly when the payload is not valid UTF-8.
pub fn parse_http_request_at(payload: &[u8], log_auth_headers: bool, ts: i64) -> (r: Option<HttpRequest>)
    ensures
        r is Some <==> valid_utf8(payload@),
        r matches Some(req) ==> request_matches(req, http_model(decode_utf8(payload@), log_auth_headers), ts),
{
    let text = match utf8_str(payload) {
        Some(t) => t,
        None => return None,
    };
    let t = chars_of(text);
    let lines = split_crlf_exec(t.as_slice());
    let ghost ls = split_crlf(t@);
    assert(ls.len() >= 1);
    assert(views_of(lines@)[0] == lines@[0]@);
    let ws = words_exec(lines[0].as_slice());
    let method = nth_word_string(&ws, 0);
    let path = nth_word_string(&ws, 1);
    let version = nth_word_string(&ws, 2);

    let host_l: [char; 5] = ['H', 'o', 's', 't', ':'];
    let auth_l: [char; 14] = ['A', 'u', 't', 'h', 'o', 'r', 'i', 'z', 'a', 't', 'i', 'o', 'n', ':'];
    let agent_l: [char; 11] = ['U', 's', 'e', 'r', '-', 'A', 'g', 'e', 'n', 't', ':'];
    assert(host_l@ =~= host_label());
    assert(auth_l@ =~= authorization_label());
    assert(agent_l@ =~= user_agent_label());

    let mut host: Option<String> = None;
    let mut authorization: Option<String> = None;
    let mut user_agent: Option<String> = None;
    let mut i: usize = 1;
    while i < lines.len() && lines[i].len() != 0
        invariant
            1 <= i <= lines@.len(),
            views_of(lines@) == ls,
            ls.len() >= 1,
            host_l@ == host_label(),
            auth_l@ == authorization_label(),
            agent_l@ == user_agent_label(),
            first_empty_from(ls, 1) == first_empty_from(ls, i as int),
            fold_headers(ls.subrange(1, i as int), log_auth_headers) == (HeaderModel {
                host: opt_chars(host),
                authorization: opt_chars(authorization),
                user_agent: opt_chars(user_agent),
            }),
        decreases lines@.len() - i,
    {
        let line = &lines[i];
        assert(ls[i as int] == line@);
        assert(ls.subrange(1, i + 1).drop_last() =~= ls.subrange(1, i as int));
        assert(ls.subrange(1, i + 1).last() == line@);
        if starts_with_chars(line.as_slice(), &host_l) {
            host = Some(value_after(line, 5));
        } else if starts_with_chars(line.as_slice(), &auth_l) {
            if log_auth_headers {
                authorization = Some(value_after(line, 14));
            } else {
                proof { reveal_strlit("[REDACTED]"); }
                let v = owned("[REDACTED]");
                assert(v@ =~= redacted());
                authorization = Some(v);
            }
        } else if starts_with_chars(line.as_slice(), &agent_l) {
            user_agent = Some(value_after(line, 11));
        }
        i = i + 1;
    }
    assert(first_empty_from(ls, i as int) == i);
    assert(header_lines(ls) == ls.subrange(1, i as int));
    Some(HttpRequest {
        ts,
        method,
        host,
        path,
        http_version: version,
        authorization,
        user_agent,
    })
}

/// Metadata of the HTTP request at the start of `payload`, stamped with the
/// current time: absent exactly when the payload is not valid UTF-8.
pub fn parse_http_request(payload: &[u8], log_auth_headers: bool) -> (r: Option<HttpRequest>)
    ensures
        r is Some <==> valid_utf8(payload@),
        r matches Some(req) ==> request_matches(req, http_model(decode_utf8(payload@), log_auth_headers), req.ts),
{
    let now = crate::clock::now_timestamp();
    parse_http_request_at(payload, log_auth_headers, now)
}

/// A `User-Agent:` header line records the rest of the line with only its
/// leading and trailing white space dropped: a contiguous piece of the value
/// that keeps the white space inside it, after which the last such line of
/// the headers is the one that counts.
pub proof fn law_user_agent_keeps_inner_space(lines: Seq<Seq<char>>, value: Seq<char>, log_auth: bool)
    ensures
        fold_headers(lines.push(user_agent_label() + value), log_auth).user_agent matches Some(ua)
            && exists|a: int, b: int| {
                &&& 0 <= a <= b <= value.len()
                &&& ua == value.subrange(a, b)
                &&& forall|k: int| 0 <= k < a ==> is_white_space(#[trigger] value[k])
                &&& forall|k: int| b <= k < value.len() ==> is_white_space(#[trigger] value[k])
                &&& a < b ==> !is_white_space(value[a]) && !is_white_space(value[b - 1])
            },
        fold_headers(lines.push(user_agent_label() + value), log_auth).host
            == fold_headers(lines, log_auth).host,
{
    let line = user_agent_label() + value;
    assert(lines.push(line).drop_last() =~= lines);
    assert(lines.push(line).last() == line);
    assert(!chars_start_with(line, host_label())) by {
        assert(line[0] == 'U');
        if line.len() >= 5 {
            assert(line.subrange(0, 5)[0] == line[0]);
        }
    }
    assert(!chars_start_with(line, authorization_label())) by {
        assert(line[0] == 'U');
        if line.len() >= 14 {
            assert(line.subrange(0, 14)[0] == line[0]);
        }
    }
    assert(line.subrange(0, 11) =~= user_agent_label());
    assert(chars_start_with(line, user_agent_label()));
    assert(line.subrange(11, line.len() as int) =~= value);
    lemma_trim_shape(value);
}

/// Without `log_auth`, no authorization value is ever kept: it is absent or `[REDACTED]`.
pub proof fn law_authorization_redacted(lines: Seq<Seq<char>>)
    ensures
        fold_headers(lines, false).authorization is None
            || fold_headers(lines, false).authorization == Some(redacted()),
    decreases lines.len(),
{
    if lines.len() > 0 {
        law_authorization_redacted(lines.drop_last());
    }
}

} // verus!

verus! {

proof fn lemma_skip_word_after(s: Seq<char>, i: int)
    requires
        0 <= i < s.len(),
        !crate::text::is_white_space(s[i]),
    ensures
        i < crate::text::skip_word(s, i) <= s.len(),
    decreases s.len() - i,
{
    assert(crate::text::skip_word(s, i) == crate::text::skip_word(s, i + 1));
    if i + 1 < s.len() && !crate::text::is_white_space(s[i + 1]) {
        lemma_skip_word_after(s, i + 1);
    } else if i + 1 < s.len() {
        assert(crate::text::skip_word(s, i + 1) == i + 1);
    }
}

/// A payload that is taken for HTTP (it starts with a request method) and
/// is valid UTF-8 always yields a request with a method.
pub proof fn law_http_payload_has_method(payload: Seq<u8>, log_auth: bool)
    requires
        spec_looks_like_http(payload),
        valid_utf8(payload),
    ensures
        http_model(decode_utf8(payload), log_auth).method is Some,
{
    let k = choose|k: int| 0 <= k < 5 && bytes_start_with(payload, #[trigger] http_method_prefixes()[k]);
    let p = http_method_prefixes()[k];
    assert(payload[0] == p[0]);
    let b = payload[0];
    assert(b == 0x47 || b == 0x50 || b == 0x48 || b == 0x44);
    assert((b & 0x7f) == b) by (bit_vector)
        requires
            b == 0x47 || b == 0x50 || b == 0x48 || b == 0x44;
    let text = decode_utf8(payload);
    assert(text.len() >= 1);
    assert(text[0] == (vstd::utf8::decode_first_scalar(payload) as char));
    assert(vstd::utf8::decode_first_scalar(payload) == b as u32);
    let c = text[0];
    assert(c as u32 == b as u32);
    assert(!crate::text::is_white_space(c));
    assert(c != '\r') by {
        assert(('\r' as u32) == 13);
    }
    let e = crate::text::find_crlf(text, 0);
    crate::text::lemma_find_crlf_bounds(text, 0);
    if text.len() > 1 {
        assert(e == crate::text::find_crlf(text, 1));
        crate::text::lemma_find_crlf_bounds(text, 1);
    }
    assert(e != 0);
    let lines = split_crlf(text);
    let line0 = lines[0];
    assert(line0.len() >= 1 && line0[0] == c) by {
        if 0 <= e && e + 1 < text.len() {
            assert(lines == seq![text.subrange(0, e)] + crate::text::split_crlf_from(text, e + 2));
        } else {
            assert(lines == seq![text.subrange(0, text.len() as int)]);
        }
    }
    assert(crate::text::skip_white(line0, 0) == 0);
    lemma_skip_word_after(line0, 0);
    assert(words(line0).len() >= 1);
}

} // verus!
