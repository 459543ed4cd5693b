use connwatch::clock::Timestamp;
use connwatch::config::Config;
use connwatch::model::{
    AppEvent, ApplicationProtocol, ConnectionDirection, ConnectionKey, ConnectionView, EndpointInfo,
    ScanResult, ScanStatus, TransportProtocol,
};
use connwatch::net::{is_private_ip, IpAddr};
use connwatch::tui::{
    bytes_cell, direction_cell, endpoint_cell, format_protocol, format_relative_at, handle_input, ipinfo_result,
    input_event_for, marker_symbol, split, AppState, IpinfoStep, InputEvent, KeyCode, KeyInput, Pane, Rect, PAGE_ROWS,
};

fn config(globe: bool, list: bool, detail: bool) -> Config {
    Config {
        interface: None,
        pcap_file: None,
        pcap_filter: None,
        db_path: None,
        show_globe: globe,
        show_list: list,
        show_detail: detail,
        enable_nmap: false,
        nmap_ports: "22".to_string(),
        mmdb_path: None,
        log_level: "info".to_string(),
        log_auth_headers: false,
    }
}

fn view(port: u16, bytes: u64) -> ConnectionView {
    ConnectionView {
        key: ConnectionKey {
            src_ip: IpAddr::V4(0x0A00_0001),
            src_port: port,
            dst_ip: IpAddr::V4(0x0808_0808),
            dst_port: 53,
            protocol: TransportProtocol::Udp,
        },
        direction: ConnectionDirection::Outgoing,
        state: "OPEN".to_string(),
        last_seen: Timestamp { secs: 0, subsec_nanos: 0 },
        bytes_sent: bytes,
        bytes_recv: 0,
        app_protocol: None,
    }
}

fn key_event(code: KeyCode, control: bool) -> KeyInput {
    KeyInput { code, control, press: true }
}

#[test]
fn keys_map_to_actions() {
    assert_eq!(input_event_for(key_event(KeyCode::Char('q'), false)), Some(InputEvent::Quit));
    assert_eq!(input_event_for(key_event(KeyCode::Char('c'), true)), Some(InputEvent::Quit));
    assert_eq!(input_event_for(key_event(KeyCode::Char('c'), false)), Some(InputEvent::Idle));
    assert_eq!(input_event_for(key_event(KeyCode::Char('j'), false)), Some(InputEvent::Down));
    assert_eq!(input_event_for(key_event(KeyCode::Down, false)), Some(InputEvent::Down));
    assert_eq!(input_event_for(key_event(KeyCode::Char('k'), true)), Some(InputEvent::Up));
    assert_eq!(input_event_for(key_event(KeyCode::Tab, false)), Some(InputEvent::NextPane));
    assert_eq!(input_event_for(key_event(KeyCode::Char('g'), false)), Some(InputEvent::Top));
    assert_eq!(input_event_for(key_event(KeyCode::Char('G'), false)), Some(InputEvent::Bottom));
    assert_eq!(input_event_for(key_event(KeyCode::PageUp, false)), Some(InputEvent::PageUp));
    assert_eq!(input_event_for(key_event(KeyCode::PageDown, false)), Some(InputEvent::PageDown));
    assert_eq!(input_event_for(key_event(KeyCode::Other, false)), Some(InputEvent::Idle));
    assert_eq!(input_event_for(KeyInput { code: KeyCode::Char('q'), control: false, press: false }), None);
}

#[test]
fn events_update_the_list() {
    let mut s = AppState::new(&config(true, true, true));
    assert!(s.connections.is_empty());
    s.apply_event(AppEvent::ConnectionAdded(view(1, 0)));
    s.apply_event(AppEvent::ConnectionAdded(view(2, 0)));
    assert_eq!(s.connections[0].key.src_port, 2);
    s.apply_event(AppEvent::ConnectionUpdated(view(1, 99)));
    assert_eq!(s.connections.len(), 2);
    assert_eq!(s.connections[0].bytes_sent, 99);
    assert_eq!(s.connections[1].key.src_port, 2);
    s.apply_event(AppEvent::ConnectionUpdated(view(3, 1)));
    assert_eq!(s.connections.len(), 3);
    assert_eq!(s.connections[0].key.src_port, 3);
    s.selected_index = 2;
    s.apply_event(AppEvent::ConnectionClosed(view(1, 0).key));
    assert_eq!(s.connections.len(), 2);
    assert_eq!(s.selected_index, 1);
    assert!(s.connections.iter().all(|c| c.key.src_port != 1));
    s.apply_event(AppEvent::ConnectionClosed(view(2, 0).key));
    s.apply_event(AppEvent::ConnectionClosed(view(3, 0).key));
    assert!(s.connections.is_empty());
    assert_eq!(s.selected_index, 0);
    s.apply_event(AppEvent::ScanUpdated(ScanResult {
        dst_ip: IpAddr::V4(1),
        ts: 0,
        status: ScanStatus::Pending,
        ports: None,
        result_raw: None,
    }));
    assert!(s.connections.is_empty());
}

fn seen_at(port: u16, secs: i64) -> ConnectionView {
    ConnectionView { last_seen: Timestamp { secs, subsec_nanos: 0 }, ..view(port, 0) }
}

#[test]
fn list_is_sorted_newest_first() {
    let mut s = AppState::new(&config(true, true, true));
    s.apply_event(AppEvent::ConnectionAdded(seen_at(1, 10)));
    s.apply_event(AppEvent::ConnectionAdded(seen_at(2, 30)));
    s.apply_event(AppEvent::ConnectionAdded(seen_at(3, 20)));
    s.apply_event(AppEvent::ConnectionAdded(seen_at(4, 5)));
    let order: Vec<u16> = s.connections.iter().map(|c| c.key.src_port).collect();
    assert_eq!(order, vec![2, 3, 1, 4]);
    s.apply_event(AppEvent::ConnectionUpdated(seen_at(4, 40)));
    let order: Vec<u16> = s.connections.iter().map(|c| c.key.src_port).collect();
    assert_eq!(order, vec![4, 2, 3, 1]);
    s.apply_event(AppEvent::ConnectionUpdated(seen_at(2, 15)));
    let order: Vec<u16> = s.connections.iter().map(|c| c.key.src_port).collect();
    assert_eq!(order, vec![4, 3, 2, 1]);
    assert!(s.connections.windows(2).all(|w| w[0].last_seen.secs >= w[1].last_seen.secs));
    let mut late = seen_at(5, 15);
    late.last_seen.subsec_nanos = 500_000_000;
    s.apply_event(AppEvent::ConnectionAdded(late));
    let order: Vec<u16> = s.connections.iter().map(|c| c.key.src_port).collect();
    assert_eq!(order, vec![4, 3, 5, 2, 1]);
}

#[test]
fn endpoint_updates_replace_or_append() {
    let mut s = AppState::new(&config(true, true, true));
    let ep = |ip: u32, city: &str| EndpointInfo {
        ip: IpAddr::V4(ip),
        country: None,
        city: Some(city.to_string()),
        latitude: None,
        longitude: None,
        hostname: None,
        last_updated: None,
    };
    s.apply_event(AppEvent::EndpointUpdated(ep(1, "a")));
    s.apply_event(AppEvent::EndpointUpdated(ep(2, "b")));
    s.apply_event(AppEvent::EndpointUpdated(ep(1, "c")));
    assert_eq!(s.endpoints.len(), 2);
    assert_eq!(s.endpoints[0].city.as_deref(), Some("c"));
}

#[test]
fn navigation_stays_on_the_list() {
    let mut s = AppState::new(&config(true, true, true));
    assert!(!handle_input(InputEvent::Down, &mut s));
    assert_eq!(s.selected_index, 0);
    s.apply_event(AppEvent::ConnectionAdded(view(1, 0)));
    s.apply_event(AppEvent::ConnectionAdded(view(2, 0)));
    handle_input(InputEvent::Down, &mut s);
    handle_input(InputEvent::Down, &mut s);
    assert_eq!(s.selected_index, 1);
    handle_input(InputEvent::Up, &mut s);
    handle_input(InputEvent::Up, &mut s);
    assert_eq!(s.selected_index, 0);
    assert!(handle_input(InputEvent::Quit, &mut s));
}

#[test]
fn pages_and_jumps_move_the_selection() {
    let mut s = AppState::new(&config(true, true, true));
    for port in 0..25 {
        s.apply_event(AppEvent::ConnectionAdded(view(port, 0)));
    }
    handle_input(InputEvent::PageDown, &mut s);
    assert_eq!(s.selected_index, PAGE_ROWS);
    handle_input(InputEvent::PageDown, &mut s);
    handle_input(InputEvent::PageDown, &mut s);
    assert_eq!(s.selected_index, 24);
    handle_input(InputEvent::PageUp, &mut s);
    assert_eq!(s.selected_index, 24 - PAGE_ROWS);
    handle_input(InputEvent::Top, &mut s);
    assert_eq!(s.selected_index, 0);
    handle_input(InputEvent::PageUp, &mut s);
    assert_eq!(s.selected_index, 0);
    handle_input(InputEvent::Bottom, &mut s);
    assert_eq!(s.selected_index, 24);
}

#[test]
fn tab_cycles_focus_over_shown_columns() {
    let mut s = AppState::new(&config(true, true, true));
    assert_eq!(s.focus, Pane::List);
    assert!(!handle_input(InputEvent::NextPane, &mut s));
    assert_eq!(s.focus, Pane::Detail);
    handle_input(InputEvent::NextPane, &mut s);
    assert_eq!(s.focus, Pane::Globe);
    handle_input(InputEvent::NextPane, &mut s);
    assert_eq!(s.focus, Pane::List);
    let mut two = AppState::new(&config(true, false, true));
    assert_eq!(two.focus, Pane::Globe);
    handle_input(InputEvent::NextPane, &mut two);
    assert_eq!(two.focus, Pane::Detail);
    handle_input(InputEvent::NextPane, &mut two);
    assert_eq!(two.focus, Pane::Globe);
    let mut one = AppState::new(&config(false, false, true));
    assert_eq!(one.focus, Pane::Detail);
    handle_input(InputEvent::NextPane, &mut one);
    assert_eq!(one.focus, Pane::Detail);
}

#[test]
fn arrows_follow_the_focus() {
    let mut s = AppState::new(&config(true, true, true));
    s.apply_event(AppEvent::ConnectionAdded(view(1, 0)));
    s.apply_event(AppEvent::ConnectionAdded(view(2, 0)));
    handle_input(InputEvent::NextPane, &mut s);
    assert_eq!(s.focus, Pane::Detail);
    handle_input(InputEvent::Down, &mut s);
    handle_input(InputEvent::PageDown, &mut s);
    assert_eq!(s.selected_index, 0);
    assert_eq!(s.detail_scroll, 1 + PAGE_ROWS);
    handle_input(InputEvent::Up, &mut s);
    assert_eq!(s.detail_scroll, PAGE_ROWS);
    handle_input(InputEvent::PageUp, &mut s);
    handle_input(InputEvent::Up, &mut s);
    assert_eq!(s.detail_scroll, 0);
    handle_input(InputEvent::Bottom, &mut s);
    assert_eq!(s.selected_index, 1);
    handle_input(InputEvent::NextPane, &mut s);
    assert_eq!(s.focus, Pane::Globe);
    handle_input(InputEvent::Up, &mut s);
    assert_eq!((s.selected_index, s.detail_scroll), (1, 0));
}

#[test]
fn selected_remote_address() {
    let mut s = AppState::new(&config(true, true, true));
    assert_eq!(s.selected_remote_ip(), None);
    let mut v = view(1, 0);
    s.apply_event(AppEvent::ConnectionAdded(v.clone()));
    assert_eq!(s.selected_remote_ip(), Some(IpAddr::V4(0x0808_0808)));
    v.direction = ConnectionDirection::Incoming;
    s.apply_event(AppEvent::ConnectionUpdated(v));
    assert_eq!(s.selected_remote_ip(), Some(IpAddr::V4(0x0A00_0001)));
}

fn inside(r: Rect, area: Rect) -> bool {
    r.y == area.y && r.height == area.height && r.x >= area.x && r.x + r.width <= area.x + area.width
}

#[test]
fn columns_follow_the_flags() {
    let area = Rect { x: 0, y: 0, width: 100, height: 50 };
    let all = split(area, &config(true, true, true));
    let globe = all.globe.expect("globe");
    let list = all.list.expect("list");
    let detail = all.detail.expect("detail");
    assert_eq!((globe.x, globe.width, globe.height), (0, 30, 50));
    assert_eq!((list.x, list.width, list.height), (30, 35, 50));
    assert_eq!((detail.x, detail.width, detail.height), (65, 35, 50));
    for (g, l, d) in [(true, true, false), (true, false, true), (false, true, true)] {
        let two = split(area, &config(g, l, d));
        let shown: Vec<Rect> = [two.globe, two.list, two.detail].into_iter().flatten().collect();
        assert_eq!(shown.len(), 2);
        assert!(shown.iter().all(|r| inside(*r, area)));
        assert!(shown[0].x + shown[0].width <= shown[1].x);
        assert_eq!(shown[0].width + shown[1].width, 100);
        assert!(shown[0].width <= shown[1].width);
    }
    let no_globe = split(area, &config(false, true, false));
    assert_eq!(no_globe.globe, None);
    assert_eq!(no_globe.list, Some(area));
    assert_eq!(no_globe.detail, None);
    let globe_only = split(area, &config(true, false, false));
    assert_eq!((globe_only.globe, globe_only.list, globe_only.detail), (Some(area), None, None));
    let detail_only = split(area, &config(false, false, true));
    assert_eq!((detail_only.globe, detail_only.list, detail_only.detail), (None, None, Some(area)));
    let none = split(area, &config(false, false, false));
    assert_eq!((none.globe, none.list, none.detail), (None, None, None));
    let odd = Rect { x: 7, y: 3, width: 81, height: 9 };
    let cols = split(odd, &config(true, true, true));
    let shown: Vec<Rect> = [cols.globe, cols.list, cols.detail].into_iter().flatten().collect();
    assert!(shown.iter().all(|r| inside(*r, odd)));
    assert!(shown.windows(2).all(|w| w[0].x + w[0].width <= w[1].x));
}

#[test]
fn list_cells() {
    let k = view(1, 0).key;
    assert_eq!(format_protocol(None, &k), "UDP");
    assert_eq!(format_protocol(Some(&ApplicationProtocol::Https), &k), "UDP/HTTPS");
    assert_eq!(format_protocol(Some(&ApplicationProtocol::Other("DNS".to_string())), &k), "UDP/DNS");
    assert_eq!(format_protocol(Some(&ApplicationProtocol::Unknown), &k), "UDP");
    assert_eq!(format_relative_at(100, 105), "5s ago");
    assert_eq!(format_relative_at(100, 90), "-10s ago");
    assert_eq!(format_relative_at(0, 3599), "59m ago");
    assert_eq!(format_relative_at(0, 7300), "2h ago");
    assert_eq!(format_relative_at(i64::MIN, i64::MAX), format!("{}h ago", i64::MAX / 3600));
    let symbols: String = (0..5).map(marker_symbol).collect();
    assert_eq!(symbols, "o*.+o");
}

#[test]
fn private_addresses() {
    assert!(is_private_ip(IpAddr::V4(0x0A01_0101)));
    assert!(is_private_ip(IpAddr::V4(0xAC1F_0001)));
    assert!(!is_private_ip(IpAddr::V4(0xAC20_0001)));
    assert!(is_private_ip(IpAddr::V4(0xC0A8_0001)));
    assert!(is_private_ip(IpAddr::V4(0x7F00_0001)));
    assert!(!is_private_ip(IpAddr::V4(0x0808_0808)));
    assert!(is_private_ip(IpAddr::V6(1)));
    assert!(is_private_ip(IpAddr::V6(0xfd00u128 << 112)));
    assert!(!is_private_ip(IpAddr::V6(0x2001u128 << 112)));
    for v4 in [0x0A01_0101u32, 0xAC1F_0001, 0xAC20_0001, 0xC0A8_0001, 0x7F00_0001, 0x0808_0808, 0xC0A9_0000] {
        let a = core::net::Ipv4Addr::from(v4);
        assert_eq!(is_private_ip(IpAddr::V4(v4)), a.is_private() || a.is_loopback());
    }
}

#[test]
fn ipinfo_cache_keeps_last_text() {
    let mut s = AppState::new(&config(true, true, true));
    let ip = IpAddr::V4(0x0A00_0001);
    assert_eq!(s.cached_ipinfo(ip), None);
    s.remember_ipinfo(ip, "first".to_string());
    s.remember_ipinfo(IpAddr::V4(2), "other".to_string());
    s.remember_ipinfo(ip, "second".to_string());
    assert_eq!(s.cached_ipinfo(ip).as_deref(), Some("second"));
    assert_eq!(s.ipinfo_cache.len(), 2);
}

#[test]
fn direction_and_ipinfo_cells() {
    assert_eq!(direction_cell(ConnectionDirection::Incoming), "IN");
    assert_eq!(direction_cell(ConnectionDirection::Outgoing), "OUT");
    assert_eq!(direction_cell(ConnectionDirection::Unknown), "?");
    assert_eq!(ipinfo_result(true, b"  city: Paris\n"), Some("city: Paris".to_string()));
    assert_eq!(ipinfo_result(false, b"city: Paris"), None);
    assert_eq!(ipinfo_result(true, b" \n\t"), None);
    assert_eq!(ipinfo_result(true, &[0xff, b'x']), Some("\u{FFFD}x".to_string()));
}

#[test]
fn address_and_traffic_cells() {
    assert_eq!(endpoint_cell(IpAddr::V4(0xC0A8_0102), 443), "192.168.1.2:443");
    assert_eq!(endpoint_cell(IpAddr::V6(1), 0), "::1:0");
    assert_eq!(endpoint_cell(IpAddr::V4(0), u16::MAX), "0.0.0.0:65535");
    assert_eq!(bytes_cell(0, 0), "0/0");
    assert_eq!(bytes_cell(1234, u64::MAX), format!("1234/{}", u64::MAX));
}

#[test]
fn ipinfo_steps() {
    let mut s = AppState::new(&config(true, true, true));
    let public = IpAddr::V4(0x0808_0808);
    let private = IpAddr::V4(0xC0A8_0001);
    assert!(matches!(s.ipinfo_step(public), IpinfoStep::Skip));
    assert!(matches!(s.ipinfo_step(private), IpinfoStep::Fetch));
    assert_eq!(s.ipinfo_fetched(private, false, b"city: Paris"), None);
    assert!(s.ipinfo_cache.is_empty());
    assert!(matches!(s.ipinfo_step(private), IpinfoStep::Fetch));
    assert_eq!(s.ipinfo_fetched(private, true, b" city: Paris\n"), Some("city: Paris".to_string()));
    match s.ipinfo_step(private) {
        IpinfoStep::Cached(text) => assert_eq!(text, "city: Paris"),
        _ => panic!("expected the kept output"),
    }
    assert!(matches!(s.ipinfo_step(public), IpinfoStep::Skip));
}

#[test]
fn events_keep_selection_and_one_endpoint_per_address() {
    let mut s = AppState::new(&config(true, true, true));
    let ep = |ip: u32, city: &str| EndpointInfo {
        ip: IpAddr::V4(ip),
        country: None,
        city: Some(city.to_string()),
        latitude: None,
        longitude: None,
        hostname: None,
        last_updated: None,
    };
    s.apply_event(AppEvent::ConnectionAdded(view(1, 0)));
    s.apply_event(AppEvent::ConnectionAdded(view(2, 0)));
    s.selected_index = 1;
    for (ip, city) in [(1, "a"), (2, "b"), (1, "c"), (2, "d"), (3, "e")] {
        s.apply_event(AppEvent::EndpointUpdated(ep(ip, city)));
        let same: Vec<&EndpointInfo> = s.endpoints.iter().filter(|e| e.ip == IpAddr::V4(ip)).collect();
        assert_eq!(same.len(), 1);
        assert_eq!(same[0].city.as_deref(), Some(city));
    }
    assert_eq!(s.endpoints.len(), 3);
    s.apply_event(AppEvent::ConnectionClosed(view(2, 0).key));
    assert!(s.selected_index < s.connections.len());
    let before = (s.connections.len(), s.endpoints.len(), s.selected_index, s.focus, s.detail_scroll);
    s.apply_event(AppEvent::ScanUpdated(ScanResult {
        dst_ip: IpAddr::V4(1),
        ts: 0,
        status: ScanStatus::Done,
        ports: None,
        result_raw: None,
    }));
    assert_eq!((s.connections.len(), s.endpoints.len(), s.selected_index, s.focus, s.detail_scroll), before);
}
