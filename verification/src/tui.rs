//! The interface's state and decisions: applying events to the list of
//! connections, moving the selection, mapping keys to actions, splitting the
//! screen into columns, and the text of list cells.
use vstd::prelude::*;
use crate::clock::{Timestamp, is_later, later};
use crate::net::{IpAddr, ip_text, ip_to_string, is_private_ip, spec_is_private_ip};
use crate::config::Config;
use crate::model::{
    AppEvent, ApplicationProtocol, ConnectionDirection, ConnectionKey, ConnectionView,
    EndpointInfo, KeyModel, same_key, transport_text,
};
use crate::capture::{remote_ip, spec_remote_ip};
use crate::text::{
    owned, i64_to_string, signed_decimal, chars_of, trim, trim_exec, string_from_chars, utf8_lossy, lossy_text,
    decimal, push_char, push_decimal,
};

verus! {

/// A user action read from the keyboard.
#[derive(Clone, Copy, Debug, PartialEq, Eq, Structural)]
pub enum InputEvent {
    Quit,
    Up,
    Down,
    PageUp,
    PageDown,
    Top,
    Bottom,
    NextPane,
    Idle,
}

/// The key of a key event, as far as the interface tells keys apart.
#[derive(Clone, Copy, Debug, PartialEq, Eq, Structural)]
pub enum KeyCode {
    Char(char),
    Up,
    Down,
    PageUp,
    PageDown,
    Tab,
    Other,
}

/// A key event: its key, whether Control was held, and whether it is a press.
#[derive(Clone, Copy, Debug, PartialEq, Eq, Structural)]
pub struct KeyInput {
    pub code: KeyCode,
    pub control: bool,
    pub press: bool,
}

/// The action of a key event: none unless it is a press; `q` (and Control-`c`)
/// quit, Down or `j` moves down, Up or `k` moves up, PgDn and PgUp move a
/// page, `g` jumps to the top and `G` to the bottom, Tab switches pane, any
/// other key does nothing.
pub open spec fn spec_input_event(key: KeyInput) -> Option<InputEvent> {
    if !key.press {
        None
    } else {
        Some(match key.code {
            KeyCode::Char(c) => if c == 'q' || (c == 'c' && key.control) {
                InputEvent::Quit
            } else if c == 'j' {
                InputEvent::Down
            } else if c == 'k' {
                InputEvent::Up
            } else if c == 'g' {
                InputEvent::Top
            } else if c == 'G' {
                InputEvent::Bottom
            } else {
                InputEvent::Idle
            },
            KeyCode::Down => InputEvent::Down,
            KeyCode::Up => InputEvent::Up,
            KeyCode::PageDown => InputEvent::PageDown,
            KeyCode::PageUp => InputEvent::PageUp,
            KeyCode::Tab => InputEvent::NextPane,
            KeyCode::Other => InputEvent::Idle,
        })
    }
}

/// The action that a key event asks for.
pub fn input_event_for(key: KeyInput) -> (r: Option<InputEvent>)
    ensures
        r == spec_input_event(key),
{
    if !key.press {
        return None;
    }
    let evt = match key.code {
        KeyCode::Char(c) => {
            if (c == 'q' || c == 'c') && key.control {
                InputEvent::Quit
            } else if c == 'q' {
                InputEvent::Quit
            } else if c == 'j' {
                InputEvent::Down
            } else if c == 'k' {
                InputEvent::Up
            } else if c == 'g' {
                InputEvent::Top
            } else if c == 'G' {
                InputEvent::Bottom
            } else {
                InputEvent::Idle
            }
        },
        KeyCode::Down => InputEvent::Down,
        KeyCode::Up => InputEvent::Up,
        KeyCode::PageDown => InputEvent::PageDown,
        KeyCode::PageUp => InputEvent::PageUp,
        KeyCode::Tab => InputEvent::NextPane,
        KeyCode::Other => InputEvent::Idle,
    };
    Some(evt)
}

/// The arrow keys act as their letter keys, whatever the Control key: Up as
/// `k`, moving up, and Down as `j`, moving down; a release does nothing.
pub proof fn law_arrows_act_as_letters(control: bool)
    ensures
        spec_input_event(KeyInput { code: KeyCode::Up, control, press: true }) == Some(InputEvent::Up),
        spec_input_event(KeyInput { code: KeyCode::Up, control, press: true })
            == spec_input_event(KeyInput { code: KeyCode::Char('k'), control, press: true }),
        spec_input_event(KeyInput { code: KeyCode::Down, control, press: true }) == Some(InputEvent::Down),
        spec_input_event(KeyInput { code: KeyCode::Down, control, press: true })
            == spec_input_event(KeyInput { code: KeyCode::Char('j'), control, press: true }),
        spec_input_event(KeyInput { code: KeyCode::Up, control, press: false }) is None,
        spec_input_event(KeyInput { code: KeyCode::Down, control, press: false }) is None,
{
}

/// A column of the interface.
#[derive(Clone, Copy, Debug, PartialEq, Eq, Structural)]
pub enum Pane {
    Globe,
    List,
    Detail,
}

/// Column `p` is shown under the flags `g` (globe), `l` (list), `d` (detail).
pub open spec fn pane_shown(p: Pane, g: bool, l: bool, d: bool) -> bool {
    match p {
        Pane::Globe => g,
        Pane::List => l,
        Pane::Detail => d,
    }
}

/// The column after `p` from left to right: globe, list, detail, then globe again.
pub open spec fn pane_after(p: Pane) -> Pane {
    match p {
        Pane::Globe => Pane::List,
        Pane::List => Pane::Detail,
        Pane::Detail => Pane::Globe,
    }
}

/// The focus after Tab: the next shown column after `p`, wrapping around;
/// `p` itself when no other column is shown.
pub open spec fn spec_next_pane(p: Pane, g: bool, l: bool, d: bool) -> Pane {
    if pane_shown(pane_after(p), g, l, d) {
        pane_after(p)
    } else if pane_shown(pane_after(pane_after(p)), g, l, d) {
        pane_after(pane_after(p))
    } else {
        p
    }
}

/// The column focused at start: the list, else the globe, else the detail;
/// the list when none is shown.
pub open spec fn spec_first_pane(g: bool, l: bool, d: bool) -> Pane {
    if l {
        Pane::List
    } else if g {
        Pane::Globe
    } else if d {
        Pane::Detail
    } else {
        Pane::List
    }
}

/// The column after `p` from left to right.
fn next_in_row(p: Pane) -> (r: Pane)
    ensures
        r == pane_after(p),
{
    match p {
        Pane::Globe => Pane::List,
        Pane::List => Pane::Detail,
        Pane::Detail => Pane::Globe,
    }
}

/// Whether column `p` is shown under the flags.
fn is_shown(p: Pane, g: bool, l: bool, d: bool) -> (r: bool)
    ensures
        r == pane_shown(p, g, l, d),
{
    match p {
        Pane::Globe => g,
        Pane::List => l,
        Pane::Detail => d,
    }
}

/// The focus after Tab, from `p` under the flags.
pub fn next_pane(p: Pane, g: bool, l: bool, d: bool) -> (r: Pane)
    ensures
        r == spec_next_pane(p, g, l, d),
{
    let one = next_in_row(p);
    let two = next_in_row(one);
    if is_shown(one, g, l, d) {
        one
    } else if is_shown(two, g, l, d) {
        two
    } else {
        p
    }
}

/// How many rows PgUp and PgDn move.
pub const PAGE_ROWS: usize = 10;

/// What the interface holds.
pub struct AppState {
    pub connections: Vec<ConnectionView>,
    pub endpoints: Vec<EndpointInfo>,
    /// `ipinfo` output already fetched, per address.
    pub ipinfo_cache: Vec<(IpAddr, String)>,
    pub selected_index: usize,
    /// The column that Up, Down, PgUp and PgDn act on.
    pub focus: Pane,
    /// How many lines the detail panel is scrolled down.
    pub detail_scroll: usize,
    pub show_globe: bool,
    pub show_list: bool,
    pub show_detail: bool,
    pub ticks: u64,
}

impl AppState {
    /// An empty state showing the columns that `config` enables.
    pub fn new(config: &Config) -> (s: Self)
        ensures
            s.connections@.len() == 0,
            s.endpoints@.len() == 0,
            s.ipinfo_cache@.len() == 0,
            s.selected_index == 0,
            s.focus == spec_first_pane(config.show_globe, config.show_list, config.show_detail),
            s.detail_scroll == 0,
            s.show_globe == config.show_globe,
            s.show_list == config.show_list,
            s.show_detail == config.show_detail,
            s.ticks == 0,
    {
        AppState {
            connections: Vec::new(),
            endpoints: Vec::new(),
            ipinfo_cache: Vec::new(),
            selected_index: 0,
            focus: if config.show_list {
                Pane::List
            } else if config.show_globe {
                Pane::Globe
            } else if config.show_detail {
                Pane::Detail
            } else {
                Pane::List
            },
            detail_scroll: 0,
            show_globe: config.show_globe,
            show_list: config.show_list,
            show_detail: config.show_detail,
            ticks: 0,
        }
    }

    /// The remote end of the selected connection, if one is selected.
    pub fn selected_remote_ip(&self) -> (r: Option<IpAddr>)
        ensures
            self.selected_index < self.connections@.len() ==> r == Some(spec_remote_ip(
                self.connections@[self.selected_index as int].key@,
                self.connections@[self.selected_index as int].direction,
            )),
            self.selected_index >= self.connections@.len() ==> r is None,
    {
        if self.selected_index < self.connections.len() {
            let conn = &self.connections[self.selected_index];
            Some(remote_ip(&conn.key, conn.direction))
        } else {
            None
        }
    }
}

/// The index of the first connection shown for flow `k`, or -1.
pub open spec fn view_index(vs: Seq<ConnectionView>, k: KeyModel) -> int
    decreases vs.len(),
{
    if vs.len() == 0 {
        -1
    } else {
        let r = view_index(vs.drop_last(), k);
        if r >= 0 {
            r
        } else if vs.last().key@ == k {
            vs.len() - 1
        } else {
            -1
        }
    }
}

proof fn lemma_view_index(vs: Seq<ConnectionView>, k: KeyModel)
    ensures
        -1 <= view_index(vs, k) < vs.len(),
        view_index(vs, k) >= 0 ==> vs[view_index(vs, k)].key@ == k
            && forall|j: int| 0 <= j < view_index(vs, k) ==> vs[j].key@ != k,
        view_index(vs, k) == -1 ==> forall|j: int| 0 <= j < vs.len() ==> vs[j].key@ != k,
    decreases vs.len(),
{
    if vs.len() > 0 {
        lemma_view_index(vs.drop_last(), k);
        assert forall|j: int| 0 <= j < vs.len() - 1 implies vs.drop_last()[j] == vs[j] by {}
    }
}

/// The index of the first endpoint for address `ip`, or -1.
pub open spec fn endpoint_index(es: Seq<EndpointInfo>, ip: IpAddr) -> int
    decreases es.len(),
{
    if es.len() == 0 {
        -1
    } else {
        let r = endpoint_index(es.drop_last(), ip);
        if r >= 0 {
            r
        } else if es.last().ip == ip {
            es.len() - 1
        } else {
            -1
        }
    }
}

proof fn lemma_endpoint_index(es: Seq<EndpointInfo>, ip: IpAddr)
    ensures
        -1 <= endpoint_index(es, ip) < es.len(),
        endpoint_index(es, ip) >= 0 ==> es[endpoint_index(es, ip)].ip == ip
            && forall|j: int| 0 <= j < endpoint_index(es, ip) ==> es[j].ip != ip,
        endpoint_index(es, ip) == -1 ==> forall|j: int| 0 <= j < es.len() ==> es[j].ip != ip,
    decreases es.len(),
{
    if es.len() > 0 {
        lemma_endpoint_index(es.drop_last(), ip);
        assert forall|j: int| 0 <= j < es.len() - 1 implies es.drop_last()[j] == es[j] by {}
    }
}

/// The connection stays on the list: it is not for flow `k`.
pub open spec fn not_for(k: KeyModel) -> spec_fn(ConnectionView) -> bool {
    |c: ConnectionView| c.key@ != k
}

/// The selection after the list shrank to `len` entries: kept if still on
/// the list, else the last entry (0 for an empty list).
pub open spec fn clamped_selection(sel: usize, len: nat) -> usize {
    if sel >= len {
        if len == 0 { 0 } else { (len - 1) as usize }
    } else {
        sel
    }
}

/// How many connections at the head of `vs` were seen after `t`: where a
/// connection last seen at `t` goes on a list kept newest first, ahead of
/// those seen at the same time.
pub open spec fn newest_pos(vs: Seq<ConnectionView>, t: Timestamp) -> int
    decreases vs.len(),
{
    if vs.len() == 0 {
        0
    } else if later(vs[0].last_seen, t) {
        1 + newest_pos(vs.drop_first(), t)
    } else {
        0
    }
}

/// `v` placed into `vs` at the position that keeps the list newest first.
pub open spec fn placed(vs: Seq<ConnectionView>, v: ConnectionView) -> Seq<ConnectionView> {
    vs.insert(newest_pos(vs, v.last_seen), v)
}

/// The connections are ordered by the time they were last seen, newest first.
pub open spec fn newest_first(vs: Seq<ConnectionView>) -> bool {
    forall|i: int, j: int| 0 <= i < j < vs.len() ==> !later(#[trigger] vs[j].last_seen, #[trigger] vs[i].last_seen)
}

proof fn lemma_newest_pos(vs: Seq<ConnectionView>, t: Timestamp)
    ensures
        0 <= newest_pos(vs, t) <= vs.len(),
        forall|j: int| 0 <= j < newest_pos(vs, t) ==> later(#[trigger] vs[j].last_seen, t),
        newest_pos(vs, t) < vs.len() ==> !later(vs[newest_pos(vs, t)].last_seen, t),
    decreases vs.len(),
{
    if vs.len() > 0 && later(vs[0].last_seen, t) {
        lemma_newest_pos(vs.drop_first(), t);
        assert forall|j: int| 0 <= j < newest_pos(vs, t) implies later(#[trigger] vs[j].last_seen, t) by {
            if j > 0 {
                assert(vs[j] == vs.drop_first()[j - 1]);
            }
        }
    }
}

/// The state after an event: an added connection is placed by the time it
/// was last seen, newest first; an updated connection takes the place of the
/// first one for its flow and is placed the same way; a closed flow's connections all leave, and the selection moves back
/// onto the list if it fell off; an endpoint replaces the first one for its
/// address, or is appended; a scan update changes nothing.
pub open spec fn applied(old: AppState, new: AppState, event: AppEvent) -> bool {
    &&& new.ipinfo_cache == old.ipinfo_cache
    &&& new.focus == old.focus
    &&& new.detail_scroll == old.detail_scroll
    &&& new.show_globe == old.show_globe
    &&& new.show_list == old.show_list
    &&& new.show_detail == old.show_detail
    &&& new.ticks == old.ticks
    &&& match event {
        AppEvent::ConnectionAdded(v) => {
            &&& new.connections@ == placed(old.connections@, v)
            &&& new.endpoints == old.endpoints
            &&& new.selected_index == old.selected_index
        },
        AppEvent::ConnectionUpdated(v) => {
            let i = view_index(old.connections@, v.key@);
            &&& new.connections@ == if i >= 0 {
                placed(old.connections@.remove(i), v)
            } else {
                placed(old.connections@, v)
            }
            &&& new.endpoints == old.endpoints
            &&& new.selected_index == old.selected_index
        },
        AppEvent::ConnectionClosed(k) => {
            &&& new.connections@ == old.connections@.filter(not_for(k@))
            &&& new.endpoints == old.endpoints
            &&& new.selected_index == clamped_selection(old.selected_index, new.connections@.len())
        },
        AppEvent::EndpointUpdated(info) => {
            let i = endpoint_index(old.endpoints@, info.ip);
            &&& new.endpoints@ == if i >= 0 {
                old.endpoints@.update(i, info)
            } else {
                old.endpoints@.push(info)
            }
            &&& new.connections == old.connections
            &&& new.selected_index == old.selected_index
        },
        AppEvent::ScanUpdated(_) => {
            &&& new.connections == old.connections
            &&& new.endpoints == old.endpoints
            &&& new.selected_index == old.selected_index
        },
    }
}

impl AppState {
    /// The position of the first connection shown for flow `key`.
    fn position_of(&self, key: &ConnectionKey) -> (r: Option<usize>)
        ensures
            match r {
                Some(i) => i as int == view_index(self.connections@, key@) && i < self.connections@.len(),
                None => view_index(self.connections@, key@) == -1,
            },
    {
        proof { lemma_view_index(self.connections@, key@); }
        let mut i: usize = 0;
        while i < self.connections.len()
            invariant
                i <= self.connections@.len(),
                forall|j: int| 0 <= j < i ==> self.connections@[j].key@ != key@,
                -1 <= view_index(self.connections@, key@) < self.connections@.len(),
                view_index(self.connections@, key@) >= 0 ==> self.connections@[view_index(self.connections@, key@)].key@ == key@
                    && forall|j: int| 0 <= j < view_index(self.connections@, key@) ==> self.connections@[j].key@ != key@,
                view_index(self.connections@, key@) == -1 ==> forall|j: int| 0 <= j < self.connections@.len() ==> self.connections@[j].key@ != key@,
            decreases self.connections@.len() - i,
        {
            if same_key(&self.connections[i].key, key) {
                return Some(i);
            }
            i = i + 1;
        }
        None
    }

    /// The position of the first endpoint for address `ip`.
    fn endpoint_position(&self, ip: IpAddr) -> (r: Option<usize>)
        ensures
            match r {
                Some(i) => i as int == endpoint_index(self.endpoints@, ip) && i < self.endpoints@.len(),
                None => endpoint_index(self.endpoints@, ip) == -1,
            },
    {
        proof { lemma_endpoint_index(self.endpoints@, ip); }
        let mut i: usize = 0;
        while i < self.endpoints.len()
            invariant
                i <= self.endpoints@.len(),
                forall|j: int| 0 <= j < i ==> self.endpoints@[j].ip != ip,
                -1 <= endpoint_index(self.endpoints@, ip) < self.endpoints@.len(),
                endpoint_index(self.endpoints@, ip) >= 0 ==> self.endpoints@[endpoint_index(self.endpoints@, ip)].ip == ip
                    && forall|j: int| 0 <= j < endpoint_index(self.endpoints@, ip) ==> self.endpoints@[j].ip != ip,
                endpoint_index(self.endpoints@, ip) == -1 ==> forall|j: int| 0 <= j < self.endpoints@.len() ==> self.endpoints@[j].ip != ip,
            decreases self.endpoints@.len() - i,
        {
            if self.endpoints[i].ip == ip {
                return Some(i);
            }
            i = i + 1;
        }
        None
    }

    /// Puts `view` where it keeps the list newest first.
    fn place(&mut self, view: ConnectionView)
        ensures
            final(self).connections@ == placed(old(self).connections@, view),
            final(self).endpoints == old(self).endpoints,
            final(self).ipinfo_cache == old(self).ipinfo_cache,
            final(self).selected_index == old(self).selected_index,
            final(self).focus == old(self).focus,
            final(self).detail_scroll == old(self).detail_scroll,
            final(self).show_globe == old(self).show_globe,
            final(self).show_list == old(self).show_list,
            final(self).show_detail == old(self).show_detail,
            final(self).ticks == old(self).ticks,
    {
        let ghost vs = self.connections@;
        let t = view.last_seen;
        let mut i: usize = 0;
        assert(vs.subrange(0, vs.len() as int) =~= vs);
        while i < self.connections.len() && is_later(self.connections[i].last_seen, t)
            invariant
                self.connections@ == vs,
                i <= vs.len(),
                newest_pos(vs, t) == i + newest_pos(vs.subrange(i as int, vs.len() as int), t),
            decreases vs.len() - i,
        {
            proof {
                let rest = vs.subrange(i as int, vs.len() as int);
                assert(rest[0] == vs[i as int]);
                assert(rest.drop_first() =~= vs.subrange(i + 1, vs.len() as int));
            }
            i = i + 1;
        }
        proof {
            let rest = vs.subrange(i as int, vs.len() as int);
            if i < vs.len() {
                assert(rest[0] == vs[i as int]);
            } else {
                assert(rest.len() == 0);
            }
        }
        self.connections.insert(i, view);
    }

    /// Drops every connection of flow `key`, keeping the others in order.
    fn remove_flow(&mut self, key: &ConnectionKey)
        ensures
            final(self).connections@ == old(self).connections@.filter(not_for(key@)),
            final(self).endpoints == old(self).endpoints,
            final(self).ipinfo_cache == old(self).ipinfo_cache,
            final(self).selected_index == old(self).selected_index,
            final(self).focus == old(self).focus,
            final(self).detail_scroll == old(self).detail_scroll,
            final(self).show_globe == old(self).show_globe,
            final(self).show_list == old(self).show_list,
            final(self).show_detail == old(self).show_detail,
            final(self).ticks == old(self).ticks,
    {
        let ghost vs = self.connections@;
        let ghost keep = not_for(key@);
        let mut old_list: Vec<ConnectionView> = Vec::new();
        std::mem::swap(&mut old_list, &mut self.connections);
        let mut kept: Vec<ConnectionView> = Vec::new();
        let mut i: usize = 0;
        while i < old_list.len()
            invariant
                old_list@ == vs,
                i <= vs.len(),
                keep == not_for(key@),
                kept@ == vs.take(i as int).filter(keep),
            decreases vs.len() - i,
        {
            proof {
                reveal(Seq::filter);
                assert(vs.take(i + 1).drop_last() =~= vs.take(i as int));
                assert(vs.take(i + 1).last() == vs[i as int]);
            }
            if !same_key(&old_list[i].key, key) {
                kept.push(old_list[i].duplicate());
            }
            i = i + 1;
        }
        assert(vs.take(vs.len() as int) =~= vs);
        self.connections = kept;
    }

    /// Applies one event from the capture and scan side.
    pub fn apply_event(&mut self, event: AppEvent)
        ensures
            applied(*old(self), *final(self), event),
    {
        let ghost e = event;
        match event {
            AppEvent::ConnectionAdded(view) => {
                self.place(view);
            },
            AppEvent::ConnectionUpdated(view) => {
                match self.position_of(&view.key) {
                    Some(idx) => {
                        self.connections.remove(idx);
                        self.place(view);
                    },
                    None => {
                        self.place(view);
                    },
                }
            },
            AppEvent::ConnectionClosed(key) => {
                self.remove_flow(&key);
                if self.selected_index >= self.connections.len() {
                    self.selected_index = if self.connections.len() == 0 {
                        0
                    } else {
                        self.connections.len() - 1
                    };
                }
            },
            AppEvent::EndpointUpdated(info) => {
                match self.endpoint_position(info.ip) {
                    Some(idx) => {
                        self.endpoints.set(idx, info);
                    },
                    None => {
                        self.endpoints.push(info);
                    },
                }
            },
            AppEvent::ScanUpdated(_) => {},
        }
    }
}

} // verus!

verus! {

/// The selection is on the list, or 0 when the list is empty.
pub open spec fn selection_on_list(s: AppState) -> bool {
    s.selected_index < s.connections@.len() || s.selected_index == 0
}

/// No two endpoints are for the same address.
pub open spec fn distinct_endpoints(es: Seq<EndpointInfo>) -> bool {
    forall|i: int, j: int| 0 <= i < j < es.len() ==> #[trigger] es[i].ip != #[trigger] es[j].ip
}

/// Every event keeps the selection on the list and the endpoints one per
/// address; after an endpoint update the endpoint for its address is the
/// update; a scan update leaves the state as it was.
pub proof fn law_events_keep_state_sound(old: AppState, new: AppState, event: AppEvent)
    requires
        applied(old, new, event),
        selection_on_list(old),
        distinct_endpoints(old.endpoints@),
    ensures
        selection_on_list(new),
        distinct_endpoints(new.endpoints@),
        event matches AppEvent::EndpointUpdated(info) ==> {
            &&& exists|i: int| 0 <= i < new.endpoints@.len() && #[trigger] new.endpoints@[i] == info
            &&& forall|i: int| 0 <= i < new.endpoints@.len() && #[trigger] new.endpoints@[i].ip == info.ip
                ==> new.endpoints@[i] == info
        },
        event is ScanUpdated ==> new == old,
{
    match event {
        AppEvent::ConnectionAdded(v) => {
            lemma_newest_pos(old.connections@, v.last_seen);
        },
        AppEvent::ConnectionUpdated(v) => {
            lemma_view_index(old.connections@, v.key@);
            let i = view_index(old.connections@, v.key@);
            let base = if i >= 0 { old.connections@.remove(i) } else { old.connections@ };
            lemma_newest_pos(base, v.last_seen);
        },
        AppEvent::EndpointUpdated(info) => {
            lemma_endpoint_index(old.endpoints@, info.ip);
            let k = endpoint_index(old.endpoints@, info.ip);
            let es = new.endpoints@;
            if k >= 0 {
                assert(es[k] == info);
                assert forall|i: int, j: int| 0 <= i < j < es.len() implies #[trigger] es[i].ip != #[trigger] es[j].ip by {
                    assert(old.endpoints@[i].ip != old.endpoints@[j].ip);
                }
                assert forall|i: int| 0 <= i < es.len() && #[trigger] es[i].ip == info.ip implies es[i] == info by {
                    if i != k {
                        if i < k {
                            assert(old.endpoints@[i].ip != old.endpoints@[k].ip);
                        } else {
                            assert(old.endpoints@[k].ip != old.endpoints@[i].ip);
                        }
                    }
                }
            } else {
                let n = old.endpoints@.len() as int;
                assert(es[n] == info);
                assert forall|i: int, j: int| 0 <= i < j < es.len() implies #[trigger] es[i].ip != #[trigger] es[j].ip by {
                    if j < n {
                        assert(old.endpoints@[i].ip != old.endpoints@[j].ip);
                    } else {
                        assert(old.endpoints@[i].ip != info.ip);
                    }
                }
            }
        },
        _ => {},
    }
}

/// After a flow is closed none of its connections is listed, and the
/// selection is on the list (or 0 when the list is empty).
pub proof fn law_closed_flow_leaves(old: AppState, new: AppState, key: ConnectionKey)
    requires
        applied(old, new, AppEvent::ConnectionClosed(key)),
    ensures
        forall|i: int| 0 <= i < new.connections@.len() ==> (#[trigger] new.connections@[i]).key@ != key@,
        new.connections@.len() > 0 ==> new.selected_index < new.connections@.len(),
        new.connections@.len() == 0 ==> new.selected_index == 0,
{
    broadcast use vstd::seq_lib::group_filter_ensures;
    assert forall|i: int| 0 <= i < new.connections@.len() implies (#[trigger] new.connections@[i]).key@ != key@ by {
        assert(not_for(key@)(old.connections@.filter(not_for(key@))[i]));
    }
}

proof fn lemma_placed_newest_first(vs: Seq<ConnectionView>, v: ConnectionView)
    requires
        newest_first(vs),
    ensures
        newest_first(placed(vs, v)),
{
    lemma_newest_pos(vs, v.last_seen);
    let p = newest_pos(vs, v.last_seen);
    let r = placed(vs, v);
    assert forall|a: int, b: int| 0 <= a < b < r.len() implies !later(#[trigger] r[b].last_seen, #[trigger] r[a].last_seen) by {
        let ea = if a < p { vs[a] } else if a == p { v } else { vs[a - 1] };
        let eb = if b < p { vs[b] } else if b == p { v } else { vs[b - 1] };
        assert(r[a] == ea);
        assert(r[b] == eb);
        if a == p && b > p {
            if p < b - 1 {
                assert(!later(vs[b - 1].last_seen, vs[p].last_seen));
            }
        }
        if a < p && b > p {
            assert(!later(vs[b - 1].last_seen, vs[a].last_seen));
        }
    }
}

proof fn lemma_remove_newest_first(vs: Seq<ConnectionView>, i: int)
    requires
        newest_first(vs),
        0 <= i < vs.len(),
    ensures
        newest_first(vs.remove(i)),
{
    let r = vs.remove(i);
    assert forall|a: int, b: int| 0 <= a < b < r.len() implies !later(#[trigger] r[b].last_seen, #[trigger] r[a].last_seen) by {
        let ia = if a < i { a } else { a + 1 };
        let ib = if b < i { b } else { b + 1 };
        assert(r[a] == vs[ia]);
        assert(r[b] == vs[ib]);
        assert(!later(vs[ib].last_seen, vs[ia].last_seen));
    }
}

proof fn lemma_filter_newest_first(vs: Seq<ConnectionView>, keep: spec_fn(ConnectionView) -> bool)
    requires
        newest_first(vs),
    ensures
        newest_first(vs.filter(keep)),
    decreases vs.len(),
{
    reveal(Seq::filter);
    if vs.len() > 0 {
        let init = vs.drop_last();
        assert(newest_first(init)) by {
            assert forall|a: int, b: int| 0 <= a < b < init.len() implies !later(#[trigger] init[b].last_seen, #[trigger] init[a].last_seen) by {
                assert(init[a] == vs[a] && init[b] == vs[b]);
            }
        }
        lemma_filter_newest_first(init, keep);
        let sub = init.filter(keep);
        if keep(vs.last()) {
            let r = sub.push(vs.last());
            assert forall|a: int, b: int| 0 <= a < b < r.len() implies !later(#[trigger] r[b].last_seen, #[trigger] r[a].last_seen) by {
                if b == sub.len() {
                    assert(sub.contains(sub[a]));
                    init.lemma_filter_contains_rev(keep, sub[a]);
                    let k = choose|k: int| 0 <= k < init.len() && init[k] == sub[a];
                    assert(!later(vs[vs.len() - 1].last_seen, vs[k].last_seen));
                }
            }
        }
    }
}

/// A list ordered newest first stays so ordered after every event.
pub proof fn law_list_stays_newest_first(old: AppState, new: AppState, event: AppEvent)
    requires
        newest_first(old.connections@),
        applied(old, new, event),
    ensures
        newest_first(new.connections@),
{
    match event {
        AppEvent::ConnectionAdded(v) => {
            lemma_placed_newest_first(old.connections@, v);
        },
        AppEvent::ConnectionUpdated(v) => {
            lemma_view_index(old.connections@, v.key@);
            let i = view_index(old.connections@, v.key@);
            if i >= 0 {
                lemma_remove_newest_first(old.connections@, i);
                lemma_placed_newest_first(old.connections@.remove(i), v);
            } else {
                lemma_placed_newest_first(old.connections@, v);
            }
        },
        AppEvent::ConnectionClosed(k) => {
            lemma_filter_newest_first(old.connections@, not_for(k@));
        },
        _ => {},
    }
}

/// The selection after `input` on a list of `len` rows: Down moves one row
/// down and PgDn a page down, stopping at the last row; Up moves one row up
/// and PgUp a page up, stopping at the first; Top goes to the first row and
/// Bottom to the last; on an empty list, and for any other input, it stays.
pub open spec fn moved_selection(sel: int, len: int, input: InputEvent) -> int {
    if len == 0 {
        sel
    } else {
        match input {
            InputEvent::Down => if sel + 1 < len - 1 { sel + 1 } else { len - 1 },
            InputEvent::PageDown => if sel + PAGE_ROWS < len - 1 { sel + PAGE_ROWS } else { len - 1 },
            InputEvent::Up => if sel > 0 { sel - 1 } else { 0 },
            InputEvent::PageUp => if sel > PAGE_ROWS { sel - PAGE_ROWS } else { 0 },
            InputEvent::Top => 0,
            InputEvent::Bottom => len - 1,
            _ => sel,
        }
    }
}

/// The input moves the list's selection when `focus` is on: Top and Bottom
/// always do, Up, Down, PgUp and PgDn when the list has the focus.
pub open spec fn moves_list(input: InputEvent, focus: Pane) -> bool {
    match input {
        InputEvent::Top | InputEvent::Bottom => true,
        InputEvent::Up | InputEvent::Down | InputEvent::PageUp | InputEvent::PageDown => focus == Pane::List,
        _ => false,
    }
}

/// The detail panel's scroll after `input` while it has the focus: one line
/// for Up and Down, a page for PgUp and PgDn, never above the top or past the
/// largest offset; other inputs keep it.
pub open spec fn scrolled(scroll: int, input: InputEvent) -> int {
    match input {
        InputEvent::Down => if scroll < usize::MAX { scroll + 1 } else { scroll },
        InputEvent::PageDown => if scroll + PAGE_ROWS <= usize::MAX { scroll + PAGE_ROWS } else { usize::MAX as int },
        InputEvent::Up => if scroll > 0 { scroll - 1 } else { 0 },
        InputEvent::PageUp => if scroll > PAGE_ROWS { scroll - PAGE_ROWS } else { 0 },
        _ => scroll,
    }
}

/// After an update of a flow its view is on the list, and the list keeps its
/// length if the flow was listed or grows by one if it was not.
pub proof fn law_updated_flow_is_listed(old: AppState, new: AppState, v: ConnectionView)
    requires
        applied(old, new, AppEvent::ConnectionUpdated(v)),
    ensures
        exists|i: int| 0 <= i < new.connections@.len() && #[trigger] new.connections@[i] == v,
        new.connections@.len() == old.connections@.len() + if view_index(old.connections@, v.key@) >= 0 { 0int } else { 1int },
{
    lemma_view_index(old.connections@, v.key@);
    let i = view_index(old.connections@, v.key@);
    let base = if i >= 0 { old.connections@.remove(i) } else { old.connections@ };
    lemma_newest_pos(base, v.last_seen);
    assert(new.connections@[newest_pos(base, v.last_seen)] == v);
}

/// Acts on one input and returns whether to quit. Tab moves the focus to
/// the next shown column; Up, Down, PgUp and PgDn move the list's selection
/// when the list has the focus and scroll the detail panel when it has; Top
/// and Bottom move the list's selection whatever has the focus.
pub fn handle_input(input: InputEvent, state: &mut AppState) -> (quit: bool)
    requires
        input == InputEvent::Down && old(state).focus == Pane::List ==> old(state).selected_index < usize::MAX,
    ensures
        quit == (input == InputEvent::Quit),
        final(state).connections == old(state).connections,
        final(state).endpoints == old(state).endpoints,
        final(state).ipinfo_cache == old(state).ipinfo_cache,
        final(state).show_globe == old(state).show_globe,
        final(state).show_list == old(state).show_list,
        final(state).show_detail == old(state).show_detail,
        final(state).ticks == old(state).ticks,
        final(state).selected_index == if moves_list(input, old(state).focus) {
            moved_selection(old(state).selected_index as int, old(state).connections@.len() as int, input)
        } else {
            old(state).selected_index as int
        },
        final(state).detail_scroll == if old(state).focus == Pane::Detail {
            scrolled(old(state).detail_scroll as int, input)
        } else {
            old(state).detail_scroll as int
        },
        final(state).focus == if input == InputEvent::NextPane {
            spec_next_pane(old(state).focus, old(state).show_globe, old(state).show_list, old(state).show_detail)
        } else {
            old(state).focus
        },
{
    if input == InputEvent::Quit {
        return true;
    }
    if input == InputEvent::NextPane {
        state.focus = next_pane(state.focus, state.show_globe, state.show_list, state.show_detail);
        return false;
    }
    let on_list = match input {
        InputEvent::Top | InputEvent::Bottom => true,
        _ => state.focus == Pane::List,
    };
    if on_list && state.connections.len() > 0 {
        let sel = state.selected_index;
        let last = state.connections.len() - 1;
        state.selected_index = match input {
            InputEvent::Down => {
                let next = sel + 1;
                if next < last { next } else { last }
            },
            InputEvent::PageDown => if sel < last && last - sel > PAGE_ROWS { sel + PAGE_ROWS } else { last },
            InputEvent::Up => if sel > 0 { sel - 1 } else { 0 },
            InputEvent::PageUp => if sel > PAGE_ROWS { sel - PAGE_ROWS } else { 0 },
            InputEvent::Top => 0,
            InputEvent::Bottom => last,
            _ => sel,
        };
    }
    if state.focus == Pane::Detail {
        let sc = state.detail_scroll;
        state.detail_scroll = match input {
            InputEvent::Down => if sc < usize::MAX { sc + 1 } else { sc },
            InputEvent::PageDown => if sc <= usize::MAX - PAGE_ROWS { sc + PAGE_ROWS } else { usize::MAX },
            InputEvent::Up => if sc > 0 { sc - 1 } else { 0 },
            InputEvent::PageUp => if sc > PAGE_ROWS { sc - PAGE_ROWS } else { 0 },
            _ => sc,
        };
    }
    false
}

/// Tab keeps the focus on a shown column, leaves it for another one whenever
/// another is shown, and visits every shown column within three presses.
pub proof fn law_tab_cycles_shown_columns(p: Pane, q: Pane, g: bool, l: bool, d: bool)
    requires
        pane_shown(p, g, l, d),
        pane_shown(q, g, l, d),
    ensures
        pane_shown(spec_next_pane(p, g, l, d), g, l, d),
        p != q ==> spec_next_pane(p, g, l, d) != p,
        q == p || q == spec_next_pane(p, g, l, d)
            || q == spec_next_pane(spec_next_pane(p, g, l, d), g, l, d),
{
}

/// Any input keeps a selection that is on a non-empty list on it.
pub proof fn law_navigation_stays_on_list(sel: int, len: int, input: InputEvent)
    requires
        0 <= sel < len,
    ensures
        0 <= moved_selection(sel, len, input) < len,
{
}

/// A rectangle of terminal cells.
#[derive(Clone, Copy, Debug, PartialEq, Eq, Structural)]
pub struct Rect {
    pub x: u16,
    pub y: u16,
    pub width: u16,
    pub height: u16,
}

/// The areas of the enabled columns.
#[derive(Clone, Copy, Debug, PartialEq, Eq, Structural)]
pub struct LayoutChunks {
    pub globe: Option<Rect>,
    pub list: Option<Rect>,
    pub detail: Option<Rect>,
}

/// `area` as `ratatui`'s `Rect::new` makes it: width and height cut so that
/// its right and bottom edges stay within `u16`.
pub open spec fn clamped(area: Rect) -> Rect {
    Rect {
        x: area.x,
        y: area.y,
        width: if area.width > u16::MAX - area.x { (u16::MAX - area.x) as u16 } else { area.width },
        height: if area.height > u16::MAX - area.y { (u16::MAX - area.y) as u16 } else { area.height },
    }
}

/// `r` lies within `outer`: on the same rows, between its left and right edges.
pub open spec fn within(r: Rect, outer: Rect) -> bool {
    &&& r.y == outer.y
    &&& r.height == outer.height
    &&& outer.x <= r.x
    &&& r.x + r.width <= outer.x + outer.width
}

/// `a` ends at or before the column where `b` starts.
pub open spec fn left_of(a: Rect, b: Rect) -> bool {
    a.x + a.width <= b.x
}

/// The two areas that `ratatui` gives when it splits `area` side by side
/// into `first` and `second` parts of `total`.
pub uninterp spec fn layout_halves(area: Rect, first: u32, second: u32, total: u32) -> (Rect, Rect);

/// `Layout::default().direction(Horizontal).constraints([Ratio(first, total),
/// Ratio(second, total)]).split(Rect::new(..))`: the two areas are named, a
/// function of the arguments alone (the solver's result; its cache only
/// memoises it). The solver holds every boundary within the area and each
/// area's start before its end as required constraints, and keeps the areas
/// side by side with no gap between them (spacers of size 0 at the strength
/// just below required, which the required constraints always leave
/// possible); each area spans the rows of the area.
#[verifier::external_body]
fn split_in_two(area: Rect, first: u32, second: u32, total: u32) -> (r: (Rect, Rect))
    ensures
        r == layout_halves(area, first, second, total),
        within(r.0, clamped(area)),
        within(r.1, clamped(area)),
        left_of(r.0, r.1),
{
    let chunks = ratatui::layout::Layout::default()
        .direction(ratatui::layout::Direction::Horizontal)
        .constraints([ratatui::layout::Constraint::Ratio(first, total), ratatui::layout::Constraint::Ratio(second, total)])
        .split(ratatui::layout::Rect::new(area.x, area.y, area.width, area.height));
    (
        Rect { x: chunks[0].x, y: chunks[0].y, width: chunks[0].width, height: chunks[0].height },
        Rect { x: chunks[1].x, y: chunks[1].y, width: chunks[1].width, height: chunks[1].height },
    )
}

/// The columns, side by side: globe, list and detail take 30%, 35% and 35%
/// of the width when all are shown; when one is hidden the other two share
/// the width in the same proportion (30 to 35, or 35 to 35); a column shown
/// alone fills the whole area.
pub open spec fn spec_split(area: Rect, show_globe: bool, show_list: bool, show_detail: bool) -> LayoutChunks {
    if show_globe && show_list && show_detail {
        let outer = layout_halves(area, 30, 70, 100);
        let inner = layout_halves(outer.1, 35, 35, 70);
        LayoutChunks { globe: Some(outer.0), list: Some(inner.0), detail: Some(inner.1) }
    } else if show_globe && show_list {
        let h = layout_halves(area, 30, 35, 65);
        LayoutChunks { globe: Some(h.0), list: Some(h.1), detail: None }
    } else if show_globe && show_detail {
        let h = layout_halves(area, 30, 35, 65);
        LayoutChunks { globe: Some(h.0), list: None, detail: Some(h.1) }
    } else if show_list && show_detail {
        let h = layout_halves(area, 35, 35, 70);
        LayoutChunks { globe: None, list: Some(h.0), detail: Some(h.1) }
    } else {
        LayoutChunks {
            globe: if show_globe { Some(area) } else { None },
            list: if show_list { Some(area) } else { None },
            detail: if show_detail { Some(area) } else { None },
        }
    }
}

/// `area` reaches no further than `u16` allows, as every `ratatui` area does.
pub open spec fn fits(area: Rect) -> bool {
    area.x + area.width <= u16::MAX && area.y + area.height <= u16::MAX
}

/// The shown columns' areas lie within `area` and stand left to right,
/// globe, list, detail, without overlapping.
pub open spec fn columns_in_order(l: LayoutChunks, area: Rect) -> bool {
    &&& l.globe matches Some(r) ==> within(r, area)
    &&& l.list matches Some(r) ==> within(r, area)
    &&& l.detail matches Some(r) ==> within(r, area)
    &&& l.globe is Some && l.list is Some ==> left_of(l.globe->0, l.list->0)
    &&& l.list is Some && l.detail is Some ==> left_of(l.list->0, l.detail->0)
    &&& l.globe is Some && l.detail is Some ==> left_of(l.globe->0, l.detail->0)
}

/// The areas of the columns that `config` enables. For an area that fits
/// within `u16`, every column's area lies within it and the columns stand
/// left to right without overlapping.
pub fn split(area: Rect, config: &Config) -> (l: LayoutChunks)
    ensures
        l == spec_split(area, config.show_globe, config.show_list, config.show_detail),
        fits(area) ==> columns_in_order(l, area),
{
    assert(fits(area) ==> clamped(area) == area);
    let (g, li, d) = (config.show_globe, config.show_list, config.show_detail);
    if g && li && d {
        let (globe, rest) = split_in_two(area, 30, 70, 100);
        let (list, detail) = split_in_two(rest, 35, 35, 70);
        LayoutChunks { globe: Some(globe), list: Some(list), detail: Some(detail) }
    } else if g && li {
        let (globe, list) = split_in_two(area, 30, 35, 65);
        LayoutChunks { globe: Some(globe), list: Some(list), detail: None }
    } else if g && d {
        let (globe, detail) = split_in_two(area, 30, 35, 65);
        LayoutChunks { globe: Some(globe), list: None, detail: Some(detail) }
    } else if li && d {
        let (list, detail) = split_in_two(area, 35, 35, 70);
        LayoutChunks { globe: None, list: Some(list), detail: Some(detail) }
    } else {
        LayoutChunks {
            globe: if g { Some(area) } else { None },
            list: if li { Some(area) } else { None },
            detail: if d { Some(area) } else { None },
        }
    }
}

/// Each column has an area exactly when it is enabled, and a column shown
/// alone fills the whole area.
pub proof fn law_split_follows_flags(area: Rect, g: bool, l: bool, d: bool)
    ensures
        spec_split(area, g, l, d).globe is Some <==> g,
        spec_split(area, g, l, d).list is Some <==> l,
        spec_split(area, g, l, d).detail is Some <==> d,
        g && !l && !d ==> spec_split(area, g, l, d).globe == Some(area),
        !g && l && !d ==> spec_split(area, g, l, d).list == Some(area),
        !g && !l && d ==> spec_split(area, g, l, d).detail == Some(area),
{
}

/// The protocol cell of the list: the transport, then `/` and the
/// application protocol when one is known.
pub open spec fn protocol_cell(app: Option<crate::model::AppProtocolModel>, t: crate::model::TransportModel) -> Seq<char> {
    let base = transport_text(t);
    match app {
        Some(crate::model::AppProtocolModel::Http) => base + seq!['/', 'H', 'T', 'T', 'P'],
        Some(crate::model::AppProtocolModel::Https) => base + seq!['/', 'H', 'T', 'T', 'P', 'S'],
        Some(crate::model::AppProtocolModel::Ssh) => base + seq!['/', 'S', 'S', 'H'],
        Some(crate::model::AppProtocolModel::Other(name)) => base + seq!['/'] + name,
        _ => base,
    }
}

/// The protocol cell for a connection of flow `key`.
pub fn format_protocol(app: Option<&ApplicationProtocol>, key: &ConnectionKey) -> (s: String)
    ensures
        s@ == protocol_cell(
            match app {
                Some(a) => Some(a@),
                None => None,
            },
            key.protocol@,
        ),
{
    let mut s = key.protocol.to_string();
    match app {
        Some(ApplicationProtocol::Http) => {
            proof { reveal_strlit("/HTTP"); }
            s.append("/HTTP");
        },
        Some(ApplicationProtocol::Https) => {
            proof { reveal_strlit("/HTTPS"); }
            s.append("/HTTPS");
        },
        Some(ApplicationProtocol::Ssh) => {
            proof { reveal_strlit("/SSH"); }
            s.append("/SSH");
        },
        Some(ApplicationProtocol::Other(name)) => {
            proof { reveal_strlit("/"); }
            s.append("/");
            s.append(name.as_str());
        },
        _ => {},
    }
    assert(s@ =~= protocol_cell(
        match app {
            Some(a) => Some(a@),
            None => None,
        },
        key.protocol@,
    ));
    s
}

/// `now - ts`, held to the range of `i64`.
pub open spec fn saturating_delta(now: i64, ts: i64) -> int {
    if now - ts > i64::MAX {
        i64::MAX as int
    } else if now - ts < i64::MIN {
        i64::MIN as int
    } else {
        now - ts
    }
}

/// How long ago `ts` was at `now`: seconds under a minute, whole minutes
/// under an hour, whole hours otherwise.
pub open spec fn relative_text(ts: i64, now: i64) -> Seq<char> {
    let d = saturating_delta(now, ts);
    if d < 60 {
        signed_decimal(d) + seq!['s', ' ', 'a', 'g', 'o']
    } else if d < 3600 {
        signed_decimal(d / 60) + seq!['m', ' ', 'a', 'g', 'o']
    } else {
        signed_decimal(d / 3600) + seq!['h', ' ', 'a', 'g', 'o']
    }
}

/// The "last seen" cell for a connection last seen at `timestamp`, at `now`.
pub fn format_relative_at(timestamp: i64, now: i64) -> (s: String)
    ensures
        s@ == relative_text(timestamp, now),
{
    let delta: i64 = if timestamp > 0 && now < i64::MIN + timestamp {
        i64::MIN
    } else if timestamp < 0 && now > i64::MAX + timestamp {
        i64::MAX
    } else {
        now - timestamp
    };
    assert(delta == saturating_delta(now, timestamp));
    if delta < 60 {
        let mut s = i64_to_string(delta);
        proof { reveal_strlit("s ago"); }
        s.append("s ago");
        assert(s@ =~= relative_text(timestamp, now));
        s
    } else if delta < 3600 {
        let mut s = i64_to_string(delta / 60);
        proof { reveal_strlit("m ago"); }
        s.append("m ago");
        assert(s@ =~= relative_text(timestamp, now));
        s
    } else {
        let mut s = i64_to_string(delta / 3600);
        proof { reveal_strlit("h ago"); }
        s.append("h ago");
        assert(s@ =~= relative_text(timestamp, now));
        s
    }
}

/// The "last seen" cell for a connection last seen at `timestamp`, now by the clock.
pub fn format_relative(timestamp: i64) -> (s: String)
    ensures
        exists|now: i64| s@ == #[trigger] relative_text(timestamp, now),
{
    let now = crate::clock::now_timestamp();
    format_relative_at(timestamp, now)
}

/// The marker drawn for an endpoint at animation step `tick`: `o`, `*`, `.`, `+` in turn.
pub open spec fn spec_marker(tick: u64) -> char {
    if tick % 4 == 0 {
        'o'
    } else if tick % 4 == 1 {
        '*'
    } else if tick % 4 == 2 {
        '.'
    } else {
        '+'
    }
}

/// The marker drawn for an endpoint at animation step `tick`.
pub fn marker_symbol(tick: u64) -> (c: char)
    ensures
        c == spec_marker(tick),
{
    let r = tick % 4;
    if r == 0 {
        'o'
    } else if r == 1 {
        '*'
    } else if r == 2 {
        '.'
    } else {
        '+'
    }
}

/// The index of the first cache entry for `ip`, or -1.
pub open spec fn cache_index(c: Seq<(IpAddr, String)>, ip: IpAddr) -> int
    decreases c.len(),
{
    if c.len() == 0 {
        -1
    } else {
        let r = cache_index(c.drop_last(), ip);
        if r >= 0 {
            r
        } else if c.last().0 == ip {
            c.len() - 1
        } else {
            -1
        }
    }
}

proof fn lemma_cache_index(c: Seq<(IpAddr, String)>, ip: IpAddr)
    ensures
        -1 <= cache_index(c, ip) < c.len(),
        cache_index(c, ip) >= 0 ==> c[cache_index(c, ip)].0 == ip
            && forall|j: int| 0 <= j < cache_index(c, ip) ==> c[j].0 != ip,
        cache_index(c, ip) == -1 ==> forall|j: int| 0 <= j < c.len() ==> c[j].0 != ip,
    decreases c.len(),
{
    if c.len() > 0 {
        lemma_cache_index(c.drop_last(), ip);
        assert forall|j: int| 0 <= j < c.len() - 1 implies c.drop_last()[j] == c[j] by {}
    }
}

/// The cache after keeping `text` for `ip`: it replaces the entry for `ip`,
/// or is appended when there is none.
pub open spec fn cache_put(c: Seq<(IpAddr, String)>, ip: IpAddr, text: String) -> Seq<(IpAddr, String)> {
    if cache_index(c, ip) >= 0 {
        c.update(cache_index(c, ip), (ip, text))
    } else {
        c.push((ip, text))
    }
}

/// What the detail panel does for the `ipinfo` lines of an address.
pub enum IpinfoStep {
    /// The address is not private: no `ipinfo` lines.
    Skip,
    /// The output fetched before for the address.
    Cached(String),
    /// Run `ipinfo` for the address and hand its outcome to `ipinfo_fetched`.
    Fetch,
}

impl AppState {
    fn cache_position(&self, ip: IpAddr) -> (r: Option<usize>)
        ensures
            match r {
                Some(i) => i as int == cache_index(self.ipinfo_cache@, ip) && i < self.ipinfo_cache@.len(),
                None => cache_index(self.ipinfo_cache@, ip) == -1,
            },
    {
        proof { lemma_cache_index(self.ipinfo_cache@, ip); }
        let mut i: usize = 0;
        while i < self.ipinfo_cache.len()
            invariant
                i <= self.ipinfo_cache@.len(),
                forall|j: int| 0 <= j < i ==> self.ipinfo_cache@[j].0 != ip,
                -1 <= cache_index(self.ipinfo_cache@, ip) < self.ipinfo_cache@.len(),
                cache_index(self.ipinfo_cache@, ip) >= 0 ==> self.ipinfo_cache@[cache_index(self.ipinfo_cache@, ip)].0 == ip
                    && forall|j: int| 0 <= j < cache_index(self.ipinfo_cache@, ip) ==> self.ipinfo_cache@[j].0 != ip,
                cache_index(self.ipinfo_cache@, ip) == -1 ==> forall|j: int| 0 <= j < self.ipinfo_cache@.len() ==> self.ipinfo_cache@[j].0 != ip,
            decreases self.ipinfo_cache@.len() - i,
        {
            if self.ipinfo_cache[i].0 == ip {
                return Some(i);
            }
            i = i + 1;
        }
        None
    }

    /// The `ipinfo` output fetched before for `ip`, if any.
    pub fn cached_ipinfo(&self, ip: IpAddr) -> (r: Option<String>)
        ensures
            r == (if cache_index(self.ipinfo_cache@, ip) >= 0 {
                Some(self.ipinfo_cache@[cache_index(self.ipinfo_cache@, ip)].1)
            } else {
                None
            }),
    {
        match self.cache_position(ip) {
            Some(i) => Some(self.ipinfo_cache[i].1.clone()),
            None => None,
        }
    }

    /// Keeps `text` as the `ipinfo` output for `ip`, replacing what was kept before.
    pub fn remember_ipinfo(&mut self, ip: IpAddr, text: String)
        ensures
            final(self).ipinfo_cache@ == cache_put(old(self).ipinfo_cache@, ip, text),
            final(self).connections == old(self).connections,
            final(self).endpoints == old(self).endpoints,
            final(self).selected_index == old(self).selected_index,
            final(self).focus == old(self).focus,
            final(self).detail_scroll == old(self).detail_scroll,
            final(self).show_globe == old(self).show_globe,
            final(self).show_list == old(self).show_list,
            final(self).show_detail == old(self).show_detail,
            final(self).ticks == old(self).ticks,
    {
        match self.cache_position(ip) {
            Some(i) => self.ipinfo_cache.set(i, (ip, text)),
            None => self.ipinfo_cache.push((ip, text)),
        }
    }
}

impl AppState {
    /// The next step for the `ipinfo` lines of `ip`: nothing for an address
    /// that is not private, the kept output when there is one, else a fetch.
    pub fn ipinfo_step(&self, ip: IpAddr) -> (r: IpinfoStep)
        ensures
            !spec_is_private_ip(ip) ==> r is Skip,
            spec_is_private_ip(ip) && cache_index(self.ipinfo_cache@, ip) >= 0
                ==> r == IpinfoStep::Cached(self.ipinfo_cache@[cache_index(self.ipinfo_cache@, ip)].1),
            spec_is_private_ip(ip) && cache_index(self.ipinfo_cache@, ip) < 0 ==> r is Fetch,
    {
        if !is_private_ip(ip) {
            return IpinfoStep::Skip;
        }
        match self.cached_ipinfo(ip) {
            Some(text) => IpinfoStep::Cached(text),
            None => IpinfoStep::Fetch,
        }
    }

    /// Takes what `ipinfo` printed for `ip` and whether it succeeded: the
    /// text to show, which is also kept for `ip`, or nothing, and then the
    /// state stays as it was.
    pub fn ipinfo_fetched(&mut self, ip: IpAddr, success: bool, stdout: &[u8]) -> (r: Option<String>)
        ensures
            match r {
                Some(t) => ipinfo_text(success, stdout@) == Some(t@)
                    && final(self).ipinfo_cache@ == cache_put(old(self).ipinfo_cache@, ip, t),
                None => ipinfo_text(success, stdout@) is None
                    && final(self).ipinfo_cache == old(self).ipinfo_cache,
            },
            final(self).connections == old(self).connections,
            final(self).endpoints == old(self).endpoints,
            final(self).selected_index == old(self).selected_index,
            final(self).focus == old(self).focus,
            final(self).detail_scroll == old(self).detail_scroll,
            final(self).show_globe == old(self).show_globe,
            final(self).show_list == old(self).show_list,
            final(self).show_detail == old(self).show_detail,
            final(self).ticks == old(self).ticks,
    {
        match ipinfo_result(success, stdout) {
            Some(text) => {
                self.remember_ipinfo(ip, text.clone());
                Some(text)
            },
            None => None,
        }
    }
}

/// The text of an address and port in the list and the detail panel: the
/// address as `std` writes it, `:`, and the port in decimal.
pub open spec fn endpoint_text(ip: IpAddr, port: u16) -> Seq<char> {
    ip_text(ip) + seq![':'] + decimal(port as nat)
}

/// The address-and-port cell for `ip` and `port`.
pub fn endpoint_cell(ip: IpAddr, port: u16) -> (s: String)
    ensures
        s@ == endpoint_text(ip, port),
{
    let mut s = ip_to_string(ip);
    push_char(&mut s, ':');
    push_decimal(&mut s, port as u64);
    s
}

/// The traffic cell: bytes sent, `/`, bytes received, both in decimal.
pub open spec fn bytes_text(sent: u64, recv: u64) -> Seq<char> {
    decimal(sent as nat) + seq!['/'] + decimal(recv as nat)
}

/// The traffic cell for a connection that sent `sent` and received `recv` bytes.
pub fn bytes_cell(sent: u64, recv: u64) -> (s: String)
    ensures
        s@ == bytes_text(sent, recv),
{
    let mut s = String::new();
    push_decimal(&mut s, sent);
    push_char(&mut s, '/');
    push_decimal(&mut s, recv);
    s
}

/// After `ipinfo` output is kept for an address, it is what the cache gives back.
pub proof fn law_ipinfo_read_after_write(c: Seq<(IpAddr, String)>, ip: IpAddr, text: String)
    ensures
        ({
            let c2 = if cache_index(c, ip) >= 0 { c.update(cache_index(c, ip), (ip, text)) } else { c.push((ip, text)) };
            cache_index(c2, ip) >= 0 && c2[cache_index(c2, ip)].1 == text
        }),
{
    lemma_cache_index(c, ip);
    let c2 = if cache_index(c, ip) >= 0 { c.update(cache_index(c, ip), (ip, text)) } else { c.push((ip, text)) };
    lemma_cache_index(c2, ip);
    if cache_index(c, ip) >= 0 {
        let i = cache_index(c, ip);
        assert(c2[i].0 == ip);
        if cache_index(c2, ip) < i {
            assert(c2[cache_index(c2, ip)] == c[cache_index(c2, ip)]);
        }
    } else {
        assert(c2[c.len() as int].0 == ip);
        if cache_index(c2, ip) < c.len() {
            assert(c2[cache_index(c2, ip)] == c[cache_index(c2, ip)]);
        }
    }
}

/// The direction cell of the list: `IN`, `OUT` or `?`.
pub open spec fn direction_text(d: ConnectionDirection) -> Seq<char> {
    match d {
        ConnectionDirection::Incoming => seq!['I', 'N'],
        ConnectionDirection::Outgoing => seq!['O', 'U', 'T'],
        ConnectionDirection::Unknown => seq!['?'],
    }
}

/// The direction cell for a connection.
pub fn direction_cell(d: ConnectionDirection) -> (s: String)
    ensures
        s@ == direction_text(d),
{
    match d {
        ConnectionDirection::Incoming => {
            proof { reveal_strlit("IN"); }
            let s = owned("IN");
            assert(s@ =~= direction_text(d));
            s
        },
        ConnectionDirection::Outgoing => {
            proof { reveal_strlit("OUT"); }
            let s = owned("OUT");
            assert(s@ =~= direction_text(d));
            s
        },
        ConnectionDirection::Unknown => {
            proof { reveal_strlit("?"); }
            let s = owned("?");
            assert(s@ =~= direction_text(d));
            s
        },
    }
}

/// What an `ipinfo` run contributes: nothing unless it succeeded; otherwise
/// its output, read as UTF-8 with invalid bytes replaced and trimmed, or
/// nothing when that is empty.
pub open spec fn ipinfo_text(success: bool, stdout: Seq<u8>) -> Option<Seq<char>> {
    if !success || trim(lossy_text(stdout)).len() == 0 {
        None
    } else {
        Some(trim(lossy_text(stdout)))
    }
}

/// The text to show and keep from an `ipinfo` run.
pub fn ipinfo_result(success: bool, stdout: &[u8]) -> (r: Option<String>)
    ensures
        match r {
            Some(t) => ipinfo_text(success, stdout@) == Some(t@),
            None => ipinfo_text(success, stdout@) is None,
        },
{
    if !success {
        return None;
    }
    let text = utf8_lossy(stdout);
    let cs = chars_of(text.as_str());
    let trimmed = trim_exec(cs.as_slice());
    if trimmed.len() == 0 {
        None
    } else {
        Some(string_from_chars(trimmed.as_slice()))
    }
}

} // verus!
