//! The host dashboard's activity log: a bounded list of timestamped lines,
//! and the lines written when the published status changes.

use crate::state::{ConnectionState, GatewayState, opt_text};
use crate::text::{chars_equal, chars_of, push_text, text_string};
use vstd::prelude::*;

verus! {

/// How many lines the activity log keeps.
pub const ACTIVITY_LOG_CAP: usize = 400;

/// One line of the activity log.
pub struct ActivityEntry {
    /// When it was written (Unix milliseconds).
    pub ts_ms: u64,
    /// "info", "warn" or "error".
    pub level: String,
    /// What happened.
    pub message: String,
}

/// An entry as plain values: time, level, message.
pub open spec fn entry_view(e: ActivityEntry) -> (u64, Seq<char>, Seq<char>) {
    (e.ts_ms, e.level@, e.message@)
}

/// The newest `n` items of `s` (all of them when there are fewer).
pub open spec fn keep_last<T>(s: Seq<T>, n: nat) -> Seq<T> {
    if s.len() > n {
        s.skip(s.len() - n)
    } else {
        s
    }
}

/// The dashboard's activity log: never more than [`ACTIVITY_LOG_CAP`]
/// lines, oldest first.
pub struct ActivityLog {
    entries: Vec<ActivityEntry>,
}

impl View for ActivityLog {
    type V = Seq<(u64, Seq<char>, Seq<char>)>;

    closed spec fn view(&self) -> Seq<(u64, Seq<char>, Seq<char>)> {
        self.entries@.map_values(|e: ActivityEntry| entry_view(e))
    }
}

impl ActivityLog {
    #[verifier::type_invariant]
    spec fn bounded(self) -> bool {
        self.entries@.len() <= ACTIVITY_LOG_CAP
    }

    /// A log holding the start-up line, "Dashboard ready — waiting for
    /// laptop agent", written at `ts_ms`.
    pub fn new(ts_ms: u64) -> (log: Self)
        ensures
            log@ == seq![(ts_ms, "info"@, "Dashboard ready — waiting for laptop agent"@)],
    {
        let mut entries: Vec<ActivityEntry> = Vec::new();
        entries.push(
            ActivityEntry {
                ts_ms,
                level: text_string("info"),
                message: text_string("Dashboard ready — waiting for laptop agent"),
            },
        );
        let log = ActivityLog { entries };
        assert(log@ =~= seq![(ts_ms, "info"@, "Dashboard ready — waiting for laptop agent"@)]);
        log
    }

    /// Appends a line; when the log is full its oldest line goes.
    pub fn push(&mut self, ts_ms: u64, level: &str, message: String)
        ensures
            final(self)@ == keep_last(
                old(self)@.push((ts_ms, level@, message@)),
                ACTIVITY_LOG_CAP as nat,
            ),
            final(self)@.len() <= ACTIVITY_LOG_CAP,
    {
        proof {
            use_type_invariant(&*self);
        }
        let mut entries: Vec<ActivityEntry> = Vec::new();
        std::mem::swap(&mut entries, &mut self.entries);
        let ghost before = entries@;
        entries.push(ActivityEntry { ts_ms, level: text_string(level), message });
        let ghost pushed = entries@;
        assert(pushed.map_values(|e: ActivityEntry| entry_view(e)) =~= before.map_values(
            |e: ActivityEntry| entry_view(e),
        ).push((ts_ms, level@, message@)));
        if entries.len() > ACTIVITY_LOG_CAP {
            entries.remove(0);
            assert(entries@ =~= pushed.skip(1));
        }
        self.entries = entries;
        assert(self@ =~= keep_last(
            before.map_values(|e: ActivityEntry| entry_view(e)).push((ts_ms, level@, message@)),
            ACTIVITY_LOG_CAP as nat,
        ));
    }

    /// The lines, oldest first.
    pub fn entries(&self) -> (r: &[ActivityEntry])
        ensures
            r@.map_values(|e: ActivityEntry| entry_view(e)) == self@,
            r@.len() <= ACTIVITY_LOG_CAP,
    {
        proof {
            use_type_invariant(self);
        }
        self.entries.as_slice()
    }
}

/// However many lines are written, the log holds the newest of them: keeping
/// the last lines after each push is keeping the last lines of everything
/// pushed.
pub proof fn lemma_log_keeps_newest<T>(history: Seq<T>, item: T, n: nat)
    ensures
        keep_last(keep_last(history, n).push(item), n) == keep_last(history.push(item), n),
        keep_last(history.push(item), n).len() == if history.len() + 1 > n {
            n
        } else {
            history.len() + 1
        },
        n > 0 ==> keep_last(history.push(item), n).last() == item,
{
    let k = keep_last(history, n);
    if history.len() > n {
        assert(keep_last(k.push(item), n) =~= keep_last(history.push(item), n));
    } else {
        assert(k == history);
    }
    if n > 0 {
        let s = history.push(item);
        if s.len() > n {
            assert(s.skip(s.len() - n).last() == s.last());
        }
    }
}

/// The name `Debug` prints for a connection state.
pub open spec fn connection_name(c: ConnectionState) -> Seq<char> {
    match c {
        ConnectionState::Stopped => "Stopped"@,
        ConnectionState::Starting => "Starting"@,
        ConnectionState::WaitingForPeer => "WaitingForPeer"@,
        ConnectionState::Connected => "Connected"@,
        ConnectionState::Reconnecting => "Reconnecting"@,
        ConnectionState::Failed => "Failed"@,
    }
}

/// The name `Debug` prints for a connection state.
pub fn connection_label(c: ConnectionState) -> (s: &'static str)
    ensures
        s@ == connection_name(c),
{
    match c {
        ConnectionState::Stopped => "Stopped",
        ConnectionState::Starting => "Starting",
        ConnectionState::WaitingForPeer => "WaitingForPeer",
        ConnectionState::Connected => "Connected",
        ConnectionState::Reconnecting => "Reconnecting",
        ConnectionState::Failed => "Failed",
    }
}

/// What the status watcher last saw.
pub struct ActivityWatch {
    /// Tunnel state.
    pub connection: ConnectionState,
    /// Laptop connected.
    pub laptop_connected: bool,
    /// ENET carrier up.
    pub link_up: bool,
    /// Vehicle awake.
    pub awake: bool,
    /// Last non-empty peer endpoint text.
    pub peer: String,
}

/// A watcher state as plain values.
pub struct WatchModel {
    /// Tunnel state.
    pub connection: ConnectionState,
    /// Laptop connected.
    pub laptop_connected: bool,
    /// ENET carrier up.
    pub link_up: bool,
    /// Vehicle awake.
    pub awake: bool,
    /// Last non-empty peer endpoint text.
    pub peer: Seq<char>,
}

impl View for ActivityWatch {
    type V = WatchModel;

    open spec fn view(&self) -> WatchModel {
        WatchModel {
            connection: self.connection,
            laptop_connected: self.laptop_connected,
            link_up: self.link_up,
            awake: self.awake,
            peer: self.peer@,
        }
    }
}

impl ActivityWatch {
    /// Before the first look: starting, nothing connected, no peer.
    pub fn new() -> (w: Self)
        ensures
            w@ == (WatchModel {
                connection: ConnectionState::Starting,
                laptop_connected: false,
                link_up: false,
                awake: false,
                peer: Seq::empty(),
            }),
    {
        let w = ActivityWatch {
            connection: ConnectionState::Starting,
            laptop_connected: false,
            link_up: false,
            awake: false,
            peer: String::new(),
        };
        assert(w@.peer =~= Seq::<char>::empty());
        w
    }
}

/// A line to write: level and message.
pub struct ActivityLine {
    /// "info" or "warn".
    pub level: &'static str,
    /// What changed.
    pub message: String,
}

/// A line as plain values.
pub open spec fn line_view(l: ActivityLine) -> (Seq<char>, Seq<char>) {
    (l.level@, l.message@)
}

/// The line for a laptop that just connected, with its endpoint if known.
pub open spec fn laptop_line(peer: Seq<char>) -> Seq<char> {
    if peer.len() == 0 {
        "Laptop connected"@
    } else {
        "Laptop connected · "@ + peer
    }
}

/// The line for a change of tunnel state.
pub open spec fn connection_lines(w: WatchModel, st: GatewayState) -> Seq<(Seq<char>, Seq<char>)> {
    if st.connection != w.connection {
        seq![("info"@, "Tunnel state → "@ + connection_name(st.connection))]
    } else {
        Seq::empty()
    }
}

/// The line for a laptop that came or went.
pub open spec fn laptop_lines(w: WatchModel, st: GatewayState, peer: Seq<char>) -> Seq<
    (Seq<char>, Seq<char>),
> {
    if st.laptop_connected && !w.laptop_connected {
        seq![("info"@, laptop_line(peer))]
    } else if !st.laptop_connected && w.laptop_connected {
        seq![("warn"@, "Laptop disconnected"@)]
    } else {
        Seq::empty()
    }
}

/// The line for a new peer endpoint.
pub open spec fn endpoint_lines(w: WatchModel, peer: Seq<char>) -> Seq<(Seq<char>, Seq<char>)> {
    if peer != w.peer && peer.len() > 0 {
        seq![("info"@, "Peer endpoint · "@ + peer)]
    } else {
        Seq::empty()
    }
}

/// The line for an ENET link that came up (with the car's address if
/// known) or went down.
pub open spec fn link_lines(w: WatchModel, st: GatewayState) -> Seq<(Seq<char>, Seq<char>)> {
    if st.vehicle.link_up && !w.link_up {
        seq![
            ("info"@, "Vehicle ENET · "@ + match opt_text(st.vehicle.discovered_ip) {
                Some(ip) => ip,
                None => "link up"@,
            }),
        ]
    } else if !st.vehicle.link_up && w.link_up {
        seq![("warn"@, "Vehicle ENET link down"@)]
    } else {
        Seq::empty()
    }
}

/// The line for a vehicle that woke or went to sleep.
pub open spec fn wake_lines(w: WatchModel, st: GatewayState) -> Seq<(Seq<char>, Seq<char>)> {
    if st.vehicle.awake && !w.awake {
        seq![("info"@, "Vehicle state → AWAKE"@)]
    } else if !st.vehicle.awake && w.awake {
        seq![("info"@, "Vehicle state → SLEEP"@)]
    } else {
        Seq::empty()
    }
}

/// The lines written when the watcher, having seen `w`, now sees the status
/// `st` and the peer endpoint text `peer`: one for each change, in this
/// order: tunnel state, laptop, peer endpoint, ENET link, vehicle wake.
pub open spec fn activity_lines(
    w: WatchModel,
    st: GatewayState,
    peer: Seq<char>,
) -> Seq<(Seq<char>, Seq<char>)> {
    connection_lines(w, st) + laptop_lines(w, st, peer) + endpoint_lines(w, peer) + link_lines(w, st)
        + wake_lines(w, st)
}

/// What the watcher remembers after seeing `st` and `peer`.
pub open spec fn watch_after(w: WatchModel, st: GatewayState, peer: Seq<char>) -> WatchModel {
    WatchModel {
        connection: st.connection,
        laptop_connected: st.laptop_connected,
        link_up: st.vehicle.link_up,
        awake: st.vehicle.awake,
        peer: if peer != w.peer && peer.len() > 0 {
            peer
        } else {
            w.peer
        },
    }
}

/// The lines of `v` as plain values.
pub open spec fn lines_view(v: Seq<ActivityLine>) -> Seq<(Seq<char>, Seq<char>)> {
    v.map_values(|l: ActivityLine| line_view(l))
}

/// Appends a line.
fn add_line(lines: &mut Vec<ActivityLine>, level: &'static str, message: String)
    ensures
        lines_view(final(lines)@) == lines_view(old(lines)@) + seq![(level@, message@)],
{
    let ghost before = lines@;
    lines.push(ActivityLine { level, message });
    assert(lines_view(lines@) =~= lines_view(before) + seq![(level@, message@)]);
}

fn add_connection_line(lines: &mut Vec<ActivityLine>, w: &ActivityWatch, st: &GatewayState)
    ensures
        lines_view(final(lines)@) == lines_view(old(lines)@) + connection_lines(w@, *st),
{
    if st.connection != w.connection {
        let mut m = text_string("Tunnel state → ");
        push_text(&mut m, connection_label(st.connection));
        add_line(lines, "info", m);
    } else {
        assert(lines_view(lines@) + connection_lines(w@, *st) =~= lines_view(lines@));
    }
}

fn add_laptop_line(
    lines: &mut Vec<ActivityLine>,
    w: &ActivityWatch,
    st: &GatewayState,
    peer: &str,
    peer_len: usize,
)
    requires
        peer_len == peer@.len(),
    ensures
        lines_view(final(lines)@) == lines_view(old(lines)@) + laptop_lines(w@, *st, peer@),
{
    if st.laptop_connected && !w.laptop_connected {
        let m = if peer_len == 0 {
            text_string("Laptop connected")
        } else {
            let mut m = text_string("Laptop connected · ");
            push_text(&mut m, peer);
            m
        };
        add_line(lines, "info", m);
    } else if !st.laptop_connected && w.laptop_connected {
        add_line(lines, "warn", text_string("Laptop disconnected"));
    } else {
        assert(lines_view(lines@) + laptop_lines(w@, *st, peer@) =~= lines_view(lines@));
    }
}

fn add_endpoint_line(lines: &mut Vec<ActivityLine>, w: &ActivityWatch, peer: &str, new_peer: bool)
    requires
        new_peer == (peer@ != w@.peer && peer@.len() > 0),
    ensures
        lines_view(final(lines)@) == lines_view(old(lines)@) + endpoint_lines(w@, peer@),
{
    if new_peer {
        let mut m = text_string("Peer endpoint · ");
        push_text(&mut m, peer);
        add_line(lines, "info", m);
    } else {
        assert(lines_view(lines@) + endpoint_lines(w@, peer@) =~= lines_view(lines@));
    }
}

fn add_link_line(lines: &mut Vec<ActivityLine>, w: &ActivityWatch, st: &GatewayState)
    ensures
        lines_view(final(lines)@) == lines_view(old(lines)@) + link_lines(w@, *st),
{
    if st.vehicle.link_up && !w.link_up {
        let mut m = text_string("Vehicle ENET · ");
        match &st.vehicle.discovered_ip {
            Some(ip) => push_text(&mut m, ip.as_str()),
            None => push_text(&mut m, "link up"),
        }
        add_line(lines, "info", m);
    } else if !st.vehicle.link_up && w.link_up {
        add_line(lines, "warn", text_string("Vehicle ENET link down"));
    } else {
        assert(lines_view(lines@) + link_lines(w@, *st) =~= lines_view(lines@));
    }
}

fn add_wake_line(lines: &mut Vec<ActivityLine>, w: &ActivityWatch, st: &GatewayState)
    ensures
        lines_view(final(lines)@) == lines_view(old(lines)@) + wake_lines(w@, *st),
{
    if st.vehicle.awake && !w.awake {
        add_line(lines, "info", text_string("Vehicle state → AWAKE"));
    } else if !st.vehicle.awake && w.awake {
        add_line(lines, "info", text_string("Vehicle state → SLEEP"));
    } else {
        assert(lines_view(lines@) + wake_lines(w@, *st) =~= lines_view(lines@));
    }
}

/// Compares the status with what the watcher last saw, returns the lines to
/// write for what changed, and remembers the new status.
pub fn watch_status(w: &mut ActivityWatch, st: &GatewayState, peer: &str) -> (lines: Vec<
    ActivityLine,
>)
    ensures
        lines_view(lines@) == activity_lines(old(w)@, *st, peer@),
        final(w)@ == watch_after(old(w)@, *st, peer@),
{
    let peer_chars = chars_of(peer);
    let seen_chars = chars_of(w.peer.as_str());
    let new_peer = peer_chars.len() > 0 && !chars_equal(peer_chars.as_slice(), seen_chars.as_slice());
    let mut lines: Vec<ActivityLine> = Vec::new();
    assert(lines_view(lines@) =~= Seq::<(Seq<char>, Seq<char>)>::empty());
    add_connection_line(&mut lines, w, st);
    add_laptop_line(&mut lines, w, st, peer, peer_chars.len());
    add_endpoint_line(&mut lines, w, peer, new_peer);
    add_link_line(&mut lines, w, st);
    add_wake_line(&mut lines, w, st);
    assert(lines_view(lines@) =~= activity_lines(w@, *st, peer@));
    w.connection = st.connection;
    w.laptop_connected = st.laptop_connected;
    w.link_up = st.vehicle.link_up;
    w.awake = st.vehicle.awake;
    if new_peer {
        w.peer = text_string(peer);
    }
    lines
}

/// The watcher writes a line only for a change: looking twice at the same
/// status writes nothing the second time.
pub proof fn lemma_watch_quiet_when_unchanged(w: WatchModel, st: GatewayState, peer: Seq<char>)
    ensures
        activity_lines(watch_after(w, st, peer), st, peer) == Seq::<(Seq<char>, Seq<char>)>::empty(),
{
    let w2 = watch_after(w, st, peer);
    assert(peer.len() > 0 ==> w2.peer == peer);
    assert(activity_lines(w2, st, peer) =~= Seq::<(Seq<char>, Seq<char>)>::empty());
}

} // verus!
