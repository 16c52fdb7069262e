//! What the tray window shows of the service's status: the uptime, the status
//! line, the list of flows, and the notifications raised as the status changes.

use vstd::prelude::*;
use crate::text::{chars_of, decimal_text, push_char, push_decimal, str_eq};

verus! {

/// One audio flow as the service reports it.
#[derive(Debug, Clone)]
pub struct FlowInfo {
    pub name: String,
    pub source_ip: String,
    pub channels: u32,
    pub sample_rate: u32,
    pub direction: String,
    pub state: String,
}

impl Default for FlowInfo {
    fn default() -> (r: FlowInfo)
        ensures
            r.name@.len() == 0,
            r.source_ip@.len() == 0,
            r.channels == 0,
            r.sample_rate == 0,
            r.direction@.len() == 0,
            r.state@.len() == 0,
    {
        FlowInfo {
            name: String::new(),
            source_ip: String::new(),
            channels: 0,
            sample_rate: 0,
            direction: String::new(),
            state: String::new(),
        }
    }
}

// ---------------------------------------------------------------------------
// Uptime
// ---------------------------------------------------------------------------

/// Uptime as text: seconds under a minute, minutes and seconds under an hour,
/// hours and minutes beyond.
pub open spec fn uptime_text(secs: nat) -> Seq<char> {
    if secs < 60 {
        decimal_text(secs) + "s"@
    } else if secs < 3600 {
        decimal_text(secs / 60) + "m "@ + decimal_text(secs % 60) + "s"@
    } else {
        decimal_text(secs / 3600) + "h "@ + decimal_text((secs % 3600) / 60) + "m"@
    }
}

/// Uptime as text, such as `42s`, `2m 5s` or `1h 1m`.
pub fn format_uptime(secs: u64) -> (r: String)
    ensures
        r@ == uptime_text(secs as nat),
{
    let mut s = String::new();
    if secs < 60 {
        push_decimal(&mut s, secs);
        s.append("s");
    } else if secs < 3600 {
        push_decimal(&mut s, secs / 60);
        s.append("m ");
        push_decimal(&mut s, secs % 60);
        s.append("s");
    } else {
        push_decimal(&mut s, secs / 3600);
        s.append("h ");
        push_decimal(&mut s, (secs % 3600) / 60);
        s.append("m");
    }
    assert(s@ =~= uptime_text(secs as nat));
    s
}

// ---------------------------------------------------------------------------
// Status line and flows
// ---------------------------------------------------------------------------

/// The status line for the receive and transmit activity.
pub open spec fn status_line_text(rx_active: bool, tx_active: bool) -> Seq<char> {
    "Status: "@ + (if rx_active { "RX Active"@ } else { "RX Idle"@ }) + " / "@
        + (if tx_active { "TX Active"@ } else { "TX Idle"@ })
}

/// The status line, such as `Status: RX Active / TX Idle`.
pub fn status_line(rx_active: bool, tx_active: bool) -> (r: String)
    ensures
        r@ == status_line_text(rx_active, tx_active),
{
    let mut s = "Status: ".to_owned();
    s.append(if rx_active { "RX Active" } else { "RX Idle" });
    s.append(" / ");
    s.append(if tx_active { "TX Active" } else { "TX Idle" });
    s
}

/// One line of the flow list: direction, name, peer, channels, rate and state.
pub open spec fn flow_line_text(tag: Seq<char>, towards: Seq<char>, f: FlowInfo) -> Seq<char> {
    tag + ": "@ + f.name@ + " "@ + towards + " "@ + f.source_ip@ + " ("@ + decimal_text(f.channels as nat)
        + " ch @ "@ + decimal_text(f.sample_rate as nat) + "Hz) ["@ + f.state@ + "]\r\n"@
}

/// The lines of a list of flows.
pub open spec fn flow_lines_text(tag: Seq<char>, towards: Seq<char>, flows: Seq<FlowInfo>) -> Seq<char>
    decreases flows.len(),
{
    if flows.len() == 0 {
        Seq::empty()
    } else {
        flow_lines_text(tag, towards, flows.drop_last()) + flow_line_text(tag, towards, flows.last())
    }
}

/// The flow list: received flows, then transmitted ones, or a note that there
/// are none.
pub open spec fn flows_text_spec(rx: Seq<FlowInfo>, tx: Seq<FlowInfo>) -> Seq<char> {
    let t = flow_lines_text("RX"@, "from"@, rx) + flow_lines_text("TX"@, "to"@, tx);
    if t.len() == 0 { "No active flows"@ } else { t }
}

/// Append the line of one flow.
fn push_flow_line(s: &mut String, tag: &str, towards: &str, f: &FlowInfo)
    ensures
        final(s)@ == old(s)@ + flow_line_text(tag@, towards@, *f),
{
    s.append(tag);
    s.append(": ");
    s.append(f.name.as_str());
    s.append(" ");
    s.append(towards);
    s.append(" ");
    s.append(f.source_ip.as_str());
    s.append(" (");
    push_decimal(s, f.channels as u64);
    s.append(" ch @ ");
    push_decimal(s, f.sample_rate as u64);
    s.append("Hz) [");
    s.append(f.state.as_str());
    s.append("]\r\n");
    assert(s@ =~= old(s)@ + flow_line_text(tag@, towards@, *f));
}

/// Append the lines of a list of flows.
fn push_flow_lines(s: &mut String, tag: &str, towards: &str, flows: &Vec<FlowInfo>)
    ensures
        final(s)@ == old(s)@ + flow_lines_text(tag@, towards@, flows@),
{
    let mut i: usize = 0;
    while i < flows.len()
        invariant
            i <= flows@.len(),
            s@ == old(s)@ + flow_lines_text(tag@, towards@, flows@.take(i as int)),
        decreases flows@.len() - i,
    {
        push_flow_line(s, tag, towards, &flows[i]);
        proof {
            assert(flows@.take(i + 1).drop_last() =~= flows@.take(i as int));
        }
        i = i + 1;
        assert(s@ =~= old(s)@ + flow_lines_text(tag@, towards@, flows@.take(i as int)));
    }
    assert(flows@.take(flows@.len() as int) =~= flows@);
}

/// The flow list shown in the window.
pub fn flows_text(rx: &Vec<FlowInfo>, tx: &Vec<FlowInfo>) -> (r: String)
    ensures
        r@ == flows_text_spec(rx@, tx@),
{
    let mut s = String::new();
    push_flow_lines(&mut s, "RX", "from", rx);
    push_flow_lines(&mut s, "TX", "to", tx);
    assert(s@ =~= flow_lines_text("RX"@, "from"@, rx@) + flow_lines_text("TX"@, "to"@, tx@));
    if s.as_str().as_bytes().len() == 0 {
        proof {
            vstd::utf8::encode_utf8_decode_utf8(s@);
            assert(vstd::utf8::encode_utf8(s@) =~= Seq::<u8>::empty());
            assert(vstd::utf8::decode_utf8(Seq::<u8>::empty()) =~= Seq::<char>::empty());
        }
        "No active flows".to_owned()
    } else {
        proof {
            if s@.len() == 0 {
                assert(s@ =~= Seq::<char>::empty());
                assert(vstd::utf8::encode_utf8(s@) =~= Seq::<u8>::empty());
            }
        }
        s
    }
}

// ---------------------------------------------------------------------------
// Notifications
// ---------------------------------------------------------------------------

/// What the window remembers from the previous status, to notice changes.
#[derive(Debug, Clone, Copy)]
pub struct NotificationState {
    pub prev_rx_active: bool,
    pub prev_tx_active: bool,
    pub prev_flow_count: usize,
    pub notification_shown_start: bool,
}

/// A notification raised by a change of status.
#[derive(Debug, Clone, Copy, PartialEq, Eq)]
pub enum Notification {
    /// The service is running (once, when it first reports an uptime).
    ServiceRunning,
    /// Reception started.
    RxActive { channels: u32, sample_rate: u32 },
    /// Reception stopped.
    AudioLost,
    /// More flows than before; the received flow at this index is running.
    FlowActive { flow: usize },
}

/// A flow state that counts as running.
pub open spec fn is_running_state(state: Seq<char>) -> bool {
    state == "active"@ || state == "running"@
}

/// The index of the first running received flow, or the number of flows.
pub open spec fn first_running(flows: Seq<FlowInfo>) -> nat
    decreases flows.len(),
{
    if flows.len() == 0 {
        0
    } else if is_running_state(flows[0].state@) {
        0
    } else {
        1 + first_running(flows.drop_first())
    }
}

/// The notifications raised when the status changes from what `st` remembers.
pub open spec fn notifications_for(
    st: NotificationState,
    rx_active: bool,
    rx_channels: u32,
    sample_rate: u32,
    uptime_secs: u64,
    rx_flows: Seq<FlowInfo>,
    flow_count: nat,
) -> Seq<Notification> {
    let a: Seq<Notification> = if !st.notification_shown_start && uptime_secs > 0 {
        seq![Notification::ServiceRunning]
    } else {
        Seq::empty()
    };
    let b: Seq<Notification> = if !st.prev_rx_active && rx_active {
        seq![Notification::RxActive { channels: rx_channels, sample_rate }]
    } else {
        Seq::empty()
    };
    let c: Seq<Notification> = if st.prev_rx_active && !rx_active {
        seq![Notification::AudioLost]
    } else {
        Seq::empty()
    };
    let d: Seq<Notification> = if flow_count > st.prev_flow_count && first_running(rx_flows) < rx_flows.len() {
        seq![Notification::FlowActive { flow: first_running(rx_flows) as usize }]
    } else {
        Seq::empty()
    };
    a + b + c + d
}

/// Find the first running received flow.
fn find_running(flows: &Vec<FlowInfo>) -> (r: usize)
    ensures
        r == first_running(flows@),
{
    let mut i: usize = 0;
    assert(flows@.skip(0) =~= flows@);
    while i < flows.len()
        invariant
            i <= flows@.len(),
            first_running(flows@) == i + first_running(flows@.skip(i as int)),
        decreases flows@.len() - i,
    {
        assert(flows@.skip(i as int)[0] == flows@[i as int]);
        let running = str_eq(flows[i].state.as_str(), "active") || str_eq(flows[i].state.as_str(), "running");
        if running {
            return i;
        }
        assert(flows@.skip(i as int).drop_first() =~= flows@.skip(i + 1));
        i = i + 1;
    }
    assert(flows@.skip(i as int).len() == 0);
    i
}

impl NotificationState {
    /// Nothing seen yet.
    pub fn new() -> (st: NotificationState)
        ensures
            !st.prev_rx_active,
            !st.prev_tx_active,
            st.prev_flow_count == 0,
            !st.notification_shown_start,
    {
        NotificationState {
            prev_rx_active: false,
            prev_tx_active: false,
            prev_flow_count: 0,
            notification_shown_start: false,
        }
    }

    /// Take in a new status: return the notifications it raises and remember it.
    pub fn observe(
        &mut self,
        rx_active: bool,
        tx_active: bool,
        rx_channels: u32,
        sample_rate: u32,
        uptime_secs: u64,
        rx_flows: &Vec<FlowInfo>,
        tx_flow_count: usize,
    ) -> (r: Vec<Notification>)
        requires
            rx_flows@.len() + tx_flow_count <= usize::MAX,
        ensures
            r@ == notifications_for(
                *old(self), rx_active, rx_channels, sample_rate, uptime_secs, rx_flows@,
                (rx_flows@.len() + tx_flow_count) as nat,
            ),
            final(self).prev_rx_active == rx_active,
            final(self).prev_tx_active == tx_active,
            final(self).prev_flow_count == rx_flows@.len() + tx_flow_count,
            final(self).notification_shown_start == (old(self).notification_shown_start || uptime_secs > 0),
    {
        let mut r: Vec<Notification> = Vec::new();
        if !self.notification_shown_start && uptime_secs > 0 {
            r.push(Notification::ServiceRunning);
            self.notification_shown_start = true;
        }
        if !self.prev_rx_active && rx_active {
            r.push(Notification::RxActive { channels: rx_channels, sample_rate });
        }
        if self.prev_rx_active && !rx_active {
            r.push(Notification::AudioLost);
        }
        let count = rx_flows.len() + tx_flow_count;
        if count > self.prev_flow_count {
            let i = find_running(rx_flows);
            if i < rx_flows.len() {
                r.push(Notification::FlowActive { flow: i });
            }
        }
        self.prev_rx_active = rx_active;
        self.prev_tx_active = tx_active;
        self.prev_flow_count = count;
        assert(r@ =~= notifications_for(
            *old(self), rx_active, rx_channels, sample_rate, uptime_secs, rx_flows@, count as nat));
        r
    }
}

proof fn lemma_first_running(flows: Seq<FlowInfo>)
    ensures
        first_running(flows) <= flows.len(),
        forall|j: int| 0 <= j < first_running(flows) ==> !is_running_state(#[trigger] flows[j].state@),
        first_running(flows) < flows.len() ==> is_running_state(flows[first_running(flows) as int].state@),
    decreases flows.len(),
{
    if flows.len() > 0 && !is_running_state(flows[0].state@) {
        let rest = flows.drop_first();
        lemma_first_running(rest);
        assert forall|j: int| 0 <= j < first_running(flows) implies !is_running_state(#[trigger] flows[j].state@) by {
            if j > 0 {
                assert(flows[j] == rest[j - 1]);
            }
        }
        if first_running(flows) < flows.len() {
            assert(flows[first_running(flows) as int] == rest[first_running(rest) as int]);
        }
    }
}

/// What the notifications raised by a new status mean:
/// - "service running" exactly when it was not shown yet and the service
///   reports an uptime;
/// - "reception active", with the status's channels and rate, exactly when
///   reception has just started, and "audio lost" exactly when it has just
///   stopped (so never both);
/// - "flow active" only when the total number of flows grew, and then naming
///   the first received flow that is running; it is raised whenever the count
///   grew and some received flow runs;
/// - each at most once, in that order.
pub proof fn lemma_notifications_meaning(
    st: NotificationState,
    rx_active: bool,
    rx_channels: u32,
    sample_rate: u32,
    uptime_secs: u64,
    rx_flows: Seq<FlowInfo>,
    flow_count: nat,
)
    requires
        rx_flows.len() <= usize::MAX,
    ensures
        ({
            let ns = notifications_for(st, rx_active, rx_channels, sample_rate, uptime_secs, rx_flows, flow_count);
            &&& ns.contains(Notification::ServiceRunning) <==> (!st.notification_shown_start && uptime_secs > 0)
            &&& (exists|i: int| 0 <= i < ns.len() && ns[i] is RxActive) <==> (!st.prev_rx_active && rx_active)
            &&& forall|i: int| 0 <= i < ns.len() && #[trigger] ns[i] is RxActive
                ==> ns[i] == (Notification::RxActive { channels: rx_channels, sample_rate })
            &&& ns.contains(Notification::AudioLost) <==> (st.prev_rx_active && !rx_active)
            &&& forall|i: int| #![trigger ns[i]] 0 <= i < ns.len() && ns[i] is FlowActive ==> {
                let f = ns[i]->flow as int;
                &&& flow_count > st.prev_flow_count
                &&& 0 <= f < rx_flows.len()
                &&& is_running_state(rx_flows[f].state@)
                &&& forall|j: int| 0 <= j < f ==> !is_running_state(#[trigger] rx_flows[j].state@)
            }
            &&& (flow_count > st.prev_flow_count && exists|j: int| 0 <= j < rx_flows.len()
                && is_running_state(#[trigger] rx_flows[j].state@))
                ==> exists|i: int| 0 <= i < ns.len() && ns[i] is FlowActive
            &&& forall|i: int, k: int| 0 <= i < k < ns.len() ==> #[trigger] ns[i] != #[trigger] ns[k]
        }),
{
    lemma_first_running(rx_flows);
    let ns = notifications_for(st, rx_active, rx_channels, sample_rate, uptime_secs, rx_flows, flow_count);
    let fr = first_running(rx_flows);
    if flow_count > st.prev_flow_count && exists|j: int| 0 <= j < rx_flows.len()
        && is_running_state(#[trigger] rx_flows[j].state@) {
        let j = choose|j: int| 0 <= j < rx_flows.len() && is_running_state(#[trigger] rx_flows[j].state@);
        assert(fr < rx_flows.len());
        assert(ns.last() == Notification::FlowActive { flow: fr as usize });
    }
    if ns.contains(Notification::ServiceRunning) {
        let i = choose|i: int| 0 <= i < ns.len() && ns[i] == Notification::ServiceRunning;
    }
    if ns.contains(Notification::AudioLost) {
        let i = choose|i: int| 0 <= i < ns.len() && ns[i] == Notification::AudioLost;
    }
    if !st.notification_shown_start && uptime_secs > 0 {
        assert(ns[0] == Notification::ServiceRunning);
    }
    if st.prev_rx_active && !rx_active {
        let a: int = if !st.notification_shown_start && uptime_secs > 0 { 1 } else { 0 };
        assert(ns[a] == Notification::AudioLost);
    }
    if !st.prev_rx_active && rx_active {
        let a: int = if !st.notification_shown_start && uptime_secs > 0 { 1 } else { 0 };
        assert(ns[a] is RxActive);
    }
    let pre = notifications_for(st, rx_active, rx_channels, sample_rate, uptime_secs, rx_flows, st.prev_flow_count as nat);
    assert forall|i: int| 0 <= i < pre.len() implies !(#[trigger] pre[i] is FlowActive) by {}
    if flow_count > st.prev_flow_count && fr < rx_flows.len() {
        assert(ns =~= pre.push(Notification::FlowActive { flow: fr as usize }));
    } else {
        assert(ns =~= pre);
    }
}

/// The title and message of a notification; `rx_flows` are the received
/// flows it was raised for.
pub open spec fn notification_text_spec(n: Notification, rx_flows: Seq<FlowInfo>) -> (Seq<char>, Seq<char>) {
    match n {
        Notification::ServiceRunning => ("Inferno Running"@, "Dante audio service is active in background"@),
        Notification::RxActive { channels, sample_rate } => (
            "Inferno — RX Active"@,
            "Receiving "@ + decimal_text(channels as nat) + " channels at "@ + decimal_text(sample_rate as nat) + "Hz"@,
        ),
        Notification::AudioLost => ("Inferno — Audio Lost"@, "RX audio flow disconnected"@),
        Notification::FlowActive { flow } => (
            "Inferno — Flow Active"@,
            "Flow: "@ + rx_flows[flow as int].name@ + " from "@ + rx_flows[flow as int].source_ip@ + " ("@
                + decimal_text(rx_flows[flow as int].channels as nat) + " ch @ "@
                + decimal_text(rx_flows[flow as int].sample_rate as nat) + "Hz)"@,
        ),
    }
}

impl Notification {
    /// The title and message shown for this notification.
    pub fn text(&self, rx_flows: &Vec<FlowInfo>) -> (r: (String, String))
        requires
            (*self matches Notification::FlowActive { flow } ==> flow < rx_flows@.len()),
        ensures
            r.0@ == notification_text_spec(*self, rx_flows@).0,
            r.1@ == notification_text_spec(*self, rx_flows@).1,
    {
        match self {
            Notification::ServiceRunning => {
                ("Inferno Running".to_owned(), "Dante audio service is active in background".to_owned())
            },
            Notification::RxActive { channels, sample_rate } => {
                let mut m = "Receiving ".to_owned();
                push_decimal(&mut m, *channels as u64);
                m.append(" channels at ");
                push_decimal(&mut m, *sample_rate as u64);
                m.append("Hz");
                ("Inferno — RX Active".to_owned(), m)
            },
            Notification::AudioLost => {
                ("Inferno — Audio Lost".to_owned(), "RX audio flow disconnected".to_owned())
            },
            Notification::FlowActive { flow } => {
                let f = &rx_flows[*flow];
                let mut m = "Flow: ".to_owned();
                m.append(f.name.as_str());
                m.append(" from ");
                m.append(f.source_ip.as_str());
                m.append(" (");
                push_decimal(&mut m, f.channels as u64);
                m.append(" ch @ ");
                push_decimal(&mut m, f.sample_rate as u64);
                m.append("Hz)");
                ("Inferno — Flow Active".to_owned(), m)
            },
        }
    }
}

/// The service-start notification is raised at most once: once it has been
/// raised, no later status raises it again.
pub proof fn lemma_start_notified_once(
    st: NotificationState,
    rx_active: bool,
    rx_channels: u32,
    sample_rate: u32,
    uptime_secs: u64,
    rx_flows: Seq<FlowInfo>,
    flow_count: nat,
)
    requires
        st.notification_shown_start,
    ensures
        !notifications_for(st, rx_active, rx_channels, sample_rate, uptime_secs, rx_flows, flow_count).contains(
            Notification::ServiceRunning,
        ),
{
    let n = notifications_for(st, rx_active, rx_channels, sample_rate, uptime_secs, rx_flows, flow_count);
    assert forall|i: int| 0 <= i < n.len() implies n[i] != Notification::ServiceRunning by {}
}

/// Reception is announced only when it starts and its loss only when it stops:
/// an unchanged receive activity raises neither.
pub proof fn lemma_rx_edges_only(
    st: NotificationState,
    rx_channels: u32,
    sample_rate: u32,
    uptime_secs: u64,
    rx_flows: Seq<FlowInfo>,
    flow_count: nat,
)
    ensures
        ({
            let n = notifications_for(st, st.prev_rx_active, rx_channels, sample_rate, uptime_secs, rx_flows, flow_count);
            &&& !n.contains(Notification::AudioLost)
            &&& !n.contains(Notification::RxActive { channels: rx_channels, sample_rate })
        }),
{
    let n = notifications_for(st, st.prev_rx_active, rx_channels, sample_rate, uptime_secs, rx_flows, flow_count);
    assert forall|i: int| 0 <= i < n.len() implies n[i] != Notification::AudioLost
        && n[i] != (Notification::RxActive { channels: rx_channels, sample_rate }) by {}
}

/// The flows shown after a status reply: those of the flows reply (received,
/// transmitted), or none when that reply did not come.
pub fn flows_after_reply(reply: Option<(Vec<FlowInfo>, Vec<FlowInfo>)>) -> (r: (Vec<FlowInfo>, Vec<FlowInfo>))
    ensures
        (match reply {
            Some(p) => r.0@ == p.0@ && r.1@ == p.1@,
            None => r.0@.len() == 0 && r.1@.len() == 0,
        }),
{
    match reply {
        Some(p) => p,
        None => (Vec::new(), Vec::new()),
    }
}

// ---------------------------------------------------------------------------
// Log view and autostart
// ---------------------------------------------------------------------------

/// How many lines of the log the window shows.
pub const LOG_TAIL_LINES: usize = 50;

/// Where the first line ending of `s` is: the index of its first `'\n'`, or
/// its length.
pub open spec fn newline_at(s: Seq<char>) -> nat
    decreases s.len(),
{
    if s.len() == 0 {
        0
    } else if s[0] == '\n' {
        0
    } else {
        1 + newline_at(s.drop_first())
    }
}

/// A line without the `'\r'` that may stand before its `'\n'`.
pub open spec fn without_cr(line: Seq<char>) -> Seq<char> {
    if line.len() > 0 && line.last() == '\r' { line.drop_last() } else { line }
}

/// The lines of `s`, as `str::lines` gives them: each piece ended by `'\n'`,
/// less a `'\r'` just before it, then the rest if it is not empty.
pub open spec fn text_lines(s: Seq<char>) -> Seq<Seq<char>>
    decreases s.len(),
{
    if s.len() == 0 {
        Seq::empty()
    } else {
        let k = newline_at(s) as int;
        if k >= s.len() {
            seq![s]
        } else {
            seq![without_cr(s.take(k))] + text_lines(s.skip(k + 1))
        }
    }
}

/// The lines joined with `'\n'` between them.
pub open spec fn joined_lines(lines: Seq<Seq<char>>) -> Seq<char>
    decreases lines.len(),
{
    if lines.len() == 0 {
        Seq::empty()
    } else if lines.len() == 1 {
        lines[0]
    } else {
        joined_lines(lines.drop_last()) + seq!['\n'] + lines.last()
    }
}

/// The last `n` of the lines (all of them when there are fewer).
pub open spec fn last_lines(lines: Seq<Seq<char>>, n: nat) -> Seq<Seq<char>> {
    if lines.len() > n { lines.skip(lines.len() - n) } else { lines }
}

proof fn lemma_newline_at(t: Seq<char>, j: int)
    requires
        0 <= j <= t.len(),
        forall|l: int| 0 <= l < j ==> t[l] != '\n',
        j == t.len() || t[j] == '\n',
    ensures
        newline_at(t) == j,
    decreases j,
{
    if j > 0 {
        lemma_newline_at(t.drop_first(), j - 1);
    }
}

/// The lines of a text, as `str::lines` splits it.
pub fn lines_of(text: &str) -> (r: Vec<String>)
    ensures
        r@.map_values(|l: String| l@) == text_lines(text@),
{
    let cs = chars_of(text);
    let n = cs.len();
    let mut out: Vec<String> = Vec::new();
    let mut line = String::new();
    let mut start: usize = 0;
    let mut i: usize = 0;
    assert(cs@.skip(0) =~= cs@);
    while i < n
        invariant
            n == cs@.len(),
            cs@ == text@,
            start <= i <= n,
            line@ == cs@.subrange(start as int, i as int),
            forall|l: int| start <= l < i ==> cs@[l] != '\n',
            text_lines(text@) == out@.map_values(|l: String| l@) + text_lines(cs@.skip(start as int)),
        decreases n - i,
    {
        if cs[i] == '\n' {
            let ghost t = cs@.skip(start as int);
            proof {
                lemma_newline_at(t, i - start);
                assert(t.take(i - start) =~= line@);
                assert(t.skip(i - start + 1) =~= cs@.skip(i + 1));
            }
            let mut piece = line;
            let len = piece.unicode_len();
            if len > 0 && piece.get_char(len - 1) == '\r' {
                let mut trimmed = String::new();
                let pcs = chars_of(piece.as_str());
                let mut k: usize = 0;
                while k < len - 1
                    invariant
                        pcs@ == piece@,
                        len == piece@.len(),
                        len > 0,
                        k <= len - 1,
                        trimmed@ == pcs@.take(k as int),
                    decreases len - 1 - k,
                {
                    push_char(&mut trimmed, pcs[k]);
                    k = k + 1;
                    assert(trimmed@ =~= pcs@.take(k as int));
                }
                assert(trimmed@ =~= piece@.drop_last());
                piece = trimmed;
            }
            let ghost before = out@.map_values(|l: String| l@);
            out.push(piece);
            assert(out@.map_values(|l: String| l@) =~= before.push(without_cr(t.take(i - start))));
            assert(before.push(without_cr(t.take(i - start))) + text_lines(cs@.skip(i + 1))
                =~= before + (seq![without_cr(t.take(i - start))] + text_lines(cs@.skip(i + 1))));
            line = String::new();
            start = i + 1;
            i = i + 1;
            assert(line@ =~= cs@.subrange(start as int, i as int));
        } else {
            push_char(&mut line, cs[i]);
            i = i + 1;
            assert(line@ =~= cs@.subrange(start as int, i as int));
        }
    }
    let ghost t = cs@.skip(start as int);
    if start < n {
        proof {
            lemma_newline_at(t, n - start);
            assert(t =~= line@);
        }
        let ghost before = out@.map_values(|l: String| l@);
        out.push(line);
        assert(out@.map_values(|l: String| l@) =~= before + text_lines(t));
    } else {
        assert(out@.map_values(|l: String| l@) + text_lines(t) =~= out@.map_values(|l: String| l@));
    }
    out
}

/// What the log window shows of the log text: its last fifty lines, joined
/// with `'\n'`.
pub fn log_tail(content: &str) -> (r: String)
    ensures
        r@ == joined_lines(last_lines(text_lines(content@), LOG_TAIL_LINES as nat)),
{
    let lines = lines_of(content);
    let ghost all = lines@.map_values(|l: String| l@);
    let n = lines.len();
    let first: usize = if n > LOG_TAIL_LINES { n - LOG_TAIL_LINES } else { 0 };
    let ghost shown = last_lines(all, LOG_TAIL_LINES as nat);
    assert(shown =~= all.skip(first as int));
    let mut r = String::new();
    let mut i: usize = first;
    while i < n
        invariant
            n == lines@.len(),
            all == lines@.map_values(|l: String| l@),
            first <= i <= n,
            r@ == joined_lines(all.subrange(first as int, i as int)),
        decreases n - i,
    {
        let ghost prev = all.subrange(first as int, i as int);
        if i > first {
            proof {
                reveal_strlit("\n");
            }
            let ghost r0 = r@;
            r.append("\n");
            assert(r@ =~= r0 + seq!['\n']);
        }
        assert(lines@[i as int]@ == all[i as int]);
        r.append(lines[i].as_str());
        i = i + 1;
        proof {
            let now = all.subrange(first as int, i as int);
            assert(now.drop_last() =~= prev);
            if prev.len() == 0 {
                assert(r@ =~= now[0]);
            } else {
                assert(r@ =~= joined_lines(prev) + seq!['\n'] + now.last());
            }
        }
    }
    assert(all.subrange(first as int, n as int) =~= all.skip(first as int));
    r
}

/// The startup script that launches the program `exe` at log-on.
pub fn autostart_script(exe: &str) -> (r: String)
    ensures
        r@ == "@echo off\nstart \"\" \""@ + exe@ + "\""@,
{
    let mut r = "@echo off\nstart \"\" \"".to_owned();
    r.append(exe);
    r.append("\"");
    r
}

/// Where the startup script goes, under the user's roaming application data
/// folder `appdata`.
pub fn autostart_path(appdata: &str) -> (r: String)
    ensures
        r@ == appdata@ + "\\Microsoft\\Windows\\Start Menu\\Programs\\Startup\\InfernoAoIP.bat"@,
{
    let mut r = appdata.to_owned();
    r.append("\\Microsoft\\Windows\\Start Menu\\Programs\\Startup\\InfernoAoIP.bat");
    r
}

} // verus!
