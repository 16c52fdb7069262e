//! The first-run wizard: three steps (network interface, firewall, ready), the
//! moves between them, what each step shows, and the settings it writes.

use vstd::prelude::*;
use crate::text::{chars_of, push_char};

verus! {

// ---------------------------------------------------------------------------
// Interface labels
// ---------------------------------------------------------------------------

/// The label of an interface in a list: its name and address.
pub open spec fn interface_label_text(name: Seq<char>, ip: Seq<char>) -> Seq<char> {
    name + " ("@ + ip + ")"@
}

/// The labels listed for the interfaces found (name, address, loopback): one
/// per interface that is not a loopback one, in order.
pub open spec fn interface_labels_spec(found: Seq<(String, String, bool)>) -> Seq<Seq<char>>
    decreases found.len(),
{
    if found.len() == 0 {
        Seq::empty()
    } else {
        let rest = interface_labels_spec(found.drop_last());
        let last = found.last();
        if last.2 { rest } else { rest.push(interface_label_text(last.0@, last.1@)) }
    }
}

/// The labels of the interfaces found; the single label `Default` when they
/// could not be listed.
pub fn interface_labels(found: &Option<Vec<(String, String, bool)>>) -> (r: Vec<String>)
    ensures
        (match found {
            Some(v) => r@.map_values(|s: String| s@) == interface_labels_spec(v@),
            None => r@.map_values(|s: String| s@) == seq!["Default"@],
        }),
{
    match found {
        None => {
            let r = vec!["Default".to_owned()];
            assert(r@.map_values(|s: String| s@) =~= seq!["Default"@]);
            r
        },
        Some(v) => {
            let mut r: Vec<String> = Vec::new();
            let mut i: usize = 0;
            while i < v.len()
                invariant
                    i <= v@.len(),
                    r@.map_values(|s: String| s@) == interface_labels_spec(v@.take(i as int)),
                decreases v@.len() - i,
            {
                assert(v@.take(i + 1).drop_last() =~= v@.take(i as int));
                if !v[i].2 {
                    let mut label = v[i].0.clone();
                    label.append(" (");
                    label.append(v[i].1.as_str());
                    label.append(")");
                    r.push(label);
                }
                i = i + 1;
                assert(r@.map_values(|s: String| s@) =~= interface_labels_spec(v@.take(i as int)));
            }
            assert(v@.take(v@.len() as int) =~= v@);
            r
        },
    }
}

/// Where the interface name in a label ends: at the first `" ("`, or at the end.
pub open spec fn label_cut(s: Seq<char>) -> nat
    decreases s.len(),
{
    if s.len() < 2 {
        s.len()
    } else if s[0] == ' ' && s[1] == '(' {
        0
    } else {
        1 + label_cut(s.drop_first())
    }
}

proof fn lemma_label_cut_bound(s: Seq<char>)
    ensures
        label_cut(s) <= s.len(),
    decreases s.len(),
{
    if s.len() >= 2 && !(s[0] == ' ' && s[1] == '(') {
        lemma_label_cut_bound(s.drop_first());
    }
}

/// The interface name of a label `name (address)`: the text before the first
/// `" ("`, or the whole label.
pub fn nic_name_from_label(label: &str) -> (r: String)
    ensures
        r@ == label@.take(label_cut(label@) as int),
{
    let chars = chars_of(label);
    let n = chars.len();
    let mut i: usize = 0;
    assert(chars@.skip(0) =~= chars@);
    while i < n
        invariant
            n == chars@.len(),
            chars@ == label@,
            i <= n,
            label_cut(chars@) == i + label_cut(chars@.skip(i as int)),
        ensures
            i <= n,
            label_cut(chars@) == i,
        decreases n - i,
    {
        let ghost rest = chars@.skip(i as int);
        if i + 1 < n && chars[i] == ' ' && chars[i + 1] == '(' {
            assert(rest[0] == ' ' && rest[1] == '(');
            break;
        }
        if i + 1 >= n {
            assert(rest.len() < 2);
            i = n;
            assert(chars@.skip(i as int).len() == 0);
            break;
        }
        assert(rest.drop_first() =~= chars@.skip(i + 1));
        i = i + 1;
        if i == n {
            assert(chars@.skip(i as int).len() == 0);
        }
    }
    let mut r = String::new();
    let mut k: usize = 0;
    while k < i
        invariant
            n == chars@.len(),
            chars@ == label@,
            i <= n,
            k <= i,
            r@ == chars@.take(k as int),
        decreases i - k,
    {
        push_char(&mut r, chars[k]);
        k = k + 1;
        assert(r@ =~= chars@.take(k as int));
    }
    r
}

// ---------------------------------------------------------------------------
// Steps
// ---------------------------------------------------------------------------

/// Where the wizard stands.
#[derive(Debug, Clone)]
pub struct WizardState {
    /// The step shown, from 1 to 3.
    pub step: u32,
    /// The interface chosen on the first step.
    pub selected_nic: Option<String>,
    /// The user finished the wizard on the last step.
    pub finish_requested: bool,
}

/// What the user did.
#[derive(Debug, Clone)]
pub enum WizardEvent {
    /// Next, with the label selected in the interface list, if any.
    Next { selection: Option<String> },
    Back,
    ApplyFirewall,
    Finish,
    Close,
}

/// What the window has to do next.
#[derive(Debug, Clone, Copy, PartialEq, Eq)]
pub enum WizardAction {
    /// Nothing.
    Stay,
    /// Show this step.
    ShowStep(u32),
    /// Add the firewall rules and show the outcome.
    ApplyFirewall,
    /// Close the window.
    Stop,
}

/// The view of an optional string.
pub open spec fn opt_text(s: Option<String>) -> Option<Seq<char>> {
    match s {
        Some(t) => Some(t@),
        None => None,
    }
}

/// What the wizard's state stands for: the step, the chosen interface, and
/// whether the user finished on the last step.
pub open spec fn wizard_view(st: WizardState) -> (u32, Option<Seq<char>>, bool) {
    (st.step, opt_text(st.selected_nic), st.finish_requested)
}

/// The state (as `wizard_view` gives it) and action after `event` in state `st`.
pub open spec fn wizard_next(st: WizardState, event: WizardEvent) -> (u32, Option<Seq<char>>, bool, WizardAction) {
    wizard_move(wizard_view(st), event)
}

/// The move from state `v` (step, chosen interface, finished) on `event`: the
/// new state and what the window has to do.
pub open spec fn wizard_move(v: (u32, Option<Seq<char>>, bool), event: WizardEvent) -> (u32, Option<Seq<char>>, bool, WizardAction) {
    let (step, nic, finish) = v;
    match event {
        WizardEvent::Next { selection } => if step < 3 {
            let nic2 = if step == 1 {
                match selection {
                    Some(label) => Some(label@.take(label_cut(label@) as int)),
                    None => nic,
                }
            } else {
                nic
            };
            ((step + 1) as u32, nic2, finish, WizardAction::ShowStep((step + 1) as u32))
        } else {
            (step, nic, finish, WizardAction::Stay)
        },
        WizardEvent::Back => if step > 1 {
            ((step - 1) as u32, nic, finish, WizardAction::ShowStep((step - 1) as u32))
        } else {
            (step, nic, finish, WizardAction::Stay)
        },
        WizardEvent::ApplyFirewall => if step == 2 {
            (step, nic, finish, WizardAction::ApplyFirewall)
        } else {
            (step, nic, finish, WizardAction::Stay)
        },
        WizardEvent::Finish => if step == 3 {
            (step, nic, true, WizardAction::Stop)
        } else {
            (step, nic, finish, WizardAction::Stay)
        },
        WizardEvent::Close => (step, nic, finish, WizardAction::Stop),
    }
}

impl WizardState {
    /// The wizard as it opens: first step, nothing chosen.
    pub fn new() -> (st: WizardState)
        ensures
            st.step == 1,
            st.selected_nic is None,
            !st.finish_requested,
    {
        WizardState { step: 1, selected_nic: None, finish_requested: false }
    }

    /// Take in what the user did and say what the window has to do.
    pub fn handle(&mut self, event: &WizardEvent) -> (a: WizardAction)
        ensures
            ({
                let n = wizard_next(*old(self), *event);
                &&& final(self).step == n.0
                &&& opt_text(final(self).selected_nic) == n.1
                &&& final(self).finish_requested == n.2
                &&& a == n.3
            }),
    {
        match event {
            WizardEvent::Next { selection } => {
                if self.step < 3 {
                    if self.step == 1 {
                        match selection {
                            Some(label) => {
                                self.selected_nic = Some(nic_name_from_label(label.as_str()));
                            },
                            None => {},
                        }
                    }
                    self.step = self.step + 1;
                    WizardAction::ShowStep(self.step)
                } else {
                    WizardAction::Stay
                }
            },
            WizardEvent::Back => {
                if self.step > 1 {
                    self.step = self.step - 1;
                    WizardAction::ShowStep(self.step)
                } else {
                    WizardAction::Stay
                }
            },
            WizardEvent::ApplyFirewall => {
                if self.step == 2 { WizardAction::ApplyFirewall } else { WizardAction::Stay }
            },
            WizardEvent::Finish => {
                if self.step == 3 {
                    self.finish_requested = true;
                    WizardAction::Stop
                } else {
                    WizardAction::Stay
                }
            },
            WizardEvent::Close => WizardAction::Stop,
        }
    }

    /// The interface to write to the configuration once the window is closed:
    /// the chosen one, if the user finished the wizard.
    pub fn interface_to_save(&self) -> (r: Option<String>)
        ensures
            opt_text(r) == (if self.finish_requested { opt_text(self.selected_nic) } else { None }),
    {
        if self.finish_requested {
            match &self.selected_nic {
                Some(n) => Some(n.clone()),
                None => None,
            }
        } else {
            None
        }
    }
}

/// The step stays between 1 and 3, whatever the user does.
pub proof fn lemma_wizard_step_in_range(st: WizardState, event: WizardEvent)
    requires
        1 <= st.step <= 3,
    ensures
        1 <= wizard_next(st, event).0 <= 3,
{
}

/// The wizard asks for the window to close only when the user closes it or
/// finishes on the last step, and only finishing there marks the settings for
/// writing.
pub proof fn lemma_wizard_finish_only_on_last_step(st: WizardState, event: WizardEvent)
    ensures
        wizard_next(st, event).2 != st.finish_requested ==> st.step == 3 && event is Finish,
        wizard_next(st, event).3 == WizardAction::Stop ==> (event is Close || (event is Finish && st.step == 3)),
{
}

/// The wizard's state after a sequence of events, from state `v`.
pub open spec fn wizard_after(v: (u32, Option<Seq<char>>, bool), events: Seq<WizardEvent>) -> (u32, Option<Seq<char>>, bool)
    decreases events.len(),
{
    if events.len() == 0 {
        v
    } else {
        let n = wizard_move(wizard_after(v, events.drop_last()), events.last());
        (n.0, n.1, n.2)
    }
}

/// The interface name that an event would choose on the first step: that of the
/// label selected when Next is clicked.
pub open spec fn nic_pick(event: WizardEvent) -> Option<Seq<char>> {
    match event {
        WizardEvent::Next { selection: Some(label) } => Some(label@.take(label_cut(label@) as int)),
        _ => None,
    }
}

/// Event `i` of the sequence is Next, clicked on the first step with an
/// interface selected.
pub open spec fn picks_nic_at(v: (u32, Option<Seq<char>>, bool), events: Seq<WizardEvent>, i: int) -> bool {
    &&& 0 <= i < events.len()
    &&& wizard_after(v, events.take(i)).0 == 1
    &&& nic_pick(events[i]) is Some
}

/// Event `i` of the sequence is Finish, clicked on the last step.
pub open spec fn finishes_at(v: (u32, Option<Seq<char>>, bool), events: Seq<WizardEvent>, i: int) -> bool {
    &&& 0 <= i < events.len()
    &&& wizard_after(v, events.take(i)).0 == 3
    &&& events[i] is Finish
}

/// The wizard over a whole sequence of clicks, from the state it opens in:
/// - the step stays between 1 and 3 throughout;
/// - the user has finished exactly when Finish was clicked on the last step;
/// - the chosen interface is that of the label selected at the last Next
///   clicked on the first step with a selection, and none if there was no such
///   click;
/// - so an interface is to be written exactly when both happened.
pub proof fn lemma_wizard_click_sequence(events: Seq<WizardEvent>)
    ensures
        ({
            let start = (1u32, None::<Seq<char>>, false);
            let end = wizard_after(start, events);
            &&& 1 <= end.0 <= 3
            &&& end.2 <==> exists|i: int| finishes_at(start, events, i)
            &&& (forall|i: int| !picks_nic_at(start, events, i)) ==> end.1 is None
            &&& forall|i: int|
                #![trigger picks_nic_at(start, events, i)]
                picks_nic_at(start, events, i)
                    && (forall|j: int| i < j < events.len() ==> !picks_nic_at(start, events, j))
                    ==> end.1 == nic_pick(events[i])
            &&& (if end.2 { end.1 } else { None }) is Some <==> (exists|i: int| finishes_at(start, events, i))
                && (exists|i: int| picks_nic_at(start, events, i))
        }),
    decreases events.len(),
{
    let start = (1u32, None::<Seq<char>>, false);
    let end = wizard_after(start, events);
    if events.len() > 0 {
        let prev = events.drop_last();
        let n = (events.len() - 1) as int;
        lemma_wizard_click_sequence(prev);
        assert(events.take(n) =~= prev);
        assert forall|i: int| 0 <= i < n implies #[trigger] events.take(i) == prev.take(i) && events[i] == prev[i] by {
            assert(events.take(i) =~= prev.take(i));
        }
        assert forall|i: int| 0 <= i < n implies (#[trigger] picks_nic_at(start, events, i)) == picks_nic_at(start, prev, i)
            && finishes_at(start, events, i) == finishes_at(start, prev, i) by {
            assert(events.take(i) == prev.take(i));
        }
        let before = wizard_after(start, prev);
        // The finish flag.
        if end.2 {
            if !before.2 {
                assert(finishes_at(start, events, n));
            } else {
                let i = choose|i: int| finishes_at(start, prev, i);
                assert(finishes_at(start, events, i));
            }
        }
        if exists|i: int| finishes_at(start, events, i) {
            let i = choose|i: int| finishes_at(start, events, i);
            if i < n {
                assert(finishes_at(start, prev, i));
            }
        }
        // The chosen interface.
        if forall|i: int| !picks_nic_at(start, events, i) {
            assert(!picks_nic_at(start, events, n));
            assert forall|i: int| !picks_nic_at(start, prev, i) by {
                if 0 <= i < n {
                    assert(!picks_nic_at(start, events, i));
                }
            }
        }
        assert forall|i: int|
            #![trigger picks_nic_at(start, events, i)]
            picks_nic_at(start, events, i)
                && (forall|j: int| i < j < events.len() ==> !picks_nic_at(start, events, j))
                implies end.1 == nic_pick(events[i]) by {
            if i < n {
                assert(!picks_nic_at(start, events, n));
                assert(picks_nic_at(start, prev, i));
                assert forall|j: int| i < j < prev.len() implies !picks_nic_at(start, prev, j) by {
                    assert(!picks_nic_at(start, events, j));
                }
            }
        }
        if end.1 is Some {
            if picks_nic_at(start, events, n) {
            } else {
                assert(before.1 is Some);
                if forall|i: int| !picks_nic_at(start, prev, i) {
                } else {
                    let i = choose|i: int| picks_nic_at(start, prev, i);
                    assert(picks_nic_at(start, events, i));
                }
            }
        }
        if exists|i: int| picks_nic_at(start, events, i) {
            lemma_wizard_picked_nic_stays(events);
        }
    }
}

/// Once an interface is chosen, a choice stays.
proof fn lemma_wizard_picked_nic_stays(events: Seq<WizardEvent>)
    ensures
        (exists|i: int| picks_nic_at((1u32, None::<Seq<char>>, false), events, i))
            ==> wizard_after((1u32, None::<Seq<char>>, false), events).1 is Some,
    decreases events.len(),
{
    let start = (1u32, None::<Seq<char>>, false);
    if events.len() > 0 {
        let prev = events.drop_last();
        let n = (events.len() - 1) as int;
        lemma_wizard_picked_nic_stays(prev);
        assert(events.take(n) =~= prev);
        if exists|i: int| picks_nic_at(start, events, i) {
            let i = choose|i: int| picks_nic_at(start, events, i);
            if i < n {
                assert(events.take(i) =~= prev.take(i));
                assert(picks_nic_at(start, prev, i));
            }
        }
    }
}

/// What a step shows.
pub struct StepView {
    /// The title and text, when the step sets them.
    pub title: Option<&'static str>,
    pub body: Option<&'static str>,
    pub show_nic: bool,
    pub show_firewall: bool,
    pub show_summary: bool,
    pub show_back: bool,
    pub show_finish: bool,
    /// `Step n of 3`.
    pub step_label: String,
}

/// What step `step` shows.
pub fn step_view(step: u32) -> (v: StepView)
    ensures
        v.title is Some <==> 1 <= step <= 3,
        v.body is Some <==> 1 <= step <= 3,
        step == 1 ==> v.title == Some("Step 1: Select Network Interface")
            && v.body == Some("Choose the Dante network interface for Inferno to use:"),
        step == 2 ==> v.title == Some("Step 2: Configure Firewall")
            && v.body == Some("Allow Inferno through Windows Firewall.\nClick 'Apply Firewall Rules' to add necessary ports."),
        step == 3 ==> v.title == Some("Step 3: Ready to Start")
            && v.body == Some("Configuration complete! Click 'Finish' to save settings and start Inferno."),
        v.show_nic == (step == 1),
        v.show_firewall == (step == 2),
        v.show_summary == (step == 3),
        v.show_back == (step > 1),
        v.show_finish == (step == 3),
        v.step_label@ == "Step "@ + crate::text::decimal_text(step as nat) + " of 3"@,
{
    let mut label = "Step ".to_owned();
    crate::text::push_decimal(&mut label, step as u64);
    label.append(" of 3");
    let (title, body): (Option<&'static str>, Option<&'static str>) = if step == 1 {
        (Some("Step 1: Select Network Interface"), Some("Choose the Dante network interface for Inferno to use:"))
    } else if step == 2 {
        (
            Some("Step 2: Configure Firewall"),
            Some("Allow Inferno through Windows Firewall.\nClick 'Apply Firewall Rules' to add necessary ports."),
        )
    } else if step == 3 {
        (Some("Step 3: Ready to Start"), Some("Configuration complete! Click 'Finish' to save settings and start Inferno."))
    } else {
        (None, None)
    };
    StepView {
        title,
        body,
        show_nic: step == 1,
        show_firewall: step == 2,
        show_summary: step == 3,
        show_back: step > 1,
        show_finish: step == 3,
        step_label: label,
    }
}

/// The firewall status line after adding the rules: a check mark and the
/// message on success, a cross and the message otherwise.
pub fn firewall_status_text(outcome: &Result<String, String>) -> (r: String)
    ensures
        (match outcome {
            Ok(m) => r@ == "✓ "@ + m@,
            Err(m) => r@ == "✗ "@ + m@,
        }),
{
    match outcome {
        Ok(m) => {
            let mut r = "✓ ".to_owned();
            r.append(m.as_str());
            r
        },
        Err(m) => {
            let mut r = "✗ ".to_owned();
            r.append(m.as_str());
            r
        },
    }
}

/// The settings the wizard writes for the chosen interface.
pub struct WizardSettings {
    pub device_name: String,
    pub network_interface: String,
    pub sample_rate: i64,
    pub channels: i64,
    pub latency_ms: i64,
    pub fpp: String,
}

/// The settings the wizard writes: name `Inferno`, the chosen interface,
/// 48 kHz, two channels, 10 ms latency, automatic frames per packet.
pub fn wizard_settings(nic: &str) -> (s: WizardSettings)
    ensures
        s.device_name@ == "Inferno"@,
        s.network_interface@ == nic@,
        s.sample_rate == 48000,
        s.channels == 2,
        s.latency_ms == 10,
        s.fpp@ == "auto"@,
{
    WizardSettings {
        device_name: "Inferno".to_owned(),
        network_interface: nic.to_owned(),
        sample_rate: 48000,
        channels: 2,
        latency_ms: 10,
        fpp: "auto".to_owned(),
    }
}

} // verus!
