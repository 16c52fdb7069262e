//! Windows firewall rules for the Dante ports: which rules, the `netsh`
//! arguments that add or look for them, and the record of what was added.

use vstd::prelude::*;
use crate::text::{decimal_text, push_decimal};

verus! {

/// The characters of each string.
pub open spec fn texts(v: Seq<String>) -> Seq<Seq<char>> {
    v.map_values(|s: String| s@)
}

/// One inbound or outbound UDP allow rule.
#[derive(Debug, Clone, Copy)]
pub struct FirewallRule {
    pub name: &'static str,
    pub ports: &'static str,
    pub dir: &'static str,
}

/// The rules the service sets up: Dante control, mDNS, PTP and RTP, each in
/// both directions.
pub open spec fn service_rule_table() -> Seq<(Seq<char>, Seq<char>, Seq<char>)> {
    seq![
        ("Inferno-Dante-RX-in"@, "4440,4455"@, "in"@),
        ("Inferno-Dante-RX-out"@, "4440,4455"@, "out"@),
        ("Inferno-mDNS-in"@, "5353"@, "in"@),
        ("Inferno-mDNS-out"@, "5353"@, "out"@),
        ("Inferno-PTP-in"@, "319,320"@, "in"@),
        ("Inferno-PTP-out"@, "319,320"@, "out"@),
        ("Inferno-RTP-in"@, "6000-6015"@, "in"@),
        ("Inferno-RTP-out"@, "6000-6015"@, "out"@),
    ]
}

/// The rules the first-run wizard adds: Dante audio and PTP, inbound.
pub open spec fn wizard_rule_table() -> Seq<(Seq<char>, Seq<char>, Seq<char>)> {
    seq![
        ("Inferno Dante RX"@, "4440,4455,5353,6000-6015"@, "in"@),
        ("Inferno PTP"@, "319,320"@, "in"@),
    ]
}

/// The views of a list of rules.
pub open spec fn rules_view(rules: Seq<FirewallRule>) -> Seq<(Seq<char>, Seq<char>, Seq<char>)> {
    rules.map_values(|r: FirewallRule| (r.name@, r.ports@, r.dir@))
}

/// The rules the service sets up.
pub fn service_firewall_rules() -> (r: Vec<FirewallRule>)
    ensures
        rules_view(r@) == service_rule_table(),
{
    let r = vec![
        FirewallRule { name: "Inferno-Dante-RX-in", ports: "4440,4455", dir: "in" },
        FirewallRule { name: "Inferno-Dante-RX-out", ports: "4440,4455", dir: "out" },
        FirewallRule { name: "Inferno-mDNS-in", ports: "5353", dir: "in" },
        FirewallRule { name: "Inferno-mDNS-out", ports: "5353", dir: "out" },
        FirewallRule { name: "Inferno-PTP-in", ports: "319,320", dir: "in" },
        FirewallRule { name: "Inferno-PTP-out", ports: "319,320", dir: "out" },
        FirewallRule { name: "Inferno-RTP-in", ports: "6000-6015", dir: "in" },
        FirewallRule { name: "Inferno-RTP-out", ports: "6000-6015", dir: "out" },
    ];
    assert(rules_view(r@) =~= service_rule_table());
    r
}

/// The rules the first-run wizard adds.
pub fn wizard_firewall_rules() -> (r: Vec<FirewallRule>)
    ensures
        rules_view(r@) == wizard_rule_table(),
{
    let r = vec![
        FirewallRule { name: "Inferno Dante RX", ports: "4440,4455,5353,6000-6015", dir: "in" },
        FirewallRule { name: "Inferno PTP", ports: "319,320", dir: "in" },
    ];
    assert(rules_view(r@) =~= wizard_rule_table());
    r
}

/// The `netsh` arguments that add an allow rule for UDP.
pub open spec fn add_rule_args_text(name: Seq<char>, dir: Seq<char>, ports: Seq<char>) -> Seq<Seq<char>> {
    seq![
        "advfirewall"@,
        "firewall"@,
        "add"@,
        "rule"@,
        "name="@ + name,
        "dir="@ + dir,
        "action=allow"@,
        "protocol=UDP"@,
        "localport="@ + ports,
    ]
}

/// `prefix` followed by `s`, as a new string.
fn prefixed(prefix: &str, s: &str) -> (r: String)
    ensures
        r@ == prefix@ + s@,
{
    let mut r = prefix.to_owned();
    r.append(s);
    r
}

/// The `netsh` arguments that add the allow rule `name` for UDP ports `ports`
/// in direction `dir`.
pub fn add_rule_args(name: &str, dir: &str, ports: &str) -> (r: Vec<String>)
    ensures
        texts(r@) == add_rule_args_text(name@, dir@, ports@),
{
    let r = vec![
        "advfirewall".to_owned(),
        "firewall".to_owned(),
        "add".to_owned(),
        "rule".to_owned(),
        prefixed("name=", name),
        prefixed("dir=", dir),
        "action=allow".to_owned(),
        "protocol=UDP".to_owned(),
        prefixed("localport=", ports),
    ];
    assert(texts(r@) =~= add_rule_args_text(name@, dir@, ports@));
    r
}

/// The `netsh` arguments that look for the service's first rule.
pub fn rule_check_args() -> (r: Vec<String>)
    ensures
        texts(r@) == seq!["advfirewall"@, "firewall"@, "show"@, "rule"@, "name=Inferno-Dante-RX-in"@],
{
    let r = vec![
        "advfirewall".to_owned(),
        "firewall".to_owned(),
        "show".to_owned(),
        "rule".to_owned(),
        "name=Inferno-Dante-RX-in".to_owned(),
    ];
    assert(texts(r@) =~= seq!["advfirewall"@, "firewall"@, "show"@, "rule"@, "name=Inferno-Dante-RX-in"@]);
    r
}

/// The UDP ports the audio service opens for itself on start.
pub open spec fn ensured_ports() -> Seq<u16> {
    seq![4440u16, 4455, 5353, 8700, 8800]
}

/// The UDP ports the audio service opens for itself on start.
pub fn service_ports() -> (r: Vec<u16>)
    ensures
        r@ == ensured_ports(),
{
    let r = vec![4440u16, 4455, 5353, 8700, 8800];
    assert(r@ =~= ensured_ports());
    r
}

/// The name of the rule that opens one port.
pub open spec fn port_rule_name_text(port: u16) -> Seq<char> {
    "InfernoAoIP-UDP-"@ + decimal_text(port as nat)
}

/// The `netsh` arguments that open one inbound UDP port.
pub fn port_rule_args(port: u16) -> (r: Vec<String>)
    ensures
        texts(r@) == add_rule_args_text(port_rule_name_text(port), "in"@, decimal_text(port as nat)),
{
    let mut name = "InfernoAoIP-UDP-".to_owned();
    push_decimal(&mut name, port as u64);
    let mut ports = String::new();
    push_decimal(&mut ports, port as u64);
    assert(ports@ =~= decimal_text(port as nat));
    add_rule_args(name.as_str(), "in", ports.as_str())
}

/// How one `netsh` run ended.
pub enum CommandOutcome {
    /// It ran and reported success.
    Succeeded,
    /// It ran and failed; what it wrote to standard error.
    Failed { stderr: String },
    /// It could not be started.
    NotRun { error: String },
}

/// The rules added and the errors met while setting up the firewall.
pub struct FirewallResult {
    pub rules_added: Vec<String>,
    pub errors: Vec<String>,
}

/// The error line for a rule: its name, a colon and the detail.
pub open spec fn rule_error_text(name: Seq<char>, detail: Seq<char>) -> Seq<char> {
    name + ": "@ + detail
}

impl FirewallResult {
    /// Nothing added, no errors.
    pub fn new() -> (r: FirewallResult)
        ensures
            r.rules_added@.len() == 0,
            r.errors@.len() == 0,
    {
        FirewallResult { rules_added: Vec::new(), errors: Vec::new() }
    }

    /// Record how adding the rule `name` ended: its name joins the added rules
    /// on success, an error line naming it joins the errors otherwise.
    pub fn record(&mut self, name: &str, outcome: &CommandOutcome)
        ensures
            (match outcome {
                CommandOutcome::Succeeded => {
                    &&& texts(final(self).rules_added@) == texts(old(self).rules_added@).push(name@)
                    &&& texts(final(self).errors@) == texts(old(self).errors@)
                },
                CommandOutcome::Failed { stderr } => {
                    &&& texts(final(self).rules_added@) == texts(old(self).rules_added@)
                    &&& texts(final(self).errors@) == texts(old(self).errors@).push(rule_error_text(name@, stderr@))
                },
                CommandOutcome::NotRun { error } => {
                    &&& texts(final(self).rules_added@) == texts(old(self).rules_added@)
                    &&& texts(final(self).errors@) == texts(old(self).errors@).push(rule_error_text(name@, error@))
                },
            }),
    {
        match outcome {
            CommandOutcome::Succeeded => {
                self.rules_added.push(name.to_owned());
                assert(texts(self.rules_added@) =~= texts(old(self).rules_added@).push(name@));
            },
            CommandOutcome::Failed { stderr } => {
                let mut line = name.to_owned();
                line.append(": ");
                line.append(stderr.as_str());
                self.errors.push(line);
                assert(texts(self.errors@) =~= texts(old(self).errors@).push(rule_error_text(name@, stderr@)));
            },
            CommandOutcome::NotRun { error } => {
                let mut line = name.to_owned();
                line.append(": ");
                line.append(error.as_str());
                self.errors.push(line);
                assert(texts(self.errors@) =~= texts(old(self).errors@).push(rule_error_text(name@, error@)));
            },
        }
    }
}

/// What the wizard reports after adding its rules: success only when every
/// rule was added.
pub fn wizard_firewall_report(all_added: bool) -> (r: Result<String, String>)
    ensures
        r is Ok <==> all_added,
        (r matches Ok(m) ==> m@ == "Firewall rules applied successfully."@),
        (r matches Err(m) ==> m@
            == "Firewall rules require admin rights — run as Administrator or add rules manually."@),
{
    if all_added {
        Ok("Firewall rules applied successfully.".to_owned())
    } else {
        Err("Firewall rules require admin rights — run as Administrator or add rules manually.".to_owned())
    }
}

} // verus!
