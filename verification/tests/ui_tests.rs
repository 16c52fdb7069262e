use inferno_aoip::firewall::{
    add_rule_args, port_rule_args, rule_check_args, service_firewall_rules, service_ports,
    wizard_firewall_report, wizard_firewall_rules, CommandOutcome, FirewallResult,
};
use inferno_aoip::settings_form::{
    fpp_label, fpp_value, load_form, option_index, prefix_index, save_form, save_report, FormChoices, FormInput,
    SettingValue, StoredSettings,
};
use inferno_aoip::status::{
    autostart_path, autostart_script, flows_after_reply, flows_text, format_uptime, lines_of, log_tail, status_line,
    FlowInfo, Notification, NotificationState,
};
use inferno_aoip::wizard::{
    firewall_status_text, interface_labels, nic_name_from_label, step_view, wizard_settings, WizardAction,
    WizardEvent, WizardState,
};

fn strings(v: &[&str]) -> Vec<String> {
    v.iter().map(|s| s.to_string()).collect()
}

#[test]
fn uptime_formats() {
    assert_eq!(format_uptime(0), "0s");
    assert_eq!(format_uptime(59), "59s");
    assert_eq!(format_uptime(60), "1m 0s");
    assert_eq!(format_uptime(125), "2m 5s");
    assert_eq!(format_uptime(3599), "59m 59s");
    assert_eq!(format_uptime(3600), "1h 0m");
    assert_eq!(format_uptime(3661), "1h 1m");
    assert_eq!(format_uptime(90061), "25h 1m");
}

#[test]
fn status_lines() {
    assert_eq!(status_line(true, false), "Status: RX Active / TX Idle");
    assert_eq!(status_line(false, true), "Status: RX Idle / TX Active");
}

fn flow(name: &str, ip: &str, state: &str) -> FlowInfo {
    FlowInfo {
        name: name.to_string(),
        source_ip: ip.to_string(),
        channels: 2,
        sample_rate: 48000,
        direction: "rx".to_string(),
        state: state.to_string(),
    }
}

#[test]
fn flow_list_text() {
    assert_eq!(flows_text(&vec![], &vec![]), "No active flows");
    let rx = vec![flow("mix", "10.0.0.2", "active")];
    let tx = vec![flow("out", "10.0.0.3", "idle")];
    assert_eq!(
        flows_text(&rx, &tx),
        "RX: mix from 10.0.0.2 (2 ch @ 48000Hz) [active]\r\nTX: out to 10.0.0.3 (2 ch @ 48000Hz) [idle]\r\n"
    );
    let d = FlowInfo::default();
    assert!(d.name.is_empty() && d.channels == 0 && d.state.is_empty());
}

#[test]
fn notifications_follow_status_changes() {
    let mut st = NotificationState::new();
    let rx = vec![flow("a", "1.1.1.1", "idle"), flow("b", "2.2.2.2", "running")];
    let n = st.observe(true, false, 2, 48000, 5, &rx, 0);
    assert_eq!(
        n,
        vec![
            Notification::ServiceRunning,
            Notification::RxActive { channels: 2, sample_rate: 48000 },
            Notification::FlowActive { flow: 1 },
        ]
    );
    // same status again: nothing new
    assert!(st.observe(true, false, 2, 48000, 6, &rx, 0).is_empty());
    // reception lost
    assert_eq!(st.observe(false, false, 2, 48000, 7, &vec![], 0), vec![Notification::AudioLost]);
    let (title, body) = Notification::RxActive { channels: 2, sample_rate: 48000 }.text(&rx);
    assert_eq!(title, "Inferno — RX Active");
    assert_eq!(body, "Receiving 2 channels at 48000Hz");
    let (_, body) = Notification::FlowActive { flow: 1 }.text(&rx);
    assert_eq!(body, "Flow: b from 2.2.2.2 (2 ch @ 48000Hz)");
}

#[test]
fn nic_names_from_labels() {
    assert_eq!(nic_name_from_label("Ethernet (192.168.1.2)"), "Ethernet");
    assert_eq!(nic_name_from_label("Wi-Fi 2 (10.0.0.1)"), "Wi-Fi 2");
    assert_eq!(nic_name_from_label("Default"), "Default");
    assert_eq!(nic_name_from_label(""), "");
    assert_eq!(nic_name_from_label("a (b) (c)"), "a");
}

#[test]
fn interface_label_list() {
    let found = Some(vec![
        ("lo".to_string(), "127.0.0.1".to_string(), true),
        ("eth0".to_string(), "10.0.0.2".to_string(), false),
    ]);
    assert_eq!(interface_labels(&found), strings(&["eth0 (10.0.0.2)"]));
    assert_eq!(interface_labels(&None), strings(&["Default"]));
}

#[test]
fn wizard_walks_through_steps() {
    let mut w = WizardState::new();
    assert_eq!(w.handle(&WizardEvent::Back), WizardAction::Stay);
    assert_eq!(w.handle(&WizardEvent::Finish), WizardAction::Stay);
    assert_eq!(
        w.handle(&WizardEvent::Next { selection: Some("Ethernet (10.0.0.2)".to_string()) }),
        WizardAction::ShowStep(2)
    );
    assert_eq!(w.selected_nic.as_deref(), Some("Ethernet"));
    assert_eq!(w.handle(&WizardEvent::ApplyFirewall), WizardAction::ApplyFirewall);
    assert_eq!(w.handle(&WizardEvent::Next { selection: None }), WizardAction::ShowStep(3));
    assert_eq!(w.handle(&WizardEvent::Next { selection: None }), WizardAction::Stay);
    assert_eq!(w.handle(&WizardEvent::ApplyFirewall), WizardAction::Stay);
    assert!(w.interface_to_save().is_none());
    assert_eq!(w.handle(&WizardEvent::Finish), WizardAction::Stop);
    assert_eq!(w.interface_to_save().as_deref(), Some("Ethernet"));
}

#[test]
fn wizard_keeps_the_last_interface_chosen_on_the_first_step() {
    let clicks = vec![
        WizardEvent::Next { selection: Some("eth0 (1.2.3.4)".to_string()) },
        WizardEvent::Back,
        WizardEvent::Next { selection: None },
        WizardEvent::Next { selection: Some("wlan0 (5.6.7.8)".to_string()) },
        WizardEvent::Back,
        WizardEvent::Back,
        WizardEvent::Back,
        WizardEvent::Next { selection: Some("Wi-Fi 2 (192.168.1.9)".to_string()) },
        WizardEvent::Next { selection: None },
        WizardEvent::Finish,
    ];
    let mut w = WizardState::new();
    let mut actions = Vec::new();
    for c in clicks.iter() {
        actions.push(w.handle(c));
        assert!(1 <= w.step && w.step <= 3);
    }
    assert_eq!(actions[3], WizardAction::ShowStep(3));
    assert_eq!(actions[9], WizardAction::Stop);
    assert_eq!(w.interface_to_save().as_deref(), Some("Wi-Fi 2"));

    let mut w = WizardState::new();
    for c in [WizardEvent::Next { selection: None }, WizardEvent::Next { selection: None }, WizardEvent::Finish].iter() {
        w.handle(c);
    }
    assert!(w.finish_requested);
    assert!(w.interface_to_save().is_none());
}

#[test]
fn wizard_close_saves_nothing() {
    let mut w = WizardState::new();
    w.handle(&WizardEvent::Next { selection: Some("eth0 (1.2.3.4)".to_string()) });
    assert_eq!(w.handle(&WizardEvent::Back), WizardAction::ShowStep(1));
    assert_eq!(w.handle(&WizardEvent::Close), WizardAction::Stop);
    assert!(w.interface_to_save().is_none());
}

#[test]
fn wizard_step_views() {
    let v = step_view(1);
    assert_eq!(v.title, Some("Step 1: Select Network Interface"));
    assert!(v.show_nic && !v.show_back && !v.show_finish);
    assert_eq!(v.step_label, "Step 1 of 3");
    let v = step_view(3);
    assert!(v.show_summary && v.show_back && v.show_finish);
    assert_eq!(v.step_label, "Step 3 of 3");
    let v = step_view(4);
    assert!(v.title.is_none());
    assert_eq!(firewall_status_text(&Ok("done".to_string())), "✓ done");
    assert_eq!(firewall_status_text(&Err("no".to_string())), "✗ no");
    let s = wizard_settings("eth0");
    assert_eq!(s.device_name, "Inferno");
    assert_eq!(s.network_interface, "eth0");
    assert_eq!((s.sample_rate, s.channels, s.latency_ms), (48000, 2, 10));
    assert_eq!(s.fpp, "auto");
}

#[test]
fn firewall_rules_and_args() {
    let rules = service_firewall_rules();
    assert_eq!(rules.len(), 8);
    assert_eq!(rules[0].name, "Inferno-Dante-RX-in");
    assert_eq!(rules[7].ports, "6000-6015");
    assert_eq!(rules[7].dir, "out");
    let w = wizard_firewall_rules();
    assert_eq!(w[0].ports, "4440,4455,5353,6000-6015");
    assert_eq!(
        add_rule_args("Inferno PTP", "in", "319,320"),
        strings(&[
            "advfirewall", "firewall", "add", "rule", "name=Inferno PTP", "dir=in", "action=allow",
            "protocol=UDP", "localport=319,320",
        ])
    );
    assert_eq!(port_rule_args(4440)[4], "name=InfernoAoIP-UDP-4440");
    assert_eq!(port_rule_args(4440)[8], "localport=4440");
    assert_eq!(service_ports(), vec![4440, 4455, 5353, 8700, 8800]);
    assert_eq!(rule_check_args()[4], "name=Inferno-Dante-RX-in");
}

#[test]
fn firewall_result_records() {
    let mut r = FirewallResult::new();
    r.record("A", &CommandOutcome::Succeeded);
    r.record("B", &CommandOutcome::Failed { stderr: "denied".to_string() });
    r.record("C", &CommandOutcome::NotRun { error: "missing".to_string() });
    assert_eq!(r.rules_added, strings(&["A"]));
    assert_eq!(r.errors, strings(&["B: denied", "C: missing"]));
    assert_eq!(wizard_firewall_report(true).unwrap(), "Firewall rules applied successfully.");
    assert!(wizard_firewall_report(false).unwrap_err().starts_with("Firewall rules require admin rights"));
}

fn choices() -> FormChoices {
    FormChoices {
        sample_rates: strings(&["44100", "48000", "96000"]),
        interfaces: strings(&["eth0 (10.0.0.2)", "wlan (10.0.0.3)"]),
        fpp_modes: strings(&["Auto (negotiate)", "Min Latency (1 packet)", "Max Efficiency (64 packets)", "Custom..."]),
    }
}

#[test]
fn settings_form_load() {
    let stored = StoredSettings {
        device_name: Some("Desk".to_string()),
        sample_rate: Some(96000),
        channels: Some(8),
        latency_ms: Some(-5),
        network_interface: Some("wlan".to_string()),
        fpp: Some("max".to_string()),
    };
    let u = load_form(&stored, &choices());
    assert_eq!(u.device_name.as_deref(), Some("Desk"));
    assert_eq!(u.sample_rate_selection, Some(2));
    assert_eq!(u.channels_text.as_deref(), Some("8"));
    assert_eq!(u.latency_text.as_deref(), Some("-5"));
    assert_eq!(u.interface_selection, Some(1));
    assert_eq!(u.fpp_selection, Some(2));
    assert!(u.custom_fpp.is_none());

    let custom = StoredSettings {
        device_name: None,
        sample_rate: Some(22050),
        channels: None,
        latency_ms: None,
        network_interface: Some("eth9".to_string()),
        fpp: Some("12".to_string()),
    };
    let u = load_form(&custom, &choices());
    assert!(u.device_name.is_none());
    assert_eq!(u.sample_rate_selection, None);
    assert_eq!(u.interface_selection, None);
    assert_eq!(u.fpp_selection, Some(3));
    assert_eq!(u.custom_fpp.as_deref(), Some("12"));
}

#[test]
fn settings_form_save() {
    let input = FormInput {
        device_name: "Desk".to_string(),
        sample_rate_label: Some("48000".to_string()),
        channels_text: "4".to_string(),
        latency_text: "abc".to_string(),
        interface_label: Some("eth0 (10.0.0.2)".to_string()),
        fpp_label: Some("Custom...".to_string()),
        custom_fpp: "16".to_string(),
    };
    let out = save_form(&input);
    let keys: Vec<&str> = out.iter().map(|(k, _)| k.as_str()).collect();
    assert_eq!(keys, vec!["device_name", "sample_rate", "channels", "network_interface", "fpp"]);
    assert!(matches!(&out[0].1, SettingValue::Text(t) if t == "Desk"));
    assert!(matches!(out[1].1, SettingValue::Integer(48000)));
    assert!(matches!(out[2].1, SettingValue::Integer(4)));
    assert!(matches!(&out[3].1, SettingValue::Text(t) if t == "eth0"));
    assert!(matches!(&out[4].1, SettingValue::Text(t) if t == "16"));
}

#[test]
fn fpp_labels_and_values() {
    assert_eq!(fpp_label("auto"), Some("Auto (negotiate)"));
    assert_eq!(fpp_label("min"), Some("Min Latency (1 packet)"));
    assert_eq!(fpp_label("7"), None);
    assert_eq!(fpp_value("Max Efficiency (64 packets)", "x"), "max");
    assert_eq!(fpp_value("Custom...", "32"), "32");
    assert_eq!(fpp_value("Other", "32"), "auto");
    // what loading selects, saving gives back
    for f in ["auto", "min", "max"] {
        assert_eq!(fpp_value(fpp_label(f).unwrap(), ""), f);
    }
    assert_eq!(option_index(&strings(&["a", "b", "b"]), "b"), Some(1));
    assert_eq!(prefix_index(&strings(&["ab", "b"]), "a"), Some(0));
    assert_eq!(prefix_index(&strings(&["ab", "b"]), "c"), None);
}

#[test]
fn flows_come_from_the_reply_or_are_empty() {
    let (rx, tx) = flows_after_reply(Some((vec![flow("a", "10.0.0.1", "active")], vec![])));
    assert_eq!(rx.len(), 1);
    assert_eq!(rx[0].name, "a");
    assert!(tx.is_empty());
    let (rx, tx) = flows_after_reply(None);
    assert!(rx.is_empty() && tx.is_empty());
}

#[test]
fn saving_settings_reports_the_outcome() {
    let ok = save_report(&Ok(()));
    assert!(ok.trigger_reload && !ok.is_error);
    assert_eq!(ok.message, "Configuration saved. Reload triggered.");
    let err = save_report(&Err("disk full".to_string()));
    assert!(!err.trigger_reload && err.is_error);
    assert_eq!(err.message, "Failed to save config: disk full");
}

#[test]
fn lines_split_as_str_lines_does() {
    let text = "foo\r\nbar\n\nbaz\r";
    assert_eq!(lines_of(text), text.lines().map(|l| l.to_string()).collect::<Vec<_>>());
    assert_eq!(lines_of("a\n"), strings(&["a"]));
    assert!(lines_of("").is_empty());
    assert_eq!(lines_of("\n"), strings(&[""]));
    assert_eq!(lines_of("a\n\nb"), strings(&["a", "", "b"]));
}

#[test]
fn log_window_shows_the_last_fifty_lines() {
    let content: String = (1..=60).map(|i| format!("line {i}\r\n")).collect();
    let tail = log_tail(&content);
    assert!(tail.starts_with("line 11\nline 12\n"));
    assert!(tail.ends_with("line 59\nline 60"));
    assert_eq!(tail.lines().count(), 50);
    assert_eq!(log_tail("only\ntwo"), "only\ntwo");
    assert_eq!(log_tail("Log file not found"), "Log file not found");
    assert_eq!(log_tail(""), "");
}

#[test]
fn autostart_script_and_place() {
    assert_eq!(autostart_script("C:\\Inferno\\inferno_gui.exe"), "@echo off\nstart \"\" \"C:\\Inferno\\inferno_gui.exe\"");
    assert_eq!(
        autostart_path("C:\\Users\\u\\AppData\\Roaming"),
        "C:\\Users\\u\\AppData\\Roaming\\Microsoft\\Windows\\Start Menu\\Programs\\Startup\\InfernoAoIP.bat"
    );
}
