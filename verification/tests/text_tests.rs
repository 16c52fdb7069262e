use inferno_aoip::config_map::ConfigMap;
use inferno_aoip::settings::{HostContext, LocalIp, Settings};
use inferno_aoip::settings_form::{save_form, FormInput, SettingValue};
use inferno_aoip::text::{decimal_string, i64_string, parse_ipv4};

#[test]
fn numbers_to_text() {
    assert_eq!(decimal_string(0), "0");
    assert_eq!(decimal_string(1234567890), "1234567890");
    assert_eq!(i64_string(-42), "-42");
    assert_eq!(i64_string(i64::MIN), "-9223372036854775808");
    assert_eq!(i64_string(i64::MAX), "9223372036854775807");
}

#[test]
fn ipv4_text() {
    assert_eq!(parse_ipv4("192.168.0.1"), Some([192, 168, 0, 1]));
    assert_eq!(parse_ipv4("0.0.0.0"), Some([0, 0, 0, 0]));
    assert_eq!(parse_ipv4("256.1.1.1"), None);
    assert_eq!(parse_ipv4("1.2.3"), None);
    assert_eq!(parse_ipv4("1.2.3.4.5"), None);
    assert_eq!(parse_ipv4("01.2.3.4"), None);
    assert_eq!(parse_ipv4("eth0"), None);
}

fn settings_for(pairs: &[(&str, &str)]) -> Settings {
    let mut m = ConfigMap::new();
    for (k, v) in pairs {
        m.insert(k.to_string(), v.to_string());
    }
    let host = HostContext { env_vars: vec![], interfaces: vec![], local_ip: LocalIp::Unavailable };
    Settings::new("app", "short", None, &m, &host)
}

#[test]
fn numeric_settings_read_their_text() {
    let s = settings_for(&[("RX_CHANNELS", "65535"), ("TX_CHANNELS", "+3"), ("SAMPLE_RATE", "96000")]);
    assert_eq!(s.self_info.rx_channels.len(), 65535);
    assert_eq!(s.self_info.tx_channels.len(), 3);
    assert_eq!(s.self_info.sample_rate, 96000);
    let s = settings_for(&[("RX_CHANNELS", "65536"), ("TX_CHANNELS", "x"), ("RX_LATENCY_NS", "2000000")]);
    assert_eq!(s.self_info.rx_channels.len(), 2);
    assert_eq!(s.self_info.tx_channels.len(), 2);
    assert_eq!(s.self_info.latency_ns, 2_000_000);
    assert_eq!(s.self_info.ip_address, [127, 0, 0, 1]);
}

#[test]
fn boolean_settings_are_exact_words() {
    assert!(settings_for(&[("USE_SAFE_CLOCK", "true")]).use_safe_clock);
    assert!(!settings_for(&[("USE_SAFE_CLOCK", "True")]).use_safe_clock);
    assert!(!settings_for(&[("USE_SAFE_CLOCK", "false")]).use_safe_clock);
}

#[test]
fn signed_numbers_read_back() {
    for x in [0i64, 7, -7, 48000, i64::MAX, i64::MIN] {
        let input = FormInput {
            device_name: String::new(),
            sample_rate_label: None,
            channels_text: i64_string(x),
            latency_text: String::new(),
            interface_label: None,
            fpp_label: None,
            custom_fpp: String::new(),
        };
        let out = save_form(&input);
        assert!(matches!(out[1].1, SettingValue::Integer(v) if v == x));
    }
}
