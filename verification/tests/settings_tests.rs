use inferno_aoip::config_map::ConfigMap;
use inferno_aoip::settings::{
    create_self_info, model_number, pairs_get, HostContext, Ipv4Network, LocalIp, NetInterface, Settings,
};

fn host(env: Vec<(String, String)>) -> HostContext {
    HostContext {
        env_vars: env,
        interfaces: vec![NetInterface {
            name: "eth0".to_string(),
            ipv4: vec![Ipv4Network { addr: [192, 168, 1, 10], netmask: [255, 255, 255, 0] }],
            transmit_speed: Some(1_000_000_000),
            receive_speed: Some(1_000_000_000),
            gateway_ipv4: Some(vec![[192, 168, 1, 1]]),
            mac_addr: Some([1, 2, 3, 4, 5, 6]),
        }],
        local_ip: LocalIp::V4([192, 168, 1, 10]),
    }
}

fn config(pairs: &[(&str, &str)]) -> ConfigMap {
    let mut m = ConfigMap::new();
    for (k, v) in pairs {
        m.insert(k.to_string(), v.to_string());
    }
    m
}

#[test]
fn settings_from_config_and_host() {
    let cfg = config(&[("name", "Studio"), ("RX_CHANNELS", "4"), ("TX_CHANNELS", "0")]);
    let h = host(vec![]);
    assert!(Settings::buildable(&cfg, &h));
    let s = Settings::new("inferno_wasapi", "InfernoWASPI", None, &cfg, &h);
    assert_eq!(s.self_info.ip_address, [192, 168, 1, 10]);
    assert_eq!(s.self_info.friendly_hostname, "Studio");
    assert_eq!(s.self_info.factory_device_id, [0, 0, 192, 168, 1, 10, 0, 0]);
    assert_eq!(s.self_info.factory_hostname, "InfernoWASPI-0000c0a8010a0000");
    assert_eq!(s.self_info.netmask, [255, 255, 255, 0]);
    assert_eq!(s.self_info.gateway, [192, 168, 1, 1]);
    assert_eq!(s.self_info.mac_address, [1, 2, 3, 4, 5, 6]);
    assert_eq!(s.self_info.rx_channels.len(), 4);
    assert_eq!(s.self_info.rx_channels[3].factory_name, "04");
    assert_eq!(s.self_info.rx_channels[3].friendly_name, "RX 4");
    assert!(s.self_info.tx_channels.is_empty());
    assert_eq!(s.rx_buffer_samples, 524288);
    assert_eq!(s.latency_ref_samples, 4800);
    assert!(s.fpp_override.is_none());
}

#[test]
fn environment_overrides_and_default_name() {
    let cfg = config(&[]);
    let h = host(vec![("INFERNO_BIND_IP".to_string(), "10.1.2.3".to_string())]);
    let s = Settings::new("app", "short", None, &cfg, &h);
    assert_eq!(s.self_info.ip_address, [10, 1, 2, 3]);
    assert_eq!(s.self_info.friendly_hostname, "app 0a010203");
    assert_eq!(s.self_info.rx_channels.len(), 2);
    assert_eq!(s.self_info.tx_channels[1].friendly_name, "TX 2");
}

#[test]
fn given_address_takes_precedence() {
    let cfg = config(&[("BIND_IP", "eth0"), ("DEVICE_ID", "0011223344556677")]);
    let h = host(vec![]);
    let info = create_self_info("app", "short", Some([172, 16, 0, 1]), &Settings::effective_config(&cfg, &h), &h);
    assert_eq!(info.ip_address, [172, 16, 0, 1]);
    assert_eq!(info.factory_device_id, [0x00, 0x11, 0x22, 0x33, 0x44, 0x55, 0x66, 0x77]);
}

#[test]
fn unbuildable_settings_are_reported() {
    let cfg = config(&[("ALT_PORT", "65534")]);
    assert!(!Settings::buildable(&cfg, &host(vec![])));
}

#[test]
fn model_numbers() {
    assert_eq!(model_number(None), "_000000000000000b");
    assert_eq!(model_number(Some("0x1234")), "_00000000001234b");
    assert_eq!(model_number(Some("zz")), "_000000000000000b");
}

#[test]
fn pairs_get_finds_last_entry() {
    let pairs = vec![("A".to_string(), "1".to_string()), ("A".to_string(), "2".to_string())];
    assert_eq!(pairs_get(&pairs, "A").map(|s| s.as_str()), Some("2"));
    assert!(pairs_get(&pairs, "B").is_none());
}

#[test]
fn config_map_behaviour() {
    let mut m = ConfigMap::new();
    m.insert("a".to_string(), "1".to_string());
    m.insert("a".to_string(), "2".to_string());
    assert_eq!(m.get("a").unwrap(), "2");
    assert_eq!(m.len(), 2);
    let up = m.with_upper_keys();
    assert_eq!(up.get("A").unwrap(), "2");
    assert!(up.get("a").is_none());
    let mut e = ConfigMap::new();
    e.merge_env_vars(&vec![
        ("INFERNO_NAME".to_string(), "x".to_string()),
        ("PATH".to_string(), "/bin".to_string()),
    ]);
    assert_eq!(e.get("NAME").unwrap(), "x");
    assert!(e.get("PATH").is_none());
}

#[test]
fn hostnames_fit_the_dante_limit() {
    let long = "x".repeat(40);
    let cfg = config(&[("NAME", &long)]);
    let h = host(vec![]);
    let s = Settings::new("a-rather-long-application-name", "a-long-short-name", None, &cfg, &h);
    assert_eq!(s.self_info.friendly_hostname.len(), 31);
    assert!(s.self_info.factory_hostname.len() <= 31);
    s.self_info.validate_hostnames();
    let s = Settings::new("a-rather-long-application-name", "a-long-short-name", None, &config(&[]), &h);
    assert_eq!(s.self_info.friendly_hostname, "a-rather-long-applicat c0a8010a");
    assert_eq!(s.self_info.factory_hostname, "a-long-short-n-0000c0a8010a0000");
    s.self_info.validate_hostnames();
}

#[test]
fn names_are_cut_at_a_character_boundary() {
    // 30 ASCII bytes and a two-byte character straddle the 31-byte cut
    let name = format!("{}é", "y".repeat(30));
    let cfg = config(&[("NAME", &name)]);
    let h = host(vec![]);
    assert!(Settings::buildable(&cfg, &h));
    let s = Settings::new("app", "short", None, &cfg, &h);
    assert_eq!(s.self_info.friendly_hostname, "y".repeat(30));
    // sixteen two-byte characters: byte 31 lies inside the last one
    let cfg = config(&[("NAME", &"é".repeat(16))]);
    let info = create_self_info(
        "inferno_wasapi",
        "InfernoWASPI",
        Some([10, 0, 0, 5]),
        &Settings::effective_config(&cfg, &h),
        &h,
    );
    assert_eq!(info.friendly_hostname, "é".repeat(15));
    // an application name cut inside a character
    let s = Settings::new(&format!("{}ü", "a".repeat(21)), &format!("{}ß", "b".repeat(13)), None, &config(&[]), &h);
    assert_eq!(s.self_info.friendly_hostname, format!("{} c0a8010a", "a".repeat(21)));
    assert_eq!(s.self_info.factory_hostname, format!("{}-0000c0a8010a0000", "b".repeat(13)));
}

#[test]
fn environment_does_not_override_settings() {
    let mut m = ConfigMap::new();
    m.insert("NAME".to_string(), "fromfile".to_string());
    m.merge_env_vars(&vec![
        ("INFERNO_NAME".to_string(), "fromenv".to_string()),
        ("INFERNO_rx_channels".to_string(), "8".to_string()),
    ]);
    assert_eq!(m.get("NAME").unwrap(), "fromfile");
    assert_eq!(m.get("RX_CHANNELS").unwrap(), "8");
}

#[test]
fn upper_cased_keys_keep_the_greatest_original_key() {
    // "rx_channels" sorts after "RX_CHANNELS", so its value wins whatever the order
    let m = config(&[("rx_channels", "4"), ("RX_CHANNELS", "3")]);
    let up = m.with_upper_keys();
    assert_eq!(up.get("RX_CHANNELS").unwrap(), "4");
    assert_eq!(up.len(), 1);
    let m = config(&[("RX_CHANNELS", "3"), ("rx_channels", "4"), ("Rx_Channels", "5"), ("name", "n")]);
    let up = m.with_upper_keys();
    assert_eq!(up.get("RX_CHANNELS").unwrap(), "4");
    assert_eq!(up.get("NAME").unwrap(), "n");
    assert_eq!(up.len(), 2);
    // a key set twice reads as its later value before upper-casing
    let m = config(&[("name", "a"), ("NAME", "b"), ("name", "c")]);
    assert_eq!(m.with_upper_keys().get("NAME").unwrap(), "c");
    let s = Settings::new("app", "short", None, &config(&[("rx_channels", "4"), ("RX_CHANNELS", "3")]), &host(vec![]));
    assert_eq!(s.self_info.rx_channels.len(), 4);
}
