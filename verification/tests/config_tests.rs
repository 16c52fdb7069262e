use inferno_aoip::config::Config;

#[test]
fn test_config_defaults() {
    let cfg = Config::default();
    assert_eq!(cfg.sample_rate, 48000);
    assert_eq!(cfg.channels, 2);
    assert_eq!(cfg.latency_ms, 10);
    assert_eq!(cfg.device_name, "InfernoAoIP");
    assert_eq!(cfg.log_level, "info");
}

#[test]
fn test_channel_name_default() {
    let cfg = Config::default();
    assert_eq!(cfg.channel_name(0), "Ch 1");
    assert_eq!(cfg.channel_name(1), "Ch 2");
}

#[test]
fn test_channel_name_custom() {
    let mut cfg = Config::default();
    cfg.channel_names = vec!["Left".to_string(), "Right".to_string()];
    assert_eq!(cfg.channel_name(0), "Left");
    assert_eq!(cfg.channel_name(1), "Right");
    assert_eq!(cfg.channel_name(2), "Ch 3"); // falls back to default
}

#[test]
fn test_device_name_truncation() {
    // What loading does to a long name
    let long_name = "A".repeat(40);
    let mut cfg = Config::default();
    cfg.device_name = long_name;
    cfg.sanitize();
    let truncated: String = cfg.device_name.clone();
    assert_eq!(truncated.len(), 31);
}

#[test]
fn channel_name_skips_empty_names() {
    let mut cfg = Config::default();
    cfg.channel_names = vec!["".to_string(), "Bass".to_string()];
    assert_eq!(cfg.channel_name(0), "Ch 1");
    assert_eq!(cfg.channel_name(1), "Bass");
    assert_eq!(cfg.channel_name(9), "Ch 10");
}

#[test]
fn default_helpers() {
    assert_eq!(Config::default_fpp(), "auto");
    assert_eq!(Config::default_rx_buffer_samples(), 524288);
    assert_eq!(Config::default_latency_ref_samples(), 4800);
    let cfg = Config::default();
    assert_eq!(cfg.fpp, "auto");
    assert_eq!(cfg.rx_buffer_samples, 524288);
    assert_eq!(cfg.latency_ref_samples, 4800);
    assert!(!cfg.wasapi_exclusive);
    assert!(!cfg.device_locked);
    assert!(cfg.network_interface.is_empty());
}

#[test]
fn sanitize_fixes_channels_and_buffer() {
    let mut cfg = Config::default();
    cfg.channels = 0;
    cfg.rx_buffer_samples = 1000;
    cfg.sanitize();
    assert_eq!(cfg.channels, 2);
    assert_eq!(cfg.rx_buffer_samples, 1024);

    let mut cfg = Config::default();
    cfg.channels = 65;
    cfg.rx_buffer_samples = 0;
    cfg.sanitize();
    assert_eq!(cfg.channels, 2);
    assert_eq!(cfg.rx_buffer_samples, 524288);

    let mut cfg = Config::default();
    cfg.channels = 64;
    cfg.rx_buffer_samples = 4096;
    cfg.sanitize();
    assert_eq!(cfg.channels, 64);
    assert_eq!(cfg.rx_buffer_samples, 4096);
}

#[test]
fn sanitize_replaces_unsupported_name_characters() {
    let mut cfg = Config::default();
    cfg.device_name = "My Device_1.x".to_string();
    cfg.sanitize();
    assert_eq!(cfg.device_name, "My Device-1-x");
    assert!(cfg.sanitizable());
    cfg.rx_buffer_samples = 0x8000_0001;
    assert!(!cfg.sanitizable());
}

#[test]
fn resolve_interface_ip_cases() {
    let ifaces = vec![
        ("eth0".to_string(), None),
        ("eth0".to_string(), Some([10, 0, 0, 5])),
        ("wlan".to_string(), Some([192, 168, 1, 9])),
    ];
    let mut cfg = Config::default();
    assert_eq!(cfg.resolve_interface_ip(&ifaces), None);
    cfg.network_interface = "192.168.7.7".to_string();
    assert_eq!(cfg.resolve_interface_ip(&ifaces), Some([192, 168, 7, 7]));
    cfg.network_interface = "eth0".to_string();
    assert_eq!(cfg.resolve_interface_ip(&ifaces), Some([10, 0, 0, 5]));
    cfg.network_interface = "lo".to_string();
    assert_eq!(cfg.resolve_interface_ip(&ifaces), None);
}
