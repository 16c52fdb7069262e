use inferno_aoip::audio_device::{
    capture_sample_width, device_missing_message, device_search, fallback_sample_rate, find_device,
    max_queue_samples, routes_to_cable, server_settings, DeviceSearch,
};
use inferno_aoip::device_info::{Channel, DeviceInfo};
use inferno_aoip::ipc::{
    control_response, frame_line, install_args, poll_goes_on, poll_requests, server_action, Incoming, IpcRequest,
    ServerAction, ServiceControlKind, PIPE_NAME,
};
use inferno_aoip::net::{ReceiveBuffer, MTU};
use inferno_aoip::proto_cmc::DeviceAdvertisement;

#[test]
fn server_answers_status_requests() {
    match server_action(Incoming::GetStatus, 2, 4, 48000, 42) {
        ServerAction::Reply(r) => {
            assert!(r.tx_active && r.rx_active);
            assert_eq!((r.tx_channels, r.rx_channels, r.sample_rate, r.uptime_secs), (2, 4, 48000, 42));
            assert_eq!(r.clock_mode, "SafeClock");
            assert_eq!(r.tx_peak_db, vec![-60, -60]);
        }
        _ => panic!("expected a status reply"),
    }
    assert!(matches!(server_action(Incoming::Shutdown, 0, 0, 0, 0), ServerAction::NoteShutdown));
    assert!(matches!(server_action(Incoming::ReloadConfig, 0, 0, 0, 0), ServerAction::NoteReload));
    assert!(matches!(server_action(Incoming::Other, 0, 0, 0, 0), ServerAction::Ignore));
}

#[test]
fn tray_poll_requests() {
    assert_eq!(poll_requests(false, false), (vec![IpcRequest::GetStatus], true));
    assert_eq!(poll_requests(true, false), (vec![IpcRequest::ReloadConfig, IpcRequest::GetStatus], true));
    assert_eq!(poll_requests(true, true), (vec![IpcRequest::ReloadConfig, IpcRequest::Shutdown], false));
    assert_eq!(poll_requests(false, true), (vec![IpcRequest::Shutdown], false));
}

#[test]
fn service_control_and_install() {
    assert!(control_response(ServiceControlKind::Stop).signal_shutdown);
    assert!(control_response(ServiceControlKind::Shutdown).signal_shutdown);
    let i = control_response(ServiceControlKind::Interrogate);
    assert!(i.handled && !i.signal_shutdown);
    assert!(!control_response(ServiceControlKind::Other).handled);
    assert_eq!(
        install_args("C:\\inferno.exe"),
        vec![
            "create".to_string(),
            "InfernoAoIP".to_string(),
            "binPath=C:\\inferno.exe --service".to_string(),
            "start=auto".to_string(),
            "DisplayName=InfernoAoIP Dante Virtual Soundcard".to_string(),
        ]
    );
    assert_eq!(frame_line("{}"), "{}\n");
    assert_eq!(PIPE_NAME, r"\\.\pipe\inferno");
}

#[test]
fn device_selection() {
    assert!(matches!(device_search(&None, false), DeviceSearch::Default));
    assert!(matches!(device_search(&None, true), DeviceSearch::ByName(n) if n == "CABLE Input"));
    assert!(matches!(device_search(&Some("Spk".to_string()), true), DeviceSearch::ByName(n) if n == "Spk"));
    let names = vec![None, Some("Speakers (Realtek)".to_string()), Some("CABLE Input (VB)".to_string())];
    assert_eq!(find_device(&names, "CABLE"), Some(2));
    assert_eq!(find_device(&names, "Realtek"), Some(1));
    assert_eq!(find_device(&names, "USB"), None);
    assert_eq!(device_missing_message("USB", false, true), "No WASAPI device found matching 'USB'");
    assert!(device_missing_message("CABLE Input", true, false).starts_with("VB-Cable not found"));
    assert!(routes_to_cable(false, "CABLE Input (VB-Audio)"));
    assert!(!routes_to_cable(false, "Speakers"));
}

#[test]
fn format_helpers() {
    assert_eq!(fallback_sample_rate(48000), Some(44100));
    assert_eq!(fallback_sample_rate(44100), Some(48000));
    assert_eq!(fallback_sample_rate(96000), None);
    assert_eq!(capture_sample_width(8, 2), 4);
    assert_eq!(capture_sample_width(6, 2), 3);
    assert_eq!(capture_sample_width(8, 0), 4);
    assert_eq!(max_queue_samples(48000, 2), 24000);
}

#[test]
fn dante_server_settings() {
    let rx = server_settings(false, 2, 48000, "Desk");
    assert_eq!(rx.get("RX_CHANNELS").unwrap(), "2");
    assert_eq!(rx.get("TX_CHANNELS").unwrap(), "0");
    assert_eq!(rx.get("SAMPLE_RATE").unwrap(), "48000");
    assert_eq!(rx.get("NAME").unwrap(), "Desk");
    let tx = server_settings(true, 8, 96000, "Desk");
    assert_eq!(tx.get("TX_CHANNELS").unwrap(), "8");
    assert_eq!(tx.get("RX_CHANNELS").unwrap(), "0");
    // nothing else is set, so every other setting keeps its default
    assert_eq!(rx.len(), 4);
    assert_eq!(tx.len(), 4);
    assert!(rx.get("ALT_PORT").is_none());
    assert!(tx.get("BIND_IP").is_none());
}

#[test]
fn receive_buffer() {
    let mut b = ReceiveBuffer::new();
    assert_eq!(b.received(3), &[0, 0, 0]);
    b.space()[0] = 9;
    assert_eq!(b.received(2), &[9, 0]);
    assert_eq!(b.received(MTU).len(), 1500);
}

#[test]
fn device_advertisement_default() {
    let a = DeviceAdvertisement::default();
    assert_eq!(a.process_id, 0);
    assert_eq!(a.factory_device_id, [0u8; 8]);
    assert_eq!(a.ip_address, [0u8; 4]);
    assert_eq!(a.info_request_port, 0);
}

fn info() -> DeviceInfo {
    DeviceInfo {
        ip_address: [0; 4],
        netmask: [0; 4],
        gateway: [0; 4],
        mac_address: [0; 6],
        link_speed: 0,
        board_name: String::new(),
        manufacturer: String::new(),
        model_name: String::new(),
        model_number: String::new(),
        factory_device_id: [0; 8],
        process_id: 0,
        vendor_string: String::new(),
        friendly_hostname: "host".to_string(),
        factory_hostname: "factory".to_string(),
        rx_channels: vec![Channel { factory_name: "01".to_string(), friendly_name: "RX 1".to_string() }],
        tx_channels: vec![],
        bits_per_sample: 24,
        pcm_type: 0xe,
        latency_ns: 10_000_000,
        tx_latency_ns: 10_000_000,
        sample_rate: 48000,
        arc_port: 4440,
        cmc_port: 8800,
        flows_control_port: 4455,
        info_request_port: 8700,
    }
}

#[test]
fn device_info_latency() {
    let d = info();
    assert_eq!(d.latency_samples(), 480);
    d.validate_hostnames();
}

#[test]
fn only_a_failed_status_request_ends_a_poll() {
    assert!(!poll_goes_on(IpcRequest::GetStatus, false));
    assert!(poll_goes_on(IpcRequest::GetStatus, true));
    assert!(poll_goes_on(IpcRequest::ReloadConfig, false));
    assert!(poll_goes_on(IpcRequest::Shutdown, false));
}
