use inferno_aoip::common::{wrapped_diff, LogAndForget};
use inferno_aoip::metering::{peak_magnitude, ChannelMeter};
use inferno_aoip::metrics::{http_metrics_response, Metrics};

#[test]
fn peak_magnitude_takes_largest_absolute_value() {
    assert_eq!(peak_magnitude(&[]), 0);
    assert_eq!(peak_magnitude(&[3, -7, 5]), 7);
    assert_eq!(peak_magnitude(&[i32::MIN, i32::MAX]), 2_147_483_648);
}

#[test]
fn meter_holds_peaks_and_decays() {
    let mut m = ChannelMeter::new(3);
    assert_eq!(m.get_peaks(), vec![0, 0, 0]);
    m.update_level(1, 200);
    m.update_level(1, 100);
    m.update_level(5, 250);
    assert_eq!(m.get_peaks(), vec![0, 200, 0]);
    m.decay();
    assert_eq!(m.get_peaks(), vec![0, 199, 0]);
    m.update_level(1, 255);
    assert_eq!(m.get_peaks(), vec![0, 255, 0]);
}

#[test]
fn metrics_render() {
    let mut m = Metrics::new();
    m.packets_received = 10;
    m.packets_lost = 1;
    m.tx_bytes = 2000;
    m.rx_bytes = 3000;
    let text = m.render_prometheus_at(42);
    assert!(text.starts_with("# HELP inferno_uptime_seconds Time since service start\n"));
    assert!(text.contains("\ninferno_uptime_seconds 42\n"));
    assert!(text.contains("\ninferno_packets_received_total 10\n"));
    assert!(text.contains("\ninferno_packets_lost_total 1\n"));
    assert!(text.contains("\ninferno_tx_bytes_total 2000\n"));
    assert!(text.ends_with("\ninferno_rx_bytes_total 3000\n"));
    assert!(m.render_prometheus().contains("inferno_rx_bytes_total 3000"));
}

#[test]
fn http_response_carries_length() {
    assert_eq!(
        http_metrics_response("abc"),
        "HTTP/1.1 200 OK\r\nContent-Type: text/plain; version=0.0.4\r\nContent-Length: 3\r\n\r\nabc"
    );
    assert!(http_metrics_response("é").contains("Content-Length: 2\r\n"));
}

#[test]
fn wrapped_diff_signs() {
    assert_eq!(wrapped_diff(10, 3), 7);
    assert_eq!(wrapped_diff(3, 10), -7);
    assert_eq!(wrapped_diff(1, usize::MAX), 2);
    assert_eq!(wrapped_diff(usize::MAX, 1), -2);
}

#[test]
fn wrapped_diff_recovers_and_negates() {
    assert_eq!(wrapped_diff(2, usize::MAX - 1), 4);
    assert_eq!(wrapped_diff(usize::MAX - 1, 2), -4);
    let half = isize::MAX as usize + 1;
    assert_eq!(wrapped_diff(half, 0), isize::MIN);
    assert_eq!(wrapped_diff(0, half), isize::MIN);
    assert_eq!(wrapped_diff(0, half), wrapped_diff(half, 0).wrapping_neg());
    for &(a, b) in &[(5usize, 9usize), (usize::MAX, 3), (7, usize::MAX - 2), (half + 1, 1), (0, 0)] {
        let d = wrapped_diff(a, b);
        assert_eq!(b.wrapping_add(d as usize), a);
        assert_eq!(wrapped_diff(b, a), d.wrapping_neg());
    }
}

#[test]
fn log_and_forget_reports_errors() {
    let ok: Result<u8, String> = Ok(1);
    let err: Result<u8, String> = Err("x".to_string());
    assert!(!ok.log_and_forget());
    assert!(err.log_and_forget());
}
