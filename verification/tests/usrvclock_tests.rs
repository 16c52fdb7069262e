use inferno_aoip::usrvclock::{
    filetime_to_unix_ns, ClockOverlay, OverlayReceiveError, SafeClock, SafeTimestamp, PROTOCOL_MAJOR_VERSION,
};

#[test]
fn test_clock_overlay_decode_valid() {
    let mut buf = vec![0u8; 40];
    buf[0] = b'V';
    buf[1] = b'C';
    buf[2..4].copy_from_slice(&PROTOCOL_MAJOR_VERSION.to_ne_bytes());
    buf[6..8].copy_from_slice(&1u16.to_ne_bytes()); // flags = 1 (valid)
    buf[8..16].copy_from_slice(&42i64.to_ne_bytes());
    buf[16..24].copy_from_slice(&1000i64.to_ne_bytes());
    buf[24..32].copy_from_slice(&500i64.to_ne_bytes());
    buf[32..40].copy_from_slice(&1.5f64.to_ne_bytes());

    let overlay = ClockOverlay::decode(&buf).unwrap();
    assert_eq!(overlay.clock_id, 42);
    assert_eq!(overlay.last_sync, 1000);
    assert_eq!(overlay.shift, 500);
    assert_eq!(f64::from_bits(overlay.freq_scale_bits), 1.5);
}

#[test]
fn test_clock_overlay_decode_packet_too_short() {
    let buf = vec![0u8; 30];
    assert!(ClockOverlay::decode(&buf).is_err());
}

#[test]
fn test_clock_overlay_decode_invalid_magic() {
    let mut buf = vec![0u8; 40];
    buf[0] = b'X';
    buf[1] = b'Y';
    assert!(matches!(ClockOverlay::decode(&buf), Err(OverlayReceiveError::UnexpectedData)));
}

#[test]
fn test_clock_overlay_decode_unsupported_version() {
    let mut buf = vec![0u8; 40];
    buf[0] = b'V';
    buf[1] = b'C';
    buf[2..4].copy_from_slice(&99u16.to_ne_bytes());
    assert!(matches!(ClockOverlay::decode(&buf), Err(OverlayReceiveError::UnsupportedMajorVersion)));
}

#[test]
fn test_clock_overlay_decode_invalid_flags() {
    let mut buf = vec![0u8; 40];
    buf[0] = b'V';
    buf[1] = b'C';
    buf[2..4].copy_from_slice(&PROTOCOL_MAJOR_VERSION.to_ne_bytes());
    buf[6..8].copy_from_slice(&0u16.to_ne_bytes()); // flags = 0 (invalid)
    assert!(matches!(ClockOverlay::decode(&buf), Err(OverlayReceiveError::InvalidFlags)));
}

#[test]
fn decode_reads_negative_values() {
    let mut buf = vec![0u8; 40];
    buf[0] = b'V';
    buf[1] = b'C';
    buf[2..4].copy_from_slice(&PROTOCOL_MAJOR_VERSION.to_ne_bytes());
    buf[6..8].copy_from_slice(&1u16.to_ne_bytes());
    buf[24..32].copy_from_slice(&(-7i64).to_ne_bytes());
    buf[8..16].copy_from_slice(&i64::MIN.to_ne_bytes());
    let overlay = ClockOverlay::decode(&buf).unwrap();
    assert_eq!(overlay.shift, -7);
    assert_eq!(overlay.clock_id, i64::MIN);
}

#[test]
fn decode_in_either_byte_order() {
    let mut le = vec![0u8; 40];
    le[0] = b'V';
    le[1] = b'C';
    le[2..4].copy_from_slice(&1u16.to_le_bytes());
    le[6..8].copy_from_slice(&3u16.to_le_bytes());
    le[8..16].copy_from_slice(&0x0102_0304_0506_0708i64.to_le_bytes());
    le[16..24].copy_from_slice(&(-2i64).to_le_bytes());
    le[24..32].copy_from_slice(&123_456i64.to_le_bytes());
    le[32..40].copy_from_slice(&0.25f64.to_bits().to_le_bytes());
    let o = ClockOverlay::decode_in_order(&le, true).unwrap();
    assert_eq!(o.clock_id, 0x0102_0304_0506_0708);
    assert_eq!(o.last_sync, -2);
    assert_eq!(o.shift, 123_456);
    assert_eq!(f64::from_bits(o.freq_scale_bits), 0.25);
    // the same packet read big-endian has major version 256
    assert!(matches!(ClockOverlay::decode_in_order(&le, false), Err(OverlayReceiveError::UnsupportedMajorVersion)));

    let mut be = vec![0u8; 40];
    be[0] = b'V';
    be[1] = b'C';
    be[2..4].copy_from_slice(&1u16.to_be_bytes());
    be[6..8].copy_from_slice(&1u16.to_be_bytes());
    be[8..16].copy_from_slice(&0x0102_0304_0506_0708i64.to_be_bytes());
    be[16..24].copy_from_slice(&(-2i64).to_be_bytes());
    be[24..32].copy_from_slice(&123_456i64.to_be_bytes());
    be[32..40].copy_from_slice(&0.25f64.to_bits().to_be_bytes());
    let o = ClockOverlay::decode_in_order(&be, false).unwrap();
    assert_eq!(o.clock_id, 0x0102_0304_0506_0708);
    assert_eq!(o.last_sync, -2);
    assert_eq!(o.shift, 123_456);
    assert_eq!(f64::from_bits(o.freq_scale_bits), 0.25);
    assert!(matches!(ClockOverlay::decode_in_order(&be, true), Err(OverlayReceiveError::UnsupportedMajorVersion)));
    // with the version fixed, flags 1 read little-endian is 256: bit 0 clear
    be[2..4].copy_from_slice(&[1, 0]);
    assert!(matches!(ClockOverlay::decode_in_order(&be, true), Err(OverlayReceiveError::InvalidFlags)));
}

#[test]
fn overlay_error_messages() {
    assert_eq!(OverlayReceiveError::PacketTooShort.message(), "packet too short");
    assert_eq!(OverlayReceiveError::InvalidFlags.message(), "invalid flags (client too old?)");
}

#[test]
fn safe_timestamp_precise_only_when_not_estimated() {
    assert_eq!(SafeTimestamp { nanos: 5, estimated: false }.precise_ns(), Some(5));
    assert_eq!(SafeTimestamp { nanos: 5, estimated: true }.precise_ns(), None);
}

#[test]
fn filetime_conversion() {
    assert_eq!(filetime_to_unix_ns(116_444_736_000_000_000), 0);
    assert_eq!(filetime_to_unix_ns(116_444_736_000_000_001), 100);
}

#[test]
fn safe_clock_counts_from_its_anchor() {
    // 10 MHz counter anchored at the Unix epoch
    let c = SafeClock::new(1000, 116_444_736_000_000_000, 10_000_000);
    assert_eq!(c.unix_ns_at(1000), 0);
    assert_eq!(c.unix_ns_at(10_001_000), 1_000_000_000);
}

#[test]
fn safe_clock_is_monotonic_over_counter_values() {
    let c = SafeClock::new(5_000, 133_000_000_000_000_000, 3_579_545);
    let mut last = c.unix_ns_at(5_000);
    for counter in [5_001i64, 5_002, 10_000, 3_579_545, 1_000_000_000, 1_000_000_001] {
        let t = c.unix_ns_at(counter);
        assert!(t >= last, "clock should be monotonic: t1={} t2={}", last, t);
        last = t;
    }
}

#[test]
fn safe_clock_is_strictly_later_after_ten_milliseconds() {
    let c = SafeClock::new(1000, 116_444_736_000_000_000, 10_000_000);
    assert_eq!(c.unix_ns_at(101_000) - c.unix_ns_at(1000), 10_000_000);
    let c = SafeClock::new(5_000, 133_000_000_000_000_000, 3_579_545);
    for start in [5_000i64, 77_777, 3_579_545, 1_000_000_000] {
        let t1 = c.unix_ns_at(start);
        let t2 = c.unix_ns_at(start + 35_796);
        assert!(t2 > t1);
        assert!(t2 - t1 >= 10_000_000);
    }
}
