use inferno_aoip::mcast::{make_channel_change_notification, make_packet, HEADER_LENGTH};
use inferno_aoip::ptp::{
    fallback_step, offset_from_sync, parse_ptp_sync, FallbackEvent, PtpState, PTP_MESSAGE_SIZE,
};
use std::time::Instant;

#[test]
fn make_packet_layout() {
    let mut buf = [0u8; 64];
    let p = make_packet(
        &mut buf,
        0xffff,
        0x0102,
        0x0304,
        [1, 2, 3, 4, 5, 6, 7, 8],
        *b"Audinate",
        [0x07, 0x2a, 1, 2, 0, 0, 0, 0],
        &[0xAA, 0xBB],
    );
    assert_eq!(p.len(), HEADER_LENGTH + 2);
    assert_eq!(&p[0..8], &[0xff, 0xff, 0x00, 34, 0x01, 0x02, 0x03, 0x04]);
    assert_eq!(&p[8..16], &[1, 2, 3, 4, 5, 6, 7, 8]);
    assert_eq!(&p[16..24], b"Audinate");
    assert_eq!(&p[24..32], &[0x07, 0x2a, 1, 2, 0, 0, 0, 0]);
    assert_eq!(&p[32..], &[0xAA, 0xBB]);
}

#[test]
fn channel_change_notification_mask() {
    let msg = make_channel_change_notification(&vec![0, 3, 9]);
    assert_eq!(msg.start_code, 0xffff);
    assert_eq!(msg.opcode, [0x07, 0x2a, 1, 2, 0, 0, 0, 0]);
    assert_eq!(msg.content, vec![0x00, 0x02, 0b0000_1001, 0b0000_0010]);
    let empty = make_channel_change_notification(&vec![]);
    assert_eq!(empty.content, vec![0x00, 0x01, 0x00]);
}

fn sync_message(seconds: u32, nanos: u32) -> Vec<u8> {
    let mut b = vec![0u8; PTP_MESSAGE_SIZE];
    b[0] = 1;
    b[1] = 1;
    b[28] = 1;
    b[40..44].copy_from_slice(&seconds.to_be_bytes());
    b[44..48].copy_from_slice(&nanos.to_be_bytes());
    b[62..68].copy_from_slice(&[0xA, 0xB, 0xC, 0xD, 0xE, 0xF]);
    b[72] = 0x12;
    b[73] = 0x34;
    b
}

#[test]
fn offset_from_sync_measures_against_local_time() {
    let msg = sync_message(2, 500);
    let o = offset_from_sync(&msg, Some(3_000_000_000), Instant::now()).unwrap();
    assert_eq!(o.offset_ns, 3_000_000_000 - 2_000_000_500);
    assert_eq!(o.grandmaster_id, [0xA, 0xB, 0xC, 0xD, 0xE, 0xF]);
    assert_eq!(o.sequence_id, 0x1234);
    assert!(offset_from_sync(&msg, None, Instant::now()).is_none());
}

#[test]
fn non_sync_messages_are_ignored() {
    let mut msg = sync_message(1, 1);
    msg[28] = 2;
    assert!(offset_from_sync(&msg, Some(5), Instant::now()).is_none());
    assert!(parse_ptp_sync(&msg, None).is_none());
    assert!(parse_ptp_sync(&msg[..100], None).is_none());
    let good = sync_message(1, 1);
    assert!(parse_ptp_sync(&good, None).is_some());
}

#[test]
fn fallback_monitor_steps() {
    let gm = [1, 2, 3, 4, 5, 6];
    let s = fallback_step(PtpState::FreRunning, &FallbackEvent::Offset { grandmaster_id: gm });
    assert!(matches!(s.state, PtpState::Synced { grandmaster_id } if grandmaster_id == gm));
    assert!(s.publish && s.resumed);
    let s2 = fallback_step(s.state, &FallbackEvent::Tick { since_last_sync_ns: 1_000 });
    assert!(matches!(s2.state, PtpState::Synced { .. }));
    assert!(!s2.publish);
    let s3 = fallback_step(s2.state, &FallbackEvent::Tick { since_last_sync_ns: 5_000_000_001 });
    assert!(matches!(s3.state, PtpState::FreRunning));
    assert!(s3.publish && !s3.resumed);
    let s4 = fallback_step(s3.state, &FallbackEvent::Tick { since_last_sync_ns: 9_000_000_000 });
    assert!(matches!(s4.state, PtpState::FreRunning));
    assert!(!s4.publish);
}

#[test]
fn fallback_monitor_over_a_stream() {
    let gm1 = [1, 1, 1, 1, 1, 1];
    let gm2 = [2, 2, 2, 2, 2, 2];
    let events = [
        FallbackEvent::Tick { since_last_sync_ns: 9_000_000_000 },
        FallbackEvent::Offset { grandmaster_id: gm1 },
        FallbackEvent::Tick { since_last_sync_ns: 1_000_000_000 },
        FallbackEvent::Tick { since_last_sync_ns: 6_000_000_000 },
        FallbackEvent::Tick { since_last_sync_ns: 7_000_000_000 },
        FallbackEvent::Offset { grandmaster_id: gm2 },
        FallbackEvent::Offset { grandmaster_id: gm2 },
    ];
    let mut state = PtpState::FreRunning;
    let mut published: Vec<PtpState> = Vec::new();
    for e in events.iter() {
        let s = fallback_step(state, e);
        state = s.state;
        if s.publish {
            published.push(state);
        }
    }
    assert_eq!(published.len(), 4);
    assert!(matches!(published[0], PtpState::Synced { grandmaster_id } if grandmaster_id == gm1));
    assert!(matches!(published[1], PtpState::FreRunning));
    assert!(matches!(published[2], PtpState::Synced { grandmaster_id } if grandmaster_id == gm2));
    assert!(matches!(published[3], PtpState::Synced { grandmaster_id } if grandmaster_id == gm2));
    assert!(matches!(state, PtpState::Synced { grandmaster_id } if grandmaster_id == gm2));
}
