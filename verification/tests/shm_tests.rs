use inferno_aoip::shm::{ShmHeader, ShmReader, SHM_NAME};

#[test]
fn test_shm_name_encoding() {
    let _: Vec<u16> = SHM_NAME
        .encode_utf16()
        .chain(std::iter::once(0))
        .collect();
}

fn header_bytes(w: u32, ch: u32, rate: u32, frames: u32) -> Vec<u8> {
    let mut b = Vec::new();
    b.extend_from_slice(&w.to_le_bytes());
    b.extend_from_slice(&ch.to_le_bytes());
    b.extend_from_slice(&rate.to_le_bytes());
    b.extend_from_slice(&frames.to_le_bytes());
    b
}

#[test]
fn header_decodes_little_endian_fields() {
    let h = ShmHeader::from_bytes(&header_bytes(7, 2, 48000, 480)).unwrap();
    assert_eq!(h.write_index, 7);
    assert_eq!(h.channel_count, 2);
    assert_eq!(h.sample_rate, 48000);
    assert_eq!(h.buffer_frames, 480);
    assert_eq!(h.section_size(), 16 + 2 * 480 * 2);
    assert!(ShmHeader::from_bytes(&[0u8; 15]).is_none());
}

#[test]
fn open_checks_the_header() {
    let ok = ShmHeader { write_index: 3, channel_count: 2, sample_rate: 48000, buffer_frames: 8 };
    let r = ShmReader::open_at(ok, 1000).unwrap();
    assert_eq!(r.size(), 16 + 2 * 8 * 2);
    assert!(ShmReader::open_at(ShmHeader { channel_count: 0, ..ok }, 0).is_none());
    assert!(ShmReader::open_at(ShmHeader { channel_count: 65, ..ok }, 0).is_none());
    assert!(ShmReader::open_at(ShmHeader { sample_rate: 0, ..ok }, 0).is_none());
    assert!(ShmReader::open_at(ShmHeader { sample_rate: 192001, ..ok }, 0).is_none());
    assert!(ShmReader::open_at(ShmHeader { buffer_frames: 0, ..ok }, 0).is_none());
    assert!(ShmReader::open_at(ShmHeader { channel_count: 64, sample_rate: 192000, ..ok }, 0).is_some());
    assert!(ShmReader::open(ok).is_some());
}

fn ring(frames: usize, channels: usize) -> Vec<i16> {
    (0..frames * channels).map(|i| i as i16).collect()
}

#[test]
fn reads_frames_written_since_last_read() {
    let h0 = ShmHeader { write_index: 2, channel_count: 2, sample_rate: 48000, buffer_frames: 8 };
    let mut r = ShmReader::open_at(h0, 100).unwrap();
    let data = ring(8, 2);
    // nothing new
    assert_eq!(r.read_samples_at(h0, &data, 150), None);
    assert!(r.is_driver_active_at(300));
    assert!(!r.is_driver_active_at(301));
    // three frames: 2, 3, 4
    let h1 = ShmHeader { write_index: 5, ..h0 };
    assert_eq!(r.read_samples_at(h1, &data, 400), Some(vec![4, 5, 6, 7, 8, 9]));
    assert!(r.is_driver_active_at(600));
    // reading again at the same index gives nothing
    assert_eq!(r.read_samples_at(h1, &data, 500), None);
}

#[test]
fn reads_wrap_around_the_ring() {
    let h0 = ShmHeader { write_index: 6, channel_count: 1, sample_rate: 48000, buffer_frames: 8 };
    let mut r = ShmReader::open_at(h0, 0).unwrap();
    let data = ring(8, 1);
    let h1 = ShmHeader { write_index: 10, ..h0 };
    assert_eq!(r.read_samples_at(h1, &data, 10), Some(vec![6, 7, 0, 1]));
}

#[test]
fn a_full_lap_reads_nothing() {
    let h0 = ShmHeader { write_index: 1, channel_count: 1, sample_rate: 48000, buffer_frames: 4 };
    let mut r = ShmReader::open_at(h0, 0).unwrap();
    let data = ring(4, 1);
    let h1 = ShmHeader { write_index: 5, ..h0 };
    assert_eq!(r.read_samples_at(h1, &data, 10), None);
    // the position did not move, so the next write is read from the old one
    let h2 = ShmHeader { write_index: 6, ..h0 };
    assert_eq!(r.read_samples_at(h2, &data, 20), Some(vec![1]));
}
