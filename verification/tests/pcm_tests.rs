use inferno_aoip::pcm::{
    decode_int_sample, decode_pipe_sample, deinterleave_int, encode_pipe_frames, enqueue_frames,
    render_int_period, sample_offset,
};
use std::collections::VecDeque;

#[test]
fn render_writes_right_aligned_little_endian() {
    let mut q: VecDeque<i32> = VecDeque::from(vec![0x1234_5678, -256, 7]);
    // 24-bit device: shift right by 8, low three bytes
    let out = render_int_period(&mut q, 2, 3);
    assert_eq!(out, vec![0x56, 0x34, 0x12, 0xFF, 0xFF, 0xFF]);
    assert_eq!(q, VecDeque::from(vec![7]));
}

#[test]
fn render_pads_with_silence_when_queue_runs_dry() {
    let mut q: VecDeque<i32> = VecDeque::from(vec![0x0100_0000]);
    let out = render_int_period(&mut q, 3, 4);
    assert_eq!(out, vec![0, 0, 0, 1, 0, 0, 0, 0, 0, 0, 0, 0]);
    assert!(q.is_empty());
}

#[test]
fn render_16_bit() {
    let mut q: VecDeque<i32> = VecDeque::from(vec![i32::MIN, i32::MAX]);
    let out = render_int_period(&mut q, 2, 2);
    assert_eq!(out, vec![0x00, 0x80, 0xFF, 0x7F]);
}

#[test]
fn enqueue_interleaves_frames_and_pads_missing_channels() {
    let mut q: VecDeque<i32> = VecDeque::new();
    let data = vec![vec![1, 2, 3], vec![10, 20]];
    assert!(enqueue_frames(&mut q, 100, 3, 3, &data));
    assert_eq!(q, VecDeque::from(vec![1, 10, 0, 2, 20, 0, 3, 0, 0]));
}

#[test]
fn enqueue_drops_when_queue_full() {
    let mut q: VecDeque<i32> = VecDeque::from(vec![5; 4]);
    let data = vec![vec![1, 2]];
    assert!(!enqueue_frames(&mut q, 4, 2, 1, &data));
    assert_eq!(q.len(), 4);
    assert!(enqueue_frames(&mut q, 5, 2, 1, &data));
    assert_eq!(q, VecDeque::from(vec![5, 5, 5, 5, 1, 2]));
}

#[test]
fn enqueued_audio_is_rendered_in_order() {
    let mut q: VecDeque<i32> = VecDeque::new();
    let data = vec![vec![0x0100_0000, 0x0300_0000], vec![0x0200_0000, 0x0400_0000]];
    assert!(enqueue_frames(&mut q, 1000, 2, 2, &data));
    let out = render_int_period(&mut q, 4, 4);
    assert_eq!(out, vec![0, 0, 0, 1, 0, 0, 0, 2, 0, 0, 0, 3, 0, 0, 0, 4]);
}

#[test]
fn sample_offsets() {
    assert_eq!(sample_offset(1, 1, 8, 4, 2, 16), Some(12));
    assert_eq!(sample_offset(1, 2, 8, 4, 2, 100), None);
    assert_eq!(sample_offset(2, 0, 8, 4, 2, 16), None);
}

#[test]
fn decode_int_sample_left_justifies() {
    let data = [0x56, 0x34, 0x12, 0xAA];
    assert_eq!(decode_int_sample(&data, 0, 3), 0x1234_5600);
    assert_eq!(decode_int_sample(&data, 0, 4), 0xAA12_3400u32 as i32);
    assert_eq!(decode_int_sample(&[1, 0, 0, 0], 0, 4), 0);
    assert_eq!(decode_int_sample(&data, 1, 2), 0x1234_0000);
}

#[test]
fn deinterleave_takes_requested_channels() {
    // two frames of a 2-channel 16-bit device
    let data = [0x01, 0x00, 0x02, 0x00, 0x03, 0x00, 0x04, 0x00];
    let out = deinterleave_int(&data, 2, 4, 2, 2, 3);
    assert_eq!(out, vec![vec![0x0001_0000, 0x0003_0000], vec![0x0002_0000, 0x0004_0000], vec![0, 0]]);
}

#[test]
fn pipe_samples_reduce_to_16_bits() {
    let data = [0x00, 0x00, 0x80, 0x7F];
    assert_eq!(decode_pipe_sample(&data, 0, 4), 0x7F80);
    // 24-bit sample 0x800000 is the most negative
    let data = [0x00, 0x00, 0x80];
    assert_eq!(decode_pipe_sample(&data, 0, 3), -32768);
    let data = [0x34, 0x12];
    assert_eq!(decode_pipe_sample(&data, 0, 2), 0x1234);
}

#[test]
fn pipe_frames_are_16_bit_little_endian_with_silence() {
    // one frame of a 1-channel 16-bit device, piped as 2 channels
    let data = [0x34, 0x12];
    assert_eq!(encode_pipe_frames(&data, 1, 2, 2, 2, 1), vec![0x34, 0x12, 0x00, 0x00]);
    // a short buffer gives silence
    assert_eq!(encode_pipe_frames(&data, 2, 1, 2, 2, 1), vec![0x34, 0x12, 0x00, 0x00]);
}

#[test]
fn render_then_capture_clears_only_missing_bits() {
    for bps in 1..=4usize {
        let mut q: VecDeque<i32> = VecDeque::from(vec![0x1234_5678, -0x0765_4321]);
        let out = render_int_period(&mut q, 2, bps);
        let shift = 32 - 8 * bps as u32;
        for (k, raw) in [0x1234_5678i32, -0x0765_4321].iter().enumerate() {
            let expected = ((raw >> shift) << shift) & !0xff;
            assert_eq!(decode_int_sample(&out, k * bps, bps), expected);
        }
    }
}
