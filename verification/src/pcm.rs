use vstd::prelude::*;
use std::collections::VecDeque;

verus! {

// ---------------------------------------------------------------------------
// Integer sample formats
// ---------------------------------------------------------------------------

/// The `n` low bytes of `x`, least significant first.
pub open spec fn low_bytes(x: u32, n: nat) -> Seq<u8> {
    Seq::new(n, |k: int| ((x >> ((8 * k) as u32)) as u8))
}

/// How far a left-justified 32-bit sample is shifted to fill `bps` bytes.
pub open spec fn justify_shift(bps: nat) -> u32 {
    (32 - 8 * bps) as u32
}

/// The bytes written to an integer device for one left-justified sample: the
/// sample shifted right (sign-preserving) to the device's width, then its low
/// `bps` bytes.
pub open spec fn device_sample_bytes(raw: i32, bps: nat) -> Seq<u8> {
    low_bytes((raw >> justify_shift(bps)) as u32, bps)
}

/// The samples a device period takes from the queue: the first `needed`
/// queued samples, silence where the queue runs out.
pub open spec fn period_samples(queue: Seq<i32>, needed: nat) -> Seq<i32> {
    Seq::new(needed, |k: int| if k < queue.len() { queue[k] } else { 0i32 })
}

/// The bytes of `samples` for an integer device with `bps` bytes per sample.
pub open spec fn device_bytes(samples: Seq<i32>, bps: nat) -> Seq<u8>
    decreases samples.len(),
{
    if samples.len() == 0 {
        Seq::empty()
    } else {
        device_bytes(samples.drop_last(), bps) + device_sample_bytes(samples.last(), bps)
    }
}

/// The smaller of two numbers.
pub open spec fn min_nat(a: nat, b: nat) -> nat {
    if a < b { a } else { b }
}

/// The low `n` bytes of `x`, least significant first.
fn push_low_bytes(out: &mut Vec<u8>, x: u32, n: usize)
    requires
        n <= 4,
    ensures
        final(out)@ == old(out)@ + low_bytes(x, n as nat),
{
    let mut k: usize = 0;
    while k < n
        invariant
            k <= n <= 4,
            out@ == old(out)@ + low_bytes(x, k as nat),
        decreases n - k,
    {
        out.push((x >> ((8 * k) as u32)) as u8);
        k = k + 1;
        assert(out@ =~= old(out)@ + low_bytes(x, k as nat));
    }
}

/// Fill one period of an integer render device: take `needed` samples from
/// the front of the queue (silence once it is empty) and write each in
/// `bytes_per_sample` bytes.
pub fn render_int_period(queue: &mut VecDeque<i32>, needed: usize, bytes_per_sample: usize) -> (out: Vec<u8>)
    requires
        1 <= bytes_per_sample <= 4,
    ensures
        out@ == device_bytes(period_samples(old(queue)@, needed as nat), bytes_per_sample as nat),
        final(queue)@ == old(queue)@.skip(min_nat(needed as nat, old(queue)@.len()) as int),
{
    let mut out: Vec<u8> = Vec::new();
    let shift: u32 = (32 - bytes_per_sample * 8) as u32;
    let mut i: usize = 0;
    while i < needed
        invariant
            1 <= bytes_per_sample <= 4,
            shift == justify_shift(bytes_per_sample as nat),
            i <= needed,
            queue@ == old(queue)@.skip(min_nat(i as nat, old(queue)@.len()) as int),
            out@ == device_bytes(period_samples(old(queue)@, needed as nat).take(i as int), bytes_per_sample as nat),
        decreases needed - i,
    {
        let raw = match queue.pop_front() {
            Some(s) => s,
            None => 0,
        };
        let ghost taken = period_samples(old(queue)@, needed as nat);
        assert(raw == taken[i as int]);
        let shifted = raw >> shift;
        push_low_bytes(&mut out, shifted as u32, bytes_per_sample);
        proof {
            assert(taken.take(i + 1).drop_last() =~= taken.take(i as int));
            assert(queue@ =~= old(queue)@.skip(min_nat((i + 1) as nat, old(queue)@.len()) as int));
        }
        i = i + 1;
    }
    assert(period_samples(old(queue)@, needed as nat).take(needed as int) =~= period_samples(old(queue)@, needed as nat));
    out
}

/// A device period takes the queue's samples in order: when the queue holds
/// enough, the period is its front and what stays is the rest, so nothing is
/// lost, duplicated or reordered.
pub proof fn lemma_period_takes_front(queue: Seq<i32>, needed: nat)
    requires
        needed <= queue.len(),
    ensures
        period_samples(queue, needed) == queue.take(needed as int),
        queue.take(needed as int) + queue.skip(min_nat(needed, queue.len()) as int) == queue,
{
    assert(period_samples(queue, needed) =~= queue.take(needed as int));
    assert(queue.take(needed as int) + queue.skip(needed as int) =~= queue);
}

/// Once the queue runs dry, a period is the whole queue followed by silence.
pub proof fn lemma_period_pads_silence(queue: Seq<i32>, needed: nat)
    requires
        queue.len() <= needed,
    ensures
        period_samples(queue, needed) == queue + Seq::new((needed - queue.len()) as nat, |k: int| 0i32),
{
    assert(period_samples(queue, needed) =~= queue + Seq::new((needed - queue.len()) as nat, |k: int| 0i32));
}

// ---------------------------------------------------------------------------
// Receiving into the render queue
// ---------------------------------------------------------------------------

/// The sample of channel `ch` at `frame`, silence where the data has none.
pub open spec fn channel_sample(channel_data: Seq<Vec<i32>>, ch: int, frame: int) -> i32 {
    if 0 <= ch < channel_data.len() && 0 <= frame < channel_data[ch]@.len() {
        channel_data[ch]@[frame]
    } else {
        0i32
    }
}

/// `frames` frames of `channels` channels, interleaved.
pub open spec fn interleaved(channel_data: Seq<Vec<i32>>, frames: nat, channels: nat) -> Seq<i32> {
    Seq::new(frames * channels, |k: int| channel_sample(channel_data, k % (channels as int), k / (channels as int)))
}

/// Append received audio to the render queue, frame by frame, unless the queue
/// already holds `max_queue` samples or more, in which case the audio is
/// dropped. Returns whether it was queued.
pub fn enqueue_frames(
    queue: &mut VecDeque<i32>,
    max_queue: usize,
    num_samples: usize,
    channels: usize,
    channel_data: &Vec<Vec<i32>>,
) -> (queued: bool)
    requires
        num_samples * channels + old(queue)@.len() <= usize::MAX,
    ensures
        queued == (old(queue)@.len() < max_queue),
        queued ==> final(queue)@ == old(queue)@ + interleaved(channel_data@, num_samples as nat, channels as nat),
        !queued ==> final(queue)@ == old(queue)@,
{
    if queue.len() >= max_queue {
        return false;
    }
    let ghost start = queue@;
    let mut frame: usize = 0;
    while frame < num_samples
        invariant
            frame <= num_samples,
            queue@.len() == start.len() + frame * channels,
            num_samples * channels + start.len() <= usize::MAX,
            queue@ =~= start + interleaved(channel_data@, frame as nat, channels as nat),
        decreases num_samples - frame,
    {
        let mut ch: usize = 0;
        while ch < channels
            invariant
                frame < num_samples,
                ch <= channels,
                num_samples * channels + start.len() <= usize::MAX,
                queue@ =~= start + interleaved(channel_data@, frame as nat, channels as nat) + Seq::new(
                    ch as nat,
                    |c: int| channel_sample(channel_data@, c, frame as int),
                ),
            decreases channels - ch,
        {
            let sample = if ch < channel_data.len() && frame < channel_data[ch].len() {
                channel_data[ch][frame]
            } else {
                0
            };
            queue.push_back(sample);
            ch = ch + 1;
        }
        proof {
            lemma_interleaved_step(channel_data@, frame as nat, channels as nat);
        }
        frame = frame + 1;
    }
    true
}

proof fn lemma_interleaved_step(channel_data: Seq<Vec<i32>>, frame: nat, channels: nat)
    ensures
        interleaved(channel_data, frame + 1, channels) =~= interleaved(channel_data, frame, channels)
            + Seq::new(channels, |c: int| channel_sample(channel_data, c, frame as int)),
{
    let a = interleaved(channel_data, frame + 1, channels);
    let b = interleaved(channel_data, frame, channels) + Seq::new(channels, |c: int| channel_sample(channel_data, c, frame as int));
    assert((frame + 1) * channels == frame * channels + channels) by (nonlinear_arith);
    assert forall|k: int| 0 <= k < a.len() implies a[k] == b[k] by {
        if channels > 0 {
            if k < frame * channels {
                assert(k / (channels as int) < frame) by (nonlinear_arith)
                    requires
                        0 <= k < frame * channels,
                        channels > 0,
                ;
            } else {
                let c = k - frame * channels;
                assert(0 <= c < channels);
                vstd::arithmetic::div_mod::lemma_fundamental_div_mod_converse(k, channels as int, frame as int, c);
            }
        }
    }
}

// ---------------------------------------------------------------------------
// Capturing from an integer device
// ---------------------------------------------------------------------------

/// Where the sample of channel `ch` at `frame` starts in a capture buffer, if the
/// device has that channel and the buffer holds the whole sample.
pub open spec fn sample_position(frame: nat, ch: nat, blockalign: nat, bps: nat, dev_channels: nat, len: nat) -> Option<nat> {
    let offset = frame * blockalign + ch * bps;
    if ch < dev_channels && offset + bps <= len { Some(offset) } else { None }
}

/// Where the sample of channel `ch` at `frame` starts in a capture buffer of
/// `data_len` bytes, or `None` for silence.
pub fn sample_offset(
    frame: usize,
    ch: usize,
    blockalign: usize,
    bytes_per_sample: usize,
    dev_channels: usize,
    data_len: usize,
) -> (r: Option<usize>)
    requires
        frame * blockalign + ch * bytes_per_sample + bytes_per_sample <= usize::MAX,
    ensures
        (r matches Some(o) ==> sample_position(frame as nat, ch as nat, blockalign as nat, bytes_per_sample as nat, dev_channels as nat, data_len as nat) == Some(o as nat)),
        (r is None ==> sample_position(frame as nat, ch as nat, blockalign as nat, bytes_per_sample as nat, dev_channels as nat, data_len as nat) is None),
{
    if ch < dev_channels {
        proof {
            assert(frame * blockalign <= frame * blockalign + ch * bytes_per_sample);
        }
        let offset = frame * blockalign + ch * bytes_per_sample;
        if offset + bytes_per_sample <= data_len {
            return Some(offset);
        }
    }
    None
}

/// The little-endian value of up to four bytes at `offset`.
pub open spec fn le_u32_prefix(data: Seq<u8>, offset: int, n: nat) -> u32
    decreases n,
{
    if n == 0 {
        0
    } else {
        (data[offset] as u32 + 256 * le_u32_prefix(data, offset + 1, (n - 1) as nat)) as u32
    }
}

/// A captured integer sample as a 24-bit left-justified value: its (at most
/// four) little-endian bytes, shifted up by the bits the sample lacks, with the
/// low 8 bits cleared.
pub open spec fn capture_int_sample(data: Seq<u8>, offset: int, bps: nat) -> i32 {
    let n = if bps < 4 { bps } else { 4 };
    let shift: u32 = if 8 * bps < 32 { (32 - 8 * bps) as u32 } else { 0 };
    ((le_u32_prefix(data, offset, n) << shift) & 0xffff_ff00u32) as i32
}

/// A sample rendered to an integer device and captured back from it is the
/// sample with the low bits the device lacks cleared, and at least the low 8
/// (captures are 24-bit): rendering and capturing agree on byte order and
/// justification.
pub proof fn lemma_render_capture_roundtrip(raw: i32, bps: nat)
    requires
        1 <= bps <= 4,
    ensures
        capture_int_sample(device_sample_bytes(raw, bps), 0, bps)
            == ((raw >> justify_shift(bps)) << justify_shift(bps)) & !0xffi32,
{
    reveal_with_fuel(le_u32_prefix, 5);
    let sh = justify_shift(bps);
    let x: u32 = #[verifier::truncate] ((raw >> sh) as u32);
    let d = device_sample_bytes(raw, bps);
    let b0: u8 = #[verifier::truncate] (x as u8);
    let b1: u8 = #[verifier::truncate] ((x >> 8u32) as u8);
    let b2: u8 = #[verifier::truncate] ((x >> 16u32) as u8);
    let b3: u8 = #[verifier::truncate] ((x >> 24u32) as u8);
    assert(x >> 0u32 == x) by (bit_vector);
    assert(d[0] == b0);
    if bps == 1 {
        assert(sh == 24u32);
        assert((((((b0 as u32 + 256 * 0u32) as u32) << 24u32) & 0xffff_ff00u32) as i32) == ((raw >> 24u32) << 24u32) & !0xffi32) by (bit_vector)
            requires
                x == (raw >> 24u32) as u32,
                b0 == x as u8,
        ;
    } else if bps == 2 {
        assert(d[1] == b1);
        assert(sh == 16u32);
        assert((((((b0 as u32 + 256 * ((b1 as u32 + 256 * 0u32) as u32)) as u32) << 16u32) & 0xffff_ff00u32) as i32)
            == ((raw >> 16u32) << 16u32) & !0xffi32) by (bit_vector)
            requires
                x == (raw >> 16u32) as u32,
                b0 == x as u8,
                b1 == (x >> 8u32) as u8,
        ;
    } else if bps == 3 {
        assert(d[1] == b1);
        assert(d[2] == b2);
        assert(sh == 8u32);
        assert((((((b0 as u32 + 256 * ((b1 as u32 + 256 * ((b2 as u32 + 256 * 0u32) as u32)) as u32)) as u32)
            << 8u32) & 0xffff_ff00u32) as i32) == ((raw >> 8u32) << 8u32) & !0xffi32) by (bit_vector)
            requires
                x == (raw >> 8u32) as u32,
                b0 == x as u8,
                b1 == (x >> 8u32) as u8,
                b2 == (x >> 16u32) as u8,
        ;
    } else {
        assert(d[1] == b1);
        assert(d[2] == b2);
        assert(d[3] == b3);
        assert(sh == 0u32);
        assert((((((b0 as u32 + 256 * ((b1 as u32 + 256 * ((b2 as u32 + 256 * ((b3 as u32 + 256 * 0u32) as u32))
            as u32)) as u32)) as u32) << 0u32) & 0xffff_ff00u32) as i32) == ((raw >> 0u32) << 0u32) & !0xffi32) by (bit_vector)
            requires
                x == (raw >> 0u32) as u32,
                b0 == x as u8,
                b1 == (x >> 8u32) as u8,
                b2 == (x >> 16u32) as u8,
                b3 == (x >> 24u32) as u8,
        ;
    }
}

/// Read up to four little-endian bytes at `offset`.
fn read_le_prefix(data: &[u8], offset: usize, n: usize) -> (r: u32)
    requires
        n <= 4,
        offset + n <= data@.len(),
    ensures
        r == le_u32_prefix(data@, offset as int, n as nat),
    decreases n,
{
    let dlen = data.len();
    if n == 0 {
        0
    } else {
        assert(offset < dlen);
        let rest = read_le_prefix(data, offset + 1, n - 1);
        proof {
            lemma_le_prefix_bound(data@, offset as int + 1, (n - 1) as nat);
        }
        (data[offset] as u32) + 256 * rest
    }
}

proof fn lemma_le_prefix_bound(data: Seq<u8>, offset: int, n: nat)
    requires
        n <= 3,
    ensures
        le_u32_prefix(data, offset, n) < if n == 0 { 1u32 } else if n == 1 { 256u32 } else if n == 2 { 65536u32 } else { 16777216u32 },
    decreases n,
{
    if n > 0 {
        lemma_le_prefix_bound(data, offset + 1, (n - 1) as nat);
    }
}

/// The sample of an integer capture device at `offset`, left-justified.
pub fn decode_int_sample(data: &[u8], offset: usize, bytes_per_sample: usize) -> (r: i32)
    requires
        1 <= bytes_per_sample,
        offset + bytes_per_sample <= data@.len(),
    ensures
        r == capture_int_sample(data@, offset as int, bytes_per_sample as nat),
{
    let n = if bytes_per_sample < 4 { bytes_per_sample } else { 4 };
    let shift: u32 = if bytes_per_sample < 4 { (32 - 8 * bytes_per_sample) as u32 } else { 0 };
    let v = read_le_prefix(data, offset, n);
    ((v << shift) & 0xffff_ff00u32) as i32
}

/// One channel of an integer capture: the samples of channel `ch` for each frame.
pub open spec fn captured_channel(data: Seq<u8>, frames: nat, ch: nat, blockalign: nat, bps: nat, dev_channels: nat) -> Seq<i32> {
    Seq::new(frames, |f: int|
        match sample_position(f as nat, ch, blockalign, bps, dev_channels, data.len()) {
            Some(o) => capture_int_sample(data, o as int, bps),
            None => 0i32,
        })
}

/// De-interleave `frames` frames of an integer capture into `channels` channels
/// of left-justified samples; channels the device lacks are silent.
pub fn deinterleave_int(
    data: &[u8],
    frames: usize,
    blockalign: usize,
    bytes_per_sample: usize,
    dev_channels: usize,
    channels: usize,
) -> (out: Vec<Vec<i32>>)
    requires
        1 <= bytes_per_sample,
        frames * blockalign + channels * bytes_per_sample + bytes_per_sample <= usize::MAX,
    ensures
        out@.len() == channels,
        forall|ch: int| 0 <= ch < channels ==> #[trigger] out@[ch]@ == captured_channel(
            data@, frames as nat, ch as nat, blockalign as nat, bytes_per_sample as nat, dev_channels as nat),
{
    let mut out: Vec<Vec<i32>> = Vec::new();
    let mut ch: usize = 0;
    while ch < channels
        invariant
            1 <= bytes_per_sample,
            frames * blockalign + channels * bytes_per_sample + bytes_per_sample <= usize::MAX,
            ch <= channels,
            out@.len() == ch,
            forall|c: int| 0 <= c < ch ==> #[trigger] out@[c]@ == captured_channel(
                data@, frames as nat, c as nat, blockalign as nat, bytes_per_sample as nat, dev_channels as nat),
        decreases channels - ch,
    {
        let mut samples: Vec<i32> = Vec::new();
        let mut f: usize = 0;
        while f < frames
            invariant
                1 <= bytes_per_sample,
                ch < channels,
                frames * blockalign + channels * bytes_per_sample + bytes_per_sample <= usize::MAX,
                f <= frames,
                samples@ == captured_channel(
                    data@, frames as nat, ch as nat, blockalign as nat, bytes_per_sample as nat, dev_channels as nat,
                ).take(f as int),
            decreases frames - f,
        {
            proof {
                assert(f * blockalign <= frames * blockalign) by (nonlinear_arith)
                    requires
                        f <= frames,
                ;
                assert(ch * bytes_per_sample <= channels * bytes_per_sample) by (nonlinear_arith)
                    requires
                        ch <= channels,
                ;
            }
            let s = match sample_offset(f, ch, blockalign, bytes_per_sample, dev_channels, data.len()) {
                Some(o) => decode_int_sample(data, o, bytes_per_sample),
                None => 0,
            };
            samples.push(s);
            f = f + 1;
            assert(samples@ =~= captured_channel(
                data@, frames as nat, ch as nat, blockalign as nat, bytes_per_sample as nat, dev_channels as nat,
            ).take(f as int));
        }
        assert(samples@ =~= captured_channel(
            data@, frames as nat, ch as nat, blockalign as nat, bytes_per_sample as nat, dev_channels as nat));
        out.push(samples);
        ch = ch + 1;
    }
    out
}

// ---------------------------------------------------------------------------
// Piping integer captures as 16-bit PCM
// ---------------------------------------------------------------------------

/// A captured integer sample reduced to 16 bits: the left-justified sample
/// shifted down by 16 (its most significant 16 bits).
pub open spec fn pipe_int_sample(data: Seq<u8>, offset: int, bps: nat) -> i16 {
    (capture_int_sample(data, offset, bps) >> 16u32) as i16
}

/// The 16-bit sample of an integer capture at `offset`.
pub fn decode_pipe_sample(data: &[u8], offset: usize, bytes_per_sample: usize) -> (r: i16)
    requires
        1 <= bytes_per_sample,
        offset + bytes_per_sample <= data@.len(),
    ensures
        r == pipe_int_sample(data@, offset as int, bytes_per_sample as nat),
{
    let v = decode_int_sample(data, offset, bytes_per_sample);
    let s = v >> 16u32;
    assert(-32768 <= s <= 32767) by (bit_vector)
        requires
            s == v >> 16u32,
    ;
    s as i16
}

/// The 16-bit samples piped for an integer capture: `channels` per frame,
/// silence where the device has no such channel or the buffer ends early.
pub open spec fn pipe_samples(data: Seq<u8>, frames: nat, channels: nat, blockalign: nat, bps: nat, dev_channels: nat) -> Seq<i16> {
    Seq::new(frames * channels, |k: int|
        match sample_position((k / (channels as int)) as nat, (k % (channels as int)) as nat, blockalign, bps, dev_channels, data.len()) {
            Some(o) => pipe_int_sample(data, o as int, bps),
            None => 0i16,
        })
}

/// Samples as 16-bit little-endian bytes.
pub open spec fn le16_bytes(samples: Seq<i16>) -> Seq<u8> {
    Seq::new(samples.len() * 2, |k: int|
        if k % 2 == 0 { ((samples[k / 2] as u16) % 256) as u8 } else { ((samples[k / 2] as u16) / 256) as u8 })
}

proof fn lemma_le16_push(samples: Seq<i16>, s: i16)
    ensures
        le16_bytes(samples.push(s)) =~= le16_bytes(samples).push(((s as u16) % 256) as u8).push(((s as u16) / 256) as u8),
{
    let a = le16_bytes(samples.push(s));
    let b = le16_bytes(samples).push(((s as u16) % 256) as u8).push(((s as u16) / 256) as u8);
    let n = samples.len();
    assert forall|k: int| 0 <= k < a.len() implies a[k] == b[k] by {
        vstd::arithmetic::div_mod::lemma_fundamental_div_mod(k, 2);
        if k < 2 * n {
            assert(k / 2 < n);
        } else if k == 2 * n {
            vstd::arithmetic::div_mod::lemma_fundamental_div_mod_converse(k, 2, n as int, 0);
        } else {
            vstd::arithmetic::div_mod::lemma_fundamental_div_mod_converse(k, 2, n as int, 1);
        }
    }
}

/// The bytes piped out for `frames` frames of an integer capture: `channels`
/// channels per frame, each as 16-bit little-endian, silence where the device
/// has no such channel.
pub fn encode_pipe_frames(
    data: &[u8],
    frames: usize,
    channels: usize,
    blockalign: usize,
    bytes_per_sample: usize,
    dev_channels: usize,
) -> (out: Vec<u8>)
    requires
        1 <= bytes_per_sample,
        frames * blockalign + channels * bytes_per_sample + bytes_per_sample <= usize::MAX,
        frames * channels * 2 <= usize::MAX,
    ensures
        out@ == le16_bytes(pipe_samples(data@, frames as nat, channels as nat, blockalign as nat, bytes_per_sample as nat, dev_channels as nat)),
{
    let ghost all = pipe_samples(data@, frames as nat, channels as nat, blockalign as nat, bytes_per_sample as nat, dev_channels as nat);
    let mut out: Vec<u8> = Vec::new();
    let mut frame: usize = 0;
    while frame < frames
        invariant
            1 <= bytes_per_sample,
            frames * blockalign + channels * bytes_per_sample + bytes_per_sample <= usize::MAX,
            all == pipe_samples(data@, frames as nat, channels as nat, blockalign as nat, bytes_per_sample as nat, dev_channels as nat),
            frame <= frames,
            out@ == le16_bytes(all.take(frame * channels)),
        decreases frames - frame,
    {
        proof {
            assert(frame * blockalign <= frames * blockalign) by (nonlinear_arith)
                requires
                    frame <= frames,
            ;
            assert((frame + 1) * channels <= frames * channels) by (nonlinear_arith)
                requires
                    frame + 1 <= frames,
            ;
            assert((frame + 1) * channels == frame * channels + channels) by (nonlinear_arith);
        }
        let mut ch: usize = 0;
        while ch < channels
            invariant
                1 <= bytes_per_sample,
                frames * blockalign + channels * bytes_per_sample + bytes_per_sample <= usize::MAX,
                frame * blockalign <= frames * blockalign,
                all == pipe_samples(data@, frames as nat, channels as nat, blockalign as nat, bytes_per_sample as nat, dev_channels as nat),
                frame < frames,
                frame * channels + channels <= frames * channels,
                ch <= channels,
                out@ == le16_bytes(all.take(frame * channels + ch)),
            decreases channels - ch,
        {
            proof {
                assert(ch * bytes_per_sample <= channels * bytes_per_sample) by (nonlinear_arith)
                    requires
                        ch <= channels,
                ;
            }
            let s: i16 = match sample_offset(frame, ch, blockalign, bytes_per_sample, dev_channels, data.len()) {
                Some(o) => decode_pipe_sample(data, o, bytes_per_sample),
                None => 0,
            };
            proof {
                let k = frame * channels + ch;
                vstd::arithmetic::div_mod::lemma_fundamental_div_mod_converse(k, channels as int, frame as int, ch as int);
                assert(all[k] == s);
                assert(all.take(k + 1) =~= all.take(k).push(s));
                lemma_le16_push(all.take(k), s);
            }
            let u = s as u16;
            out.push((u % 256) as u8);
            out.push((u / 256) as u8);
            ch = ch + 1;
        }
        frame = frame + 1;
    }
    assert(all.take(frames * channels) =~= all);
    out
}

} // verus!
