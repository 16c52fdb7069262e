//! The shared memory section through which the virtual audio driver hands
//! interleaved 16-bit PCM to the service: a 16-byte header, then a ring of
//! `buffer_frames` frames of `channel_count` samples each.

use vstd::prelude::*;
use crate::ptp::unix_time_nanos;

verus! {

/// Name of the section written by the driver.
pub const SHM_NAME: &'static str = "Global\\InfernoAudioShm";
/// Size of the header at offset 0 of the section.
pub const SHM_HEADER_BYTES: usize = 16;
/// Most channels a header may announce.
pub const SHM_MAX_CHANNELS: u32 = 64;
/// Highest sample rate a header may announce.
pub const SHM_MAX_SAMPLE_RATE: u32 = 192000;
/// How long the write index may stand still before the driver counts as idle.
pub const DRIVER_IDLE_MS: u64 = 200;

/// Header at offset 0 of the shared memory.
#[derive(Debug, Clone, Copy)]
pub struct ShmHeader {
    pub write_index: u32,
    pub channel_count: u32,
    pub sample_rate: u32,
    pub buffer_frames: u32,
}

/// The little-endian 32-bit number at `i`.
pub open spec fn le32_at(b: Seq<u8>, i: int) -> nat {
    (b[i] as nat) + (b[i + 1] as nat) * 256 + (b[i + 2] as nat) * 65536 + (b[i + 3] as nat) * 16777216
}

/// Read the little-endian 32-bit number at `i`.
fn read_le32(b: &[u8], i: usize) -> (r: u32)
    requires
        i + 4 <= b@.len(),
    ensures
        r == le32_at(b@, i as int),
{
    (b[i] as u32) + (b[i + 1] as u32) * 256 + (b[i + 2] as u32) * 65536 + (b[i + 3] as u32) * 16777216
}

/// Milliseconds since the Unix epoch, 0 when the system clock is set before it.
fn unix_time_millis() -> u64 {
    match unix_time_nanos() {
        Some(n) => (n / 1_000_000) as u64,
        None => 0,
    }
}

impl ShmHeader {
    /// The driver announced a usable layout.
    pub open spec fn is_valid(self) -> bool {
        &&& 1 <= self.channel_count <= SHM_MAX_CHANNELS
        &&& 1 <= self.sample_rate <= SHM_MAX_SAMPLE_RATE
        &&& self.buffer_frames >= 1
    }

    /// Bytes of the section the header describes: header and ring.
    pub open spec fn section_bytes(self) -> nat {
        SHM_HEADER_BYTES as nat + (self.channel_count as nat) * (self.buffer_frames as nat) * 2
    }

    /// Decode the header from the start of the section; `None` when fewer than
    /// 16 bytes are given.
    pub fn from_bytes(bytes: &[u8]) -> (r: Option<ShmHeader>)
        ensures
            r is Some <==> bytes@.len() >= SHM_HEADER_BYTES,
            (r matches Some(h) ==> {
                &&& h.write_index == le32_at(bytes@, 0)
                &&& h.channel_count == le32_at(bytes@, 4)
                &&& h.sample_rate == le32_at(bytes@, 8)
                &&& h.buffer_frames == le32_at(bytes@, 12)
            }),
    {
        if bytes.len() < SHM_HEADER_BYTES {
            return None;
        }
        Some(ShmHeader {
            write_index: read_le32(bytes, 0),
            channel_count: read_le32(bytes, 4),
            sample_rate: read_le32(bytes, 8),
            buffer_frames: read_le32(bytes, 12),
        })
    }

    /// Whether the header announces a usable layout.
    pub fn check(&self) -> (ok: bool)
        ensures
            ok == self.is_valid(),
    {
        self.channel_count >= 1 && self.channel_count <= SHM_MAX_CHANNELS && self.sample_rate >= 1
            && self.sample_rate <= SHM_MAX_SAMPLE_RATE && self.buffer_frames >= 1
    }

    /// Bytes of the section the header describes.
    pub fn section_size(&self) -> (r: u64)
        requires
            self.channel_count <= SHM_MAX_CHANNELS,
        ensures
            r == self.section_bytes(),
    {
        proof {
            assert((self.channel_count as nat) * (self.buffer_frames as nat) <= 64 * 0xffff_ffff)
                by (nonlinear_arith)
                requires
                    self.channel_count <= 64,
                    self.buffer_frames <= 0xffff_ffff,
            ;
        }
        16 + (self.channel_count as u64) * (self.buffer_frames as u64) * 2
    }
}

/// Frames written between ring positions `start` and `end` of a ring of `frames`
/// frames (none when they are equal).
pub open spec fn frames_between(start: nat, end: nat, frames: nat) -> nat {
    if end > start {
        (end - start) as nat
    } else if end < start {
        (frames - start + end) as nat
    } else {
        0
    }
}

/// `count` frames of the ring, from frame `start` on and wrapping at its end,
/// interleaved: sample `k` is channel `k % channels` of frame `start + k / channels`.
pub open spec fn ring_samples(ring: Seq<i16>, channels: nat, frames: nat, start: nat, count: nat) -> Seq<i16> {
    Seq::new(
        count * channels,
        |k: int| ring[((start + k / (channels as int)) % (frames as int)) * channels + k % (channels as int)],
    )
}

/// Frames that a read at write index `header.write_index` takes, from read
/// position `cursor`.
pub open spec fn pending_frames(cursor: u32, header: ShmHeader) -> nat {
    let frames = header.buffer_frames as nat;
    frames_between((cursor as nat) % frames, (header.write_index as nat) % frames, frames)
}

/// The samples a read hands out: none while the write index stands still or
/// has come round to the same ring position, else the frames written since.
pub open spec fn read_result(cursor: u32, header: ShmHeader, ring: Seq<i16>) -> Option<Seq<i16>> {
    if header.write_index == cursor || pending_frames(cursor, header) == 0 {
        None
    } else {
        let frames = header.buffer_frames as nat;
        Some(ring_samples(ring, header.channel_count as nat, frames, (cursor as nat) % frames, pending_frames(cursor, header)))
    }
}

/// The read position after a read: the write index once frames were handed out.
pub open spec fn next_cursor(cursor: u32, header: ShmHeader) -> u32 {
    if header.write_index == cursor || pending_frames(cursor, header) == 0 {
        cursor
    } else {
        header.write_index
    }
}

/// The time of last activity after a read at `now`: moved whenever the write
/// index moved.
pub open spec fn next_active(cursor: u32, active: u64, header: ShmHeader, now: u64) -> u64 {
    if header.write_index == cursor { active } else { now }
}

/// Reader of the driver's ring: where it last read and when the driver last
/// wrote.
pub struct ShmReader {
    size: u64,
    last_write_index: u32,
    last_active_time: u64,
}

impl ShmReader {
    /// The write index up to which the ring has been read.
    pub closed spec fn cursor(&self) -> u32 {
        self.last_write_index
    }

    /// When the driver was last seen writing, in ms since the Unix epoch.
    pub closed spec fn active_at(&self) -> u64 {
        self.last_active_time
    }

    /// Bytes of the section the reader was opened on.
    pub closed spec fn size_spec(&self) -> u64 {
        self.size
    }

    /// Start reading a section whose header is `header`, at time `now_ms`;
    /// `None` when the header announces no usable layout.
    pub fn open_at(header: ShmHeader, now_ms: u64) -> (r: Option<ShmReader>)
        ensures
            r is Some <==> header.is_valid(),
            (r matches Some(rd) ==> {
                &&& rd.cursor() == header.write_index
                &&& rd.active_at() == now_ms
                &&& rd.size_spec() == header.section_bytes()
            }),
    {
        if !header.check() {
            return None;
        }
        Some(ShmReader { size: header.section_size(), last_write_index: header.write_index, last_active_time: now_ms })
    }

    /// Start reading a section whose header is `header`, now.
    pub fn open(header: ShmHeader) -> (r: Option<ShmReader>)
        ensures
            r is Some <==> header.is_valid(),
            (r matches Some(rd) ==> rd.cursor() == header.write_index && rd.size_spec() == header.section_bytes()),
    {
        let now = unix_time_millis();
        ShmReader::open_at(header, now)
    }

    /// Bytes of the section.
    pub fn size(&self) -> (r: u64)
        ensures
            r == self.size_spec(),
    {
        self.size
    }

    /// Take the frames the driver wrote since the last read, at time `now_ms`:
    /// `None` while the write index stands still or has come round to the same
    /// ring position. `ring` is the sample area of the section.
    pub fn read_samples_at(&mut self, header: ShmHeader, ring: &[i16], now_ms: u64) -> (r: Option<Vec<i16>>)
        requires
            header.buffer_frames >= 1,
            ring@.len() == (header.channel_count as nat) * (header.buffer_frames as nat),
        ensures
            (match r {
                Some(v) => read_result(old(self).cursor(), header, ring@) == Some(v@),
                None => read_result(old(self).cursor(), header, ring@) is None,
            }),
            final(self).cursor() == next_cursor(old(self).cursor(), header),
            final(self).active_at() == next_active(old(self).cursor(), old(self).active_at(), header, now_ms),
            final(self).size_spec() == old(self).size_spec(),
    {
        if header.write_index == self.last_write_index {
            return None;
        }
        self.last_active_time = now_ms;
        let channels = header.channel_count as usize;
        let frames = header.buffer_frames as usize;
        let start = (self.last_write_index as usize) % frames;
        let end = (header.write_index as usize) % frames;
        let count = if end > start {
            end - start
        } else if end < start {
            frames - start + end
        } else {
            0
        };
        if count == 0 {
            return None;
        }
        let samples = copy_ring(ring, channels, frames, start, count);
        self.last_write_index = header.write_index;
        Some(samples)
    }

    /// Take the frames the driver wrote since the last read, now.
    pub fn read_samples(&mut self, header: ShmHeader, ring: &[i16]) -> (r: Option<Vec<i16>>)
        requires
            header.buffer_frames >= 1,
            ring@.len() == (header.channel_count as nat) * (header.buffer_frames as nat),
        ensures
            (match r {
                Some(v) => read_result(old(self).cursor(), header, ring@) == Some(v@),
                None => read_result(old(self).cursor(), header, ring@) is None,
            }),
            final(self).cursor() == next_cursor(old(self).cursor(), header),
            header.write_index == old(self).cursor() ==> final(self).active_at() == old(self).active_at(),
            final(self).size_spec() == old(self).size_spec(),
    {
        let now = unix_time_millis();
        self.read_samples_at(header, ring, now)
    }

    /// The driver wrote within the last 200 ms before `now_ms`.
    pub fn is_driver_active_at(&self, now_ms: u64) -> (r: bool)
        ensures
            r == (now_ms <= self.active_at() || now_ms - self.active_at() <= DRIVER_IDLE_MS),
    {
        now_ms.saturating_sub(self.last_active_time) <= DRIVER_IDLE_MS
    }

    /// The driver wrote within the last 200 ms.
    pub fn is_driver_active(&self) -> bool {
        let now = unix_time_millis();
        self.is_driver_active_at(now)
    }
}

/// Copy `count` frames of the ring from frame `start` on, wrapping at its end.
fn copy_ring(ring: &[i16], channels: usize, frames: usize, start: usize, count: usize) -> (out: Vec<i16>)
    requires
        start < frames,
        count < frames,
        ring@.len() == channels * frames,
    ensures
        out@ == ring_samples(ring@, channels as nat, frames as nat, start as nat, count as nat),
{
    let ghost all = ring_samples(ring@, channels as nat, frames as nat, start as nat, count as nat);
    let rlen = ring.len();
    let mut out: Vec<i16> = Vec::new();
    let mut pos: usize = start;
    let mut f: usize = 0;
    proof {
        vstd::arithmetic::div_mod::lemma_small_mod(start as nat, frames as nat);
    }
    while f < count
        invariant
            start < frames,
            count < frames,
            rlen == ring@.len() == channels * frames,
            all == ring_samples(ring@, channels as nat, frames as nat, start as nat, count as nat),
            f <= count,
            pos < frames,
            pos == (start + f) % (frames as int),
            out@ == all.take(f * channels),
        decreases count - f,
    {
        proof {
            assert(pos * channels + channels <= channels * frames) by (nonlinear_arith)
                requires
                    pos + 1 <= frames,
            ;
            assert((f + 1) * channels <= count * channels) by (nonlinear_arith)
                requires
                    f + 1 <= count,
            ;
            assert((f + 1) * channels == f * channels + channels) by (nonlinear_arith);
        }
        let base = pos * channels;
        let mut c: usize = 0;
        while c < channels
            invariant
                rlen == ring@.len() == channels * frames,
                all == ring_samples(ring@, channels as nat, frames as nat, start as nat, count as nat),
                f < count,
                pos < frames,
                pos == (start + f) % (frames as int),
                base == pos * channels,
                base + channels <= rlen,
                f * channels + channels <= count * channels,
                c <= channels,
                out@ == all.take(f * channels + c),
            decreases channels - c,
        {
            proof {
                let k = f * channels + c;
                vstd::arithmetic::div_mod::lemma_fundamental_div_mod_converse(k, channels as int, f as int, c as int);
                assert(all[k] == ring@[(base + c) as int]);
                assert(all.take(k + 1) =~= all.take(k).push(all[k]));
            }
            out.push(ring[base + c]);
            c = c + 1;
        }
        proof {
            let q = (start + f) / (frames as int);
            vstd::arithmetic::div_mod::lemma_fundamental_div_mod((start + f) as int, frames as int);
            assert((q + 1) * frames == frames * q + frames) by (nonlinear_arith);
            assert(q * frames == frames * q) by (nonlinear_arith);
            if pos + 1 < frames {
                vstd::arithmetic::div_mod::lemma_fundamental_div_mod_converse(
                    (start + f + 1) as int, frames as int, q, (pos + 1) as int);
            } else {
                vstd::arithmetic::div_mod::lemma_fundamental_div_mod_converse(
                    (start + f + 1) as int, frames as int, q + 1, 0);
            }
        }
        pos = if pos + 1 == frames { 0 } else { pos + 1 };
        f = f + 1;
    }
    assert(all.take(count * channels) =~= all);
    out
}

/// A second read at the same write index hands out nothing: every frame is
/// handed out at most once.
pub proof fn lemma_reread_is_empty(cursor: u32, header: ShmHeader, ring: Seq<i16>)
    requires
        header.buffer_frames >= 1,
    ensures
        read_result(next_cursor(cursor, header), header, ring) is None,
{
}

/// A read hands out whole frames, fewer than the ring holds.
pub proof fn lemma_read_whole_frames(cursor: u32, header: ShmHeader, ring: Seq<i16>)
    requires
        header.buffer_frames >= 1,
    ensures
        read_result(cursor, header, ring) matches Some(v) ==> {
            &&& v.len() == pending_frames(cursor, header) * (header.channel_count as nat)
            &&& 0 < pending_frames(cursor, header) < header.buffer_frames
        },
{
}

} // verus!
