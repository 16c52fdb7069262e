use vstd::prelude::*;

verus! {

/// Size of a clock overlay packet.
pub const OVERLAY_SIZE_BYTES: usize = 40;
/// Major protocol version understood.
pub const PROTOCOL_MAJOR_VERSION: u16 = 1;
/// Minor protocol version understood.
pub const PROTOCOL_MINOR_VERSION: u16 = 0;

/// Why a clock overlay packet was rejected.
#[derive(Debug, PartialEq, Eq)]
pub enum OverlayReceiveError {
    PacketTooShort,
    UnexpectedData,
    UnsupportedMajorVersion,
    InvalidFlags,
}

impl OverlayReceiveError {
    /// The description of the error.
    pub fn message(&self) -> (s: &'static str)
        ensures
            (match self {
                OverlayReceiveError::PacketTooShort => s@ == "packet too short"@,
                OverlayReceiveError::UnexpectedData => s@ == "unexpected data in packet"@,
                OverlayReceiveError::UnsupportedMajorVersion => s@ == "unsupported major version"@,
                OverlayReceiveError::InvalidFlags => s@ == "invalid flags (client too old?)"@,
            }),
    {
        match self {
            OverlayReceiveError::PacketTooShort => "packet too short",
            OverlayReceiveError::UnexpectedData => "unexpected data in packet",
            OverlayReceiveError::UnsupportedMajorVersion => "unsupported major version",
            OverlayReceiveError::InvalidFlags => "invalid flags (client too old?)",
        }
    }
}

/// Clock overlay received from a PTP clock daemon. The frequency scale is kept as
/// the bit pattern of its IEEE 754 double.
#[derive(Debug, Clone, Copy)]
pub struct ClockOverlay {
    pub clock_id: i64,
    pub last_sync: i64,
    pub shift: i64,
    pub freq_scale_bits: u64,
}

/// The unsigned little-endian number in `b[i..i + n]`.
pub open spec fn le_value(b: Seq<u8>, i: int, n: nat) -> nat
    decreases n,
{
    if n == 0 {
        0
    } else {
        (b[i] as nat) + 256 * le_value(b, i + 1, (n - 1) as nat)
    }
}

/// `x` wrapped into the range of `i64`.
pub open spec fn as_i64(x: int) -> int {
    let m = 0x1_0000_0000_0000_0000int;
    let r = x % m;
    if r > i64::MAX { r - m } else { r }
}

/// 256 to the power `n`.
pub open spec fn pow256(n: nat) -> nat
    decreases n,
{
    if n == 0 { 1 } else { 256 * pow256((n - 1) as nat) }
}

proof fn lemma_le_value_bound(b: Seq<u8>, i: int, n: nat)
    ensures
        le_value(b, i, n) < pow256(n),
    decreases n,
{
    if n > 0 {
        lemma_le_value_bound(b, i + 1, (n - 1) as nat);
        let rest = le_value(b, i + 1, (n - 1) as nat);
        let p = pow256((n - 1) as nat);
        let x = b[i] as nat;
        assert(x + 256 * rest < 256 * p) by (nonlinear_arith)
            requires
                x < 256,
                rest < p,
        ;
    }
}

proof fn lemma_pow256_small(n: nat)
    requires
        n <= 7,
    ensures
        pow256(n) <= 72057594037927936,
    decreases 7 - n,
{
    reveal_with_fuel(pow256, 8);
    if n < 7 {
        lemma_pow256_small(n + 1);
        assert(pow256(n + 1) == 256 * pow256(n));
    }
}

/// Read the unsigned little-endian number of `n` bytes at `i`.
pub(crate) fn read_le(b: &[u8], i: usize, n: usize) -> (r: u64)
    requires
        n <= 8,
        i + n <= b@.len(),
    ensures
        r == le_value(b@, i as int, n as nat),
    decreases n,
{
    let blen = b.len();
    if n == 0 {
        0
    } else {
        assert(i < blen);
        let rest = read_le(b, i + 1, n - 1);
        proof {
            lemma_le_value_bound(b@, i + 1, (n - 1) as nat);
            lemma_pow256_small((n - 1) as nat);
        }
        (b[i] as u64) + 256 * rest
    }
}

/// `x` read as a signed 64-bit number.
fn to_i64(x: u64) -> (r: i64)
    ensures
        r == as_i64(x as int),
{
    proof {
        vstd::arithmetic::div_mod::lemma_small_mod(x as nat, 0x1_0000_0000_0000_0000nat);
    }
    if x <= i64::MAX as u64 {
        x as i64
    } else {
        ((x - (i64::MAX as u64) - 1) as i64) + i64::MIN
    }
}

/// The unsigned big-endian number in `b[i..i + n]`.
pub open spec fn be_value(b: Seq<u8>, i: int, n: nat) -> nat
    decreases n,
{
    if n == 0 {
        0
    } else {
        256 * be_value(b, i, (n - 1) as nat) + (b[i + n - 1] as nat)
    }
}

/// The unsigned number in `b[i..i + n]`, in little- or big-endian byte order.
pub open spec fn ordered_value(b: Seq<u8>, i: int, n: nat, little_endian: bool) -> nat {
    if little_endian { le_value(b, i, n) } else { be_value(b, i, n) }
}

/// Read the unsigned big-endian number of `n` bytes at `i`.
fn read_be(b: &[u8], i: usize, n: usize) -> (r: u64)
    requires
        n <= 8,
        i + n <= b@.len(),
    ensures
        r == be_value(b@, i as int, n as nat),
{
    let blen = b.len();
    let mut r: u64 = 0;
    let mut k: usize = 0;
    while k < n
        invariant
            n <= 8,
            blen == b@.len(),
            i + n <= blen,
            k <= n,
            r == be_value(b@, i as int, k as nat),
            r < pow256(k as nat),
        decreases n - k,
    {
        proof {
            lemma_pow256_small(k as nat);
            let x = b@[i + k] as nat;
            let p = pow256(k as nat);
            assert(256 * (r as nat) + x < 256 * p) by (nonlinear_arith)
                requires
                    x < 256,
                    r < p,
            ;
        }
        r = 256 * r + (b[i + k] as u64);
        k = k + 1;
    }
    r
}

/// Read the unsigned number of `n` bytes at `i` in the given byte order.
fn read_ordered(b: &[u8], i: usize, n: usize, little_endian: bool) -> (r: u64)
    requires
        n <= 8,
        i + n <= b@.len(),
    ensures
        r == ordered_value(b@, i as int, n as nat, little_endian),
{
    if little_endian { read_le(b, i, n) } else { read_be(b, i, n) }
}

/// `u16::from_ne_bytes`: the number whose memory representation on this machine
/// is `b`. Rust targets are little- or big-endian, so it is one of the two
/// readings; which one depends on the machine, and is left unsaid.
#[verifier::external_body]
fn u16_from_ne_bytes(b: [u8; 2]) -> (r: u16)
    ensures
        r == (b@[0] as int) + 256 * (b@[1] as int) || r == 256 * (b@[0] as int) + (b@[1] as int),
{
    u16::from_ne_bytes(b)
}

/// Whether this machine stores numbers little-endian.
fn native_little_endian() -> bool {
    u16_from_ne_bytes([1u8, 0u8]) == 1u16
}

/// Why a packet is not a valid overlay, its numbers read in the given byte
/// order: too short, magic other than `VC`, major version other than 1, or bit 0
/// of the flags clear.
pub open spec fn overlay_error(b: Seq<u8>, little_endian: bool) -> Option<OverlayReceiveError> {
    if b.len() < OVERLAY_SIZE_BYTES {
        Some(OverlayReceiveError::PacketTooShort)
    } else if b[0] != 86 || b[1] != 67 {
        Some(OverlayReceiveError::UnexpectedData)
    } else if ordered_value(b, 2, 2, little_endian) != PROTOCOL_MAJOR_VERSION {
        Some(OverlayReceiveError::UnsupportedMajorVersion)
    } else if ordered_value(b, 6, 2, little_endian) % 2 == 0 {
        Some(OverlayReceiveError::InvalidFlags)
    } else {
        None
    }
}

/// `r` is the packet `b` decoded with its numbers in the given byte order.
pub open spec fn overlay_decoded(b: Seq<u8>, little_endian: bool, r: Result<ClockOverlay, OverlayReceiveError>) -> bool {
    &&& (r matches Err(e) ==> overlay_error(b, little_endian) == Some(e))
    &&& (r is Ok <==> overlay_error(b, little_endian) is None)
    &&& (r matches Ok(o) ==> {
        &&& o.clock_id == as_i64(ordered_value(b, 8, 8, little_endian) as int)
        &&& o.last_sync == as_i64(ordered_value(b, 16, 8, little_endian) as int)
        &&& o.shift == as_i64(ordered_value(b, 24, 8, little_endian) as int)
        &&& o.freq_scale_bits == ordered_value(b, 32, 8, little_endian)
    })
}

impl ClockOverlay {
    /// Decode an overlay packet whose numbers are in the given byte order.
    pub fn decode_in_order(buff: &[u8], little_endian: bool) -> (r: Result<ClockOverlay, OverlayReceiveError>)
        ensures
            overlay_decoded(buff@, little_endian, r),
    {
        if buff.len() < OVERLAY_SIZE_BYTES {
            return Err(OverlayReceiveError::PacketTooShort);
        }
        if buff[0] != 86u8 || buff[1] != 67u8 {
            return Err(OverlayReceiveError::UnexpectedData);
        }
        let major_version = read_ordered(buff, 2, 2, little_endian);
        if major_version != PROTOCOL_MAJOR_VERSION as u64 {
            return Err(OverlayReceiveError::UnsupportedMajorVersion);
        }
        let flags = read_ordered(buff, 6, 2, little_endian);
        if flags % 2 == 0 {
            return Err(OverlayReceiveError::InvalidFlags);
        }
        Ok(ClockOverlay {
            clock_id: to_i64(read_ordered(buff, 8, 8, little_endian)),
            last_sync: to_i64(read_ordered(buff, 16, 8, little_endian)),
            shift: to_i64(read_ordered(buff, 24, 8, little_endian)),
            freq_scale_bits: read_ordered(buff, 32, 8, little_endian),
        })
    }

    /// Decode an overlay packet; its numbers are in this machine's byte order,
    /// as the clock daemon on the same machine writes them.
    pub fn decode(buff: &[u8]) -> (r: Result<ClockOverlay, OverlayReceiveError>)
        ensures
            overlay_decoded(buff@, true, r) || overlay_decoded(buff@, false, r),
    {
        let little = native_little_endian();
        ClockOverlay::decode_in_order(buff, little)
    }
}

// ---------------------------------------------------------------------------
// Free-running clock
// ---------------------------------------------------------------------------

/// Timestamp from the free-running clock.
pub struct SafeTimestamp {
    pub nanos: i64,
    pub estimated: bool,
}

impl SafeTimestamp {
    /// The timestamp, unless it is only an estimate.
    pub fn precise_ns(&self) -> (r: Option<i64>)
        ensures
            r == (if !self.estimated { Some(self.nanos) } else { None::<i64> }),
    {
        if !self.estimated {
            Some(self.nanos)
        } else {
            None
        }
    }
}

/// 100 ns intervals between 1601-01-01 and 1970-01-01.
pub const FILETIME_UNIX_EPOCH: u64 = 116_444_736_000_000_000;

/// Nanoseconds since the Unix epoch of a FILETIME (100 ns intervals since
/// 1601-01-01): the 100 ns intervals since the Unix epoch (0 before it), read as
/// a signed 64-bit number, times 100 with saturation.
pub open spec fn filetime_unix_ns(filetime: u64) -> int {
    let unix_100ns: nat = if filetime >= FILETIME_UNIX_EPOCH { (filetime - FILETIME_UNIX_EPOCH) as nat } else { 0 };
    let v = as_i64(unix_100ns as int) * 100;
    if v > i64::MAX { i64::MAX as int } else if v < i64::MIN { i64::MIN as int } else { v }
}

/// Nanoseconds since the Unix epoch of a FILETIME.
pub fn filetime_to_unix_ns(filetime: u64) -> (r: i64)
    ensures
        r == filetime_unix_ns(filetime),
{
    let unix_100ns: u64 = if filetime >= FILETIME_UNIX_EPOCH { filetime - FILETIME_UNIX_EPOCH } else { 0 };
    let signed = to_i64(unix_100ns);
    if signed > i64::MAX / 100 {
        i64::MAX
    } else if signed < i64::MIN / 100 {
        i64::MIN
    } else {
        signed * 100
    }
}

/// The clock anchor: the performance counter and the wall clock (FILETIME) read
/// together, and the counter's frequency in ticks per second.
pub struct SafeClock {
    pub qpc_anchor: i64,
    pub filetime_anchor: u64,
    pub qpc_freq: i64,
}

/// 100 ns intervals elapsed since the anchor at counter value `counter`: the tick
/// difference saturated to `i64`, read as a 128-bit unsigned number (negative
/// differences wrap), scaled with saturation, and cut to 64 bits; 0 for a
/// non-positive frequency.
pub open spec fn elapsed_100ns(clock: SafeClock, counter: i64) -> nat {
    let d = counter - clock.qpc_anchor;
    let ticks: int = if d > i64::MAX { i64::MAX as int } else if d < i64::MIN { i64::MIN as int } else { d };
    let ticks_u128: nat = if ticks >= 0 { ticks as nat } else { (ticks + 0x1_0000_0000_0000_0000_0000_0000_0000_0000int) as nat };
    let scaled: nat = if ticks_u128 * 10_000_000 > u128::MAX { u128::MAX as nat } else { ticks_u128 * 10_000_000 };
    if clock.qpc_freq > 0 { (scaled / (clock.qpc_freq as nat)) % 0x1_0000_0000_0000_0000nat } else { 0 }
}

/// The wall-clock time in nanoseconds since the Unix epoch at counter value
/// `counter`, before any overlay correction.
pub open spec fn safe_clock_ns(clock: SafeClock, counter: i64) -> int {
    let current = clock.filetime_anchor + elapsed_100ns(clock, counter);
    let filetime: u64 = if current > u64::MAX { u64::MAX } else { current as u64 };
    filetime_unix_ns(filetime)
}

impl SafeClock {
    /// A clock anchored at the given counter value, FILETIME and frequency.
    pub fn new(qpc_anchor: i64, filetime_anchor: u64, qpc_freq: i64) -> (c: SafeClock)
        ensures
            c.qpc_anchor == qpc_anchor,
            c.filetime_anchor == filetime_anchor,
            c.qpc_freq == qpc_freq,
    {
        SafeClock { qpc_anchor, filetime_anchor, qpc_freq }
    }

    /// The wall-clock time at counter value `counter`, from the anchor.
    pub fn unix_ns_at(&self, counter: i64) -> (r: i64)
        ensures
            r == safe_clock_ns(*self, counter),
    {
        let d: i128 = (counter as i128) - (self.qpc_anchor as i128);
        let elapsed_ticks: i64 = if d > i64::MAX as i128 {
            i64::MAX
        } else if d < i64::MIN as i128 {
            i64::MIN
        } else {
            d as i64
        };
        let ticks_u128: u128 = if elapsed_ticks >= 0 {
            elapsed_ticks as u128
        } else {
            (u128::MAX - ((-(elapsed_ticks as i128)) as u128)) + 1
        };
        let scaled: u128 = if ticks_u128 > u128::MAX / 10_000_000 {
            u128::MAX
        } else {
            ticks_u128 * 10_000_000
        };
        proof {
            assert(ticks_u128 > u128::MAX / 10_000_000 <==> ticks_u128 * 10_000_000 > u128::MAX) by (nonlinear_arith);
        }
        let elapsed: u64 = if self.qpc_freq > 0 {
            ((scaled / (self.qpc_freq as u128)) % 0x1_0000_0000_0000_0000u128) as u64
        } else {
            0
        };
        let current: u64 = self.filetime_anchor.saturating_add(elapsed);
        filetime_to_unix_ns(current)
    }
}

/// The clock never runs backwards: a later counter value gives a time at
/// least as late, as long as the elapsed time stays within 64 bits of 100 ns
/// intervals and the time within the range of `i64` nanoseconds.
pub proof fn lemma_safe_clock_monotonic(clock: SafeClock, c1: i64, c2: i64)
    requires
        clock.qpc_freq > 0,
        clock.qpc_anchor <= c1 <= c2,
        clock.filetime_anchor + (c2 - clock.qpc_anchor) * 10_000_000 / (clock.qpc_freq as int)
            <= FILETIME_UNIX_EPOCH + i64::MAX,
    ensures
        safe_clock_ns(clock, c1) <= safe_clock_ns(clock, c2),
{
    let f = clock.qpc_freq as int;
    let d1 = c1 - clock.qpc_anchor;
    let d2 = c2 - clock.qpc_anchor;
    assert(0 <= d1 <= d2);
    assert(d1 * 10_000_000 <= d2 * 10_000_000) by (nonlinear_arith)
        requires
            0 <= d1 <= d2,
    ;
    let t1: int = if d1 > i64::MAX { i64::MAX as int } else { d1 };
    let t2: int = if d2 > i64::MAX { i64::MAX as int } else { d2 };
    assert(t1 * 10_000_000 <= t2 * 10_000_000) by (nonlinear_arith)
        requires
            0 <= t1 <= t2,
    ;
    assert(t2 * 10_000_000 <= d2 * 10_000_000) by (nonlinear_arith)
        requires
            0 <= t2 <= d2,
    ;
    let s1: int = if t1 * 10_000_000 > u128::MAX { u128::MAX as int } else { t1 * 10_000_000 };
    let s2: int = if t2 * 10_000_000 > u128::MAX { u128::MAX as int } else { t2 * 10_000_000 };
    assert(0 <= s1 <= s2 <= d2 * 10_000_000);
    vstd::arithmetic::div_mod::lemma_div_is_ordered(s1, s2, f);
    vstd::arithmetic::div_mod::lemma_div_is_ordered(s2, d2 * 10_000_000, f);
    vstd::arithmetic::div_mod::lemma_div_pos_is_pos(s1, f);
    let q1 = s1 / f;
    let q2 = s2 / f;
    assert(q2 < 0x1_0000_0000_0000_0000);
    vstd::arithmetic::div_mod::lemma_small_mod(q1 as nat, 0x1_0000_0000_0000_0000nat);
    vstd::arithmetic::div_mod::lemma_small_mod(q2 as nat, 0x1_0000_0000_0000_0000nat);
    assert(elapsed_100ns(clock, c1) == q1);
    assert(elapsed_100ns(clock, c2) == q2);
    let u1: int = if clock.filetime_anchor + q1 >= FILETIME_UNIX_EPOCH { clock.filetime_anchor + q1 - FILETIME_UNIX_EPOCH } else { 0 };
    let u2: int = if clock.filetime_anchor + q2 >= FILETIME_UNIX_EPOCH { clock.filetime_anchor + q2 - FILETIME_UNIX_EPOCH } else { 0 };
    assert(0 <= u1 <= u2 <= i64::MAX);
    vstd::arithmetic::div_mod::lemma_small_mod(u1 as nat, 0x1_0000_0000_0000_0000nat);
    vstd::arithmetic::div_mod::lemma_small_mod(u2 as nat, 0x1_0000_0000_0000_0000nat);
    assert(as_i64(u1) == u1);
    assert(as_i64(u2) == u2);
}

/// The clock moves on with its counter: a counter value at least 10 ms of ticks
/// later gives a time at least 10 ms later, so strictly later, as long as the
/// anchor lies after the Unix epoch, the tick difference fits in `i64` and the
/// time within the range of `i64` nanoseconds.
pub proof fn lemma_safe_clock_strictly_increasing(clock: SafeClock, c1: i64, c2: i64)
    requires
        clock.qpc_freq > 0,
        clock.qpc_anchor <= c1,
        (c2 - c1) * 100 >= clock.qpc_freq,
        c2 - clock.qpc_anchor <= i64::MAX,
        FILETIME_UNIX_EPOCH <= clock.filetime_anchor,
        (clock.filetime_anchor - FILETIME_UNIX_EPOCH + (c2 - clock.qpc_anchor) * 10_000_000 / (
        clock.qpc_freq as int)) * 100 <= i64::MAX,
    ensures
        safe_clock_ns(clock, c1) + 10_000_000 <= safe_clock_ns(clock, c2),
        safe_clock_ns(clock, c1) < safe_clock_ns(clock, c2),
{
    let f = clock.qpc_freq as int;
    let d1 = c1 - clock.qpc_anchor;
    let d2 = c2 - clock.qpc_anchor;
    assert(0 <= d1 < d2 <= i64::MAX);
    let s1 = d1 * 10_000_000;
    let s2 = d2 * 10_000_000;
    assert(0 <= s1 <= s2 <= i64::MAX * 10_000_000) by (nonlinear_arith)
        requires
            0 <= d1 < d2 <= i64::MAX,
            s1 == d1 * 10_000_000,
            s2 == d2 * 10_000_000,
    ;
    assert(s1 + 100_000 * f <= s2) by (nonlinear_arith)
        requires
            (d2 - d1) * 100 >= f,
            s1 == d1 * 10_000_000,
            s2 == d2 * 10_000_000,
    ;
    vstd::arithmetic::div_mod::lemma_hoist_over_denominator(s1, 100_000, f as nat);
    vstd::arithmetic::div_mod::lemma_div_is_ordered(s1 + 100_000 * f, s2, f);
    vstd::arithmetic::div_mod::lemma_div_pos_is_pos(s1, f);
    let q1 = s1 / f;
    let q2 = s2 / f;
    assert(q1 + 100_000 <= q2);
    assert(q2 < 0x1_0000_0000_0000_0000);
    vstd::arithmetic::div_mod::lemma_small_mod(q1 as nat, 0x1_0000_0000_0000_0000nat);
    vstd::arithmetic::div_mod::lemma_small_mod(q2 as nat, 0x1_0000_0000_0000_0000nat);
    assert(elapsed_100ns(clock, c1) == q1);
    assert(elapsed_100ns(clock, c2) == q2);
    let u1 = clock.filetime_anchor + q1 - FILETIME_UNIX_EPOCH;
    let u2 = clock.filetime_anchor + q2 - FILETIME_UNIX_EPOCH;
    assert(0 <= u1 < u2 <= i64::MAX / 100);
    vstd::arithmetic::div_mod::lemma_small_mod(u1 as nat, 0x1_0000_0000_0000_0000nat);
    vstd::arithmetic::div_mod::lemma_small_mod(u2 as nat, 0x1_0000_0000_0000_0000nat);
    assert(as_i64(u1) == u1);
    assert(as_i64(u2) == u2);
    assert(safe_clock_ns(clock, c1) == u1 * 100);
    assert(safe_clock_ns(clock, c2) == u2 * 100);
}

} // verus!
