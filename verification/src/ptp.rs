use vstd::prelude::*;
use std::time::{Duration, Instant, SystemTime};

verus! {

/// A moment of the monotonic clock.
#[verifier::external_type_specification]
#[verifier::external_body]
pub struct ExInstant(Instant);

/// `Instant::now`: the current moment of the monotonic clock.
#[verifier::external_body]
pub(crate) fn instant_now() -> Instant {
    Instant::now()
}

/// A moment of the system clock.
#[verifier::external_type_specification]
#[verifier::external_body]
pub struct ExSystemTime(SystemTime);

/// `SystemTime::now`: the current moment of the system clock.
#[verifier::external_body]
fn system_time_now() -> SystemTime {
    SystemTime::now()
}

/// `SystemTime::duration_since` the Unix epoch; `None` where std reports an
/// error, that is, for a moment before the epoch.
#[verifier::external_body]
fn since_unix_epoch(t: SystemTime) -> Option<Duration> {
    t.duration_since(std::time::UNIX_EPOCH).ok()
}

/// `Duration::as_nanos`: the whole duration in nanoseconds.
#[verifier::external_body]
fn duration_as_nanos(d: Duration) -> u128 {
    d.as_nanos()
}

/// The system clock as nanoseconds since the Unix epoch; `None` when it is set
/// before the epoch.
pub(crate) fn unix_time_nanos() -> Option<u128> {
    match since_unix_epoch(system_time_now()) {
        Some(d) => Some(duration_as_nanos(d)),
        None => None,
    }
}

/// Measured offset from a single PTP sync message.
#[derive(Debug, Clone, Copy)]
pub struct PtpOffset {
    pub grandmaster_id: [u8; 6],
    pub sequence_id: u16,
    /// Local receive time minus origin timestamp, in nanoseconds.
    pub offset_ns: i64,
    pub recv_time: Instant,
}

/// PTP synchronization state.
#[derive(Debug, Clone, Copy)]
pub enum PtpState {
    /// Synchronized with an active PTP grandmaster.
    Synced { grandmaster_id: [u8; 6] },
    /// Grace period after losing the grandmaster.
    FallingBack,
    /// Free-running without PTP discipline.
    FreRunning,
}

/// Size of a PTPv1 message.
pub const PTP_MESSAGE_SIZE: usize = 124;
pub const OFFSET_VERSION_PTP: usize = 0;
pub const OFFSET_VERSION_NETWORK: usize = 1;
pub const OFFSET_SUBDOMAIN: usize = 20;
pub const OFFSET_MESSAGE_TYPE: usize = 28;
pub const OFFSET_ORIGIN_SECONDS: usize = 40;
pub const OFFSET_ORIGIN_NANOSECONDS: usize = 44;
pub const OFFSET_GRANDMASTER_ID: usize = 62;
pub const OFFSET_SEQUENCE_ID: usize = 72;

/// The big-endian 32-bit number at `i`.
pub open spec fn be32_at(b: Seq<u8>, i: int) -> nat {
    (b[i] as nat) * 16777216 + (b[i + 1] as nat) * 65536 + (b[i + 2] as nat) * 256 + (b[i + 3] as nat)
}

/// `b` is a PTPv1 Sync message over IPv4: long enough, PTP and network version 1,
/// message type 1.
pub open spec fn is_sync_message(b: Seq<u8>) -> bool {
    &&& b.len() >= PTP_MESSAGE_SIZE
    &&& b[OFFSET_VERSION_PTP as int] == 1
    &&& b[OFFSET_VERSION_NETWORK as int] == 1
    &&& b[OFFSET_MESSAGE_TYPE as int] == 1
}

/// The origin timestamp of a Sync message in nanoseconds.
pub open spec fn origin_ns(b: Seq<u8>) -> nat {
    be32_at(b, OFFSET_ORIGIN_SECONDS as int) * 1_000_000_000 + be32_at(b, OFFSET_ORIGIN_NANOSECONDS as int)
}

/// `x` wrapped into the range of `i64`.
pub open spec fn wrap_i64(x: int) -> int {
    let m = 0x1_0000_0000_0000_0000int;
    let r = x % m;
    if r > i64::MAX { r - m } else { r }
}

/// The offset of a Sync message received at `local_ns` (taken modulo 2^64 and read
/// as a signed number, as the clock arithmetic does).
pub open spec fn sync_offset(b: Seq<u8>, local_ns: nat) -> int {
    wrap_i64(wrap_i64(local_ns as int) - origin_ns(b))
}

/// The offset, grandmaster and sequence number of `o` are those of the Sync
/// message `b` received at `local_ns`.
pub open spec fn offset_of_sync(o: PtpOffset, b: Seq<u8>, local_ns: nat) -> bool {
    &&& o.grandmaster_id@ == b.subrange(OFFSET_GRANDMASTER_ID as int, OFFSET_GRANDMASTER_ID + 6)
    &&& o.sequence_id == (b[OFFSET_SEQUENCE_ID as int] as nat) * 256 + (b[OFFSET_SEQUENCE_ID + 1] as nat)
    &&& o.offset_ns == sync_offset(b, local_ns)
}

/// How many 2^64 steps `wrap_i64` moves `x`.
spec fn wrap_steps(x: int) -> int {
    let m = 0x1_0000_0000_0000_0000int;
    if x % m > i64::MAX { -(x / m) - 1 } else { -(x / m) }
}

/// `wrap_i64(x)` differs from `x` by a whole number of 2^64 steps, and lies in
/// the range of `i64`.
proof fn lemma_wrap_i64(x: int)
    ensures
        i64::MIN <= wrap_i64(x) <= i64::MAX,
        wrap_i64(x) == x + wrap_steps(x) * 0x1_0000_0000_0000_0000int,
{
    let m = 0x1_0000_0000_0000_0000int;
    vstd::arithmetic::div_mod::lemma_fundamental_div_mod(x, m);
    let q = x / m;
    if x % m > i64::MAX {
        assert(wrap_i64(x) == x + (-q - 1) * m) by (nonlinear_arith)
            requires
                x == m * q + x % m,
                wrap_i64(x) == x % m - m,
        ;
    } else {
        assert(wrap_i64(x) == x + (-q) * m) by (nonlinear_arith)
            requires
                x == m * q + x % m,
                wrap_i64(x) == x % m,
        ;
    }
}

/// The offset measured from a Sync message is the receive time less the
/// origin timestamp, both in nanoseconds: always up to whole 2^64 steps, and
/// exactly whenever the receive time lies within the range of `i64` (the origin
/// timestamp always does).
pub proof fn lemma_sync_offset_is_receive_less_origin(b: Seq<u8>, local_ns: nat)
    requires
        b.len() >= PTP_MESSAGE_SIZE,
    ensures
        origin_ns(b) <= i64::MAX,
        i64::MIN <= sync_offset(b, local_ns) <= i64::MAX,
        (sync_offset(b, local_ns) - (local_ns - origin_ns(b))) % 0x1_0000_0000_0000_0000int == 0,
        local_ns <= i64::MAX ==> sync_offset(b, local_ns) == local_ns - origin_ns(b),
{
    let m = 0x1_0000_0000_0000_0000int;
    let o = origin_ns(b);
    let s1 = be32_at(b, OFFSET_ORIGIN_SECONDS as int);
    let n1 = be32_at(b, OFFSET_ORIGIN_NANOSECONDS as int);
    assert(s1 <= 0xffff_ffff && n1 <= 0xffff_ffff);
    assert(s1 * 1_000_000_000 <= 0xffff_ffff * 1_000_000_000) by (nonlinear_arith)
        requires
            s1 <= 0xffff_ffff,
    ;
    let w = wrap_i64(local_ns as int);
    lemma_wrap_i64(local_ns as int);
    lemma_wrap_i64(w - o);
    let k1 = wrap_steps(local_ns as int);
    let k2 = wrap_steps(w - o);
    assert(sync_offset(b, local_ns) - (local_ns - o) == (k1 + k2) * m) by (nonlinear_arith)
        requires
            w == local_ns + k1 * m,
            sync_offset(b, local_ns) == w - o + k2 * m,
    ;
    vstd::arithmetic::div_mod::lemma_mod_multiples_basic(k1 + k2, m);
    if local_ns <= i64::MAX {
        vstd::arithmetic::div_mod::lemma_small_mod(local_ns, m as nat);
        assert(w == local_ns);
        let d = local_ns - o;
        if d >= 0 {
            vstd::arithmetic::div_mod::lemma_small_mod(d as nat, m as nat);
        } else {
            vstd::arithmetic::div_mod::lemma_small_mod((d + m) as nat, m as nat);
            vstd::arithmetic::div_mod::lemma_mod_add_multiples_vanish(d, m);
        }
    }
}

/// Read the big-endian 32-bit number at `i`.
fn read_be32(b: &[u8], i: usize) -> (r: u64)
    requires
        i + 4 <= b@.len(),
    ensures
        r == be32_at(b@, i as int),
{
    (b[i] as u64) * 16777216 + (b[i + 1] as u64) * 65536 + (b[i + 2] as u64) * 256 + (b[i + 3] as u64)
}

/// `x` reduced to 64 bits and read as signed.
fn as_signed_64(x: u128) -> (r: i64)
    ensures
        r == wrap_i64(x as int),
{
    let low: u64 = (x % 0x1_0000_0000_0000_0000u128) as u64;
    if low <= i64::MAX as u64 {
        low as i64
    } else {
        (low - (i64::MAX as u64) - 1) as i64 + i64::MIN
    }
}

/// The offset measured from the Sync message `buffer` received at `local_recv_ns`
/// (nanoseconds since the Unix epoch; `None` when the system clock could not
/// tell), stamped with `recv_time`.
pub fn offset_from_sync(buffer: &[u8], local_recv_ns: Option<u128>, recv_time: Instant) -> (r: Option<PtpOffset>)
    ensures
        r is Some <==> (is_sync_message(buffer@) && local_recv_ns is Some),
        (r matches Some(o) ==> offset_of_sync(o, buffer@, local_recv_ns->0 as nat) && o.recv_time == recv_time),
{
    if buffer.len() < PTP_MESSAGE_SIZE {
        return None;
    }
    if buffer[OFFSET_VERSION_PTP] != 1 || buffer[OFFSET_VERSION_NETWORK] != 1
        || buffer[OFFSET_MESSAGE_TYPE] != 0x01 {
        return None;
    }
    let origin_seconds = read_be32(buffer, OFFSET_ORIGIN_SECONDS);
    let origin_nanoseconds = read_be32(buffer, OFFSET_ORIGIN_NANOSECONDS);
    let origin_timestamp_ns = origin_seconds * 1_000_000_000 + origin_nanoseconds;
    let local = match local_recv_ns {
        Some(ns) => as_signed_64(ns),
        None => return None,
    };
    let offset_ns = local.wrapping_sub(origin_timestamp_ns as i64);
    proof {
        let m = 0x1_0000_0000_0000_0000int;
        let x = local - origin_timestamp_ns;
        assert(-m < x < m);
        if x >= 0 {
            vstd::arithmetic::div_mod::lemma_small_mod(x as nat, m as nat);
        } else {
            vstd::arithmetic::div_mod::lemma_small_mod((x + m) as nat, m as nat);
            vstd::arithmetic::div_mod::lemma_mod_add_multiples_vanish(x, m);
        }
    }
    let mut grandmaster_id = [0u8; 6];
    let mut k: usize = 0;
    while k < 6
        invariant
            k <= 6,
            buffer@.len() >= PTP_MESSAGE_SIZE,
            forall|j: int| 0 <= j < k ==> grandmaster_id@[j] == buffer@[OFFSET_GRANDMASTER_ID + j],
        decreases 6 - k,
    {
        grandmaster_id[k] = buffer[OFFSET_GRANDMASTER_ID + k];
        k = k + 1;
    }
    assert(grandmaster_id@ =~= buffer@.subrange(OFFSET_GRANDMASTER_ID as int, OFFSET_GRANDMASTER_ID + 6));
    let sequence_id = (buffer[OFFSET_SEQUENCE_ID] as u16) * 256 + (buffer[OFFSET_SEQUENCE_ID + 1] as u16);
    Some(PtpOffset { grandmaster_id, sequence_id, offset_ns, recv_time })
}

/// Parse a PTPv1 Sync message and measure its offset against the system clock at
/// the moment of parsing. `None` for any other message, or when the system clock
/// is set before the Unix epoch.
pub fn parse_ptp_sync(buffer: &[u8], _last_gm: Option<[u8; 6]>) -> (r: Option<PtpOffset>)
    ensures
        r is Some ==> is_sync_message(buffer@),
        (r matches Some(o) ==> exists|t: nat| offset_of_sync(o, buffer@, t)),
{
    if buffer.len() < PTP_MESSAGE_SIZE || buffer[OFFSET_VERSION_PTP] != 1
        || buffer[OFFSET_VERSION_NETWORK] != 1 || buffer[OFFSET_MESSAGE_TYPE] != 0x01 {
        return None;
    }
    let local = unix_time_nanos();
    let r = offset_from_sync(buffer, local, instant_now());
    proof {
        if let Some(o) = r {
            assert(offset_of_sync(o, buffer@, local->0 as nat));
        }
    }
    r
}

// ---------------------------------------------------------------------------
// Falling back to the free-running clock
// ---------------------------------------------------------------------------

/// How long without a Sync message the grandmaster counts as lost.
pub const SYNC_TIMEOUT_NS: u128 = 5_000_000_000;

/// What the fallback monitor reacts to.
pub enum FallbackEvent {
    /// The periodic check, with the time since the last Sync message.
    Tick { since_last_sync_ns: u128 },
    /// A Sync message from the given grandmaster arrived.
    Offset { grandmaster_id: [u8; 6] },
}

/// The monitor's reaction to an event.
pub struct FallbackStep {
    pub state: PtpState,
    /// The new state is to be published.
    pub publish: bool,
    /// The grandmaster came back after free-running.
    pub resumed: bool,
}

/// The fallback monitor's decision: a Sync message engages (or keeps) the
/// grandmaster that sent it; a tick more than five seconds after the last Sync
/// message drops to free-running; everything else changes nothing.
pub fn fallback_step(state: PtpState, event: &FallbackEvent) -> (s: FallbackStep)
    ensures
        fallback_step_spec(state, *event, s),
        s.state == fallback_next(state, *event),
        s.publish == fallback_publishes(state, *event),
{
    match event {
        FallbackEvent::Tick { since_last_sync_ns } => {
            let free = match state {
                PtpState::FreRunning => true,
                _ => false,
            };
            if !free && *since_last_sync_ns > SYNC_TIMEOUT_NS {
                FallbackStep { state: PtpState::FreRunning, publish: true, resumed: false }
            } else {
                FallbackStep { state, publish: false, resumed: false }
            }
        },
        FallbackEvent::Offset { grandmaster_id } => {
            let was_free = match state {
                PtpState::FreRunning => true,
                _ => false,
            };
            FallbackStep { state: PtpState::Synced { grandmaster_id: *grandmaster_id }, publish: true, resumed: was_free }
        },
    }
}

/// After any sequence of events, a Sync message puts the monitor in sync with the
/// grandmaster that sent it, and from any state a tick past the timeout leaves it
/// free-running.
pub proof fn lemma_fallback_converges(state: PtpState, grandmaster_id: [u8; 6], since_last_sync_ns: u128)
    requires
        since_last_sync_ns > SYNC_TIMEOUT_NS,
    ensures
        ({
            let e = FallbackEvent::Offset { grandmaster_id };
            forall|s: FallbackStep| fallback_step_spec(state, e, s) ==> s.state == (PtpState::Synced { grandmaster_id })
        }),
        ({
            let e = FallbackEvent::Tick { since_last_sync_ns };
            forall|s: FallbackStep| fallback_step_spec(state, e, s) ==> s.state is FreRunning
        }),
{
}

/// The relation that `fallback_step` guarantees between state, event and step.
pub open spec fn fallback_step_spec(state: PtpState, event: FallbackEvent, s: FallbackStep) -> bool {
    match event {
        FallbackEvent::Tick { since_last_sync_ns } => {
            if !(state is FreRunning) && since_last_sync_ns > SYNC_TIMEOUT_NS {
                s.state is FreRunning && s.publish && !s.resumed
            } else {
                s.state == state && !s.publish && !s.resumed
            }
        },
        FallbackEvent::Offset { grandmaster_id } => {
            &&& s.state == (PtpState::Synced { grandmaster_id })
            &&& s.publish
            &&& s.resumed == (state is FreRunning)
        },
    }
}

/// The monitor's state after `event` in state `state`.
pub open spec fn fallback_next(state: PtpState, event: FallbackEvent) -> PtpState {
    match event {
        FallbackEvent::Tick { since_last_sync_ns } => if !(state is FreRunning) && since_last_sync_ns
            > SYNC_TIMEOUT_NS {
            PtpState::FreRunning
        } else {
            state
        },
        FallbackEvent::Offset { grandmaster_id } => PtpState::Synced { grandmaster_id },
    }
}

/// Whether the monitor publishes its new state after `event` in state `state`.
pub open spec fn fallback_publishes(state: PtpState, event: FallbackEvent) -> bool {
    match event {
        FallbackEvent::Tick { since_last_sync_ns } => !(state is FreRunning) && since_last_sync_ns
            > SYNC_TIMEOUT_NS,
        FallbackEvent::Offset { .. } => true,
    }
}

/// The monitor's state after a stream of events, from `state`.
pub open spec fn fallback_after(state: PtpState, events: Seq<FallbackEvent>) -> PtpState
    decreases events.len(),
{
    if events.len() == 0 {
        state
    } else {
        fallback_next(fallback_after(state, events.drop_last()), events.last())
    }
}

/// The states the monitor publishes over a stream of events, from `state`, in
/// the order it publishes them.
pub open spec fn fallback_published(state: PtpState, events: Seq<FallbackEvent>) -> Seq<PtpState>
    decreases events.len(),
{
    if events.len() == 0 {
        Seq::empty()
    } else {
        let before = fallback_after(state, events.drop_last());
        let earlier = fallback_published(state, events.drop_last());
        if fallback_publishes(before, events.last()) {
            earlier.push(fallback_next(before, events.last()))
        } else {
            earlier
        }
    }
}

/// The fallback monitor over a whole stream of events, starting free-running:
/// - nothing is published before the first Sync message;
/// - each Sync message publishes `Synced` with the grandmaster that sent it;
/// - a tick more than five seconds after the last Sync message, while not
///   free-running, publishes `FreRunning`; every other tick publishes nothing;
/// - `FreRunning` is published at most once between two Sync messages: each
///   time it is published, the state published just before is `Synced`;
/// - `FallingBack` is never published, nor ever reached;
/// - the last state published is the monitor's current state.
pub proof fn lemma_fallback_stream(events: Seq<FallbackEvent>)
    ensures
        ({
            let published = fallback_published(PtpState::FreRunning, events);
            let now = fallback_after(PtpState::FreRunning, events);
            &&& (forall|i: int| 0 <= i < events.len() ==> !(#[trigger] events[i] is Offset))
                ==> published.len() == 0
            &&& forall|j: int| 0 <= j < published.len() ==> !(#[trigger] published[j] is FallingBack)
            &&& forall|j: int| 0 <= j < published.len() && (#[trigger] published[j] is FreRunning)
                ==> j > 0 && published[j - 1] is Synced
            &&& !(now is FallingBack)
            &&& published.len() == 0 ==> now is FreRunning
            &&& published.len() > 0 ==> published.last() == now
        }),
        forall|i: int| 0 <= i < events.len() ==> {
            let before = fallback_after(PtpState::FreRunning, events.take(i));
            let earlier = fallback_published(PtpState::FreRunning, events.take(i));
            let later = fallback_published(PtpState::FreRunning, #[trigger] events.take(i + 1));
            &&& (events[i] matches FallbackEvent::Offset { grandmaster_id }
                ==> later == earlier.push(PtpState::Synced { grandmaster_id }))
            &&& (events[i] matches FallbackEvent::Tick { since_last_sync_ns }
                ==> later == (if !(before is FreRunning) && since_last_sync_ns > SYNC_TIMEOUT_NS {
                    earlier.push(PtpState::FreRunning)
                } else {
                    earlier
                }))
        },
    decreases events.len(),
{
    if events.len() > 0 {
        lemma_fallback_stream(events.drop_last());
    }
    assert forall|i: int| 0 <= i < events.len() implies #[trigger] events.take(i + 1).drop_last()
        == events.take(i) by {
        assert(events.take(i + 1).drop_last() =~= events.take(i));
    }
}

} // verus!
