use vstd::prelude::*;
use vstd::utf8::encode_utf8;
use crate::settings::opt_addr;
use crate::text::{chars_of, decimal_text, ipv4_text_value, parse_ipv4, push_char, push_decimal, str_eq};

verus! {

/// Persistent configuration of the audio service.
pub struct Config {
    pub device_name: String,
    pub sample_rate: u32,
    /// Number of channels (2 for stereo, up to 64).
    pub channels: u32,
    pub latency_ms: u32,
    pub log_level: String,
    pub wasapi_exclusive: bool,
    /// Friendly names for TX channels (empty: the default `Ch <n>`).
    pub channel_names: Vec<String>,
    /// Prevents configuration changes from the network.
    pub device_locked: bool,
    /// Network interface to bind to (empty: choose automatically).
    pub network_interface: String,
    /// Frames per packet: `auto`, `min`, `max` or a number.
    pub fpp: String,
    /// RX ring buffer size in samples per channel (a power of two).
    pub rx_buffer_samples: u32,
    /// Latency reference in samples.
    pub latency_ref_samples: u32,
}

/// The largest device name, in bytes, that Dante accepts.
pub const DEVICE_NAME_MAX: usize = 31;
/// Default RX ring buffer size in samples per channel.
pub const DEFAULT_RX_BUFFER: u32 = 524288;
/// Default latency reference in samples.
pub const DEFAULT_LATENCY_REF: u32 = 4800;

impl Default for Config {
    fn default() -> (c: Config)
        ensures
            c.device_name@ == "InfernoAoIP"@,
            c.sample_rate == 48000,
            c.channels == 2,
            c.latency_ms == 10,
            c.log_level@ == "info"@,
            !c.wasapi_exclusive,
            c.channel_names@.len() == 0,
            !c.device_locked,
            c.network_interface@.len() == 0,
            c.fpp@ == "auto"@,
            c.rx_buffer_samples == DEFAULT_RX_BUFFER,
            c.latency_ref_samples == DEFAULT_LATENCY_REF,
    {
        Config {
            device_name: "InfernoAoIP".to_owned(),
            sample_rate: 48000,
            channels: 2,
            latency_ms: 10,
            log_level: "info".to_owned(),
            wasapi_exclusive: false,
            channel_names: Vec::new(),
            device_locked: false,
            network_interface: String::new(),
            fpp: "auto".to_owned(),
            rx_buffer_samples: DEFAULT_RX_BUFFER,
            latency_ref_samples: DEFAULT_LATENCY_REF,
        }
    }
}

/// The name of channel `idx`: its configured name when that is set and not
/// empty, otherwise `Ch <idx + 1>`.
pub open spec fn channel_name_text(names: Seq<String>, idx: nat) -> Seq<char> {
    if idx < names.len() && names[idx as int]@.len() > 0 {
        names[idx as int]@
    } else {
        "Ch "@ + decimal_text(idx + 1)
    }
}

/// Unicode `Alphabetic` or `Numeric`, as `char::is_alphanumeric` decides.
pub uninterp spec fn char_alphanumeric(c: char) -> bool;

/// `char::is_alphanumeric`.
#[verifier::external_body]
fn is_alphanumeric(c: char) -> (r: bool)
    ensures
        r == char_alphanumeric(c),
{
    c.is_alphanumeric()
}

/// The character kept in a device name: itself when alphanumeric, a hyphen or a
/// space, a hyphen otherwise.
pub open spec fn name_char(c: char, alphanumeric: bool) -> char {
    if alphanumeric || c == '-' || c == ' ' { c } else { '-' }
}

/// The character kept in a device name, given whether `c` is alphanumeric.
pub fn sanitized_char(c: char, alphanumeric: bool) -> (r: char)
    ensures
        r == name_char(c, alphanumeric),
{
    if alphanumeric || c == '-' || c == ' ' { c } else { '-' }
}

/// A device name fit for Dante: when longer than 31 bytes, its first 31
/// characters; then every character other than alphanumerics, hyphens and
/// spaces replaced by a hyphen.
pub open spec fn sanitized_name(name: Seq<char>) -> Seq<char> {
    let cut = if encode_utf8(name).len() > DEVICE_NAME_MAX && name.len() > DEVICE_NAME_MAX {
        name.take(DEVICE_NAME_MAX as int)
    } else {
        name
    };
    cut.map_values(|c: char| name_char(c, char_alphanumeric(c)))
}

proof fn lemma_encode_len_at_least_chars(s: Seq<char>)
    ensures
        encode_utf8(s).len() >= s.len(),
    decreases s.len(),
{
    if s.len() > 0 {
        lemma_encode_len_at_least_chars(s.drop_first());
    }
}

/// A sanitized device name has at most 31 characters, each of them
/// alphanumeric, a hyphen or a space.
pub proof fn lemma_sanitized_name(name: Seq<char>)
    ensures
        sanitized_name(name).len() <= DEVICE_NAME_MAX,
        forall|i: int| 0 <= i < sanitized_name(name).len() ==> {
            let c = #[trigger] sanitized_name(name)[i];
            char_alphanumeric(c) || c == '-' || c == ' '
        },
{
    lemma_encode_len_at_least_chars(name);
}

/// Whether `x` is a power of two.
pub open spec fn is_pow2(x: nat) -> bool
    decreases x,
{
    if x == 1 {
        true
    } else if x == 0 || x % 2 == 1 {
        false
    } else {
        is_pow2(x / 2)
    }
}

/// The smallest power of two that is at least `x` (1 for 0), searching upward from `p`.
pub open spec fn next_pow2_from(x: nat, p: nat) -> nat
    decreases (if p < x { x - p } else { 0 }),
{
    if p >= x || p == 0 { p } else { next_pow2_from(x, p * 2) }
}

/// The smallest power of two that is at least `x` (1 for 0).
pub open spec fn next_pow2(x: nat) -> nat {
    next_pow2_from(x, 1)
}

/// The ring buffer size kept: the default for 0, a power of two as it is, other
/// values rounded up to the next power of two.
pub open spec fn sanitized_rx_buffer(x: u32) -> nat {
    if x == 0 {
        DEFAULT_RX_BUFFER as nat
    } else if is_pow2(x as nat) {
        x as nat
    } else {
        next_pow2(x as nat)
    }
}

proof fn lemma_pow2_of_double(p: nat)
    requires
        is_pow2(p),
    ensures
        is_pow2(p * 2),
{
    assert((p * 2) % 2 == 0);
    assert((p * 2) / 2 == p);
}

/// Whether `x` is a power of two.
fn is_power_of_two(x: u32) -> (r: bool)
    ensures
        r == is_pow2(x as nat),
    decreases x,
{
    if x == 1 {
        true
    } else if x == 0 || x % 2 == 1 {
        false
    } else {
        is_power_of_two(x / 2)
    }
}

/// The smallest power of two that is at least `x`.
fn next_power_of_two(x: u32) -> (r: u32)
    requires
        x <= 0x8000_0000,
    ensures
        r == next_pow2(x as nat),
{
    let mut p: u32 = 1;
    while p < x
        invariant
            1 <= p,
            x <= 0x8000_0000,
            next_pow2(x as nat) == next_pow2_from(x as nat, p as nat),
        decreases (if p < x { x - p } else { 0 }),
    {
        p = p * 2;
    }
    p
}

/// Rounding up to a power of two gives a power of two no smaller than the value.
pub proof fn lemma_next_pow2(x: nat)
    ensures
        is_pow2(next_pow2(x)),
        next_pow2(x) >= x,
{
    lemma_next_pow2_from(x, 1);
}

proof fn lemma_next_pow2_from(x: nat, p: nat)
    requires
        is_pow2(p),
    ensures
        is_pow2(next_pow2_from(x, p)),
        next_pow2_from(x, p) >= x,
    decreases (if p < x { x - p } else { 0 }),
{
    if p < x && p != 0 {
        lemma_pow2_of_double(p);
        lemma_next_pow2_from(x, p * 2);
    }
}

/// A sanitized ring buffer size is a power of two, and never smaller than a
/// non-zero configured size.
pub proof fn lemma_sanitized_rx_buffer(x: u32)
    ensures
        is_pow2(sanitized_rx_buffer(x)),
        x > 0 ==> sanitized_rx_buffer(x) >= x,
{
    if x == 0 {
        assert(is_pow2(524288)) by {
            reveal_with_fuel(is_pow2, 21);
        }
    } else if !is_pow2(x as nat) {
        lemma_next_pow2(x as nat);
    }
}

impl Config {
    /// The name of channel `idx` (numbered from 0).
    pub fn channel_name(&self, idx: usize) -> (r: String)
        requires
            idx < usize::MAX,
        ensures
            r@ == channel_name_text(self.channel_names@, idx as nat),
    {
        if idx < self.channel_names.len() && self.channel_names[idx].as_str().as_bytes().len() > 0 {
            let r = self.channel_names[idx].clone();
            proof {
                vstd::utf8::encode_utf8_decode_utf8(self.channel_names@[idx as int]@);
                if self.channel_names@[idx as int]@.len() == 0 {
                    assert(encode_utf8(self.channel_names@[idx as int]@) =~= Seq::<u8>::empty());
                }
            }
            r
        } else {
            proof {
                if idx < self.channel_names@.len() {
                    vstd::utf8::encode_utf8_decode_utf8(self.channel_names@[idx as int]@);
                }
            }
            let mut s = "Ch ".to_owned();
            push_decimal(&mut s, (idx as u64) + 1);
            s
        }
    }

    /// The frames-per-packet setting used when the file does not give one.
    pub fn default_fpp() -> (r: String)
        ensures
            r@ == "auto"@,
    {
        "auto".to_owned()
    }

    /// The ring buffer size used when the file does not give one.
    pub fn default_rx_buffer_samples() -> (r: u32)
        ensures
            r == DEFAULT_RX_BUFFER,
    {
        DEFAULT_RX_BUFFER
    }

    /// The latency reference used when the file does not give one.
    pub fn default_latency_ref_samples() -> (r: u32)
        ensures
            r == DEFAULT_LATENCY_REF,
    {
        DEFAULT_LATENCY_REF
    }

    /// Whether `sanitize` can correct this configuration (a ring buffer size
    /// above 2^31 has no power of two above it in 32 bits, and the program
    /// stops on it).
    pub fn sanitizable(&self) -> (r: bool)
        ensures
            r == (self.rx_buffer_samples <= 0x8000_0000),
    {
        self.rx_buffer_samples <= 0x8000_0000
    }

    /// Correct a loaded configuration: a channel count outside 1..=64 becomes 2,
    /// the ring buffer size becomes a power of two, and the device name is made
    /// fit for Dante. Other fields are unchanged.
    pub fn sanitize(&mut self)
        requires
            old(self).rx_buffer_samples <= 0x8000_0000,
        ensures
            final(self).channels == if old(self).channels == 0 || old(self).channels > 64 { 2 } else { old(self).channels },
            final(self).rx_buffer_samples == sanitized_rx_buffer(old(self).rx_buffer_samples),
            final(self).device_name@ == sanitized_name(old(self).device_name@),
            final(self).sample_rate == old(self).sample_rate,
            final(self).latency_ms == old(self).latency_ms,
            final(self).log_level == old(self).log_level,
            final(self).wasapi_exclusive == old(self).wasapi_exclusive,
            final(self).channel_names == old(self).channel_names,
            final(self).device_locked == old(self).device_locked,
            final(self).network_interface == old(self).network_interface,
            final(self).fpp == old(self).fpp,
            final(self).latency_ref_samples == old(self).latency_ref_samples,
    {
        if self.channels == 0 || self.channels > 64 {
            self.channels = 2;
        }
        if self.rx_buffer_samples == 0 {
            self.rx_buffer_samples = DEFAULT_RX_BUFFER;
        } else if !is_power_of_two(self.rx_buffer_samples) {
            self.rx_buffer_samples = next_power_of_two(self.rx_buffer_samples);
        }
        let chars = chars_of(self.device_name.as_str());
        let byte_len = self.device_name.as_str().as_bytes().len();
        let keep = if byte_len > DEVICE_NAME_MAX && chars.len() > DEVICE_NAME_MAX { DEVICE_NAME_MAX } else { chars.len() };
        let ghost cut = chars@.take(keep as int);
        let mut name = String::new();
        let mut i: usize = 0;
        while i < keep
            invariant
                keep <= chars@.len(),
                cut == chars@.take(keep as int),
                i <= keep,
                name@ == cut.take(i as int).map_values(|c: char| name_char(c, char_alphanumeric(c))),
            decreases keep - i,
        {
            let c = chars[i];
            let kept = sanitized_char(c, is_alphanumeric(c));
            push_char(&mut name, kept);
            i = i + 1;
            assert(name@ =~= cut.take(i as int).map_values(|c: char| name_char(c, char_alphanumeric(c))));
        }
        assert(cut.take(keep as int) =~= cut);
        if !(byte_len > DEVICE_NAME_MAX && chars.len() > DEVICE_NAME_MAX) {
            assert(chars@.take(keep as int) =~= chars@);
        }
        self.device_name = name;
    }

    /// The address to bind to: none when no interface is configured; the
    /// configured text when it is an address; otherwise the first IPv4 address of
    /// an interface of that name among `interfaces` (name and IPv4 address, or
    /// `None` for an IPv6 one).
    pub fn resolve_interface_ip(&self, interfaces: &Vec<(String, Option<[u8; 4]>)>) -> (r: Option<[u8; 4]>)
        ensures
            opt_addr(r) == resolved_interface(self.network_interface@, interfaces@),
    {
        if self.network_interface.as_str().as_bytes().len() == 0 {
            proof {
                vstd::utf8::encode_utf8_decode_utf8(self.network_interface@);
            }
            return None;
        }
        proof {
            if self.network_interface@.len() == 0 {
                assert(encode_utf8(self.network_interface@) =~= Seq::<u8>::empty());
            }
        }
        if let Some(ip) = parse_ipv4(self.network_interface.as_str()) {
            return Some(ip);
        }
        let n = interfaces.len();
        let mut i: usize = 0;
        assert(interfaces@.skip(0) =~= interfaces@);
        while i < n
            invariant
                n == interfaces@.len(),
                i <= n,
                ipv4_text_value(self.network_interface@) is None,
                self.network_interface@.len() > 0,
                resolved_interface(self.network_interface@, interfaces@)
                    == first_v4_named(interfaces@.skip(i as int), self.network_interface@),
                interfaces@.skip(0) == interfaces@,
            decreases n - i,
        {
            assert(interfaces@.skip(i as int).drop_first() =~= interfaces@.skip(i + 1));
            if str_eq(interfaces[i].0.as_str(), self.network_interface.as_str()) {
                if let Some(ip) = interfaces[i].1 {
                    return Some(ip);
                }
            }
            i = i + 1;
        }
        None
    }
}

/// The first IPv4 address among `interfaces` with the given name.
pub open spec fn first_v4_named(interfaces: Seq<(String, Option<[u8; 4]>)>, name: Seq<char>) -> Option<Seq<u8>>
    decreases interfaces.len(),
{
    if interfaces.len() == 0 {
        None
    } else if interfaces[0].0@ == name && interfaces[0].1 is Some {
        Some(interfaces[0].1->0@)
    } else {
        first_v4_named(interfaces.drop_first(), name)
    }
}

/// The address that an interface setting selects.
pub open spec fn resolved_interface(setting: Seq<char>, interfaces: Seq<(String, Option<[u8; 4]>)>) -> Option<Seq<u8>> {
    if setting.len() == 0 {
        None
    } else {
        match ipv4_text_value(setting) {
            Some(a) => Some(a),
            None => first_v4_named(interfaces, setting),
        }
    }
}

} // verus!
