use vstd::prelude::*;
use vstd::string::StringSliceAdditionalSpecFns;
use vstd::utf8::{encode_utf8, decode_utf8};
use crate::config_map::{ConfigMap, EntryView, lookup, merge_env, pairs_view, upper_keys};
use crate::device_info::{Channel, DeviceInfo};
use crate::text::{
    within, unsigned_text_value, ipv4_text_value, hex_decoded_into, hex_valid_prefix, hex_text,
    trim_start_all, hex_padded_text, decimal_text, bool_text_value, push_decimal, parse_bool,
    parse_u16, parse_u32, parse_usize, parse_u32_hex, parse_ipv4,
    str_eq, trim_start_matches, push_char, push_hex_padded, hex_encode, hex_decode_to_slice,
};

verus! {

broadcast use vstd::utf8::encode_utf8_decode_utf8, vstd::utf8::encode_utf8_valid_utf8;

/// Port of the audio routing control protocol.
pub const ARC_PORT: u16 = 4440;
/// Port of the conmon control protocol.
pub const CMC_PORT: u16 = 8800;
/// Port of the flow control protocol.
pub const FLOWS_CONTROL_PORT: u16 = 4455;
/// Port on which device information is requested.
pub const INFO_REQUEST_PORT: u16 = 8700;

pub const DEFAULT_PROCESS_ID: u16 = 0;
pub const DEFAULT_RX_LATENCY_NS: usize = 10_000_000;
pub const DEFAULT_TX_LATENCY_NS: u32 = 10_000_000;
pub const DEFAULT_SAMPLE_RATE: u32 = 48000;
pub const DEFAULT_USE_SAFE_CLOCK: bool = false;
pub const MAX_SHORT_APPNAME_LEN: usize = 14;
pub const MAX_APPNAME_FOR_HOSTNAME: usize = 22;

// ---------------------------------------------------------------------------
// What the host tells about itself
// ---------------------------------------------------------------------------

/// An IPv4 address with its netmask, as configured on an interface.
#[derive(Clone, Copy)]
pub struct Ipv4Network {
    pub addr: [u8; 4],
    pub netmask: [u8; 4],
}

/// A network interface of the host.
pub struct NetInterface {
    pub name: String,
    pub ipv4: Vec<Ipv4Network>,
    /// Bits per second.
    pub transmit_speed: Option<u64>,
    /// Bits per second.
    pub receive_speed: Option<u64>,
    /// IPv4 addresses of the interface's gateway, when it has one.
    pub gateway_ipv4: Option<Vec<[u8; 4]>>,
    pub mac_addr: Option<[u8; 6]>,
}

/// The host's own answer to "what is my local IP address".
#[derive(Clone, Copy)]
pub enum LocalIp {
    V4([u8; 4]),
    V6,
    Unavailable,
}

/// The environment and interfaces of the host that settings depend on.
pub struct HostContext {
    /// The process environment, in the order the system lists it.
    pub env_vars: Vec<(String, String)>,
    pub interfaces: Vec<NetInterface>,
    pub local_ip: LocalIp,
}

// ---------------------------------------------------------------------------
// Specification of the settings
// ---------------------------------------------------------------------------

/// A numeric setting: its decimal value when it is set and fits in `max`, else `default`.
pub open spec fn setting_number(cfg: Seq<EntryView>, key: Seq<char>, max: nat, default: nat) -> nat {
    match lookup(cfg, key) {
        Some(s) => match within(unsigned_text_value(s, 10), max) {
            Some(v) => v,
            None => default,
        },
        None => default,
    }
}

/// Index of the first interface called `name`, or the number of interfaces.
pub open spec fn named_index(ifaces: Seq<NetInterface>, name: Seq<char>) -> int
    decreases ifaces.len(),
{
    if ifaces.len() == 0 {
        0
    } else if ifaces[0].name@ == name {
        0
    } else {
        1 + named_index(ifaces.drop_first(), name)
    }
}

/// The address that the `BIND_IP` setting selects: the address it spells, or
/// else the first IPv4 address of the first interface it names.
pub open spec fn bind_ip_value(cfg: Seq<EntryView>, ifaces: Seq<NetInterface>) -> Option<Seq<u8>> {
    match lookup(cfg, "BIND_IP"@) {
        None => None,
        Some(s) => match ipv4_text_value(s) {
            Some(a) => Some(a),
            None => {
                let i = named_index(ifaces, s);
                if i < ifaces.len() && ifaces[i].ipv4@.len() > 0 {
                    Some(ifaces[i].ipv4@[0].addr@)
                } else {
                    None
                }
            },
        },
    }
}

/// 127.0.0.1
pub open spec fn localhost() -> Seq<u8> {
    seq![127u8, 0u8, 0u8, 1u8]
}

/// The device's address: the one given, else the `BIND_IP` setting, else the
/// host's local IPv4 address, else localhost.
pub open spec fn chosen_ip(
    my_ip: Option<Seq<u8>>,
    cfg: Seq<EntryView>,
    ifaces: Seq<NetInterface>,
    local: LocalIp,
) -> Seq<u8> {
    match my_ip {
        Some(a) => a,
        None => match bind_ip_value(cfg, ifaces) {
            Some(a) => a,
            None => match local {
                LocalIp::V4(a) => a@,
                _ => localhost(),
            },
        },
    }
}

/// `d` with bytes 2..6 set to the address and bytes 6..8 to the process id (big-endian).
pub open spec fn with_ip_and_pid(d: Seq<u8>, ip: Seq<u8>, pid: nat) -> Seq<u8> {
    seq![d[0], d[1], ip[0], ip[1], ip[2], ip[3], (pid / 256) as u8, (pid % 256) as u8]
}

/// Eight zero bytes.
pub open spec fn zero_id() -> Seq<u8> {
    Seq::new(8, |i: int| 0u8)
}

/// The factory device id: decoded from the `DEVICE_ID` setting when that is 16
/// hexadecimal digits, otherwise derived from address and process id (on top of
/// whatever leading bytes a failed decode wrote).
pub open spec fn device_id_value(cfg: Seq<EntryView>, ip: Seq<u8>, pid: nat) -> Seq<u8> {
    match lookup(cfg, "DEVICE_ID"@) {
        Some(t) => {
            let b = encode_utf8(t);
            let d = hex_decoded_into(b, zero_id());
            if b.len() == 16 && hex_valid_prefix(b, 8) == 8 {
                d
            } else {
                with_ip_and_pid(d, ip, pid)
            }
        },
        None => with_ip_and_pid(zero_id(), ip, pid),
    }
}

/// The largest character boundary of the encoded text `b` that is at most `n`.
pub open spec fn cut_point(b: Seq<u8>, n: nat) -> nat
    decreases n,
{
    if n == 0 || vstd::utf8::is_char_boundary(b, n as int) {
        n
    } else {
        cut_point(b, (n - 1) as nat)
    }
}

/// `s` cut to fit `n` bytes, when it is longer: its characters up to the last
/// character boundary within the first `n` bytes.
pub open spec fn truncated(s: Seq<char>, n: nat) -> Seq<char> {
    if encode_utf8(s).len() > n {
        decode_utf8(encode_utf8(s).take(cut_point(encode_utf8(s), n) as int))
    } else {
        s
    }
}

/// The friendly hostname: the `NAME` setting cut to 31 bytes, or the application
/// name (cut to 22 bytes), a space and the address in hexadecimal.
pub open spec fn friendly_hostname_value(cfg: Seq<EntryView>, app_name: Seq<char>, ip: Seq<u8>) -> Seq<char> {
    match lookup(cfg, "NAME"@) {
        Some(s) => truncated(s, 31),
        None => truncated(app_name, 22) + seq![' '] + hex_text(ip),
    }
}

/// The factory hostname: the short application name (cut to 14 bytes), a hyphen
/// and the device id in hexadecimal.
pub open spec fn factory_hostname_value(short_app_name: Seq<char>, id: Seq<u8>) -> Seq<char> {
    truncated(short_app_name, 14) + seq!['-'] + hex_text(id)
}

/// The model number: `_`, the `DANTE_MODEL_NUMBER` value (hexadecimal, any `0x`
/// prefixes removed) as 14 hexadecimal digits, and `b`; a fixed default otherwise.
pub open spec fn model_number_value(v: Option<Seq<char>>) -> Seq<char> {
    match v {
        Some(s) => match within(unsigned_text_value(trim_start_all(s, "0x"@), 16), u32::MAX as nat) {
            Some(n) => seq!['_'] + hex_padded_text(n, 14) + seq!['b'],
            None => "_000000000000000b"@,
        },
        None => "_000000000000000b"@,
    }
}

/// Index of the first network whose address is `ip`, or the number of networks.
pub open spec fn net_index(nets: Seq<Ipv4Network>, ip: Seq<u8>) -> int
    decreases nets.len(),
{
    if nets.len() == 0 {
        0
    } else if nets[0].addr@ == ip {
        0
    } else {
        1 + net_index(nets.drop_first(), ip)
    }
}

/// Index of the first interface that carries `ip`, or the number of interfaces.
pub open spec fn carrier_index(ifaces: Seq<NetInterface>, ip: Seq<u8>) -> int
    decreases ifaces.len(),
{
    if ifaces.len() == 0 {
        0
    } else if net_index(ifaces[0].ipv4@, ip) < ifaces[0].ipv4@.len() {
        0
    } else {
        1 + carrier_index(ifaces.drop_first(), ip)
    }
}

/// `a` and `b` lie in the same network under mask `m`.
pub open spec fn same_subnet(a: Seq<u8>, b: Seq<u8>, m: Seq<u8>) -> bool {
    forall|k: int| 0 <= k < 4 ==> (#[trigger] a[k] & m[k]) == (b[k] & m[k])
}

/// Index of the first gateway address in the subnet of `ip`, or the number of addresses.
pub open spec fn gateway_index(gws: Seq<[u8; 4]>, ip: Seq<u8>, m: Seq<u8>) -> int
    decreases gws.len(),
{
    if gws.len() == 0 {
        0
    } else if same_subnet(gws[0]@, ip, m) {
        0
    } else {
        1 + gateway_index(gws.drop_first(), ip, m)
    }
}

/// Four zero bytes.
pub open spec fn zero4() -> Seq<u8> {
    seq![0u8, 0u8, 0u8, 0u8]
}

/// The netmask of the network that carries `ip`, or all zeros.
pub open spec fn netmask_value(ifaces: Seq<NetInterface>, ip: Seq<u8>) -> Seq<u8> {
    let i = carrier_index(ifaces, ip);
    if i < ifaces.len() {
        ifaces[i].ipv4@[net_index(ifaces[i].ipv4@, ip)].netmask@
    } else {
        zero4()
    }
}

/// The gateway of the interface that carries `ip` that lies in its subnet, or all zeros.
pub open spec fn gateway_value(ifaces: Seq<NetInterface>, ip: Seq<u8>) -> Seq<u8> {
    let i = carrier_index(ifaces, ip);
    let m = netmask_value(ifaces, ip);
    if i < ifaces.len() && ifaces[i].gateway_ipv4 is Some {
        let gws = ifaces[i].gateway_ipv4->0@;
        let g = gateway_index(gws, ip, m);
        if g < gws.len() { gws[g]@ } else { zero4() }
    } else {
        zero4()
    }
}

/// The MAC address of the interface that carries `ip`, or all zeros.
pub open spec fn mac_value(ifaces: Seq<NetInterface>, ip: Seq<u8>) -> Seq<u8> {
    let i = carrier_index(ifaces, ip);
    if i < ifaces.len() && ifaces[i].mac_addr is Some {
        ifaces[i].mac_addr->0@
    } else {
        seq![0u8, 0u8, 0u8, 0u8, 0u8, 0u8]
    }
}

/// The link speed in Mbit/s of the interface that carries `ip` (the faster of
/// its two directions), at most 10000; 0 when no interface carries it.
pub open spec fn link_speed_value(ifaces: Seq<NetInterface>, ip: Seq<u8>) -> nat {
    let i = carrier_index(ifaces, ip);
    if i < ifaces.len() {
        let tx: nat = match ifaces[i].transmit_speed { Some(v) => v as nat, None => 0 };
        let rx: nat = match ifaces[i].receive_speed { Some(v) => v as nat, None => 0 };
        let fastest = if tx >= rx { tx } else { rx };
        let mbit = fastest / 1_000_000;
        if mbit > 10000 { 10000 } else { mbit }
    } else {
        0
    }
}

/// The alternate port base that the `ALT_PORT` setting gives, when it is a port number.
pub open spec fn alt_port_value(cfg: Seq<EntryView>) -> Option<nat> {
    match lookup(cfg, "ALT_PORT"@) {
        Some(s) => within(unsigned_text_value(s, 10), u16::MAX as nat),
        None => None,
    }
}

/// Inputs on which building the device information would stop the program:
/// an alternate port base too high to leave room for the three ports after it.
pub open spec fn self_info_unbuildable(cfg: Seq<EntryView>) -> bool {
    match alt_port_value(cfg) {
        Some(p) => p > u16::MAX - 3,
        None => false,
    }
}

/// `info` is the device information for these inputs (channels aside).
pub open spec fn self_info_matches(
    info: DeviceInfo,
    app_name: Seq<char>,
    short_app_name: Seq<char>,
    my_ip: Option<Seq<u8>>,
    cfg: Seq<EntryView>,
    ifaces: Seq<NetInterface>,
    local: LocalIp,
    model: Option<Seq<char>>,
) -> bool {
    let ip = chosen_ip(my_ip, cfg, ifaces, local);
    let pid = setting_number(cfg, "PROCESS_ID"@, u16::MAX as nat, DEFAULT_PROCESS_ID as nat);
    let id = device_id_value(cfg, ip, pid);
    &&& info.ip_address@ == ip
    &&& info.process_id == pid
    &&& info.factory_device_id@ == id
    &&& info.friendly_hostname@ == friendly_hostname_value(cfg, app_name, ip)
    &&& info.factory_hostname@ == factory_hostname_value(short_app_name, id)
    &&& info.model_number@ == model_number_value(model)
    &&& info.model_name@ == app_name
    &&& info.board_name@ == "Inferno-AoIP"@
    &&& info.manufacturer@ == "Inferno-AoIP"@
    &&& info.vendor_string@ == "Audinate Dante-compatible"@
    &&& info.sample_rate == setting_number(cfg, "SAMPLE_RATE"@, u32::MAX as nat, DEFAULT_SAMPLE_RATE as nat)
    &&& info.latency_ns == setting_number(cfg, "RX_LATENCY_NS"@, usize::MAX as nat, DEFAULT_RX_LATENCY_NS as nat)
    &&& info.tx_latency_ns == setting_number(cfg, "TX_LATENCY_NS"@, u32::MAX as nat, DEFAULT_TX_LATENCY_NS as nat)
    &&& info.netmask@ == netmask_value(ifaces, ip)
    &&& info.gateway@ == gateway_value(ifaces, ip)
    &&& info.mac_address@ == mac_value(ifaces, ip)
    &&& info.link_speed == link_speed_value(ifaces, ip)
    &&& info.bits_per_sample == 24
    &&& info.pcm_type == 0xe
    &&& match alt_port_value(cfg) {
        Some(p) => {
            &&& info.arc_port == p
            &&& info.cmc_port == p + 1
            &&& info.flows_control_port == p + 2
            &&& info.info_request_port == p + 3
        },
        None => {
            &&& info.arc_port == ARC_PORT
            &&& info.cmc_port == CMC_PORT
            &&& info.flows_control_port == FLOWS_CONTROL_PORT
            &&& info.info_request_port == INFO_REQUEST_PORT
        },
    }
}

// ---------------------------------------------------------------------------
// Characterisations of the "first index" specifications
// ---------------------------------------------------------------------------

proof fn lemma_named_index(ifaces: Seq<NetInterface>, name: Seq<char>, i: int)
    requires
        0 <= i <= ifaces.len(),
        forall|j: int| 0 <= j < i ==> ifaces[j].name@ != name,
        i < ifaces.len() ==> ifaces[i].name@ == name,
    ensures
        named_index(ifaces, name) == i,
    decreases ifaces.len(),
{
    if ifaces.len() > 0 && ifaces[0].name@ != name {
        lemma_named_index(ifaces.drop_first(), name, i - 1);
    }
}

proof fn lemma_net_index(nets: Seq<Ipv4Network>, ip: Seq<u8>, i: int)
    requires
        0 <= i <= nets.len(),
        forall|j: int| 0 <= j < i ==> nets[j].addr@ != ip,
        i < nets.len() ==> nets[i].addr@ == ip,
    ensures
        net_index(nets, ip) == i,
    decreases nets.len(),
{
    if nets.len() > 0 && nets[0].addr@ != ip {
        lemma_net_index(nets.drop_first(), ip, i - 1);
    }
}

proof fn lemma_carrier_index(ifaces: Seq<NetInterface>, ip: Seq<u8>, i: int)
    requires
        0 <= i <= ifaces.len(),
        forall|j: int| 0 <= j < i ==> net_index(ifaces[j].ipv4@, ip) >= ifaces[j].ipv4@.len(),
        i < ifaces.len() ==> net_index(ifaces[i].ipv4@, ip) < ifaces[i].ipv4@.len(),
    ensures
        carrier_index(ifaces, ip) == i,
    decreases ifaces.len(),
{
    if ifaces.len() > 0 && net_index(ifaces[0].ipv4@, ip) >= ifaces[0].ipv4@.len() {
        lemma_carrier_index(ifaces.drop_first(), ip, i - 1);
    }
}

proof fn lemma_gateway_index(gws: Seq<[u8; 4]>, ip: Seq<u8>, m: Seq<u8>, i: int)
    requires
        0 <= i <= gws.len(),
        forall|j: int| 0 <= j < i ==> !same_subnet(gws[j]@, ip, m),
        i < gws.len() ==> same_subnet(gws[i]@, ip, m),
    ensures
        gateway_index(gws, ip, m) == i,
    decreases gws.len(),
{
    if gws.len() > 0 && !same_subnet(gws[0]@, ip, m) {
        lemma_gateway_index(gws.drop_first(), ip, m, i - 1);
    }
}

// ---------------------------------------------------------------------------
// Reading settings
// ---------------------------------------------------------------------------

/// A `u16` setting, or `default` when it is missing or malformed.
fn setting_u16(cfg: &ConfigMap, key: &str, default: u16) -> (r: u16)
    ensures
        r == setting_number(cfg.entries_view(), key@, u16::MAX as nat, default as nat),
{
    match cfg.get(key) {
        Some(s) => match parse_u16(s.as_str()) {
            Some(v) => v,
            None => default,
        },
        None => default,
    }
}

/// A `u32` setting, or `default` when it is missing or malformed.
fn setting_u32(cfg: &ConfigMap, key: &str, default: u32) -> (r: u32)
    ensures
        r == setting_number(cfg.entries_view(), key@, u32::MAX as nat, default as nat),
{
    match cfg.get(key) {
        Some(s) => match parse_u32(s.as_str()) {
            Some(v) => v,
            None => default,
        },
        None => default,
    }
}

/// A `usize` setting, or `default` when it is missing or malformed.
fn setting_usize(cfg: &ConfigMap, key: &str, default: usize) -> (r: usize)
    ensures
        r == setting_number(cfg.entries_view(), key@, usize::MAX as nat, default as nat),
{
    match cfg.get(key) {
        Some(s) => match parse_usize(s.as_str()) {
            Some(v) => v,
            None => default,
        },
        None => default,
    }
}

/// The address the `BIND_IP` setting selects.
fn bind_ip(cfg: &ConfigMap, ifaces: &Vec<NetInterface>) -> (r: Option<[u8; 4]>)
    ensures
        (r matches Some(a) ==> bind_ip_value(cfg.entries_view(), ifaces@) == Some(a@)),
        (r is None ==> bind_ip_value(cfg.entries_view(), ifaces@) is None),
{
    let s = match cfg.get("BIND_IP") {
        Some(s) => s,
        None => return None,
    };
    if let Some(a) = parse_ipv4(s.as_str()) {
        return Some(a);
    }
    let n = ifaces.len();
    let mut i: usize = 0;
    while i < n && !str_eq(ifaces[i].name.as_str(), s.as_str())
        invariant
            n == ifaces@.len(),
            i <= n,
            forall|j: int| 0 <= j < i ==> ifaces@[j].name@ != s@,
        decreases n - i,
    {
        i = i + 1;
    }
    proof {
        lemma_named_index(ifaces@, s@, i as int);
    }
    if i < n && ifaces[i].ipv4.len() > 0 {
        Some(ifaces[i].ipv4[0].addr)
    } else {
        None
    }
}

/// `s` cut to fit `n` bytes, at the last character boundary within them.
fn truncate_str(s: &str, n: usize) -> (r: &str)
    ensures
        r@ == truncated(s@, n as nat),
{
    if s.as_bytes().len() > n {
        let ghost b = encode_utf8(s@);
        let mut k: usize = n;
        while k > 0 && !s.is_char_boundary(k)
            invariant
                k <= n,
                b == encode_utf8(s@),
                cut_point(b, n as nat) == cut_point(b, k as nat),
            decreases k,
        {
            k = k - 1;
        }
        assert(cut_point(b, k as nat) == k);
        let (head, _) = s.split_at(k);
        assert(encode_utf8(head@) =~= encode_utf8(s@).take(k as int));
        assert(decode_utf8(encode_utf8(head@)) == head@);
        head
    } else {
        assert(encode_utf8(s@).len() <= n);
        s
    }
}

/// The model number for the value of the `DANTE_MODEL_NUMBER` variable.
pub fn model_number(value: Option<&str>) -> (r: String)
    ensures
        r@ == model_number_value(match value { Some(v) => Some(v@), None => None }),
{
    if let Some(v) = value {
        if let Some(n) = parse_u32_hex(trim_start_matches(v, "0x")) {
            let mut s = String::new();
            push_char(&mut s, '_');
            push_hex_padded(&mut s, n as u64, 14);
            push_char(&mut s, 'b');
            assert(s@ =~= seq!['_'] + hex_padded_text(n as nat, 14) + seq!['b']);
            return s;
        }
    }
    "_000000000000000b".to_owned()
}

/// The first byte-wise match of `ip` among the networks of `nets`.
fn find_net(nets: &Vec<Ipv4Network>, ip: &[u8; 4]) -> (r: usize)
    ensures
        r == net_index(nets@, ip@),
{
    let n = nets.len();
    let mut j: usize = 0;
    while j < n && !bytes4_eq(&nets[j].addr, ip)
        invariant
            n == nets@.len(),
            j <= n,
            forall|k: int| 0 <= k < j ==> nets@[k].addr@ != ip@,
        decreases n - j,
    {
        j = j + 1;
    }
    proof {
        lemma_net_index(nets@, ip@, j as int);
    }
    j
}

/// Whether two addresses are equal.
fn bytes4_eq(a: &[u8; 4], b: &[u8; 4]) -> (r: bool)
    ensures
        r == (a@ == b@),
{
    let r = a[0] == b[0] && a[1] == b[1] && a[2] == b[2] && a[3] == b[3];
    if r {
        assert(a@ =~= b@);
    }
    r
}

/// Index of the first interface that carries `ip`.
fn find_carrier(ifaces: &Vec<NetInterface>, ip: &[u8; 4]) -> (r: usize)
    ensures
        r == carrier_index(ifaces@, ip@),
        r <= ifaces@.len(),
        r < ifaces@.len() ==> net_index(ifaces@[r as int].ipv4@, ip@) < ifaces@[r as int].ipv4@.len(),
{
    let n = ifaces.len();
    let mut i: usize = 0;
    while i < n && find_net(&ifaces[i].ipv4, ip) >= ifaces[i].ipv4.len()
        invariant
            n == ifaces@.len(),
            i <= n,
            forall|k: int| 0 <= k < i ==> net_index(ifaces@[k].ipv4@, ip@) >= ifaces@[k].ipv4@.len(),
        decreases n - i,
    {
        i = i + 1;
    }
    proof {
        lemma_carrier_index(ifaces@, ip@, i as int);
    }
    i
}

/// Whether `a` and `b` lie in the same network under mask `m`.
fn in_same_subnet(a: &[u8; 4], b: &[u8; 4], m: &[u8; 4]) -> (r: bool)
    ensures
        r == same_subnet(a@, b@, m@),
{
    let r = (a[0] & m[0]) == (b[0] & m[0]) && (a[1] & m[1]) == (b[1] & m[1])
        && (a[2] & m[2]) == (b[2] & m[2]) && (a[3] & m[3]) == (b[3] & m[3]);
    proof {
        if !r {
            if (a[0] & m[0]) != (b[0] & m[0]) {
                assert(!((a@[0] & m@[0]) == (b@[0] & m@[0])));
            } else if (a[1] & m[1]) != (b[1] & m[1]) {
                assert(!((a@[1] & m@[1]) == (b@[1] & m@[1])));
            } else if (a[2] & m[2]) != (b[2] & m[2]) {
                assert(!((a@[2] & m@[2]) == (b@[2] & m@[2])));
            } else {
                assert(!((a@[3] & m@[3]) == (b@[3] & m@[3])));
            }
        }
    }
    r
}

/// Network facts of the interface that carries `ip`: netmask, gateway, MAC
/// address and link speed.
fn interface_facts(ifaces: &Vec<NetInterface>, ip: &[u8; 4]) -> (r: ([u8; 4], [u8; 4], [u8; 6], u16))
    ensures
        r.0@ == netmask_value(ifaces@, ip@),
        r.1@ == gateway_value(ifaces@, ip@),
        r.2@ == mac_value(ifaces@, ip@),
        r.3 == link_speed_value(ifaces@, ip@),
{
    let mut netmask: [u8; 4] = [0u8, 0u8, 0u8, 0u8];
    let mut gateway: [u8; 4] = [0u8, 0u8, 0u8, 0u8];
    let mut mac: [u8; 6] = [0u8, 0u8, 0u8, 0u8, 0u8, 0u8];
    let mut speed: u64 = 0;
    let i = find_carrier(ifaces, ip);
    if i < ifaces.len() {
        let iface = &ifaces[i];
        let j = find_net(&iface.ipv4, ip);
        netmask = iface.ipv4[j].netmask;
        let tx = match iface.transmit_speed { Some(v) => v, None => 0 };
        let rx = match iface.receive_speed { Some(v) => v, None => 0 };
        let fastest = if tx >= rx { tx } else { rx };
        speed = fastest / 1_000_000;
        if let Some(gws) = &iface.gateway_ipv4 {
            let n = gws.len();
            let mut g: usize = 0;
            while g < n && !in_same_subnet(&gws[g], ip, &netmask)
                invariant
                    n == gws@.len(),
                    g <= n,
                    forall|k: int| 0 <= k < g ==> !same_subnet(gws@[k]@, ip@, netmask@),
                decreases n - g,
            {
                g = g + 1;
            }
            proof {
                lemma_gateway_index(gws@, ip@, netmask@, g as int);
            }
            if g < n {
                gateway = gws[g];
            }
        }
        if let Some(m) = iface.mac_addr {
            mac = m;
        }
    }
    let link_speed: u16 = if speed > 10000 { 10000 } else { speed as u16 };
    proof {
        assert(zero4() =~= seq![0u8, 0u8, 0u8, 0u8]);
    }
    assert(netmask@ =~= netmask_value(ifaces@, ip@));
    assert(gateway@ =~= gateway_value(ifaces@, ip@));
    assert(mac@ =~= mac_value(ifaces@, ip@));
    (netmask, gateway, mac, link_speed)
}

/// The factory device id for the settings, address and process id.
fn device_id(cfg: &ConfigMap, ip: &[u8; 4], pid: u16) -> (r: [u8; 8])
    ensures
        r@ == device_id_value(cfg.entries_view(), ip@, pid as nat),
{
    let mut devid: [u8; 8] = [0u8; 8];
    assert(devid@ =~= zero_id());
    let decoded = match cfg.get("DEVICE_ID") {
        Some(idstr) => hex_decode_to_slice(idstr.as_str(), &mut devid),
        None => false,
    };
    if !decoded {
        devid[2] = ip[0];
        devid[3] = ip[1];
        devid[4] = ip[2];
        devid[5] = ip[3];
        devid[6] = (pid >> 8) as u8;
        devid[7] = (pid & 0xff) as u8;
        assert((pid >> 8u16) as u8 == (pid / 256) as u8) by (bit_vector);
        assert((pid & 0xffu16) as u8 == (pid % 256) as u8) by (bit_vector);
    }
    assert(devid@ =~= device_id_value(cfg.entries_view(), ip@, pid as nat));
    devid
}

/// The octets of an optional address.
pub open spec fn opt_addr(a: Option<[u8; 4]>) -> Option<Seq<u8>> {
    match a {
        Some(x) => Some(x@),
        None => None,
    }
}

/// The value that a list of pairs gives `key` (the last pair with that key).
pub fn pairs_get<'a>(pairs: &'a Vec<(String, String)>, key: &str) -> (r: Option<&'a String>)
    ensures
        (r matches Some(v) ==> lookup(pairs_view(pairs@), key@) == Some(v@)),
        (r is None ==> lookup(pairs_view(pairs@), key@) is None),
{
    let ghost view = pairs_view(pairs@);
    let mut i = pairs.len();
    assert(view.take(i as int) =~= view);
    while i > 0
        invariant
            i <= pairs@.len(),
            view == pairs_view(pairs@),
            lookup(view, key@) == lookup(view.take(i as int), key@),
        decreases i,
    {
        if str_eq(pairs[i - 1].0.as_str(), key) {
            return Some(&pairs[i - 1].1);
        }
        assert(view.take(i as int).drop_last() =~= view.take(i - 1));
        i = i - 1;
    }
    None
}

/// The device information for an application, from its settings and the host.
/// An address given as `my_ip` takes precedence over every other source.
pub fn create_self_info(
    app_name: &str,
    short_app_name: &str,
    my_ip: Option<[u8; 4]>,
    settings: &ConfigMap,
    host: &HostContext,
) -> (r: DeviceInfo)
    requires
        !self_info_unbuildable(settings.entries_view()),
    ensures
        self_info_matches(
            r,
            app_name@,
            short_app_name@,
            opt_addr(my_ip),
            settings.entries_view(),
            host.interfaces@,
            host.local_ip,
            lookup(pairs_view(host.env_vars@), "DANTE_MODEL_NUMBER"@),
        ),
        r.rx_channels@.len() == 0,
        r.tx_channels@.len() == 0,
{
    let ifaces = &host.interfaces;
    let my_ipv4: [u8; 4] = match my_ip {
        Some(a) => a,
        None => match bind_ip(settings, ifaces) {
            Some(a) => a,
            None => match host.local_ip {
                LocalIp::V4(a) => a,
                _ => [127u8, 0u8, 0u8, 1u8],
            },
        },
    };
    assert(my_ipv4@ =~= chosen_ip(opt_addr(my_ip), settings.entries_view(), ifaces@, host.local_ip));
    let process_id = setting_u16(settings, "PROCESS_ID", DEFAULT_PROCESS_ID);
    let devid = device_id(settings, &my_ipv4, process_id);

    let friendly_hostname = match settings.get("NAME") {
        Some(name) => truncate_str(name.as_str(), 31).to_owned(),
        None => {
            let mut h = truncate_str(app_name, MAX_APPNAME_FOR_HOSTNAME).to_owned();
            push_char(&mut h, ' ');
            let hex = hex_encode(my_ipv4.as_slice());
            h.append(hex.as_str());
            assert(h@ =~= truncated(app_name@, 22) + seq![' '] + hex_text(my_ipv4@));
            h
        },
    };
    let mut factory_hostname = truncate_str(short_app_name, MAX_SHORT_APPNAME_LEN).to_owned();
    push_char(&mut factory_hostname, '-');
    let id_hex = hex_encode(devid.as_slice());
    factory_hostname.append(id_hex.as_str());
    assert(factory_hostname@ =~= factory_hostname_value(short_app_name@, devid@));

    let sample_rate = setting_u32(settings, "SAMPLE_RATE", DEFAULT_SAMPLE_RATE);
    let (netmask, gateway, mac_address, link_speed) = interface_facts(ifaces, &my_ipv4);
    let latency_ns = setting_usize(settings, "RX_LATENCY_NS", DEFAULT_RX_LATENCY_NS);
    let tx_latency_ns = setting_u32(settings, "TX_LATENCY_NS", DEFAULT_TX_LATENCY_NS);
    let model = match pairs_get(&host.env_vars, "DANTE_MODEL_NUMBER") {
        Some(v) => model_number(Some(v.as_str())),
        None => model_number(None),
    };

    let mut result = DeviceInfo {
        ip_address: my_ipv4,
        netmask,
        gateway,
        mac_address,
        link_speed,
        board_name: "Inferno-AoIP".to_owned(),
        manufacturer: "Inferno-AoIP".to_owned(),
        model_name: app_name.to_owned(),
        factory_device_id: devid,
        process_id,
        vendor_string: "Audinate Dante-compatible".to_owned(),
        factory_hostname,
        friendly_hostname,
        model_number: model,
        rx_channels: Vec::new(),
        tx_channels: Vec::new(),
        bits_per_sample: 24,
        pcm_type: 0xe,
        latency_ns,
        tx_latency_ns,
        sample_rate,
        arc_port: ARC_PORT,
        cmc_port: CMC_PORT,
        flows_control_port: FLOWS_CONTROL_PORT,
        info_request_port: INFO_REQUEST_PORT,
    };

    if let Some(alt) = settings.get("ALT_PORT") {
        if let Some(altport) = parse_u16(alt.as_str()) {
            result.arc_port = altport;
            result.cmc_port = altport + 1;
            result.flows_control_port = altport + 2;
            result.info_request_port = altport + 3;
        }
    }
    result
}

// ---------------------------------------------------------------------------
// Settings
// ---------------------------------------------------------------------------

/// Default ring buffer size in samples per channel.
pub const DEFAULT_RX_BUFFER_SAMPLES: usize = 524288;
/// Default latency reference in samples (100 ms at 48 kHz).
pub const DEFAULT_LATENCY_REF_SAMPLES: usize = 4800;

/// `n` in decimal, zero-padded to at least two digits.
pub open spec fn decimal_2(n: nat) -> Seq<char> {
    if n < 10 { seq!['0'] + decimal_text(n) } else { decimal_text(n) }
}

/// `chs` are channels `1..=count`, each named by its number (two digits) and
/// called `prefix` followed by its number.
pub open spec fn numbered_channels(chs: Seq<Channel>, count: nat, prefix: Seq<char>) -> bool {
    &&& chs.len() == count
    &&& forall|i: int| 0 <= i < count ==> {
        &&& (#[trigger] chs[i]).factory_name@ == decimal_2((i + 1) as nat)
        &&& chs[i].friendly_name@ == prefix + decimal_text((i + 1) as nat)
    }
}

/// Channels `1..=count` named as `numbered_channels` says.
fn make_channels(count: usize, prefix: &str) -> (r: Vec<Channel>)
    ensures
        numbered_channels(r@, count as nat, prefix@),
{
    let mut chs: Vec<Channel> = Vec::new();
    let mut i: usize = 0;
    while i < count
        invariant
            i <= count,
            numbered_channels(chs@, i as nat, prefix@),
        decreases count - i,
    {
        let id = (i as u64) + 1;
        let mut factory_name = String::new();
        if id < 10 {
            push_char(&mut factory_name, '0');
        }
        push_decimal(&mut factory_name, id);
        let mut friendly_name = prefix.to_owned();
        push_decimal(&mut friendly_name, id);
        assert(factory_name@ =~= decimal_2(id as nat));
        chs.push(Channel { factory_name, friendly_name });
        i = i + 1;
    }
    chs
}

/// The settings of the settings map after merging the environment: keys
/// upper-cased, then `INFERNO_<KEY>` variables for keys not yet set.
pub open spec fn effective_entries(config: Seq<EntryView>, env: Seq<EntryView>) -> Seq<EntryView> {
    merge_env(upper_keys(config), env)
}

/// A boolean setting, or `default` when missing or neither `true` nor `false`.
pub open spec fn setting_bool(cfg: Seq<EntryView>, key: Seq<char>, default: bool) -> bool {
    match lookup(cfg, key) {
        Some(s) => match bool_text_value(s) {
            Some(b) => b,
            None => default,
        },
        None => default,
    }
}

/// The text of an optional string.
pub open spec fn opt_text(s: Option<String>) -> Option<Seq<char>> {
    match s {
        Some(x) => Some(x@),
        None => None,
    }
}

/// Everything a node needs to know to start.
pub struct Settings {
    pub self_info: DeviceInfo,
    pub tx_latency_ns: u32,
    pub clock_path: Option<String>,
    pub use_safe_clock: bool,
    /// Frames per packet override: `None` negotiates, `Some(n)` forces `n`.
    pub fpp_override: Option<u32>,
    /// Ring buffer size in samples per channel (a power of two).
    pub rx_buffer_samples: usize,
    /// Latency reference in samples.
    pub latency_ref_samples: usize,
}

impl Settings {
    /// The settings map that `new` works from.
    pub fn effective_config(config: &ConfigMap, host: &HostContext) -> (m: ConfigMap)
        ensures
            m.entries_view() == effective_entries(config.entries_view(), pairs_view(host.env_vars@)),
    {
        let mut m = config.with_upper_keys();
        m.merge_env_vars(&host.env_vars);
        m
    }

    /// Whether `new` can build settings from these inputs: room for the ports
    /// after an alternate base.
    pub fn buildable(config: &ConfigMap, host: &HostContext) -> (r: bool)
        ensures
            r == !self_info_unbuildable(effective_entries(config.entries_view(), pairs_view(host.env_vars@))),
    {
        let cfg = Settings::effective_config(config, host);
        let alt_ok = match cfg.get("ALT_PORT") {
            Some(alt) => match parse_u16(alt.as_str()) {
                Some(p) => p <= u16::MAX - 3,
                None => true,
            },
            None => true,
        };
        alt_ok
    }

    /// Settings for an application from its settings map (keys in any case),
    /// completed by `INFERNO_*` environment variables, and from the host.
    pub fn new(
        app_name: &str,
        short_app_name: &str,
        my_ip: Option<[u8; 4]>,
        config: &ConfigMap,
        host: &HostContext,
    ) -> (r: Settings)
        requires
            !self_info_unbuildable(effective_entries(config.entries_view(), pairs_view(host.env_vars@))),
        ensures
            ({
                let cfg = effective_entries(config.entries_view(), pairs_view(host.env_vars@));
                &&& self_info_matches(
                    r.self_info,
                    app_name@,
                    short_app_name@,
                    opt_addr(my_ip),
                    cfg,
                    host.interfaces@,
                    host.local_ip,
                    lookup(pairs_view(host.env_vars@), "DANTE_MODEL_NUMBER"@),
                )
                &&& r.use_safe_clock == setting_bool(cfg, "USE_SAFE_CLOCK"@, DEFAULT_USE_SAFE_CLOCK)
                &&& r.tx_latency_ns == setting_number(
                    cfg,
                    "TX_LATENCY_NS"@,
                    u32::MAX as nat,
                    DEFAULT_TX_LATENCY_NS as nat,
                )
                &&& opt_text(r.clock_path) == lookup(cfg, "CLOCK_PATH"@)
                &&& r.fpp_override is None
                &&& r.rx_buffer_samples == DEFAULT_RX_BUFFER_SAMPLES
                &&& r.latency_ref_samples == DEFAULT_LATENCY_REF_SAMPLES
                &&& numbered_channels(
                    r.self_info.rx_channels@,
                    setting_number(cfg, "RX_CHANNELS"@, u16::MAX as nat, 2),
                    "RX "@,
                )
                &&& numbered_channels(
                    r.self_info.tx_channels@,
                    setting_number(cfg, "TX_CHANNELS"@, u16::MAX as nat, 2),
                    "TX "@,
                )
            }),
    {
        let cfg = Settings::effective_config(config, host);
        let self_info = create_self_info(app_name, short_app_name, my_ip, &cfg, host);
        let use_safe_clock = match cfg.get("USE_SAFE_CLOCK") {
            Some(s) => match parse_bool(s.as_str()) {
                Some(b) => b,
                None => DEFAULT_USE_SAFE_CLOCK,
            },
            None => DEFAULT_USE_SAFE_CLOCK,
        };
        let tx_latency_ns = setting_u32(&cfg, "TX_LATENCY_NS", DEFAULT_TX_LATENCY_NS);
        let clock_path = match cfg.get("CLOCK_PATH") {
            Some(p) => Some(p.clone()),
            None => None,
        };
        let mut result = Settings {
            self_info,
            tx_latency_ns,
            clock_path,
            use_safe_clock,
            fpp_override: None,
            rx_buffer_samples: DEFAULT_RX_BUFFER_SAMPLES,
            latency_ref_samples: DEFAULT_LATENCY_REF_SAMPLES,
        };
        let rx_count = setting_u16(&cfg, "RX_CHANNELS", 2);
        result.make_rx_channels(rx_count as usize);
        let tx_count = setting_u16(&cfg, "TX_CHANNELS", 2);
        result.make_tx_channels(tx_count as usize);
        result
    }

    /// Replace the receive channels by channels `1..=count` called `RX <n>`.
    pub fn make_rx_channels(&mut self, count: usize)
        ensures
            numbered_channels(final(self).self_info.rx_channels@, count as nat, "RX "@),
            (*final(self) == Settings {
                self_info: DeviceInfo { rx_channels: final(self).self_info.rx_channels, ..old(self).self_info },
                ..*old(self)
            }),
    {
        self.self_info.rx_channels = make_channels(count, "RX ");
    }

    /// Replace the transmit channels by channels `1..=count` called `TX <n>`.
    pub fn make_tx_channels(&mut self, count: usize)
        ensures
            numbered_channels(final(self).self_info.tx_channels@, count as nat, "TX "@),
            (*final(self) == Settings {
                self_info: DeviceInfo { tx_channels: final(self).self_info.tx_channels, ..old(self).self_info },
                ..*old(self)
            }),
    {
        self.self_info.tx_channels = make_channels(count, "TX ");
    }
}


// ---------------------------------------------------------------------------
// Hostname lengths
// ---------------------------------------------------------------------------

proof fn lemma_encode_concat(a: Seq<char>, b: Seq<char>)
    ensures
        encode_utf8(a + b) == encode_utf8(a) + encode_utf8(b),
    decreases a.len(),
{
    if a.len() == 0 {
        assert(a + b =~= b);
        assert(encode_utf8(a) =~= Seq::<u8>::empty());
        assert(encode_utf8(a + b) =~= encode_utf8(a) + encode_utf8(b));
    } else {
        lemma_encode_concat(a.drop_first(), b);
        assert((a + b).drop_first() =~= a.drop_first() + b);
        assert((a + b)[0] == a[0]);
        assert(encode_utf8(a + b) =~= encode_utf8(a) + encode_utf8(b));
    }
}

proof fn lemma_cut_point(b: Seq<u8>, n: nat)
    requires
        vstd::utf8::valid_utf8(b),
    ensures
        cut_point(b, n) <= n,
        vstd::utf8::is_char_boundary(b, cut_point(b, n) as int),
    decreases n,
{
    if n > 0 && !vstd::utf8::is_char_boundary(b, n as int) {
        lemma_cut_point(b, (n - 1) as nat);
    }
}

proof fn lemma_truncated_fits(s: Seq<char>, n: nat)
    ensures
        encode_utf8(truncated(s, n)).len() <= n,
{
    let b = encode_utf8(s);
    if b.len() > n {
        vstd::utf8::encode_utf8_valid_utf8(s);
        lemma_cut_point(b, n);
        let k = cut_point(b, n) as int;
        vstd::utf8::valid_utf8_split(b, k);
        assert(b.take(k) =~= b.subrange(0, k));
        vstd::utf8::decode_utf8_encode_utf8(b.take(k));
    }
}

proof fn lemma_ascii_suffix_len(sep: char, bytes: Seq<u8>)
    requires
        '\0' <= sep <= '\u{7f}',
    ensures
        encode_utf8(seq![sep] + hex_text(bytes)).len() == 1 + 2 * bytes.len(),
{
    crate::text::lemma_hex_text_ascii(bytes);
    let t = seq![sep] + hex_text(bytes);
    assert forall|i: int| 0 <= i < t.len() implies '\0' <= #[trigger] t[i] <= '\u{7f}' by {
        if i > 0 {
            assert(t[i] == hex_text(bytes)[i - 1]);
        }
    }
    vstd::utf8::is_ascii_chars_encode_utf8(t);
}

proof fn lemma_chosen_ip_len(my_ip: Option<[u8; 4]>, cfg: Seq<EntryView>, ifaces: Seq<NetInterface>, local: LocalIp)
    ensures
        chosen_ip(opt_addr(my_ip), cfg, ifaces, local).len() == 4,
{
    match lookup(cfg, "BIND_IP"@) {
        Some(s) => crate::text::lemma_octets_len(s, 4),
        None => {},
    }
}

/// The hostnames built for a device always fit Dante's 31-byte limit: the
/// device information passes `validate_hostnames`.
pub proof fn lemma_hostnames_fit(
    info: DeviceInfo,
    app_name: Seq<char>,
    short_app_name: Seq<char>,
    my_ip: Option<[u8; 4]>,
    cfg: Seq<EntryView>,
    ifaces: Seq<NetInterface>,
    local: LocalIp,
    model: Option<Seq<char>>,
)
    requires
        self_info_matches(info, app_name, short_app_name, opt_addr(my_ip), cfg, ifaces, local, model),
    ensures
        encode_utf8(info.friendly_hostname@).len() <= crate::device_info::HOSTNAME_MAX_LEN,
        encode_utf8(info.factory_hostname@).len() <= crate::device_info::HOSTNAME_MAX_LEN,
{
    let ip = chosen_ip(opt_addr(my_ip), cfg, ifaces, local);
    let pid = setting_number(cfg, "PROCESS_ID"@, u16::MAX as nat, DEFAULT_PROCESS_ID as nat);
    let id = device_id_value(cfg, ip, pid);
    lemma_chosen_ip_len(my_ip, cfg, ifaces, local);
    match lookup(cfg, "NAME"@) {
        Some(s) => lemma_truncated_fits(s, 31),
        None => {
            let head = truncated(app_name, 22);
            lemma_truncated_fits(app_name, 22);
            lemma_ascii_suffix_len(' ', ip);
            lemma_encode_concat(head, seq![' '] + hex_text(ip));
            assert(head + (seq![' '] + hex_text(ip)) =~= head + seq![' '] + hex_text(ip));
        },
    }
    assert(id.len() == 8);
    let head = truncated(short_app_name, 14);
    lemma_truncated_fits(short_app_name, 14);
    lemma_ascii_suffix_len('-', id);
    lemma_encode_concat(head, seq!['-'] + hex_text(id));
    assert(head + (seq!['-'] + hex_text(id)) =~= head + seq!['-'] + hex_text(id));
}

/// The `DEVICE_ID` setting is sixteen hexadecimal digits, which give the
/// factory device id as they are.
pub open spec fn device_id_given(cfg: Seq<EntryView>) -> bool {
    match lookup(cfg, "DEVICE_ID"@) {
        Some(t) => encode_utf8(t).len() == 16 && hex_valid_prefix(encode_utf8(t), 8) == 8,
        None => false,
    }
}

/// Without a usable `DEVICE_ID` setting, the factory device id is made from the
/// device itself: bytes 2..6 are its address and bytes 6..8 its process id,
/// most significant byte first (bytes 0..2 are zero when no `DEVICE_ID` is set
/// at all).
pub proof fn lemma_factory_id_layout(
    info: DeviceInfo,
    app_name: Seq<char>,
    short_app_name: Seq<char>,
    my_ip: Option<[u8; 4]>,
    cfg: Seq<EntryView>,
    ifaces: Seq<NetInterface>,
    local: LocalIp,
    model: Option<Seq<char>>,
)
    requires
        self_info_matches(info, app_name, short_app_name, opt_addr(my_ip), cfg, ifaces, local, model),
        !device_id_given(cfg),
    ensures
        forall|k: int| 0 <= k < 4 ==> info.factory_device_id@[2 + k] == #[trigger] info.ip_address@[k],
        (info.factory_device_id@[6] as nat) * 256 + (info.factory_device_id@[7] as nat) == info.process_id as nat,
        lookup(cfg, "DEVICE_ID"@) is None ==> info.factory_device_id@[0] == 0 && info.factory_device_id@[1] == 0,
{
    let ip = chosen_ip(opt_addr(my_ip), cfg, ifaces, local);
    let pid = setting_number(cfg, "PROCESS_ID"@, u16::MAX as nat, DEFAULT_PROCESS_ID as nat);
    lemma_chosen_ip_len(my_ip, cfg, ifaces, local);
    assert(pid <= u16::MAX);
    assert(((pid / 256) as u8) as nat == pid / 256);
    assert(((pid % 256) as u8) as nat == pid % 256);
    assert((pid / 256) * 256 + pid % 256 == pid);
}

} // verus!
