//! Choosing and setting up the audio device: which device to look for, the
//! message when it is missing, the sample width and rate fallbacks, the size
//! of the receive queue, and the settings the Dante server is started with.

use vstd::prelude::*;
use crate::config_map::{ConfigMap, EntryView};
use crate::text::{contains_text, decimal_string, decimal_text, str_contains};

verus! {

/// Which device to open.
#[derive(Debug, Clone)]
pub enum DeviceSearch {
    /// The system's default render device.
    Default,
    /// The first device whose name contains this text.
    ByName(String),
}

/// The name searched when audio goes to a virtual cable.
pub const VIRTUAL_CABLE_NAME: &'static str = "CABLE Input";

/// Which device to open: the one named by the filter, else the virtual cable
/// when asked for, else the default.
pub fn device_search(filter: &Option<String>, virtual_device: bool) -> (r: DeviceSearch)
    ensures
        (match filter {
            Some(f) => r matches DeviceSearch::ByName(n) && n@ == f@,
            None => if virtual_device {
                r matches DeviceSearch::ByName(n) && n@ == VIRTUAL_CABLE_NAME@
            } else {
                r is Default
            },
        }),
{
    match filter {
        Some(f) => DeviceSearch::ByName(f.clone()),
        None => if virtual_device {
            DeviceSearch::ByName(VIRTUAL_CABLE_NAME.to_owned())
        } else {
            DeviceSearch::Default
        },
    }
}

/// The index of the first device whose name could be read and contains `needle`.
pub open spec fn matching_device(names: Seq<Option<String>>, needle: Seq<char>) -> nat
    decreases names.len(),
{
    if names.len() == 0 {
        0
    } else if names[0] matches Some(n) && contains_text(n@, needle) {
        0
    } else {
        1 + matching_device(names.drop_first(), needle)
    }
}

/// The first device whose name contains `needle`; `names` holds each device's
/// name, `None` where it could not be read.
pub fn find_device(names: &Vec<Option<String>>, needle: &str) -> (r: Option<usize>)
    ensures
        (match r {
            Some(i) => i == matching_device(names@, needle@) && i < names@.len(),
            None => matching_device(names@, needle@) >= names@.len(),
        }),
{
    let mut i: usize = 0;
    assert(names@.skip(0) =~= names@);
    while i < names.len()
        invariant
            i <= names@.len(),
            matching_device(names@, needle@) == i + matching_device(names@.skip(i as int), needle@),
        decreases names@.len() - i,
    {
        assert(names@.skip(i as int)[0] == names@[i as int]);
        let hit = match &names[i] {
            Some(n) => str_contains(n.as_str(), needle),
            None => false,
        };
        if hit {
            return Some(i);
        }
        assert(names@.skip(i as int).drop_first() =~= names@.skip(i + 1));
        i = i + 1;
    }
    assert(names@.skip(i as int).len() == 0);
    None
}

/// The error when no device matched: installation advice when the virtual
/// cable was looked for on its own account, else the name searched.
pub open spec fn device_missing_text(search: Seq<char>, virtual_device: bool, filter_given: bool) -> Seq<char> {
    if virtual_device && !filter_given {
        "VB-Cable not found (looked for \"CABLE Input\").\nInstall it free from https://vb-audio.com/Cable/ then reboot.\nAfter install, run again with --virtual-device to route Dante audio\nto the \"CABLE Output\" recording device visible to all Windows apps."@
    } else {
        "No WASAPI device found matching '"@ + search + "'"@
    }
}

/// The error when no device matched.
pub fn device_missing_message(search: &str, virtual_device: bool, filter_given: bool) -> (r: String)
    ensures
        r@ == device_missing_text(search@, virtual_device, filter_given),
{
    if virtual_device && !filter_given {
        "VB-Cable not found (looked for \"CABLE Input\").\nInstall it free from https://vb-audio.com/Cable/ then reboot.\nAfter install, run again with --virtual-device to route Dante audio\nto the \"CABLE Output\" recording device visible to all Windows apps.".to_owned()
    } else {
        let mut r = "No WASAPI device found matching '".to_owned();
        r.append(search);
        r.append("'");
        r
    }
}

/// Whether the opened device is the virtual cable, so that its recording side
/// carries the audio.
pub fn routes_to_cable(virtual_device: bool, device_name: &str) -> (r: bool)
    ensures
        r == (virtual_device || contains_text(device_name@, "CABLE"@)),
{
    virtual_device || str_contains(device_name, "CABLE")
}

/// The other common rate to try when a device refuses 48 kHz or 44.1 kHz.
pub fn fallback_sample_rate(rate: u32) -> (r: Option<u32>)
    ensures
        rate == 48000 ==> r == Some(44100u32),
        rate == 44100 ==> r == Some(48000u32),
        rate != 48000 && rate != 44100 ==> r is None,
{
    if rate == 48000 {
        Some(44100)
    } else if rate == 44100 {
        Some(48000)
    } else {
        None
    }
}

/// Bytes per sample of a capture format: the frame size shared by the
/// channels, or 4 when the format names no channel.
pub fn capture_sample_width(blockalign: usize, dev_channels: usize) -> (r: usize)
    ensures
        r == (if dev_channels > 0 { blockalign / dev_channels } else { 4 }),
{
    if dev_channels > 0 { blockalign / dev_channels } else { 4 }
}

/// Samples the receive queue may hold: a quarter second of all channels.
pub fn max_queue_samples(sample_rate: u32, channels: usize) -> (r: usize)
    requires
        (sample_rate / 4) as nat * channels <= usize::MAX,
    ensures
        r == (sample_rate / 4) as nat * channels,
{
    (sample_rate / 4) as usize * channels
}

/// The settings the Dante server starts with: transmit or receive channels,
/// none the other way, the rate and the name, one entry each, and nothing
/// else, so that every other setting keeps its default or environment value.
pub open spec fn server_settings_spec(m: ConfigMap, transmit: bool, channels: nat, sample_rate: nat, name: Seq<char>) -> bool {
    &&& m.value_of("TX_CHANNELS"@) == Some(if transmit { decimal_text(channels) } else { "0"@ })
    &&& m.value_of("RX_CHANNELS"@) == Some(if transmit { "0"@ } else { decimal_text(channels) })
    &&& m.value_of("SAMPLE_RATE"@) == Some(decimal_text(sample_rate))
    &&& m.value_of("NAME"@) == Some(name)
    &&& forall|k: Seq<char>|
        k != "TX_CHANNELS"@ && k != "RX_CHANNELS"@ && k != "SAMPLE_RATE"@ && k != "NAME"@
            ==> #[trigger] m.value_of(k) is None
    &&& m.entries_view().len() == 4
}

/// The settings the Dante server starts with.
pub fn server_settings(transmit: bool, channels: usize, sample_rate: u32, name: &str) -> (m: ConfigMap)
    ensures
        server_settings_spec(m, transmit, channels as nat, sample_rate as nat, name@),
{
    let mut m = ConfigMap::new();
    let count = decimal_string(channels as u64);
    if transmit {
        m.insert("TX_CHANNELS".to_owned(), count);
        m.insert("RX_CHANNELS".to_owned(), "0".to_owned());
    } else {
        m.insert("RX_CHANNELS".to_owned(), count);
        m.insert("TX_CHANNELS".to_owned(), "0".to_owned());
    }
    m.insert("SAMPLE_RATE".to_owned(), decimal_string(sample_rate as u64));
    m.insert("NAME".to_owned(), name.to_owned());
    proof {
        reveal_strlit("TX_CHANNELS");
        reveal_strlit("RX_CHANNELS");
        reveal_strlit("SAMPLE_RATE");
        reveal_strlit("NAME");
        assert("TX_CHANNELS"@[0] == 'T');
        assert("RX_CHANNELS"@[0] == 'R');
        assert("SAMPLE_RATE"@[0] == 'S');
        assert("NAME"@[0] == 'N');
        reveal_with_fuel(crate::config_map::lookup, 5);
        let e = m.entries_view();
        assert(e.drop_last().drop_last().drop_last().drop_last().len() == 0);
        assert forall|k: Seq<char>|
            k != "TX_CHANNELS"@ && k != "RX_CHANNELS"@ && k != "SAMPLE_RATE"@ && k != "NAME"@
                implies #[trigger] m.value_of(k) is None by {
            assert(e.drop_last().drop_last().drop_last().drop_last().len() == 0);
        }
    }
    m
}

} // verus!
