use vstd::prelude::*;

verus! {

/// One audio channel of the device.
#[derive(Clone)]
pub struct Channel {
    pub factory_name: String,
    pub friendly_name: String,
}

/// The factory identity of a device.
pub type DeviceId = [u8; 8];

/// The identity, network attachment and audio parameters that the device
/// announces.
pub struct DeviceInfo {
    pub ip_address: [u8; 4],
    pub netmask: [u8; 4],
    pub gateway: [u8; 4],
    pub mac_address: [u8; 6],
    pub link_speed: u16,
    pub board_name: String,
    pub manufacturer: String,
    pub model_name: String,
    pub model_number: String,
    pub factory_device_id: DeviceId,
    pub process_id: u16,
    pub vendor_string: String,
    /// At most 31 bytes (the Dante limit).
    pub friendly_hostname: String,
    /// At most 31 bytes (the Dante limit).
    pub factory_hostname: String,
    pub rx_channels: Vec<Channel>,
    pub tx_channels: Vec<Channel>,
    pub bits_per_sample: u8,
    /// Usually 0xe; 4 in older devices.
    pub pcm_type: u8,
    pub latency_ns: usize,
    pub tx_latency_ns: u32,
    pub sample_rate: u32,
    pub arc_port: u16,
    pub cmc_port: u16,
    pub flows_control_port: u16,
    pub info_request_port: u16,
}

/// The largest hostname, in bytes, that Dante accepts.
pub const HOSTNAME_MAX_LEN: usize = 31;

impl DeviceInfo {
    /// The receive latency in samples at the device's sample rate (rounded down).
    pub fn latency_samples(&self) -> (r: usize)
        requires
            self.latency_ns * self.sample_rate <= usize::MAX,
        ensures
            r == (self.latency_ns * self.sample_rate) / 1_000_000_000,
    {
        self.latency_ns * (self.sample_rate as usize) / 1_000_000_000
    }

    /// Both hostnames fit Dante's 31-byte limit; the device must not be used
    /// otherwise (a debug build stops here).
    pub fn validate_hostnames(&self)
        requires
            vstd::utf8::encode_utf8(self.friendly_hostname@).len() <= HOSTNAME_MAX_LEN,
            vstd::utf8::encode_utf8(self.factory_hostname@).len() <= HOSTNAME_MAX_LEN,
    {
    }
}

} // verus!
