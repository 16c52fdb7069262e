use vstd::prelude::*;
use crate::device_info::DeviceId;

verus! {

/// Port of the conmon control protocol.
pub const PORT: u16 = 8800;

/// Request code for a device advertisement.
pub const REQUEST_DEVICE_ADVERTISEMENT: u16 = 0x1001;

/// A device advertisement as carried by the conmon control protocol.
#[derive(Debug)]
pub struct DeviceAdvertisement {
    pub process_id: u16,
    pub factory_device_id: DeviceId,
    pub unknown1_1: u16,
    pub unknown2_0: u16,
    pub ip_address: [u8; 4],
    pub info_request_port: u16,
    pub unknown3_0: u16,
}

impl Default for DeviceAdvertisement {
    fn default() -> (a: DeviceAdvertisement)
        ensures
            a.process_id == 0,
            a.factory_device_id@ == Seq::new(8, |i: int| 0u8),
            a.unknown1_1 == 0,
            a.unknown2_0 == 0,
            a.ip_address@ == Seq::new(4, |i: int| 0u8),
            a.info_request_port == 0,
            a.unknown3_0 == 0,
    {
        let a = DeviceAdvertisement {
            process_id: 0,
            factory_device_id: [0u8; 8],
            unknown1_1: 0,
            unknown2_0: 0,
            ip_address: [0u8; 4],
            info_request_port: 0,
            unknown3_0: 0,
        };
        assert(a.factory_device_id@ =~= Seq::new(8, |i: int| 0u8));
        assert(a.ip_address@ =~= Seq::new(4, |i: int| 0u8));
        a
    }
}

} // verus!
