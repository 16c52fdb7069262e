//! Verified core of an AES67/Dante-compatible audio-over-IP node: byte and
//! packet encodings, clock arithmetic, configuration handling and metering.

pub mod bytes;
pub mod common;
pub mod text;
pub mod config_map;
pub mod device_info;
pub mod settings;
pub mod mcast;
pub mod ptp;
pub mod usrvclock;
pub mod metering;
pub mod metrics;
pub mod config;
pub mod state_storage;
pub mod net;
pub mod proto_cmc;
pub mod pcm;
pub mod shm;
pub mod firewall;
pub mod status;
pub mod wizard;
pub mod settings_form;
pub mod ipc;
pub mod audio_device;
