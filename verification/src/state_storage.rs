use vstd::prelude::*;
use crate::text::{hex_encode, hex_text};

verus! {

/// Extension of the files that hold saved state.
pub const PATH_SUFFIX: &'static str = ".toml";

/// Saved state of one TX flow.
pub struct SavedTxFlow {
    pub flow_id: u32,
    pub channel_indices: Vec<Option<usize>>,
    pub multicast_addr: Option<String>,
    pub multicast_port: u16,
}

impl Default for SavedTxFlow {
    fn default() -> (f: SavedTxFlow)
        ensures
            f.flow_id == 0,
            f.channel_indices@.len() == 0,
            f.multicast_addr is None,
            f.multicast_port == 0,
    {
        SavedTxFlow { flow_id: 0, channel_indices: Vec::new(), multicast_addr: None, multicast_port: 0 }
    }
}

/// Saved state of all TX flows.
pub struct SavedTxFlows {
    pub flows: Vec<SavedTxFlow>,
}

impl Default for SavedTxFlows {
    fn default() -> (f: SavedTxFlows)
        ensures
            f.flows@.len() == 0,
    {
        SavedTxFlows { flows: Vec::new() }
    }
}

/// The state directory of a device: the base directory, a separator and the
/// device id in hexadecimal.
pub open spec fn device_state_dir(base: Seq<char>, separator: Seq<char>, device_id: Seq<u8>) -> Seq<char> {
    base + separator + hex_text(device_id)
}

/// Where state files of one device live.
pub struct StateStorage {
    path_prefix: String,
}

impl StateStorage {
    /// The directory names are prefixed with.
    pub closed spec fn prefix(&self) -> Seq<char> {
        self.path_prefix@
    }

    /// The state directory of the device with id `device_id` under `base`.
    pub fn device_dir(base: &str, separator: &str, device_id: &[u8; 8]) -> (dir: String)
        ensures
            dir@ == device_state_dir(base@, separator@, device_id@),
    {
        let mut dir = base.to_owned();
        dir.append(separator);
        let hex = hex_encode(device_id.as_slice());
        dir.append(hex.as_str());
        assert(dir@ =~= device_state_dir(base@, separator@, device_id@));
        dir
    }

    /// Storage whose files are in directory `dir`.
    pub fn in_dir(dir: &str, separator: &str) -> (s: StateStorage)
        ensures
            s.prefix() == dir@ + separator@,
    {
        let mut path_prefix = dir.to_owned();
        path_prefix.append(separator);
        StateStorage { path_prefix }
    }

    /// The file that holds the state called `name`.
    pub fn full_path(&self, name: &str) -> (p: String)
        ensures
            p@ == self.prefix() + name@ + PATH_SUFFIX@,
    {
        let mut p = self.path_prefix.clone();
        p.append(name);
        p.append(PATH_SUFFIX);
        p
    }
}

} // verus!
