use inferno_aoip::state_storage::{SavedTxFlow, SavedTxFlows, StateStorage};

#[test]
fn test_saved_tx_flow_default() {
    let flow = SavedTxFlow::default();
    assert_eq!(flow.flow_id, 0);
    assert!(flow.channel_indices.is_empty());
    assert!(flow.multicast_addr.is_none());
    assert_eq!(flow.multicast_port, 0);
}

#[test]
fn test_saved_tx_flows_default() {
    let flows = SavedTxFlows::default();
    assert!(flows.flows.is_empty());
}

#[test]
fn state_paths() {
    let dir = StateStorage::device_dir("/var/state", "/", &[0x00, 0x1d, 0xc1, 0xff, 0xfe, 0x12, 0x34, 0x56]);
    assert_eq!(dir, "/var/state/001dc1fffe123456");
    let storage = StateStorage::in_dir(&dir, "/");
    assert_eq!(storage.full_path("tx_flows"), "/var/state/001dc1fffe123456/tx_flows.toml");
    assert_eq!(storage.full_path("tmp.tx_flows"), "/var/state/001dc1fffe123456/tmp.tx_flows.toml");
}
