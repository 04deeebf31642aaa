use soliloquy_drivers::wlan_softmac::{
    BssType, CipherSuiteType, DataPlaneType, KeyProtection, KeyType, WlanBssConfig, WlanChannel,
    WlanKeyConfig, WlanMacRole, WlanRxInfo, WlanRxPacket, WlanSoftmacBridge, WlanSoftmacPassiveScanArgs,
    WlanTxInfo, WlanTxPacket,
};
use std::cell::Cell;
use std::rc::Rc;

type Bridge = WlanSoftmacBridge<Box<dyn Fn(WlanRxPacket)>>;

#[test]
fn test_create_softmac_bridge() {
    let mac = [0x00, 0x11, 0x22, 0x33, 0x44, 0x55];
    let bridge: Bridge = WlanSoftmacBridge::new(mac);

    let info = bridge.query().unwrap();
    assert_eq!(info.sta_addr, mac);
    assert_eq!(info.mac_role, WlanMacRole::Client);
}

#[test]
fn test_start_stop() {
    let mac = [0x00, 0x11, 0x22, 0x33, 0x44, 0x55];
    let mut bridge = WlanSoftmacBridge::new(mac);

    assert!(!bridge.is_started());

    let channel = bridge.start(Box::new(|_| {})).unwrap();
    assert!(bridge.is_started());
    assert_eq!(channel.primary, 1);

    bridge.stop().unwrap();
    assert!(!bridge.is_started());
}

#[test]
fn test_set_channel() {
    let mac = [0x00, 0x11, 0x22, 0x33, 0x44, 0x55];
    let mut bridge = WlanSoftmacBridge::new(mac);

    bridge.start(Box::new(|_| {})).unwrap();

    let channel = WlanChannel::new(6);
    bridge.set_channel(channel).unwrap();
    assert_eq!(bridge.get_channel().unwrap().primary, 6);

    let invalid = WlanChannel::new(50);
    assert!(bridge.set_channel(invalid).is_err());
}

#[test]
fn test_join_leave_bss() {
    let mac = [0x00, 0x11, 0x22, 0x33, 0x44, 0x55];
    let mut bridge = WlanSoftmacBridge::new(mac);

    bridge.start(Box::new(|_| {})).unwrap();

    let bss = WlanBssConfig {
        bssid: [0xaa, 0xbb, 0xcc, 0xdd, 0xee, 0xff],
        bss_type: BssType::Infrastructure,
        remote: false,
    };

    bridge.join_bss(bss).unwrap();
    bridge.leave_bss().unwrap();
}

#[test]
fn test_install_key() {
    let mac = [0x00, 0x11, 0x22, 0x33, 0x44, 0x55];
    let mut bridge = WlanSoftmacBridge::new(mac);

    bridge.start(Box::new(|_| {})).unwrap();

    let key = WlanKeyConfig {
        protection: KeyProtection::RxTx,
        cipher_type: CipherSuiteType::Ccmp128,
        key_type: KeyType::Pairwise,
        peer_addr: [0xaa, 0xbb, 0xcc, 0xdd, 0xee, 0xff],
        key_idx: 0,
        key: vec![0; 16],
        rsc: 0,
    };

    bridge.install_key(key).unwrap();
}

#[test]
fn stopped_bridge_refuses_session_calls() {
    let mut bridge: Bridge = WlanSoftmacBridge::new([0; 6]);
    assert_eq!(bridge.stop(), Err(-20));
    assert_eq!(bridge.set_channel(WlanChannel::new(1)), Err(-20));
    assert_eq!(bridge.leave_bss(), Err(-20));
    assert_eq!(bridge.cancel_scan(1), Err(-20));
    let args = WlanSoftmacPassiveScanArgs {
        channels: vec![1],
        min_channel_time_ms: 1,
        max_channel_time_ms: 2,
        min_home_time_ms: 3,
    };
    assert_eq!(bridge.start_passive_scan(args.clone()), Err(-20));
    bridge.start(Box::new(|_| {})).unwrap();
    assert_eq!(bridge.start(Box::new(|_| {})), Err(-20));
    assert_eq!(bridge.start_passive_scan(args), Ok(1));
    let packet = WlanTxPacket { data: vec![1], info: WlanTxInfo::default() };
    assert!(bridge.queue_tx(packet.clone()).is_ok());
    assert_eq!(bridge.enable_beaconing(packet), Err(-25));
    assert!(bridge.disable_beaconing().is_ok());
}

#[test]
fn channel_bounds_and_sublayer_support() {
    let mut bridge = WlanSoftmacBridge::new([1; 6]);
    bridge.start(Box::new(|_| {})).unwrap();
    assert!(bridge.set_channel(WlanChannel::new(13)).is_ok());
    assert_eq!(bridge.set_channel(WlanChannel::new(14)), Err(-10));
    assert_eq!(bridge.set_channel(WlanChannel::new(0)), Err(-10));
    assert_eq!(bridge.get_channel().unwrap().primary, 13);
    let support = bridge.query_mac_sublayer_support();
    assert!(!support.rate_selection_offload.supported);
    assert_eq!(support.data_plane.data_plane_type, DataPlaneType::Ethernet);
    assert!(support.device.tx_status_report_supported);
    let info = bridge.query().unwrap();
    assert_eq!(info.band_caps[0].operating_channels, (1..=13).collect::<Vec<u8>>());
}

#[test]
fn received_frames_reach_the_callback() {
    let seen = Rc::new(Cell::new(0usize));
    let counter = seen.clone();
    let mut bridge = WlanSoftmacBridge::new([2; 6]);
    bridge.start(move |p: WlanRxPacket| counter.set(counter.get() + p.data.len())).unwrap();
    bridge.notify_rx(WlanRxPacket { data: vec![1, 2, 3], info: WlanRxInfo::default() });
    assert_eq!(seen.get(), 3);
    assert_eq!(WlanRxInfo::default().rssi_dbm, -50);
}
