use soliloquy_drivers::aic8800::regs;
use soliloquy_drivers::aic8800::{
    firmware_name, flow_ctrl_backoff_us, frame_data_packet, patch_table_8800d80, Aic8800Driver, Channel,
    FirmwareLoader, PowerState, RxBuffer, RxPacket, SdioInterface, SdioType, TxPacket, TxQueue, WifiBand,
    ZxStatus, CHIP_ID_AIC8800D80, ZX_ERR_BAD_STATE, ZX_ERR_NOT_SUPPORTED, ZX_ERR_NO_MEMORY,
};
use std::cell::RefCell;
use std::collections::HashMap;

struct MockSdio {
    registers: HashMap<u8, u8>,
    writes: RefCell<Vec<(u8, u8)>>,
}

impl MockSdio {
    fn new() -> Self {
        let mut registers = HashMap::new();
        registers.insert(0, 0x80);
        registers.insert(1, 0x00);
        registers.insert(2, 0x00);
        registers.insert(3, 0x88);
        registers.insert(8, 0x02);
        registers.insert(regs::FLOW_CTRL, 0x10);
        Self { registers, writes: RefCell::new(Vec::new()) }
    }
}

impl SdioInterface for MockSdio {
    fn read_byte(&self, addr: u8) -> Result<u8, ZxStatus> {
        Ok(*self.registers.get(&addr).unwrap_or(&0))
    }

    fn write_byte(&self, addr: u8, value: u8) -> Result<(), ZxStatus> {
        self.writes.borrow_mut().push((addr, value));
        Ok(())
    }

    fn read_multi(&self, _addr: u32, buf: &mut [u8]) -> Result<(), ZxStatus> {
        buf.fill(0);
        Ok(())
    }

    fn write_multi(&self, _addr: u32, _buf: &[u8]) -> Result<(), ZxStatus> {
        Ok(())
    }

    fn enable_interrupt(&self) -> Result<(), ZxStatus> {
        Ok(())
    }

    fn disable_interrupt(&self) -> Result<(), ZxStatus> {
        Ok(())
    }
}

#[test]
fn test_chip_id_detection() {
    let sdio = MockSdio::new();
    let driver = Aic8800Driver::new(sdio);
    let chip_id = driver.read_chip_id().unwrap();
    assert_eq!(chip_id, CHIP_ID_AIC8800D80);
}

#[test]
fn test_tx_queue() {
    let mut queue = TxQueue::new(10);

    let packet = TxPacket { data: vec![1, 2, 3], priority: 0 };

    queue.enqueue(packet.clone()).unwrap();
    assert_eq!(queue.len(), 1);

    assert!(queue.dequeue().is_none());

    queue.set_credits(5);
    let dequeued = queue.dequeue().unwrap();
    assert_eq!(dequeued.data, vec![1, 2, 3]);
}

#[test]
fn test_capabilities() {
    let sdio = MockSdio::new();
    let driver = Aic8800Driver::new(sdio);

    let caps = driver.get_capabilities();
    assert!(caps.ht_supported);
    assert!(!caps.vht_supported);
    assert_eq!(caps.supported_channels.len(), 13);
}

#[test]
fn tx_queue_refuses_when_full_and_spends_credits() {
    let mut queue = TxQueue::new(2);
    assert!(queue.is_empty());
    queue.enqueue(TxPacket { data: vec![1], priority: 0 }).unwrap();
    queue.enqueue(TxPacket { data: vec![2], priority: 0 }).unwrap();
    assert_eq!(queue.enqueue(TxPacket { data: vec![3], priority: 0 }), Err(ZX_ERR_NO_MEMORY));
    queue.set_credits(1);
    assert_eq!(queue.dequeue().unwrap().data, vec![1]);
    assert!(queue.dequeue().is_none());
    assert_eq!(queue.len(), 1);
}

#[test]
fn rx_buffer_drops_oldest_when_full() {
    let mut rx = RxBuffer::new(2);
    for i in 0..3u8 {
        rx.push(RxPacket { data: vec![i], rssi: 0, channel: 1 });
    }
    assert_eq!(rx.len(), 2);
    assert_eq!(rx.pop().unwrap().data, vec![1]);
    assert_eq!(rx.pop().unwrap().data, vec![2]);
    assert!(rx.pop().is_none());
}

#[test]
fn checksum_sums_little_endian_words() {
    let data = [1u8, 0, 0, 0, 2, 0, 0, 0, 3];
    assert!(FirmwareLoader::verify_checksum(&data, 6));
    assert!(!FirmwareLoader::verify_checksum(&data, 5));
    assert!(FirmwareLoader::verify_checksum(&[0xFF, 0xFF, 0xFF, 0xFF, 2], 1));
    assert!(FirmwareLoader::verify_checksum(&[], 0));
    assert_eq!(FirmwareLoader::load_firmware("fmacfw.bin"), Err(ZX_ERR_NOT_SUPPORTED));
}

#[test]
fn data_frames_are_block_aligned() {
    let frame = frame_data_packet(&[9, 8, 7]);
    assert_eq!(frame.len(), 512);
    assert_eq!(&frame[..7], &[0x00, 0x00, 3, 0, 9, 8, 7]);
    assert!(frame[7..].iter().all(|&b| b == 0));
    let big = vec![1u8; 600];
    let frame = frame_data_packet(&big);
    assert_eq!(frame.len(), 1024);
    assert_eq!(&frame[..4], &[0x00, 0x00, 0x58, 0x02]);
    assert_eq!(frame_data_packet(&[0u8; 508]).len(), 512);
}

#[test]
fn init_stops_at_missing_firmware_after_reset() {
    let mut driver = Aic8800Driver::new(MockSdio::new());
    assert_eq!(driver.init(), Err(ZX_ERR_NOT_SUPPORTED));
    assert!(!driver.is_initialized());
    assert_eq!(driver.get_chip_id(), CHIP_ID_AIC8800D80);
    assert_eq!(firmware_name(CHIP_ID_AIC8800D80), "fmacfw_8800d80.bin");
}

#[test]
fn unsupported_chip_is_refused_before_reset() {
    let mut sdio = MockSdio::new();
    sdio.registers.insert(0, 0x33);
    let mut driver = Aic8800Driver::new(sdio);
    assert_eq!(driver.init(), Err(ZX_ERR_NOT_SUPPORTED));
    assert_eq!(driver.get_chip_id(), 0x88000033);
}

#[test]
fn uninitialized_driver_refuses_work() {
    let mut driver = Aic8800Driver::new(MockSdio::new());
    let ch = Channel { number: 6, frequency_mhz: 2437, max_power_dbm: 20, band: WifiBand::Band2Ghz };
    assert_eq!(driver.set_channel(&ch), Err(ZX_ERR_BAD_STATE));
    assert!(driver.get_channel().is_none());
    assert_eq!(driver.start_scan(), Err(ZX_ERR_BAD_STATE));
    assert_eq!(driver.transmit(&[1, 2, 3]), Err(ZX_ERR_BAD_STATE));
    assert_eq!(driver.set_power_state(PowerState::Active), Err(ZX_ERR_BAD_STATE));
    assert!(driver.receive().is_none());
    assert_eq!(driver.get_mac_address(), [0u8; 6]);
}

#[test]
fn interrupt_without_events_clears_status() {
    let mut sdio = MockSdio::new();
    sdio.registers.insert(0x10, 0x01);
    let mut driver = Aic8800Driver::new(sdio);
    assert!(driver.handle_interrupt().is_ok());
    assert!(driver.receive().is_none());
}

#[test]
fn channel_table_and_helpers() {
    let channels = Channel::channels_2ghz();
    assert_eq!(channels[0].frequency_mhz, 2412);
    assert_eq!(channels[12].number, 13);
    assert_eq!(channels[12].frequency_mhz, 2472);
    assert_eq!(SdioType::CfgCmdRsp.as_u8(), 0x11);
    assert_eq!(flow_ctrl_backoff_us(0), 200);
    assert_eq!(flow_ctrl_backoff_us(35), 1000);
    assert_eq!(flow_ctrl_backoff_us(45), 10000);
    let patches = patch_table_8800d80();
    assert_eq!(patches.len(), 2);
    assert_eq!(patches[1].offset, 0x0170);
}
