use soliloquy_drivers::aic8800_mock::sdio::{MockSdioDevice, SdioError};

#[test]
fn test_initialization() {
    let mut device = MockSdioDevice::new();
    assert!(device.initialize().is_ok());
}

#[test]
fn test_block_size() {
    let mut device = MockSdioDevice::new();
    device.initialize().unwrap();

    assert!(device.set_block_size(1024).is_ok());
    assert_eq!(device.get_block_size(), 1024);
}

#[test]
fn test_byte_operations() {
    let mut device = MockSdioDevice::new();
    device.initialize().unwrap();

    assert!(device.write_byte(0x1000, 0x42).is_ok());
    assert_eq!(device.read_byte(0x1000).unwrap(), 0x42);
}

#[test]
fn test_multi_block_operations() {
    let mut device = MockSdioDevice::new();
    device.initialize().unwrap();

    let data = vec![1, 2, 3, 4, 5];
    assert!(device.write_multi_block(0x2000, &data).is_ok());

    let read_data = device.read_multi_block(0x2000, data.len()).unwrap();
    assert_eq!(read_data, data);
}

#[test]
fn test_firmware_download() {
    let mut device = MockSdioDevice::new();
    device.initialize().unwrap();
    device.set_block_size(512).unwrap();

    let firmware = vec![0xAA; 1024];
    assert!(device.download_firmware(0x00100000, &firmware).is_ok());

    assert!(device.verify_firmware_at(0x00100000, &firmware));
}

#[test]
fn test_error_conditions() {
    let mut device = MockSdioDevice::new();

    assert_eq!(device.read_byte(0x1000), Err(SdioError::NotInitialized));
    assert_eq!(device.write_byte(0x1000, 0x42), Err(SdioError::NotInitialized));

    device.initialize().unwrap();
    device.fail_next_operation();
    assert_eq!(device.read_byte(0x1000), Err(SdioError::TransferError));
}

#[test]
fn test_transaction_recording() {
    let mut device = MockSdioDevice::new();
    device.initialize().unwrap();

    device.write_byte(0x1000, 0x42).unwrap();
    device.read_byte(0x1000).unwrap();

    let transactions = device.get_transactions();
    assert_eq!(transactions.len(), 2);
    assert!(transactions[0].is_write);
    assert!(!transactions[1].is_write);
}

#[test]
fn set_block_size_requires_initialization() {
    let mut device = MockSdioDevice::new();
    assert_eq!(device.set_block_size(64), Err(SdioError::NotInitialized));
    assert_eq!(device.get_block_size(), 512);
}

#[test]
fn multi_block_wraps_at_top_of_address_space() {
    let mut device = MockSdioDevice::new();
    device.initialize().unwrap();
    device.write_multi_block(0xFFFF_FFFE, &[1, 2, 3, 4]).unwrap();
    assert_eq!(device.read_byte(0xFFFF_FFFF).unwrap(), 2);
    assert_eq!(device.read_byte(0).unwrap(), 3);
    assert_eq!(device.read_multi_block(0xFFFF_FFFE, 4).unwrap(), vec![1, 2, 3, 4]);
}

#[test]
fn download_splits_into_blocks_and_refuses_zero_block_size() {
    let mut device = MockSdioDevice::new();
    device.initialize().unwrap();
    device.set_block_size(4).unwrap();
    let image: Vec<u8> = (0..10).collect();
    device.download_firmware(0x100, &image).unwrap();
    let t = device.get_transactions();
    assert_eq!(t.len(), 3);
    assert_eq!((t[0].address, t[1].address, t[2].address), (0x100, 0x104, 0x108));
    assert_eq!(t[2].data, vec![8, 9]);
    assert!(device.verify_firmware_at(0x100, &image));
    assert!(!device.verify_firmware_at(0x101, &image));
    device.set_block_size(0).unwrap();
    assert_eq!(device.download_firmware(0x100, &image), Err(SdioError::InvalidLength));
}

#[test]
fn injected_failure_stops_download_and_clears() {
    let mut device = MockSdioDevice::new();
    device.initialize().unwrap();
    device.fail_next_operation();
    assert_eq!(device.download_firmware(0, &[1, 2, 3]), Err(SdioError::TransferError));
    assert!(device.get_memory_snapshot().is_empty());
    assert!(device.download_firmware(0, &[1, 2, 3]).is_ok());
    assert_eq!(device.get_memory_snapshot().len(), 3);
    device.clear_memory();
    assert_eq!(device.read_byte(1).unwrap(), 0);
    device.clear_transactions();
    assert!(device.get_transactions().is_empty());
}
