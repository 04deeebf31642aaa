use soliloquy_drivers::aic8800_mock::firmware::{FirmwareError, MockFirmwareLoader};

#[test]
fn test_add_and_load_firmware() {
    let mut loader = MockFirmwareLoader::new();
    let data = vec![1, 2, 3, 4, 5];

    loader.add_firmware("test.bin", data.clone());
    let loaded = loader.load_firmware("test.bin").unwrap();

    assert_eq!(loaded, data);
    assert_eq!(loader.get_load_count("test.bin"), 1);
}

#[test]
fn test_firmware_not_found() {
    let mut loader = MockFirmwareLoader::new();

    assert_eq!(loader.load_firmware("nonexistent.bin"), Err(FirmwareError::NotFound));
}

#[test]
fn test_load_count() {
    let mut loader = MockFirmwareLoader::new();
    let data = vec![1, 2, 3];

    loader.add_firmware("test.bin", data);

    loader.load_firmware("test.bin").unwrap();
    loader.load_firmware("test.bin").unwrap();
    loader.load_firmware("test.bin").unwrap();

    assert_eq!(loader.get_load_count("test.bin"), 3);
}

#[test]
fn test_create_test_firmware() {
    let firmware = MockFirmwareLoader::create_test_firmware(1024, 0xAA);

    assert_eq!(firmware.len(), 1024);
    assert!(firmware.iter().all(|&b| b == 0xAA));
}

#[test]
fn test_create_aic8800_firmware() {
    let firmware = MockFirmwareLoader::create_aic8800_firmware();

    assert!(firmware.len() > 0);
    assert_eq!(&firmware[0..7], b"AIC8800");
}

#[test]
fn test_clear() {
    let mut loader = MockFirmwareLoader::new();

    loader.add_firmware("test1.bin", vec![1, 2, 3]);
    loader.add_firmware("test2.bin", vec![4, 5, 6]);
    loader.load_firmware("test1.bin").unwrap();

    loader.clear();

    assert_eq!(loader.load_firmware("test1.bin"), Err(FirmwareError::NotFound));
    assert_eq!(loader.get_load_count("test1.bin"), 0);
}

#[test]
fn aic8800_image_layout() {
    let fw = MockFirmwareLoader::create_aic8800_firmware();
    assert_eq!(fw.len(), 4160);
    assert_eq!(fw[7], 1);
    assert_eq!(&fw[8..12], &64u32.to_le_bytes());
    assert_eq!(&fw[12..16], &4096u32.to_le_bytes());
    assert_eq!(&fw[16..20], &0x0010_0000u32.to_le_bytes());
    assert!(fw[20..64].iter().all(|&b| b == 0));
    assert_eq!(&fw[64..68], &[0x90, 0x00, 0x00, 0xEA]);
    assert_eq!(fw[68], 0);
    assert_eq!(fw[68 + 300], 44);
}

#[test]
fn re_adding_replaces_and_counts_are_per_name() {
    let mut loader = MockFirmwareLoader::default();
    loader.add_firmware("a.bin", vec![1]);
    loader.add_firmware("b.bin", vec![2]);
    loader.add_firmware("a.bin", vec![3, 3]);
    assert_eq!(loader.load_firmware("a.bin").unwrap(), vec![3, 3]);
    assert_eq!(loader.load_firmware("b.bin").unwrap(), vec![2]);
    assert_eq!(loader.load_firmware("a.bin").unwrap(), vec![3, 3]);
    assert_eq!(loader.get_load_count("a.bin"), 2);
    assert_eq!(loader.get_load_count("b.bin"), 1);
    assert_eq!(loader.get_load_count("c.bin"), 0);
}
