use soliloquy_drivers::aic8800_mock::register::{Aic8800RegisterMap, Aic8800Registers};

#[test]
fn test_chip_id_validation() {
    assert!(Aic8800Registers::is_valid_chip_id(0x88000000));
    assert!(Aic8800Registers::is_valid_chip_id(0x88000001));
    assert!(Aic8800Registers::is_valid_chip_id(0x88000002));
    assert!(!Aic8800Registers::is_valid_chip_id(0x12345678));
}

#[test]
fn test_chip_id_to_string() {
    assert_eq!(Aic8800Registers::chip_id_to_string(0x88000000), "AIC8800D");
    assert_eq!(Aic8800Registers::chip_id_to_string(0x88000001), "AIC8800DC");
    assert_eq!(Aic8800Registers::chip_id_to_string(0x88000002), "AIC8800DW");
    assert_eq!(Aic8800Registers::chip_id_to_string(0x12345678), "Unknown");
}

#[test]
fn test_register_map() {
    let mut map = Aic8800RegisterMap::new();

    assert_eq!(map.read(Aic8800Registers::REG_CHIP_ID), 0x88000001);

    map.write(Aic8800Registers::REG_HOST_CTRL, 0x12345678);
    assert_eq!(map.read(Aic8800Registers::REG_HOST_CTRL), 0x12345678);
}

#[test]
fn test_bit_operations() {
    let mut map = Aic8800RegisterMap::new();

    map.write(Aic8800Registers::REG_INT_MASK, 0x00000000);
    map.set_bits(Aic8800Registers::REG_INT_MASK, 0x0F);
    assert_eq!(map.read(Aic8800Registers::REG_INT_MASK), 0x0F);

    map.clear_bits(Aic8800Registers::REG_INT_MASK, 0x03);
    assert_eq!(map.read(Aic8800Registers::REG_INT_MASK), 0x0C);

    map.modify_bits(Aic8800Registers::REG_INT_MASK, 0xFF, 0x42);
    assert_eq!(map.read(Aic8800Registers::REG_INT_MASK), 0x42);
}

#[test]
fn test_fw_status_checks() {
    assert!(Aic8800Registers::is_fw_ready(Aic8800Registers::FW_STATUS_READY));
    assert!(!Aic8800Registers::is_fw_ready(Aic8800Registers::FW_STATUS_IDLE));
}

#[test]
fn test_error_detection() {
    assert!(Aic8800Registers::has_error(Aic8800Registers::INT_ERROR));
    assert!(Aic8800Registers::has_error(Aic8800Registers::INT_ERROR | Aic8800Registers::INT_TX_DONE));
    assert!(!Aic8800Registers::has_error(Aic8800Registers::INT_TX_DONE));
}

#[test]
fn register_map_reset_state_and_unwritten_reads() {
    let map = Aic8800RegisterMap::default();
    assert_eq!(map.read(Aic8800Registers::REG_CHIP_REV), 2);
    assert_eq!(map.read(Aic8800Registers::REG_FW_STATUS), Aic8800Registers::FW_STATUS_IDLE);
    assert_eq!(map.read(Aic8800Registers::REG_BLOCK_SIZE), 512);
    assert_eq!(map.read(Aic8800Registers::REG_RF_CTRL), 0);
}

#[test]
fn modify_bits_keeps_bits_outside_mask() {
    let mut map = Aic8800RegisterMap::new();
    map.write(0x40, 0xAAAA_5555);
    map.modify_bits(0x40, 0x0000_FF00, 0x1234_5678);
    assert_eq!(map.read(0x40), 0xAAAA_5655);
}
