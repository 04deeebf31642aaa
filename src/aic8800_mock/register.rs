//! AIC8800 register addresses, bit fields and a simulated register file.
use vstd::prelude::*;
use std::collections::HashMap;

verus! {

broadcast use vstd::std_specs::hash::group_hash_axioms;

/// AIC8800 register layout and helpers on register values.
pub struct Aic8800Registers;

impl Aic8800Registers {
    pub const VENDOR_ID: u32 = 0xA5C8;
    pub const DEVICE_ID: u32 = 0x8800;

    pub const SDIO_FUNC0_CCCR: u32 = 0x00000000;
    pub const SDIO_FUNC1_FBR: u32 = 0x00000100;

    pub const REG_CHIP_ID: u32 = 0x00000000;
    pub const REG_CHIP_REV: u32 = 0x00000004;
    pub const REG_FW_STATUS: u32 = 0x00000008;
    pub const REG_HOST_CTRL: u32 = 0x0000000C;
    pub const REG_INT_STATUS: u32 = 0x00000010;
    pub const REG_INT_MASK: u32 = 0x00000014;
    pub const REG_TX_READY: u32 = 0x00000018;
    pub const REG_RX_READY: u32 = 0x0000001C;

    pub const REG_SDIO_CTRL: u32 = 0x00000100;
    pub const REG_BLOCK_SIZE: u32 = 0x00000110;
    pub const REG_BLOCK_COUNT: u32 = 0x00000114;

    pub const REG_FW_DOWNLOAD_ADDR: u32 = 0x00100000;
    pub const REG_FW_DOWNLOAD_SIZE: u32 = 0x00100004;
    pub const REG_FW_DOWNLOAD_CTRL: u32 = 0x00100008;

    pub const REG_MAC_ADDR_LOW: u32 = 0x00001000;
    pub const REG_MAC_ADDR_HIGH: u32 = 0x00001004;

    pub const REG_PHY_CTRL: u32 = 0x00002000;
    pub const REG_RF_CTRL: u32 = 0x00002004;
    pub const REG_AGC_CTRL: u32 = 0x00002008;

    pub const INT_FW_READY: u32 = 0x0000_0001;
    pub const INT_TX_DONE: u32 = 0x0000_0002;
    pub const INT_RX_READY: u32 = 0x0000_0004;
    pub const INT_ERROR: u32 = 0x8000_0000;

    pub const HOST_CTRL_RESET: u32 = 0x1;
    pub const HOST_CTRL_ENABLE: u32 = 0x2;
    pub const HOST_CTRL_SLEEP: u32 = 0x4;

    pub const FW_STATUS_IDLE: u32 = 0;
    pub const FW_STATUS_DOWNLOADING: u32 = 1;
    pub const FW_STATUS_READY: u32 = 2;
    pub const FW_STATUS_ERROR: u32 = 0xFF;

    pub const FW_DOWNLOAD_START: u32 = 0x0000_0001;
    pub const FW_DOWNLOAD_DONE: u32 = 0x0000_0002;
    pub const FW_DOWNLOAD_ERROR: u32 = 0x8000_0000;

    pub const BLOCK_SIZE_DEFAULT: usize = 512;
    pub const BLOCK_SIZE_MAX: usize = 2048;

    pub const FW_BASE_ADDR: u32 = 0x00100000;
    pub const FW_MAX_SIZE: usize = 524288;

    pub const TIMEOUT_MS_SHORT: u64 = 100;
    pub const TIMEOUT_MS_MEDIUM: u64 = 1000;
    pub const TIMEOUT_MS_LONG: u64 = 5000;

    /// Marketing name of a chip ID.
    pub fn chip_id_to_string(chip_id: u32) -> (r: &'static str)
        ensures
            r@ == chip_name(chip_id),
    {
        match chip_id {
            0x88000000 => "AIC8800D",
            0x88000001 => "AIC8800DC",
            0x88000002 => "AIC8800DW",
            _ => "Unknown",
        }
    }

    /// Whether `chip_id` is one of the three known AIC8800 variants.
    pub fn is_valid_chip_id(chip_id: u32) -> (r: bool)
        ensures
            r == (0x88000000 <= chip_id <= 0x88000002),
    {
        0x88000000 <= chip_id && chip_id <= 0x88000002
    }

    /// Whether a firmware status value means "ready".
    pub fn is_fw_ready(fw_status: u32) -> (r: bool)
        ensures
            r == (fw_status == Self::FW_STATUS_READY),
    {
        fw_status == Self::FW_STATUS_READY
    }

    /// Whether an interrupt status has the error bit (bit 31) set.
    pub fn has_error(status: u32) -> (r: bool)
        ensures
            r == (status & 0x8000_0000 != 0),
    {
        (status & Self::INT_ERROR) != 0
    }
}

/// Name of each known chip ID.
pub open spec fn chip_name(chip_id: u32) -> Seq<char> {
    if chip_id == 0x88000000 {
        "AIC8800D"@
    } else if chip_id == 0x88000001 {
        "AIC8800DC"@
    } else if chip_id == 0x88000002 {
        "AIC8800DW"@
    } else {
        "Unknown"@
    }
}

/// Value of register `address` in a register file: unwritten registers read 0.
pub open spec fn reg_value(regs: Map<u32, u32>, address: u32) -> u32 {
    if regs.contains_key(address) {
        regs[address]
    } else {
        0
    }
}

/// Register contents after reset.
pub open spec fn reset_registers() -> Map<u32, u32> {
    Map::<u32, u32>::empty().insert(Aic8800Registers::REG_CHIP_ID, 0x88000001u32).insert(
        Aic8800Registers::REG_CHIP_REV,
        2u32,
    ).insert(Aic8800Registers::REG_FW_STATUS, Aic8800Registers::FW_STATUS_IDLE).insert(
        Aic8800Registers::REG_BLOCK_SIZE,
        512u32,
    )
}

/// A simulated register file.
pub struct Aic8800RegisterMap {
    registers: HashMap<u32, u32>,
}

impl View for Aic8800RegisterMap {
    type V = Map<u32, u32>;

    closed spec fn view(&self) -> Map<u32, u32> {
        self.registers@
    }
}

impl Aic8800RegisterMap {
    /// The reset state: chip ID 0x88000001, revision 2, firmware idle and
    /// the default block size.
    pub fn new() -> (r: Self)
        ensures
            r@ == reset_registers(),
    {
        let mut map = Aic8800RegisterMap { registers: HashMap::new() };
        map.write(Aic8800Registers::REG_CHIP_ID, 0x88000001);
        map.write(Aic8800Registers::REG_CHIP_REV, 0x00000002);
        map.write(Aic8800Registers::REG_FW_STATUS, Aic8800Registers::FW_STATUS_IDLE);
        map.write(Aic8800Registers::REG_BLOCK_SIZE, Aic8800Registers::BLOCK_SIZE_DEFAULT as u32);
        map
    }

    /// Read a register; unwritten registers read 0.
    pub fn read(&self, address: u32) -> (r: u32)
        ensures
            r == reg_value(self@, address),
    {
        match self.registers.get(&address) {
            Some(v) => *v,
            None => 0,
        }
    }

    /// Write a register.
    pub fn write(&mut self, address: u32, value: u32)
        ensures
            final(self)@ == old(self)@.insert(address, value),
    {
        self.registers.insert(address, value);
    }

    /// Set the bits of `mask` in a register.
    pub fn set_bits(&mut self, address: u32, mask: u32)
        ensures
            final(self)@ == old(self)@.insert(address, reg_value(old(self)@, address) | mask),
    {
        let current = self.read(address);
        self.write(address, current | mask);
    }

    /// Clear the bits of `mask` in a register.
    pub fn clear_bits(&mut self, address: u32, mask: u32)
        ensures
            final(self)@ == old(self)@.insert(address, reg_value(old(self)@, address) & !mask),
    {
        let current = self.read(address);
        self.write(address, current & !mask);
    }

    /// Replace the bits of `mask` in a register by those of `value`.
    pub fn modify_bits(&mut self, address: u32, mask: u32, value: u32)
        ensures
            final(self)@ == old(self)@.insert(
                address,
                (reg_value(old(self)@, address) & !mask) | (value & mask),
            ),
    {
        let current = self.read(address);
        self.write(address, (current & !mask) | (value & mask));
    }
}

impl Default for Aic8800RegisterMap {
    fn default() -> (r: Self)
        ensures
            r@ == reset_registers(),
    {
        Aic8800RegisterMap::new()
    }
}

} // verus!
