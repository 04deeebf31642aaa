//! GPIO register layout: which register and bits configure a pin.
use vstd::prelude::*;
use crate::traits::{DriverError, DriverResult, GpioPull};

verus! {

/// Generic GPIO bank registers.
pub const GPIO_DATA: u32 = 0x00;
pub const GPIO_DIR: u32 = 0x04;
pub const GPIO_PULL: u32 = 0x1C;
pub const GPIO_ALT: u32 = 0x00;
pub const GPIO_INT_EN: u32 = 0x20;
pub const GPIO_INT_STA: u32 = 0x24;

/// Allwinner pin controller bank registers.
pub const AW_CFG0: u32 = 0x00;
pub const AW_CFG1: u32 = 0x04;
pub const AW_CFG2: u32 = 0x08;
pub const AW_CFG3: u32 = 0x0C;
pub const AW_DATA: u32 = 0x10;
pub const AW_DRV0: u32 = 0x14;
pub const AW_DRV1: u32 = 0x18;
pub const AW_PULL0: u32 = 0x1C;
pub const AW_PULL1: u32 = 0x20;

/// Pins per Allwinner bank, and the byte size of a bank's registers.
pub const AW_PINS_PER_BANK: u32 = 32;
pub const AW_BANK_SIZE: u32 = 0x24;

/// `current` with the bits of `mask` replaced by those of `value`.
pub open spec fn spec_modify(current: u32, mask: u32, value: u32) -> u32 {
    (current & !mask) | (value & mask)
}

/// `current` with the bits of `mask` replaced by those of `value`.
pub fn modify_bits(current: u32, mask: u32, value: u32) -> (r: u32)
    ensures
        r == spec_modify(current, mask, value),
{
    (current & !mask) | (value & mask)
}

/// Single-bit mask of a pin whose bits start at `pin_offset`.
pub fn pin_mask(pin: u32, pin_offset: u32) -> (r: u32)
    requires
        pin + pin_offset < 32,
    ensures
        r == 1u32 << (pin + pin_offset) as u32,
{
    1u32 << (pin + pin_offset)
}

/// Two-bit pull field value: none 0, up 1, down 2.
pub open spec fn pull_code(pull: GpioPull) -> u32 {
    match pull {
        GpioPull::Floating => 0,
        GpioPull::Up => 1,
        GpioPull::Down => 2,
    }
}

/// Two-bit pull field value: none 0, up 1, down 2.
pub fn pull_value(pull: GpioPull) -> (r: u32)
    ensures
        r == pull_code(pull),
{
    match pull {
        GpioPull::Floating => 0,
        GpioPull::Up => 1,
        GpioPull::Down => 2,
    }
}

/// Register and bit position of a pin's two-bit pull field in a generic
/// bank: sixteen pins per 32-bit register from `GPIO_PULL` on.
pub fn pull_field(pin: u32) -> (r: (u32, u32))
    requires
        pin < 0x8000_0000,
    ensures
        r.0 == GPIO_PULL + (2 * pin / 32) * 4,
        r.1 == (2 * pin) % 32,
{
    (GPIO_PULL + ((pin * 2) / 32) * 4, (pin * 2) % 32)
}

/// Register and bit position of a pin's four-bit function field: eight
/// pins per 32-bit register from offset 0 on.
pub fn alt_field(pin: u32) -> (r: (u32, u32))
    ensures
        r.0 == (pin / 8) * 4,
        r.1 == (pin % 8) * 4,
{
    ((pin / 8) * 4, (pin % 8) * 4)
}

/// Bank and pin within the bank of a pin number, for banks of
/// `pins_per_bank` pins.
pub fn bank_and_pin(pin: u32, pins_per_bank: u32) -> (r: (usize, u32))
    requires
        pins_per_bank > 0,
    ensures
        r.0 == pin / pins_per_bank,
        r.1 == pin % pins_per_bank,
{
    ((pin / pins_per_bank) as usize, pin % pins_per_bank)
}

/// Bank and pin within the bank on an Allwinner controller with
/// `bank_count` banks; `InvalidParam` past the last bank.
pub fn aw_split_pin(pin: u32, bank_count: u32) -> (r: DriverResult<(u32, u32)>)
    ensures
        pin / 32 >= bank_count ==> r matches Err(DriverError::InvalidParam),
        pin / 32 < bank_count ==> (r matches Ok(p) && p == (pin / 32, pin % 32)),
{
    let bank = pin / AW_PINS_PER_BANK;
    let pin_in_bank = pin % AW_PINS_PER_BANK;
    if bank >= bank_count || pin_in_bank >= AW_PINS_PER_BANK {
        return Err(DriverError::InvalidParam);
    }
    Ok((bank, pin_in_bank))
}

/// Configuration register of a pin within an Allwinner bank (eight pins
/// per register); `InvalidParam` for a pin past 31.
pub fn aw_cfg_reg(pin_in_bank: u32) -> (r: DriverResult<u32>)
    ensures
        pin_in_bank < 32 ==> (r matches Ok(reg) && reg == (pin_in_bank / 8) * 4),
        pin_in_bank >= 32 ==> r matches Err(DriverError::InvalidParam),
{
    match pin_in_bank / 8 {
        0 => Ok(AW_CFG0),
        1 => Ok(AW_CFG1),
        2 => Ok(AW_CFG2),
        3 => Ok(AW_CFG3),
        _ => Err(DriverError::InvalidParam),
    }
}

/// Register and bit position of a pin's pull field within an Allwinner bank.
pub fn aw_pull_field(pin_in_bank: u32) -> (r: (u32, u32))
    requires
        pin_in_bank < 32,
    ensures
        r.0 == (if pin_in_bank < 16 { AW_PULL0 } else { AW_PULL1 }),
        r.1 == (pin_in_bank % 16) * 2,
{
    let reg = if pin_in_bank < 16 {
        AW_PULL0
    } else {
        AW_PULL1
    };
    (reg, (pin_in_bank % 16) * 2)
}

/// Byte offset of register `offset` of Allwinner bank `bank`.
pub fn aw_bank_register(bank: u32, offset: u32) -> (r: u32)
    requires
        bank * AW_BANK_SIZE + offset <= u32::MAX,
    ensures
        r == bank * AW_BANK_SIZE + offset,
{
    bank * AW_BANK_SIZE + offset
}

} // verus!
