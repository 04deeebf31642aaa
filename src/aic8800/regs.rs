//! AIC8800 SDIO function registers.
use vstd::prelude::*;

verus! {

pub const BYTEMODE_LEN: u8 = 0x02;
pub const INTR_CONFIG: u8 = 0x04;
pub const SLEEP: u8 = 0x05;
pub const WAKEUP: u8 = 0x09;
pub const FLOW_CTRL: u8 = 0x0A;
pub const REGISTER_BLOCK: u8 = 0x0B;
pub const BYTEMODE_ENABLE: u8 = 0x11;
pub const BLOCK_CNT: u8 = 0x12;
pub const FLOWCTRL_MASK: u8 = 0x7F;

} // verus!
