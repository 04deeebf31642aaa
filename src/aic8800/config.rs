//! AIC8800 driver configuration.
use vstd::prelude::*;

verus! {

pub const FUNC_BLOCKSIZE: usize = 512;
pub const PWR_CTRL_INTERVAL: u32 = 30;
pub const FLOW_CTRL_RETRY_COUNT: u32 = 50;
pub const BUFFER_SIZE: usize = 1536;
pub const TAIL_LEN: usize = 4;
pub const TXQLEN: usize = 8192;
pub const FW_READY_TIMEOUT_MS: u64 = 5000;
pub const FIRMWARE_MAX_SIZE: usize = 524288;
pub const RAM_FMAC_FW_ADDR_U02: u32 = 0x00120000;

} // verus!
