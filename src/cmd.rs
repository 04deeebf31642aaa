//! MMC/SD command opcodes.
use vstd::prelude::*;

verus! {

pub const GO_IDLE_STATE: u32 = 0;
pub const SEND_OP_COND: u32 = 1;
pub const ALL_SEND_CID: u32 = 2;
pub const SET_RELATIVE_ADDR: u32 = 3;
pub const SET_DSR: u32 = 4;
pub const SWITCH: u32 = 6;
pub const SELECT_CARD: u32 = 7;
pub const SEND_EXT_CSD: u32 = 8;
/// SD interface condition (shares its index with SEND_EXT_CSD).
pub const SEND_IF_COND: u32 = 8;
pub const SEND_CSD: u32 = 9;
pub const SEND_CID: u32 = 10;
pub const STOP_TRANSMISSION: u32 = 12;
pub const SEND_STATUS: u32 = 13;
pub const SET_BLOCKLEN: u32 = 16;
pub const READ_SINGLE_BLOCK: u32 = 17;
pub const READ_MULTIPLE_BLOCK: u32 = 18;
pub const WRITE_SINGLE_BLOCK: u32 = 24;
pub const WRITE_MULTIPLE_BLOCK: u32 = 25;
pub const ERASE_START: u32 = 32;
pub const ERASE_END: u32 = 33;
pub const ERASE: u32 = 38;
pub const APP_CMD: u32 = 55;

// SD application commands (sent after APP_CMD)
pub const SD_SET_BUS_WIDTH: u32 = 6;
pub const SD_SEND_OP_COND: u32 = 41;
pub const SD_SEND_SCR: u32 = 51;

} // verus!
