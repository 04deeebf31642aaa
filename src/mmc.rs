//! Generic SD/MMC/eMMC protocol engine over an abstract host controller.
//!
//! The engine negotiates card identity, addressing mode, bus width and clock
//! speed, then issues block-granular read, write and erase commands. Every
//! request it makes of the host is recorded in a ghost log, and the contracts
//! below state the exact request sequence of each operation.
use vstd::prelude::*;
use crate::cmd;
use crate::traits::{DriverError, DriverResult, MmcBusWidth, MmcCardInfo, MmcCardType, MmcDriver};

verus! {

/// Block size used for every transfer, in bytes.
pub const BLOCK_SIZE: u32 = 512;

/// CMD8 argument: voltage window 2.7-3.6 V and check pattern 0xAA.
pub const IF_COND_ARG: u32 = 0x1AA;

/// ACMD41 argument with the high-capacity support bit set.
pub const SD_OCR_HCS: u32 = 0x40FF8000;

/// ACMD41 argument without the high-capacity support bit.
pub const SD_OCR_NO_HCS: u32 = 0x00FF8000;

/// CMD1 argument: high capacity, sector mode.
pub const EMMC_OCR: u32 = 0x40FF8080;

/// Number of OCR polls before negotiation gives up.
pub const OCR_POLL_LIMIT: u32 = 100;

/// MMC response types.
#[derive(Debug, Clone, Copy, PartialEq, Eq, Structural)]
pub enum MmcResponse {
    /// No response expected
    NoResponse,
    /// Normal response
    R1,
    /// Normal response with busy
    R1b,
    /// CID/CSD register
    R2,
    /// OCR register
    R3,
    /// Published RCA
    R6,
    /// Card interface condition
    R7,
}

/// Shape of the response and of the data phase of one command.
#[derive(Debug, Clone, Copy, PartialEq, Eq, Structural)]
pub struct MmcCmdFlags {
    pub response: MmcResponse,
    pub data: bool,
    pub write: bool,
    pub multi_block: bool,
}

impl Default for MmcCmdFlags {
    /// An R1 response and no data phase.
    fn default() -> (r: Self)
        ensures
            r == flags_of(MmcResponse::R1),
    {
        MmcCmdFlags { response: MmcResponse::R1, data: false, write: false, multi_block: false }
    }
}

/// A data transfer description.
pub struct MmcData {
    pub buffer: Vec<u8>,
    pub block_size: u32,
    pub block_count: u32,
    pub write: bool,
}

/// Hardware operations of an MMC host controller, implemented per controller.
pub trait MmcHostOps {
    /// Send a command and return its response word.
    fn send_cmd(&mut self, cmd: u32, arg: u32, flags: MmcCmdFlags) -> DriverResult<u32>;

    /// Read one block of data into `buffer`.
    fn read_data(&mut self, buffer: &mut [u8], block_size: u32) -> (r: DriverResult<()>)
        ensures
            final(buffer)@.len() == old(buffer)@.len(),
    ;

    /// Write one block of data.
    fn write_data(&mut self, data: &[u8], block_size: u32) -> DriverResult<()>;

    /// Set the bus width.
    fn set_bus_width(&mut self, width: MmcBusWidth) -> DriverResult<()>;

    /// Set the clock frequency.
    fn set_clock(&mut self, freq_hz: u32) -> DriverResult<()>;

    /// Wait for the card to be ready.
    fn wait_ready(&mut self, timeout_ms: u32) -> DriverResult<()>;

    /// Whether a card is present.
    fn card_detect(&self) -> bool;
}

/// One request made of the host, as the engine's log records it, with its
/// outcome: a command carries the response word it got, or `None` if it
/// failed; the other operations say whether they succeeded.
pub enum HostCall {
    CardDetect { present: bool },
    Command { cmd: u32, arg: u32, flags: MmcCmdFlags, reply: Option<u32> },
    ReadData { offset: usize, block_size: u32, ok: bool },
    WriteData { offset: usize, block_size: u32, ok: bool },
    SetBusWidth { width: MmcBusWidth, ok: bool },
    SetClock { freq_hz: u32, ok: bool },
    WaitReady { timeout_ms: u32, ok: bool },
}

// ---------------------------------------------------------------------------
// Specification
// ---------------------------------------------------------------------------

/// Flags of a command with the given response and no data phase.
pub open spec fn flags_of(response: MmcResponse) -> MmcCmdFlags {
    MmcCmdFlags { response, data: false, write: false, multi_block: false }
}

/// Flags of a read or write command that moves `count` blocks.
pub open spec fn transfer_flags(write: bool, count: nat) -> MmcCmdFlags {
    MmcCmdFlags { response: MmcResponse::R1, data: true, write, multi_block: count > 1 }
}

/// A command request, without its response.
pub open spec fn command(cmd: u32, arg: u32, flags: MmcCmdFlags) -> HostCall {
    HostCall::Command { cmd, arg, flags, reply: None }
}

/// What was asked of the host, forgetting what it answered.
pub open spec fn request(c: HostCall) -> HostCall {
    match c {
        HostCall::Command { cmd, arg, flags, .. } => command(cmd, arg, flags),
        HostCall::ReadData { offset, block_size, .. } => HostCall::ReadData { offset, block_size, ok: true },
        HostCall::WriteData { offset, block_size, .. } => HostCall::WriteData { offset, block_size, ok: true },
        HostCall::SetBusWidth { width, .. } => HostCall::SetBusWidth { width, ok: true },
        HostCall::SetClock { freq_hz, .. } => HostCall::SetClock { freq_hz, ok: true },
        HostCall::WaitReady { timeout_ms, .. } => HostCall::WaitReady { timeout_ms, ok: true },
        _ => c,
    }
}

/// The requests of a log.
pub open spec fn requests(s: Seq<HostCall>) -> Seq<HostCall> {
    s.map_values(|c: HostCall| request(c))
}

/// The log entry of a command that returned `r`.
pub open spec fn answered(cmd: u32, arg: u32, flags: MmcCmdFlags, r: DriverResult<u32>) -> HostCall {
    HostCall::Command {
        cmd,
        arg,
        flags,
        reply: match r {
            Ok(v) => Some(v),
            Err(_) => None,
        },
    }
}

/// SDHC, SDXC and eMMC take block indices; legacy SD and MMC take byte offsets.
pub open spec fn is_block_addressed(t: MmcCardType) -> bool {
    t == MmcCardType::SdHc || t == MmcCardType::SdXc || t == MmcCardType::Emmc
}

/// The address of block `n` on a card of type `t`.
pub open spec fn spec_addr(t: MmcCardType, n: u64) -> int {
    if is_block_addressed(t) {
        n as int
    } else {
        n * BLOCK_SIZE
    }
}

/// The 32-bit command argument that carries the address of block `n`:
/// the low 32 bits of `spec_addr(t, n)`.
pub open spec fn addr_arg(t: MmcCardType, n: u64) -> u32 {
    (spec_addr(t, n) % 0x1_0000_0000) as u32
}

/// Placeholder capacity of each card type (the CSD register is not decoded).
pub open spec fn capacity_of(t: MmcCardType) -> u64 {
    match t {
        MmcCardType::Sd => 0x8000_0000,
        MmcCardType::SdHc => 0x8_0000_0000,
        MmcCardType::SdXc => 0x10_0000_0000,
        MmcCardType::Emmc => 0x4_0000_0000,
        MmcCardType::Mmc => 0x2000_0000,
    }
}

/// Operating clock after initialization.
pub open spec fn frequency_of(t: MmcCardType) -> u32 {
    match t {
        MmcCardType::SdHc | MmcCardType::SdXc => 50_000_000,
        MmcCardType::Emmc => 52_000_000,
        _ => 25_000_000,
    }
}

/// SD cards publish their own RCA and use a 4-bit bus; other cards an 8-bit one.
pub open spec fn is_sd(t: MmcCardType) -> bool {
    t == MmcCardType::Sd || t == MmcCardType::SdHc || t == MmcCardType::SdXc
}

pub open spec fn bus_width_of(t: MmcCardType) -> MmcBusWidth {
    if is_sd(t) {
        MmcBusWidth::Width4
    } else {
        MmcBusWidth::Width8
    }
}

/// The card information that initialization stores for a card of type `t`.
pub open spec fn card_info_for(t: MmcCardType) -> MmcCardInfo {
    MmcCardInfo {
        card_type: t,
        capacity_bytes: capacity_of(t),
        block_size: BLOCK_SIZE,
        bus_width: bus_width_of(t),
        max_frequency: frequency_of(t),
    }
}

/// OCR bit 31: the card has finished powering up.
pub open spec fn ocr_ready(ocr: u32) -> bool {
    ocr & 0x8000_0000 != 0
}

/// OCR bit 30 (CCS) tells SDHC from standard-capacity SD.
pub open spec fn sd_type_of(ocr: u32) -> MmcCardType {
    if ocr & 0x4000_0000 != 0 {
        MmcCardType::SdHc
    } else {
        MmcCardType::Sd
    }
}

/// The CMD8 entry shows an SD v2 card: its response echoes the check pattern.
pub open spec fn echoes_check_pattern(c: HostCall) -> bool {
    c matches HostCall::Command { reply: Some(v), .. } && v & 0xFF == 0xAA
}

/// Log entry `c` is the OCR poll that ended negotiation with card type `t`.
pub open spec fn accepts(c: HostCall, t: MmcCardType, v2: bool) -> bool {
    match c {
        HostCall::Command { cmd, arg, flags, reply: Some(ocr) } => {
            &&& flags == flags_of(MmcResponse::R3)
            &&& ocr_ready(ocr)
            &&& {
                ||| (cmd == cmd::SD_SEND_OP_COND && arg == (if v2 { SD_OCR_HCS } else { SD_OCR_NO_HCS })
                    && t == sd_type_of(ocr))
                ||| (cmd == cmd::SEND_OP_COND && arg == EMMC_OCR && !v2 && t == MmcCardType::Emmc)
            }
        },
        _ => false,
    }
}

/// The argument that carries an RCA.
pub open spec fn rca_arg(rca: u16) -> u32 {
    ((rca as u32) * 0x10000) as u32
}

/// Requests before negotiation: detect, slow clock, 1-bit bus, CMD0, CMD8.
pub open spec fn startup_trace() -> Seq<HostCall> {
    seq![
        HostCall::CardDetect { present: true },
        HostCall::SetClock { freq_hz: 400_000, ok: true },
        HostCall::SetBusWidth { width: MmcBusWidth::Width1, ok: true },
        command(cmd::GO_IDLE_STATE, 0, flags_of(MmcResponse::NoResponse)),
        command(cmd::SEND_IF_COND, IF_COND_ARG, flags_of(MmcResponse::R7)),
    ]
}

/// Requests after negotiation: identification, addressing, selection, bus
/// width, block length and clock ramp.
pub open spec fn finish_trace(t: MmcCardType, rca: u16) -> Seq<HostCall> {
    let r1 = flags_of(MmcResponse::R1);
    if is_sd(t) {
        seq![
            command(cmd::ALL_SEND_CID, 0, flags_of(MmcResponse::R2)),
            command(cmd::SET_RELATIVE_ADDR, 0, flags_of(MmcResponse::R6)),
            command(cmd::SELECT_CARD, rca_arg(rca), flags_of(MmcResponse::R1b)),
            command(cmd::APP_CMD, rca_arg(rca), r1),
            command(cmd::SD_SET_BUS_WIDTH, 2, r1),
            HostCall::SetBusWidth { width: MmcBusWidth::Width4, ok: true },
            command(cmd::SET_BLOCKLEN, BLOCK_SIZE, r1),
            HostCall::SetClock { freq_hz: frequency_of(t), ok: true },
        ]
    } else {
        seq![
            command(cmd::ALL_SEND_CID, 0, flags_of(MmcResponse::R2)),
            command(cmd::SET_RELATIVE_ADDR, rca_arg(1), r1),
            command(cmd::SELECT_CARD, rca_arg(1), flags_of(MmcResponse::R1b)),
            HostCall::SetBusWidth { width: MmcBusWidth::Width8, ok: true },
            command(cmd::SET_BLOCKLEN, BLOCK_SIZE, r1),
            HostCall::SetClock { freq_hz: frequency_of(t), ok: true },
        ]
    }
}

/// The STOP_TRANSMISSION that ends a multi-block transfer.
pub open spec fn stop_trace(count: nat) -> Seq<HostCall> {
    if count > 1 {
        seq![command(cmd::STOP_TRANSMISSION, 0, flags_of(MmcResponse::R1b))]
    } else {
        seq![]
    }
}

/// The data phase of a read: block `i` lands at byte `512 * i` of the buffer.
pub open spec fn read_data_calls(count: nat) -> Seq<HostCall> {
    Seq::new(count, |i: int| HostCall::ReadData { offset: (i * 512) as usize, block_size: BLOCK_SIZE, ok: true })
}

/// The data phase of a write: block `i` is bytes `512 * i ..` of the data.
pub open spec fn write_data_calls(count: nat) -> Seq<HostCall> {
    Seq::new(count, |i: int| HostCall::WriteData { offset: (i * 512) as usize, block_size: BLOCK_SIZE, ok: true })
}

/// Requests of a read of `count` blocks starting at block `start`.
pub open spec fn read_trace(t: MmcCardType, start: u64, count: nat) -> Seq<HostCall> {
    seq![command(
        if count > 1 { cmd::READ_MULTIPLE_BLOCK } else { cmd::READ_SINGLE_BLOCK },
        addr_arg(t, start),
        transfer_flags(false, count),
    )] + read_data_calls(count) + stop_trace(count)
}

/// Requests of a write of `count` blocks starting at block `start`.
pub open spec fn write_trace(t: MmcCardType, start: u64, count: nat) -> Seq<HostCall> {
    seq![command(
        if count > 1 { cmd::WRITE_MULTIPLE_BLOCK } else { cmd::WRITE_SINGLE_BLOCK },
        addr_arg(t, start),
        transfer_flags(true, count),
    )] + write_data_calls(count) + stop_trace(count)
        + seq![HostCall::WaitReady { timeout_ms: 500, ok: true }]
}

/// Requests of an erase of blocks `start ..= last`.
pub open spec fn erase_trace(t: MmcCardType, start: u64, last: u64) -> Seq<HostCall> {
    seq![
        command(cmd::ERASE_START, addr_arg(t, start), flags_of(MmcResponse::R1)),
        command(cmd::ERASE_END, addr_arg(t, last), flags_of(MmcResponse::R1)),
        command(cmd::ERASE, 0, flags_of(MmcResponse::R1b)),
        HostCall::WaitReady { timeout_ms: 5000, ok: true },
    ]
}

/// `new` is `old` followed by requests that begin `trace`: all of it when
/// `complete`, else a nonempty part of it (a host call failed there).
pub open spec fn logged(new: Seq<HostCall>, old: Seq<HostCall>, trace: Seq<HostCall>, complete: bool) -> bool {
    &&& old.len() < new.len() <= old.len() + trace.len()
    &&& new.subrange(0, old.len() as int) == old
    &&& requests(new.subrange(old.len() as int, new.len() as int)) == trace.subrange(
        0,
        new.len() - old.len(),
    )
    &&& complete ==> new.len() == old.len() + trace.len()
}

/// Log entry `c` is a command whose response publishes `rca` in its upper 16 bits.
pub open spec fn published_rca(c: HostCall, rca: u16) -> bool {
    c matches HostCall::Command { reply: Some(v), .. } && rca == (v >> 16) as u16
}

/// A host call whose failure the engine passes on to its caller. A failed
/// CMD8 probe is not one: it only means that the card is not SD v2.
pub open spec fn propagated_failure(c: HostCall) -> bool {
    match c {
        HostCall::Command { cmd, reply, .. } => reply is None && cmd != cmd::SEND_IF_COND,
        HostCall::ReadData { ok, .. } => !ok,
        HostCall::WriteData { ok, .. } => !ok,
        HostCall::SetBusWidth { ok, .. } => !ok,
        HostCall::SetClock { ok, .. } => !ok,
        HostCall::WaitReady { ok, .. } => !ok,
        HostCall::CardDetect { .. } => false,
    }
}

/// No host call of `s` failed in a way the engine passes on.
pub open spec fn host_never_failed(s: Seq<HostCall>) -> bool {
    forall|i: int| 0 <= i < s.len() ==> !propagated_failure(#[trigger] s[i])
}

/// `seg` stops at its first host failure: every call before its last
/// succeeded, and the last one failed.
pub open spec fn stopped_by_failure(seg: Seq<HostCall>) -> bool {
    seg.len() > 0 && host_never_failed(seg.drop_last()) && propagated_failure(seg.last())
}

/// The error of a result, if it is one.
pub open spec fn err_of<T>(r: DriverResult<T>) -> Option<DriverError> {
    match r {
        Ok(_) => None,
        Err(e) => Some(e),
    }
}

/// An operation that makes the requests of `trace` ran from log `old` to
/// log `new`: it succeeded exactly when no host call failed, having made all
/// of them; otherwise it stopped at the first failed call and returned that
/// call's error.
pub open spec fn ran(
    new: Seq<HostCall>,
    old: Seq<HostCall>,
    trace: Seq<HostCall>,
    ok: bool,
    returned: Option<DriverError>,
    recorded: Option<DriverError>,
) -> bool {
    &&& logged(new, old, trace, ok)
    &&& ok <==> host_never_failed(tail_from(new, old.len() as int))
    &&& !ok ==> stopped_by_failure(tail_from(new, old.len() as int)) && returned is Some && returned
        == recorded
}

/// One ACMD41 polling round: APP_CMD, ACMD41 with `arg`, a 10 ms wait.
pub open spec fn sd_round(arg: u32) -> Seq<HostCall> {
    seq![
        command(cmd::APP_CMD, 0, flags_of(MmcResponse::R1)),
        command(cmd::SD_SEND_OP_COND, arg, flags_of(MmcResponse::R3)),
        HostCall::WaitReady { timeout_ms: 10, ok: true },
    ]
}

/// One CMD1 polling round: CMD1, a 10 ms wait.
pub open spec fn emmc_round() -> Seq<HostCall> {
    seq![
        command(cmd::SEND_OP_COND, EMMC_OCR, flags_of(MmcResponse::R3)),
        HostCall::WaitReady { timeout_ms: 10, ok: true },
    ]
}

/// `s` repeats the requests of `round`, for at most 100 rounds.
pub open spec fn poll_shaped(s: Seq<HostCall>, round: Seq<HostCall>) -> bool {
    &&& s.len() <= 100 * round.len()
    &&& forall|k: int| 0 <= k < s.len() ==> request(#[trigger] s[k]) == round[k % round.len() as int]
}

/// `x` is command `c` answered with an OCR that reports power-up complete.
pub open spec fn ready_reply(x: HostCall, c: u32) -> bool {
    x matches HostCall::Command { cmd, reply: Some(ocr), .. } && cmd == c && ocr_ready(ocr)
}

/// No entry of `s` is command `c` answered with a ready OCR.
pub open spec fn not_ready(s: Seq<HostCall>, c: u32) -> bool {
    forall|k: int| 0 <= k < s.len() ==> !ready_reply(#[trigger] s[k], c)
}

/// A polling phase that ended at its first ready reply to command `c`.
pub open spec fn phase_accepted(s: Seq<HostCall>, c: u32) -> bool {
    &&& s.len() > 0
    &&& host_never_failed(s)
    &&& ready_reply(s.last(), c)
    &&& not_ready(s.drop_last(), c)
}

/// A polling phase that ended at its first host failure, no poll ready before.
pub open spec fn phase_failed(s: Seq<HostCall>, c: u32) -> bool {
    stopped_by_failure(s) && not_ready(s, c)
}

/// A polling phase that ran all 100 rounds of `round` with no poll ready.
pub open spec fn phase_exhausted(s: Seq<HostCall>, round: Seq<HostCall>, c: u32) -> bool {
    &&& s.len() == 100 * round.len()
    &&& host_never_failed(s)
    &&& not_ready(s, c)
}

/// How a polling phase of `round` for command `c` that returned `r` ended:
/// accepted on success; on error either failed, returning the host's error,
/// or exhausted, returning `Timeout`.
pub open spec fn phase_ended<T>(
    s: Seq<HostCall>,
    round: Seq<HostCall>,
    c: u32,
    r: DriverResult<T>,
    recorded: Option<DriverError>,
) -> bool {
    &&& poll_shaped(s, round)
    &&& r is Ok ==> phase_accepted(s, c)
    &&& r is Err ==> (phase_failed(s, c) && err_of(r) == recorded) || (phase_exhausted(s, round, c)
        && r matches Err(DriverError::Timeout))
}

/// ACMD41 argument for a card that did or did not echo the CMD8 pattern.
pub open spec fn sd_arg(v2: bool) -> u32 {
    if v2 {
        SD_OCR_HCS
    } else {
        SD_OCR_NO_HCS
    }
}

/// How the last polling phase `s` ended: accepted when `ok`; otherwise
/// failed, with the host's error returned, or exhausted, with `Timeout`.
pub open spec fn last_phase_end(
    s: Seq<HostCall>,
    round: Seq<HostCall>,
    c: u32,
    ok: bool,
    returned: Option<DriverError>,
    recorded: Option<DriverError>,
) -> bool {
    &&& ok ==> phase_accepted(s, c)
    &&& !ok ==> (phase_failed(s, c) && returned is Some && returned == recorded) || (phase_exhausted(
        s,
        round,
        c,
    ) && returned == Some(DriverError::Timeout))
}

/// In the log `seg` of one initialization (from its presence check on),
/// start-up is `seg[..5]` and OCR negotiation `seg[5..m2]`: ACMD41 polling,
/// with the argument that CMD8 selected, in `seg[5..m1]`; then, only for a
/// card that is not SD v2 and did not accept ACMD41, CMD1 polling in
/// `seg[m1..m2]`. Negotiation accepted a card exactly when `ok`.
pub open spec fn negotiation_in(
    seg: Seq<HostCall>,
    m1: int,
    m2: int,
    ok: bool,
    returned: Option<DriverError>,
    recorded: Option<DriverError>,
) -> bool {
    let v2 = echoes_check_pattern(seg[4]);
    let sd = seg.subrange(5, m1);
    let em = seg.subrange(m1, m2);
    &&& 5 <= m1 <= m2 <= seg.len()
    &&& requests(seg.subrange(0, 5)) == startup_trace()
    &&& host_never_failed(seg.subrange(0, 5))
    &&& poll_shaped(sd, sd_round(sd_arg(v2)))
    &&& if v2 || phase_accepted(sd, cmd::SD_SEND_OP_COND) {
        &&& m2 == m1
        &&& last_phase_end(sd, sd_round(sd_arg(v2)), cmd::SD_SEND_OP_COND, ok, returned, recorded)
    } else {
        &&& phase_failed(sd, cmd::SD_SEND_OP_COND) || phase_exhausted(
            sd,
            sd_round(sd_arg(v2)),
            cmd::SD_SEND_OP_COND,
        )
        &&& poll_shaped(em, emmc_round())
        &&& last_phase_end(em, emmc_round(), cmd::SEND_OP_COND, ok, returned, recorded)
    }
}

/// `seg`, the log of one successful initialization, shows start-up,
/// negotiation that accepted card type `t` at its last entry, then exactly
/// the identification requests for `t` with RCA `rca`, none failing.
pub open spec fn init_succeeded(seg: Seq<HostCall>, t: MmcCardType, rca: u16) -> bool {
    exists|m1: int, m2: int|
        #[trigger] negotiation_in(seg, m1, m2, true, None, None) && accepts(
            seg[m2 - 1],
            t,
            echoes_check_pattern(seg[4]),
        ) && requests(seg.subrange(m2, seg.len() as int)) == finish_trace(t, rca) && host_never_failed(
            seg.subrange(m2, seg.len() as int),
        ) && (is_sd(t) ==> m2 + 1 < seg.len() && published_rca(seg[m2 + 1], rca)) && (!is_sd(t) ==> rca
            == 1)
}

/// `seg`, the log of one failed initialization of a present card, shows
/// where it stopped: at a failed start-up call, at the end of negotiation
/// that accepted no card, or at a failed identification call. A host
/// failure's error is returned unchanged; exhausted polling returns
/// `Timeout`.
pub open spec fn init_failed(seg: Seq<HostCall>, returned: Option<DriverError>, recorded: Option<DriverError>) -> bool {
    ||| (seg.len() <= 4 && stopped_by_failure(seg) && requests(seg) == startup_trace().subrange(
        0,
        seg.len() as int,
    ) && returned is Some && returned == recorded)
    ||| (exists|m1: int, m2: int|
        #[trigger] negotiation_in(seg, m1, m2, false, returned, recorded) && m2 == seg.len())
    ||| (exists|m1: int, m2: int|
        #[trigger] negotiation_in(seg, m1, m2, true, None, None) && stopped_by_failure(
            seg.subrange(m2, seg.len() as int),
        ) && returned is Some && returned == recorded)
}

/// Number of STOP_TRANSMISSION requests in `s`.
pub open spec fn stop_count(s: Seq<HostCall>) -> nat
    decreases s.len(),
{
    if s.len() == 0 {
        0
    } else {
        stop_count(s.drop_last()) + if s.last() == command(
            cmd::STOP_TRANSMISSION,
            0,
            flags_of(MmcResponse::R1b),
        ) {
            1nat
        } else {
            0nat
        }
    }
}

// ---------------------------------------------------------------------------
// Lemmas
// ---------------------------------------------------------------------------

proof fn lemma_requests_push(s: Seq<HostCall>, c: HostCall)
    ensures
        requests(s.push(c)) == requests(s).push(request(c)),
{
    assert(requests(s.push(c)) =~= requests(s).push(request(c)));
}

proof fn lemma_logged_push(old: Seq<HostCall>, seg: Seq<HostCall>, c: HostCall, trace: Seq<HostCall>)
    requires
        requests(seg) == trace.subrange(0, seg.len() as int),
        seg.len() < trace.len(),
        request(c) == trace[seg.len() as int],
    ensures
        logged(old + seg.push(c), old, trace, seg.len() + 1 == trace.len()),
{
    lemma_requests_push(seg, c);
    let new = old + seg.push(c);
    assert(new.subrange(0, old.len() as int) =~= old);
    assert(new.subrange(old.len() as int, new.len() as int) =~= seg.push(c));
    assert(trace.subrange(0, seg.len() + 1 as int) =~= trace.subrange(0, seg.len() as int).push(
        trace[seg.len() as int],
    ));
}

proof fn lemma_logged_extend(cur: Seq<HostCall>, old: Seq<HostCall>, c: HostCall, trace: Seq<HostCall>)
    requires
        cur == old || logged(cur, old, trace, false),
        cur.len() >= old.len(),
        cur.len() - old.len() < trace.len(),
        request(c) == trace[cur.len() - old.len()],
    ensures
        logged(cur.push(c), old, trace, cur.len() + 1 - old.len() == trace.len()),
{
    let seg = cur.subrange(old.len() as int, cur.len() as int);
    assert(cur =~= old + seg);
    assert(cur.push(c) =~= old + seg.push(c));
    if cur == old {
        assert(requests(seg) =~= trace.subrange(0, 0));
    }
    lemma_logged_push(old, seg, c, trace);
}

/// `a` is a prefix of `b`.
pub open spec fn is_prefix(a: Seq<HostCall>, b: Seq<HostCall>) -> bool {
    a.len() <= b.len() && b.subrange(0, a.len() as int) == a
}

proof fn lemma_prefix_refl(a: Seq<HostCall>)
    ensures
        is_prefix(a, a),
{
    assert(a.subrange(0, a.len() as int) =~= a);
}

proof fn lemma_prefix_trans(a: Seq<HostCall>, b: Seq<HostCall>, c: Seq<HostCall>)
    requires
        is_prefix(a, b),
        is_prefix(b, c),
    ensures
        is_prefix(a, c),
{
    assert(c.subrange(0, a.len() as int) =~= a) by {
        assert forall|k: int| 0 <= k < a.len() implies c[k] == a[k] by {
            assert(c.subrange(0, b.len() as int)[k] == c[k]);
            assert(b.subrange(0, a.len() as int)[k] == b[k]);
        }
    }
}

proof fn lemma_prefix_push(a: Seq<HostCall>, b: Seq<HostCall>, x: HostCall)
    requires
        is_prefix(a, b),
    ensures
        is_prefix(a, b.push(x)),
        is_prefix(b, b.push(x)),
{
    assert(b.push(x).subrange(0, b.len() as int) =~= b);
    lemma_prefix_trans(a, b, b.push(x));
}

/// The identification requests of a successful initialization, assembled
/// step by step after negotiation ended in log `c2`, are `finish_trace`.
#[verifier::rlimit(40)]
proof fn lemma_finish_log(
    c2: Seq<HostCall>,
    c3: Seq<HostCall>,
    c4: Seq<HostCall>,
    c5: Seq<HostCall>,
    c6: Seq<HostCall>,
    c7: Seq<HostCall>,
    fin: Seq<HostCall>,
    t: MmcCardType,
    rca: u16,
)
    requires
        c3 == c2.push(c3.last()),
        request(c3.last()) == command(cmd::ALL_SEND_CID, 0, flags_of(MmcResponse::R2)),
        c4 == c3.push(c4.last()),
        is_sd(t) ==> request(c4.last()) == command(
            cmd::SET_RELATIVE_ADDR,
            0,
            flags_of(MmcResponse::R6),
        ) && published_rca(c4.last(), rca),
        !is_sd(t) ==> request(c4.last()) == command(
            cmd::SET_RELATIVE_ADDR,
            rca_arg(1),
            flags_of(MmcResponse::R1),
        ) && rca == 1,
        c5 == c4.push(c5.last()),
        request(c5.last()) == command(cmd::SELECT_CARD, rca_arg(rca), flags_of(MmcResponse::R1b)),
        is_sd(t) ==> is_prefix(c5, c6) && requests(c6.subrange(c5.len() as int, c6.len() as int))
            == seq![
            command(cmd::APP_CMD, rca_arg(rca), flags_of(MmcResponse::R1)),
            command(cmd::SD_SET_BUS_WIDTH, 2, flags_of(MmcResponse::R1)),
            HostCall::SetBusWidth { width: MmcBusWidth::Width4, ok: true },
        ],
        !is_sd(t) ==> c6 == c5.push(c6.last()) && request(c6.last()) == (HostCall::SetBusWidth {
            width: MmcBusWidth::Width8,
            ok: true,
        }),
        c7 == c6.push(c7.last()),
        request(c7.last()) == command(cmd::SET_BLOCKLEN, BLOCK_SIZE, flags_of(MmcResponse::R1)),
        fin == c7.push(fin.last()),
        request(fin.last()) == (HostCall::SetClock { freq_hz: frequency_of(t), ok: true }),
    ensures
        is_prefix(c2, fin),
        requests(tail_from(fin, c2.len() as int)) == finish_trace(t, rca),
        is_sd(t) ==> c2.len() + 1 < fin.len() && published_rca(fin[c2.len() + 1int], rca),
{
    lemma_prefix_refl(c2);
    lemma_prefix_push(c2, c2, c3.last());
    lemma_prefix_push(c2, c3, c4.last());
    lemma_prefix_push(c2, c4, c5.last());
    if is_sd(t) {
        lemma_prefix_trans(c2, c5, c6);
    } else {
        lemma_prefix_push(c2, c5, c6.last());
    }
    lemma_prefix_push(c2, c6, c7.last());
    lemma_prefix_push(c2, c7, fin.last());
    lemma_prefix_refl(c5);
    if is_sd(t) {
        lemma_prefix_trans(c5, c6, c7);
    } else {
        lemma_prefix_push(c5, c5, c6.last());
        lemma_prefix_push(c5, c6, c7.last());
    }
    lemma_prefix_push(c5, c7, fin.last());
    let tail = tail_from(fin, c2.len() as int);
    assert(fin[c2.len() as int] == c3.last());
    assert(fin[c3.len() as int] == c4.last());
    assert(fin[c4.len() as int] == c5.last());
    assert(fin[c6.len() as int] == c7.last());
    if is_sd(t) {
        let mid = c6.subrange(c5.len() as int, c6.len() as int);
        assert(requests(mid).len() == 3);
        assert(fin[c5.len() as int] == mid[0]);
        assert(fin[c5.len() + 1int] == mid[1]);
        assert(fin[c5.len() + 2int] == mid[2]);
        assert(request(mid[0]) == requests(mid)[0]);
        assert(request(mid[1]) == requests(mid)[1]);
        assert(request(mid[2]) == requests(mid)[2]);
        assert(tail =~= seq![c3.last(), c4.last(), c5.last(), mid[0], mid[1], mid[2],
            c7.last(), fin.last()]);
        assert(requests(tail) =~= finish_trace(t, rca));
        assert(fin[c2.len() + 1int] == c4.last());
    } else {
        assert(fin[c5.len() as int] == c6.last());
        assert(tail =~= seq![c3.last(), c4.last(), c5.last(), c6.last(), c7.last(), fin.last()]);
        assert(requests(tail) =~= finish_trace(t, rca));
    }
}

proof fn lemma_never_failed_split(a: Seq<HostCall>, b: Seq<HostCall>)
    ensures
        host_never_failed(a + b) <==> host_never_failed(a) && host_never_failed(b),
{
    if host_never_failed(a + b) {
        assert forall|i: int| 0 <= i < b.len() implies !propagated_failure(#[trigger] b[i]) by {
            assert((a + b)[a.len() + i] == b[i]);
        }
        assert forall|i: int| 0 <= i < a.len() implies !propagated_failure(#[trigger] a[i]) by {
            assert((a + b)[i] == a[i]);
        }
    }
    if host_never_failed(a) && host_never_failed(b) {
        assert forall|i: int| 0 <= i < (a + b).len() implies !propagated_failure(#[trigger] (a + b)[i]) by {
            if i < a.len() {
                assert((a + b)[i] == a[i]);
            } else {
                assert((a + b)[i] == b[i - a.len()]);
            }
        }
    }
}

/// The part of `cur` after its first `n` entries.
pub open spec fn tail_from(cur: Seq<HostCall>, n: int) -> Seq<HostCall> {
    cur.subrange(n, cur.len() as int)
}

proof fn lemma_tail_push(cur: Seq<HostCall>, n: int, x: HostCall)
    requires
        0 <= n <= cur.len(),
    ensures
        tail_from(cur.push(x), n) == tail_from(cur, n).push(x),
{
    assert(tail_from(cur.push(x), n) =~= tail_from(cur, n).push(x));
}

proof fn lemma_tail_split(cur: Seq<HostCall>, mid: Seq<HostCall>, n: int)
    requires
        is_prefix(mid, cur),
        0 <= n <= mid.len(),
    ensures
        tail_from(cur, n) == tail_from(mid, n) + tail_from(cur, mid.len() as int),
{
    assert forall|k: int| 0 <= k < mid.len() implies cur[k] == mid[k] by {
        assert(cur.subrange(0, mid.len() as int)[k] == cur[k]);
    }
    assert(tail_from(cur, n) =~= tail_from(mid, n) + tail_from(cur, mid.len() as int));
}

proof fn lemma_step(cur: Seq<HostCall>, n: int, x: HostCall)
    requires
        0 <= n <= cur.len(),
    ensures
        tail_from(cur.push(x), n) == tail_from(cur, n).push(x),
        host_never_failed(tail_from(cur, n)) && !propagated_failure(x) ==> host_never_failed(
            tail_from(cur.push(x), n),
        ),
        host_never_failed(tail_from(cur, n)) && propagated_failure(x) ==> stopped_by_failure(
            tail_from(cur.push(x), n),
        ),
        propagated_failure(x) ==> !host_never_failed(tail_from(cur.push(x), n)),
        !host_never_failed(tail_from(cur, n)) ==> !host_never_failed(tail_from(cur.push(x), n)),
{
    let t = tail_from(cur, n);
    assert(tail_from(cur.push(x), n) =~= t.push(x));
    assert(t.push(x).drop_last() =~= t);
    assert(t.push(x)[t.len() as int] == x);
    if !host_never_failed(t) {
        let k = choose|k: int| 0 <= k < t.len() && propagated_failure(#[trigger] t[k]);
        assert(t.push(x)[k] == t[k]);
    }
}

proof fn lemma_suffix_kept(a: Seq<u8>, b: Seq<u8>, from: int, to: int)
    requires
        a.len() == b.len(),
        0 <= from <= to <= a.len(),
        a.subrange(from, a.len() as int) == b.subrange(from, b.len() as int),
    ensures
        a.subrange(to, a.len() as int) == b.subrange(to, b.len() as int),
{
    assert forall|k: int| 0 <= k < a.len() - to implies a.subrange(to, a.len() as int)[k] == b.subrange(
        to,
        b.len() as int,
    )[k] by {
        assert(a.subrange(from, a.len() as int)[k + to - from] == b.subrange(from, b.len() as int)[k + to
            - from]);
    }
    assert(a.subrange(to, a.len() as int) =~= b.subrange(to, b.len() as int));
}

proof fn lemma_round_index(a: int, j: int, n: int)
    requires
        0 <= a,
        0 <= j < n,
        n > 0,
    ensures
        (n * a + j) % n == j,
{
    assert((n * a + j) % n == j) by (nonlinear_arith)
        requires
            0 <= a,
            0 <= j < n,
            n > 0,
    ;
}

/// Facts about a polling phase `t` extended by `x` at round position `j`.
proof fn lemma_phase_push(t: Seq<HostCall>, x: HostCall, round: Seq<HostCall>, c: u32, a: int, j: int)
    requires
        0 <= a < 100,
        0 <= j < round.len(),
        t.len() == round.len() * a + j,
        forall|k: int| 0 <= k < t.len() ==> request(#[trigger] t[k]) == round[k % round.len() as int],
        request(x) == round[j],
    ensures
        t.push(x).drop_last() == t,
        t.push(x).last() == x,
        poll_shaped(t.push(x), round),
        not_ready(t, c) && !ready_reply(x, c) ==> not_ready(t.push(x), c),
        host_never_failed(t) && !propagated_failure(x) ==> host_never_failed(t.push(x)),
        host_never_failed(t) && propagated_failure(x) ==> stopped_by_failure(t.push(x)),
{
    let u = t.push(x);
    assert(u.drop_last() =~= t);
    lemma_round_index(a, j, round.len() as int);
    assert(round.len() * a + j < 100 * round.len()) by (nonlinear_arith)
        requires
            0 <= a < 100,
            0 <= j < round.len(),
    ;
    assert forall|k: int| 0 <= k < u.len() implies request(#[trigger] u[k]) == round[k % round.len() as int] by {
        if k < t.len() {
            assert(u[k] == t[k]);
        }
    }
    if not_ready(t, c) && !ready_reply(x, c) {
        assert forall|k: int| 0 <= k < u.len() implies !ready_reply(#[trigger] u[k], c) by {
            if k < t.len() {
                assert(u[k] == t[k]);
            }
        }
    }
    if host_never_failed(t) && !propagated_failure(x) {
        assert forall|k: int| 0 <= k < u.len() implies !propagated_failure(#[trigger] u[k]) by {
            if k < t.len() {
                assert(u[k] == t[k]);
            }
        }
    }
}

proof fn lemma_window(cur: Seq<HostCall>, pre: Seq<HostCall>, base: int, lo: int)
    requires
        is_prefix(pre, cur),
        0 <= base <= lo <= pre.len(),
    ensures
        tail_from(cur, base).subrange(lo - base, pre.len() - base) == tail_from(pre, lo),
{
    assert forall|k: int| 0 <= k < pre.len() implies cur[k] == pre[k] by {
        assert(cur.subrange(0, pre.len() as int)[k] == cur[k]);
    }
    assert(tail_from(cur, base).subrange(lo - base, pre.len() - base) =~= tail_from(pre, lo));
}

proof fn lemma_negotiation_extend(
    cur: Seq<HostCall>,
    ext: Seq<HostCall>,
    base: int,
    m1: int,
    m2: int,
    ok: bool,
    returned: Option<DriverError>,
    recorded: Option<DriverError>,
)
    requires
        is_prefix(cur, ext),
        0 <= base,
        base + m2 <= cur.len(),
        negotiation_in(tail_from(cur, base), m1, m2, ok, returned, recorded),
    ensures
        negotiation_in(tail_from(ext, base), m1, m2, ok, returned, recorded),
{
    let a = tail_from(cur, base);
    let b = tail_from(ext, base);
    assert forall|k: int| 0 <= k < cur.len() implies ext[k] == cur[k] by {
        assert(ext.subrange(0, cur.len() as int)[k] == ext[k]);
    }
    assert(b.subrange(0, 5) =~= a.subrange(0, 5));
    assert(b.subrange(5, m1) =~= a.subrange(5, m1));
    assert(b.subrange(m1, m2) =~= a.subrange(m1, m2));
    assert(b[4] == a[4]);
}

proof fn lemma_stopped_concat(a: Seq<HostCall>, b: Seq<HostCall>)
    requires
        host_never_failed(a),
        stopped_by_failure(b),
    ensures
        stopped_by_failure(a + b),
{
    assert((a + b).drop_last() =~= a + b.drop_last());
    lemma_never_failed_split(a, b.drop_last());
}

proof fn lemma_startup_stop(cur: Seq<HostCall>, base: int, pre: Seq<HostCall>, x: HostCall)
    requires
        0 <= base <= pre.len(),
        cur == pre.push(x),
        host_never_failed(tail_from(pre, base)),
        requests(tail_from(pre, base)) == startup_trace().subrange(0, pre.len() - base),
        pre.len() - base < 5,
        request(x) == startup_trace()[pre.len() - base],
    ensures
        requests(tail_from(cur, base)) == startup_trace().subrange(0, cur.len() - base),
        propagated_failure(x) ==> stopped_by_failure(tail_from(cur, base)),
        !propagated_failure(x) ==> host_never_failed(tail_from(cur, base)),
{
    lemma_step(pre, base, x);
    lemma_requests_push(tail_from(pre, base), x);
    assert(startup_trace().subrange(0, cur.len() - base) =~= startup_trace().subrange(
        0,
        pre.len() - base,
    ).push(startup_trace()[pre.len() - base]));
}

/// The error a result reports, if it is one.
pub open spec fn ret_of<T>(r: DriverResult<T>) -> Option<DriverError> {
    if r is Ok {
        None
    } else {
        err_of(r)
    }
}

/// The recorded host error that goes with a failed result.
pub open spec fn rec_of<T>(r: DriverResult<T>, recorded: Option<DriverError>) -> Option<DriverError> {
    if r is Ok {
        None
    } else {
        recorded
    }
}

proof fn lemma_phase_exclusive(s: Seq<HostCall>, round: Seq<HostCall>, c: u32)
    ensures
        phase_accepted(s, c) ==> !phase_failed(s, c) && !phase_exhausted(s, round, c),
{
    if phase_accepted(s, c) {
        assert(s.last() == s[s.len() - 1]);
    }
}

proof fn lemma_startup_window(base: int, c1: Seq<HostCall>, c2: Seq<HostCall>)
    requires
        0 <= base,
        c1.len() == base + 5,
        is_prefix(c1, c2),
    ensures
        tail_from(c2, base).subrange(0, 5) == tail_from(c1, base),
        tail_from(c2, base)[4] == c1.last(),
{
    lemma_window(c2, c1, base, base);
    assert(tail_from(c2, base).subrange(0, 5)[4] == tail_from(c2, base)[4]);
}

/// Negotiation that ran one ACMD41 polling phase from log `c1` to `c2`.
proof fn lemma_negotiation_one(
    base: int,
    c1: Seq<HostCall>,
    c2: Seq<HostCall>,
    v2: bool,
    r: DriverResult<MmcCardType>,
    recorded: Option<DriverError>,
)
    requires
        0 <= base,
        c1.len() == base + 5,
        is_prefix(c1, c2),
        requests(tail_from(c1, base)) == startup_trace(),
        host_never_failed(tail_from(c1, base)),
        echoes_check_pattern(c1.last()) == v2,
        phase_ended(tail_from(c2, c1.len() as int), sd_round(sd_arg(v2)), cmd::SD_SEND_OP_COND, r, recorded),
        v2 || r is Ok,
    ensures
        negotiation_in(tail_from(c2, base), c2.len() - base, c2.len() - base, r is Ok, ret_of(r), rec_of(r, recorded)),
{
    lemma_startup_window(base, c1, c2);
    lemma_prefix_refl(c2);
    lemma_window(c2, c2, base, c1.len() as int);
    let seg = tail_from(c2, base);
    assert(seg.subrange(5, c2.len() - base) == tail_from(c2, c1.len() as int));
}

/// Negotiation that ran ACMD41 polling from `c1` to `mid` without accepting,
/// then CMD1 polling from `mid` to `c2`.
proof fn lemma_negotiation_two(
    base: int,
    c1: Seq<HostCall>,
    mid: Seq<HostCall>,
    c2: Seq<HostCall>,
    rs: DriverResult<MmcCardType>,
    e1: Option<DriverError>,
    r: DriverResult<MmcCardType>,
    recorded: Option<DriverError>,
)
    requires
        0 <= base,
        c1.len() == base + 5,
        is_prefix(c1, mid),
        is_prefix(mid, c2),
        requests(tail_from(c1, base)) == startup_trace(),
        host_never_failed(tail_from(c1, base)),
        !echoes_check_pattern(c1.last()),
        phase_ended(tail_from(mid, c1.len() as int), sd_round(sd_arg(false)), cmd::SD_SEND_OP_COND, rs, e1),
        rs is Err,
        phase_ended(tail_from(c2, mid.len() as int), emmc_round(), cmd::SEND_OP_COND, r, recorded),
    ensures
        negotiation_in(tail_from(c2, base), mid.len() - base, c2.len() - base, r is Ok, ret_of(r), rec_of(r, recorded)),
{
    lemma_prefix_trans(c1, mid, c2);
    lemma_startup_window(base, c1, c2);
    lemma_window(c2, mid, base, c1.len() as int);
    lemma_prefix_refl(c2);
    lemma_window(c2, c2, base, mid.len() as int);
    lemma_phase_exclusive(tail_from(mid, c1.len() as int), sd_round(sd_arg(false)), cmd::SD_SEND_OP_COND);
}

/// An identification call failed after negotiation accepted a card.
proof fn lemma_finish_failed(
    base: int,
    c2: Seq<HostCall>,
    cur: Seq<HostCall>,
    m1: int,
    m2: int,
    returned: Option<DriverError>,
    recorded: Option<DriverError>,
)
    requires
        0 <= base,
        base + m2 == c2.len(),
        is_prefix(c2, cur),
        negotiation_in(tail_from(c2, base), m1, m2, true, None, None),
        stopped_by_failure(tail_from(cur, c2.len() as int)),
        returned is Some,
        returned == recorded,
    ensures
        init_failed(tail_from(cur, base), returned, recorded),
{
    lemma_negotiation_extend(c2, cur, base, m1, m2, true, None, None);
    lemma_prefix_refl(cur);
    lemma_window(cur, cur, base, c2.len() as int);
    let seg = tail_from(cur, base);
    assert(seg.subrange(m2, seg.len() as int) == tail_from(cur, c2.len() as int));
}

proof fn lemma_stop_count_add(s: Seq<HostCall>, t: Seq<HostCall>)
    ensures
        stop_count(s + t) == stop_count(s) + stop_count(t),
    decreases t.len(),
{
    if t.len() == 0 {
        assert(s + t =~= s);
    } else {
        assert((s + t).drop_last() =~= s + t.drop_last());
        lemma_stop_count_add(s, t.drop_last());
    }
}

proof fn lemma_stop_count_none(s: Seq<HostCall>)
    requires
        forall|i: int|
            0 <= i < s.len() ==> #[trigger] s[i] != command(cmd::STOP_TRANSMISSION, 0, flags_of(MmcResponse::R1b)),
    ensures
        stop_count(s) == 0,
    decreases s.len(),
{
    if s.len() > 0 {
        assert(s.last() == s[s.len() - 1]);
        lemma_stop_count_none(s.drop_last());
    }
}

proof fn lemma_mod_low_bits(n: u64)
    ensures
        (n as int * 512) % 0x1_0000_0000 == (n % 0x80_0000) * 512,
{
    let q = n as int / 0x80_0000;
    let r = n as int % 0x80_0000;
    vstd::arithmetic::div_mod::lemma_fundamental_div_mod(n as int, 0x80_0000);
    assert(n as int * 512 == q * 0x1_0000_0000 + r * 512) by (nonlinear_arith)
        requires
            n as int == 0x80_0000 * q + r,
    ;
    vstd::arithmetic::div_mod::lemma_mod_multiples_vanish(q, r * 512, 0x1_0000_0000);
    vstd::arithmetic::div_mod::lemma_small_mod((r * 512) as nat, 0x1_0000_0000);
}

// ---------------------------------------------------------------------------
// Laws
// ---------------------------------------------------------------------------

/// Every card type that initialization can record reports 512-byte blocks,
/// so a well-formed driver holding card information reports them too.
pub proof fn law_block_size_fixed<H: MmcHostOps>(t: MmcCardType, d: GenericMmcDriver<H>)
    ensures
        card_info_for(t).block_size == 512,
        d.wf() && d.info() is Some ==> d.info()->Some_0.block_size == 512,
{
}

/// A transfer of more than one block ends with exactly one STOP_TRANSMISSION
/// (R1b), after its data phase; a single-block transfer sends none.
pub proof fn law_stop_after_multi_block(t: MmcCardType, start: u64, count: nat)
    requires
        count >= 1,
    ensures
        stop_count(read_trace(t, start, count)) == (if count > 1 { 1nat } else { 0nat }),
        stop_count(write_trace(t, start, count)) == (if count > 1 { 1nat } else { 0nat }),
        count > 1 ==> read_trace(t, start, count).last() == command(
            cmd::STOP_TRANSMISSION,
            0,
            flags_of(MmcResponse::R1b),
        ),
        count > 1 ==> write_trace(t, start, count)[count + 1int] == command(
            cmd::STOP_TRANSMISSION,
            0,
            flags_of(MmcResponse::R1b),
        ),
{
    let stop = command(cmd::STOP_TRANSMISSION, 0, flags_of(MmcResponse::R1b));
    let rd = seq![command(
        if count > 1 { cmd::READ_MULTIPLE_BLOCK } else { cmd::READ_SINGLE_BLOCK },
        addr_arg(t, start),
        transfer_flags(false, count),
    )];
    let wr = seq![command(
        if count > 1 { cmd::WRITE_MULTIPLE_BLOCK } else { cmd::WRITE_SINGLE_BLOCK },
        addr_arg(t, start),
        transfer_flags(true, count),
    )];
    let rdata = read_data_calls(count);
    let wdata = write_data_calls(count);
    let wait = seq![HostCall::WaitReady { timeout_ms: 500, ok: true }];
    reveal_with_fuel(stop_count, 2);
    lemma_stop_count_none(rdata);
    lemma_stop_count_none(wdata);
    assert(rd.drop_last() =~= Seq::<HostCall>::empty());
    assert(wr.drop_last() =~= Seq::<HostCall>::empty());
    assert(wait.drop_last() =~= Seq::<HostCall>::empty());
    assert(stop_count(rd) == 0);
    assert(stop_count(wr) == 0);
    assert(stop_count(wait) == 0);
    if count > 1 {
        assert(stop_trace(count).drop_last() =~= Seq::<HostCall>::empty());
    }
    assert(stop_count(stop_trace(count)) == (if count > 1 { 1nat } else { 0nat }));
    lemma_stop_count_add(rd, rdata);
    lemma_stop_count_add(rd + rdata, stop_trace(count));
    lemma_stop_count_add(wr, wdata);
    lemma_stop_count_add(wr + wdata, stop_trace(count));
    lemma_stop_count_add(wr + wdata + stop_trace(count), wait);
}

// ---------------------------------------------------------------------------
// Executable code
// ---------------------------------------------------------------------------

/// The 32-bit command argument that addresses block `block_index` on a card
/// of type `card_type`: the block index itself on block-addressed cards, its
/// byte offset on byte-addressed ones, in either case truncated to 32 bits.
pub fn addr(card_type: MmcCardType, block_index: u64) -> (r: u32)
    ensures
        r == addr_arg(card_type, block_index),
{
    match card_type {
        MmcCardType::SdHc | MmcCardType::SdXc | MmcCardType::Emmc => {
            let r = block_index as u32;
            assert((block_index % 0x1_0000_0000) as u32 == block_index as u32) by (bit_vector);
            r
        },
        _ => {
            let low = (block_index % 0x80_0000) as u32;
            proof {
                lemma_mod_low_bits(block_index);
            }
            low * BLOCK_SIZE
        },
    }
}

/// Flags of a command with the given response and no data phase.
fn flags(response: MmcResponse) -> (r: MmcCmdFlags)
    ensures
        r == flags_of(response),
{
    MmcCmdFlags { response, data: false, write: false, multi_block: false }
}

/// Placeholder capacity for a card type; the CSD register is not decoded.
fn get_capacity(card_type: MmcCardType) -> (r: u64)
    ensures
        r == capacity_of(card_type),
{
    match card_type {
        MmcCardType::Sd => 2 * 1024 * 1024 * 1024,
        MmcCardType::SdHc => 32 * 1024 * 1024 * 1024,
        MmcCardType::SdXc => 64 * 1024 * 1024 * 1024,
        MmcCardType::Emmc => 16 * 1024 * 1024 * 1024,
        MmcCardType::Mmc => 512 * 1024 * 1024,
    }
}

/// The `len` bytes of `buffer` that start at `offset`, borrowed mutably.
fn block_mut(buffer: &mut [u8], offset: usize, len: usize) -> (r: &mut [u8])
    requires
        offset + len <= old(buffer)@.len(),
    ensures
        r@ == old(buffer)@.subrange(offset as int, offset + len),
        final(buffer)@ == old(buffer)@.subrange(0, offset as int) + final(r)@ + old(buffer)@.subrange(
            offset + len,
            old(buffer)@.len() as int,
        ),
{
    let (head, rest) = buffer.split_at_mut(offset);
    let (chunk, tail) = rest.split_at_mut(len);
    assert(head@ == old(buffer)@.subrange(0, offset as int));
    chunk
}

/// Generic MMC driver over host operations `H`.
pub struct GenericMmcDriver<H: MmcHostOps> {
    host: H,
    card_info: Option<MmcCardInfo>,
    rca: u16,
    calls: Ghost<Seq<HostCall>>,
    error: Ghost<Option<DriverError>>,
}

impl<H: MmcHostOps> GenericMmcDriver<H> {
    /// The stored card information.
    pub closed spec fn info(&self) -> Option<MmcCardInfo> {
        self.card_info
    }

    /// The relative card address assigned during identification.
    pub closed spec fn spec_rca(&self) -> u16 {
        self.rca
    }

    /// Every request made of the host so far.
    pub closed spec fn calls(&self) -> Seq<HostCall> {
        self.calls@
    }

    /// The stored card information, if any, is what initialization records
    /// for its card type; in particular its block size is 512.
    pub open spec fn wf(&self) -> bool {
        self.info() matches Some(i) ==> i == card_info_for(i.card_type)
    }

    /// The error of the most recent host call that failed.
    pub closed spec fn host_error(&self) -> Option<DriverError> {
        self.error@
    }

    /// A driver with no card information.
    pub fn new(host: H) -> (r: Self)
        ensures
            r.wf(),
            r.info() is None,
            r.spec_rca() == 0,
            r.calls() == Seq::<HostCall>::empty(),
    {
        GenericMmcDriver { host, card_info: None, rca: 0, calls: Ghost(Seq::empty()), error: Ghost(None) }
    }

    /// The relative card address.
    pub fn rca(&self) -> (r: u16)
        ensures
            r == self.spec_rca(),
    {
        self.rca
    }

    fn send(&mut self, cmd: u32, arg: u32, flags: MmcCmdFlags) -> (r: DriverResult<u32>)
        ensures
            r matches Err(e) ==> final(self).host_error() == Some(e),
            r is Ok ==> final(self).host_error() == old(self).host_error(),
            final(self).calls() == old(self).calls().push(answered(cmd, arg, flags, r)),
            final(self).info() == old(self).info(),
            final(self).spec_rca() == old(self).spec_rca(),
    {
        let r = self.host.send_cmd(cmd, arg, flags);
        self.calls = Ghost(self.calls@.push(answered(cmd, arg, flags, r)));
        self.error = Ghost(if r is Err { Some(r->Err_0) } else { self.error@ });
        r
    }

    fn set_bus_width(&mut self, width: MmcBusWidth) -> (r: DriverResult<()>)
        ensures
            r matches Err(e) ==> final(self).host_error() == Some(e),
            r is Ok ==> final(self).host_error() == old(self).host_error(),
            final(self).calls() == old(self).calls().push(HostCall::SetBusWidth { width, ok: r is Ok }),
            final(self).info() == old(self).info(),
            final(self).spec_rca() == old(self).spec_rca(),
    {
        let r = self.host.set_bus_width(width);
        self.calls = Ghost(self.calls@.push(HostCall::SetBusWidth { width, ok: r is Ok }));
        self.error = Ghost(if r is Err { Some(r->Err_0) } else { self.error@ });
        r
    }

    fn set_clock(&mut self, freq_hz: u32) -> (r: DriverResult<()>)
        ensures
            r matches Err(e) ==> final(self).host_error() == Some(e),
            r is Ok ==> final(self).host_error() == old(self).host_error(),
            final(self).calls() == old(self).calls().push(HostCall::SetClock { freq_hz, ok: r is Ok }),
            final(self).info() == old(self).info(),
            final(self).spec_rca() == old(self).spec_rca(),
    {
        let r = self.host.set_clock(freq_hz);
        self.calls = Ghost(self.calls@.push(HostCall::SetClock { freq_hz, ok: r is Ok }));
        self.error = Ghost(if r is Err { Some(r->Err_0) } else { self.error@ });
        r
    }

    fn wait_ready(&mut self, timeout_ms: u32) -> (r: DriverResult<()>)
        ensures
            r matches Err(e) ==> final(self).host_error() == Some(e),
            r is Ok ==> final(self).host_error() == old(self).host_error(),
            final(self).calls() == old(self).calls().push(HostCall::WaitReady { timeout_ms, ok: r is Ok }),
            final(self).info() == old(self).info(),
            final(self).spec_rca() == old(self).spec_rca(),
    {
        let r = self.host.wait_ready(timeout_ms);
        self.calls = Ghost(self.calls@.push(HostCall::WaitReady { timeout_ms, ok: r is Ok }));
        self.error = Ghost(if r is Err { Some(r->Err_0) } else { self.error@ });
        r
    }

    fn detect(&mut self) -> (r: bool)
        ensures
            final(self).host_error() == old(self).host_error(),
            final(self).calls() == old(self).calls().push(HostCall::CardDetect { present: r }),
            final(self).info() == old(self).info(),
            final(self).spec_rca() == old(self).spec_rca(),
    {
        let r = self.host.card_detect();
        self.calls = Ghost(self.calls@.push(HostCall::CardDetect { present: r }));
        r
    }
}


impl<H: MmcHostOps> GenericMmcDriver<H> {
    /// Read one block into bytes `offset .. offset + 512` of `buffer`.
    fn read_block(&mut self, buffer: &mut [u8], offset: usize) -> (r: DriverResult<()>)
        requires
            offset + 512 <= old(buffer)@.len(),
        ensures
            r matches Err(e) ==> final(self).host_error() == Some(e),
            r is Ok ==> final(self).host_error() == old(self).host_error(),
            final(self).calls() == old(self).calls().push(
                HostCall::ReadData { offset, block_size: BLOCK_SIZE, ok: r is Ok },
            ),
            final(self).info() == old(self).info(),
            final(self).spec_rca() == old(self).spec_rca(),
            final(buffer)@.len() == old(buffer)@.len(),
            final(buffer)@.subrange(0, offset as int) == old(buffer)@.subrange(0, offset as int),
            final(buffer)@.subrange(offset + 512, old(buffer)@.len() as int) == old(buffer)@.subrange(
                offset + 512,
                old(buffer)@.len() as int,
            ),
    {
        let chunk = block_mut(buffer, offset, 512);
        let r = self.host.read_data(chunk, BLOCK_SIZE);
        self.calls = Ghost(self.calls@.push(HostCall::ReadData { offset, block_size: BLOCK_SIZE, ok: r is Ok }));
        self.error = Ghost(if r is Err { Some(r->Err_0) } else { self.error@ });
        r
    }

    /// Write bytes `offset .. offset + 512` of `data` as one block.
    fn write_block(&mut self, data: &[u8], offset: usize) -> (r: DriverResult<()>)
        requires
            offset + 512 <= data@.len(),
        ensures
            r matches Err(e) ==> final(self).host_error() == Some(e),
            r is Ok ==> final(self).host_error() == old(self).host_error(),
            final(self).calls() == old(self).calls().push(
                HostCall::WriteData { offset, block_size: BLOCK_SIZE, ok: r is Ok },
            ),
            final(self).info() == old(self).info(),
            final(self).spec_rca() == old(self).spec_rca(),
    {
        let n = data.len();
        assert(offset + 512 <= n);
        let chunk = vstd::slice::slice_subrange(data, offset, offset + 512);
        let r = self.host.write_data(chunk, BLOCK_SIZE);
        self.calls = Ghost(self.calls@.push(HostCall::WriteData { offset, block_size: BLOCK_SIZE, ok: r is Ok }));
        self.error = Ghost(if r is Err { Some(r->Err_0) } else { self.error@ });
        r
    }

    /// CMD0: reset the card to idle state.
    fn go_idle(&mut self) -> (r: DriverResult<()>)
        ensures
            r is Ok ==> !propagated_failure(final(self).calls().last()),
            r matches Err(e) ==> final(self).host_error() == Some(e),
            r is Err ==> propagated_failure(final(self).calls().last()),
            final(self).calls() == old(self).calls().push(final(self).calls().last()),
            request(final(self).calls().last()) == command(
                cmd::GO_IDLE_STATE,
                0,
                flags_of(MmcResponse::NoResponse),
            ),
            final(self).info() == old(self).info(),
            final(self).spec_rca() == old(self).spec_rca(),
    {
        match self.send(cmd::GO_IDLE_STATE, 0, flags(MmcResponse::NoResponse)) {
            Ok(_) => Ok(()),
            Err(e) => Err(e),
        }
    }

    /// CMD8: an SD v2 card echoes the check pattern; a failed command means
    /// the card is not SD v2, which is no error.
    fn check_sd_card(&mut self) -> (r: DriverResult<bool>)
        ensures
            final(self).calls() == old(self).calls().push(final(self).calls().last()),
            request(final(self).calls().last()) == command(
                cmd::SEND_IF_COND,
                IF_COND_ARG,
                flags_of(MmcResponse::R7),
            ),
            r == Ok::<bool, DriverError>(echoes_check_pattern(final(self).calls().last())),
            final(self).info() == old(self).info(),
            final(self).spec_rca() == old(self).spec_rca(),
    {
        match self.send(cmd::SEND_IF_COND, IF_COND_ARG, flags(MmcResponse::R7)) {
            Ok(resp) => Ok((resp & 0xFF) == 0xAA),
            Err(_) => Ok(false),
        }
    }

    /// ACMD41 polling: up to 100 rounds of APP_CMD, ACMD41 and a 10 ms wait,
    /// until the OCR reports power-up complete.
    fn init_sd_card(&mut self, is_sdhc: bool) -> (r: DriverResult<MmcCardType>)
        ensures
            is_prefix(old(self).calls(), final(self).calls()),
            phase_ended(
                tail_from(final(self).calls(), old(self).calls().len() as int),
                sd_round(if is_sdhc { SD_OCR_HCS } else { SD_OCR_NO_HCS }),
                cmd::SD_SEND_OP_COND,
                r,
                final(self).host_error(),
            ),
            r matches Ok(t) ==> accepts(final(self).calls().last(), t, is_sdhc),
            final(self).info() == old(self).info(),
            final(self).spec_rca() == old(self).spec_rca(),
    {
        let arg: u32 = if is_sdhc { SD_OCR_HCS } else { SD_OCR_NO_HCS };
        let ghost start = self.calls@;
        let ghost n0 = start.len() as int;
        let ghost round = sd_round(arg);
        let mut attempt: u32 = 0;
        let mut outcome: Option<DriverResult<MmcCardType>> = None;
        proof {
            lemma_prefix_refl(start);
            assert(tail_from(start, n0) =~= Seq::<HostCall>::empty());
        }
        while attempt < OCR_POLL_LIMIT && outcome.is_none()
            invariant
                is_prefix(start, self.calls@),
                start == old(self).calls(),
                n0 == start.len(),
                round == sd_round(arg),
                self.info() == old(self).info(),
                self.spec_rca() == old(self).spec_rca(),
                arg == (if is_sdhc { SD_OCR_HCS } else { SD_OCR_NO_HCS }),
                attempt <= OCR_POLL_LIMIT,
                poll_shaped(tail_from(self.calls@, n0), round),
                outcome is None ==> tail_from(self.calls@, n0).len() == 3 * attempt && host_never_failed(
                    tail_from(self.calls@, n0),
                ) && not_ready(tail_from(self.calls@, n0), cmd::SD_SEND_OP_COND),
                outcome matches Some(Ok(t)) ==> phase_accepted(tail_from(self.calls@, n0), cmd::SD_SEND_OP_COND)
                    && accepts(self.calls@.last(), t, is_sdhc),
                outcome matches Some(Err(e)) ==> phase_failed(tail_from(self.calls@, n0), cmd::SD_SEND_OP_COND)
                    && self.host_error() == Some(e),
            decreases OCR_POLL_LIMIT - attempt + (if outcome is None { 1int } else { 0int }),
        {
            let ghost c0 = self.calls@;
            let app = self.send(cmd::APP_CMD, 0, flags(MmcResponse::R1));
            let ghost c1 = self.calls@;
            proof {
                lemma_prefix_push(start, c0, c1.last());
                lemma_tail_push(c0, n0, c1.last());
                lemma_phase_push(tail_from(c0, n0), c1.last(), round, cmd::SD_SEND_OP_COND, attempt as int, 0);
            }
            match app {
                Err(e) => {
                    outcome = Some(Err(e));
                },
                Ok(_) => {
                    let ocr_reply = self.send(cmd::SD_SEND_OP_COND, arg, flags(MmcResponse::R3));
                    let ghost c2 = self.calls@;
                    proof {
                        lemma_prefix_push(start, c1, c2.last());
                        lemma_tail_push(c1, n0, c2.last());
                        lemma_phase_push(tail_from(c1, n0), c2.last(), round, cmd::SD_SEND_OP_COND, attempt as int, 1);
                    }
                    match ocr_reply {
                        Err(e) => {
                            outcome = Some(Err(e));
                        },
                        Ok(ocr) => {
                            if (ocr & 0x8000_0000) != 0 {
                                let card_type = if (ocr & 0x4000_0000) != 0 {
                                    MmcCardType::SdHc
                                } else {
                                    MmcCardType::Sd
                                };
                                outcome = Some(Ok(card_type));
                            } else {
                                let waited = self.wait_ready(10);
                                proof {
                                    let c3 = self.calls@;
                                    lemma_prefix_push(start, c2, c3.last());
                                    lemma_tail_push(c2, n0, c3.last());
                                    lemma_phase_push(tail_from(c2, n0), c3.last(), round, cmd::SD_SEND_OP_COND, attempt as int, 2);
                                }
                                match waited {
                                    Err(e) => {
                                        outcome = Some(Err(e));
                                    },
                                    Ok(_) => {
                                        attempt = attempt + 1;
                                    },
                                }
                            }
                        },
                    }
                },
            }
        }
        match outcome {
            Some(o) => o,
            None => Err(DriverError::Timeout),
        }
    }

    /// CMD1 polling for eMMC, with the same retry budget as ACMD41.
    fn init_emmc(&mut self) -> (r: DriverResult<MmcCardType>)
        ensures
            is_prefix(old(self).calls(), final(self).calls()),
            phase_ended(
                tail_from(final(self).calls(), old(self).calls().len() as int),
                emmc_round(),
                cmd::SEND_OP_COND,
                r,
                final(self).host_error(),
            ),
            r matches Ok(t) ==> accepts(final(self).calls().last(), t, false),
            final(self).info() == old(self).info(),
            final(self).spec_rca() == old(self).spec_rca(),
    {
        let ghost start = self.calls@;
        let ghost n0 = start.len() as int;
        let ghost round = emmc_round();
        let mut attempt: u32 = 0;
        let mut outcome: Option<DriverResult<MmcCardType>> = None;
        proof {
            lemma_prefix_refl(start);
            assert(tail_from(start, n0) =~= Seq::<HostCall>::empty());
        }
        while attempt < OCR_POLL_LIMIT && outcome.is_none()
            invariant
                is_prefix(start, self.calls@),
                start == old(self).calls(),
                n0 == start.len(),
                round == emmc_round(),
                self.info() == old(self).info(),
                self.spec_rca() == old(self).spec_rca(),
                attempt <= OCR_POLL_LIMIT,
                poll_shaped(tail_from(self.calls@, n0), round),
                outcome is None ==> tail_from(self.calls@, n0).len() == 2 * attempt && host_never_failed(
                    tail_from(self.calls@, n0),
                ) && not_ready(tail_from(self.calls@, n0), cmd::SEND_OP_COND),
                outcome matches Some(Ok(t)) ==> phase_accepted(tail_from(self.calls@, n0), cmd::SEND_OP_COND)
                    && accepts(self.calls@.last(), t, false),
                outcome matches Some(Err(e)) ==> phase_failed(tail_from(self.calls@, n0), cmd::SEND_OP_COND)
                    && self.host_error() == Some(e),
            decreases OCR_POLL_LIMIT - attempt + (if outcome is None { 1int } else { 0int }),
        {
            let ghost c0 = self.calls@;
            let ocr_reply = self.send(cmd::SEND_OP_COND, EMMC_OCR, flags(MmcResponse::R3));
            let ghost c1 = self.calls@;
            proof {
                lemma_prefix_push(start, c0, c1.last());
                lemma_tail_push(c0, n0, c1.last());
                lemma_phase_push(tail_from(c0, n0), c1.last(), round, cmd::SEND_OP_COND, attempt as int, 0);
            }
            match ocr_reply {
                Err(e) => {
                    outcome = Some(Err(e));
                },
                Ok(ocr) => {
                    if (ocr & 0x8000_0000) != 0 {
                        outcome = Some(Ok(MmcCardType::Emmc));
                    } else {
                        let waited = self.wait_ready(10);
                        proof {
                            let c2 = self.calls@;
                            lemma_prefix_push(start, c1, c2.last());
                            lemma_tail_push(c1, n0, c2.last());
                            lemma_phase_push(tail_from(c1, n0), c2.last(), round, cmd::SEND_OP_COND, attempt as int, 1);
                        }
                        match waited {
                            Err(e) => {
                                outcome = Some(Err(e));
                            },
                            Ok(_) => {
                                attempt = attempt + 1;
                            },
                        }
                    }
                },
            }
        }
        match outcome {
            Some(o) => o,
            None => Err(DriverError::Timeout),
        }
    }

    /// CMD2: ask for the card identification. The 128-bit response is not
    /// decoded: the CID returned is all zeros.
    fn get_cid(&mut self) -> (r: DriverResult<[u32; 4]>)
        ensures
            r is Ok ==> !propagated_failure(final(self).calls().last()),
            r matches Err(e) ==> final(self).host_error() == Some(e),
            r is Err ==> propagated_failure(final(self).calls().last()),
            final(self).calls() == old(self).calls().push(final(self).calls().last()),
            request(final(self).calls().last()) == command(
                cmd::ALL_SEND_CID,
                0,
                flags_of(MmcResponse::R2),
            ),
            final(self).info() == old(self).info(),
            final(self).spec_rca() == old(self).spec_rca(),
    {
        match self.send(cmd::ALL_SEND_CID, 0, flags(MmcResponse::R2)) {
            Ok(_) => Ok([0u32; 4]),
            Err(e) => Err(e),
        }
    }

    /// CMD3: an SD card publishes its RCA in the upper 16 bits of the
    /// response; an eMMC is assigned RCA 1.
    fn get_rca(&mut self, is_sd: bool) -> (r: DriverResult<u16>)
        ensures
            r is Ok ==> !propagated_failure(final(self).calls().last()),
            r matches Err(e) ==> final(self).host_error() == Some(e),
            r is Err ==> propagated_failure(final(self).calls().last()),
            final(self).calls() == old(self).calls().push(final(self).calls().last()),
            is_sd ==> request(final(self).calls().last()) == command(
                cmd::SET_RELATIVE_ADDR,
                0,
                flags_of(MmcResponse::R6),
            ),
            !is_sd ==> request(final(self).calls().last()) == command(
                cmd::SET_RELATIVE_ADDR,
                rca_arg(1),
                flags_of(MmcResponse::R1),
            ),
            is_sd ==> (r matches Ok(rca) ==> published_rca(final(self).calls().last(), rca)),
            !is_sd ==> (r matches Ok(rca) ==> rca == 1),
            final(self).info() == old(self).info(),
            final(self).spec_rca() == old(self).spec_rca(),
    {
        if is_sd {
            match self.send(cmd::SET_RELATIVE_ADDR, 0, flags(MmcResponse::R6)) {
                Ok(resp) => Ok((resp >> 16) as u16),
                Err(e) => Err(e),
            }
        } else {
            let rca: u16 = 1;
            match self.send(cmd::SET_RELATIVE_ADDR, (rca as u32) * 0x10000, flags(MmcResponse::R1)) {
                Ok(_) => Ok(rca),
                Err(e) => Err(e),
            }
        }
    }

    /// CMD7: select the card at the current RCA.
    fn select_card(&mut self) -> (r: DriverResult<()>)
        ensures
            r is Ok ==> !propagated_failure(final(self).calls().last()),
            r matches Err(e) ==> final(self).host_error() == Some(e),
            r is Err ==> propagated_failure(final(self).calls().last()),
            final(self).calls() == old(self).calls().push(final(self).calls().last()),
            request(final(self).calls().last()) == command(
                cmd::SELECT_CARD,
                rca_arg(old(self).spec_rca()),
                flags_of(MmcResponse::R1b),
            ),
            final(self).info() == old(self).info(),
            final(self).spec_rca() == old(self).spec_rca(),
    {
        match self.send(cmd::SELECT_CARD, (self.rca as u32) * 0x10000, flags(MmcResponse::R1b)) {
            Ok(_) => Ok(()),
            Err(e) => Err(e),
        }
    }

    /// APP_CMD then ACMD6 with argument 2, then a 4-bit host bus.
    fn set_sd_bus_width(&mut self) -> (r: DriverResult<()>)
        ensures
            is_prefix(old(self).calls(), final(self).calls()),
            r is Ok ==> host_never_failed(tail_from(final(self).calls(), old(self).calls().len() as int)),
            r matches Err(e) ==> stopped_by_failure(tail_from(final(self).calls(), old(self).calls().len() as int))
                && final(self).host_error() == Some(e),
            r is Ok ==> requests(tail_from(final(self).calls(), old(self).calls().len() as int)) == seq![
                command(cmd::APP_CMD, rca_arg(old(self).spec_rca()), flags_of(MmcResponse::R1)),
                command(cmd::SD_SET_BUS_WIDTH, 2, flags_of(MmcResponse::R1)),
                HostCall::SetBusWidth { width: MmcBusWidth::Width4, ok: true },
            ],
            final(self).info() == old(self).info(),
            final(self).spec_rca() == old(self).spec_rca(),
    {
        let ghost c0 = self.calls@;
        let ghost n = c0.len() as int;
        proof {
            lemma_prefix_refl(c0);
            assert(tail_from(c0, n) =~= Seq::<HostCall>::empty());
        }
        let first = self.send(cmd::APP_CMD, (self.rca as u32) * 0x10000, flags(MmcResponse::R1));
        let ghost c1 = self.calls@;
        proof {
            lemma_step(c0, n, c1.last());
            lemma_prefix_push(c0, c0, c1.last());
        }
        if let Err(e) = first {
            return Err(e);
        }
        let second = self.send(cmd::SD_SET_BUS_WIDTH, 2, flags(MmcResponse::R1));
        let ghost c2 = self.calls@;
        proof {
            lemma_step(c1, n, c2.last());
            lemma_prefix_push(c0, c1, c2.last());
        }
        if let Err(e) = second {
            return Err(e);
        }
        let r = self.set_bus_width(MmcBusWidth::Width4);
        proof {
            lemma_step(c2, n, self.calls@.last());
            lemma_prefix_push(c0, c2, self.calls@.last());
            let seg = tail_from(self.calls@, n);
            assert(seg =~= seq![c1.last(), c2.last(), self.calls@.last()]);
            assert(requests(seg) =~= seq![request(c1.last()), request(c2.last()), request(self.calls@.last())]);
        }
        r
    }

    /// CMD16: set the block length.
    fn set_block_length(&mut self, len: u32) -> (r: DriverResult<()>)
        ensures
            r is Ok ==> !propagated_failure(final(self).calls().last()),
            r matches Err(e) ==> final(self).host_error() == Some(e),
            r is Err ==> propagated_failure(final(self).calls().last()),
            final(self).calls() == old(self).calls().push(final(self).calls().last()),
            request(final(self).calls().last()) == command(
                cmd::SET_BLOCKLEN,
                len,
                flags_of(MmcResponse::R1),
            ),
            final(self).info() == old(self).info(),
            final(self).spec_rca() == old(self).spec_rca(),
    {
        match self.send(cmd::SET_BLOCKLEN, len, flags(MmcResponse::R1)) {
            Ok(_) => Ok(()),
            Err(e) => Err(e),
        }
    }
}


impl<H: MmcHostOps> GenericMmcDriver<H> {
    /// Initialize the card: presence check, slow clock and 1-bit bus, CMD0,
    /// CMD8 probe, OCR negotiation (SD v2 with HCS; else SD v1, then eMMC),
    /// identification, address assignment, selection, bus width, block
    /// length and clock ramp. Any host error ends it; a failed call leaves
    /// no card information behind and returns the failed call's error; a
    /// card that never reports ready ends it with `Timeout` after 100 OCR
    /// polls on each path tried.
    pub fn init(&mut self) -> (r: DriverResult<()>)
        ensures
            final(self).wf(),
            final(self).calls().len() > old(self).calls().len(),
            is_prefix(old(self).calls(), final(self).calls()),
            ({
                let seg = final(self).calls().subrange(
                    old(self).calls().len() as int,
                    final(self).calls().len() as int,
                );
                &&& seg[0] is CardDetect
                &&& seg[0] == HostCall::CardDetect { present: false } ==> (r matches Err(
                    DriverError::NotFound,
                ) && seg.len() == 1)
                &&& r is Err ==> final(self).info() is None
                &&& seg[0] == HostCall::CardDetect { present: true } && r is Err ==> init_failed(
                    seg,
                    err_of(r),
                    final(self).host_error(),
                )
                &&& r is Ok ==> (final(self).info() matches Some(i) && i == card_info_for(i.card_type)
                    && init_succeeded(seg, i.card_type, final(self).spec_rca()))
            }),
    {
        let ghost c0 = self.calls@;
        self.card_info = None;
        let present = self.detect();
        if !present {
            assert(self.calls@.subrange(0, c0.len() as int) =~= c0);
            assert(self.calls@.subrange(c0.len() as int, self.calls@.len() as int) =~= seq![
                HostCall::CardDetect { present: false },
            ]);
            return Err(DriverError::NotFound);
        }
        let ghost c1 = self.calls@;
        let r = self.init_sequence();
        proof {
            lemma_prefix_refl(c0);
            lemma_prefix_push(c0, c0, c1.last());
            lemma_prefix_trans(c0, c1, self.calls@);
            let seg = self.calls@.subrange(c0.len() as int, self.calls@.len() as int);
            assert(self.calls@[c0.len() as int] == c1[c0.len() as int]);
            assert(seg[0] == self.calls@[c0.len() as int]);
        }
        r
    }

    /// Everything of initialization after the presence check succeeded.
    #[verifier::rlimit(60)]
    fn init_sequence(&mut self) -> (r: DriverResult<()>)
        requires
            old(self).info() is None,
            old(self).calls().len() > 0,
            old(self).calls().last() == (HostCall::CardDetect { present: true }),
        ensures
            is_prefix(old(self).calls(), final(self).calls()),
            r is Err ==> final(self).info() is None,
            r is Err ==> init_failed(
                tail_from(final(self).calls(), old(self).calls().len() - 1),
                err_of(r),
                final(self).host_error(),
            ),
            r is Ok ==> (final(self).info() matches Some(i) && i == card_info_for(i.card_type)
                && init_succeeded(
                tail_from(final(self).calls(), old(self).calls().len() - 1),
                i.card_type,
                final(self).spec_rca(),
            )),
    {
        let ghost c0 = self.calls@;
        let ghost base = c0.len() - 1;
        proof {
            lemma_prefix_refl(c0);
            assert(tail_from(c0, base) =~= seq![HostCall::CardDetect { present: true }]);
            assert(requests(tail_from(c0, base)) =~= startup_trace().subrange(0, 1));
        }
        let r1 = self.set_clock(400_000);
        let ghost s1 = self.calls@;
        proof {
            lemma_prefix_push(c0, c0, s1.last());
            lemma_startup_stop(s1, base, c0, s1.last());
        }
        if let Err(e) = r1 {
            return Err(e);
        }
        let r2 = self.set_bus_width(MmcBusWidth::Width1);
        let ghost s2 = self.calls@;
        proof {
            lemma_prefix_push(c0, s1, s2.last());
            lemma_startup_stop(s2, base, s1, s2.last());
        }
        if let Err(e) = r2 {
            return Err(e);
        }
        let r3 = self.go_idle();
        let ghost s3 = self.calls@;
        proof {
            lemma_prefix_push(c0, s2, s3.last());
            lemma_startup_stop(s3, base, s2, s3.last());
        }
        if let Err(e) = r3 {
            return Err(e);
        }
        let is_sd_v2 = match self.check_sd_card() {
            Ok(v) => v,
            Err(e) => {
                return Err(e);
            },
        };
        let ghost c1 = self.calls@;
        proof {
            lemma_prefix_push(c0, s3, c1.last());
            lemma_startup_stop(c1, base, s3, c1.last());
            assert(startup_trace().subrange(0, 5) =~= startup_trace());
        }
        let mut negotiated: DriverResult<MmcCardType> = Err(DriverError::Timeout);
        let ghost mut mid = c1;
        if is_sd_v2 {
            negotiated = self.init_sd_card(true);
            proof {
                mid = self.calls@;
                lemma_prefix_refl(self.calls@);
                lemma_negotiation_one(base, c1, self.calls@, true, negotiated, self.host_error());
            }
        } else {
            let sd = self.init_sd_card(false);
            let ghost e1 = self.host_error();
            proof {
                mid = self.calls@;
            }
            match sd {
                Ok(t) => {
                    negotiated = Ok(t);
                    proof {
                        lemma_prefix_refl(self.calls@);
                        lemma_negotiation_one(base, c1, self.calls@, false, sd, e1);
                    }
                },
                Err(_) => {
                    negotiated = self.init_emmc();
                    proof {
                        lemma_negotiation_two(base, c1, mid, self.calls@, sd, e1, negotiated, self.host_error());
                    }
                },
            }
        }
        let ghost c2 = self.calls@;
        let ghost m1 = mid.len() - base;
        let ghost m2 = c2.len() - base;
        proof {
            lemma_prefix_trans(c1, mid, c2);
            lemma_prefix_trans(c0, c1, c2);
            assert(negotiation_in(tail_from(c2, base), m1, m2, negotiated is Ok, ret_of(negotiated), rec_of(negotiated, self.host_error())));
        }
        let card_type = match negotiated {
            Ok(t) => t,
            Err(e) => {
                return Err(e);
            },
        };
        proof {
            assert(tail_from(c2, c2.len() as int) =~= Seq::<HostCall>::empty());
            lemma_prefix_refl(c2);
        }
        let r4 = self.get_cid();
        let ghost c3 = self.calls@;
        proof {
            lemma_prefix_push(c0, c2, c3.last());
            lemma_prefix_push(c2, c2, c3.last());
            lemma_step(c2, c2.len() as int, c3.last());
        }
        if let Err(e) = r4 {
            proof {
                lemma_finish_failed(base, c2, self.calls@, m1, m2, Some(e), self.host_error());
            }
            return Err(e);
        }
        let is_sd = match card_type {
            MmcCardType::Sd | MmcCardType::SdHc | MmcCardType::SdXc => true,
            _ => false,
        };
        let r5 = self.get_rca(is_sd);
        let ghost c4 = self.calls@;
        proof {
            lemma_prefix_push(c0, c3, c4.last());
            lemma_prefix_push(c2, c3, c4.last());
            lemma_step(c3, c2.len() as int, c4.last());
        }
        match r5 {
            Ok(rca) => {
                self.rca = rca;
            },
            Err(e) => {
                proof {
                    lemma_finish_failed(base, c2, self.calls@, m1, m2, Some(e), self.host_error());
                }
                return Err(e);
            },
        }
        let r6 = self.select_card();
        let ghost c5 = self.calls@;
        proof {
            lemma_prefix_push(c0, c4, c5.last());
            lemma_step(c4, c2.len() as int, c5.last());
            lemma_prefix_push(c2, c4, c5.last());
        }
        if let Err(e) = r6 {
            proof {
                lemma_finish_failed(base, c2, self.calls@, m1, m2, Some(e), self.host_error());
            }
            return Err(e);
        }
        let bus_width = if is_sd {
            let rb = self.set_sd_bus_width();
            proof {
                lemma_prefix_trans(c0, c5, self.calls@);
                lemma_prefix_trans(c2, c5, self.calls@);
                lemma_tail_split(self.calls@, c5, c2.len() as int);
                lemma_never_failed_split(tail_from(c5, c2.len() as int), tail_from(self.calls@, c5.len() as int));
                if rb is Err {
                    lemma_stopped_concat(tail_from(c5, c2.len() as int), tail_from(self.calls@, c5.len() as int));
                }
            }
            if let Err(e) = rb {
                proof {
                    lemma_finish_failed(base, c2, self.calls@, m1, m2, Some(e), self.host_error());
                }
                return Err(e);
            }
            MmcBusWidth::Width4
        } else {
            let rb = self.set_bus_width(MmcBusWidth::Width8);
            proof {
                lemma_prefix_push(c0, c5, self.calls@.last());
                lemma_prefix_push(c2, c5, self.calls@.last());
                lemma_step(c5, c2.len() as int, self.calls@.last());
            }
            if let Err(e) = rb {
                proof {
                    lemma_finish_failed(base, c2, self.calls@, m1, m2, Some(e), self.host_error());
                }
                return Err(e);
            }
            MmcBusWidth::Width8
        };
        let ghost c6 = self.calls@;
        let r7 = self.set_block_length(BLOCK_SIZE);
        let ghost c7 = self.calls@;
        proof {
            lemma_prefix_push(c0, c6, c7.last());
            lemma_prefix_push(c2, c6, c7.last());
            lemma_step(c6, c2.len() as int, c7.last());
        }
        if let Err(e) = r7 {
            proof {
                lemma_finish_failed(base, c2, self.calls@, m1, m2, Some(e), self.host_error());
            }
            return Err(e);
        }
        let max_freq: u32 = match card_type {
            MmcCardType::SdHc | MmcCardType::SdXc => 50_000_000,
            MmcCardType::Emmc => 52_000_000,
            _ => 25_000_000,
        };
        let r8 = self.set_clock(max_freq);
        let ghost fin = self.calls@;
        proof {
            lemma_prefix_push(c0, c7, fin.last());
            lemma_prefix_push(c2, c7, fin.last());
            lemma_step(c7, c2.len() as int, fin.last());
        }
        if let Err(e) = r8 {
            proof {
                lemma_finish_failed(base, c2, self.calls@, m1, m2, Some(e), self.host_error());
            }
            return Err(e);
        }
        self.card_info = Some(
            MmcCardInfo {
                card_type,
                capacity_bytes: get_capacity(card_type),
                block_size: BLOCK_SIZE,
                bus_width,
                max_frequency: max_freq,
            },
        );
        proof {
            lemma_finish_log(c2, c3, c4, c5, c6, c7, fin, card_type, self.rca);
            lemma_negotiation_extend(c2, fin, base, m1, m2, true, None, None);
            lemma_prefix_refl(fin);
            lemma_window(fin, fin, base, c2.len() as int);
            let seg = tail_from(fin, base);
            assert(seg[m2 - 1] == c2.last()) by {
                lemma_window(fin, c2, base, base);
            }
            assert(accepts(seg[m2 - 1], card_type, echoes_check_pattern(seg[4])));
            assert(init_succeeded(seg, card_type, self.rca));
        }
        Ok(())
    }
}


impl<H: MmcHostOps> GenericMmcDriver<H> {
    /// Whether a card is present, as the host reports it.
    pub fn card_present(&self) -> bool {
        self.host.card_detect()
    }

    /// The card information of the last successful initialization.
    pub fn card_info(&self) -> (r: DriverResult<MmcCardInfo>)
        ensures
            self.info() matches Some(i) ==> r matches Ok(j) && j == i,
            self.info() is None ==> r matches Err(DriverError::NotFound),
    {
        match self.card_info {
            Some(i) => Ok(i),
            None => Err(DriverError::NotFound),
        }
    }

    /// Read `buffer.len() / 512` whole blocks starting at block `start_block`
    /// into `buffer`; bytes past the last whole block are left alone.
    pub fn read_blocks(&mut self, start_block: u64, buffer: &mut [u8]) -> (r: DriverResult<usize>)
        ensures
            final(self).info() == old(self).info(),
            final(self).spec_rca() == old(self).spec_rca(),
            final(buffer)@.len() == old(buffer)@.len(),
            final(buffer)@.subrange(old(buffer)@.len() as int / 512 * 512, old(buffer)@.len() as int)
                == old(buffer)@.subrange(old(buffer)@.len() as int / 512 * 512, old(buffer)@.len() as int),
            old(self).info() is None ==> (r matches Err(DriverError::NotFound) && final(self).calls()
                == old(self).calls() && final(buffer)@ == old(buffer)@),
            old(self).info() is Some && old(buffer)@.len() < BLOCK_SIZE ==> (r matches Err(
                DriverError::InvalidParam,
            ) && final(self).calls() == old(self).calls() && final(buffer)@ == old(buffer)@),
            old(self).info() is Some && old(buffer)@.len() >= BLOCK_SIZE ==> ran(
                final(self).calls(),
                old(self).calls(),
                read_trace(old(self).info()->Some_0.card_type, start_block, old(buffer)@.len() / BLOCK_SIZE as nat),
                r is Ok,
                err_of(r),
                final(self).host_error(),
            ),
            r matches Ok(n) ==> n == old(buffer)@.len() / 512 * 512,
    {
        let info = match self.card_info {
            Some(i) => i,
            None => {
                return Err(DriverError::NotFound);
            },
        };
        let block_size: usize = BLOCK_SIZE as usize;
        let len = buffer.len();
        if len < block_size {
            return Err(DriverError::InvalidParam);
        }
        let block_count = len / block_size;
        let address = addr(info.card_type, start_block);
        let command = if block_count > 1 {
            cmd::READ_MULTIPLE_BLOCK
        } else {
            cmd::READ_SINGLE_BLOCK
        };
        let ghost c0 = self.calls@;
        let ghost n0 = c0.len() as int;
        let ghost trace = read_trace(info.card_type, start_block, block_count as nat);
        proof {
            assert(tail_from(c0, n0) =~= Seq::<HostCall>::empty());
        }
        let first = self.send(
            command,
            address,
            MmcCmdFlags { response: MmcResponse::R1, data: true, write: false, multi_block: block_count > 1 },
        );
        proof {
            lemma_logged_extend(c0, c0, self.calls@.last(), trace);
            lemma_step(c0, n0, self.calls@.last());
        }
        if let Err(e) = first {
            return Err(e);
        }
        let mut i: usize = 0;
        let mut failure: Option<DriverError> = None;
        while i < block_count && failure.is_none()
            invariant
                buffer@.len() == len,
                len == old(buffer)@.len(),
                block_size == 512,
                block_count == len / 512,
                block_count >= 1,
                i <= block_count,
                self.info() == old(self).info(),
                self.spec_rca() == old(self).spec_rca(),
                c0 == old(self).calls(),
                n0 == c0.len(),
                trace == read_trace(info.card_type, start_block, block_count as nat),
                logged(self.calls@, c0, trace, false),
                self.calls@.len() == c0.len() + 1 + i + (if failure is Some { 1int } else { 0int }),
                failure is None ==> host_never_failed(tail_from(self.calls@, n0)),
                failure matches Some(e) ==> stopped_by_failure(tail_from(self.calls@, n0))
                    && self.host_error() == Some(e),
                buffer@.subrange(block_count * 512, len as int) == old(buffer)@.subrange(
                    block_count * 512,
                    len as int,
                ),
            decreases block_count - i + (if failure is None { 1int } else { 0int }),
        {
            assert(i * 512 + 512 <= block_count * 512 <= len) by (nonlinear_arith)
                requires
                    i < block_count,
                    block_count == len / 512,
            ;
            let offset = i * block_size;
            let ghost before = self.calls@;
            let ghost buf_before = buffer@;
            let res = self.read_block(buffer, offset);
            proof {
                assert(trace[1 + i] == HostCall::ReadData { offset, block_size: BLOCK_SIZE, ok: true });
                lemma_logged_extend(before, c0, self.calls@.last(), trace);
                lemma_step(before, n0, self.calls@.last());
                lemma_suffix_kept(buffer@, buf_before, offset + 512, block_count * 512);
            }
            match res {
                Ok(_) => {
                    i = i + 1;
                },
                Err(e) => {
                    failure = Some(e);
                },
            }
        }
        if let Some(e) = failure {
            return Err(e);
        }
        if block_count > 1 {
            let ghost before = self.calls@;
            let stop = self.send(cmd::STOP_TRANSMISSION, 0, flags(MmcResponse::R1b));
            proof {
                lemma_logged_extend(before, c0, self.calls@.last(), trace);
                lemma_step(before, n0, self.calls@.last());
            }
            if let Err(e) = stop {
                return Err(e);
            }
        }
        assert(block_count * 512 <= len) by (nonlinear_arith)
            requires
                block_count == len / 512,
        ;
        Ok(block_count * block_size)
    }

    /// Write `data.len() / 512` whole blocks of `data` starting at block
    /// `start_block`, then wait up to 500 ms for the card to finish.
    pub fn write_blocks(&mut self, start_block: u64, data: &[u8]) -> (r: DriverResult<usize>)
        ensures
            final(self).info() == old(self).info(),
            final(self).spec_rca() == old(self).spec_rca(),
            old(self).info() is None ==> (r matches Err(DriverError::NotFound) && final(self).calls()
                == old(self).calls()),
            old(self).info() is Some && data@.len() < BLOCK_SIZE ==> (r matches Err(
                DriverError::InvalidParam,
            ) && final(self).calls() == old(self).calls()),
            old(self).info() is Some && data@.len() >= BLOCK_SIZE ==> ran(
                final(self).calls(),
                old(self).calls(),
                write_trace(old(self).info()->Some_0.card_type, start_block, data@.len() / BLOCK_SIZE as nat),
                r is Ok,
                err_of(r),
                final(self).host_error(),
            ),
            r matches Ok(n) ==> n == data@.len() / 512 * 512,
    {
        let info = match self.card_info {
            Some(i) => i,
            None => {
                return Err(DriverError::NotFound);
            },
        };
        let block_size: usize = BLOCK_SIZE as usize;
        let len = data.len();
        if len < block_size {
            return Err(DriverError::InvalidParam);
        }
        let block_count = len / block_size;
        let address = addr(info.card_type, start_block);
        let command = if block_count > 1 {
            cmd::WRITE_MULTIPLE_BLOCK
        } else {
            cmd::WRITE_SINGLE_BLOCK
        };
        let ghost c0 = self.calls@;
        let ghost n0 = c0.len() as int;
        let ghost trace = write_trace(info.card_type, start_block, block_count as nat);
        proof {
            assert(tail_from(c0, n0) =~= Seq::<HostCall>::empty());
        }
        let first = self.send(
            command,
            address,
            MmcCmdFlags { response: MmcResponse::R1, data: true, write: true, multi_block: block_count > 1 },
        );
        proof {
            lemma_logged_extend(c0, c0, self.calls@.last(), trace);
            lemma_step(c0, n0, self.calls@.last());
        }
        if let Err(e) = first {
            return Err(e);
        }
        let mut i: usize = 0;
        let mut failure: Option<DriverError> = None;
        while i < block_count && failure.is_none()
            invariant
                data@.len() == len,
                block_size == 512,
                block_count == len / 512,
                block_count >= 1,
                i <= block_count,
                self.info() == old(self).info(),
                self.spec_rca() == old(self).spec_rca(),
                c0 == old(self).calls(),
                n0 == c0.len(),
                trace == write_trace(info.card_type, start_block, block_count as nat),
                logged(self.calls@, c0, trace, false),
                self.calls@.len() == c0.len() + 1 + i + (if failure is Some { 1int } else { 0int }),
                failure is None ==> host_never_failed(tail_from(self.calls@, n0)),
                failure matches Some(e) ==> stopped_by_failure(tail_from(self.calls@, n0))
                    && self.host_error() == Some(e),
            decreases block_count - i + (if failure is None { 1int } else { 0int }),
        {
            assert(i * 512 + 512 <= len) by (nonlinear_arith)
                requires
                    i < block_count,
                    block_count == len / 512,
            ;
            let offset = i * block_size;
            let ghost before = self.calls@;
            let res = self.write_block(data, offset);
            proof {
                assert(trace[1 + i] == HostCall::WriteData { offset, block_size: BLOCK_SIZE, ok: true });
                lemma_logged_extend(before, c0, self.calls@.last(), trace);
                lemma_step(before, n0, self.calls@.last());
            }
            match res {
                Ok(_) => {
                    i = i + 1;
                },
                Err(e) => {
                    failure = Some(e);
                },
            }
        }
        if let Some(e) = failure {
            return Err(e);
        }
        if block_count > 1 {
            let ghost before = self.calls@;
            let stop = self.send(cmd::STOP_TRANSMISSION, 0, flags(MmcResponse::R1b));
            proof {
                lemma_logged_extend(before, c0, self.calls@.last(), trace);
                lemma_step(before, n0, self.calls@.last());
            }
            if let Err(e) = stop {
                return Err(e);
            }
        }
        let ghost before = self.calls@;
        let done = self.wait_ready(500);
        proof {
            lemma_logged_extend(before, c0, self.calls@.last(), trace);
            lemma_step(before, n0, self.calls@.last());
        }
        if let Err(e) = done {
            return Err(e);
        }
        assert(block_count * 512 <= len) by (nonlinear_arith)
            requires
                block_count == len / 512,
        ;
        Ok(block_count * block_size)
    }

    /// Erase blocks `start_block ..= start_block + block_count - 1`, then wait
    /// up to 5 s for the card to finish. An empty range, or one that ends past
    /// the last representable block index, is rejected.
    pub fn erase_blocks(&mut self, start_block: u64, block_count: u64) -> (r: DriverResult<()>)
        ensures
            final(self).info() == old(self).info(),
            final(self).spec_rca() == old(self).spec_rca(),
            old(self).info() is None ==> (r matches Err(DriverError::NotFound) && final(self).calls()
                == old(self).calls()),
            old(self).info() is Some && (block_count == 0 || start_block + block_count - 1
                > u64::MAX) ==> (r matches Err(DriverError::InvalidParam) && final(self).calls()
                == old(self).calls()),
            old(self).info() is Some && block_count > 0 && start_block + block_count - 1 <= u64::MAX
                ==> ran(
                final(self).calls(),
                old(self).calls(),
                erase_trace(old(self).info()->Some_0.card_type, start_block, (start_block + block_count - 1) as u64),
                r is Ok,
                err_of(r),
                final(self).host_error(),
            ),
    {
        let info = match self.card_info {
            Some(i) => i,
            None => {
                return Err(DriverError::NotFound);
            },
        };
        if block_count == 0 || block_count - 1 > u64::MAX - start_block {
            return Err(DriverError::InvalidParam);
        }
        let end_block = start_block + (block_count - 1);
        let start_addr = addr(info.card_type, start_block);
        let end_addr = addr(info.card_type, end_block);
        let ghost c0 = self.calls@;
        let ghost n0 = c0.len() as int;
        let ghost trace = erase_trace(info.card_type, start_block, end_block);
        proof {
            assert(tail_from(c0, n0) =~= Seq::<HostCall>::empty());
        }
        let r1 = self.send(cmd::ERASE_START, start_addr, flags(MmcResponse::R1));
        proof {
            lemma_logged_extend(c0, c0, self.calls@.last(), trace);
            lemma_step(c0, n0, self.calls@.last());
        }
        if let Err(e) = r1 {
            return Err(e);
        }
        let ghost c1 = self.calls@;
        let r2 = self.send(cmd::ERASE_END, end_addr, flags(MmcResponse::R1));
        proof {
            lemma_logged_extend(c1, c0, self.calls@.last(), trace);
            lemma_step(c1, n0, self.calls@.last());
        }
        if let Err(e) = r2 {
            return Err(e);
        }
        let ghost c2 = self.calls@;
        let r3 = self.send(cmd::ERASE, 0, flags(MmcResponse::R1b));
        proof {
            lemma_logged_extend(c2, c0, self.calls@.last(), trace);
            lemma_step(c2, n0, self.calls@.last());
        }
        if let Err(e) = r3 {
            return Err(e);
        }
        let ghost c3 = self.calls@;
        let r4 = self.wait_ready(5000);
        proof {
            lemma_logged_extend(c3, c0, self.calls@.last(), trace);
            lemma_step(c3, n0, self.calls@.last());
        }
        r4
    }

    /// Wait up to 500 ms for pending writes to complete.
    pub fn flush(&mut self) -> (r: DriverResult<()>)
        ensures
            final(self).info() == old(self).info(),
            final(self).spec_rca() == old(self).spec_rca(),
            final(self).calls() == old(self).calls().push(HostCall::WaitReady { timeout_ms: 500, ok: r is Ok }),
            r matches Err(e) ==> final(self).host_error() == Some(e),
    {
        self.wait_ready(500)
    }

    /// Sector size: the card's block size, or 512 before initialization.
    pub fn sector_size(&self) -> (r: u32)
        ensures
            self.wf() ==> r == BLOCK_SIZE,
            self.info() matches Some(i) ==> r == i.block_size,
            self.info() is None ==> r == BLOCK_SIZE,
    {
        match self.card_info {
            Some(i) => i.block_size,
            None => BLOCK_SIZE,
        }
    }

    /// Number of 512-byte sectors of the card, or 0 before initialization.
    pub fn sector_count(&self) -> (r: u64)
        ensures
            self.info() matches Some(i) ==> r == i.capacity_bytes / BLOCK_SIZE as u64,
            self.info() is None ==> r == 0,
    {
        match self.card_info {
            Some(i) => i.capacity_bytes / (BLOCK_SIZE as u64),
            None => 0,
        }
    }
}

impl<H: MmcHostOps> MmcDriver for GenericMmcDriver<H> {
    fn init(&mut self) -> DriverResult<()> {
        GenericMmcDriver::<H>::init(self)
    }

    fn card_present(&self) -> bool {
        GenericMmcDriver::<H>::card_present(self)
    }

    fn card_info(&self) -> DriverResult<MmcCardInfo> {
        GenericMmcDriver::<H>::card_info(self)
    }

    fn read_blocks(&mut self, start_block: u64, buffer: &mut [u8]) -> DriverResult<usize> {
        GenericMmcDriver::<H>::read_blocks(self, start_block, buffer)
    }

    fn write_blocks(&mut self, start_block: u64, data: &[u8]) -> DriverResult<usize> {
        GenericMmcDriver::<H>::write_blocks(self, start_block, data)
    }

    fn erase_blocks(&mut self, start_block: u64, block_count: u64) -> DriverResult<()> {
        GenericMmcDriver::<H>::erase_blocks(self, start_block, block_count)
    }

    fn flush(&mut self) -> DriverResult<()> {
        GenericMmcDriver::<H>::flush(self)
    }
}

/// Sector-oriented block device interface for filesystem layers.
pub trait BlockDevice {
    /// Read sectors starting at `sector` into `buffer`.
    fn read(&mut self, sector: u64, buffer: &mut [u8]) -> DriverResult<()>;

    /// Write sectors starting at `sector` from `data`.
    fn write(&mut self, sector: u64, data: &[u8]) -> DriverResult<()>;

    /// Sector size in bytes.
    fn sector_size(&self) -> u32;

    /// Total number of sectors.
    fn sector_count(&self) -> u64;

    /// Flush pending writes.
    fn sync(&mut self) -> DriverResult<()>;
}

impl<H: MmcHostOps> BlockDevice for GenericMmcDriver<H> {
    fn read(&mut self, sector: u64, buffer: &mut [u8]) -> DriverResult<()> {
        match GenericMmcDriver::<H>::read_blocks(self, sector, buffer) {
            Ok(_) => Ok(()),
            Err(e) => Err(e),
        }
    }

    fn write(&mut self, sector: u64, data: &[u8]) -> DriverResult<()> {
        match GenericMmcDriver::<H>::write_blocks(self, sector, data) {
            Ok(_) => Ok(()),
            Err(e) => Err(e),
        }
    }

    fn sector_size(&self) -> u32 {
        GenericMmcDriver::<H>::sector_size(self)
    }

    fn sector_count(&self) -> u64 {
        GenericMmcDriver::<H>::sector_count(self)
    }

    fn sync(&mut self) -> DriverResult<()> {
        GenericMmcDriver::<H>::flush(self)
    }
}

} // verus!
