//! AIC8800 WiFi driver core: chip identification, firmware bring-up, packet
//! framing over SDIO, TX flow control and RX buffering.
use vstd::prelude::*;

pub mod regs;
pub mod config;

verus! {

/// Zircon status codes.
pub type ZxStatus = i32;

pub const ZX_OK: ZxStatus = 0;
pub const ZX_ERR_NO_MEMORY: ZxStatus = -4;
pub const ZX_ERR_INVALID_ARGS: ZxStatus = -10;
pub const ZX_ERR_BAD_STATE: ZxStatus = -20;
pub const ZX_ERR_TIMED_OUT: ZxStatus = -21;
pub const ZX_ERR_NOT_SUPPORTED: ZxStatus = -25;
pub const ZX_ERR_IO: ZxStatus = -40;
pub const ZX_ERR_INTERNAL: ZxStatus = -54;

/// SDIO vendor and device IDs.
pub const SDIO_VENDOR_ID_AIC: u16 = 0x8800;
pub const SDIO_DEVICE_ID_AIC: u16 = 0x0001;

/// Chip IDs.
pub const CHIP_ID_AIC8800D: u32 = 0x88000000;
pub const CHIP_ID_AIC8800DC: u32 = 0x88000001;
pub const CHIP_ID_AIC8800DW: u32 = 0x88000002;
pub const CHIP_ID_AIC8800D80: u32 = 0x88000080;

/// SDIO packet types.
#[derive(Debug, Clone, Copy, PartialEq, Eq, Structural)]
pub enum SdioType {
    Data,
    Cfg,
    CfgCmdRsp,
    CfgDataCfm,
}

/// The type byte that heads a packet of each kind.
pub open spec fn sdio_type_byte(t: SdioType) -> u8 {
    match t {
        SdioType::Data => 0x00,
        SdioType::Cfg => 0x10,
        SdioType::CfgCmdRsp => 0x11,
        SdioType::CfgDataCfm => 0x12,
    }
}

impl SdioType {
    /// The type byte that heads a packet of this kind.
    pub fn as_u8(self) -> (r: u8)
        ensures
            r == sdio_type_byte(self),
    {
        match self {
            SdioType::Data => 0x00,
            SdioType::Cfg => 0x10,
            SdioType::CfgCmdRsp => 0x11,
            SdioType::CfgDataCfm => 0x12,
        }
    }
}

/// Device power states.
#[derive(Debug, Clone, Copy, PartialEq, Eq, Structural)]
pub enum PowerState {
    Sleep,
    Active,
}

/// WiFi bands.
#[derive(Debug, Clone, Copy, PartialEq, Eq, Structural)]
pub enum WifiBand {
    Band2Ghz,
    Band5Ghz,
}

/// A WiFi channel.
#[derive(Debug, Clone, Copy, PartialEq, Eq, Structural)]
pub struct Channel {
    pub number: u8,
    pub frequency_mhz: u16,
    pub max_power_dbm: i8,
    pub band: WifiBand,
}

/// 2.4 GHz channel `n` (1-based): 2407 + 5n MHz at 20 dBm.
pub open spec fn channel_2ghz(n: int) -> Channel {
    Channel { number: n as u8, frequency_mhz: (2407 + 5 * n) as u16, max_power_dbm: 20, band: WifiBand::Band2Ghz }
}

impl Channel {
    /// The thirteen 2.4 GHz channels, in order.
    pub fn channels_2ghz() -> (r: Vec<Channel>)
        ensures
            r@.len() == 13,
            forall|i: int| 0 <= i < 13 ==> #[trigger] r@[i] == channel_2ghz(i + 1),
    {
        let mut out: Vec<Channel> = Vec::new();
        let mut n: u8 = 1;
        while n <= 13
            invariant
                1 <= n <= 14,
                out@.len() == n - 1,
                forall|i: int| 0 <= i < n - 1 ==> #[trigger] out@[i] == channel_2ghz(i + 1),
            decreases 14 - n,
        {
            out.push(
                Channel {
                    number: n,
                    frequency_mhz: 2407 + 5 * (n as u16),
                    max_power_dbm: 20,
                    band: WifiBand::Band2Ghz,
                },
            );
            n = n + 1;
        }
        out
    }
}

/// A packet to transmit.
#[derive(Debug, Clone)]
pub struct TxPacket {
    pub data: Vec<u8>,
    pub priority: u8,
}

/// A received packet.
#[derive(Debug, Clone)]
pub struct RxPacket {
    pub data: Vec<u8>,
    pub rssi: i8,
    pub channel: u8,
}

/// Bounded transmit queue gated by flow-control credits.
pub struct TxQueue {
    queue: std::collections::VecDeque<TxPacket>,
    max_size: usize,
    flow_ctrl_credits: u32,
}

impl View for TxQueue {
    type V = Seq<TxPacket>;

    closed spec fn view(&self) -> Seq<TxPacket> {
        self.queue@
    }
}

impl TxQueue {
    /// Capacity of the queue.
    pub closed spec fn capacity(&self) -> usize {
        self.max_size
    }

    /// Packets that may still be handed out.
    pub closed spec fn credits(&self) -> u32 {
        self.flow_ctrl_credits
    }

    /// An empty queue holding up to `max_size` packets, with no credits.
    pub fn new(max_size: usize) -> (r: Self)
        ensures
            r@ == Seq::<TxPacket>::empty(),
            r.capacity() == max_size,
            r.credits() == 0,
    {
        TxQueue { queue: std::collections::VecDeque::with_capacity(max_size), max_size, flow_ctrl_credits: 0 }
    }

    /// Append a packet; a full queue refuses it with `ZX_ERR_NO_MEMORY`.
    pub fn enqueue(&mut self, packet: TxPacket) -> (r: Result<(), ZxStatus>)
        ensures
            old(self)@.len() >= old(self).capacity() ==> r == Err::<(), ZxStatus>(ZX_ERR_NO_MEMORY)
                && final(self)@ == old(self)@,
            old(self)@.len() < old(self).capacity() ==> r is Ok && final(self)@ == old(self)@.push(
                packet,
            ),
            final(self).capacity() == old(self).capacity(),
            final(self).credits() == old(self).credits(),
    {
        if self.queue.len() >= self.max_size {
            return Err(ZX_ERR_NO_MEMORY);
        }
        self.queue.push_back(packet);
        Ok(())
    }

    /// The oldest packet, spending one credit; nothing without credits.
    pub fn dequeue(&mut self) -> (r: Option<TxPacket>)
        ensures
            old(self).credits() == 0 || old(self)@.len() == 0 ==> r is None && final(self)@ == old(self)@ && final(self).credits() == old(self).credits(),
            old(self).credits() > 0 && old(self)@.len() > 0 ==> r == Some(old(self)@[0]) && final(self)@ == old(self)@.drop_first() && final(self).credits() == old(self).credits() - 1,
            final(self).capacity() == old(self).capacity(),
    {
        if self.flow_ctrl_credits == 0 {
            return None;
        }
        match self.queue.pop_front() {
            Some(packet) => {
                self.flow_ctrl_credits = self.flow_ctrl_credits - 1;
                Some(packet)
            },
            None => None,
        }
    }

    /// Replace the credit count.
    pub fn set_credits(&mut self, credits: u32)
        ensures
            final(self).credits() == credits,
            final(self)@ == old(self)@,
            final(self).capacity() == old(self).capacity(),
    {
        self.flow_ctrl_credits = credits;
    }

    /// Number of queued packets.
    pub fn len(&self) -> (r: usize)
        ensures
            r == self@.len(),
    {
        self.queue.len()
    }

    /// Whether no packet is queued.
    pub fn is_empty(&self) -> (r: bool)
        ensures
            r == (self@.len() == 0),
    {
        self.queue.len() == 0
    }
}

/// Bounded receive buffer that drops the oldest packet when full.
pub struct RxBuffer {
    packets: std::collections::VecDeque<RxPacket>,
    max_size: usize,
}

impl View for RxBuffer {
    type V = Seq<RxPacket>;

    closed spec fn view(&self) -> Seq<RxPacket> {
        self.packets@
    }
}

/// Buffer contents after `push`: the oldest packet leaves when `max` are held.
pub open spec fn rx_after_push(prev: Seq<RxPacket>, max: usize, p: RxPacket) -> Seq<RxPacket> {
    if prev.len() >= max && prev.len() > 0 {
        prev.drop_first().push(p)
    } else {
        prev.push(p)
    }
}

impl RxBuffer {
    /// Capacity of the buffer.
    pub closed spec fn capacity(&self) -> usize {
        self.max_size
    }

    /// An empty buffer for up to `max_size` packets.
    pub fn new(max_size: usize) -> (r: Self)
        ensures
            r@ == Seq::<RxPacket>::empty(),
            r.capacity() == max_size,
    {
        RxBuffer { packets: std::collections::VecDeque::with_capacity(max_size), max_size }
    }

    /// Append a packet, first dropping the oldest one if the buffer is full.
    pub fn push(&mut self, packet: RxPacket)
        ensures
            final(self)@ == rx_after_push(old(self)@, old(self).capacity(), packet),
            final(self).capacity() == old(self).capacity(),
    {
        if self.packets.len() >= self.max_size {
            let _ = self.packets.pop_front();
        }
        self.packets.push_back(packet);
    }

    /// Remove and return the oldest packet.
    pub fn pop(&mut self) -> (r: Option<RxPacket>)
        ensures
            old(self)@.len() == 0 ==> r is None && final(self)@ == old(self)@,
            old(self)@.len() > 0 ==> r == Some(old(self)@[0]) && final(self)@ == old(self)@.drop_first(),
            final(self).capacity() == old(self).capacity(),
    {
        self.packets.pop_front()
    }

    /// Number of buffered packets.
    pub fn len(&self) -> (r: usize)
        ensures
            r == self@.len(),
    {
        self.packets.len()
    }
}

/// Byte `i` of `data`, or 0 past its end.
pub open spec fn byte_or_zero(data: Seq<u8>, i: int) -> int {
    if 0 <= i < data.len() {
        data[i] as int
    } else {
        0
    }
}

/// The little-endian 32-bit word at byte offset `i`, zero-padded.
pub open spec fn le_word(data: Seq<u8>, i: int) -> int {
    byte_or_zero(data, i) + byte_or_zero(data, i + 1) * 0x100 + byte_or_zero(data, i + 2) * 0x10000
        + byte_or_zero(data, i + 3) * 0x1000000
}

/// Sum modulo 2^32 of the first `k` words of `data`.
pub open spec fn word_sum(data: Seq<u8>, k: nat) -> int
    decreases k,
{
    if k == 0 {
        0
    } else {
        (word_sum(data, (k - 1) as nat) + le_word(data, 4 * (k - 1))) % 0x1_0000_0000
    }
}

/// Checksum of a firmware image: the wrapping sum of its little-endian
/// 32-bit words, the last one zero-padded.
pub open spec fn checksum(data: Seq<u8>) -> int {
    word_sum(data, ((data.len() + 3) / 4) as nat)
}

/// Firmware image source.
pub struct FirmwareLoader;

impl FirmwareLoader {
    /// Load a firmware image by name. No image source is available, so this
    /// always answers `ZX_ERR_NOT_SUPPORTED`.
    pub fn load_firmware(name: &str) -> (r: Result<Vec<u8>, ZxStatus>)
        ensures
            r == Err::<Vec<u8>, ZxStatus>(ZX_ERR_NOT_SUPPORTED),
    {
        Err(ZX_ERR_NOT_SUPPORTED)
    }

    /// Whether the checksum of `data` equals `expected`.
    pub fn verify_checksum(data: &[u8], expected: u32) -> (r: bool)
        ensures
            r == (checksum(data@) == expected),
    {
        let len = data.len();
        let words = len / 4 + if len % 4 != 0 {
            1
        } else {
            0
        };
        let mut sum: u32 = 0;
        let mut k: usize = 0;
        while k < words
            invariant
                len == data@.len(),
                words == (len + 3) / 4,
                k <= words,
                sum == word_sum(data@, k as nat),
            decreases words - k,
        {
            let i = 4 * k;
            let b0: u32 = data[i] as u32;
            let b1: u32 = if i + 1 < len {
                data[i + 1] as u32
            } else {
                0
            };
            let b2: u32 = if i + 2 < len {
                data[i + 2] as u32
            } else {
                0
            };
            let b3: u32 = if i + 3 < len {
                data[i + 3] as u32
            } else {
                0
            };
            let word: u32 = b0 + b1 * 0x100 + b2 * 0x10000 + b3 * 0x1000000;
            assert(word == le_word(data@, i as int));
            sum = sum.wrapping_add(word);
            k = k + 1;
        }
        sum == expected
    }
}

/// A firmware patch: a 32-bit value written at an offset from the firmware base.
#[derive(Debug, Clone, Copy, PartialEq, Eq, Structural)]
pub struct PatchEntry {
    pub offset: u32,
    pub value: u32,
}

/// The patch table of the AIC8800D80.
pub open spec fn patches_8800d80() -> Seq<PatchEntry> {
    seq![PatchEntry { offset: 0x00b4, value: 0xf3010000 }, PatchEntry { offset: 0x0170, value: 0x0001000A }]
}

/// The patch table of the AIC8800D80.
pub fn patch_table_8800d80() -> (r: Vec<PatchEntry>)
    ensures
        r@ == patches_8800d80(),
{
    let r = vec![PatchEntry { offset: 0x00b4, value: 0xf3010000 }, PatchEntry { offset: 0x0170, value: 0x0001000A }];
    assert(r@ =~= patches_8800d80());
    r
}


/// The chips this driver supports.
pub open spec fn is_supported(chip_id: u32) -> bool {
    chip_id == CHIP_ID_AIC8800D || chip_id == CHIP_ID_AIC8800DC || chip_id == CHIP_ID_AIC8800DW
        || chip_id == CHIP_ID_AIC8800D80
}

/// Firmware file of each chip.
pub open spec fn firmware_file(chip_id: u32) -> Seq<char> {
    if chip_id == CHIP_ID_AIC8800D80 {
        "fmacfw_8800d80.bin"@
    } else if chip_id == CHIP_ID_AIC8800D {
        "fmacfw_8800d.bin"@
    } else if chip_id == CHIP_ID_AIC8800DC {
        "fmacfw_8800dc.bin"@
    } else {
        "fmacfw.bin"@
    }
}

/// The 32-bit value of four little-endian bytes.
pub open spec fn le_u32(b0: u8, b1: u8, b2: u8, b3: u8) -> u32 {
    (b0 as int + b1 as int * 0x100 + b2 as int * 0x10000 + b3 as int * 0x1000000) as u32
}

/// `n` rounded up to a whole number of SDIO blocks.
pub open spec fn block_aligned(n: int) -> int {
    (n + 511) / 512 * 512
}

/// The SDIO frame of a data packet: type byte, flags byte, the payload
/// length as a little-endian 16-bit value (truncated), the payload, and
/// zero padding up to a whole number of 512-byte blocks.
pub open spec fn data_frame(payload: Seq<u8>) -> Seq<u8> {
    let head = seq![
        sdio_type_byte(SdioType::Data),
        0u8,
        (payload.len() % 256) as u8,
        ((payload.len() / 256) % 256) as u8,
    ] + payload;
    head + Seq::new((block_aligned(head.len() as int) - head.len()) as nat, |i: int| 0u8)
}

/// Delay before flow-control retry `retry`, in microseconds.
pub open spec fn backoff_us(retry: u32) -> u32 {
    if retry < 30 {
        200
    } else if retry < 40 {
        1000
    } else {
        10000
    }
}

/// Whether a chip ID belongs to a supported chip.
pub fn is_chip_id_supported(chip_id: u32) -> (r: bool)
    ensures
        r == is_supported(chip_id),
{
    chip_id == CHIP_ID_AIC8800D || chip_id == CHIP_ID_AIC8800DC || chip_id == CHIP_ID_AIC8800DW
        || chip_id == CHIP_ID_AIC8800D80
}

/// Firmware file name for a chip.
pub fn firmware_name(chip_id: u32) -> (r: &'static str)
    ensures
        r@ == firmware_file(chip_id),
{
    if chip_id == CHIP_ID_AIC8800D80 {
        "fmacfw_8800d80.bin"
    } else if chip_id == CHIP_ID_AIC8800D {
        "fmacfw_8800d.bin"
    } else if chip_id == CHIP_ID_AIC8800DC {
        "fmacfw_8800dc.bin"
    } else {
        "fmacfw.bin"
    }
}

/// The 32-bit value of four little-endian bytes.
pub fn u32_from_le(b0: u8, b1: u8, b2: u8, b3: u8) -> (r: u32)
    ensures
        r == le_u32(b0, b1, b2, b3),
{
    b0 as u32 + b1 as u32 * 0x100 + b2 as u32 * 0x10000 + b3 as u32 * 0x1000000
}

/// Delay before flow-control retry `retry`, in microseconds.
pub fn flow_ctrl_backoff_us(retry: u32) -> (r: u32)
    ensures
        r == backoff_us(retry),
{
    if retry < 30 {
        200
    } else if retry < 40 {
        1000
    } else {
        10000
    }
}

/// Frame `payload` as an SDIO data packet, padded to whole 512-byte blocks.
pub fn frame_data_packet(payload: &[u8]) -> (r: Vec<u8>)
    requires
        payload@.len() + 516 <= usize::MAX,
    ensures
        r@ == data_frame(payload@),
        r@.len() % 512 == 0,
{
    let len = payload.len();
    let mut packet: Vec<u8> = Vec::new();
    packet.push(SdioType::Data.as_u8());
    packet.push(0x00);
    packet.push((len % 256) as u8);
    packet.push(((len / 256) % 256) as u8);
    let mut i: usize = 0;
    while i < len
        invariant
            len == payload@.len(),
            i <= len,
            packet@ == seq![
                sdio_type_byte(SdioType::Data),
                0u8,
                (len % 256) as u8,
                ((len / 256) % 256) as u8,
            ] + payload@.subrange(0, i as int),
        decreases len - i,
    {
        packet.push(payload[i]);
        i = i + 1;
        assert(packet@ =~= seq![
            sdio_type_byte(SdioType::Data),
            0u8,
            (len % 256) as u8,
            ((len / 256) % 256) as u8,
        ] + payload@.subrange(0, i as int));
    }
    assert(payload@.subrange(0, len as int) =~= payload@);
    let ghost head = packet@;
    let aligned = (packet.len() + config::FUNC_BLOCKSIZE - 1) / config::FUNC_BLOCKSIZE * config::FUNC_BLOCKSIZE;
    assert(aligned >= packet@.len()) by (nonlinear_arith)
        requires
            aligned == (packet@.len() + 511) / 512 * 512,
    ;
    while packet.len() < aligned
        invariant
            aligned == block_aligned(head.len() as int),
            head.len() <= packet@.len() <= aligned,
            packet@ == head + Seq::new((packet@.len() - head.len()) as nat, |k: int| 0u8),
        decreases aligned - packet@.len(),
    {
        packet.push(0);
        assert(packet@ =~= head + Seq::new((packet@.len() - head.len()) as nat, |k: int| 0u8));
    }
    assert(aligned % 512 == 0) by (nonlinear_arith)
        requires
            aligned == (head.len() + 511) / 512 * 512,
    ;
    packet
}

/// SDIO bus access to the chip, implemented per host controller.
pub trait SdioInterface {
    /// Read a function register.
    fn read_byte(&self, addr: u8) -> Result<u8, ZxStatus>;

    /// Write a function register.
    fn write_byte(&self, addr: u8, value: u8) -> Result<(), ZxStatus>;

    /// Read a block of chip memory into `buf`.
    fn read_multi(&self, addr: u32, buf: &mut [u8]) -> (r: Result<(), ZxStatus>)
        ensures
            final(buf)@.len() == old(buf)@.len(),
    ;

    /// Write a block of chip memory.
    fn write_multi(&self, addr: u32, buf: &[u8]) -> Result<(), ZxStatus>;

    /// Enable the chip's interrupt line.
    fn enable_interrupt(&self) -> Result<(), ZxStatus>;

    /// Disable the chip's interrupt line.
    fn disable_interrupt(&self) -> Result<(), ZxStatus>;

    /// Pause for `ms` milliseconds between bus operations. The default does
    /// not wait; a host that talks to real hardware sleeps here.
    fn delay_ms(&self, ms: u32) {
    }

    /// Pause for `us` microseconds between bus operations. The default does
    /// not wait; a host that talks to real hardware sleeps here.
    fn delay_us(&self, us: u32) {
    }
}

/// PHY capabilities.
#[derive(Debug, Clone)]
pub struct PhyCapabilities {
    pub supported_bands: Vec<WifiBand>,
    pub ht_supported: bool,
    pub vht_supported: bool,
    pub max_tx_power_dbm: i8,
    pub supported_channels: Vec<Channel>,
}

/// Number of firmware status polls, 100 ms apart, before giving up.
pub const FW_READY_POLLS: u32 = 50;

/// The AIC8800 driver over an SDIO bus `S`.
pub struct Aic8800Driver<S: SdioInterface> {
    sdio: S,
    chip_id: u32,
    power_state: PowerState,
    initialized: bool,
    tx_queue: TxQueue,
    rx_buffer: RxBuffer,
    mac_address: [u8; 6],
    current_channel: Option<Channel>,
    sent: Ghost<Seq<(Seq<u8>, bool)>>,
}

impl<S: SdioInterface> Aic8800Driver<S> {
    pub closed spec fn spec_initialized(&self) -> bool {
        self.initialized
    }

    pub closed spec fn spec_chip_id(&self) -> u32 {
        self.chip_id
    }

    pub closed spec fn spec_power(&self) -> PowerState {
        self.power_state
    }

    pub closed spec fn spec_channel(&self) -> Option<Channel> {
        self.current_channel
    }

    pub closed spec fn spec_rx(&self) -> Seq<RxPacket> {
        self.rx_buffer@
    }

    /// Every data frame handed to the bus at address 0, and whether the bus
    /// accepted it.
    pub closed spec fn spec_sent(&self) -> Seq<(Seq<u8>, bool)> {
        self.sent@
    }

    pub closed spec fn spec_mac(&self) -> [u8; 6] {
        self.mac_address
    }

    /// A driver that has not touched the chip yet.
    pub fn new(sdio: S) -> (r: Self)
        ensures
            !r.spec_initialized(),
            r.spec_chip_id() == 0,
            r.spec_power() == PowerState::Sleep,
            r.spec_channel() is None,
            r.spec_rx() == Seq::<RxPacket>::empty(),
            r.spec_mac()@ == seq![0u8, 0, 0, 0, 0, 0],
            r.spec_sent() == Seq::<(Seq<u8>, bool)>::empty(),
    {
        Aic8800Driver {
            sdio,
            chip_id: 0,
            power_state: PowerState::Sleep,
            initialized: false,
            tx_queue: TxQueue::new(config::TXQLEN),
            rx_buffer: RxBuffer::new(256),
            mac_address: [0u8; 6],
            current_channel: None,
            sent: Ghost(Seq::empty()),
        }
    }

    /// Bring the chip up: identify it, reset it, download and start its
    /// firmware, apply patches and enable it. No firmware image source is
    /// available (`FirmwareLoader::load_firmware` always fails), so on a
    /// supported chip this ends in `ZX_ERR_NOT_SUPPORTED` after the reset.
    pub fn init(&mut self) -> (r: Result<(), ZxStatus>)
        ensures
            r is Err,
            !final(self).spec_initialized() == !old(self).spec_initialized(),
            final(self).spec_power() == old(self).spec_power(),
            final(self).spec_channel() == old(self).spec_channel(),
            final(self).spec_rx() == old(self).spec_rx(),
            r matches Err(e) && e != ZX_ERR_NOT_SUPPORTED ==> final(self).spec_chip_id() == old(self).spec_chip_id() || is_supported(final(self).spec_chip_id()),
    {
        self.chip_id = self.read_chip_id()?;
        if !self.is_chip_supported() {
            return Err(ZX_ERR_NOT_SUPPORTED);
        }
        self.reset_chip()?;
        self.download_firmware()?;
        self.wait_firmware_ready()?;
        self.configure_patches()?;
        self.enable_chip()?;
        self.initialized = true;
        self.power_state = PowerState::Active;
        Ok(())
    }

    /// Read the chip ID: registers 0..4, little-endian.
    pub fn read_chip_id(&self) -> Result<u32, ZxStatus> {
        let b0 = self.sdio.read_byte(0)?;
        let b1 = self.sdio.read_byte(1)?;
        let b2 = self.sdio.read_byte(2)?;
        let b3 = self.sdio.read_byte(3)?;
        Ok(u32_from_le(b0, b1, b2, b3))
    }

    fn is_chip_supported(&self) -> (r: bool)
        ensures
            r == is_supported(self.chip_id),
    {
        is_chip_id_supported(self.chip_id)
    }

    /// Assert reset (register 0x0C = 1), wait 10 ms, deassert, wait 50 ms.
    fn reset_chip(&self) -> Result<(), ZxStatus> {
        self.sdio.write_byte(0x0C, 0x01)?;
        self.sdio.delay_ms(10);
        self.sdio.write_byte(0x0C, 0x00)?;
        self.sdio.delay_ms(50);
        Ok(())
    }

    /// Load the chip's firmware and write it at the firmware base address.
    fn download_firmware(&self) -> (r: Result<(), ZxStatus>)
        ensures
            r == Err::<(), ZxStatus>(ZX_ERR_NOT_SUPPORTED),
    {
        let fw_name = firmware_name(self.chip_id);
        let firmware = FirmwareLoader::load_firmware(fw_name)?;
        if firmware.len() > config::FIRMWARE_MAX_SIZE {
            return Err(ZX_ERR_INVALID_ARGS);
        }
        self.sdio.write_multi(config::RAM_FMAC_FW_ADDR_U02, firmware.as_slice())?;
        Ok(())
    }

    /// Poll the firmware status register (0x08) every 100 ms, up to
    /// `FW_READY_POLLS` times: 0x02 is ready, 0xFF a firmware error.
    fn wait_firmware_ready(&self) -> Result<(), ZxStatus> {
        let mut polls: u32 = 0;
        let mut outcome: Option<Result<(), ZxStatus>> = None;
        while polls < FW_READY_POLLS && outcome.is_none()
            decreases FW_READY_POLLS - polls + (if outcome is None { 1int } else { 0int }),
        {
            match self.sdio.read_byte(0x08) {
                Err(e) => {
                    outcome = Some(Err(e));
                },
                Ok(0x02) => {
                    outcome = Some(Ok(()));
                },
                Ok(0xFF) => {
                    outcome = Some(Err(ZX_ERR_INTERNAL));
                },
                Ok(_) => {
                    self.sdio.delay_ms(100);
                    polls = polls + 1;
                },
            }
        }
        match outcome {
            Some(o) => o,
            None => Err(ZX_ERR_TIMED_OUT),
        }
    }

    /// Write each patch value, little-endian, at its offset from the
    /// firmware base.
    fn configure_patches(&self) -> Result<(), ZxStatus> {
        let patches = patch_table_8800d80();
        let mut i: usize = 0;
        let mut failure: Option<ZxStatus> = None;
        while i < patches.len() && failure.is_none()
            invariant
                patches@ == patches_8800d80(),
            decreases patches@.len() - i + (if failure is None { 1int } else { 0int }),
        {
            let patch = patches[i];
            let addr = config::RAM_FMAC_FW_ADDR_U02 + patch.offset;
            let v = patch.value;
            let bytes: [u8; 4] = [(v % 0x100) as u8, ((v / 0x100) % 0x100) as u8, ((v / 0x10000) % 0x100) as u8, (v / 0x1000000) as u8];
            match self.sdio.write_multi(addr, &bytes) {
                Ok(_) => {
                    i = i + 1;
                },
                Err(e) => {
                    failure = Some(e);
                },
            }
        }
        match failure {
            Some(e) => Err(e),
            None => Ok(()),
        }
    }

    /// Enable the chip (register 0x0C = 2).
    fn enable_chip(&self) -> Result<(), ZxStatus> {
        self.sdio.write_byte(0x0C, 0x02)?;
        Ok(())
    }

    /// Put the chip to sleep or wake it; the driver must be initialized.
    pub fn set_power_state(&mut self, state: PowerState) -> (r: Result<(), ZxStatus>)
        ensures
            final(self).spec_sent() == old(self).spec_sent(),
            !old(self).spec_initialized() ==> r == Err::<(), ZxStatus>(ZX_ERR_BAD_STATE),
            r is Ok ==> final(self).spec_power() == state,
            r is Err ==> final(self).spec_power() == old(self).spec_power(),
            final(self).spec_initialized() == old(self).spec_initialized(),
            final(self).spec_channel() == old(self).spec_channel(),
            final(self).spec_rx() == old(self).spec_rx(),
    {
        if !self.initialized {
            return Err(ZX_ERR_BAD_STATE);
        }
        match state {
            PowerState::Sleep => {
                self.sdio.write_byte(regs::SLEEP, 0x01)?;
            },
            PowerState::Active => {
                self.sdio.write_byte(regs::WAKEUP, 0x01)?;
                self.sdio.delay_ms(10);
            },
        }
        self.power_state = state;
        Ok(())
    }

    /// Available TX buffers: poll the flow-control register until its low
    /// seven bits are nonzero, backing off between up to 50 attempts.
    fn flow_control(&self) -> (r: Result<u8, ZxStatus>)
        ensures
            r matches Ok(n) ==> 0 < n <= 0x7F,
    {
        let mut retry: u32 = 0;
        let mut outcome: Option<Result<u8, ZxStatus>> = None;
        while retry < config::FLOW_CTRL_RETRY_COUNT && outcome.is_none()
            invariant
                outcome matches Some(Ok(n)) ==> 0 < n <= 0x7F,
            decreases config::FLOW_CTRL_RETRY_COUNT - retry + (if outcome is None { 1int } else { 0int }),
        {
            match self.sdio.read_byte(regs::FLOW_CTRL) {
                Err(e) => {
                    outcome = Some(Err(e));
                },
                Ok(fc_reg) => {
                    let available = fc_reg & regs::FLOWCTRL_MASK;
                    assert(available <= 0x7F) by (bit_vector)
                        requires
                            available == fc_reg & 0x7F,
                    ;
                    if available > 0 {
                        outcome = Some(Ok(available));
                    } else {
                        self.sdio.delay_us(flow_ctrl_backoff_us(retry));
                        retry = retry + 1;
                    }
                },
            }
        }
        match outcome {
            Some(o) => o,
            None => Err(ZX_ERR_TIMED_OUT),
        }
    }

    /// Transmit `data` as one framed SDIO packet, waking the chip first if
    /// needed and refreshing the TX credits from flow control.
    pub fn transmit(&mut self, data: &[u8]) -> (r: Result<(), ZxStatus>)
        ensures
            !old(self).spec_initialized() ==> r == Err::<(), ZxStatus>(ZX_ERR_BAD_STATE)
                && final(self).spec_sent() == old(self).spec_sent(),
            old(self).spec_initialized() && data@.len() + 516 > usize::MAX ==> r == Err::<(), ZxStatus>(
                ZX_ERR_INVALID_ARGS,
            ),
            final(self).spec_sent() == old(self).spec_sent() || final(self).spec_sent() == old(self).spec_sent().push((data_frame(data@), r is Ok)),
            r is Ok ==> final(self).spec_sent() == old(self).spec_sent().push((data_frame(data@), true)),
            final(self).spec_initialized() == old(self).spec_initialized(),
            final(self).spec_channel() == old(self).spec_channel(),
            final(self).spec_rx() == old(self).spec_rx(),
    {
        if !self.initialized {
            return Err(ZX_ERR_BAD_STATE);
        }
        if data.len() > usize::MAX - 516 {
            return Err(ZX_ERR_INVALID_ARGS);
        }
        if self.power_state != PowerState::Active {
            self.set_power_state(PowerState::Active)?;
        }
        let credits = self.flow_control()?;
        self.tx_queue.set_credits(credits as u32);
        let packet = frame_data_packet(data);
        let written = self.sdio.write_multi(0, packet.as_slice());
        self.sent = Ghost(self.sent@.push((packet@, written is Ok)));
        if let Err(e) = written {
            return Err(e);
        }
        Ok(())
    }

    /// The oldest received packet.
    pub fn receive(&mut self) -> (r: Option<RxPacket>)
        ensures
            old(self).spec_rx().len() == 0 ==> r is None && final(self).spec_rx() == old(self).spec_rx(),
            old(self).spec_rx().len() > 0 ==> r == Some(old(self).spec_rx()[0]) && final(self).spec_rx() == old(self).spec_rx().drop_first(),
            final(self).spec_initialized() == old(self).spec_initialized(),
    {
        self.rx_buffer.pop()
    }

    /// Service the chip's interrupt: status register 0x10 bit 2 means RX
    /// ready, bit 1 TX done (refresh credits); the status is then written
    /// back to clear it.
    pub fn handle_interrupt(&mut self) -> (r: Result<(), ZxStatus>)
        ensures
            final(self).spec_initialized() == old(self).spec_initialized(),
            final(self).spec_channel() == old(self).spec_channel(),
            final(self).spec_rx().len() <= old(self).spec_rx().len() + 1,
    {
        let status = self.sdio.read_byte(0x10)?;
        if status & 0x04 != 0 {
            self.process_rx()?;
        }
        if status & 0x02 != 0 {
            let credits = self.flow_control()?;
            self.tx_queue.set_credits(credits as u32);
        }
        self.sdio.write_byte(0x10, status)?;
        Ok(())
    }

    /// Read one packet: a 4-byte header (type, flags, little-endian length),
    /// then the block-aligned frame; data packets go to the RX buffer,
    /// tagged with the current channel (0 if none).
    fn process_rx(&mut self) -> (r: Result<(), ZxStatus>)
        ensures
            final(self).spec_initialized() == old(self).spec_initialized(),
            final(self).spec_channel() == old(self).spec_channel(),
            final(self).spec_rx() == old(self).spec_rx() || exists|p: RxPacket|
                final(self).spec_rx() == rx_after_push(old(self).spec_rx(), old(self).rx_buffer.capacity(), p)
                    && p.channel == (match old(self).spec_channel() {
                    Some(c) => c.number,
                    None => 0,
                }) && p.rssi == 0,
    {
        let mut header: Vec<u8> = vec![0u8, 0u8, 0u8, 0u8];
        self.sdio.read_multi(0, header.as_mut_slice())?;
        let pkt_type = header[0];
        let pkt_len = (header[2] as usize) + (header[3] as usize) * 256;
        if pkt_type != SdioType::Data.as_u8() {
            return Ok(());
        }
        let aligned_len = (pkt_len + 4 + config::FUNC_BLOCKSIZE - 1) / config::FUNC_BLOCKSIZE
            * config::FUNC_BLOCKSIZE;
        assert(aligned_len >= pkt_len + 4) by (nonlinear_arith)
            requires
                aligned_len == (pkt_len + 4 + 511) / 512 * 512,
        ;
        let mut buffer: Vec<u8> = vec![0u8; aligned_len];
        self.sdio.read_multi(0, buffer.as_mut_slice())?;
        let data = vstd::slice::slice_to_vec(vstd::slice::slice_subrange(buffer.as_slice(), 4, 4 + pkt_len));
        let channel = match self.current_channel {
            Some(c) => c.number,
            None => 0,
        };
        let packet = RxPacket { data, rssi: 0, channel };
        self.rx_buffer.push(packet);
        Ok(())
    }

    /// The MAC address.
    pub fn get_mac_address(&self) -> (r: [u8; 6])
        ensures
            r == self.spec_mac(),
    {
        self.mac_address
    }

    /// Tune to `channel`; the driver must be initialized.
    pub fn set_channel(&mut self, channel: &Channel) -> (r: Result<(), ZxStatus>)
        ensures
            !old(self).spec_initialized() ==> r == Err::<(), ZxStatus>(ZX_ERR_BAD_STATE)
                && final(self).spec_channel() == old(self).spec_channel(),
            old(self).spec_initialized() ==> r is Ok && final(self).spec_channel() == Some(*channel),
            final(self).spec_initialized() == old(self).spec_initialized(),
            final(self).spec_rx() == old(self).spec_rx(),
    {
        if !self.initialized {
            return Err(ZX_ERR_BAD_STATE);
        }
        self.current_channel = Some(*channel);
        Ok(())
    }

    /// The current channel.
    pub fn get_channel(&self) -> (r: Option<&Channel>)
        ensures
            self.spec_channel() is None ==> r is None,
            self.spec_channel() matches Some(c) ==> r == Some(&c),
    {
        match &self.current_channel {
            Some(c) => Some(c),
            None => None,
        }
    }

    /// Start a scan; the driver must be initialized.
    pub fn start_scan(&mut self) -> (r: Result<(), ZxStatus>)
        ensures
            !old(self).spec_initialized() ==> r == Err::<(), ZxStatus>(ZX_ERR_BAD_STATE),
            old(self).spec_initialized() ==> r is Ok,
            final(self).spec_initialized() == old(self).spec_initialized(),
    {
        if !self.initialized {
            return Err(ZX_ERR_BAD_STATE);
        }
        Ok(())
    }

    /// PHY capabilities: 2.4 GHz only, HT without VHT, 20 dBm, channels 1-13.
    pub fn get_capabilities(&self) -> (r: PhyCapabilities)
        ensures
            r.supported_bands@ == seq![WifiBand::Band2Ghz],
            r.ht_supported,
            !r.vht_supported,
            r.max_tx_power_dbm == 20,
            r.supported_channels@.len() == 13,
            forall|i: int| 0 <= i < 13 ==> #[trigger] r.supported_channels@[i] == channel_2ghz(i + 1),
    {
        let bands = vec![WifiBand::Band2Ghz];
        PhyCapabilities {
            supported_bands: bands,
            ht_supported: true,
            vht_supported: false,
            max_tx_power_dbm: 20,
            supported_channels: Channel::channels_2ghz(),
        }
    }

    /// Whether initialization completed.
    pub fn is_initialized(&self) -> (r: bool)
        ensures
            r == self.spec_initialized(),
    {
        self.initialized
    }

    /// The chip ID read during initialization (0 before).
    pub fn get_chip_id(&self) -> (r: u32)
        ensures
            r == self.spec_chip_id(),
    {
        self.chip_id
    }
}

} // verus!
