//! Driver interfaces and the data and error vocabulary they share.
use vstd::prelude::*;

verus! {

/// Result of a driver operation.
pub type DriverResult<T> = Result<T, DriverError>;

/// Generic driver error.
#[derive(Debug, Clone)]
pub enum DriverError {
    /// Hardware not found or not responding
    NotFound,
    /// Device is busy
    Busy,
    /// Invalid parameter
    InvalidParam,
    /// Timeout waiting for operation
    Timeout,
    /// I/O error
    IoError,
    /// Not supported by this driver
    NotSupported,
    /// Out of memory
    NoMemory,
    /// Permission denied
    PermissionDenied,
    /// Device-specific error
    DeviceError(u32),
    /// Custom error message
    Custom(String),
}

/// Lower-case hexadecimal digit of a nibble.
pub open spec fn hex_char(nibble: int) -> char {
    if nibble < 10 {
        (48 + nibble) as char
    } else {
        (87 + nibble) as char
    }
}

/// The eight lower-case hexadecimal digits of `code`, most significant first.
pub open spec fn hex8(code: u32) -> Seq<char> {
    Seq::new(8, |i: int| hex_char((code as int / vstd::arithmetic::power2::pow2((4 * (7 - i)) as nat) as int) % 16))
}

/// Human-readable text of an error.
pub open spec fn error_text(e: DriverError) -> Seq<char> {
    match e {
        DriverError::NotFound => "device not found"@,
        DriverError::Busy => "device busy"@,
        DriverError::InvalidParam => "invalid parameter"@,
        DriverError::Timeout => "operation timeout"@,
        DriverError::IoError => "I/O error"@,
        DriverError::NotSupported => "not supported"@,
        DriverError::NoMemory => "out of memory"@,
        DriverError::PermissionDenied => "permission denied"@,
        DriverError::DeviceError(code) => "device error: 0x"@ + hex8(code),
        DriverError::Custom(msg) => msg@,
    }
}

/// Relies on `format!` with `{:08x}`: the prefix followed by the lower-case
/// hexadecimal digits of `code`, zero-padded to eight.
#[verifier::external_body]
fn device_error_text(code: u32) -> (r: String)
    ensures
        r@ == "device error: 0x"@ + hex8(code),
{
    format!("device error: 0x{:08x}", code)
}

impl DriverError {
    /// Human-readable text of the error.
    pub fn message(&self) -> (r: String)
        ensures
            r@ == error_text(*self),
    {
        match self {
            DriverError::NotFound => "device not found".to_owned(),
            DriverError::Busy => "device busy".to_owned(),
            DriverError::InvalidParam => "invalid parameter".to_owned(),
            DriverError::Timeout => "operation timeout".to_owned(),
            DriverError::IoError => "I/O error".to_owned(),
            DriverError::NotSupported => "not supported".to_owned(),
            DriverError::NoMemory => "out of memory".to_owned(),
            DriverError::PermissionDenied => "permission denied".to_owned(),
            DriverError::DeviceError(code) => device_error_text(*code),
            DriverError::Custom(msg) => msg.clone(),
        }
    }
}

// ---------------------------------------------------------------------------
// GPIO
// ---------------------------------------------------------------------------

/// GPIO pin direction.
#[derive(Debug, Clone, Copy, PartialEq, Eq, Structural)]
pub enum GpioDirection {
    Input,
    Output,
}

/// GPIO pull configuration.
#[derive(Debug, Clone, Copy, PartialEq, Eq, Structural)]
pub enum GpioPull {
    /// No pull resistor
    Floating,
    Up,
    Down,
}

/// GPIO pin configuration.
#[derive(Debug, Clone, Copy)]
pub struct GpioConfig {
    pub direction: GpioDirection,
    pub pull: GpioPull,
    pub initial_value: bool,
}

impl Default for GpioConfig {
    /// An input pin without pull resistor, initially low.
    fn default() -> (r: Self)
        ensures
            r.direction == GpioDirection::Input,
            r.pull == GpioPull::Floating,
            !r.initial_value,
    {
        GpioConfig { direction: GpioDirection::Input, pull: GpioPull::Floating, initial_value: false }
    }
}

/// Generic GPIO driver.
pub trait GpioDriver {
    /// Number of GPIO pins available.
    fn pin_count(&self) -> u32;

    /// Configure a GPIO pin.
    fn configure(&mut self, pin: u32, config: &GpioConfig) -> DriverResult<()>;

    /// Read the value of a GPIO pin.
    fn read(&self, pin: u32) -> DriverResult<bool>;

    /// Write a value to a GPIO pin.
    fn write(&mut self, pin: u32, value: bool) -> DriverResult<()>;

    /// Toggle a GPIO pin: read it, then write the opposite level.
    fn toggle(&mut self, pin: u32) -> DriverResult<()> {
        let current = self.read(pin)?;
        self.write(pin, !current)
    }

    /// Set alternate function for a pin (if supported).
    fn set_alt_function(&mut self, pin: u32, function: u32) -> DriverResult<()>;
}

// ---------------------------------------------------------------------------
// Clock
// ---------------------------------------------------------------------------

/// Clock identifier.
#[derive(Debug, Clone, Copy, PartialEq, Eq, Structural)]
pub struct ClockId(pub u32);

/// Clock rate in Hz.
#[derive(Debug, Clone, Copy, PartialEq, Eq, Structural)]
pub struct ClockRate(pub u64);

impl ClockRate {
    /// A rate given in MHz.
    pub fn mhz(mhz: u64) -> (r: Self)
        requires
            mhz * 1_000_000 <= u64::MAX,
        ensures
            r.0 == mhz * 1_000_000,
    {
        ClockRate(mhz * 1_000_000)
    }

    /// A rate given in kHz.
    pub fn khz(khz: u64) -> (r: Self)
        requires
            khz * 1_000 <= u64::MAX,
        ensures
            r.0 == khz * 1_000,
    {
        ClockRate(khz * 1_000)
    }

    /// The rate in Hz.
    pub fn as_hz(&self) -> (r: u64)
        ensures
            r == self.0,
    {
        self.0
    }
}

/// Generic clock driver.
pub trait ClockDriver {
    /// Enable a clock.
    fn enable(&mut self, clock: ClockId) -> DriverResult<()>;

    /// Disable a clock.
    fn disable(&mut self, clock: ClockId) -> DriverResult<()>;

    /// Check if a clock is enabled.
    fn is_enabled(&self, clock: ClockId) -> DriverResult<bool>;

    /// Current rate of a clock.
    fn get_rate(&self, clock: ClockId) -> DriverResult<ClockRate>;

    /// Set the rate of a clock; returns the rate actually applied.
    fn set_rate(&mut self, clock: ClockId, rate: ClockRate) -> DriverResult<ClockRate>;

    /// The parent clock, if any.
    fn get_parent(&self, clock: ClockId) -> DriverResult<Option<ClockId>>;

    /// Set the parent clock.
    fn set_parent(&mut self, clock: ClockId, parent: ClockId) -> DriverResult<()>;
}

// ---------------------------------------------------------------------------
// Reset
// ---------------------------------------------------------------------------

/// Reset line identifier.
#[derive(Debug, Clone, Copy, PartialEq, Eq, Structural)]
pub struct ResetId(pub u32);

/// Generic reset controller.
pub trait ResetDriver {
    /// Assert a reset signal.
    fn assert_reset(&mut self, reset: ResetId) -> DriverResult<()>;

    /// Deassert a reset signal.
    fn deassert(&mut self, reset: ResetId) -> DriverResult<()>;

    /// Check if a reset is asserted.
    fn is_asserted(&self, reset: ResetId) -> DriverResult<bool>;

    /// Pulse a reset: assert, then deassert.
    fn reset(&mut self, reset: ResetId) -> DriverResult<()> {
        self.assert_reset(reset)?;
        self.deassert(reset)
    }
}

// ---------------------------------------------------------------------------
// MMC / SD
// ---------------------------------------------------------------------------

/// MMC card type.
#[derive(Debug, Clone, Copy, PartialEq, Eq, Structural)]
pub enum MmcCardType {
    Mmc,
    Sd,
    SdHc,
    SdXc,
    Emmc,
}

/// MMC bus width.
#[derive(Debug, Clone, Copy, PartialEq, Eq, Structural)]
pub enum MmcBusWidth {
    Width1,
    Width4,
    Width8,
}

/// What initialization learned about the card.
#[derive(Debug, Clone, Copy, PartialEq, Eq, Structural)]
pub struct MmcCardInfo {
    pub card_type: MmcCardType,
    pub capacity_bytes: u64,
    pub block_size: u32,
    pub bus_width: MmcBusWidth,
    pub max_frequency: u32,
}

/// Generic MMC/SD driver.
pub trait MmcDriver {
    /// Initialize the card.
    fn init(&mut self) -> DriverResult<()>;

    /// Whether a card is present.
    fn card_present(&self) -> bool;

    /// Card information.
    fn card_info(&self) -> DriverResult<MmcCardInfo>;

    /// Read blocks from the card.
    fn read_blocks(&mut self, start_block: u64, buffer: &mut [u8]) -> DriverResult<usize>;

    /// Write blocks to the card.
    fn write_blocks(&mut self, start_block: u64, data: &[u8]) -> DriverResult<usize>;

    /// Erase blocks.
    fn erase_blocks(&mut self, start_block: u64, block_count: u64) -> DriverResult<()>;

    /// Flush any cached writes.
    fn flush(&mut self) -> DriverResult<()>;
}

// ---------------------------------------------------------------------------
// I2C
// ---------------------------------------------------------------------------

/// I2C speed mode.
#[derive(Debug, Clone, Copy, PartialEq, Eq, Structural)]
pub enum I2cSpeed {
    /// 100 kHz
    Standard,
    /// 400 kHz
    Fast,
    /// 1 MHz
    FastPlus,
    /// 3.4 MHz
    High,
}

/// Generic I2C driver.
pub trait I2cDriver {
    /// Set the bus speed.
    fn set_speed(&mut self, speed: I2cSpeed) -> DriverResult<()>;

    /// Write data to a device.
    fn write(&mut self, addr: u8, data: &[u8]) -> DriverResult<()>;

    /// Read data from a device.
    fn read(&mut self, addr: u8, buffer: &mut [u8]) -> DriverResult<()>;

    /// Write then read (combined transaction).
    fn write_read(&mut self, addr: u8, write_data: &[u8], read_buffer: &mut [u8]) -> DriverResult<()>;

    /// Scan for devices on the bus.
    fn scan(&mut self) -> DriverResult<Vec<u8>>;
}

// ---------------------------------------------------------------------------
// SPI
// ---------------------------------------------------------------------------

/// SPI mode (CPOL, CPHA).
#[derive(Debug, Clone, Copy, PartialEq, Eq, Structural)]
pub enum SpiMode {
    /// CPOL=0, CPHA=0
    Mode0,
    /// CPOL=0, CPHA=1
    Mode1,
    /// CPOL=1, CPHA=0
    Mode2,
    /// CPOL=1, CPHA=1
    Mode3,
}

/// SPI configuration.
#[derive(Debug, Clone, Copy)]
pub struct SpiConfig {
    pub mode: SpiMode,
    pub frequency: u32,
    pub bits_per_word: u8,
    pub lsb_first: bool,
}

impl Default for SpiConfig {
    /// Mode 0 at 1 MHz, 8-bit words, MSB first.
    fn default() -> (r: Self)
        ensures
            r.mode == SpiMode::Mode0,
            r.frequency == 1_000_000,
            r.bits_per_word == 8,
            !r.lsb_first,
    {
        SpiConfig { mode: SpiMode::Mode0, frequency: 1_000_000, bits_per_word: 8, lsb_first: false }
    }
}

/// Generic SPI driver.
pub trait SpiDriver {
    /// Configure the SPI bus.
    fn configure(&mut self, config: &SpiConfig) -> DriverResult<()>;

    /// Transfer data (simultaneous read/write).
    fn transfer(&mut self, tx: &[u8], rx: &mut [u8]) -> DriverResult<()>;

    /// Write data only.
    fn write(&mut self, data: &[u8]) -> DriverResult<()>;

    /// Read data only.
    fn read(&mut self, buffer: &mut [u8]) -> DriverResult<()>;
}

// ---------------------------------------------------------------------------
// UART
// ---------------------------------------------------------------------------

/// UART parity.
#[derive(Debug, Clone, Copy, PartialEq, Eq, Structural)]
pub enum UartParity {
    /// No parity bit
    NoParity,
    Even,
    Odd,
}

/// UART configuration.
#[derive(Debug, Clone, Copy)]
pub struct UartConfig {
    pub baud_rate: u32,
    pub data_bits: u8,
    pub stop_bits: u8,
    pub parity: UartParity,
    pub flow_control: bool,
}

impl Default for UartConfig {
    /// 115200 baud, 8N1, no flow control.
    fn default() -> (r: Self)
        ensures
            r.baud_rate == 115200,
            r.data_bits == 8,
            r.stop_bits == 1,
            r.parity == UartParity::NoParity,
            !r.flow_control,
    {
        UartConfig {
            baud_rate: 115200,
            data_bits: 8,
            stop_bits: 1,
            parity: UartParity::NoParity,
            flow_control: false,
        }
    }
}

/// Generic UART driver.
pub trait UartDriver {
    /// Configure the UART.
    fn configure(&mut self, config: &UartConfig) -> DriverResult<()>;

    /// Write data; returns the number of bytes written.
    fn write(&mut self, data: &[u8]) -> DriverResult<usize>;

    /// Read data without blocking; returns the number of bytes read.
    fn read(&mut self, buffer: &mut [u8]) -> DriverResult<usize>;

    /// Number of bytes available to read.
    fn available(&self) -> usize;

    /// Flush the transmit buffer.
    fn flush(&mut self) -> DriverResult<()>;
}

// ---------------------------------------------------------------------------
// Interrupts
// ---------------------------------------------------------------------------

/// Interrupt trigger type.
#[derive(Debug, Clone, Copy, PartialEq, Eq, Structural)]
pub enum InterruptTrigger {
    LevelHigh,
    LevelLow,
    EdgeRising,
    EdgeFalling,
    EdgeBoth,
}

/// Generic interrupt controller.
pub trait InterruptDriver {
    /// Enable an interrupt.
    fn enable(&mut self, irq: u32) -> DriverResult<()>;

    /// Disable an interrupt.
    fn disable(&mut self, irq: u32) -> DriverResult<()>;

    /// Set the trigger type of an interrupt.
    fn set_trigger(&mut self, irq: u32, trigger: InterruptTrigger) -> DriverResult<()>;

    /// Acknowledge/clear an interrupt.
    fn acknowledge(&mut self, irq: u32) -> DriverResult<()>;

    /// Whether an interrupt is pending.
    fn is_pending(&self, irq: u32) -> bool;

    /// Set interrupt priority (0 = highest).
    fn set_priority(&mut self, irq: u32, priority: u8) -> DriverResult<()>;
}

// ---------------------------------------------------------------------------
// Power management
// ---------------------------------------------------------------------------

/// Power domain identifier.
#[derive(Debug, Clone, Copy, PartialEq, Eq, Structural)]
pub struct PowerDomain(pub u32);

/// Voltage regulator identifier.
#[derive(Debug, Clone, Copy, PartialEq, Eq, Structural)]
pub struct RegulatorId(pub u32);

/// Generic power management driver.
pub trait PowerDriver {
    /// Enable a power domain.
    fn power_on(&mut self, domain: PowerDomain) -> DriverResult<()>;

    /// Disable a power domain.
    fn power_off(&mut self, domain: PowerDomain) -> DriverResult<()>;

    /// Set the voltage of a regulator, in microvolts.
    fn set_voltage(&mut self, regulator: RegulatorId, voltage_uv: u32) -> DriverResult<()>;

    /// Current voltage of a regulator, in microvolts.
    fn get_voltage(&self, regulator: RegulatorId) -> DriverResult<u32>;

    /// Enable a regulator.
    fn enable_regulator(&mut self, regulator: RegulatorId) -> DriverResult<()>;

    /// Disable a regulator.
    fn disable_regulator(&mut self, regulator: RegulatorId) -> DriverResult<()>;
}

// ---------------------------------------------------------------------------
// DMA
// ---------------------------------------------------------------------------

/// DMA transfer direction.
#[derive(Debug, Clone, Copy, PartialEq, Eq, Structural)]
pub enum DmaDirection {
    MemToMem,
    MemToDev,
    DevToMem,
}

/// DMA channel identifier.
#[derive(Debug, Clone, Copy, PartialEq, Eq, Structural)]
pub struct DmaChannel(pub u32);

/// DMA transfer descriptor.
#[derive(Debug, Clone, Copy)]
pub struct DmaTransfer {
    pub src_addr: u64,
    pub dst_addr: u64,
    pub length: usize,
    pub direction: DmaDirection,
}

/// Generic DMA driver.
pub trait DmaDriver {
    /// Allocate a DMA channel.
    fn allocate_channel(&mut self) -> DriverResult<DmaChannel>;

    /// Free a DMA channel.
    fn free_channel(&mut self, channel: DmaChannel) -> DriverResult<()>;

    /// Start a DMA transfer.
    fn start_transfer(&mut self, channel: DmaChannel, transfer: &DmaTransfer) -> DriverResult<()>;

    /// Wait for transfer completion.
    fn wait_complete(&mut self, channel: DmaChannel) -> DriverResult<()>;

    /// Whether a transfer is complete.
    fn is_complete(&self, channel: DmaChannel) -> bool;

    /// Abort a transfer.
    fn abort(&mut self, channel: DmaChannel) -> DriverResult<()>;
}

} // verus!
