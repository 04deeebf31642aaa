//! 16550-style UART: register layout and the values the driver programs.
use vstd::prelude::*;
use crate::traits::{DriverError, DriverResult, UartConfig, UartParity};
use vstd::string::StringSliceAdditionalSpecFns;
use vstd::arithmetic::power2::pow2;

verus! {

/// Register offsets (before the bus-specific shift).
pub const REG_RBR_THR: u32 = 0x00;
pub const REG_IER: u32 = 0x04;
pub const REG_IIR_FCR: u32 = 0x08;
pub const REG_LCR: u32 = 0x0C;
pub const REG_MCR: u32 = 0x10;
pub const REG_LSR: u32 = 0x14;
pub const REG_MSR: u32 = 0x18;
pub const REG_DLL: u32 = 0x00;
pub const REG_DLH: u32 = 0x04;

/// Line status bits.
pub const LSR_DATA_READY: u32 = 0x01;
pub const LSR_OVERRUN_ERROR: u32 = 0x02;
pub const LSR_PARITY_ERROR: u32 = 0x04;
pub const LSR_FRAMING_ERROR: u32 = 0x08;
pub const LSR_BREAK_INTERRUPT: u32 = 0x10;
pub const LSR_TX_HOLDING_EMPTY: u32 = 0x20;
pub const LSR_TX_EMPTY: u32 = 0x40;
pub const LSR_FIFO_ERROR: u32 = 0x80;

/// Line control bits.
pub const LCR_WORD_LENGTH_5: u32 = 0b00;
pub const LCR_WORD_LENGTH_6: u32 = 0b01;
pub const LCR_WORD_LENGTH_7: u32 = 0b10;
pub const LCR_WORD_LENGTH_8: u32 = 0b11;
pub const LCR_STOP_BITS_1: u32 = 0x00;
pub const LCR_STOP_BITS_2: u32 = 0x04;
pub const LCR_PARITY_ENABLE: u32 = 0x08;
pub const LCR_PARITY_EVEN: u32 = 0x10;
pub const LCR_PARITY_STICK: u32 = 0x20;
pub const LCR_BREAK_CONTROL: u32 = 0x40;
pub const LCR_DLAB: u32 = 0x80;

/// FIFO control bits.
pub const FCR_FIFO_ENABLE: u32 = 0x01;
pub const FCR_RX_FIFO_RESET: u32 = 0x02;
pub const FCR_TX_FIFO_RESET: u32 = 0x04;
pub const FCR_DMA_MODE: u32 = 0x08;
pub const FCR_RX_TRIGGER_1: u32 = 0x00;
pub const FCR_RX_TRIGGER_4: u32 = 0x40;
pub const FCR_RX_TRIGGER_8: u32 = 0x80;
pub const FCR_RX_TRIGGER_14: u32 = 0xC0;

/// Modem control bits.
pub const MCR_DTR: u32 = 0x01;
pub const MCR_RTS: u32 = 0x02;
pub const MCR_OUT1: u32 = 0x04;
pub const MCR_OUT2: u32 = 0x08;
pub const MCR_LOOPBACK: u32 = 0x10;
pub const MCR_AUTOFLOW: u32 = 0x20;

/// Polls of the line status before a byte write gives up.
pub const TX_POLL_LIMIT: u32 = 100_000;

/// Polls of the line status before a flush gives up.
pub const FLUSH_POLL_LIMIT: u32 = 1_000_000;

/// Baud-rate divisor: `clock / (16 * baud)` rounded to nearest, capped at
/// 0xFFFF.
pub open spec fn divisor_of(clock_hz: u32, baud: u32) -> u16 {
    let d = (clock_hz + 8 * baud) / (16 * baud as int);
    if d > 0xFFFF {
        0xFFFFu16
    } else {
        d as u16
    }
}

/// Line control value for a configuration, or `None` when the data or stop
/// bits are out of range (5-8 data bits, 1-2 stop bits).
pub open spec fn line_control_of(config: UartConfig) -> Option<u32> {
    if !(5 <= config.data_bits <= 8) || !(1 <= config.stop_bits <= 2) {
        None
    } else {
        Some(
            ((config.data_bits - 5) + (if config.stop_bits == 2 { 4int } else { 0int }) + match config.parity {
                UartParity::NoParity => 0int,
                UartParity::Even => 0x18int,
                UartParity::Odd => 0x08int,
            }) as u32,
        )
    }
}

/// Baud-rate divisor for `baud` from a `clock_hz` input clock.
pub fn calc_divisor(clock_hz: u32, baud: u32) -> (r: u16)
    requires
        baud > 0,
    ensures
        r == divisor_of(clock_hz, baud),
{
    let d: u64 = (clock_hz as u64 + 8 * baud as u64) / (16 * baud as u64);
    if d > 0xFFFF {
        0xFFFF
    } else {
        d as u16
    }
}

/// Line control value (word length, stop bits, parity) for `config`;
/// `InvalidParam` when data or stop bits are out of range.
pub fn line_control(config: &UartConfig) -> (r: DriverResult<u32>)
    ensures
        line_control_of(*config) matches Some(v) ==> (r matches Ok(w) && w == v),
        line_control_of(*config) is None ==> r matches Err(DriverError::InvalidParam),
{
    let word = match config.data_bits {
        5 => LCR_WORD_LENGTH_5,
        6 => LCR_WORD_LENGTH_6,
        7 => LCR_WORD_LENGTH_7,
        8 => LCR_WORD_LENGTH_8,
        _ => {
            return Err(DriverError::InvalidParam);
        },
    };
    let stop = match config.stop_bits {
        1 => LCR_STOP_BITS_1,
        2 => LCR_STOP_BITS_2,
        _ => {
            return Err(DriverError::InvalidParam);
        },
    };
    let parity = match config.parity {
        UartParity::NoParity => 0,
        UartParity::Even => LCR_PARITY_ENABLE | LCR_PARITY_EVEN,
        UartParity::Odd => LCR_PARITY_ENABLE,
    };
    assert(LCR_PARITY_ENABLE | LCR_PARITY_EVEN == 0x18) by (bit_vector);
    Ok(word + stop + parity)
}

/// FIFO control value: FIFOs enabled and reset, RX trigger at 8 bytes.
pub fn fifo_control() -> (r: u32)
    ensures
        r == 0x87,
{
    assert(FCR_FIFO_ENABLE | FCR_RX_FIFO_RESET | FCR_TX_FIFO_RESET | FCR_RX_TRIGGER_8 == 0x87) by (bit_vector);
    FCR_FIFO_ENABLE | FCR_RX_FIFO_RESET | FCR_TX_FIFO_RESET | FCR_RX_TRIGGER_8
}

/// Modem control value: DTR and RTS, plus automatic flow control if asked.
pub fn modem_control(flow_control: bool) -> (r: u32)
    ensures
        r == (if flow_control { 0x23u32 } else { 0x03u32 }),
{
    if flow_control {
        assert(MCR_DTR | MCR_RTS | MCR_AUTOFLOW == 0x23) by (bit_vector);
        MCR_DTR | MCR_RTS | MCR_AUTOFLOW
    } else {
        assert(MCR_DTR | MCR_RTS == 0x03) by (bit_vector);
        MCR_DTR | MCR_RTS
    }
}

/// Byte offset of register `offset` on a bus that spaces registers by
/// `1 << reg_shift` bytes: the shifted offset in 32 bits, rounded down to a
/// whole 32-bit word.
pub fn register_offset(offset: u32, reg_shift: u32) -> (r: u32)
    requires
        reg_shift < 32,
    ensures
        r == (offset * pow2(reg_shift as nat)) % 0x1_0000_0000 / 4 * 4,
{
    let scaled = (offset as u64) << (reg_shift as u64);
    proof {
        vstd::arithmetic::power2::lemma2_to64();
        vstd::arithmetic::power2::lemma_pow2_strictly_increases(reg_shift as nat, 32);
        assert(offset as u64 * pow2(reg_shift as u64 as nat) <= u64::MAX) by (nonlinear_arith)
            requires
                offset <= u32::MAX,
                pow2(reg_shift as nat) < 0x1_0000_0000,
        ;
        vstd::bits::lemma_u64_shl_is_mul(offset as u64, reg_shift as u64);
    }
    ((scaled % 0x1_0000_0000) / 4 * 4) as u32
}


/// Lower-case hexadecimal digit of a nibble.
pub open spec fn hex_digit(nibble: u32) -> u8 {
    if nibble < 10 {
        (0x30 + nibble) as u8
    } else {
        (0x61 + nibble - 10) as u8
    }
}

/// `0x` followed by the eight lower-case hex digits of `value`, most
/// significant first.
pub open spec fn hex_text(value: u32) -> Seq<u8> {
    seq![0x30u8, 0x78u8] + Seq::new(8, |i: int| hex_digit(((value as int / pow2((4 * (7 - i)) as nat) as int) % 16) as u32))
}

/// The bytes a console sends for `text`: each line feed preceded by a
/// carriage return.
pub open spec fn console_bytes(text: Seq<u8>) -> Seq<u8>
    decreases text.len(),
{
    if text.len() == 0 {
        seq![]
    } else {
        console_bytes(text.drop_last()) + if text.last() == 0x0A {
            seq![0x0Du8, 0x0Au8]
        } else {
            seq![text.last()]
        }
    }
}

/// The bytes `put_hex` sends for `value`.
pub fn hex_bytes(value: u32) -> (r: Vec<u8>)
    ensures
        r@ == hex_text(value),
{
    let mut out: Vec<u8> = vec![0x30, 0x78];
    let mut i: u32 = 0;
    while i < 8
        invariant
            i <= 8,
            out@ == seq![0x30u8, 0x78u8] + Seq::new(i as nat, |k: int| hex_digit(((value as int / pow2((4 * (7 - k)) as nat) as int) % 16) as u32)),
        decreases 8 - i,
    {
        let shift = (7 - i) * 4;
        let nibble = (value >> shift) & 0xF;
        proof {
            lemma_shift_is_div(value, shift);
        }
        let c = if nibble < 10 {
            0x30 + nibble as u8
        } else {
            0x61 + (nibble - 10) as u8
        };
        out.push(c);
        i = i + 1;
        assert(out@ =~= seq![0x30u8, 0x78u8] + Seq::new(i as nat, |k: int| hex_digit(((value as int / pow2((4 * (7 - k)) as nat) as int) % 16) as u32)));
    }
    out
}


proof fn lemma_shift_is_div(value: u32, shift: u32)
    requires
        shift % 4 == 0,
        shift <= 28,
    ensures
        (value >> shift) & 0xF == (value as int / pow2(shift as nat) as int) % 16,
{
    vstd::arithmetic::power2::lemma2_to64();
    assert((value >> shift) & 0xF == (value >> shift) % 16) by (bit_vector);
    if shift == 0 {
        assert(value >> 0u32 == value) by (bit_vector);
    } else if shift == 4 {
        assert(value >> 4u32 == value / 0x10) by (bit_vector);
    } else if shift == 8 {
        assert(value >> 8u32 == value / 0x100) by (bit_vector);
    } else if shift == 12 {
        assert(value >> 12u32 == value / 0x1000) by (bit_vector);
    } else if shift == 16 {
        assert(value >> 16u32 == value / 0x10000) by (bit_vector);
    } else if shift == 20 {
        assert(value >> 20u32 == value / 0x100000) by (bit_vector);
    } else if shift == 24 {
        assert(value >> 24u32 == value / 0x1000000) by (bit_vector);
    } else {
        assert(value >> 28u32 == value / 0x10000000) by (bit_vector);
    }
}

/// The bytes `puts` sends for `text`.
pub fn console_text(text: &str) -> (r: Vec<u8>)
    ensures
        r@ == console_bytes(text.spec_bytes()),
{
    let bytes = text.as_bytes();
    let mut out: Vec<u8> = Vec::new();
    let mut i: usize = 0;
    while i < bytes.len()
        invariant
            bytes@ == text.spec_bytes(),
            i <= bytes@.len(),
            out@ == console_bytes(bytes@.subrange(0, i as int)),
        decreases bytes@.len() - i,
    {
        let c = bytes[i];
        if c == 0x0A {
            out.push(0x0D);
        }
        out.push(c);
        proof {
            assert(bytes@.subrange(0, i + 1 as int).drop_last() =~= bytes@.subrange(0, i as int));
        }
        i = i + 1;
        assert(out@ =~= console_bytes(bytes@.subrange(0, i as int)));
    }
    assert(bytes@.subrange(0, bytes@.len() as int) =~= bytes@);
    out
}

} // verus!
