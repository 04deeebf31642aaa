use soliloquy_drivers::clock::{
    aw_gate, aw_mmc_clock_reg, calc_divider, calc_pll_rate, clamp_rate, mmc_clock_dividers, mmc_clock_register,
    ClockDesc, ClockSource, ClockTable, AW_BUS_CLK_GATE0, AW_BUS_CLK_GATE2,
};
use soliloquy_drivers::gpio::{
    alt_field, aw_cfg_reg, aw_pull_field, aw_split_pin, bank_and_pin, modify_bits, pin_mask, pull_field, pull_value,
};
use soliloquy_drivers::traits::{ClockId, ClockRate, DriverError, GpioPull, UartConfig, UartParity};
use soliloquy_drivers::uart::{calc_divisor, console_text, fifo_control, hex_bytes, line_control, modem_control, register_offset};

#[test]
fn test_divisor_calculation() {
    assert_eq!(calc_divisor(24_000_000, 115200), 13);
    assert_eq!(calc_divisor(24_000_000, 9600), 156);
}

#[test]
fn divisor_rounds_and_saturates() {
    assert_eq!(calc_divisor(24_000_000, 1), 0xFFFF);
    assert_eq!(calc_divisor(u32::MAX, u32::MAX), 0);
    assert_eq!(calc_divisor(1_843_200, 115200), 1);
}

#[test]
fn line_control_encodes_frame_format() {
    assert_eq!(line_control(&UartConfig::default()).unwrap(), 0x03);
    let cfg = UartConfig { baud_rate: 9600, data_bits: 7, stop_bits: 2, parity: UartParity::Even, flow_control: true };
    assert_eq!(line_control(&cfg).unwrap(), 0x02 | 0x04 | 0x18);
    let odd = UartConfig { parity: UartParity::Odd, data_bits: 5, ..UartConfig::default() };
    assert_eq!(line_control(&odd).unwrap(), 0x08);
    let bad = UartConfig { data_bits: 9, ..UartConfig::default() };
    assert!(matches!(line_control(&bad), Err(DriverError::InvalidParam)));
    let bad_stop = UartConfig { stop_bits: 3, ..UartConfig::default() };
    assert!(matches!(line_control(&bad_stop), Err(DriverError::InvalidParam)));
    assert_eq!(fifo_control(), 0x87);
    assert_eq!(modem_control(true), 0x23);
    assert_eq!(modem_control(false), 0x03);
}

#[test]
fn console_text_and_hex() {
    assert_eq!(console_text("a\nb"), vec![b'a', b'\r', b'\n', b'b']);
    assert_eq!(hex_bytes(0xDEAD_beef), b"0xdeadbeef".to_vec());
    assert_eq!(hex_bytes(0x1A), b"0x0000001a".to_vec());
    assert_eq!(register_offset(0x14, 2), 0x50);
    assert_eq!(register_offset(0x14, 0), 0x14);
    assert_eq!(register_offset(0x8000_0001, 1), 0);
}

#[test]
fn gpio_field_layout() {
    assert_eq!(modify_bits(0xFFFF_0000, 0x00FF_FF00, 0x1234_5678), 0xFF34_5600);
    assert_eq!(pin_mask(3, 4), 0x80);
    assert_eq!(pull_value(GpioPull::Floating), 0);
    assert_eq!(pull_value(GpioPull::Down), 2);
    assert_eq!(pull_field(17), (0x1C + 4, 2));
    assert_eq!(alt_field(9), (4, 4));
    assert_eq!(bank_and_pin(70, 32), (2, 6));
    assert_eq!(aw_split_pin(70, 3).unwrap(), (2, 6));
    assert!(matches!(aw_split_pin(96, 3), Err(DriverError::InvalidParam)));
    assert_eq!(aw_cfg_reg(26).unwrap(), 0x0C);
    assert!(matches!(aw_cfg_reg(32), Err(DriverError::InvalidParam)));
    assert_eq!(aw_pull_field(5), (0x1C, 10));
    assert_eq!(aw_pull_field(20), (0x20, 8));
}

#[test]
fn clock_arithmetic() {
    assert_eq!(calc_divider(ClockRate(24_000_000), ClockRate(0)), 1);
    assert_eq!(calc_divider(ClockRate(24_000_000), ClockRate(48_000_000)), 1);
    assert_eq!(calc_divider(ClockRate(24_000_000), ClockRate(7_000_000)), 3);
    assert_eq!(clamp_rate(5, 10, 20), 10);
    assert_eq!(clamp_rate(25, 10, 20), 20);
    assert_eq!(calc_pll_rate(24_000_000, 0x0000_2900), 24_000_000 * 42);
    assert_eq!(calc_pll_rate(24_000_000, 0x0003_2901), 24_000_000 * 42 / 8);
    assert_eq!(aw_gate(ClockId(3)).unwrap(), (AW_BUS_CLK_GATE2, 19));
    assert_eq!(aw_gate(ClockId(129)).unwrap(), (AW_BUS_CLK_GATE0, 9));
    assert_eq!(aw_gate(ClockId(162)).unwrap(), (AW_BUS_CLK_GATE2, 2));
    assert!(matches!(aw_gate(ClockId(6)), Err(DriverError::NotSupported)));
    assert_eq!(aw_mmc_clock_reg(2).unwrap(), 0x838);
    assert!(matches!(aw_mmc_clock_reg(3), Err(DriverError::InvalidParam)));
}

#[test]
fn mmc_divider_search_picks_best_rate_below_target() {
    let src = 1_200_000_000u64;
    let (n, m, rate) = mmc_clock_dividers(src, 50_000_000);
    assert_eq!(rate, 50_000_000);
    assert_eq!(src / ((1u64 << n) * (m as u64 + 1)), rate);
    assert_eq!((n, m), (1, 11));
    let (n, m, rate) = mmc_clock_dividers(src, 1);
    assert_eq!((n, m, rate), (0, 0, 0));
    let (_, _, rate) = mmc_clock_dividers(src, 400_000);
    assert_eq!(rate, 0);
    let (n, m, rate) = mmc_clock_dividers(src, 2_000_000_000);
    assert_eq!((n, m, rate), (0, 0, 1_200_000_000));
    assert_eq!(mmc_clock_register(3, 2), 0x8100_0302);
}

#[test]
fn clock_table_bookkeeping() {
    let mut table = ClockTable::new();
    let desc = ClockDesc {
        id: ClockId(7),
        name: "uart0",
        source: ClockSource::Derived,
        parent: Some(ClockId(1)),
        min_rate: ClockRate(1),
        max_rate: ClockRate(100),
        default_rate: ClockRate(50),
    };
    table.register_clock(desc);
    table.register_clock(ClockDesc { id: ClockId(1), parent: None, ..desc });
    assert_eq!(table.find_clock_idx(ClockId(1)).unwrap(), 1);
    assert!(matches!(table.find_clock_idx(ClockId(9)), Err(DriverError::NotFound)));
    let st = table.state(0);
    assert!(!st.enabled);
    assert_eq!(st.rate, ClockRate(50));
    assert_eq!(st.parent, Some(ClockId(1)));
    table.set_state(0, soliloquy_drivers::clock::ClockState { enabled: true, ..st });
    assert!(table.state(0).enabled);
    assert_eq!(table.desc(1).name, "uart0");
}
