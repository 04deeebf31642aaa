use soliloquy_drivers::cmd;
use soliloquy_drivers::mmc::{addr, BlockDevice, GenericMmcDriver, MmcCmdFlags, MmcHostOps, MmcResponse};
use soliloquy_drivers::traits::{DriverError, DriverResult, MmcBusWidth, MmcCardType, MmcDriver};
use std::cell::RefCell;
use std::rc::Rc;

#[derive(Debug, Clone, PartialEq)]
enum Event {
    Cmd(u32, u32, MmcResponse, bool, bool, bool),
    Read(u32),
    Write(u32),
    Bus(MmcBusWidth),
    Clock(u32),
    Wait(u32),
}

struct State {
    present: bool,
    cmd8: Option<u32>,
    acmd41: Option<u32>,
    cmd1: Option<u32>,
    cmd3: u32,
    fail_cmd: Option<u32>,
    fail_read_at: Option<usize>,
    reads: usize,
    events: Vec<Event>,
}

impl State {
    fn sdhc() -> Self {
        State {
            present: true,
            cmd8: Some(0x1AA),
            acmd41: Some(0xC0FF_8000),
            cmd1: None,
            cmd3: 0xABCD_0000,
            fail_cmd: None,
            fail_read_at: None,
            reads: 0,
            events: Vec::new(),
        }
    }

    fn emmc() -> Self {
        State {
            present: true,
            cmd8: None,
            acmd41: None,
            cmd1: Some(0x80FF_8080),
            cmd3: 0,
            fail_cmd: None,
            fail_read_at: None,
            reads: 0,
            events: Vec::new(),
        }
    }

    fn commands(&self, c: u32) -> usize {
        self.events.iter().filter(|e| matches!(e, Event::Cmd(x, ..) if *x == c)).count()
    }
}

struct MockHost(Rc<RefCell<State>>);

impl MmcHostOps for MockHost {
    fn send_cmd(&mut self, c: u32, arg: u32, flags: MmcCmdFlags) -> DriverResult<u32> {
        let mut s = self.0.borrow_mut();
        s.events.push(Event::Cmd(c, arg, flags.response, flags.data, flags.write, flags.multi_block));
        if s.fail_cmd == Some(c) {
            return Err(DriverError::DeviceError(c));
        }
        let reply = match (c, flags.response) {
            (8, MmcResponse::R7) => s.cmd8,
            (41, _) => s.acmd41,
            (1, MmcResponse::R3) => s.cmd1,
            (3, MmcResponse::R6) => Some(s.cmd3),
            _ => Some(0),
        };
        reply.ok_or(DriverError::IoError)
    }

    fn read_data(&mut self, buffer: &mut [u8], block_size: u32) -> DriverResult<()> {
        let mut s = self.0.borrow_mut();
        s.events.push(Event::Read(block_size));
        let n = s.reads;
        s.reads += 1;
        if s.fail_read_at == Some(n) {
            return Err(DriverError::DeviceError(0xDA7A));
        }
        buffer.fill(0x5A);
        Ok(())
    }

    fn write_data(&mut self, data: &[u8], block_size: u32) -> DriverResult<()> {
        assert_eq!(data.len(), block_size as usize);
        self.0.borrow_mut().events.push(Event::Write(block_size));
        Ok(())
    }

    fn set_bus_width(&mut self, width: MmcBusWidth) -> DriverResult<()> {
        self.0.borrow_mut().events.push(Event::Bus(width));
        Ok(())
    }

    fn set_clock(&mut self, freq_hz: u32) -> DriverResult<()> {
        self.0.borrow_mut().events.push(Event::Clock(freq_hz));
        Ok(())
    }

    fn wait_ready(&mut self, timeout_ms: u32) -> DriverResult<()> {
        self.0.borrow_mut().events.push(Event::Wait(timeout_ms));
        Ok(())
    }

    fn card_detect(&self) -> bool {
        self.0.borrow().present
    }
}

fn driver(state: State) -> (GenericMmcDriver<MockHost>, Rc<RefCell<State>>) {
    let shared = Rc::new(RefCell::new(state));
    (GenericMmcDriver::new(MockHost(shared.clone())), shared)
}

#[test]
fn test_mmc_cmd_flags_default() {
    let flags = MmcCmdFlags::default();
    assert_eq!(flags.response, MmcResponse::R1);
    assert!(!flags.data);
    assert!(!flags.write);
}

#[test]
fn sdhc_card_initializes() {
    let (mut d, _) = driver(State::sdhc());
    assert!(d.init().is_ok());
    let info = d.card_info().unwrap();
    assert_eq!(info.card_type, MmcCardType::SdHc);
    assert_eq!(info.bus_width, MmcBusWidth::Width4);
    assert_eq!(info.max_frequency, 50_000_000);
    assert_eq!(info.capacity_bytes, 32 * 1024 * 1024 * 1024);
    assert_eq!(info.block_size, 512);
    assert_eq!(d.rca(), 0xABCD);
}

#[test]
fn sdhc_init_request_sequence() {
    let (mut d, st) = driver(State::sdhc());
    d.init().unwrap();
    let s = st.borrow();
    let r1 = MmcResponse::R1;
    assert_eq!(
        s.events,
        vec![
            Event::Clock(400_000),
            Event::Bus(MmcBusWidth::Width1),
            Event::Cmd(0, 0, MmcResponse::NoResponse, false, false, false),
            Event::Cmd(8, 0x1AA, MmcResponse::R7, false, false, false),
            Event::Cmd(55, 0, r1, false, false, false),
            Event::Cmd(41, 0x40FF_8000, MmcResponse::R3, false, false, false),
            Event::Cmd(2, 0, MmcResponse::R2, false, false, false),
            Event::Cmd(3, 0, MmcResponse::R6, false, false, false),
            Event::Cmd(7, 0xABCD_0000, MmcResponse::R1b, false, false, false),
            Event::Cmd(55, 0xABCD_0000, r1, false, false, false),
            Event::Cmd(6, 2, r1, false, false, false),
            Event::Bus(MmcBusWidth::Width4),
            Event::Cmd(16, 512, r1, false, false, false),
            Event::Clock(50_000_000),
        ]
    );
}

#[test]
fn standard_sd_card_without_ccs() {
    let mut st = State::sdhc();
    st.acmd41 = Some(0x80FF_8000);
    let (mut d, _) = driver(st);
    d.init().unwrap();
    let info = d.card_info().unwrap();
    assert_eq!(info.card_type, MmcCardType::Sd);
    assert_eq!(info.max_frequency, 25_000_000);
    assert_eq!(info.capacity_bytes, 2 * 1024 * 1024 * 1024);
    assert_eq!(info.block_size, 512);
}

#[test]
fn sd_v1_card_uses_no_hcs_argument() {
    let mut st = State::sdhc();
    st.cmd8 = None;
    st.acmd41 = Some(0x80FF_8000);
    let (mut d, shared) = driver(st);
    d.init().unwrap();
    assert_eq!(d.card_info().unwrap().card_type, MmcCardType::Sd);
    let s = shared.borrow();
    assert!(s.events.contains(&Event::Cmd(41, 0x00FF_8000, MmcResponse::R3, false, false, false)));
    assert_eq!(s.commands(1), 0);
}

#[test]
fn emmc_card_initializes() {
    let (mut d, st) = driver(State::emmc());
    d.init().unwrap();
    let info = d.card_info().unwrap();
    assert_eq!(info.card_type, MmcCardType::Emmc);
    assert_eq!(info.bus_width, MmcBusWidth::Width8);
    assert_eq!(info.max_frequency, 52_000_000);
    assert_eq!(info.capacity_bytes, 16 * 1024 * 1024 * 1024);
    assert_eq!(info.block_size, 512);
    assert_eq!(d.rca(), 1);
    let s = st.borrow();
    assert!(s.events.contains(&Event::Cmd(3, 0x0001_0000, MmcResponse::R1, false, false, false)));
    assert!(s.events.contains(&Event::Bus(MmcBusWidth::Width8)));
    assert_eq!(s.commands(6), 0);
}

#[test]
fn missing_card_is_not_found() {
    let mut st = State::sdhc();
    st.present = false;
    let (mut d, shared) = driver(st);
    assert!(matches!(d.init(), Err(DriverError::NotFound)));
    assert!(shared.borrow().events.is_empty());
    assert!(!d.card_present());
}

#[test]
fn sd_v2_never_ready_times_out_after_budget() {
    let mut st = State::sdhc();
    st.acmd41 = Some(0x00FF_8000);
    let (mut d, shared) = driver(st);
    assert!(matches!(d.init(), Err(DriverError::Timeout)));
    let s = shared.borrow();
    assert_eq!(s.commands(41), 100);
    assert_eq!(s.commands(55), 100);
    assert_eq!(s.events.iter().filter(|e| **e == Event::Wait(10)).count(), 100);
    assert_eq!(s.commands(1), 0);
    assert!(matches!(d.card_info(), Err(DriverError::NotFound)));
}

#[test]
fn legacy_path_never_ready_times_out_after_both_budgets() {
    let mut st = State::emmc();
    st.acmd41 = Some(0);
    st.cmd1 = Some(0);
    let (mut d, shared) = driver(st);
    assert!(matches!(d.init(), Err(DriverError::Timeout)));
    let s = shared.borrow();
    assert_eq!(s.commands(41), 100);
    assert_eq!(s.commands(1), 100);
}

#[test]
fn transfers_before_init_are_not_found() {
    let (mut d, _) = driver(State::sdhc());
    let mut buf = vec![0u8; 1024];
    assert!(matches!(d.read_blocks(0, &mut buf), Err(DriverError::NotFound)));
    assert!(matches!(d.write_blocks(0, &buf), Err(DriverError::NotFound)));
    assert!(matches!(d.erase_blocks(0, 1), Err(DriverError::NotFound)));
    assert!(matches!(d.card_info(), Err(DriverError::NotFound)));
}

#[test]
fn short_buffer_is_invalid_param() {
    let (mut d, _) = driver(State::sdhc());
    d.init().unwrap();
    let mut buf = vec![0u8; 511];
    assert!(matches!(d.read_blocks(0, &mut buf), Err(DriverError::InvalidParam)));
    assert!(matches!(d.write_blocks(0, &buf), Err(DriverError::InvalidParam)));
}

#[test]
fn multi_block_read_ends_with_one_stop() {
    let (mut d, st) = driver(State::sdhc());
    d.init().unwrap();
    st.borrow_mut().events.clear();
    let mut buf = vec![0u8; 3 * 512 + 100];
    assert_eq!(d.read_blocks(7, &mut buf).unwrap(), 3 * 512);
    assert!(buf[..1536].iter().all(|&b| b == 0x5A));
    assert!(buf[1536..].iter().all(|&b| b == 0));
    let s = st.borrow();
    assert_eq!(
        s.events,
        vec![
            Event::Cmd(18, 7, MmcResponse::R1, true, false, true),
            Event::Read(512),
            Event::Read(512),
            Event::Read(512),
            Event::Cmd(12, 0, MmcResponse::R1b, false, false, false),
        ]
    );
}

#[test]
fn single_block_read_sends_no_stop() {
    let (mut d, st) = driver(State::sdhc());
    d.init().unwrap();
    st.borrow_mut().events.clear();
    let mut buf = vec![0u8; 512];
    assert_eq!(d.read_blocks(2, &mut buf).unwrap(), 512);
    let s = st.borrow();
    assert_eq!(s.events, vec![Event::Cmd(17, 2, MmcResponse::R1, true, false, false), Event::Read(512)]);
    assert_eq!(s.commands(12), 0);
}

#[test]
fn multi_block_write_on_byte_addressed_card() {
    let mut state = State::sdhc();
    state.acmd41 = Some(0x80FF_8000);
    let (mut d, st) = driver(state);
    d.init().unwrap();
    st.borrow_mut().events.clear();
    let data = vec![1u8; 1024];
    assert_eq!(d.write_blocks(3, &data).unwrap(), 1024);
    let s = st.borrow();
    assert_eq!(
        s.events,
        vec![
            Event::Cmd(25, 3 * 512, MmcResponse::R1, true, true, true),
            Event::Write(512),
            Event::Write(512),
            Event::Cmd(12, 0, MmcResponse::R1b, false, false, false),
            Event::Wait(500),
        ]
    );
}

#[test]
fn single_block_write_waits_without_stop() {
    let (mut d, st) = driver(State::sdhc());
    d.init().unwrap();
    st.borrow_mut().events.clear();
    assert_eq!(d.write_blocks(9, &[0u8; 700]).unwrap(), 512);
    let s = st.borrow();
    assert_eq!(
        s.events,
        vec![Event::Cmd(24, 9, MmcResponse::R1, true, true, false), Event::Write(512), Event::Wait(500)]
    );
}

#[test]
fn erase_issues_start_end_erase_in_order() {
    let (mut d, st) = driver(State::sdhc());
    d.init().unwrap();
    st.borrow_mut().events.clear();
    d.erase_blocks(100, 8).unwrap();
    let s = st.borrow();
    assert_eq!(
        s.events,
        vec![
            Event::Cmd(cmd::ERASE_START, 100, MmcResponse::R1, false, false, false),
            Event::Cmd(cmd::ERASE_END, 107, MmcResponse::R1, false, false, false),
            Event::Cmd(cmd::ERASE, 0, MmcResponse::R1b, false, false, false),
            Event::Wait(5000),
        ]
    );
}

#[test]
fn erase_on_byte_addressed_card_uses_byte_offsets() {
    let mut state = State::sdhc();
    state.acmd41 = Some(0x80FF_8000);
    let (mut d, st) = driver(state);
    d.init().unwrap();
    st.borrow_mut().events.clear();
    d.erase_blocks(2, 2).unwrap();
    let s = st.borrow();
    assert_eq!(s.events[0], Event::Cmd(32, 1024, MmcResponse::R1, false, false, false));
    assert_eq!(s.events[1], Event::Cmd(33, 1536, MmcResponse::R1, false, false, false));
}

#[test]
fn erase_rejects_empty_and_overflowing_ranges() {
    let (mut d, st) = driver(State::sdhc());
    d.init().unwrap();
    st.borrow_mut().events.clear();
    assert!(matches!(d.erase_blocks(5, 0), Err(DriverError::InvalidParam)));
    assert!(matches!(d.erase_blocks(u64::MAX, 2), Err(DriverError::InvalidParam)));
    assert!(d.erase_blocks(u64::MAX, 1).is_ok());
}

#[test]
fn flush_waits_500_ms() {
    let (mut d, st) = driver(State::sdhc());
    d.flush().unwrap();
    assert_eq!(st.borrow().events, vec![Event::Wait(500)]);
}

#[test]
fn address_argument_table() {
    for t in [MmcCardType::SdHc, MmcCardType::SdXc, MmcCardType::Emmc] {
        assert_eq!(addr(t, 0), 0);
        assert_eq!(addr(t, 1), 1);
        assert_eq!(addr(t, u32::MAX as u64), u32::MAX);
    }
    for t in [MmcCardType::Sd, MmcCardType::Mmc] {
        assert_eq!(addr(t, 0), 0);
        assert_eq!(addr(t, 1), 512);
        assert_eq!(addr(t, u32::MAX as u64), (u32::MAX as u64 * 512) as u32);
        assert_eq!(addr(t, u32::MAX as u64), 0xFFFF_FE00);
    }
}

#[test]
fn reinit_replaces_card_info() {
    let (mut d, st) = driver(State::sdhc());
    d.init().unwrap();
    assert_eq!(d.card_info().unwrap().card_type, MmcCardType::SdHc);
    {
        let mut s = st.borrow_mut();
        s.cmd8 = None;
        s.acmd41 = None;
        s.cmd1 = Some(0x8000_0000);
    }
    d.init().unwrap();
    let info = d.card_info().unwrap();
    assert_eq!(info.card_type, MmcCardType::Emmc);
    assert_eq!(info.bus_width, MmcBusWidth::Width8);
    assert_eq!(info.max_frequency, 52_000_000);
    assert_eq!(info.capacity_bytes, 16 * 1024 * 1024 * 1024);
    assert_eq!(d.rca(), 1);
}

#[test]
fn failed_reinit_leaves_no_card_info() {
    let (mut d, st) = driver(State::sdhc());
    d.init().unwrap();
    st.borrow_mut().present = false;
    assert!(d.init().is_err());
    assert!(matches!(d.card_info(), Err(DriverError::NotFound)));
    let mut buf = vec![0u8; 512];
    assert!(matches!(d.read_blocks(0, &mut buf), Err(DriverError::NotFound)));
}

#[test]
fn block_device_facade() {
    let (mut d, _) = driver(State::sdhc());
    assert_eq!(BlockDevice::sector_size(&d), 512);
    assert_eq!(BlockDevice::sector_count(&d), 0);
    MmcDriver::init(&mut d).unwrap();
    assert_eq!(BlockDevice::sector_size(&d), 512);
    assert_eq!(BlockDevice::sector_count(&d), 32 * 1024 * 1024 * 1024 / 512);
    let mut buf = vec![0u8; 1024];
    assert!(BlockDevice::read(&mut d, 0, &mut buf).is_ok());
    assert!(BlockDevice::write(&mut d, 0, &buf).is_ok());
    assert!(BlockDevice::sync(&mut d).is_ok());
    assert!(MmcDriver::card_present(&d));
}

#[test]
fn failed_block_read_stops_and_returns_host_error() {
    let (mut d, st) = driver(State::sdhc());
    d.init().unwrap();
    {
        let mut s = st.borrow_mut();
        s.events.clear();
        s.fail_read_at = Some(2);
    }
    let mut buf = vec![0u8; 4 * 512];
    assert!(matches!(d.read_blocks(0, &mut buf), Err(DriverError::DeviceError(0xDA7A))));
    let s = st.borrow();
    assert_eq!(s.events.len(), 4);
    assert_eq!(s.commands(12), 0);
    assert!(buf[..1024].iter().all(|&b| b == 0x5A));
    assert!(buf[1536..].iter().all(|&b| b == 0));
}

#[test]
fn early_errors_leave_the_buffer_untouched() {
    let (mut d, _) = driver(State::sdhc());
    let mut buf = vec![7u8; 600];
    assert!(matches!(d.read_blocks(0, &mut buf), Err(DriverError::NotFound)));
    assert!(buf.iter().all(|&b| b == 7));
    d.init().unwrap();
    let mut short = vec![9u8; 100];
    assert!(matches!(d.read_blocks(0, &mut short), Err(DriverError::InvalidParam)));
    assert!(short.iter().all(|&b| b == 9));
}

#[test]
fn failed_identification_returns_host_error_and_stops() {
    let mut state = State::sdhc();
    state.fail_cmd = Some(cmd::ALL_SEND_CID);
    let (mut d, st) = driver(state);
    assert!(matches!(d.init(), Err(DriverError::DeviceError(2))));
    let s = st.borrow();
    assert_eq!(s.events.last(), Some(&Event::Cmd(2, 0, MmcResponse::R2, false, false, false)));
    assert!(matches!(d.card_info(), Err(DriverError::NotFound)));
}

#[test]
fn failed_erase_end_stops_before_erase() {
    let (mut d, st) = driver(State::sdhc());
    d.init().unwrap();
    {
        let mut s = st.borrow_mut();
        s.events.clear();
        s.fail_cmd = Some(cmd::ERASE_END);
    }
    assert!(matches!(d.erase_blocks(1, 2), Err(DriverError::DeviceError(33))));
    assert_eq!(st.borrow().events.len(), 2);
}
