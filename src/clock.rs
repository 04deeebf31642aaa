//! Clock control: the clock bookkeeping of a generic controller and the
//! rate arithmetic of Allwinner's clock control unit.
use vstd::prelude::*;
use crate::traits::{ClockId, ClockRate, DriverError, DriverResult};

verus! {

/// Clock source types.
#[derive(Debug, Clone, Copy, PartialEq, Eq, Structural)]
pub enum ClockSource {
    /// Fixed crystal oscillator
    Crystal,
    /// Phase-locked loop
    Pll,
    /// Derived from a parent clock
    Derived,
    /// External clock input
    External,
}

/// Description of one clock.
#[derive(Debug, Clone, Copy)]
pub struct ClockDesc {
    pub id: ClockId,
    pub name: &'static str,
    pub source: ClockSource,
    pub parent: Option<ClockId>,
    pub min_rate: ClockRate,
    pub max_rate: ClockRate,
    pub default_rate: ClockRate,
}

/// Run-time state of one clock.
#[derive(Debug, Clone, Copy, PartialEq, Eq, Structural)]
pub struct ClockState {
    pub enabled: bool,
    pub rate: ClockRate,
    pub parent: Option<ClockId>,
}

/// Generic clock controller registers.
pub const CLK_GATE: u32 = 0x00;
pub const CLK_DIV: u32 = 0x04;
pub const CLK_SEL: u32 = 0x08;
pub const PLL_CFG: u32 = 0x10;
pub const PLL_CTRL: u32 = 0x14;

/// Allwinner PLL types.
#[derive(Debug, Clone, Copy, PartialEq, Eq, Structural)]
pub enum AllwinnerPllType {
    /// out = (in * N) / M
    Simple,
    /// out = (in * (N + K)) / (M * P)
    Fractional,
    /// Integer PLL with post divider
    Integer,
}

/// Allwinner CCU register offsets.
pub const AW_PLL_CPU: u32 = 0x000;
pub const AW_PLL_DDR: u32 = 0x010;
pub const AW_PLL_PERIPH0: u32 = 0x020;
pub const AW_PLL_PERIPH1: u32 = 0x028;
pub const AW_PLL_GPU: u32 = 0x030;
pub const AW_PLL_VIDEO0: u32 = 0x040;
pub const AW_PLL_VIDEO1: u32 = 0x048;
pub const AW_PLL_VE: u32 = 0x058;
pub const AW_PLL_AUDIO: u32 = 0x078;
pub const AW_BUS_CLK_GATE0: u32 = 0x800;
pub const AW_BUS_CLK_GATE1: u32 = 0x804;
pub const AW_BUS_CLK_GATE2: u32 = 0x808;
pub const AW_BUS_CLK_GATE3: u32 = 0x80C;
pub const AW_MMC0_CLK: u32 = 0x830;
pub const AW_MMC1_CLK: u32 = 0x834;
pub const AW_MMC2_CLK: u32 = 0x838;
pub const AW_UART_CLK: u32 = 0x90C;
pub const AW_SPI_CLK: u32 = 0x940;
pub const AW_BUS_RST0: u32 = 0x1000;
pub const AW_BUS_RST1: u32 = 0x1004;
pub const AW_BUS_RST2: u32 = 0x1008;

/// Crystal frequencies: the 24 MHz high-speed and 32.768 kHz RTC oscillators.
pub const HOSC_24MHZ_HZ: u64 = 24_000_000;
pub const LOSC_32KHZ_HZ: u64 = 32768;

/// The clock table of a generic controller: each registered clock's
/// description and state, in registration order.
pub struct ClockTable {
    clocks: Vec<ClockDesc>,
    states: Vec<ClockState>,
}


impl ClockTable {
    pub closed spec fn descs(&self) -> Seq<ClockDesc> {
        self.clocks@
    }

    pub closed spec fn spec_states(&self) -> Seq<ClockState> {
        self.states@
    }

    /// Descriptions and states line up.
    pub closed spec fn wf(&self) -> bool {
        self.clocks@.len() == self.states@.len()
    }

    /// An empty table.
    pub fn new() -> (r: Self)
        ensures
            r.wf(),
            r.descs() == Seq::<ClockDesc>::empty(),
    {
        ClockTable { clocks: Vec::new(), states: Vec::new() }
    }

    /// Add a clock: disabled, at its default rate, under its default parent.
    pub fn register_clock(&mut self, desc: ClockDesc)
        requires
            old(self).wf(),
        ensures
            final(self).wf(),
            final(self).descs() == old(self).descs().push(desc),
            final(self).spec_states() == old(self).spec_states().push(
                ClockState { enabled: false, rate: desc.default_rate, parent: desc.parent },
            ),
    {
        let state = ClockState { enabled: false, rate: desc.default_rate, parent: desc.parent };
        self.clocks.push(desc);
        self.states.push(state);
    }

    /// Index of the first clock with `id`; `NotFound` if none.
    pub fn find_clock_idx(&self, id: ClockId) -> (r: DriverResult<usize>)
        requires
            self.wf(),
        ensures
            r matches Ok(i) ==> i < self.descs().len() && self.descs()[i as int].id == id && (forall|k: int|
                0 <= k < i ==> self.descs()[k].id != id),
            r is Err ==> (r matches Err(DriverError::NotFound) && forall|k: int|
                0 <= k < self.descs().len() ==> self.descs()[k].id != id),
    {
        let mut i: usize = 0;
        while i < self.clocks.len()
            invariant
                i <= self.clocks@.len(),
                forall|k: int| 0 <= k < i ==> self.clocks@[k].id != id,
            decreases self.clocks@.len() - i,
        {
            if self.clocks[i].id == id {
                return Ok(i);
            }
            i = i + 1;
        }
        Err(DriverError::NotFound)
    }

    /// Description of clock `idx`.
    pub fn desc(&self, idx: usize) -> (r: ClockDesc)
        requires
            self.wf(),
            idx < self.descs().len(),
        ensures
            r == self.descs()[idx as int],
    {
        self.clocks[idx]
    }

    /// State of clock `idx`.
    pub fn state(&self, idx: usize) -> (r: ClockState)
        requires
            self.wf(),
            idx < self.descs().len(),
        ensures
            r == self.spec_states()[idx as int],
    {
        self.states[idx]
    }

    /// Replace the state of clock `idx`.
    pub fn set_state(&mut self, idx: usize, state: ClockState)
        requires
            old(self).wf(),
            idx < old(self).descs().len(),
        ensures
            final(self).wf(),
            final(self).descs() == old(self).descs(),
            final(self).spec_states() == old(self).spec_states().update(idx as int, state),
    {
        self.states.set(idx, state);
    }
}

/// Divider that brings `parent` closest to `target` from above: the
/// integer quotient, at least 1, truncated to 32 bits; 1 for a zero target.
pub open spec fn divider_of(parent: ClockRate, target: ClockRate) -> u32 {
    if target.0 == 0 {
        1
    } else if parent.0 / target.0 == 0 {
        1
    } else {
        (parent.0 / target.0) as u32
    }
}

/// Divider for `target` from `parent`.
pub fn calc_divider(parent_rate: ClockRate, target: ClockRate) -> (r: u32)
    ensures
        r == divider_of(parent_rate, target),
{
    if target.0 == 0 {
        return 1;
    }
    let div = parent_rate.0 / target.0;
    if div == 0 {
        1
    } else {
        div as u32
    }
}

/// `rate` limited to `min ..= max`.
pub fn clamp_rate(rate: u64, min: u64, max: u64) -> (r: u64)
    requires
        min <= max,
    ensures
        r == (if rate < min { min } else if rate > max { max } else { rate }),
{
    if rate < min {
        min
    } else if rate > max {
        max
    } else {
        rate
    }
}

/// PLL output `hosc * N / (M * P)`, with N = bits 8-15 + 1, M = bit 0 + 1
/// and P = bits 16-17 + 1 of the PLL register.
pub open spec fn pll_rate_of(hosc: u64, reg: u32) -> int {
    let n = (reg / 0x100) % 0x100 + 1;
    let m = reg % 2 + 1;
    let p = (reg / 0x10000) % 4 + 1;
    hosc * n / (m * p)
}

/// PLL output rate for PLL register value `reg` from crystal `hosc`.
pub fn calc_pll_rate(hosc: u64, reg: u32) -> (r: u64)
    requires
        hosc <= 0x00FF_FFFF_FFFF_FFFF,
    ensures
        r == pll_rate_of(hosc, reg),
{
    let nf = (reg >> 8) & 0xFF;
    let mf = reg & 0x1;
    let pf = (reg >> 16) & 0x3;
    assert(nf == (reg / 0x100) % 0x100 && nf <= 0xFF) by (bit_vector)
        requires
            nf == (reg >> 8) & 0xFF,
    ;
    assert(mf == reg % 2 && mf <= 1) by (bit_vector)
        requires
            mf == reg & 0x1,
    ;
    assert(pf == (reg / 0x10000) % 4 && pf <= 3) by (bit_vector)
        requires
            pf == (reg >> 16) & 0x3,
    ;
    let n: u64 = nf as u64 + 1;
    let m: u64 = mf as u64 + 1;
    let p: u64 = pf as u64 + 1;
    assert(hosc * n <= u64::MAX) by (nonlinear_arith)
        requires
            hosc <= 0x00FF_FFFF_FFFF_FFFF,
            n <= 256,
    ;
    assert(m * p >= 1 && m * p <= 8) by (nonlinear_arith)
        requires
            1 <= m <= 2,
            1 <= p <= 4,
    ;
    hosc * n / (m * p)
}

/// Rate of the MMC clock from source `src` with dividers 2^n and m.
pub open spec fn mmc_candidate(src: u64, n: int, m: int) -> int {
    src as int / (pow2_small(n) * m)
}

/// 2^n for n below 4.
pub open spec fn pow2_small(n: int) -> int {
    if n == 0 {
        1
    } else if n == 1 {
        2
    } else if n == 2 {
        4
    } else {
        8
    }
}

/// Dividers for the MMC clock: among N in 0..4 and M in 1..16, the highest
/// rate `src / (2^N * M)` not above `target`; the first pair found (N, then
/// M ascending) wins ties. Returns (N, M - 1, rate), or (0, 0, 0) when every
/// candidate is above `target`.
pub fn mmc_clock_dividers(src: u64, target: u64) -> (r: (u32, u32, u64))
    ensures
        r.2 <= target,
        forall|n: int, m: int| 0 <= n < 4 && 1 <= m < 16 && mmc_candidate(src, n, m) <= target
            ==> #[trigger] mmc_candidate(src, n, m) <= r.2,
        r.2 > 0 ==> r.0 < 4 && r.1 < 15 && mmc_candidate(src, r.0 as int, r.1 + 1) == r.2,
        r.2 == 0 ==> r.0 == 0 && r.1 == 0,
        forall|n: int, m: int|
            0 <= n < 4 && 1 <= m < 16 && (n < r.0 || (n == r.0 && m < r.1 + 1)) && mmc_candidate(src, n, m)
                <= target ==> #[trigger] mmc_candidate(src, n, m) < r.2,
{
    let mut best_n: u32 = 0;
    let mut best_m: u32 = 0;
    let mut best_rate: u64 = 0;
    let mut n: u32 = 0;
    while n < 4
        invariant
            n <= 4,
            best_rate <= target,
            forall|nn: int, mm: int| 0 <= nn < n && 1 <= mm < 16 && mmc_candidate(src, nn, mm) <= target
                ==> #[trigger] mmc_candidate(src, nn, mm) <= best_rate,
            best_rate > 0 ==> best_n < 4 && best_m < 15 && mmc_candidate(src, best_n as int, best_m + 1) == best_rate,
            best_rate == 0 ==> best_n == 0 && best_m == 0,
            forall|nn: int, mm: int|
                0 <= nn < 4 && 1 <= mm < 16 && (nn < best_n || (nn == best_n && mm < best_m + 1))
                    && mmc_candidate(src, nn, mm) <= target ==> #[trigger] mmc_candidate(src, nn, mm) < best_rate,
            best_rate > 0 ==> best_n < n,
        decreases 4 - n,
    {
        let mut m: u32 = 1;
        while m < 16
            invariant
                n < 4,
                1 <= m <= 16,
                best_rate <= target,
                forall|nn: int, mm: int| 0 <= nn < n && 1 <= mm < 16 && mmc_candidate(src, nn, mm) <= target
                    ==> #[trigger] mmc_candidate(src, nn, mm) <= best_rate,
                forall|mm: int| 1 <= mm < m && mmc_candidate(src, n as int, mm) <= target
                    ==> #[trigger] mmc_candidate(src, n as int, mm) <= best_rate,
                best_rate > 0 ==> best_n < 4 && best_m < 15 && mmc_candidate(src, best_n as int, best_m + 1) == best_rate,
                best_rate == 0 ==> best_n == 0 && best_m == 0,
                forall|nn: int, mm: int|
                    0 <= nn < 4 && 1 <= mm < 16 && (nn < best_n || (nn == best_n && mm < best_m + 1))
                        && mmc_candidate(src, nn, mm) <= target ==> #[trigger] mmc_candidate(src, nn, mm) < best_rate,
                best_n < n || (best_n == n && best_m + 1 < m) || (best_rate == 0 && best_n == 0 && best_m == 0),
            decreases 16 - m,
        {
            let scale: u64 = if n == 0 {
                1
            } else if n == 1 {
                2
            } else if n == 2 {
                4
            } else {
                8
            };
            let actual = src / (scale * m as u64);
            assert(actual == mmc_candidate(src, n as int, m as int));
            if actual <= target && actual > best_rate {
                best_rate = actual;
                best_n = n;
                best_m = m - 1;
            }
            m = m + 1;
        }
        n = n + 1;
    }
    (best_n, best_m, best_rate)
}

/// MMC clock register value: enabled (bit 31), source PLL_PERIPH0(2x)
/// (bit 24), N divider in bits 8-9 and M - 1 in bits 0-3.
pub fn mmc_clock_register(n: u32, m_minus_one: u32) -> (r: u32)
    requires
        n < 4,
        m_minus_one < 16,
    ensures
        r == 0x8000_0000 + 0x0100_0000 + n * 0x100 + m_minus_one,
{
    let r = 0x8000_0000u32 | 0x0100_0000u32 | (n << 8) | m_minus_one;
    assert(r == 0x8000_0000 + 0x0100_0000 + n * 0x100 + m_minus_one) by (bit_vector)
        requires
            n < 4,
            m_minus_one < 16,
            r == 0x8000_0000u32 | 0x0100_0000u32 | (n << 8) | m_minus_one,
    ;
    r
}

/// Gate register and bit of an Allwinner bus clock: UART 0-5 in gate 2 from
/// bit 16, MMC 128-130 in gate 0 from bit 8, I2C 160-164 in gate 2 from bit 0.
pub open spec fn gate_of(id: u32) -> Option<(u32, u32)> {
    if id <= 5 {
        Some((AW_BUS_CLK_GATE2, (id + 16) as u32))
    } else if 128 <= id <= 130 {
        Some((AW_BUS_CLK_GATE0, (id - 128 + 8) as u32))
    } else if 160 <= id <= 164 {
        Some((AW_BUS_CLK_GATE2, (id - 160) as u32))
    } else {
        None
    }
}

/// Gate register and bit of an Allwinner bus clock; `NotSupported` for
/// clocks without a gate.
pub fn aw_gate(clock: ClockId) -> (r: DriverResult<(u32, u32)>)
    ensures
        gate_of(clock.0) matches Some(g) ==> (r matches Ok(h) && h == g),
        gate_of(clock.0) is None ==> r matches Err(DriverError::NotSupported),
{
    let id = clock.0;
    if id <= 5 {
        Ok((AW_BUS_CLK_GATE2, id + 16))
    } else if 128 <= id && id <= 130 {
        Ok((AW_BUS_CLK_GATE0, id - 128 + 8))
    } else if 160 <= id && id <= 164 {
        Ok((AW_BUS_CLK_GATE2, id - 160))
    } else {
        Err(DriverError::NotSupported)
    }
}

/// Clock register of MMC controller `idx`; `InvalidParam` past controller 2.
pub fn aw_mmc_clock_reg(idx: u32) -> (r: DriverResult<u32>)
    ensures
        idx <= 2 ==> (r matches Ok(reg) && reg == AW_MMC0_CLK + 4 * idx),
        idx > 2 ==> r matches Err(DriverError::InvalidParam),
{
    match idx {
        0 => Ok(AW_MMC0_CLK),
        1 => Ok(AW_MMC1_CLK),
        2 => Ok(AW_MMC2_CLK),
        _ => Err(DriverError::InvalidParam),
    }
}

} // verus!
