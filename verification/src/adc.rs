//! Dual ADS131M04 front end: command words, register writes, frame decoding and
//! the zero-crossing bookkeeping used for phase alignment.
//!
//! Chip 1 carries the reference and the three motor phase voltages (sampled at the
//! same instant, so phase differences are meaningful); chip 2 carries the rectifier
//! DC bus. The SPI transfers themselves, and the RMS / frequency / phase arithmetic
//! on the accumulated sums, are done by the caller.

use vstd::prelude::*;

verus! {

/// Sample rate per channel (SPS); the DRDY pin fires at this rate.
pub const ADC_SAMPLE_RATE: u32 = 4000;
/// Nominal AC line frequency (Hz).
pub const AC_LINE_HZ: u32 = 60;
/// Samples per AC line cycle.
pub const SAMPLES_PER_CYCLE: u32 = 66;

/// Register addresses (subset).
pub const REG_ID: u8 = 0x00;
pub const REG_STATUS: u8 = 0x01;
pub const REG_MODE: u8 = 0x02;
pub const REG_CLOCK: u8 = 0x03;
pub const REG_GAIN1: u8 = 0x04;
pub const REG_CFG: u8 = 0x06;

/// Fixed command words.
pub const CMD_NULL: u16 = 0x0000;
pub const CMD_RESET: u16 = 0x0011;
pub const CMD_STANDBY: u16 = 0x0022;
pub const CMD_WAKEUP: u16 = 0x0033;

/// Length of one SPI frame from a chip: status word, four 24-bit channels, CRC.
pub const FRAME_LEN: usize = 18;

/// The word of a WREG command: opcode 011, register address, count minus one.
pub open spec fn spec_wreg(addr: u8, count: u8) -> u16 {
    0x6000u16 | ((addr as u16) << 7u16) | ((count - 1) as u16)
}

/// The word of an RREG command: opcode 101, register address, count minus one.
pub open spec fn spec_rreg(addr: u8, count: u8) -> u16 {
    0xA000u16 | ((addr as u16) << 7u16) | ((count - 1) as u16)
}

/// Command word writing `count` registers from `addr`.
pub fn wreg_cmd(addr: u8, count: u8) -> (r: u16)
    requires
        count >= 1,
    ensures
        r == spec_wreg(addr, count),
        addr < 64 && count <= 128 ==> r == 0x6000 + addr * 128 + (count - 1),
{
    let r = 0x6000u16 | ((addr as u16) << 7u16) | ((count as u16) - 1);
    proof {
        let a = addr as u16;
        let c = (count - 1) as u16;
        assert(a < 64 && c < 128 ==> (0x6000u16 | (a << 7u16) | c) == 0x6000u16 + a * 128u16 + c) by (bit_vector);
    }
    r
}

/// Command word reading `count` registers from `addr`.
pub fn rreg_cmd(addr: u8, count: u8) -> (r: u16)
    requires
        count >= 1,
    ensures
        r == spec_rreg(addr, count),
        addr < 64 && count <= 128 ==> r == 0xA000 + addr * 128 + (count - 1),
{
    let r = 0xA000u16 | ((addr as u16) << 7u16) | ((count as u16) - 1);
    proof {
        let a = addr as u16;
        let c = (count - 1) as u16;
        assert(a < 64 && c < 128 ==> (0xA000u16 | (a << 7u16) | c) == 0xA000u16 + a * 128u16 + c) by (bit_vector);
    }
    r
}

/// Oversampling-ratio bits for a desired sample rate (8.192 MHz clock):
/// OSR 512 for 8000 SPS and up, OSR 1024 for 4000 SPS and up, else OSR 2048.
pub open spec fn spec_osr_bits(rate: u32) -> u16 {
    if rate >= 8000 {
        0b010
    } else if rate >= 4000 {
        0b011
    } else {
        0b100
    }
}

pub fn osr_bits_for_rate(rate: u32) -> (r: u16)
    ensures
        r == spec_osr_bits(rate),
{
    if rate >= 8000 {
        0b010
    } else if rate >= 4000 {
        0b011
    } else {
        0b100
    }
}

/// Value of a big-endian 24-bit two's-complement number.
pub open spec fn spec_be24(b0: u8, b1: u8, b2: u8) -> int {
    let raw = b0 * 65536 + b1 * 256 + b2;
    if raw >= 0x80_0000 {
        raw - 0x100_0000
    } else {
        raw
    }
}

fn be24_at(b: &[u8], off: usize) -> (r: i32)
    requires
        off + 3 <= b@.len(),
    ensures
        r == spec_be24(b@[off as int], b@[off + 1], b@[off + 2]),
{
    let b0 = b[off];
    let b1 = b[off + 1];
    let b2 = b[off + 2];
    let raw: u32 = ((b0 as u32) << 16u32) | ((b1 as u32) << 8u32) | (b2 as u32);
    proof {
        let x0 = b0 as u32;
        let x1 = b1 as u32;
        let x2 = b2 as u32;
        assert(x0 < 256 && x1 < 256 && x2 < 256 ==> ((x0 << 16u32) | (x1 << 8u32) | x2) == x0 * 65536 + x1 * 256 + x2) by (bit_vector);
    }
    if raw & 0x0080_0000u32 != 0 {
        proof {
            assert(raw < 0x100_0000 ==> ((raw & 0x0080_0000u32 != 0) == (raw >= 0x80_0000))) by (bit_vector);
            assert(raw < 0x100_0000 && raw >= 0x80_0000 ==> (raw | 0xFF00_0000u32) as i32 == (raw as int - 0x100_0000)) by (bit_vector);
        }
        (raw | 0xFF00_0000u32) as i32
    } else {
        proof {
            assert(raw < 0x100_0000 ==> ((raw & 0x0080_0000u32 != 0) == (raw >= 0x80_0000))) by (bit_vector);
        }
        raw as i32
    }
}

/// Big-endian 24-bit two's-complement bytes (the first three of `b`), sign-extended.
pub fn be24_to_i32(b: &[u8]) -> (r: i32)
    requires
        b@.len() >= 3,
    ensures
        r == spec_be24(b@[0], b@[1], b@[2]),
{
    be24_at(b, 0)
}

/// One of the two converters on the shared bus.
#[derive(Clone, Copy, Debug, PartialEq, Eq, Structural)]
pub enum Chip {
    One,
    Two,
}

/// The four channel words of one chip frame (status word first, then 4 x 24 bits).
pub fn chip_words(frame: &[u8]) -> (r: [i32; 4])
    requires
        frame@.len() >= FRAME_LEN,
    ensures
        r@[0] == spec_be24(frame@[3], frame@[4], frame@[5]),
        r@[1] == spec_be24(frame@[6], frame@[7], frame@[8]),
        r@[2] == spec_be24(frame@[9], frame@[10], frame@[11]),
        r@[3] == spec_be24(frame@[12], frame@[13], frame@[14]),
{
    [be24_at(frame, 3), be24_at(frame, 6), be24_at(frame, 9), be24_at(frame, 12)]
}

/// One coherent sample set from both chips.
#[derive(Clone, Copy, Debug, PartialEq, Eq, Structural)]
pub struct RawFrame {
    /// Reference phase (chip 1, channel 0).
    pub v_ref: i32,
    /// Motor phase A (chip 1, channel 1).
    pub v_a: i32,
    /// Motor phase B (chip 1, channel 2).
    pub v_b: i32,
    /// Motor phase C (chip 1, channel 3).
    pub v_c: i32,
    /// Rectifier DC voltage (chip 2, channel 0).
    pub v_dc: i32,
    /// Rectifier DC current (chip 2, channel 1).
    pub i_dc: i32,
}

/// Map the channel words of chip 1 `[ref, a, b, c]` and chip 2 `[v_dc, i_dc, spare, spare]`.
pub fn read_frame(c1: [i32; 4], c2: [i32; 4]) -> (r: RawFrame)
    ensures
        r == (RawFrame { v_ref: c1@[0], v_a: c1@[1], v_b: c1@[2], v_c: c1@[3], v_dc: c2@[0], i_dc: c2@[1] }),
{
    RawFrame { v_ref: c1[0], v_a: c1[1], v_b: c1[2], v_c: c1[3], v_dc: c2[0], i_dc: c2[1] }
}

/// The six bytes clocked out to write `val` into register `addr`:
/// the WREG word, a pad byte, the value, a pad byte (big-endian).
pub fn write_reg_bytes(addr: u8, val: u16) -> (r: [u8; 6])
    ensures
        r@ == seq![
            (spec_wreg(addr, 1) >> 8u16) as u8,
            (spec_wreg(addr, 1) & 0xFFu16) as u8,
            0u8,
            (val >> 8u16) as u8,
            (val & 0xFFu16) as u8,
            0u8,
        ],
{
    let cmd = wreg_cmd(addr, 1);
    let r = [(cmd >> 8u16) as u8, (cmd & 0xFFu16) as u8, 0u8, (val >> 8u16) as u8, (val & 0xFFu16) as u8, 0u8];
    assert(r@ =~= seq![
        (spec_wreg(addr, 1) >> 8u16) as u8,
        (spec_wreg(addr, 1) & 0xFFu16) as u8,
        0u8,
        (val >> 8u16) as u8,
        (val & 0xFFu16) as u8,
        0u8,
    ]);
    r
}

/// One register write to one chip.
#[derive(Clone, Copy, Debug, PartialEq, Eq, Structural)]
pub struct RegWrite {
    pub chip: Chip,
    pub addr: u8,
    pub value: u16,
}

/// Value of the CLOCK register: all four channels enabled, OSR bits for `rate`.
pub open spec fn spec_clock_value(rate: u32) -> u16 {
    0x000Eu16 | (spec_osr_bits(rate) << 2u16)
}

/// Register writes that configure both chips identically for `rate`:
/// per chip, CLOCK (channels + OSR) then GAIN1 (gain 1 on every channel).
pub fn configure_writes(rate: u32) -> (r: Vec<RegWrite>)
    ensures
        r@ == seq![
            RegWrite { chip: Chip::One, addr: REG_CLOCK, value: spec_clock_value(rate) },
            RegWrite { chip: Chip::One, addr: REG_GAIN1, value: 0u16 },
            RegWrite { chip: Chip::Two, addr: REG_CLOCK, value: spec_clock_value(rate) },
            RegWrite { chip: Chip::Two, addr: REG_GAIN1, value: 0u16 },
        ],
{
    let osr_bits = osr_bits_for_rate(rate);
    let clock_val: u16 = 0x000Eu16 | (osr_bits << 2u16);
    let gain_val: u16 = 0x0000;
    let mut r: Vec<RegWrite> = Vec::new();
    r.push(RegWrite { chip: Chip::One, addr: REG_CLOCK, value: clock_val });
    r.push(RegWrite { chip: Chip::One, addr: REG_GAIN1, value: gain_val });
    r.push(RegWrite { chip: Chip::Two, addr: REG_CLOCK, value: clock_val });
    r.push(RegWrite { chip: Chip::Two, addr: REG_GAIN1, value: gain_val });
    assert(r@ =~= seq![
        RegWrite { chip: Chip::One, addr: REG_CLOCK, value: spec_clock_value(rate) },
        RegWrite { chip: Chip::One, addr: REG_GAIN1, value: 0u16 },
        RegWrite { chip: Chip::Two, addr: REG_CLOCK, value: spec_clock_value(rate) },
        RegWrite { chip: Chip::Two, addr: REG_GAIN1, value: 0u16 },
    ]);
    r
}

/// Which motor phase the phase lock aligns the reference to.
#[derive(Clone, Copy, Debug, PartialEq, Eq, Structural)]
pub enum AlignPhase {
    A,
    B,
    C,
}

impl Default for AlignPhase {
    /// The default target: phase A.
    fn default() -> (r: AlignPhase)
        ensures
            r == AlignPhase::A,
    {
        AlignPhase::A
    }
}

impl AlignPhase {
    /// The value belonging to the selected phase.
    pub fn pick<T>(self, a: T, b: T, c: T) -> (r: T)
        ensures
            self == AlignPhase::A ==> r == a,
            self == AlignPhase::B ==> r == b,
            self == AlignPhase::C ==> r == c,
    {
        match self {
            AlignPhase::A => a,
            AlignPhase::B => b,
            AlignPhase::C => c,
        }
    }
}

/// Per-channel zero-crossing tracker: the sample index of the most recent rising
/// crossing in the current window, and how many rising crossings the window saw.
#[derive(Clone, Copy, Debug, PartialEq, Eq, Structural)]
pub struct CrossTracker {
    /// Sign of the previous sample: +1, -1, or 0 before any sample.
    pub last_sign: i8,
    /// Index of the most recent rising crossing this window.
    pub last_cross_idx: u32,
    /// At least one rising crossing this window.
    pub have_cross: bool,
    /// Rising crossings this window.
    pub crossings: u32,
}

/// Sign class of a sample: non-negative samples count as positive.
pub open spec fn sample_sign(sample: i32) -> i8 {
    if sample >= 0 { 1i8 } else { -1i8 }
}

/// The tracker after one more sample at index `idx`.
pub open spec fn after_sample(t: CrossTracker, sample: i32, idx: u32) -> CrossTracker {
    let sign = sample_sign(sample);
    if t.last_sign < 0 && sign > 0 {
        CrossTracker { last_sign: sign, last_cross_idx: idx, have_cross: true, crossings: (t.crossings + 1) as u32 }
    } else {
        CrossTracker { last_sign: sign, ..t }
    }
}

impl CrossTracker {
    /// A tracker that has seen nothing.
    pub fn new() -> (r: CrossTracker)
        ensures
            r == (CrossTracker { last_sign: 0, last_cross_idx: 0, have_cross: false, crossings: 0 }),
    {
        CrossTracker { last_sign: 0, last_cross_idx: 0, have_cross: false, crossings: 0 }
    }

    /// Feed one sample; a rising crossing happens between a negative and a non-negative sample.
    pub fn add(&mut self, sample: i32, idx: u32)
        requires
            old(self).crossings < u32::MAX,
        ensures
            *final(self) == after_sample(*old(self), sample, idx),
    {
        let sign: i8 = if sample >= 0 { 1 } else { -1 };
        if self.last_sign < 0 && sign > 0 {
            self.last_cross_idx = idx;
            self.have_cross = true;
            self.crossings = self.crossings + 1;
        }
        self.last_sign = sign;
    }

    /// Start a new window: keep the last sign for continuity, clear the window state.
    pub fn reset_window(&mut self)
        ensures
            *final(self) == (CrossTracker { have_cross: false, crossings: 0, ..*old(self) }),
    {
        self.have_cross = false;
        self.crossings = 0;
    }
}

/// Crossing index of `target` minus that of `reference` in samples, when both saw a
/// rising crossing this window.
pub fn crossing_offset(target: &CrossTracker, reference: &CrossTracker) -> (r: Option<i64>)
    ensures
        r is Some <==> (target.have_cross && reference.have_cross),
        r matches Some(d) ==> d == target.last_cross_idx - reference.last_cross_idx,
{
    if !target.have_cross || !reference.have_cross {
        return None;
    }
    Some(target.last_cross_idx as i64 - reference.last_cross_idx as i64)
}

/// The window bookkeeping between two finalizations: a crossing tracker per AC
/// channel and the number of samples. The running sums of squares and DC sums
/// live beside it, with the caller.
#[derive(Clone, Copy, Debug, PartialEq, Eq, Structural)]
pub struct Accumulator {
    pub x_ref: CrossTracker,
    pub x_a: CrossTracker,
    pub x_b: CrossTracker,
    pub x_c: CrossTracker,
    /// Samples in this window (wrapping).
    pub n: u32,
}

impl Accumulator {
    /// Nothing accumulated yet.
    pub fn new() -> (r: Accumulator)
        ensures
            r.n == 0,
            r.x_ref == (CrossTracker { last_sign: 0, last_cross_idx: 0, have_cross: false, crossings: 0 }),
            r.x_a == r.x_ref,
            r.x_b == r.x_ref,
            r.x_c == r.x_ref,
    {
        Accumulator { x_ref: CrossTracker::new(), x_a: CrossTracker::new(), x_b: CrossTracker::new(), x_c: CrossTracker::new(), n: 0 }
    }

    /// Start a new window.
    pub fn reset(&mut self)
        ensures
            final(self).n == 0,
            final(self).x_ref == (CrossTracker { have_cross: false, crossings: 0, ..old(self).x_ref }),
            final(self).x_a == (CrossTracker { have_cross: false, crossings: 0, ..old(self).x_a }),
            final(self).x_b == (CrossTracker { have_cross: false, crossings: 0, ..old(self).x_b }),
            final(self).x_c == (CrossTracker { have_cross: false, crossings: 0, ..old(self).x_c }),
    {
        self.x_ref.reset_window();
        self.x_a.reset_window();
        self.x_b.reset_window();
        self.x_c.reset_window();
        self.n = 0;
    }

    /// Add one coherent sample: each AC channel's tracker sees it at index `n`.
    pub fn add(&mut self, f: &RawFrame)
        requires
            old(self).x_ref.crossings < u32::MAX,
            old(self).x_a.crossings < u32::MAX,
            old(self).x_b.crossings < u32::MAX,
            old(self).x_c.crossings < u32::MAX,
        ensures
            final(self).x_ref == after_sample(old(self).x_ref, f.v_ref, old(self).n),
            final(self).x_a == after_sample(old(self).x_a, f.v_a, old(self).n),
            final(self).x_b == after_sample(old(self).x_b, f.v_b, old(self).n),
            final(self).x_c == after_sample(old(self).x_c, f.v_c, old(self).n),
            final(self).n == old(self).n.wrapping_add(1),
    {
        let idx = self.n;
        self.x_ref.add(f.v_ref, idx);
        self.x_a.add(f.v_a, idx);
        self.x_b.add(f.v_b, idx);
        self.x_c.add(f.v_c, idx);
        self.n = self.n.wrapping_add(1);
    }
}

// ── laws ──

/// A rising crossing is counted exactly when a negative sample is followed by a
/// non-negative one; the crossing index is then the index of the new sample.
pub proof fn lemma_crossing_detection(t: CrossTracker, sample: i32, idx: u32)
    requires
        t.crossings < u32::MAX,
    ensures
        after_sample(t, sample, idx).crossings == t.crossings + (if t.last_sign < 0 && sample >= 0 { 1int } else { 0int }),
        t.last_sign < 0 && sample >= 0 ==> after_sample(t, sample, idx).have_cross && after_sample(t, sample, idx).last_cross_idx == idx,
        after_sample(t, sample, idx).last_sign == sample_sign(sample),
{
}

/// Only a rising crossing touches the crossing bookkeeping: any other sample (the
/// previous sample not negative, or this one negative, a falling crossing included)
/// updates the sign and leaves the crossing index, flag and count as they were.
pub proof fn lemma_only_rising_crossings_mark(t: CrossTracker, sample: i32, idx: u32)
    requires
        !(t.last_sign < 0 && sample >= 0),
    ensures
        after_sample(t, sample, idx).last_cross_idx == t.last_cross_idx,
        after_sample(t, sample, idx).have_cross == t.have_cross,
        after_sample(t, sample, idx).crossings == t.crossings,
        after_sample(t, sample, idx).last_sign == sample_sign(sample),
{
}

/// A tracker that has seen nothing.
pub open spec fn fresh_tracker() -> CrossTracker {
    CrossTracker { last_sign: 0, last_cross_idx: 0, have_cross: false, crossings: 0 }
}

/// A fresh tracker after the samples of `s`, sample `j` fed at index `j`.
pub open spec fn track(s: Seq<i32>) -> CrossTracker
    decreases s.len(),
{
    if s.len() == 0 {
        fresh_tracker()
    } else {
        after_sample(track(s.drop_last()), s.last(), (s.len() - 1) as u32)
    }
}

/// A rising zero crossing at position `j`: a negative sample followed by a non-negative one.
pub open spec fn rises_at(s: Seq<i32>, j: int) -> bool {
    1 <= j < s.len() && s[j - 1] < 0 && s[j] >= 0
}

/// Over any window of samples, the tracker marks the most recent rising crossing:
/// when it has one, its index is a rising crossing and no later position rises;
/// when it has none, no position rises. The count never exceeds the samples seen.
pub proof fn lemma_tracks_last_rising_crossing(s: Seq<i32>)
    requires
        s.len() <= u32::MAX,
    ensures
        track(s).crossings <= s.len(),
        s.len() > 0 ==> track(s).last_sign == sample_sign(s.last()),
        s.len() == 0 ==> track(s).last_sign == 0,
        track(s).have_cross ==> rises_at(s, track(s).last_cross_idx as int)
            && forall|j: int| track(s).last_cross_idx < j < s.len() ==> !#[trigger] rises_at(s, j),
        !track(s).have_cross ==> forall|j: int| 0 <= j < s.len() ==> !#[trigger] rises_at(s, j),
    decreases s.len(),
{
    if s.len() > 0 {
        let p = s.drop_last();
        lemma_tracks_last_rising_crossing(p);
        let n = s.len() - 1;
        assert forall|j: int| 0 <= j < n implies #[trigger] rises_at(s, j) == rises_at(p, j) by {
            if 1 <= j {
                assert(s[j - 1] == p[j - 1]);
                assert(s[j] == p[j]);
            }
        }
        if n > 0 {
            assert(s[n - 1] == p.last());
        }
    }
}

/// Decoding covers the whole signed 24-bit range: every value lies in
/// [-2^23, 2^23) and non-negative values keep their magnitude.
pub proof fn lemma_be24_range(b0: u8, b1: u8, b2: u8)
    ensures
        -0x80_0000 <= spec_be24(b0, b1, b2) < 0x80_0000,
        b0 < 0x80 ==> spec_be24(b0, b1, b2) == b0 * 65536 + b1 * 256 + b2,
{
}

} // verus!
