//! Timing arithmetic and the pulse width classifier shared by the decoders.
use core::ops::Range;
use vstd::prelude::*;

verus! {

/// Microseconds in one second.
pub const MICROS_PER_SEC: u32 = 1_000_000;

/// Length of one sample period in microseconds.
pub open spec fn period_us(samplerate: u32) -> int {
    1_000_000int / (samplerate as int)
}

/// A sample rate for which one period is a whole, positive number of microseconds.
pub open spec fn valid_samplerate(samplerate: u32) -> bool {
    1 <= samplerate <= 1_000_000
}

/// Number of whole sample periods in `us` microseconds.
pub open spec fn samples_from_us_spec(us: u32, samplerate: u32) -> int {
    (us as int) / period_us(samplerate)
}

/// Converts a duration in microseconds to a number of samples at `samplerate`.
pub fn samples_from_us(us: u32, samplerate: u32) -> (n: u32)
    requires
        valid_samplerate(samplerate),
    ensures
        n == samples_from_us_spec(us, samplerate),
{
    let period: u32 = MICROS_PER_SEC / samplerate;
    proof {
        lemma_period_positive(samplerate);
    }
    us / period
}

/// A valid sample rate has a period of at least one microsecond, and at most a second.
pub proof fn lemma_period_positive(samplerate: u32)
    requires
        valid_samplerate(samplerate),
    ensures
        1 <= period_us(samplerate) <= 1_000_000,
{
    let s = samplerate as int;
    assert(1 <= 1_000_000int / s <= 1_000_000) by (nonlinear_arith)
        requires
            1 <= s <= 1_000_000,
    ;
}

/// Elapsed ticks from `prev` to `now` on a counter that wraps at 2^32.
pub open spec fn wrapping_delta_spec(now: u32, prev: u32) -> u32 {
    ((now as int - prev as int) % 0x1_0000_0000) as u32
}

/// Elapsed ticks from `prev` to `now`, correct across one wrap of the counter.
pub fn wrapping_delta(now: u32, prev: u32) -> (d: u32)
    ensures
        d == wrapping_delta_spec(now, prev),
        now >= prev ==> d == now - prev,
        now < prev ==> d == now - prev + 0x1_0000_0000,
{
    now.wrapping_sub(prev)
}

/// Whether the half-open range `r` holds `x`.
pub open spec fn in_range(r: Range<u32>, x: u32) -> bool {
    r.start <= x < r.end
}

/// The tolerance band `[units - units*tolerance/100, units + units*tolerance/100)`.
pub open spec fn pulserange_spec(units: u32, tolerance: u32) -> Range<u32> {
    let tol = (units as int * tolerance as int) / 100;
    Range { start: (units - tol) as u32, end: (units + tol) as u32 }
}

/// A center and a tolerance in percent whose band lies within `u32`.
pub open spec fn band_in_reach(units: u32, tolerance: u32) -> bool {
    &&& tolerance <= 100
    &&& units + (units as int * tolerance as int) / 100 <= u32::MAX
}

/// Builds the tolerance band around `units` samples.
pub fn pulserange(units: u32, tolerance: u32) -> (r: Range<u32>)
    requires
        band_in_reach(units, tolerance),
    ensures
        r == pulserange_spec(units, tolerance),
{
    let wide: u64 = (units as u64) * (tolerance as u64);
    let tol: u64 = wide / 100;
    assert(tol <= units) by {
        assert(units as int * tolerance as int <= units as int * 100) by (nonlinear_arith)
            requires
                tolerance <= 100,
                units >= 0,
        ;
    }
    let tol: u32 = tol as u32;
    Range { start: units - tol, end: units + tol }
}

/// Label that `PulseWidthRange::pulsewidth` gives to an interval outside every band.
pub const NOT_A_PULSEWIDTH: usize = 4;

/// Four labelled tolerance bands, scanned in declaration order.
pub struct PulseWidthRange {
    /// The bands; band `i` carries the label `i`.
    pub r: [Range<u32>; 4],
}

impl PulseWidthRange {
    /// The classifier built from four `(center, tolerance percent)` pairs.
    pub open spec fn spec_new(vals: [(u32, u32); 4]) -> Self {
        PulseWidthRange {
            r: [
                pulserange_spec(vals[0].0, vals[0].1),
                pulserange_spec(vals[1].0, vals[1].1),
                pulserange_spec(vals[2].0, vals[2].1),
                pulserange_spec(vals[3].0, vals[3].1),
            ],
        }
    }

    /// Builds the classifier from four `(center, tolerance percent)` pairs.
    pub fn new(vals: &[(u32, u32); 4]) -> (p: Self)
        requires
            forall|i: int| 0 <= i < 4 ==> band_in_reach(#[trigger] vals[i].0, vals[i].1),
        ensures
            p == Self::spec_new(*vals),
            forall|i: int| 0 <= i < 4 ==> #[trigger] p.r[i] == pulserange_spec(vals[i].0, vals[i].1),
    {
        let p = PulseWidthRange {
            r: [
                pulserange(vals[0].0, vals[0].1),
                pulserange(vals[1].0, vals[1].1),
                pulserange(vals[2].0, vals[2].1),
                pulserange(vals[3].0, vals[3].1),
            ],
        };
        assert(p.r =~= Self::spec_new(*vals).r);
        p
    }

    /// Label of the first band that holds `x`, or `NOT_A_PULSEWIDTH`.
    pub open spec fn pulsewidth_spec(&self, x: u32) -> usize {
        if in_range(self.r[0], x) {
            0
        } else if in_range(self.r[1], x) {
            1
        } else if in_range(self.r[2], x) {
            2
        } else if in_range(self.r[3], x) {
            3
        } else {
            NOT_A_PULSEWIDTH
        }
    }

    /// Classifies an interval of `pulsewidth` samples: earlier bands win.
    pub fn pulsewidth(&self, pulsewidth: u32) -> (label: usize)
        ensures
            label == self.pulsewidth_spec(pulsewidth),
            label <= NOT_A_PULSEWIDTH,
            label < NOT_A_PULSEWIDTH ==> in_range(self.r[label as int], pulsewidth),
            forall|j: int| 0 <= j < label && j < 4 ==> !in_range(#[trigger] self.r[j], pulsewidth),
    {
        let mut i: usize = 0;
        while i < 4
            invariant
                0 <= i <= 4,
                forall|j: int| 0 <= j < i ==> !in_range(#[trigger] self.r[j], pulsewidth),
            decreases 4 - i,
        {
            if self.r[i].start <= pulsewidth && pulsewidth < self.r[i].end {
                return i;
            }
            i += 1;
        }
        NOT_A_PULSEWIDTH
    }
}

/// Every center is classified under its own label, as long as its band is not empty and
/// no earlier band holds it.
pub proof fn lemma_center_is_identity(vals: [(u32, u32); 4], i: int)
    requires
        0 <= i < 4,
        forall|k: int| 0 <= k < 4 ==> band_in_reach(#[trigger] vals[k].0, vals[k].1),
        (vals[i].0 as int * vals[i].1 as int) / 100 > 0,
        forall|j: int|
            0 <= j < i ==> !in_range(#[trigger] pulserange_spec(vals[j].0, vals[j].1), vals[i].0),
    ensures
        PulseWidthRange::spec_new(vals).pulsewidth_spec(vals[i].0) == i,
{
    let p = PulseWidthRange::spec_new(vals);
    assert(p.r[0] == pulserange_spec(vals[0].0, vals[0].1));
    assert(p.r[1] == pulserange_spec(vals[1].0, vals[1].1));
    assert(p.r[2] == pulserange_spec(vals[2].0, vals[2].1));
    assert(p.r[3] == pulserange_spec(vals[3].0, vals[3].1));
    let c = vals[i].0;
    let t = vals[i].1;
    assert(band_in_reach(c, t));
    assert(c as int * t as int <= c as int * 100) by (nonlinear_arith)
        requires
            t <= 100,
            c >= 0,
    ;
    assert(in_range(pulserange_spec(c, t), c));
}

/// An interval that lies in no band gets the label `NOT_A_PULSEWIDTH`.
pub proof fn lemma_miss_is_sentinel(p: PulseWidthRange, x: u32)
    requires
        forall|j: int| 0 <= j < 4 ==> !in_range(#[trigger] p.r[j], x),
    ensures
        p.pulsewidth_spec(x) == NOT_A_PULSEWIDTH,
{
}

/// Distance between two readings `t0` and `t1` of a wrapping counter.
pub open spec fn unsigned_abs_sat_sub_spec(t0: u32, t1: u32) -> u32 {
    if t1 >= t0 {
        (t1 - t0) as u32
    } else if t0 - t1 < 0x8000_0000 {
        (t0 - t1) as u32
    } else if t0 - t1 == 0x8000_0000 {
        0x7fff_ffffu32
    } else {
        (0x1_0000_0000 - (t0 - t1)) as u32
    }
}

/// Distance from `t0` to `t1`: the difference where `t1` is not before `t0`; otherwise
/// the magnitude of the wrapped difference read as a signed number, held at `i32::MAX`.
pub fn unsigned_abs_sat_sub(t0: u32, t1: u32) -> (d: u32)
    ensures
        d == unsigned_abs_sat_sub_spec(t0, t1),
{
    if t1 >= t0 {
        t1 - t0
    } else {
        let back: u32 = t0 - t1;
        if back < 0x8000_0000 {
            back
        } else if back == 0x8000_0000 {
            0x7fff_ffff
        } else {
            (u32::MAX - back) + 1
        }
    }
}

/// `wrapping_delta` is the true elapsed time modulo 2^32: adding it to `t0` on the
/// wrapping counter gives `t1` again, whatever the two readings are.
pub proof fn lemma_wrapping_delta_elapsed(t0: u32, t1: u32)
    ensures
        (t0 + wrapping_delta_spec(t1, t0)) % 0x1_0000_0000 == t1,
        wrapping_delta_spec(t1, t0) == (t1 - t0) % 0x1_0000_0000,
{
}

/// A counter that started at `t0` and ran for `elapsed` ticks, wrapping any number of
/// times, shows a delta of `elapsed` modulo 2^32.
pub proof fn lemma_wrapping_delta_of_elapsed(t0: u32, elapsed: nat)
    ensures
        wrapping_delta_spec(((t0 + elapsed) % 0x1_0000_0000) as u32, t0) == elapsed % 0x1_0000_0000,
{
}

/// Whether bit `k` of `bits` is set.
pub open spec fn bit_set(bits: u32, k: u32) -> bool {
    (bits >> k) & 1 == 1
}

/// The band around `len` with a tolerance of `percent`, widened by `below` at its
/// lower end, as far as zero, and by `above` at its upper end.
pub open spec fn widened_band(len: u32, percent: u32, below: u32, above: u32) -> Range<u32> {
    let tol = (len * percent) / 100;
    Range {
        start: if len - tol - below < 0 {
            0u32
        } else {
            (len - tol - below) as u32
        },
        end: (len + tol + above) as u32,
    }
}

/// Builds the widened band around `len` samples.
pub fn widened_range(len: u32, percent: u32, below: u32, above: u32) -> (r: Range<u32>)
    requires
        percent <= 100,
        len <= 0x7fff_0000,
        above <= 0x1_0000,
    ensures
        r == widened_band(len, percent, below, above),
{
    assert(len * percent <= 0x7fff_0000 * 100) by (nonlinear_arith)
        requires
            len <= 0x7fff_0000,
            percent <= 100,
    ;
    let tol: u32 = ((len as u64 * percent as u64) / 100) as u32;
    Range { start: len.saturating_sub(tol).saturating_sub(below), end: len + tol + above }
}

/// The interval from `last` to `time`, as far as 16 bits hold it; 0 for a longer one.
pub open spec fn short_delta(time: u32, last: u32) -> u16 {
    if wrapping_delta_spec(time, last) >= u16::MAX {
        0
    } else {
        wrapping_delta_spec(time, last) as u16
    }
}

/// The half-bit clock `clock` moved on by `units`.
pub open spec fn clock_after(clock: u32, units: Option<u32>) -> u32 {
    match units {
        Some(u) => ((clock + u) % 0x1_0000_0000) as u32,
        None => clock,
    }
}

/// Bit `k` of `bits`, for `k` below 16.
pub open spec fn bit16(bits: u16, k: int) -> bool {
    bits & (1u16 << (k as u16)) != 0
}

} // verus!
