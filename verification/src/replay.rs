//! Arithmetic of replays: what becomes of a duration that is scaled to sample ticks and
//! replayed in microseconds.
use crate::bufrecv::{edge_time, REPLAY_SAMPLERATE};
use crate::protocols::utils::{period_us, wrapping_delta_spec};
use crate::sender::scaled;
use vstd::prelude::*;

verus! {

/// Duration in microseconds that a replay with ticks of `scaler` microseconds gives to
/// cell `i`.
pub open spec fn cell_us(cells: Seq<u16>, i: int, scaler: u32) -> int {
    cells[i] as int * scaler as int
}

/// What is left of `us` microseconds after scaling to ticks of `p` microseconds.
pub open spec fn ticks_us(us: u16, p: u32) -> int {
    (us as int / p as int) * p as int
}

/// The time on the wrapping microsecond counter, `elapsed` microseconds after `ts`.
pub open spec fn later(ts: u32, elapsed: int) -> u32 {
    ((ts + elapsed) % 0x1_0000_0000) as u32
}

/// The edge that ends cell `i` comes the duration of the cell after the edge before.
pub proof fn lemma_edge_time(cells: Seq<u16>, i: int, scaler: u32, ts: u32)
    ensures
        edge_time(ts, cells[i], scaler) == later(ts, cell_us(cells, i, scaler)),
{
}

/// Two intervals in a row add up on the wrapping counter.
pub proof fn lemma_later_twice(ts: u32, a: int, b: int)
    requires
        0 <= a,
        0 <= b,
        a + b < 0x1_0000_0000,
    ensures
        later(later(ts, a), b) == later(ts, a + b),
        wrapping_delta_spec(later(ts, a), ts) == a,
        wrapping_delta_spec(later(ts, a + b), ts) == a + b,
{
}

/// A scaled cell is replayed with what scaling left of its duration.
pub proof fn lemma_cell_us(pulses: Seq<u16>, p: u32, i: int)
    requires
        p >= 1,
        0 <= i < pulses.len(),
    ensures
        cell_us(scaled(pulses, p), i, p) == ticks_us(pulses[i], p),
        0 <= ticks_us(pulses[i], p) <= pulses[i],
{
    let us = pulses[i] as int;
    let d = p as int;
    assert(0 <= us / d <= us && (us / d) * d <= us) by (nonlinear_arith)
        requires
            0 <= us,
            1 <= d,
    ;
}

/// The periods of the sample rates 20 kHz, 40 kHz, 80 kHz and 1 MHz in microseconds.
pub proof fn lemma_periods()
    ensures
        period_us(20_000) == 50,
        period_us(40_000) == 25,
        period_us(80_000) == 12,
        period_us(1_000_000) == 1,
{
    assert(1_000_000int / 1_000_000int == 1) by (nonlinear_arith);
    assert(1_000_000int / 20_000int == 50) by (nonlinear_arith);
    assert(1_000_000int / 40_000int == 25) by (nonlinear_arith);
    assert(1_000_000int / 80_000int == 12) by (nonlinear_arith);
}

/// A replay counts microseconds.
pub proof fn lemma_replay_period()
    ensures
        period_us(REPLAY_SAMPLERATE) == 1,
{
    assert(1_000_000int / 1_000_000int == 1) by (nonlinear_arith);
}

} // verus!
