//! What a replay decodes from the pulse train of a Nec command.
use crate::bufrecv::{
    all_replayed, commands, edge_time, first_replayed, lemma_commands_unfold, offer, scan, REPLAY_SAMPLERATE,
};
use crate::cmd::Command;
use crate::protocols::nec::receiver::nsamples_from_timing_spec;
use crate::protocols::nec::{
    nec_cell, samsung_timing, standard_timing, NecCommand, NecState, NecType, NecVariant,
};
use crate::protocols::utils::{
    bit_set, period_us, pulserange_spec, wrapping_delta_spec, PulseWidthRange,
};
use crate::recv::{Receiver, State};
use crate::replay::{
    cell_us, later, lemma_cell_us, lemma_later_twice, lemma_periods, lemma_replay_period,
    ticks_us,
};
use crate::sender::scaled;
use core::ops::Range;
use vstd::prelude::*;

verus! {

/// The `k` lowest bits of `bits`.
spec fn low_bits(bits: u32, k: u32) -> u32 {
    if k >= 32 {
        bits
    } else {
        bits & !(0xffff_ffffu32 << k)
    }
}

/// One more of the lowest bits: bit `k` joins the bits below it.
proof fn lemma_low_bits_step(bits: u32, k: u32)
    requires
        k < 32,
    ensures
        low_bits(bits, 0) == 0,
        bit_set(bits, k) ==> low_bits(bits, (k + 1) as u32) == low_bits(bits, k) | (1u32 << k),
        !bit_set(bits, k) ==> low_bits(bits, (k + 1) as u32) == low_bits(bits, k),
{
    assert(bits & !(0xffff_ffffu32 << 0) == 0) by (bit_vector);
    if k < 31 {
        let k1 = (k + 1) as u32;
        assert((bits >> k) & 1 == 1 ==> bits & !(0xffff_ffffu32 << k1) == (bits & !(0xffff_ffffu32
            << k)) | (1u32 << k)) by (bit_vector)
            requires
                k < 31,
                k1 == k + 1,
        ;
        assert(!((bits >> k) & 1 == 1) ==> bits & !(0xffff_ffffu32 << k1) == (bits & !(
            0xffff_ffffu32 << k))) by (bit_vector)
            requires
                k < 31,
                k1 == k + 1,
        ;
    } else {
        assert((bits >> 31) & 1 == 1 ==> bits == (bits & !(0xffff_ffffu32 << 31)) | (1u32 << 31))
            by (bit_vector);
        assert(!((bits >> 31) & 1 == 1) ==> bits == (bits & !(0xffff_ffffu32 << 31)))
            by (bit_vector);
    }
}

/// A rising edge that closes the gap of a bit gives the decoder that bit.
proof fn lemma_receive_bit<V: NecVariant>(sm: NecType<V>, time: u32, k: u32, one: bool)
    requires
        k < 32,
        sm.state == NecState::Receiving(k),
        sm.ranges.pulsewidth_spec(wrapping_delta_spec(time, sm.last_event)) == (if one {
            3usize
        } else {
            2usize
        }),
    ensures
        sm.step(true, time).state == (if k == 31 {
            NecState::Done
        } else {
            NecState::Receiving((k + 1) as u32)
        }),
        sm.step(true, time).bitbuf == (if one {
            sm.bitbuf | (1u32 << k)
        } else {
            sm.bitbuf
        }),
        sm.step(true, time).last_event == time,
        sm.step(true, time).ranges == sm.ranges,
{
}

/// What the replay of a frame rests on: the cells are those of a frame that carries
/// `bits`, replayed with `on` microseconds for a burst and `zero` and `one` microseconds
/// for the gaps of the two bit values, and the bands `ranges` tell the two kinds of bit
/// apart and hold nothing as long as a frame.
spec fn replays(
    ranges: PulseWidthRange,
    cells: Seq<u16>,
    scaler: u32,
    bits: u32,
    on: int,
    zero: int,
    one: int,
) -> bool {
    &&& cells.len() == 69
    &&& 0 <= on
    &&& 0 <= zero
    &&& 0 <= one
    &&& 1000 <= on + zero <= 3000
    &&& 1000 <= on + one <= 3000
    &&& forall|i: int| 3 <= i < 69 && i % 2 == 1 ==> #[trigger] cell_us(cells, i, scaler) == on
    &&& forall|i: int|
        4 <= i < 67 && i % 2 == 0 ==> #[trigger] cell_us(cells, i, scaler) == (if bit_set(
            bits,
            ((i - 4) / 2) as u32,
        ) {
            one
        } else {
            zero
        })
    &&& cell_us(cells, 68, scaler) == zero
    &&& ranges.pulsewidth_spec((on + zero) as u32) == 2
    &&& ranges.pulsewidth_spec((on + one) as u32) == 3
    &&& forall|x: u32| 40_000 <= x <= 300_000 ==> #[trigger] ranges.pulsewidth_spec(x) == 4
}

/// The decoder behind a frame that carried `bits`: reset, with `bits` kept for a repeat.
spec fn behind_frame<V: NecVariant>(sm: NecType<V>, bits: u32) -> NecType<V> {
    NecType {
        state: NecState::Init,
        last_event: 0,
        bitbuf: 0,
        ranges: sm.ranges,
        lastcommand: bits,
        nectype: sm.nectype,
    }
}

/// A decoder that has the bits below bit `k` and stands before the burst of bit `k`
/// receives the rest of the frame: the command that `bits` carry is the first that the
/// replay surfaces, and the replay stops behind the gap of the last bit.
proof fn lemma_bits_replay<V: NecVariant>(
    sm: NecType<V>,
    cells: Seq<u16>,
    scaler: u32,
    bits: u32,
    on: int,
    zero: int,
    one: int,
    k: int,
    ts: u32,
)
    requires
        0 <= k < 32,
        replays(sm.ranges, cells, scaler, bits, on, zero, one),
        sm.state == NecState::Receiving(k as u32),
        sm.bitbuf == low_bits(bits, k as u32),
        sm.last_event == ts,
        9000 + 1000 * k <= ts,
        ts + (32 - k) * 3000 <= 200_000,
    ensures
        ({
            let end = scan(sm, cells, 3 + 2 * k, ts, scaler);
            &&& end.0 == Some(NecType::<V>::command_of(bits))
            &&& end.1 == behind_frame(sm, bits)
            &&& end.2 == 67
            &&& 41_000 <= end.3 <= 200_000
        }),
    decreases 32 - k,
{
    let pos = 3 + 2 * k;
    let is_one = bit_set(bits, k as u32);
    let gap = if is_one {
        one
    } else {
        zero
    };
    assert(cell_us(cells, pos, scaler) == on);
    assert(cell_us(cells, pos + 1, scaler) == gap) by {
        assert((pos + 1 - 4) / 2 == k);
    }
    let t1 = edge_time(ts, cells[pos], scaler);
    let t2 = edge_time(t1, cells[pos + 1], scaler);
    assert(t1 == later(ts, on));
    assert(t2 == later(t1, gap));
    lemma_later_twice(ts, on, gap);
    assert(wrapping_delta_spec(t2, ts) == on + gap);
    assert(t2 == ts + on + gap);

    assert(sm.step(false, t1) == sm);
    assert(offer(sm, false, t1) == (None::<NecCommand<V>>, sm));
    assert(scan(sm, cells, pos, ts, scaler) == scan(sm, cells, pos + 1, t1, scaler));

    let sm2 = sm.step(true, t2);
    lemma_receive_bit(sm, t2, k as u32, is_one);
    lemma_low_bits_step(bits, k as u32);
    assert(sm2.bitbuf == low_bits(bits, (k + 1) as u32));
    if k == 31 {
        assert(sm2.output() == State::Done(NecType::<V>::command_of(bits)));
        assert(sm2.cleared() == behind_frame(sm, bits));
        assert(offer(sm, true, t2) == (
            Some(NecType::<V>::command_of(bits)),
            behind_frame(sm, bits),
        ));
    } else {
        assert(sm2.output() == State::<NecCommand<V>>::Receiving);
        assert(offer(sm, true, t2) == (None::<NecCommand<V>>, sm2));
        assert(scan(sm, cells, pos + 1, t1, scaler) == scan(sm2, cells, pos + 2, t2, scaler));
        lemma_bits_replay(sm2, cells, scaler, bits, on, zero, one, k + 1, t2);
    }
}

/// Behind the gap of the last bit the replay finds the burst that closes the gap and a
/// silence, and no command.
proof fn lemma_tail_replay<V: NecVariant>(
    sm: NecType<V>,
    cells: Seq<u16>,
    scaler: u32,
    bits: u32,
    on: int,
    zero: int,
    one: int,
    ts: u32,
)
    requires
        replays(sm.ranges, cells, scaler, bits, on, zero, one),
        sm.state == NecState::Init,
        sm.last_event == 0,
        41_000 <= ts <= 200_000,
    ensures
        commands(sm, cells, 67, ts, scaler) == Seq::<NecCommand<V>>::empty(),
{
    assert(cell_us(cells, 67, scaler) == on);
    let t1 = edge_time(ts, cells[67], scaler);
    let t2 = edge_time(t1, cells[68], scaler);
    assert(t1 == later(ts, on));
    assert(t2 == later(t1, zero));
    lemma_later_twice(ts, on, zero);
    assert(t2 == ts + on + zero);
    assert(sm.step(false, t1) == sm);
    assert(offer(sm, false, t1) == (None::<NecCommand<V>>, sm));
    assert(wrapping_delta_spec(t2, 0) == t2);
    assert(sm.ranges.pulsewidth_spec(t2) == 4);
    let sm2 = sm.step(true, t2);
    assert(sm2.state == NecState::Init);
    assert(offer(sm, true, t2) == (None::<NecCommand<V>>, sm2));
    assert(commands(sm2, cells, 69, t2, scaler) == Seq::<NecCommand<V>>::empty());
    assert(commands(sm, cells, 68, t1, scaler) == commands(sm2, cells, 69, t2, scaler));
    assert(commands(sm, cells, 67, ts, scaler) == commands(sm, cells, 68, t1, scaler));
}

/// The bands of a decoder for microsecond ticks.
proof fn lemma_replay_ranges<V: NecVariant>()
    requires
        V::timing_spec() == standard_timing() || V::timing_spec() == samsung_timing(),
    ensures
        ({
            let r = NecType::<V>::fresh(REPLAY_SAMPLERATE).ranges.r;
            &&& V::timing_spec() == standard_timing() ==> r[0] == (Range::<u32> {
                start: 12825,
                end: 14175,
            }) && r[1] == (Range::<u32> { start: 10688, end: 11812 })
            &&& V::timing_spec() == samsung_timing() ==> r[0] == (Range::<u32> {
                start: 8550,
                end: 9450,
            }) && r[1] == (Range::<u32> { start: 6413, end: 7087 })
            &&& r[2] == (Range::<u32> { start: 1008, end: 1232 })
            &&& r[3] == (Range::<u32> { start: 2025, end: 2475 })
        }),
{
    lemma_replay_period();
    let t = V::timing_spec();
    let centers = nsamples_from_timing_spec(t, REPLAY_SAMPLERATE);
    let r = NecType::<V>::fresh(REPLAY_SAMPLERATE).ranges.r;
    assert(r[0] == pulserange_spec(centers[0].0, centers[0].1));
    assert(r[1] == pulserange_spec(centers[1].0, centers[1].1));
    assert(r[2] == pulserange_spec(centers[2].0, centers[2].1));
    assert(r[3] == pulserange_spec(centers[3].0, centers[3].1));
    assert(centers[2] == (1120u32, 10u32));
    assert(centers[3] == (2250u32, 10u32));
    assert((1120int * 10) / 100 == 112) by (nonlinear_arith);
    assert((2250int * 10) / 100 == 225) by (nonlinear_arith);
    if t == standard_timing() {
        assert(centers[0] == (13500u32, 5u32));
        assert(centers[1] == (11250u32, 5u32));
        assert((13500int * 5) / 100 == 675) by (nonlinear_arith);
        assert((11250int * 5) / 100 == 562) by (nonlinear_arith);
    } else {
        assert(centers[0] == (9000u32, 5u32));
        assert(centers[1] == (6750u32, 5u32));
        assert((9000int * 5) / 100 == 450) by (nonlinear_arith);
        assert((6750int * 5) / 100 == 337) by (nonlinear_arith);
    }
}

/// What scaling to ticks of 50, 25, 12 or 1 microseconds leaves of the durations of a
/// frame.
proof fn lemma_nec_ticks(p: u32)
    requires
        p == 50 || p == 25 || p == 12 || p == 1,
    ensures
        ticks_us(0, p) == 0,
        ticks_us(9000, p) == 9000,
        ticks_us(4500, p) == 4500,
        ticks_us(560, p) == (if p == 12 {
            552int
        } else if p == 1 {
            560int
        } else {
            550int
        }),
        ticks_us(1690, p) == (if p == 50 {
            1650int
        } else if p == 25 {
            1675int
        } else if p == 12 {
            1680int
        } else {
            1690int
        }),
{
    assert((0int / 50) * 50 == 0 && (0int / 25) * 25 == 0 && (0int / 12) * 12 == 0 && (0int / 1)
        * 1 == 0) by (nonlinear_arith);
    assert((9000int / 50) * 50 == 9000 && (9000int / 25) * 25 == 9000 && (9000int / 12) * 12
        == 9000 && (9000int / 1) * 1 == 9000) by (nonlinear_arith);
    assert((4500int / 50) * 50 == 4500 && (4500int / 25) * 25 == 4500 && (4500int / 12) * 12
        == 4500 && (4500int / 1) * 1 == 4500) by (nonlinear_arith);
    assert((560int / 50) * 50 == 550 && (560int / 25) * 25 == 550 && (560int / 12) * 12 == 552
        && (560int / 1) * 1 == 560) by (nonlinear_arith);
    assert((1690int / 50) * 50 == 1650 && (1690int / 25) * 25 == 1675 && (1690int / 12) * 12
        == 1680 && (1690int / 1) * 1 == 1690) by (nonlinear_arith);
}

/// The replay of the pulse train of `c`, scaled to ticks of `p` microseconds, surfaces
/// `c` and nothing else.
proof fn lemma_nec_replay_at<V: NecVariant>(c: NecCommand<V>, p: u32)
    requires
        c.addr <= V::max_address(),
        p == 50 || p == 25 || p == 12 || p == 1,
        V::timing_spec() == standard_timing() || V::timing_spec() == samsung_timing(),
    ensures
        scan(NecType::<V>::fresh(REPLAY_SAMPLERATE), scaled(c.pulses(), p), 0, 0, p).0 == Some(c),
        commands(NecType::<V>::fresh(REPLAY_SAMPLERATE), scaled(c.pulses(), p), 0, 0, p)
            == seq![c],
{
    let t = V::timing_spec();
    let bits = V::encode_spec(c.addr, c.cmd);
    let cells = scaled(c.pulses(), p);
    let sm0 = NecType::<V>::fresh(REPLAY_SAMPLERATE);
    let ranges = sm0.ranges;
    let on = ticks_us(t.dh, p);
    let zero = ticks_us(t.zl, p);
    let one = ticks_us(t.ol, p);
    let high = ticks_us(t.hh, p);
    let low = ticks_us(t.hl, p);

    lemma_replay_ranges::<V>();
    lemma_nec_ticks(p);
    assert(ranges.pulsewidth_spec(0) == 4);
    assert(ranges.pulsewidth_spec((high + low) as u32) == 0);
    assert(ranges.pulsewidth_spec((on + zero) as u32) == 2);
    assert(ranges.pulsewidth_spec((on + one) as u32) == 3);
    assert forall|x: u32| 40_000 <= x <= 300_000 implies #[trigger] ranges.pulsewidth_spec(x)
        == 4 by {}

    assert forall|i: int| 0 <= i < 69 implies #[trigger] cell_us(cells, i, p) == ticks_us(
        nec_cell(t, bits, i),
        p,
    ) by {
        lemma_cell_us(c.pulses(), p, i);
    }
    assert(replays(ranges, cells, p, bits, on, zero, one));

    // No leading silence: the burst of the header starts at time 0
    let t0 = edge_time(0, cells[0], p);
    assert(cell_us(cells, 0, p) == 0);
    assert(t0 == 0);
    assert(sm0.step(true, t0) == sm0);
    assert(offer(sm0, true, t0) == (None::<NecCommand<V>>, sm0));
    assert(scan(sm0, cells, 0, 0, p) == scan(sm0, cells, 1, 0, p));

    // The burst of the header
    let t1 = edge_time(0, cells[1], p);
    assert(cell_us(cells, 1, p) == high);
    assert(t1 == later(0, high));
    assert(sm0.step(false, t1) == sm0);
    assert(offer(sm0, false, t1) == (None::<NecCommand<V>>, sm0));
    assert(scan(sm0, cells, 1, 0, p) == scan(sm0, cells, 2, t1, p));

    // The gap of the header
    let t2 = edge_time(t1, cells[2], p);
    assert(cell_us(cells, 2, p) == low);
    assert(t2 == later(t1, low));
    lemma_later_twice(0, high, low);
    let sm2 = sm0.step(true, t2);
    assert(sm2.state == NecState::Receiving(0));
    assert(sm2.output() == State::<NecCommand<V>>::Receiving);
    assert(offer(sm0, true, t2) == (None::<NecCommand<V>>, sm2));
    assert(scan(sm0, cells, 2, t1, p) == scan(sm2, cells, 3, t2, p));

    lemma_low_bits_step(bits, 0);
    lemma_bits_replay(sm2, cells, p, bits, on, zero, one, 0, t2);
    V::lemma_decode_encode(c.addr, c.cmd);
    assert(NecType::<V>::command_of(bits) == c);

    let end = scan(sm0, cells, 0, 0, p);
    lemma_commands_unfold(sm0, cells, 0, 0, p);
    lemma_tail_replay(end.1, cells, p, bits, on, zero, one, end.3);
    assert(seq![c] + Seq::<NecCommand<V>>::empty() =~= seq![c]);
}

/// A command that is turned into a pulse train, loaded into a buffer at a sample rate of
/// 20 kHz, 40 kHz, 80 kHz or 1 MHz and replayed from there at the same rate, comes back
/// as it was: it is the first command that the replay surfaces, and the only one.
pub proof fn lemma_nec_roundtrip<V: NecVariant>(c: NecCommand<V>, samplerate: u32)
    requires
        c.addr <= V::max_address(),
        samplerate == 20_000 || samplerate == 40_000 || samplerate == 80_000 || samplerate
            == 1_000_000,
        V::timing_spec() == standard_timing() || V::timing_spec() == samsung_timing(),
    ensures
        first_replayed::<NecType<V>>(c.pulses(), samplerate) == Some(c),
        all_replayed::<NecType<V>>(c.pulses(), samplerate) == seq![c],
{
    lemma_periods();
    lemma_nec_replay_at(c, period_us(samplerate) as u32);
}

} // verus!
