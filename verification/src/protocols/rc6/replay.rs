//! What a replay decodes from the pulse train of an Rc6 command.
use crate::bufrecv::{
    all_replayed, commands, edge_time, first_replayed, lemma_commands_unfold, offer, scan,
    REPLAY_SAMPLERATE,
};
use crate::cmd::Command;
use crate::protocols::rc6::{
    lemma_rc6_cells_grow, lemma_rc6_cells_len, rc6_band, rc6_cells, rc6_header_cell, rc6_pulses,
    rc6_units, rc6_units_from, Rc6, Rc6Command, Rc6State,
};
use crate::protocols::utils::{bit_set, period_us};
use crate::recv::{Receiver, State};
use crate::replay::{
    cell_us, later, lemma_cell_us, lemma_edge_time, lemma_later_twice, lemma_periods, ticks_us,
};
use crate::sender::scaled;
use core::ops::Range;
use vstd::prelude::*;

verus! {

/// The bits of `bits` from bit `low` upwards.
spec fn top_bits(bits: u32, low: int) -> u32 {
    bits & (0xffff_ffffu32 << (low as u32))
}

/// One more of the highest bits: bit `j` joins the bits above it.
proof fn lemma_top_bits_step(bits: u32, j: int)
    requires
        0 <= j <= 15,
        bits < 0x1_0000,
    ensures
        bit_set(bits, j as u32) ==> top_bits(bits, j) == top_bits(bits, j + 1) | (1u32 << (
        j as u32)),
        !bit_set(bits, j as u32) ==> top_bits(bits, j) == top_bits(bits, j + 1),
        top_bits(bits, 0) == bits,
        top_bits(bits, 16) == 0,
{
    let k = j as u32;
    let k1 = (j + 1) as u32;
    assert((bits >> k) & 1 == 1 ==> bits & (0xffff_ffffu32 << k) == (bits & (0xffff_ffffu32
        << k1)) | (1u32 << k)) by (bit_vector)
        requires
            k <= 15,
            k1 == k + 1,
    ;
    assert(!((bits >> k) & 1 == 1) ==> bits & (0xffff_ffffu32 << k) == (bits & (0xffff_ffffu32
        << k1))) by (bit_vector)
        requires
            k <= 15,
            k1 == k + 1,
    ;
    assert(bits & (0xffff_ffffu32 << 0u32) == bits) by (bit_vector);
    assert(bits & (0xffff_ffffu32 << 16u32) == 0) by (bit_vector)
        requires
            bits < 0x1_0000,
    ;
}

/// The bands of one to six half bits in a decoder for microsecond ticks.
proof fn lemma_replay_bands()
    ensures
        rc6_band(REPLAY_SAMPLERATE, 1) == (Range::<u32> { start: 389, end: 501 }),
        rc6_band(REPLAY_SAMPLERATE, 2) == (Range::<u32> { start: 780, end: 998 }),
        rc6_band(REPLAY_SAMPLERATE, 3) == (Range::<u32> { start: 1171, end: 1495 }),
        rc6_band(REPLAY_SAMPLERATE, 4) == (Range::<u32> { start: 1561, end: 1993 }),
        rc6_band(REPLAY_SAMPLERATE, 5) == (Range::<u32> { start: 1952, end: 2490 }),
        rc6_band(REPLAY_SAMPLERATE, 6) == (Range::<u32> { start: 2343, end: 2987 }),
{
    assert((1_000_000int * 444 * 1) / 1_000_000 == 444) by (nonlinear_arith);
    assert((1_000_000int * 444 * 2) / 1_000_000 == 888) by (nonlinear_arith);
    assert((1_000_000int * 444 * 3) / 1_000_000 == 1332) by (nonlinear_arith);
    assert((1_000_000int * 444 * 4) / 1_000_000 == 1776) by (nonlinear_arith);
    assert((1_000_000int * 444 * 5) / 1_000_000 == 2220) by (nonlinear_arith);
    assert((1_000_000int * 444 * 6) / 1_000_000 == 2664) by (nonlinear_arith);
    assert((444int * 12) / 100 == 53) by (nonlinear_arith);
    assert((888int * 12) / 100 == 106) by (nonlinear_arith);
    assert((1332int * 12) / 100 == 159) by (nonlinear_arith);
    assert((1776int * 12) / 100 == 213) by (nonlinear_arith);
    assert((2220int * 12) / 100 == 266) by (nonlinear_arith);
    assert((2664int * 12) / 100 == 319) by (nonlinear_arith);
}

/// The number of half bits that the bands of a decoder for microsecond ticks give to an
/// interval.
proof fn lemma_replay_units(us: u16)
    ensures
        389 <= us < 501 ==> rc6_units(REPLAY_SAMPLERATE, us) == Some(1u32),
        780 <= us < 998 ==> rc6_units(REPLAY_SAMPLERATE, us) == Some(2u32),
        1171 <= us < 1495 ==> rc6_units(REPLAY_SAMPLERATE, us) == Some(3u32),
        2490 <= us < 2987 ==> rc6_units(REPLAY_SAMPLERATE, us) == Some(6u32),
{
    lemma_replay_bands();
    reveal_with_fuel(rc6_units_from, 7);
}

/// What scaling to ticks of 50, 25, 12 or 1 microseconds leaves of one, two, three and
/// six half bits: all stay in their bands.
proof fn lemma_rc6_ticks(p: u32)
    requires
        p == 50 || p == 25 || p == 12 || p == 1,
    ensures
        ticks_us(0, p) == 0,
        389 <= ticks_us(444, p) < 501,
        780 <= ticks_us(888, p) < 998,
        1171 <= ticks_us(1332, p) < 1495,
        2490 <= ticks_us(2664, p) < 2987,
{
    assert((0int / 50) * 50 == 0 && (0int / 25) * 25 == 0 && (0int / 12) * 12 == 0 && (0int / 1)
        * 1 == 0) by (nonlinear_arith);
    assert((444int / 50) * 50 == 400 && (444int / 25) * 25 == 425 && (444int / 12) * 12 == 444
        && (444int / 1) * 1 == 444) by (nonlinear_arith);
    assert((888int / 50) * 50 == 850 && (888int / 25) * 25 == 875 && (888int / 12) * 12 == 888
        && (888int / 1) * 1 == 888) by (nonlinear_arith);
    assert((1332int / 50) * 50 == 1300 && (1332int / 25) * 25 == 1325 && (1332int / 12) * 12
        == 1332 && (1332int / 1) * 1 == 1332) by (nonlinear_arith);
    assert((2664int / 50) * 50 == 2650 && (2664int / 25) * 25 == 2650 && (2664int / 12) * 12
        == 2664 && (2664int / 1) * 1 == 2664) by (nonlinear_arith);
}

/// The durations of the replayed cells, for cells whose durations are `u1`, `u2`, `u3`
/// and `u6` microseconds for one, two, three and six half bits.
spec fn replays(cells: Seq<u16>, p: u32, bits: u32, u1: int, u2: int, u3: int, u6: int) -> bool {
    &&& cells.len() == rc6_pulses(bits).len()
    &&& 389 <= u1 < 501
    &&& 780 <= u2 < 998
    &&& 1171 <= u3 < 1495
    &&& 2490 <= u6 < 2987
    &&& forall|i: int|
        0 <= i < rc6_cells(bits, 16).len() ==> #[trigger] cell_us(cells, i, p) == (if rc6_cells(
            bits,
            16,
        )[i] == 444 {
            u1
        } else if rc6_cells(bits, 16)[i] == 888 {
            u2
        } else if rc6_cells(bits, 16)[i] == 1332 {
            u3
        } else if rc6_cells(bits, 16)[i] == 2664 {
            u6
        } else {
            0
        })
}

/// An edge that comes `us` microseconds after the last edge of the decoder, where `us`
/// stands for `units` half bits.
proof fn lemma_edge_after(sm: Rc6, rising: bool, us: int, units: u32)
    requires
        0 <= us < 0xffff,
        1 <= units <= 6,
        sm.rc6_clock < 0x1000,
        rc6_units(sm.samplerate, us as u16) == Some(units),
    ensures
        ({
            let clock = (sm.rc6_clock + units) as u32;
            let next = sm.step(rising, later(sm.last, us));
            &&& next.samplerate == sm.samplerate
            &&& next.last == later(sm.last, us)
            &&& next.state == sm.next_state(rising, Some(units), clock, us as u16)
            &&& next.toggle == (if sm.state is Trailing && next.state is Data {
                !rising
            } else {
                sm.toggle
            })
            &&& next.rc6_clock == (if sm.state is Idle && rising {
                0
            } else {
                clock
            })
            &&& next.data == (match sm.state {
                Rc6State::Data(n) => if clock % 2 == 1 && !rising {
                    sm.data | (1u32 << n)
                } else {
                    sm.data
                },
                _ => sm.data,
            })
        }),
{
    lemma_later_twice(sm.last, us, 0);
}

/// The replay of a cell of `us` microseconds, standing for `units` half bits, that
/// leaves the decoder inside the frame: the replay goes on behind the cell with the
/// decoder as the edge left it.
proof fn lemma_scan_step(
    sm: Rc6,
    cells: Seq<u16>,
    pos: int,
    ts: u32,
    p: u32,
    us: int,
    units: u32,
) -> (next: Rc6)
    requires
        0 <= pos < cells.len(),
        cell_us(cells, pos, p) == us,
        0 <= us < 0xffff,
        1 <= units <= 6,
        sm.last == ts,
        sm.rc6_clock < 0x1000,
        !(sm.state is Idle),
        rc6_units(sm.samplerate, us as u16) == Some(units),
        ({
            let state = sm.next_state(
                pos % 2 == 0,
                Some(units),
                (sm.rc6_clock + units) as u32,
                us as u16,
            );
            !(state is Idle) && !(state is Done) && !(state is Rc6Err)
        }),
    ensures
        next == sm.step(pos % 2 == 0, later(ts, us)),
        scan(sm, cells, pos, ts, p) == scan(next, cells, pos + 1, later(ts, us), p),
        next.samplerate == sm.samplerate,
        next.last == later(ts, us),
        next.state == sm.next_state(
            pos % 2 == 0,
            Some(units),
            (sm.rc6_clock + units) as u32,
            us as u16,
        ),
        next.toggle == (if sm.state is Trailing && next.state is Data {
            pos % 2 != 0
        } else {
            sm.toggle
        }),
        next.rc6_clock == sm.rc6_clock + units,
        next.data == (match sm.state {
            Rc6State::Data(n) => if (sm.rc6_clock + units) % 2 == 1 && pos % 2 != 0 {
                sm.data | (1u32 << n)
            } else {
                sm.data
            },
            _ => sm.data,
        }),
{
    let rising = pos % 2 == 0;
    let time = later(ts, us);
    lemma_edge_time(cells, pos, p, ts);
    lemma_edge_after(sm, rising, us, units);
    let next = sm.step(rising, time);
    assert(next.output() == State::<Rc6Command>::Receiving);
    assert(offer(sm, rising, time) == (None::<Rc6Command>, next));
    next
}

/// The first cells of every frame are those of the leader, the start bit, the mode bits
/// and the first half of the toggle bit.
proof fn lemma_header_cells(bits: u32, i: int)
    requires
        0 <= i < 11,
    ensures
        rc6_cells(bits, 16).len() >= 12,
        rc6_cells(bits, 16)[i] == rc6_header_cell(i),
{
    lemma_rc6_cells_len(bits, 16);
    lemma_rc6_cells_grow(bits, 0, 16);
    assert(rc6_cells(bits, 16).subrange(0, 11)[i] == rc6_cells(bits, 16)[i]);
}

/// The replay of the leader, the start bit, the mode bits and the first half of the
/// toggle bit leaves the decoder before the first data bit.
proof fn lemma_header_replay(
    cells: Seq<u16>,
    p: u32,
    bits: u32,
    u1: int,
    u2: int,
    u3: int,
    u6: int,
) -> (next: (Rc6, u32))
    requires
        replays(cells, p, bits, u1, u2, u3, u6),
    ensures
        scan(Rc6::fresh(REPLAY_SAMPLERATE), cells, 0, 0, p) == scan(next.0, cells, 11, next.1, p),
        next.0.samplerate == REPLAY_SAMPLERATE,
        next.0.state == Rc6State::Data(15),
        next.0.data == 0,
        !next.0.toggle,
        next.0.rc6_clock == 18,
        next.0.last == next.1,
{
    let sm0 = Rc6::fresh(REPLAY_SAMPLERATE);
    lemma_replay_units(u1 as u16);
    lemma_replay_units(u2 as u16);
    lemma_replay_units(u6 as u16);
    assert forall|i: int| 0 <= i < 11 implies cell_us(cells, i, p) == (if i == 0 {
        0
    } else if i == 1 {
        u6
    } else if i == 2 || i == 4 || i == 10 {
        u2
    } else {
        u1
    }) by {
        lemma_header_cells(bits, i);
    }
    lemma_header_cells(bits, 0);

    // No leading silence: the leader starts at time 0
    lemma_edge_time(cells, 0, p, 0);
    lemma_later_twice(0, 0, 0);
    let sm1 = sm0.step(true, 0);
    assert(sm1.state == Rc6State::Leading);
    assert(sm1.output() == State::<Rc6Command>::Receiving);
    assert(offer(sm0, true, 0) == (None::<Rc6Command>, sm1));
    assert(scan(sm0, cells, 0, 0, p) == scan(sm1, cells, 1, 0, p));

    // Leader and pause
    let sm2 = lemma_scan_step(sm1, cells, 1, 0, p, u6, 6);
    let sm3 = lemma_scan_step(sm2, cells, 2, sm2.last, p, u2, 2);
    assert(sm3.state == Rc6State::HeaderData(3));
    // Start bit
    let sm4 = lemma_scan_step(sm3, cells, 3, sm3.last, p, u1, 1);
    assert(sm4.state == Rc6State::HeaderData(2));
    lemma_header_rest(sm4, cells, p, bits, u1, u2, u3, u6)
}

/// The replay of the mode bits and the first half of the toggle bit.
proof fn lemma_header_rest(
    sm4: Rc6,
    cells: Seq<u16>,
    p: u32,
    bits: u32,
    u1: int,
    u2: int,
    u3: int,
    u6: int,
) -> (next: (Rc6, u32))
    requires
        replays(cells, p, bits, u1, u2, u3, u6),
        sm4.samplerate == REPLAY_SAMPLERATE,
        sm4.state == Rc6State::HeaderData(2),
        sm4.data == 0,
        sm4.rc6_clock == 9,
        !sm4.toggle,
    ensures
        scan(sm4, cells, 4, sm4.last, p) == scan(next.0, cells, 11, next.1, p),
        next.0.samplerate == REPLAY_SAMPLERATE,
        next.0.state == Rc6State::Data(15),
        next.0.data == 0,
        !next.0.toggle,
        next.0.rc6_clock == 18,
        next.0.last == next.1,
{
    lemma_replay_units(u1 as u16);
    lemma_replay_units(u2 as u16);
    assert forall|i: int| 4 <= i < 11 implies cell_us(cells, i, p) == (if i == 4 || i == 10 {
        u2
    } else {
        u1
    }) by {
        lemma_header_cells(bits, i);
    }
    lemma_header_cells(bits, 4);
    // Mode bits
    let sm5 = lemma_scan_step(sm4, cells, 4, sm4.last, p, u2, 2);
    assert(sm5.state == Rc6State::HeaderData(1));
    let sm6 = lemma_scan_step(sm5, cells, 5, sm5.last, p, u1, 1);
    let sm7 = lemma_scan_step(sm6, cells, 6, sm6.last, p, u1, 1);
    assert(sm7.state == Rc6State::HeaderData(0));
    let sm8 = lemma_scan_step(sm7, cells, 7, sm7.last, p, u1, 1);
    let sm9 = lemma_scan_step(sm8, cells, 8, sm8.last, p, u1, 1);
    assert(sm9.state == Rc6State::Trailing);
    // Toggle bit
    let sm10 = lemma_scan_step(sm9, cells, 9, sm9.last, p, u1, 1);
    assert(sm10.state == Rc6State::Trailing);
    let sm11 = lemma_scan_step(sm10, cells, 10, sm10.last, p, u2, 2);
    assert(sm11.state == Rc6State::Data(15));
    (sm11, sm11.last)
}

/// The decoder `sm` has received `n` data bits of the frame `bits` and saw its last
/// edge, in the middle of a bit, at `ts`.
spec fn in_frame(sm: Rc6, bits: u32, n: int, ts: u32) -> bool {
    &&& 1 <= n <= 15
    &&& bits < 0x1_0000
    &&& sm.samplerate == REPLAY_SAMPLERATE
    &&& sm.state == Rc6State::Data((15 - n) as u32)
    &&& sm.rc6_clock == 19 + 2 * n
    &&& sm.data == top_bits(bits, 16 - n)
    &&& !sm.toggle
    &&& sm.last == ts
}

/// A replay that has surfaced the command of the frame with the data `bits` in the
/// middle of the last bit, and has left the decoder reset.
spec fn landed(end: (Option<Rc6Command>, Rc6, int, u32), bits: u32) -> bool {
    &&& end.0 == Some(Rc6Command::spec_from_bits(bits, false))
    &&& end.1.state == Rc6State::Idle
    &&& end.1.samplerate == REPLAY_SAMPLERATE
    &&& end.2 == rc6_cells(bits, 16).len()
}

/// The cells that the first data bit adds to the frame.
proof fn lemma_first_cells(bits: u32)
    ensures
        ({
            let shown = rc6_cells(bits, 16);
            &&& bit_set(bits, 15) ==> rc6_cells(bits, 1).len() == 12 && shown.len() >= 12
                && shown[11] == 1332
            &&& !bit_set(bits, 15) ==> rc6_cells(bits, 1).len() == 13 && shown.len() >= 13
                && shown[11] == 888 && shown[12] == 444
        }),
{
    let longer = rc6_cells(bits, 1);
    lemma_rc6_cells_len(bits, 0);
    lemma_rc6_cells_grow(bits, 1, 16);
    let front = rc6_cells(bits, 16).subrange(0, longer.len() as int);
    assert(front[11] == longer[11]);
    if !bit_set(bits, 15) {
        assert(front[12] == longer[12]);
    }
}

/// The cells that data bit `15 - n` adds to the frame.
proof fn lemma_next_cells(bits: u32, n: int)
    requires
        1 <= n <= 15,
    ensures
        ({
            let pos = rc6_cells(bits, n as nat).len() as int;
            let shown = rc6_cells(bits, 16);
            &&& 12 <= pos
            &&& pos % 2 == 0 <==> bit_set(bits, (16 - n) as u32)
            &&& bit_set(bits, (15 - n) as u32) == bit_set(bits, (16 - n) as u32) ==> pos + 2
                == rc6_cells(bits, (n + 1) as nat).len() && pos + 2 <= shown.len() && shown[pos]
                == 444 && shown[pos + 1] == 444
            &&& bit_set(bits, (15 - n) as u32) != bit_set(bits, (16 - n) as u32) ==> pos + 1
                == rc6_cells(bits, (n + 1) as nat).len() && pos + 1 <= shown.len() && shown[pos]
                == 888
        }),
{
    let pos = rc6_cells(bits, n as nat).len() as int;
    let longer = rc6_cells(bits, (n + 1) as nat);
    lemma_rc6_cells_len(bits, n as nat);
    lemma_rc6_cells_grow(bits, (n + 1) as nat, 16);
    let front = rc6_cells(bits, 16).subrange(0, longer.len() as int);
    assert(front[pos] == longer[pos]);
    if bit_set(bits, (15 - n) as u32) == bit_set(bits, (16 - n) as u32) {
        assert(front[pos + 1] == longer[pos + 1]);
    }
}

/// The replay of the second half of the toggle bit and of the first data bit.
proof fn lemma_first_bit(
    sm: Rc6,
    cells: Seq<u16>,
    p: u32,
    bits: u32,
    u1: int,
    u2: int,
    u3: int,
    u6: int,
) -> (next: (Rc6, u32))
    requires
        replays(cells, p, bits, u1, u2, u3, u6),
        bits < 0x1_0000,
        sm.samplerate == REPLAY_SAMPLERATE,
        sm.state == Rc6State::Data(15),
        sm.data == 0,
        !sm.toggle,
        sm.rc6_clock == 18,
    ensures
        in_frame(next.0, bits, 1, next.1),
        scan(sm, cells, 11, sm.last, p) == scan(
            next.0,
            cells,
            rc6_cells(bits, 1).len() as int,
            next.1,
            p,
        ),
{
    lemma_replay_units(u1 as u16);
    lemma_replay_units(u2 as u16);
    lemma_replay_units(u3 as u16);
    lemma_first_cells(bits);
    lemma_top_bits_step(bits, 15);
    if bit_set(bits, 15) {
        assert(cell_us(cells, 11, p) == u3);
        let sm1 = lemma_scan_step(sm, cells, 11, sm.last, p, u3, 3);
        (sm1, sm1.last)
    } else {
        assert(cell_us(cells, 11, p) == u2);
        assert(cell_us(cells, 12, p) == u1);
        let sm1 = lemma_scan_step(sm, cells, 11, sm.last, p, u2, 2);
        let sm2 = lemma_scan_step(sm1, cells, 12, sm1.last, p, u1, 1);
        (sm2, sm2.last)
    }
}

/// The replay of a data bit that repeats the bit before it: two cells of half a bit.
proof fn lemma_same_bit(
    sm: Rc6,
    cells: Seq<u16>,
    p: u32,
    bits: u32,
    u1: int,
    u2: int,
    u3: int,
    u6: int,
    n: int,
    ts: u32,
) -> (next: (Rc6, u32))
    requires
        replays(cells, p, bits, u1, u2, u3, u6),
        in_frame(sm, bits, n, ts),
        bit_set(bits, (15 - n) as u32) == bit_set(bits, (16 - n) as u32),
    ensures
        n == 15 ==> landed(scan(sm, cells, rc6_cells(bits, n as nat).len() as int, ts, p), bits),
        n < 15 ==> in_frame(next.0, bits, n + 1, next.1) && scan(
            sm,
            cells,
            rc6_cells(bits, n as nat).len() as int,
            ts,
            p,
        ) == scan(next.0, cells, rc6_cells(bits, (n + 1) as nat).len() as int, next.1, p),
{
    let pos = rc6_cells(bits, n as nat).len() as int;
    lemma_replay_units(u1 as u16);
    lemma_next_cells(bits, n);
    lemma_top_bits_step(bits, 15 - n);
    assert(cell_us(cells, pos, p) == u1);
    assert(cell_us(cells, pos + 1, p) == u1);
    let sm1 = lemma_scan_step(sm, cells, pos, ts, p, u1, 1);
    if n == 15 {
        let rising = (pos + 1) % 2 == 0;
        let time = later(sm1.last, u1);
        lemma_edge_time(cells, pos + 1, p, sm1.last);
        lemma_edge_after(sm1, rising, u1, 1);
        let sm2 = sm1.step(rising, time);
        assert(sm2.data == top_bits(bits, 0));
        assert(sm2.output() == State::Done(Rc6Command::spec_from_bits(bits, false)));
        assert(offer(sm1, rising, time) == (
            Some(Rc6Command::spec_from_bits(bits, false)),
            sm2.cleared(),
        ));
        assert(scan(sm1, cells, pos + 1, sm1.last, p) == (
            Some(Rc6Command::spec_from_bits(bits, false)),
            sm2.cleared(),
            pos + 2,
            time,
        ));
        (sm2, time)
    } else {
        let sm2 = lemma_scan_step(sm1, cells, pos + 1, sm1.last, p, u1, 1);
        (sm2, sm2.last)
    }
}

/// The replay of a data bit that differs from the bit before it: one cell of a whole bit.
proof fn lemma_other_bit(
    sm: Rc6,
    cells: Seq<u16>,
    p: u32,
    bits: u32,
    u1: int,
    u2: int,
    u3: int,
    u6: int,
    n: int,
    ts: u32,
) -> (next: (Rc6, u32))
    requires
        replays(cells, p, bits, u1, u2, u3, u6),
        in_frame(sm, bits, n, ts),
        bit_set(bits, (15 - n) as u32) != bit_set(bits, (16 - n) as u32),
    ensures
        n == 15 ==> landed(scan(sm, cells, rc6_cells(bits, n as nat).len() as int, ts, p), bits),
        n < 15 ==> in_frame(next.0, bits, n + 1, next.1) && scan(
            sm,
            cells,
            rc6_cells(bits, n as nat).len() as int,
            ts,
            p,
        ) == scan(next.0, cells, rc6_cells(bits, (n + 1) as nat).len() as int, next.1, p),
{
    let pos = rc6_cells(bits, n as nat).len() as int;
    lemma_replay_units(u2 as u16);
    lemma_next_cells(bits, n);
    lemma_top_bits_step(bits, 15 - n);
    assert(cell_us(cells, pos, p) == u2);
    if n == 15 {
        let rising = pos % 2 == 0;
        let time = later(ts, u2);
        lemma_edge_time(cells, pos, p, ts);
        lemma_edge_after(sm, rising, u2, 2);
        let sm1 = sm.step(rising, time);
        assert(sm1.data == top_bits(bits, 0));
        assert(sm1.output() == State::Done(Rc6Command::spec_from_bits(bits, false)));
        assert(offer(sm, rising, time) == (
            Some(Rc6Command::spec_from_bits(bits, false)),
            sm1.cleared(),
        ));
        assert(scan(sm, cells, pos, ts, p) == (
            Some(Rc6Command::spec_from_bits(bits, false)),
            sm1.cleared(),
            pos + 1,
            time,
        ));
        (sm1, time)
    } else {
        let sm1 = lemma_scan_step(sm, cells, pos, ts, p, u2, 2);
        (sm1, sm1.last)
    }
}

/// A decoder that has received `n` data bits receives the rest of the frame: the command
/// that `bits` hold is the first that the replay surfaces, and the replay stops in the
/// middle of the last bit.
proof fn lemma_bits_replay(
    sm: Rc6,
    cells: Seq<u16>,
    p: u32,
    bits: u32,
    u1: int,
    u2: int,
    u3: int,
    u6: int,
    n: int,
    ts: u32,
)
    requires
        replays(cells, p, bits, u1, u2, u3, u6),
        in_frame(sm, bits, n, ts),
    ensures
        landed(scan(sm, cells, rc6_cells(bits, n as nat).len() as int, ts, p), bits),
    decreases 16 - n,
{
    let next = if bit_set(bits, (15 - n) as u32) == bit_set(bits, (16 - n) as u32) {
        lemma_same_bit(sm, cells, p, bits, u1, u2, u3, u6, n, ts)
    } else {
        lemma_other_bit(sm, cells, p, bits, u1, u2, u3, u6, n, ts)
    };
    if n < 15 {
        lemma_bits_replay(next.0, cells, p, bits, u1, u2, u3, u6, n + 1, next.1);
    }
}

/// Every cell before the middle of the last bit lasts one, two, three or six half bits,
/// but for the leading silence.
proof fn lemma_rc6_cell_values(bits: u32, n: nat, i: int)
    requires
        n <= 16,
        0 <= i < rc6_cells(bits, n).len(),
    ensures
        ({
            let cell = rc6_cells(bits, n)[i];
            if i == 0 {
                cell == 0
            } else {
                cell == 444 || cell == 888 || cell == 1332 || cell == 2664
            }
        }),
    decreases n,
{
    if n > 0 {
        let before = rc6_cells(bits, (n - 1) as nat);
        lemma_rc6_cells_len(bits, (n - 1) as nat);
        if i < before.len() {
            lemma_rc6_cell_values(bits, (n - 1) as nat, i);
        }
    }
}

/// Behind the middle of the last bit the replay finds the second half of that bit, and
/// a silence where that half has the carrier on: an idle decoder takes no command from
/// them.
proof fn lemma_tail_replay(sm: Rc6, cells: Seq<u16>, p: u32, bits: u32, ts: u32)
    requires
        cells.len() == rc6_pulses(bits).len(),
        sm.state == Rc6State::Idle,
    ensures
        commands(sm, cells, rc6_cells(bits, 16).len() as int, ts, p) == Seq::<Rc6Command>::empty(),
{
    let pos = rc6_cells(bits, 16).len() as int;
    lemma_rc6_cells_len(bits, 16);
    let t1 = edge_time(ts, cells[pos], p);
    let sm1 = sm.step(pos % 2 == 0, t1);
    assert(offer(sm, pos % 2 == 0, t1) == (None::<Rc6Command>, sm1));
    if !bit_set(bits, 0) {
        // The half with carrier ends with a falling edge, the silence with a rising edge
        assert(sm1.state == Rc6State::Idle);
        let t2 = edge_time(t1, cells[pos + 1], p);
        let sm2 = sm1.step(true, t2);
        assert(sm2.state == Rc6State::Leading);
        assert(offer(sm1, true, t2) == (None::<Rc6Command>, sm2));
        assert(commands(sm2, cells, pos + 2, t2, p) == Seq::<Rc6Command>::empty());
        assert(commands(sm1, cells, pos + 1, t1, p) == commands(sm2, cells, pos + 2, t2, p));
    } else {
        assert(commands(sm1, cells, pos + 1, t1, p) == Seq::<Rc6Command>::empty());
    }
    assert(commands(sm, cells, pos, ts, p) == commands(sm1, cells, pos + 1, t1, p));
}

/// The replay of the pulse train of `c`, scaled to ticks of `p` microseconds, surfaces
/// `c` and nothing else.
proof fn lemma_rc6_replay_at(c: Rc6Command, p: u32)
    requires
        c.sendable(),
        p == 50 || p == 25 || p == 12 || p == 1,
    ensures
        scan(Rc6::fresh(REPLAY_SAMPLERATE), scaled(c.pulses(), p), 0, 0, p).0 == Some(c),
        commands(Rc6::fresh(REPLAY_SAMPLERATE), scaled(c.pulses(), p), 0, 0, p) == seq![c],
{
    let bits = c.spec_to_bits();
    let pulses = rc6_pulses(bits);
    let cells = scaled(pulses, p);
    let shown = rc6_cells(bits, 16);
    let sm0 = Rc6::fresh(REPLAY_SAMPLERATE);
    let u1 = ticks_us(444, p);
    let u2 = ticks_us(888, p);
    let u3 = ticks_us(1332, p);
    let u6 = ticks_us(2664, p);

    c.lemma_from_bits_to_bits();
    let a = c.addr as u32;
    let d = c.cmd as u32;
    assert(bits < 0x1_0000) by (bit_vector)
        requires
            bits == (a << 8) | d,
            a < 256,
            d < 256,
    ;
    lemma_rc6_ticks(p);
    lemma_rc6_cells_len(bits, 16);
    assert forall|i: int| 0 <= i < shown.len() implies #[trigger] cell_us(cells, i, p) == (
    if shown[i] == 444 {
        u1
    } else if shown[i] == 888 {
        u2
    } else if shown[i] == 1332 {
        u3
    } else if shown[i] == 2664 {
        u6
    } else {
        0
    }) by {
        assert(pulses[i] == shown[i]);
        lemma_cell_us(pulses, p, i);
        lemma_rc6_cell_values(bits, 16, i);
    }
    assert(replays(cells, p, bits, u1, u2, u3, u6));

    let header = lemma_header_replay(cells, p, bits, u1, u2, u3, u6);
    let first = lemma_first_bit(header.0, cells, p, bits, u1, u2, u3, u6);
    lemma_bits_replay(first.0, cells, p, bits, u1, u2, u3, u6, 1, first.1);

    let end = scan(sm0, cells, 0, 0, p);
    lemma_commands_unfold(sm0, cells, 0, 0, p);
    lemma_tail_replay(end.1, cells, p, bits, end.3);
    assert(seq![c] + Seq::<Rc6Command>::empty() =~= seq![c]);
}

/// A command in mode 0 with the toggle bit clear that is turned into a pulse train,
/// loaded into a buffer at a sample rate of 20 kHz, 40 kHz, 80 kHz or 1 MHz and replayed
/// from there at the same rate, comes back as it was: it is the first command that the
/// replay surfaces, and the only one.
pub proof fn lemma_rc6_roundtrip(c: Rc6Command, samplerate: u32)
    requires
        c.sendable(),
        samplerate == 20_000 || samplerate == 40_000 || samplerate == 80_000 || samplerate
            == 1_000_000,
    ensures
        first_replayed::<Rc6>(c.pulses(), samplerate) == Some(c),
        all_replayed::<Rc6>(c.pulses(), samplerate) == seq![c],
{
    lemma_periods();
    lemma_rc6_replay_at(c, period_us(samplerate) as u32);
}

} // verus!
