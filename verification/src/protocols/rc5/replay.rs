//! What a replay decodes from the pulse train of an Rc5 command.
use crate::bufrecv::{
    all_replayed, commands, edge_time, first_replayed, lemma_commands_unfold, offer, scan,
    REPLAY_SAMPLERATE,
};
use crate::cmd::Command;
use crate::protocols::rc5::{
    lemma_rc5_cells_grow, lemma_rc5_cells_len, rc5_band, rc5_cells, rc5_pulses, rc5_units, Rc5,
    Rc5Command, Rc5State,
};
use crate::protocols::utils::{bit16, clock_after, period_us, short_delta};
use crate::recv::{Receiver, State};
use crate::replay::{
    cell_us, later, lemma_cell_us, lemma_edge_time, lemma_later_twice, lemma_periods, ticks_us,
};
use crate::sender::scaled;
use core::ops::Range;
use vstd::prelude::*;

verus! {

/// The bits of `bits` from bit `low` upwards.
spec fn top_bits(bits: u16, low: int) -> u16 {
    bits & (0xffffu16 << (low as u16))
}

/// One more of the highest bits: bit `j` joins the bits above it.
proof fn lemma_top_bits_step(bits: u16, j: int)
    requires
        0 <= j <= 12,
    ensures
        bit16(bits, j) ==> top_bits(bits, j) == top_bits(bits, j + 1) | (1u16 << (j as u16)),
        !bit16(bits, j) ==> top_bits(bits, j) == top_bits(bits, j + 1),
        top_bits(bits, 0) == bits,
{
    let k = j as u16;
    let k1 = (j + 1) as u16;
    assert(bits & (1u16 << k) != 0 ==> bits & (0xffffu16 << k) == (bits & (0xffffu16 << k1)) | (
    1u16 << k)) by (bit_vector)
        requires
            k <= 12,
            k1 == k + 1,
    ;
    assert(!(bits & (1u16 << k) != 0) ==> bits & (0xffffu16 << k) == (bits & (0xffffu16 << k1)))
        by (bit_vector)
        requires
            k <= 12,
            k1 == k + 1,
    ;
    assert(bits & (0xffffu16 << 0u16) == bits) by (bit_vector);
}

/// The bands of one and of two half bits in a decoder for microsecond ticks.
proof fn lemma_replay_bands()
    ensures
        rc5_band(REPLAY_SAMPLERATE, 1) == (Range::<u32> { start: 799, end: 979 }),
        rc5_band(REPLAY_SAMPLERATE, 2) == (Range::<u32> { start: 1599, end: 1957 }),
{
    assert((1_000_000int * 889 * 1) / 1_000_000 == 889) by (nonlinear_arith);
    assert((1_000_000int * 889 * 2) / 1_000_000 == 1778) by (nonlinear_arith);
    assert((889int * 10) / 100 == 88) by (nonlinear_arith);
    assert((1778int * 10) / 100 == 177) by (nonlinear_arith);
}

/// An edge in the frame, `units` half bits after the edge before: the half-bit clock
/// moves on, and an edge on an odd count gives the decoder a bit.
proof fn lemma_edge_in_frame(sm: Rc5, rising: bool, time: u32, j: u8, units: u32)
    requires
        sm.state == Rc5State::Data(j),
        units == 1 || units == 2,
        rc5_units(sm.samplerate, short_delta(time, sm.last)) == Some(units),
    ensures
        sm.step(rising, time).samplerate == sm.samplerate,
        sm.step(rising, time).last == time,
        sm.step(rising, time).rc5cntr % 2 == (sm.rc5cntr + units) % 2,
        (sm.rc5cntr + units) % 2 == 0 ==> sm.step(rising, time).state == sm.state && sm.step(
            rising,
            time,
        ).bitbuf == sm.bitbuf,
        (sm.rc5cntr + units) % 2 == 1 ==> sm.step(rising, time).state == (if j == 0 {
            Rc5State::Done
        } else {
            Rc5State::Data((j - 1) as u8)
        }) && sm.step(rising, time).bitbuf == (if rising {
            sm.bitbuf | (1u16 << (j as u16))
        } else {
            sm.bitbuf
        }),
{
    let clock = clock_after(sm.rc5cntr, Some(units));
    assert(clock % 2 == (sm.rc5cntr + units) % 2);
}

/// What the replay of a frame rests on, after the first start bit and `n` more bits:
/// the cells are those of the frame `bits`, with `half` and `whole` microseconds for
/// half a bit and a bit, and the decoder `sm` has the bits above bit `12 - n` and saw
/// its last edge, in the middle of a bit, at `ts`.
spec fn in_frame(
    sm: Rc5,
    cells: Seq<u16>,
    p: u32,
    bits: u16,
    half: int,
    whole: int,
    n: int,
    ts: u32,
) -> bool {
    &&& 0 <= n <= 12
    &&& bit16(bits, 13)
    &&& cells.len() >= rc5_cells(bits, 13).len()
    &&& 0 <= half < 0xffff
    &&& 0 <= whole < 0xffff
    &&& rc5_units(REPLAY_SAMPLERATE, half as u16) == Some(1u32)
    &&& rc5_units(REPLAY_SAMPLERATE, whole as u16) == Some(2u32)
    &&& forall|i: int|
        1 <= i < rc5_cells(bits, 13).len() ==> #[trigger] cell_us(cells, i, p) == (if rc5_cells(
            bits,
            13,
        )[i] == 889 {
            half
        } else {
            whole
        })
    &&& sm.samplerate == REPLAY_SAMPLERATE
    &&& sm.state == Rc5State::Data((12 - n) as u8)
    &&& sm.rc5cntr % 2 == 1
    &&& sm.bitbuf == top_bits(bits, 13 - n)
    &&& sm.last == ts
}

/// A replay that has surfaced the command of the frame `bits` in the middle of the last
/// bit, and has left the decoder reset.
spec fn landed(end: (Option<Rc5Command>, Rc5, int, u32), bits: u16) -> bool {
    &&& end.0 == Some(Rc5Command::spec_from_bits(bits))
    &&& end.1.state == Rc5State::Idle
    &&& end.1.samplerate == REPLAY_SAMPLERATE
    &&& end.2 == rc5_cells(bits, 13).len()
}

/// The cells that bit `12 - n` adds to the frame.
proof fn lemma_next_cells(bits: u16, n: int)
    requires
        0 <= n <= 12,
        bit16(bits, 13),
    ensures
        ({
            let pos = rc5_cells(bits, n as nat).len() as int;
            let shown = rc5_cells(bits, 13);
            &&& 1 <= pos
            &&& pos % 2 == 1 <==> bit16(bits, 13 - n)
            &&& bit16(bits, 12 - n) == bit16(bits, 13 - n) ==> pos + 2 == rc5_cells(
                bits,
                (n + 1) as nat,
            ).len() && pos + 2 <= shown.len() && shown[pos] == 889 && shown[pos + 1] == 889
            &&& bit16(bits, 12 - n) != bit16(bits, 13 - n) ==> pos + 1 == rc5_cells(
                bits,
                (n + 1) as nat,
            ).len() && pos + 1 <= shown.len() && shown[pos] == 1778
        }),
{
    let pos = rc5_cells(bits, n as nat).len() as int;
    let longer = rc5_cells(bits, (n + 1) as nat);
    lemma_rc5_cells_len(bits, n as nat);
    lemma_rc5_cells_grow(bits, (n + 1) as nat, 13);
    let front = rc5_cells(bits, 13).subrange(0, longer.len() as int);
    assert(front[pos] == longer[pos]);
    if bit16(bits, 12 - n) == bit16(bits, 13 - n) {
        assert(front[pos + 1] == longer[pos + 1]);
    }
}

/// An edge that comes `us` microseconds after the last edge of the decoder, where `us`
/// stands for `units` half bits.
proof fn lemma_edge_after(sm: Rc5, rising: bool, us: int, j: u8, units: u32)
    requires
        sm.state == Rc5State::Data(j),
        units == 1 || units == 2,
        0 <= us < 0xffff,
        rc5_units(sm.samplerate, us as u16) == Some(units),
    ensures
        ({
            let next = sm.step(rising, later(sm.last, us));
            &&& next.samplerate == sm.samplerate
            &&& next.last == later(sm.last, us)
            &&& next.rc5cntr % 2 == (sm.rc5cntr + units) % 2
            &&& (sm.rc5cntr + units) % 2 == 0 ==> next.state == sm.state && next.bitbuf
                == sm.bitbuf
            &&& (sm.rc5cntr + units) % 2 == 1 ==> next.state == (if j == 0 {
                Rc5State::Done
            } else {
                Rc5State::Data((j - 1) as u8)
            }) && next.bitbuf == (if rising {
                sm.bitbuf | (1u16 << (j as u16))
            } else {
                sm.bitbuf
            })
        }),
{
    lemma_later_twice(sm.last, us, 0);
    lemma_edge_in_frame(sm, rising, later(sm.last, us), j, units);
}

/// The replay of a bit that repeats the bit before it: two cells of half a bit.
proof fn lemma_same_bit(
    sm: Rc5,
    cells: Seq<u16>,
    p: u32,
    bits: u16,
    half: int,
    whole: int,
    n: int,
    ts: u32,
) -> (next: (Rc5, u32))
    requires
        in_frame(sm, cells, p, bits, half, whole, n, ts),
        bit16(bits, 12 - n) == bit16(bits, 13 - n),
    ensures
        n == 12 ==> landed(scan(sm, cells, rc5_cells(bits, n as nat).len() as int, ts, p), bits),
        n < 12 ==> in_frame(next.0, cells, p, bits, half, whole, n + 1, next.1) && scan(
            sm,
            cells,
            rc5_cells(bits, n as nat).len() as int,
            ts,
            p,
        ) == scan(next.0, cells, rc5_cells(bits, (n + 1) as nat).len() as int, next.1, p),
{
    let pos = rc5_cells(bits, n as nat).len() as int;
    let j = (12 - n) as u8;
    let cur = bit16(bits, 12 - n);
    lemma_next_cells(bits, n);
    lemma_top_bits_step(bits, 12 - n);
    assert(cell_us(cells, pos, p) == half);
    assert(cell_us(cells, pos + 1, p) == half);
    let t1 = later(ts, half);
    let t2 = later(t1, half);
    lemma_edge_time(cells, pos, p, ts);
    lemma_edge_time(cells, pos + 1, p, t1);
    let first = pos % 2 == 0;
    let second = (pos + 1) % 2 == 0;
    let sm1 = sm.step(first, t1);
    lemma_edge_after(sm, first, half, j, 1);
    assert(sm1.output() == State::<Rc5Command>::Receiving);
    assert(offer(sm, first, t1) == (None::<Rc5Command>, sm1));
    assert(scan(sm, cells, pos, ts, p) == scan(sm1, cells, pos + 1, t1, p));
    let sm2 = sm1.step(second, t2);
    lemma_edge_after(sm1, second, half, j, 1);
    assert(second == cur);
    assert(sm2.bitbuf == top_bits(bits, 12 - n));
    if n == 12 {
        assert(sm2.output() == State::Done(Rc5Command::spec_from_bits(bits)));
        assert(offer(sm1, second, t2) == (
            Some(Rc5Command::spec_from_bits(bits)),
            sm2.cleared(),
        ));
        assert(scan(sm1, cells, pos + 1, t1, p) == (
            Some(Rc5Command::spec_from_bits(bits)),
            sm2.cleared(),
            pos + 2,
            t2,
        ));
    } else {
        assert(sm2.output() == State::<Rc5Command>::Receiving);
        assert(offer(sm1, second, t2) == (None::<Rc5Command>, sm2));
        assert(scan(sm1, cells, pos + 1, t1, p) == scan(sm2, cells, pos + 2, t2, p));
    }
    (sm2, t2)
}

/// The replay of a bit that differs from the bit before it: one cell of a whole bit.
proof fn lemma_other_bit(
    sm: Rc5,
    cells: Seq<u16>,
    p: u32,
    bits: u16,
    half: int,
    whole: int,
    n: int,
    ts: u32,
) -> (next: (Rc5, u32))
    requires
        in_frame(sm, cells, p, bits, half, whole, n, ts),
        bit16(bits, 12 - n) != bit16(bits, 13 - n),
    ensures
        n == 12 ==> landed(scan(sm, cells, rc5_cells(bits, n as nat).len() as int, ts, p), bits),
        n < 12 ==> in_frame(next.0, cells, p, bits, half, whole, n + 1, next.1) && scan(
            sm,
            cells,
            rc5_cells(bits, n as nat).len() as int,
            ts,
            p,
        ) == scan(next.0, cells, rc5_cells(bits, (n + 1) as nat).len() as int, next.1, p),
{
    let pos = rc5_cells(bits, n as nat).len() as int;
    let j = (12 - n) as u8;
    let cur = bit16(bits, 12 - n);
    lemma_next_cells(bits, n);
    lemma_top_bits_step(bits, 12 - n);
    assert(cell_us(cells, pos, p) == whole);
    let t1 = later(ts, whole);
    lemma_edge_time(cells, pos, p, ts);
    let first = pos % 2 == 0;
    let sm1 = sm.step(first, t1);
    lemma_edge_after(sm, first, whole, j, 2);
    assert(first == cur);
    assert(sm1.bitbuf == top_bits(bits, 12 - n));
    if n == 12 {
        assert(sm1.output() == State::Done(Rc5Command::spec_from_bits(bits)));
        assert(offer(sm, first, t1) == (Some(Rc5Command::spec_from_bits(bits)), sm1.cleared()));
        assert(scan(sm, cells, pos, ts, p) == (
            Some(Rc5Command::spec_from_bits(bits)),
            sm1.cleared(),
            pos + 1,
            t1,
        ));
    } else {
        assert(sm1.output() == State::<Rc5Command>::Receiving);
        assert(offer(sm, first, t1) == (None::<Rc5Command>, sm1));
        assert(scan(sm, cells, pos, ts, p) == scan(sm1, cells, pos + 1, t1, p));
    }
    (sm1, t1)
}

/// A decoder that has the bits above bit `12 - n` and stands in the middle of the bit
/// before it receives the rest of the frame: the command that `bits` hold is the first
/// that the replay surfaces, and the replay stops in the middle of the last bit.
proof fn lemma_bits_replay(
    sm: Rc5,
    cells: Seq<u16>,
    p: u32,
    bits: u16,
    half: int,
    whole: int,
    n: int,
    ts: u32,
)
    requires
        in_frame(sm, cells, p, bits, half, whole, n, ts),
    ensures
        landed(scan(sm, cells, rc5_cells(bits, n as nat).len() as int, ts, p), bits),
    decreases 13 - n,
{
    let next = if bit16(bits, 12 - n) == bit16(bits, 13 - n) {
        lemma_same_bit(sm, cells, p, bits, half, whole, n, ts)
    } else {
        lemma_other_bit(sm, cells, p, bits, half, whole, n, ts)
    };
    if n < 12 {
        lemma_bits_replay(next.0, cells, p, bits, half, whole, n + 1, next.1);
    }
}

/// Every cell before the middle of the last bit lasts half a bit or a whole bit, but for
/// the leading silence.
proof fn lemma_rc5_cell_values(bits: u16, n: nat, i: int)
    requires
        n <= 13,
        1 <= i < rc5_cells(bits, n).len(),
    ensures
        rc5_cells(bits, n)[i] == 889 || rc5_cells(bits, n)[i] == 1778,
        rc5_cells(bits, n)[0] == 0,
    decreases n,
{
    if n > 0 {
        let before = rc5_cells(bits, (n - 1) as nat);
        if i < before.len() {
            lemma_rc5_cell_values(bits, (n - 1) as nat, i);
        }
        lemma_rc5_first_cell(bits, (n - 1) as nat);
    }
}

/// There is no leading silence.
proof fn lemma_rc5_first_cell(bits: u16, n: nat)
    ensures
        rc5_cells(bits, n).len() >= 1,
        rc5_cells(bits, n)[0] == 0,
    decreases n,
{
    if n > 0 {
        lemma_rc5_first_cell(bits, (n - 1) as nat);
    }
}

/// Behind the middle of the last bit the replay finds the second half of that bit, and
/// a silence where that half has the carrier on: an idle decoder takes no command from
/// them.
proof fn lemma_tail_replay(sm: Rc5, cells: Seq<u16>, p: u32, bits: u16, ts: u32)
    requires
        bit16(bits, 13),
        cells.len() == rc5_pulses(bits).len(),
        sm.state == Rc5State::Idle,
    ensures
        commands(sm, cells, rc5_cells(bits, 13).len() as int, ts, p) == Seq::<Rc5Command>::empty(),
{
    let pos = rc5_cells(bits, 13).len() as int;
    lemma_rc5_cells_len(bits, 13);
    let t1 = edge_time(ts, cells[pos], p);
    let sm1 = sm.step(pos % 2 == 0, t1);
    assert(offer(sm, pos % 2 == 0, t1) == (None::<Rc5Command>, sm1));
    if bit16(bits, 0) {
        // The half with carrier ends with a falling edge, the silence with a rising edge
        assert(sm1.state == Rc5State::Idle);
        let t2 = edge_time(t1, cells[pos + 1], p);
        let sm2 = sm1.step(true, t2);
        assert(sm2.state == Rc5State::Data(12));
        assert(offer(sm1, true, t2) == (None::<Rc5Command>, sm2));
        assert(commands(sm2, cells, pos + 2, t2, p) == Seq::<Rc5Command>::empty());
        assert(commands(sm1, cells, pos + 1, t1, p) == commands(sm2, cells, pos + 2, t2, p));
    } else {
        assert(commands(sm1, cells, pos + 1, t1, p) == Seq::<Rc5Command>::empty());
    }
    assert(commands(sm, cells, pos, ts, p) == commands(sm1, cells, pos + 1, t1, p));
}

/// What scaling to ticks of 50, 25, 12 or 1 microseconds leaves of half a bit and of a
/// bit: both stay in their bands.
proof fn lemma_rc5_ticks(p: u32)
    requires
        p == 50 || p == 25 || p == 12 || p == 1,
    ensures
        ticks_us(0, p) == 0,
        799 <= ticks_us(889, p) < 979,
        1599 <= ticks_us(1778, p) < 1957,
{
    assert((0int / 50) * 50 == 0 && (0int / 25) * 25 == 0 && (0int / 12) * 12 == 0 && (0int / 1)
        * 1 == 0) by (nonlinear_arith);
    assert((889int / 50) * 50 == 850 && (889int / 25) * 25 == 875 && (889int / 12) * 12 == 888
        && (889int / 1) * 1 == 889) by (nonlinear_arith);
    assert((1778int / 50) * 50 == 1750 && (1778int / 25) * 25 == 1775 && (1778int / 12) * 12
        == 1776 && (1778int / 1) * 1 == 1778) by (nonlinear_arith);
}

/// The replay of the pulse train of `c`, scaled to ticks of `p` microseconds, surfaces
/// `c` and nothing else.
proof fn lemma_rc5_replay_at(c: Rc5Command, p: u32)
    requires
        c.valid(),
        p == 50 || p == 25 || p == 12 || p == 1,
    ensures
        scan(Rc5::fresh(REPLAY_SAMPLERATE), scaled(c.pulses(), p), 0, 0, p).0 == Some(c),
        commands(Rc5::fresh(REPLAY_SAMPLERATE), scaled(c.pulses(), p), 0, 0, p) == seq![c],
{
    let bits = c.spec_to_bits();
    let pulses = rc5_pulses(bits);
    let cells = scaled(pulses, p);
    let sm0 = Rc5::fresh(REPLAY_SAMPLERATE);
    let half = ticks_us(889, p);
    let whole = ticks_us(1778, p);
    let shown = rc5_cells(bits, 13);

    c.lemma_from_bits_to_bits();
    let t: u16 = if c.toggle {
        0x800
    } else {
        0
    };
    let a8 = c.addr;
    let d8 = c.cmd;
    let a: u16 = ((a8 & 0x1f) as u16) << 6;
    let d: u16 = (d8 & 0x3f) as u16;
    assert(bits & (1u16 << 13) != 0 && bits & (0xffffu16 << 13) == 0x2000) by (bit_vector)
        requires
            bits == 0x3000u16 | t | a | d,
            a == ((a8 & 0x1f) as u16) << 6,
            d == (d8 & 0x3f) as u16,
            t == 0x800 || t == 0,
    ;
    lemma_replay_bands();
    lemma_rc5_ticks(p);
    lemma_rc5_cells_len(bits, 13);
    lemma_rc5_first_cell(bits, 13);

    assert forall|i: int| 1 <= i < shown.len() implies #[trigger] cell_us(cells, i, p) == (
    if shown[i] == 889 {
        half
    } else {
        whole
    }) by {
        assert(pulses[i] == shown[i]);
        lemma_cell_us(pulses, p, i);
        lemma_rc5_cell_values(bits, 13, i);
    }

    // No leading silence: the carrier comes on at time 0, in the middle of the first bit
    assert(pulses[0] == shown[0]);
    lemma_cell_us(pulses, p, 0);
    let t0 = edge_time(0, cells[0], p);
    assert(cell_us(cells, 0, p) == 0);
    assert(t0 == 0);
    let sm1 = sm0.step(true, t0);
    assert(sm1.state == Rc5State::Data(12));
    assert(sm1.output() == State::<Rc5Command>::Receiving);
    assert(offer(sm0, true, t0) == (None::<Rc5Command>, sm1));
    assert(scan(sm0, cells, 0, 0, p) == scan(sm1, cells, 1, t0, p));
    assert(rc5_cells(bits, 0).len() == 1);

    lemma_bits_replay(sm1, cells, p, bits, half, whole, 0, t0);

    let end = scan(sm0, cells, 0, 0, p);
    lemma_commands_unfold(sm0, cells, 0, 0, p);
    lemma_tail_replay(end.1, cells, p, bits, end.3);
    assert(seq![c] + Seq::<Rc5Command>::empty() =~= seq![c]);
}

/// A command that is turned into a pulse train, loaded into a buffer at a sample rate of
/// 20 kHz, 40 kHz, 80 kHz or 1 MHz and replayed from there at the same rate, comes back
/// as it was: it is the first command that the replay surfaces, and the only one.
pub proof fn lemma_rc5_roundtrip(c: Rc5Command, samplerate: u32)
    requires
        c.valid(),
        samplerate == 20_000 || samplerate == 40_000 || samplerate == 80_000 || samplerate
            == 1_000_000,
    ensures
        first_replayed::<Rc5>(c.pulses(), samplerate) == Some(c),
        all_replayed::<Rc5>(c.pulses(), samplerate) == seq![c],
{
    lemma_periods();
    lemma_rc5_replay_at(c, period_us(samplerate) as u32);
}

} // verus!
