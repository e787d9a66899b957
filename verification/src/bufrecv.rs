//! Decoding of a captured pulse train.
use crate::cmd::{Command, PULSETRAIN_CAPACITY};
use crate::protocols::utils::{lemma_period_positive, period_us, valid_samplerate, MICROS_PER_SEC};
use crate::recv::{Receiver, State};
use crate::sender::scaled;
use core::marker::PhantomData;
use vstd::prelude::*;
use vstd::slice::slice_subrange;

verus! {

/// Number of cells that a `BufferReceiver` can hold.
pub const BUFFER_CAPACITY: usize = 512;

/// Sample rate of the decoder that replays a buffer: its ticks are microseconds.
pub const REPLAY_SAMPLERATE: u32 = 1_000_000;

/// Time of the edge that ends a cell of `cell` ticks of `scaler` microseconds, on the
/// wrapping microsecond counter that showed `ts` at the edge before.
pub open spec fn edge_time(ts: u32, cell: u16, scaler: u32) -> u32 {
    ((ts + cell * scaler) % 0x1_0000_0000) as u32
}

/// Offers one edge to the decoder `sm`. A decoder that is in error after the edge is
/// reset and sees the edge once more: the edge that breaks one frame may begin the
/// next. The result is the command that the edge completed, if any, and the decoder as
/// it is left: reset after a command or an error.
pub open spec fn offer<SM: Receiver>(sm: SM, edge: bool, time: u32) -> (Option<SM::Cmd>, SM) {
    let first = sm.step(edge, time);
    let settled = if first.output() is Error {
        first.cleared().step(edge, time)
    } else {
        first
    };
    match settled.output() {
        State::Done(cmd) => (Some(cmd), settled.cleared()),
        State::Error(_) => (None, settled.cleared()),
        _ => (None, settled),
    }
}

/// Replays `cells` from position `pos` up to the first command. Cell `i` ends with a
/// rising edge where `i` is even, with a falling edge where it is odd. The result is the
/// command, if one came before the end of the cells, and the decoder, the position and the
/// time at which the replay stopped.
pub open spec fn scan<SM: Receiver>(sm: SM, cells: Seq<u16>, pos: int, ts: u32, scaler: u32) -> (
    Option<SM::Cmd>,
    SM,
    int,
    u32,
)
    decreases cells.len() - pos,
{
    if pos < 0 || pos >= cells.len() {
        (None, sm, pos, ts)
    } else {
        let time = edge_time(ts, cells[pos], scaler);
        let (cmd, next) = offer(sm, pos % 2 == 0, time);
        if cmd is Some {
            (cmd, next, pos + 1, time)
        } else {
            scan(next, cells, pos + 1, time, scaler)
        }
    }
}

/// All commands that a replay of `cells` from position `pos` surfaces, in order.
pub open spec fn commands<SM: Receiver>(
    sm: SM,
    cells: Seq<u16>,
    pos: int,
    ts: u32,
    scaler: u32,
) -> Seq<SM::Cmd>
    decreases cells.len() - pos,
{
    if pos < 0 || pos >= cells.len() {
        Seq::empty()
    } else {
        let time = edge_time(ts, cells[pos], scaler);
        let (cmd, next) = offer(sm, pos % 2 == 0, time);
        let rest = commands(next, cells, pos + 1, time, scaler);
        match cmd {
            Some(c) => seq![c] + rest,
            None => rest,
        }
    }
}

/// The first command that a fresh decoder surfaces from `pulses`, a pulse train in
/// microseconds that was loaded into a buffer for `samplerate` and is replayed from there.
pub open spec fn first_replayed<SM: Receiver>(pulses: Seq<u16>, samplerate: u32) -> Option<
    SM::Cmd,
> {
    let period = period_us(samplerate) as u32;
    scan(SM::fresh(REPLAY_SAMPLERATE), scaled(pulses, period), 0, 0, period).0
}

/// All commands that a fresh decoder surfaces from `pulses`, a pulse train in
/// microseconds that was loaded into a buffer for `samplerate` and is replayed from there.
pub open spec fn all_replayed<SM: Receiver>(pulses: Seq<u16>, samplerate: u32) -> Seq<SM::Cmd> {
    let period = period_us(samplerate) as u32;
    commands(SM::fresh(REPLAY_SAMPLERATE), scaled(pulses, period), 0, 0, period)
}

/// A replay that finds a command has moved on; one that finds none has reached the end.
pub proof fn lemma_scan_position<SM: Receiver>(
    sm: SM,
    cells: Seq<u16>,
    pos: int,
    ts: u32,
    scaler: u32,
)
    requires
        0 <= pos <= cells.len(),
    ensures
        scan(sm, cells, pos, ts, scaler).0 is Some ==> pos < scan(sm, cells, pos, ts, scaler).2
            <= cells.len(),
        scan(sm, cells, pos, ts, scaler).0 is None ==> scan(sm, cells, pos, ts, scaler).2
            == cells.len(),
    decreases cells.len() - pos,
{
    if pos < cells.len() {
        let time = edge_time(ts, cells[pos], scaler);
        let (cmd, next) = offer(sm, pos % 2 == 0, time);
        if cmd is None {
            lemma_scan_position(next, cells, pos + 1, time, scaler);
        }
    }
}

/// The commands of a replay are the first command, and the commands of the replay that
/// goes on where the first one stopped.
pub proof fn lemma_commands_unfold<SM: Receiver>(
    sm: SM,
    cells: Seq<u16>,
    pos: int,
    ts: u32,
    scaler: u32,
)
    requires
        0 <= pos <= cells.len(),
    ensures
        ({
            let first = scan(sm, cells, pos, ts, scaler);
            commands(sm, cells, pos, ts, scaler) == match first.0 {
                Some(c) => seq![c] + commands(first.1, cells, first.2, first.3, scaler),
                None => Seq::empty(),
            }
        }),
    decreases cells.len() - pos,
{
    if pos < cells.len() {
        let time = edge_time(ts, cells[pos], scaler);
        let (cmd, next) = offer(sm, pos % 2 == 0, time);
        if cmd is None {
            lemma_commands_unfold(next, cells, pos + 1, time, scaler);
        }
    }
}

/// Receiver for decoding a captured pulse train
pub struct BufferReceiver<SM> {
    /// The cells, in sample ticks
    pub buf: [u16; 512],
    /// Number of cells in use
    pub len: usize,
    /// Microseconds in one sample tick
    pub scaler: u32,
    /// The decoder
    pub sm: PhantomData<SM>,
}

/// Replay of a captured pulse train through a decoder of its own.
pub struct BufferIterator<'a, SM> {
    /// The cells, in sample ticks
    pub buf: &'a [u16],
    /// Position of the next cell
    pub pos: usize,
    /// Microseconds in one sample tick
    pub scaler: u32,
    /// Time of the last edge in microseconds
    pub ts: u32,
    /// The decoder
    pub sm: SM,
}

/// The cells of `frame` behind those of `cells`, with the carrier off in the even cells
/// of both: where `cells` ends with a silence, the silence that `frame` begins with
/// prolongs it, up to the largest duration that a cell can hold.
pub open spec fn chained(cells: Seq<u16>, frame: Seq<u16>) -> Seq<u16> {
    if cells.len() % 2 == 1 && frame.len() > 0 {
        let both = cells.last() + frame[0];
        let silence = if both > u16::MAX {
            u16::MAX
        } else {
            both as u16
        };
        cells.drop_last().push(silence) + frame.subrange(1, frame.len() as int)
    } else {
        cells + frame
    }
}

impl<SM: Receiver> BufferReceiver<SM> {
    /// The length is within the capacity, and a tick is at least a microsecond long.
    pub open spec fn wf(&self) -> bool {
        &&& self.len <= BUFFER_CAPACITY
        &&& self.scaler >= 1
    }

    /// The cells in use.
    pub open spec fn cells(&self) -> Seq<u16> {
        self.buf@.subrange(0, self.len as int)
    }

    /// All commands that the pulse train holds.
    pub open spec fn commands(&self) -> Seq<SM::Cmd> {
        commands(SM::fresh(REPLAY_SAMPLERATE), self.cells(), 0, 0, self.scaler)
    }

    /// Whether `it` is a replay of this buffer from its start.
    pub open spec fn starts(&self, it: BufferIterator<'_, SM>) -> bool {
        &&& it.buf@ == self.cells()
        &&& it.pos == 0
        &&& it.ts == 0
        &&& it.scaler == self.scaler
        &&& it.sm == SM::fresh(REPLAY_SAMPLERATE)
    }

    /// A receiver for `pulses`, captured at `samplerate`.
    pub fn new(pulses: &[u16], samplerate: u32) -> (r: Self)
        requires
            pulses@.len() <= BUFFER_CAPACITY,
            valid_samplerate(samplerate),
        ensures
            r.wf(),
            r.cells() == pulses@,
            r.scaler == period_us(samplerate),
    {
        proof {
            lemma_period_positive(samplerate);
        }
        let mut buf = [0u16;512];
        let len = pulses.len();
        let mut i: usize = 0;
        while i < len
            invariant
                0 <= i <= len,
                len == pulses@.len(),
                len <= BUFFER_CAPACITY,
                forall|j: int| 0 <= j < i ==> buf[j] == pulses@[j],
            decreases len - i,
        {
            buf[i] = pulses[i];
            i += 1;
        }
        let r = BufferReceiver { buf, len, scaler: MICROS_PER_SEC / samplerate, sm: PhantomData };
        assert(r.cells() =~= pulses@);
        r
    }

    /// Adds the pulse train of `cmd`, in sample ticks, behind the cells in use.
    pub fn add_cmd<C: Command>(&mut self, cmd: &C)
        requires
            old(self).wf(),
            chained(old(self).cells(), scaled(cmd.pulses(), old(self).scaler)).len()
                <= BUFFER_CAPACITY,
        ensures
            final(self).wf(),
            final(self).scaler == old(self).scaler,
            final(self).cells() == chained(
                old(self).cells(),
                scaled(cmd.pulses(), old(self).scaler),
            ),
    {
        proof {
            cmd.lemma_pulses_shape();
        }
        let mut frame = [0u16;96];
        let mut count: usize = 0;
        cmd.to_pulsetrain(&mut frame, &mut count);
        let ghost ticks = scaled(cmd.pulses(), self.scaler);
        let ghost before = self.cells();
        let mut i: usize = 0;
        if self.len % 2 == 1 && count > 0 {
            let silence: u16 = (frame[0] as u32 / self.scaler) as u16;
            self.buf[self.len - 1] = self.buf[self.len - 1].saturating_add(silence);
            i = 1;
        }
        let start = self.len - i;
        assert(self.buf@.subrange(0, self.len as int) =~= chained(before, ticks).subrange(
            0,
            self.len as int,
        ));
        while i < count
            invariant
                0 <= i <= count,
                count == cmd.pulses().len(),
                count <= PULSETRAIN_CAPACITY,
                start + count <= BUFFER_CAPACITY,
                self.len == start + i,
                self.scaler == old(self).scaler,
                self.scaler >= 1,
                ticks == scaled(cmd.pulses(), self.scaler),
                chained(before, ticks).len() == start + count,
                forall|j: int| 0 <= j < count ==> frame[j] == cmd.pulses()[j],
                forall|j: int|
                    start + i <= j < start + count ==> chained(before, ticks)[j] == ticks[j
                        - start],
                self.buf@.subrange(0, self.len as int) == chained(before, ticks).subrange(
                    0,
                    self.len as int,
                ),
            decreases count - i,
        {
            let ghost sofar = self.buf@.subrange(0, self.len as int);
            self.buf[start + i] = (frame[i] as u32 / self.scaler) as u16;
            i += 1;
            self.len += 1;
            assert(self.buf@.subrange(0, self.len as int) =~= chained(before, ticks).subrange(
                0,
                self.len as int,
            )) by {
                assert(forall|j: int|
                    0 <= j < self.len - 1 ==> self.buf@.subrange(0, self.len as int)[j]
                        == sofar[j]);
            }
        }
        assert(self.cells() =~= chained(before, ticks));
    }

    /// Adds `pulses`, in sample ticks, behind the cells in use.
    pub fn add(&mut self, pulses: &[u16])
        requires
            old(self).wf(),
            old(self).len + pulses@.len() <= BUFFER_CAPACITY,
        ensures
            final(self).wf(),
            final(self).scaler == old(self).scaler,
            final(self).cells() == old(self).cells() + pulses@,
    {
        let ghost before = self.cells();
        let n = pulses.len();
        let start = self.len;
        let mut i: usize = 0;
        while i < n
            invariant
                0 <= i <= n,
                n == pulses@.len(),
                start + n <= BUFFER_CAPACITY,
                self.len == start + i,
                self.scaler == old(self).scaler,
                self.buf@.subrange(0, start as int) == before,
                forall|j: int| 0 <= j < i ==> self.buf[start + j] == pulses@[j],
            decreases n - i,
        {
            let ghost sofar = self.buf@;
            self.buf[start + i] = pulses[i];
            assert(self.buf@.subrange(0, start as int) =~= sofar.subrange(0, start as int));
            i += 1;
            self.len += 1;
        }
        assert(self.cells() =~= before + pulses@);
    }

    /// A replay of the pulse train from its start, with a decoder of its own.
    pub fn iter(&self) -> (it: BufferIterator<'_, SM>)
        requires
            self.wf(),
        ensures
            self.starts(it),
            it.sm.wf(),
            it.commands() == self.commands(),
    {
        BufferIterator {
            buf: slice_subrange(self.buf.as_slice(), 0, self.len),
            scaler: self.scaler,
            pos: 0,
            ts: 0,
            sm: SM::with_samplerate(REPLAY_SAMPLERATE),
        }
    }
}

impl<'a, SM: Receiver> BufferIterator<'a, SM> {
    /// All commands that the rest of the replay surfaces.
    pub open spec fn commands(self) -> Seq<SM::Cmd> {
        commands(self.sm, self.buf@, self.pos as int, self.ts, self.scaler)
    }

    /// The first command that the rest of the replay surfaces, with the decoder, the
    /// position and the time behind it.
    pub open spec fn first(self) -> (Option<SM::Cmd>, SM, int, u32) {
        scan(self.sm, self.buf@, self.pos as int, self.ts, self.scaler)
    }

    /// Replays the pulse train up to the next command; `None` at its end.
    pub fn next(&mut self) -> (cmd: Option<SM::Cmd>)
        requires
            old(self).sm.wf(),
            old(self).pos <= old(self).buf@.len(),
        ensures
            cmd == old(self).first().0,
            final(self).sm == old(self).first().1,
            final(self).pos == old(self).first().2,
            final(self).ts == old(self).first().3,
            final(self).buf == old(self).buf,
            final(self).scaler == old(self).scaler,
            final(self).sm.wf(),
            final(self).pos <= final(self).buf@.len(),
            cmd is Some ==> final(self).pos > old(self).pos,
            cmd is None ==> final(self).pos == final(self).buf@.len(),
    {
        loop
            invariant
                self.sm.wf(),
                old(self).pos <= self.pos <= self.buf@.len(),
                self.buf == old(self).buf,
                self.scaler == old(self).scaler,
                self.first() == old(self).first(),
            decreases self.buf@.len() - self.pos,
        {
            if self.pos >= self.buf.len() {
                return None;
            }
            let pos_edge = self.pos % 2 == 0;
            let ticks: u32 = self.buf[self.pos] as u32;
            let time = self.ts.wrapping_add(ticks.wrapping_mul(self.scaler));
            assert(time == edge_time(self.ts, self.buf@[self.pos as int], self.scaler)) by {
                let product = ticks as int * self.scaler as int;
                assert(product >= 0) by (nonlinear_arith)
                    requires
                        product == ticks as int * self.scaler as int,
                        ticks >= 0,
                        self.scaler >= 0,
                ;
                assert(ticks.wrapping_mul(self.scaler) == product % 0x1_0000_0000);
            }
            self.pos += 1;
            self.ts = time;

            let mut state = self.sm.event(pos_edge, time);
            if let State::Error(_) = state {
                self.sm.reset();
                state = self.sm.event(pos_edge, time);
            }
            match state {
                State::Done(cmd) => {
                    self.sm.reset();
                    return Some(cmd);
                },
                State::Error(_) => {
                    self.sm.reset();
                },
                _ => {},
            }
        }
    }

    /// Replays the rest of the pulse train and gathers its commands.
    pub fn collect(self) -> (v: Vec<SM::Cmd>)
        requires
            self.sm.wf(),
            self.pos <= self.buf@.len(),
        ensures
            v@ == self.commands(),
    {
        let mut it = self;
        let mut v: Vec<SM::Cmd> = Vec::new();
        loop
            invariant
                it.sm.wf(),
                it.pos <= it.buf@.len(),
                self.commands() == v@ + it.commands(),
            decreases it.buf@.len() - it.pos,
        {
            proof {
                lemma_commands_unfold(it.sm, it.buf@, it.pos as int, it.ts, it.scaler);
            }
            let ghost before = v@;
            match it.next() {
                Some(cmd) => {
                    v.push(cmd);
                    assert(v@ + it.commands() =~= before + (seq![cmd] + it.commands()));
                },
                None => {
                    assert(v@ + Seq::<SM::Cmd>::empty() =~= v@);
                    return v;
                },
            }
        }
    }
}

/// Two replays of one buffer surface the same commands: each starts from the first cell
/// with a fresh decoder, and nothing else enters.
pub proof fn lemma_replay_repeats<SM: Receiver>(
    r: BufferReceiver<SM>,
    a: BufferIterator<'_, SM>,
    b: BufferIterator<'_, SM>,
)
    requires
        r.starts(a),
        r.starts(b),
    ensures
        a.commands() == b.commands(),
        a.commands() == r.commands(),
        a.first() == b.first(),
{
}

} // verus!
