use infrared::protocols::capture::{Capturing, NoCommand};
use infrared::protocols::denon::{Cmd, Denon, DenonState, PulseWidth};
use infrared::recv::{Receiver, State};
use infrared::{BufferReceiver, Command, Protocol, ProtocolId};

fn denon_frame(bits: u64) -> std::vec::Vec<u16> {
    let mut v = vec![0u16, 3400, 1600];
    for i in 0..48 {
        v.push(480);
        v.push(if (bits >> i) & 1 == 1 { 1200 } else { 360 });
    }
    v
}

#[test]
fn denon_frame_gives_raw_bits() {
    for bits in [0u64, 1, 0x8000_0000_0000, 0xffff_ffff_ffff, 0x1234_5678_9abc] {
        for samplerate in [40_000u32, 1_000_000] {
            let scaler = (1_000_000 / samplerate) as u16;
            let cells: std::vec::Vec<u16> =
                denon_frame(bits).iter().map(|c| c / scaler).collect();
            let recv: BufferReceiver<Denon> = BufferReceiver::new(&cells, samplerate);
            let cmds = recv.iter().collect();
            assert_eq!(cmds.len(), 1);
            assert_eq!(cmds[0], Cmd { addr: 0, cmd: 0, raw: bits });
        }
    }
}

#[test]
fn denon_states() {
    let mut recv = Denon::with_samplerate(1_000_000);
    assert_eq!(<Denon as Receiver>::ID, ProtocolId::Denon);
    assert!(matches!(recv.event(true, 77), State::Idle));
    assert!(matches!(recv.event(false, 3477), State::Idle));
    assert!(matches!(recv.event(true, 5077), State::Receiving));
    assert_eq!(recv.state, DenonState::Data(0));
    assert!(matches!(recv.event(true, 5077 + 1680), State::Receiving));
    assert_eq!((recv.state, recv.buf), (DenonState::Data(1), 1));
    // An interval that is no pulse width ends the frame
    assert!(matches!(recv.event(true, 5077 + 1680 + 5000), State::Idle));
    assert_eq!((recv.state, recv.buf), (DenonState::Idle, 0));
    recv.reset();
    assert_eq!((recv.state, recv.buf, recv.prev_rising), (DenonState::Idle, 0, 0));
}

#[test]
fn denon_done_holds_until_reset() {
    let mut recv = Denon::with_samplerate(1_000_000);
    let mut ts = 0u32;
    let mut last = State::Idle;
    for (i, c) in denon_frame(0x1234_5678_9abc).iter().enumerate() {
        ts += *c as u32;
        last = recv.event(i % 2 == 0, ts);
    }
    assert!(matches!(last, State::Done(_)));
    for d in [840u32, 1680, 5000, 3] {
        ts += d;
        match recv.event(true, ts) {
            State::Done(cmd) => assert_eq!(cmd.raw, 0x1234_5678_9abc),
            _ => panic!("command lost"),
        }
    }
    recv.reset();
    assert!(matches!(recv.event(false, ts + 1), State::Idle));
}

#[test]
fn denon_command() {
    let c = Cmd::construct(0x1234, 0x56).unwrap();
    assert_eq!((c.addr, c.cmd, c.raw), (0x1234, 0x56, 0));
    assert_eq!((c.address(), c.data()), (0x1234, 0x56));
    assert_eq!(c.protocol(), Protocol::Denon);
    assert!(Cmd::construct(0x1_0000, 0).is_none());
    assert!(Cmd::construct(0, 0x100).is_none());
    let mut b = [3u16; 4];
    let mut len = 9;
    c.to_pulsetrain(&mut b, &mut len);
    assert_eq!(len, 0);
    assert_eq!(b, [3, 3, 3, 3]);
    assert_eq!(PulseWidth::from(0), PulseWidth::SYNC);
    assert_eq!(PulseWidth::from(1), PulseWidth::ZERO);
    assert_eq!(PulseWidth::from(2), PulseWidth::ONE);
    assert_eq!(PulseWidth::from(3), PulseWidth::FAIL);
    assert_eq!(PulseWidth::default(), PulseWidth::FAIL);
}

#[test]
fn capture_saves_distances() {
    let mut recv = Capturing::with_samplerate(40_000);
    assert_eq!(<Capturing as Receiver>::ID, ProtocolId::Capture);
    assert!(recv.ready());
    assert_eq!(recv.edges().len(), 0);
    assert!(matches!(recv.event(true, 1000), State::Receiving));
    assert!(matches!(recv.event(false, 1360), State::Receiving));
    assert!(matches!(recv.event(true, 1540), State::Receiving));
    assert!(matches!(recv.event(false, 1540 + 70_000), State::Receiving));
    // The first edge has no edge before it; long distances keep their low 16 bits
    assert_eq!(recv.edges(), &[0, 360, 180, 4464]);
    assert_eq!(recv.delta(1540 + 70_000 + 22), 22);
    assert_eq!((recv.n_edges, recv.prev_pinval, recv.prev_samplenum), (4, false, 71_540));
}

#[test]
fn capture_is_done_when_full() {
    let mut recv = Capturing::new(40_000);
    assert!(matches!(recv.state, State::Idle));
    let mut ts = 10u32;
    for i in 0..127 {
        ts += 5;
        assert!(matches!(recv.event(i % 2 == 0, ts), State::Receiving));
    }
    ts += 5;
    assert!(matches!(recv.event(false, ts), State::Done(NoCommand)));
    assert!(!recv.ready());
    assert_eq!(recv.edges().len(), 128);
    assert_eq!(recv.edges()[127], 5);
    // A full capture takes no more edges
    assert!(matches!(recv.event(true, ts + 9), State::Done(NoCommand)));
    assert_eq!(recv.prev_samplenum, ts);
    recv.reset();
    assert!(recv.ready());
    assert!(matches!(recv.state, State::Idle));
    assert_eq!(recv.n_edges, 0);
    assert!(recv.edges.iter().all(|e| *e == 0));
    assert_eq!((NoCommand.address(), NoCommand.data()), (0, 0));
    assert_eq!(NoCommand.protocol(), Protocol::Capture);
    assert_eq!(NoCommand::construct(0, 0), Some(NoCommand));
    assert_eq!(NoCommand::construct(1, 0), None);
}
