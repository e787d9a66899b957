use infrared::protocols::nec::transmitter::TransmitStateInternal;
use infrared::protocols::nec::{
    Nec16Variant, NecCommand, NecStandard, NecState, NecTypeTransmitter, NecVariant, PulseWidth,
    SamsungVariant,
};
use infrared::protocols::{Nec, Nec16, NecSamsung};
use infrared::recv::{Error, Receiver, State};
use infrared::sender::PulsetrainBuffer;
use infrared::transmitter::{State as TxState, Statemachine};
use infrared::{BufferReceiver, Command, Protocol, ProtocolId};

/// Rising edges of a frame with the given bits, at 40 kHz: the start of the header
/// burst, then the start of the burst of each bit and of the closing burst.
fn rising_edges(bits: u32, nbits: u32, start: u32) -> std::vec::Vec<u32> {
    let mut v = std::vec::Vec::new();
    let mut t = start;
    v.push(t);
    t = t.wrapping_add(540);
    v.push(t);
    for i in 0..nbits {
        t = t.wrapping_add(if (bits >> i) & 1 == 1 { 89 } else { 44 });
        v.push(t);
    }
    v
}

#[test]
fn nec_bit_layouts() {
    let c: NecCommand<NecStandard> = NecCommand::new(20, 10);
    assert_eq!(NecStandard::encode_command(c), 0xF50A_EB14);
    let d = NecStandard::decode_command(0xF50A_EB14);
    assert_eq!((d.addr, d.cmd), (20, 10));

    let c: NecCommand<Nec16Variant> = NecCommand::new(0x1234, 0x56);
    assert_eq!(Nec16Variant::encode_command(c), 0xA956_1234);
    let d = Nec16Variant::decode_command(0xA956_1234);
    assert_eq!((d.addr, d.cmd), (0x1234, 0x56));

    let c: NecCommand<SamsungVariant> = NecCommand::new(7, 2);
    assert_eq!(SamsungVariant::encode_command(c), 0xFD02_0707);
    let d = SamsungVariant::decode_command(0xFD02_0707);
    assert_eq!((d.addr, d.cmd), (7, 2));
}

#[test]
fn nec_decode_drops_check_bits() {
    // Complements that do not match are not tested
    let d = NecStandard::decode_command(0x0000_0000);
    assert_eq!((d.addr, d.cmd), (0, 0));
    let d = NecStandard::decode_command(0x1122_3344);
    assert_eq!((d.addr, d.cmd), (0x44, 0x22));
}

#[test]
fn nec_pulsetrain_cells() {
    let c: NecCommand<NecStandard> = NecCommand::new(20, 10);
    let mut b = [7u16; 96];
    let mut len = 0;
    c.to_pulsetrain(&mut b, &mut len);
    assert_eq!(len, 69);
    assert_eq!(&b[0..3], &[0, 9000, 4500]);
    let bits: u32 = 0xF50A_EB14;
    for i in 0..32 {
        assert_eq!(b[3 + 2 * i], 560);
        assert_eq!(b[4 + 2 * i], if (bits >> i) & 1 == 1 { 1690 } else { 560 });
    }
    assert_eq!(b[67], 560);
    assert_eq!(b[68], 560);
    // Cells behind the pulse train are left alone
    for i in 69..96 {
        assert_eq!(b[i], 7);
    }
    // Off in the even cells, on in the odd cells: the train ends with a silence
    assert_eq!(len % 2, 1);

    let c: NecCommand<SamsungVariant> = NecCommand::new(20, 10);
    c.to_pulsetrain(&mut b, &mut len);
    assert_eq!(len, 69);
    assert_eq!(&b[0..3], &[0, 4500, 4500]);
}

#[test]
fn nec_construct_and_getters() {
    let c = NecCommand::<NecStandard>::construct(20, 10).unwrap();
    assert_eq!((c.addr, c.cmd), (20, 10));
    assert_eq!(c.address(), 20);
    assert_eq!(c.data(), 10);
    assert_eq!(c.protocol(), Protocol::Nec);
    assert!(NecCommand::<NecStandard>::construct(256, 10).is_none());
    assert!(NecCommand::<NecStandard>::construct(20, 256).is_none());
    assert!(NecCommand::<NecStandard>::construct(255, 255).is_some());
    let c = NecCommand::<Nec16Variant>::construct(0xffff, 1).unwrap();
    assert_eq!(c.protocol(), Protocol::Nec16);
    assert_eq!(c.address(), 0xffff);
    assert!(NecCommand::<Nec16Variant>::construct(0x1_0000, 1).is_none());
    let c = NecCommand::<SamsungVariant>::construct(1, 2).unwrap();
    assert_eq!(c.protocol(), Protocol::NecSamsung);
}

#[test]
fn nec_ids() {
    assert_eq!(<Nec as Receiver>::ID, ProtocolId::Nec);
    assert_eq!(<Nec16 as Receiver>::ID, ProtocolId::Nec16);
    assert_eq!(<NecSamsung as Receiver>::ID, ProtocolId::NecSamsung);
}

#[test]
fn nec_pulsewidth_labels() {
    assert_eq!(PulseWidth::from(0), PulseWidth::Sync);
    assert_eq!(PulseWidth::from(1), PulseWidth::Repeat);
    assert_eq!(PulseWidth::from(2), PulseWidth::Zero);
    assert_eq!(PulseWidth::from(3), PulseWidth::One);
    assert_eq!(PulseWidth::from(4), PulseWidth::NotAPulseWidth);
    assert_eq!(PulseWidth::from(77), PulseWidth::NotAPulseWidth);
    assert_eq!(PulseWidth::default(), PulseWidth::NotAPulseWidth);
}

#[test]
fn nec_stray_edge_stays_idle() {
    for t in [0u32, 1, 12345, 0x8000_0000, u32::MAX] {
        let mut recv = Nec::with_samplerate(40_000);
        assert!(matches!(recv.event(true, t), State::Idle));
        let mut recv = Nec::with_samplerate(40_000);
        assert!(matches!(recv.event(false, t), State::Idle));
    }
}

#[test]
fn nec_receives_edge_by_edge() {
    let mut recv = Nec::with_samplerate(40_000);
    let edges = rising_edges(0xF50A_EB14, 32, 1000);
    for (i, t) in edges.iter().enumerate() {
        let s = recv.event(true, *t);
        if i == 0 {
            assert!(matches!(s, State::Idle));
        } else if i < 33 {
            assert!(matches!(s, State::Receiving));
            assert_eq!(recv.state, NecState::Receiving(i as u32 - 1));
            // Falling edges carry no timing
            assert!(matches!(recv.event(false, t.wrapping_add(22)), State::Receiving));
        } else {
            match s {
                State::Done(cmd) => assert_eq!((cmd.addr, cmd.cmd), (20, 10)),
                _ => panic!("no command"),
            }
        }
    }
}

#[test]
fn nec_31_bits_then_silence_is_receiving() {
    let mut recv = Nec::with_samplerate(40_000);
    let edges = rising_edges(0xF50A_EB14, 31, 500);
    let mut last = State::Idle;
    for t in edges.iter() {
        last = recv.event(true, *t);
    }
    assert!(matches!(last, State::Receiving));
    assert_eq!(recv.state, NecState::Receiving(31));
}

#[test]
fn nec_wrap_between_edges() {
    let mut recv = Nec::with_samplerate(40_000);
    let edges = rising_edges(0xF50A_EB14, 32, u32::MAX - 700);
    let mut last = State::Idle;
    for t in edges.iter() {
        last = recv.event(true, *t);
    }
    match last {
        State::Done(cmd) => assert_eq!((cmd.addr, cmd.cmd), (20, 10)),
        _ => panic!("no command"),
    }
}

#[test]
fn nec_bad_interval_is_data_error() {
    let mut recv = Nec::with_samplerate(40_000);
    assert!(matches!(recv.event(true, 100), State::Idle));
    assert!(matches!(recv.event(true, 640), State::Receiving));
    assert!(matches!(recv.event(true, 684), State::Receiving));
    // 60 samples are neither a zero nor a one
    match recv.event(true, 744) {
        State::Error(e) => assert_eq!(e, Error::Data(60)),
        _ => panic!("no error"),
    }
    // The error stays until the reset
    match recv.event(true, 788) {
        State::Error(e) => assert_eq!(e, Error::Data(60)),
        _ => panic!("no error"),
    }
    match recv.event(false, 800) {
        State::Error(e) => assert_eq!(e, Error::Data(60)),
        _ => panic!("no error"),
    }
    recv.reset();
    assert_eq!(recv.state, NecState::Init);
    assert!(matches!(recv.event(false, 900), State::Idle));
}

#[test]
fn nec_done_holds_until_reset() {
    let mut recv = Nec::with_samplerate(40_000);
    for t in rising_edges(0xF50A_EB14, 32, 0).iter() {
        recv.event(true, *t);
    }
    assert_eq!(recv.state, NecState::Done);
    for (edge, t) in [(true, 5000u32), (false, 5044), (true, 5540), (true, 5584), (true, 9)] {
        match recv.event(edge, t) {
            State::Done(cmd) => assert_eq!((cmd.addr, cmd.cmd), (20, 10)),
            _ => panic!("command lost"),
        }
        assert_eq!(recv.bitbuf, 0xF50A_EB14);
    }
    recv.reset();
    assert!(matches!(recv.event(false, 10), State::Idle));
}

#[test]
fn nec_reset_is_idempotent() {
    let mut recv = Nec::with_samplerate(40_000);
    for t in rising_edges(0xF50A_EB14, 32, 0).iter() {
        recv.event(true, *t);
    }
    recv.reset();
    let once = (recv.state, recv.last_event, recv.bitbuf, recv.lastcommand);
    recv.reset();
    let twice = (recv.state, recv.last_event, recv.bitbuf, recv.lastcommand);
    assert_eq!(once, twice);
    assert_eq!(once, (NecState::Init, 0, 0, 0xF50A_EB14));
}

#[test]
fn nec_repeat_gives_last_command() {
    // One frame of (5, 7), its closing burst, a pause, and a lone repeat
    let cmd: NecCommand<NecStandard> = NecCommand::new(5, 7);
    let mut b = [0u16; 96];
    let mut len = 0;
    cmd.to_pulsetrain(&mut b, &mut len);
    let mut recv: BufferReceiver<Nec> = BufferReceiver::new(&b[0..67], 1_000_000);
    recv.add(&[560, 40000, 9000, 2250, 560]);

    let cmds = recv.iter().collect();
    assert_eq!(cmds.len(), 2);
    assert_eq!((cmds[0].addr, cmds[0].cmd), (5, 7));
    assert_eq!(cmds[1], cmds[0]);
}

#[test]
fn nec_failed_frame_keeps_last_command() {
    let mut recv = Nec::with_samplerate(40_000);
    for t in rising_edges(0xF50A_EB14, 32, 0).iter() {
        recv.event(true, *t);
    }
    recv.reset();
    // A frame that breaks off after three ones
    let mut last = State::Idle;
    for t in [10_000u32, 10_540, 10_629, 10_718, 10_807, 10_870] {
        last = recv.event(true, t);
    }
    assert!(matches!(last, State::Error(_)));
    recv.reset();
    assert_eq!(recv.lastcommand, 0xF50A_EB14);
    // A repeat
    assert!(matches!(recv.event(true, 20_000), State::Idle));
    match recv.event(true, 20_450) {
        State::Done(cmd) => assert_eq!((cmd.addr, cmd.cmd), (20, 10)),
        _ => panic!("no command"),
    }
}

#[test]
fn nec16_and_samsung_come_back() {
    for samplerate in [20_000u32, 40_000, 80_000] {
        let mut ptb = PulsetrainBuffer::with_samplerate(samplerate);
        for (addr, cmdnum) in [(0u16, 0u8), (0x1234, 0x56), (0xffff, 0xff), (0x8001, 0x80)] {
            let cmd: NecCommand<Nec16Variant> = NecCommand::new(addr, cmdnum);
            ptb.load(&cmd);
            let recv: BufferReceiver<Nec16> = BufferReceiver::new(&ptb.buf[0..ptb.len], samplerate);
            let cmds = recv.iter().collect();
            assert_eq!(cmds.len(), 1);
            assert_eq!(cmds[0], cmd);
        }
        for (addr, cmdnum) in [(0u16, 0u8), (7, 2), (0xff, 0xff), (0x81, 0x18)] {
            let cmd: NecCommand<SamsungVariant> = NecCommand::new(addr, cmdnum);
            ptb.load(&cmd);
            let recv: BufferReceiver<NecSamsung> =
                BufferReceiver::new(&ptb.buf[0..ptb.len], samplerate);
            let cmds = recv.iter().collect();
            assert_eq!(cmds.len(), 1);
            assert_eq!(cmds[0], cmd);
        }
    }
}

#[test]
fn nec_comes_back_once_at_every_rate() {
    for samplerate in [20_000u32, 40_000, 80_000, 1_000_000] {
        let mut ptb = PulsetrainBuffer::with_samplerate(samplerate);
        for (addr, cmdnum) in [(0u16, 0u8), (20, 10), (255, 255), (0xaa, 0x55), (1, 128)] {
            let cmd: NecCommand<NecStandard> = NecCommand::new(addr, cmdnum);
            ptb.load(&cmd);
            let recv: BufferReceiver<Nec> = BufferReceiver::new(&ptb.buf[0..ptb.len], samplerate);
            let cmds = recv.iter().collect();
            assert_eq!(cmds.len(), 1);
            assert_eq!(cmds[0], cmd);
        }
    }
}

#[test]
fn samsung_header_is_not_a_nec_header() {
    let mut ptb = PulsetrainBuffer::with_samplerate(40_000);
    let cmd: NecCommand<SamsungVariant> = NecCommand::new(7, 2);
    ptb.load(&cmd);
    let recv: BufferReceiver<Nec> = BufferReceiver::new(&ptb.buf[0..ptb.len], 40_000);
    assert_eq!(recv.iter().collect().len(), 0);
}

#[test]
fn nec_transmitter_drives_receiver() {
    let mut tx: NecTypeTransmitter<NecStandard> = NecTypeTransmitter::new(40_000);
    let mut rx = Nec::with_samplerate(40_000);
    assert_eq!(tx.step(1), TxState::Idle);
    tx.load(NecCommand::new(20, 10));
    assert_eq!(tx.state, TransmitStateInternal::Start);
    assert_eq!(tx.cmd, 0xF50A_EB14);

    let mut level = false;
    let mut found = std::vec::Vec::new();
    let mut ons = 0;
    for ts in 2..4000u32 {
        let on = tx.step(ts) == TxState::Transmit(true);
        if on {
            ons += 1;
        }
        if on != level {
            level = on;
            if let State::Done(cmd) = rx.event(on, ts) {
                found.push(cmd);
                rx.reset();
            }
        }
    }
    assert_eq!(found.len(), 1);
    assert_eq!((found[0].addr, found[0].cmd), (20, 10));
    assert_eq!(tx.state, TransmitStateInternal::Done);
    assert_eq!(tx.step(4000), TxState::Idle);
    // The header burst and 33 data bursts
    assert_eq!(ons, 360 + 33 * 22);
    tx.reset();
    assert_eq!(tx.state, TransmitStateInternal::Idle);
    assert_eq!(tx.cmd, 0);
    assert_eq!(tx.step(5000), TxState::Idle);
}

#[test]
fn nec_transmitter_header_timing() {
    let mut tx: NecTypeTransmitter<NecStandard> = NecTypeTransmitter::new(40_000);
    assert_eq!(
        (tx.samples.hh, tx.samples.hl, tx.samples.data, tx.samples.zero, tx.samples.one),
        (360, 180, 22, 22, 67)
    );
    tx.load(NecCommand::new(0, 0));
    assert_eq!(tx.step(100), TxState::Transmit(true));
    assert_eq!(tx.step(459), TxState::Transmit(true));
    assert_eq!(tx.step(460), TxState::Transmit(false));
    assert_eq!(tx.step(639), TxState::Transmit(false));
    assert_eq!(tx.step(640), TxState::Transmit(true));
    assert_eq!(tx.state, TransmitStateInternal::DataHigh(0));
    assert_eq!(tx.step(662), TxState::Transmit(false));
    assert_eq!(tx.state, TransmitStateInternal::DataLow(0));
    assert!(TxState::Transmit(true).carrier());
    assert!(!TxState::Transmit(false).carrier());
    assert!(!TxState::Idle.carrier());
    assert!(!TxState::Error.carrier());
}
