use infrared::protocols::rc5::{range, rc5_multiplier, Rc5, Rc5Command, Rc5State};
use infrared::recv::{Error, Receiver, State};
use infrared::sender::PulsetrainBuffer;
use infrared::{BufferReceiver, Command, Protocol, ProtocolId};

#[test]
fn rc5_bits_of_command() {
    assert_eq!(Rc5Command::new(20, 9, false).to_bits(), 0x3509);
    assert_eq!(Rc5Command::new(5, 63, true).to_bits(), 0x397f);
    assert_eq!(Rc5Command::new(0, 0, false).to_bits(), 0x3000);
    assert_eq!(Rc5Command::new(31, 63, true).to_bits(), 0x3fff);
    // Only the 5 bits of an address and the 6 bits of a command are sent
    assert_eq!(Rc5Command::new(0xff, 0xff, false).to_bits(), 0x37ff);

    assert_eq!(Rc5Command::from_bits(0x3509), Rc5Command::new(20, 9, false));
    assert_eq!(Rc5Command::from_bits(0x397f), Rc5Command::new(5, 63, true));
    assert_eq!(Rc5Command::from_bits(0xffff), Rc5Command::new(31, 63, true));
    assert_eq!(Rc5Command::from_bits(0), Rc5Command::new(0, 0, false));
}

#[test]
fn rc5_bits_come_back() {
    for addr in 0..32 {
        for cmd in 0..64 {
            for toggle in [false, true] {
                let c = Rc5Command::new(addr, cmd, toggle);
                assert_eq!(Rc5Command::from_bits(c.to_bits()), c);
            }
        }
    }
}

#[test]
fn rc5_construct_and_getters() {
    let c = Rc5Command::construct(20, 9).unwrap();
    assert_eq!(c, Rc5Command::new(20, 9, false));
    assert_eq!(c.address(), 20);
    assert_eq!(c.data(), 9);
    assert_eq!(c.protocol(), Protocol::Rc5);
    assert!(Rc5Command::construct(32, 9).is_none());
    assert!(Rc5Command::construct(20, 64).is_none());
    assert!(Rc5Command::construct(31, 63).is_some());
    assert_eq!(<Rc5 as Receiver>::ID, ProtocolId::Rc5);
}

#[test]
fn rc5_pulsetrain_cells() {
    let mut b = [0u16; 96];
    let mut len = 0;
    Rc5Command::new(20, 9, false).to_pulsetrain(&mut b, &mut len);
    assert_eq!(
        &b[0..len],
        &[
            0, 889, 889, 1778, 1778, 1778, 1778, 1778, 889, 889, 889, 889, 889, 889, 1778, 1778,
            889, 889, 1778, 889, 1778
        ]
    );
    Rc5Command::new(5, 63, true).to_pulsetrain(&mut b, &mut len);
    assert_eq!(
        &b[0..len],
        &[
            0, 889, 889, 889, 889, 1778, 889, 889, 1778, 1778, 1778, 889, 889, 889, 889, 889,
            889, 889, 889, 889, 889, 889, 889, 889, 1778
        ]
    );
}

#[test]
fn rc5_pulsetrain_ends_in_silence() {
    let mut b = [0u16; 96];
    let mut len = 0;
    for addr in 0..32 {
        for cmd in 0..64 {
            for toggle in [false, true] {
                Rc5Command::new(addr, cmd, toggle).to_pulsetrain(&mut b, &mut len);
                assert_eq!(len % 2, 1);
                assert!(len <= 29);
                assert_eq!(b[0], 0);
                // 14 bits of two halves each, and the silence behind a last half with carrier
                let total: u32 = b[0..len].iter().map(|c| *c as u32).sum();
                let last_is_one = cmd & 1 == 1;
                assert_eq!(total, 27 * 889 + if last_is_one { 1778 } else { 0 });
            }
        }
    }
}

#[test]
fn rc5_comes_back_once_at_every_rate() {
    for samplerate in [20_000u32, 40_000, 80_000, 1_000_000] {
        let mut ptb = PulsetrainBuffer::with_samplerate(samplerate);
        for (addr, cmdnum, toggle) in
            [(0u8, 0u8, false), (20, 9, false), (31, 63, true), (21, 42, true), (10, 21, false)]
        {
            let cmd = Rc5Command::new(addr, cmdnum, toggle);
            ptb.load(&cmd);
            let recv: BufferReceiver<Rc5> = BufferReceiver::new(&ptb.buf[0..ptb.len], samplerate);
            let cmds = recv.iter().collect();
            assert_eq!(cmds.len(), 1);
            assert_eq!(cmds[0], cmd);
        }
    }
}

#[test]
fn rc5_bands() {
    let r = rc5_multiplier(40_000, 1);
    assert_eq!((r.start, r.end), (30, 40));
    let r = rc5_multiplier(40_000, 2);
    assert_eq!((r.start, r.end), (62, 80));
    let r = rc5_multiplier(1_000_000, 1);
    assert_eq!((r.start, r.end), (799, 979));
    let r = rc5_multiplier(1_000_000, 2);
    assert_eq!((r.start, r.end), (1599, 1957));
    let r = range(100, 10);
    assert_eq!((r.start, r.end), (88, 112));
}

#[test]
fn rc5_interval_to_units() {
    let recv = Rc5::new(40_000);
    assert_eq!(recv.interval_to_units(0), None);
    assert_eq!(recv.interval_to_units(29), None);
    assert_eq!(recv.interval_to_units(30), Some(1));
    assert_eq!(recv.interval_to_units(36), Some(1));
    assert_eq!(recv.interval_to_units(39), Some(1));
    assert_eq!(recv.interval_to_units(40), None);
    assert_eq!(recv.interval_to_units(61), None);
    assert_eq!(recv.interval_to_units(62), Some(2));
    assert_eq!(recv.interval_to_units(79), Some(2));
    assert_eq!(recv.interval_to_units(80), None);
}

#[test]
fn rc5_delta_holds_long_gaps_at_zero() {
    let mut recv = Rc5::new(40_000);
    assert_eq!(recv.delta(100), 100);
    assert_eq!(recv.delta(65_534), 65_534);
    assert_eq!(recv.delta(65_535), 0);
    assert_eq!(recv.delta(1_000_000), 0);
    recv.last = u32::MAX - 9;
    assert_eq!(recv.delta(26), 36);
}

#[test]
fn rc5_starts_on_first_rising_edge() {
    let mut recv = Rc5::with_samplerate(40_000);
    assert!(matches!(recv.event(false, 1000), State::Idle));
    assert_eq!(recv.state, Rc5State::Idle);
    assert!(matches!(recv.event(true, 5000), State::Receiving));
    assert_eq!(recv.state, Rc5State::Data(12));
    assert_eq!(recv.bitbuf, 1 << 13);
    assert_eq!(recv.rc5cntr, 1);
}

#[test]
fn rc5_data_edges_are_on_odd_counts() {
    let mut recv = Rc5::with_samplerate(40_000);
    recv.event(true, 5000);
    // Half a bit later: the end of the first bit, no data
    assert!(matches!(recv.event(false, 5036), State::Receiving));
    assert_eq!((recv.state, recv.rc5cntr), (Rc5State::Data(12), 2));
    // The middle of the second bit: a one
    assert!(matches!(recv.event(true, 5072), State::Receiving));
    assert_eq!((recv.state, recv.rc5cntr), (Rc5State::Data(11), 3));
    assert_eq!(recv.bitbuf, 0x3000);
    // A whole bit later: the middle of the third bit, a zero
    assert!(matches!(recv.event(false, 5144), State::Receiving));
    assert_eq!((recv.state, recv.rc5cntr), (Rc5State::Data(10), 5));
    assert_eq!(recv.bitbuf, 0x3000);
}

#[test]
fn rc5_bad_interval_is_data_error() {
    let mut recv = Rc5::with_samplerate(40_000);
    recv.event(true, 5000);
    recv.event(false, 5036);
    match recv.event(true, 5086) {
        State::Error(e) => assert_eq!(e, Error::Data(50)),
        _ => panic!("no error"),
    }
    match recv.event(false, 5122) {
        State::Error(e) => assert_eq!(e, Error::Data(50)),
        _ => panic!("no error"),
    }
    recv.reset();
    assert_eq!(recv.state, Rc5State::Idle);
    assert_eq!(recv.bitbuf, 0);
    assert_eq!(recv.rc5cntr, 0);
    let once = (recv.state, recv.bitbuf, recv.rc5cntr, recv.last, recv.pinval);
    recv.reset();
    assert_eq!(once, (recv.state, recv.bitbuf, recv.rc5cntr, recv.last, recv.pinval));
}

#[test]
fn rc5_done_holds_until_reset() {
    let dists = [0u32, 37, 34, 72, 72, 73, 70, 72, 36, 37, 34, 36, 36, 36, 71, 73, 35, 37, 70, 37];
    let mut recv = Rc5::with_samplerate(40_000);
    let mut ts: u32 = u32::MAX - 300;
    let mut last = State::Idle;
    for (i, d) in dists.iter().enumerate() {
        ts = ts.wrapping_add(*d);
        last = recv.event(i % 2 == 0, ts);
    }
    match last {
        State::Done(cmd) => assert_eq!(cmd, Rc5Command::new(20, 9, false)),
        _ => panic!("no command"),
    }
    for (edge, d) in [(true, 36u32), (false, 36), (true, 72), (false, 500), (true, 36)] {
        ts = ts.wrapping_add(d);
        match recv.event(edge, ts) {
            State::Done(cmd) => assert_eq!(cmd, Rc5Command::new(20, 9, false)),
            _ => panic!("command lost"),
        }
    }
}
