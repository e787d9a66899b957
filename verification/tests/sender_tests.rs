use infrared::hal::HalSender;
use infrared::protocols::nec::{NecCommand, NecStandard};
use infrared::protocols::rc5::Rc5Command;
use infrared::protocols::{Nec, Rc5};
use infrared::recv::{Receiver, State as RecvState};
use infrared::sender::{PulsetrainBuffer, PulsetrainSender, State};

#[test]
fn buffer_starts_empty() {
    let ptb = PulsetrainBuffer::new();
    assert_eq!((ptb.len, ptb.scaler), (0, 1));
    assert!(ptb.buf.iter().all(|c| *c == 0));
    assert_eq!(ptb.get(0), None);
    let ptb = PulsetrainBuffer::with_samplerate(40_000);
    assert_eq!((ptb.len, ptb.scaler), (0, 25));
    assert_eq!(PulsetrainBuffer::with_samplerate(20_000).scaler, 50);
    assert_eq!(PulsetrainBuffer::with_samplerate(80_000).scaler, 12);
    assert_eq!(PulsetrainBuffer::with_samplerate(1_000_000).scaler, 1);
    assert_eq!(PulsetrainBuffer::with_samplerate(1).scaler, 1_000_000);
}

#[test]
fn buffer_load_scales_to_ticks() {
    let mut ptb = PulsetrainBuffer::with_samplerate(40_000);
    let cmd: NecCommand<NecStandard> = NecCommand::new(20, 10);
    ptb.load(&cmd);
    assert_eq!(ptb.len, 69);
    assert_eq!(&ptb.buf[0..12], &[0, 360, 180, 22, 22, 22, 22, 22, 67, 22, 22, 22]);
    assert_eq!(ptb.buf[67], 22);
    assert_eq!(ptb.buf[68], 22);
    assert_eq!(ptb.buf[69], 0);
    assert_eq!(ptb.scaler, 25);

    let mut ptb = PulsetrainBuffer::with_samplerate(80_000);
    ptb.load(&cmd);
    assert_eq!(&ptb.buf[0..9], &[0, 750, 375, 46, 46, 46, 46, 46, 140]);

    let mut ptb = PulsetrainBuffer::new();
    ptb.load(&cmd);
    assert_eq!(&ptb.buf[0..9], &[0, 9000, 4500, 560, 560, 560, 560, 560, 1690]);
}

#[test]
fn buffer_load_keeps_cells_behind() {
    let mut ptb = PulsetrainBuffer::with_samplerate(40_000);
    let long: NecCommand<NecStandard> = NecCommand::new(20, 10);
    ptb.load(&long);
    let short = Rc5Command::new(20, 9, false);
    ptb.load(&short);
    assert_eq!(ptb.len, 21);
    assert_eq!(&ptb.buf[0..5], &[0, 35, 35, 71, 71]);
    // What the longer train left behind the shorter one
    assert_eq!(ptb.buf[68], 22);
    assert_eq!(ptb.get(20), Some(71));
    assert_eq!(ptb.get(21), None);
    assert_eq!(ptb.get(68), None);
    assert_eq!(ptb.get(96), None);
    assert_eq!(ptb.get(usize::MAX), None);
}

#[test]
fn buffer_iterator_walks_the_cells() {
    let mut ptb = PulsetrainBuffer::with_samplerate(40_000);
    let cmd = Rc5Command::new(20, 9, false);
    ptb.load(&cmd);
    let mut it = ptb.iter();
    assert_eq!(it.size_hint(), (0, Some(21)));
    let mut cells = std::vec::Vec::new();
    while let Some(cell) = it.next() {
        cells.push(cell);
    }
    assert_eq!(&cells[..], &ptb.buf[0..21]);
    assert_eq!(it.size_hint(), (21, Some(21)));
    assert_eq!(it.next(), None);
    assert_eq!(it.next(), None);
    assert_eq!(it.index, 21);
}

/// Plays the sender from time `start`, one tick after the other, and gives the run
/// lengths of its outputs: off, on, off, ..
fn play(sender: &mut PulsetrainSender, start: u32, ticks: u32) -> std::vec::Vec<u32> {
    let mut runs = vec![0u32];
    let mut level = false;
    let mut ts = start;
    for _ in 0..ticks {
        ts = ts.wrapping_add(1);
        let on = sender.tick(ts) == State::Transmit(true);
        if on != level {
            level = on;
            runs.push(0);
        }
        *runs.last_mut().unwrap() += 1;
    }
    runs
}

#[test]
fn sender_plays_the_cells() {
    let mut sender = PulsetrainSender::new(40_000);
    assert_eq!(sender.tick(5), State::Idle);
    let cmd = Rc5Command::new(20, 9, false);
    sender.load(&cmd);
    assert_eq!((sender.state, sender.index), (State::Idle, 0));
    assert_eq!(sender.ptb.len, 21);

    let runs = play(&mut sender, 100, 1200);
    // The leading silence of no ticks ends with the first tick
    assert_eq!(runs[0], 0);
    for i in 1..20 {
        assert_eq!(runs[i], sender.ptb.buf[i] as u32);
    }
    // The last silence runs on
    assert_eq!(runs.len(), 21);
    assert_eq!(sender.tick(5000), State::Idle);
    assert_eq!(sender.index, 21);
}

#[test]
fn sender_state_steps() {
    let mut sender = PulsetrainSender::new(40_000);
    let cmd: NecCommand<NecStandard> = NecCommand::new(20, 10);
    sender.load(&cmd);
    assert_eq!(sender.tick(1), State::Transmit(true));
    assert_eq!((sender.index, sender.ts_lastedge), (1, 1));
    assert_eq!(sender.tick(360), State::Transmit(true));
    assert_eq!(sender.tick(361), State::Transmit(false));
    assert_eq!((sender.index, sender.ts_lastedge), (2, 361));
    assert_eq!(sender.tick(540), State::Transmit(false));
    assert_eq!(sender.tick(541), State::Transmit(true));
    assert_eq!(sender.tick(563), State::Transmit(false));
    // Loading starts over
    sender.load(&cmd);
    assert_eq!((sender.state, sender.index), (State::Idle, 0));
}

#[test]
fn sender_wraps_with_the_counter() {
    let mut sender = PulsetrainSender::new(40_000);
    let cmd: NecCommand<NecStandard> = NecCommand::new(20, 10);
    sender.load(&cmd);
    assert_eq!(sender.tick(u32::MAX - 100), State::Transmit(true));
    assert_eq!(sender.tick(258), State::Transmit(true));
    assert_eq!(sender.tick(259), State::Transmit(false));
}

#[test]
fn sender_drives_nec_receiver() {
    for samplerate in [20_000u32, 40_000, 80_000] {
        let mut sender = PulsetrainSender::new(samplerate);
        let cmd: NecCommand<NecStandard> = NecCommand::new(20, 10);
        sender.load(&cmd);
        let mut recv = Nec::with_samplerate(samplerate);
        let mut level = false;
        let mut found = std::vec::Vec::new();
        for ts in 1..10_000u32 {
            let on = sender.tick(ts) == State::Transmit(true);
            if on != level {
                level = on;
                if let RecvState::Done(c) = recv.event(on, ts) {
                    found.push(c);
                    recv.reset();
                }
            }
        }
        assert_eq!(found.len(), 1);
        assert_eq!(found[0], cmd);
        assert_eq!(sender.state, State::Idle);
    }
}

#[test]
fn sender_drives_rc5_receiver() {
    let mut sender = PulsetrainSender::new(40_000);
    let cmd = Rc5Command::new(21, 42, true);
    sender.load(&cmd);
    let mut recv = Rc5::with_samplerate(40_000);
    let mut level = false;
    let mut found = std::vec::Vec::new();
    for ts in 1..3000u32 {
        let on = sender.tick(ts) == State::Transmit(true);
        if on != level {
            level = on;
            if let RecvState::Done(c) = recv.event(on, ts) {
                found.push(c);
                recv.reset();
            }
        }
    }
    assert_eq!(found.len(), 1);
    assert_eq!(found[0], cmd);
}

#[test]
fn hal_sender_counts_and_gates() {
    let mut sender = HalSender::new(40_000, 7u8);
    assert_eq!(sender.counter, 0);
    assert!(!sender.tick());
    assert_eq!(sender.counter, 1);
    let cmd: NecCommand<NecStandard> = NecCommand::new(20, 10);
    sender.load(&cmd);
    assert_eq!(sender.pts.ptb.len, 69);
    let mut on_ticks = 0;
    for _ in 0..3000 {
        if sender.tick() {
            on_ticks += 1;
            // A sender that is not idle keeps what it sends
            let other = Rc5Command::new(1, 2, false);
            sender.load(&other);
            assert_eq!(sender.pts.ptb.len, 69);
        }
    }
    assert_eq!(on_ticks, 360 + 33 * 22);
    assert_eq!(sender.counter, 3001);
    assert_eq!(sender.pts.state, State::Idle);
    sender.load(&Rc5Command::new(20, 9, false));
    assert_eq!(sender.pts.ptb.len, 21);
    assert_eq!(sender.pin, 7);
    sender.counter = u32::MAX;
    sender.tick();
    assert_eq!(sender.counter, 0);
}

#[test]
fn buffer_from_command_is_unscaled() {
    let cmd = Rc5Command::new(20, 9, false);
    let ptb = PulsetrainBuffer::from_command(&cmd);
    assert_eq!((ptb.len, ptb.scaler), (21, 1));
    assert_eq!(&ptb.buf[0..5], &[0, 889, 889, 1778, 1778]);
    assert_eq!(ptb.buf[20], 1778);
    assert!(ptb.buf[21..].iter().all(|c| *c == 0));
}
