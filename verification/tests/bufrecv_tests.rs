use infrared::protocols::nec::{NecCommand, NecStandard};
use infrared::protocols::rc5::Rc5Command;
use infrared::protocols::rc6::Rc6Command;
use infrared::protocols::{Nec, Rc5, Rc6};
use infrared::BufferReceiver;

#[test]
fn buffer_holds_the_pulses() {
    let recv: BufferReceiver<Rc5> = BufferReceiver::new(&[1, 2, 3], 40_000);
    assert_eq!((recv.len, recv.scaler), (3, 25));
    assert_eq!(&recv.buf[0..4], &[1, 2, 3, 0]);
    let recv: BufferReceiver<Rc5> = BufferReceiver::new(&[], 1_000_000);
    assert_eq!((recv.len, recv.scaler), (0, 1));
    let full = [9u16; 512];
    let recv: BufferReceiver<Rc5> = BufferReceiver::new(&full, 20_000);
    assert_eq!((recv.len, recv.scaler), (512, 50));
    assert_eq!(recv.buf[511], 9);
}

#[test]
fn empty_buffer_has_no_commands() {
    let recv: BufferReceiver<Rc5> = BufferReceiver::new(&[], 40_000);
    assert_eq!(recv.iter().collect().len(), 0);
    let mut it = recv.iter();
    assert_eq!(it.next(), None);
    assert_eq!(it.next(), None);
}

#[test]
fn add_appends_pulses() {
    let mut recv: BufferReceiver<Rc5> = BufferReceiver::new(&[1, 2, 3], 40_000);
    recv.add(&[4, 5]);
    recv.add(&[]);
    recv.add(&[6]);
    assert_eq!(recv.len, 6);
    assert_eq!(&recv.buf[0..7], &[1, 2, 3, 4, 5, 6, 0]);
}

#[test]
fn add_cmd_scales_and_joins_silences() {
    let mut recv: BufferReceiver<Rc5> = BufferReceiver::new(&[], 40_000);
    let cmd = Rc5Command::new(20, 9, false);
    recv.add_cmd(&cmd);
    assert_eq!(recv.len, 21);
    assert_eq!(&recv.buf[0..5], &[0, 35, 35, 71, 71]);
    assert_eq!(recv.buf[20], 71);
    // The silence at the end of the first frame takes up the silence before the second
    recv.add_cmd(&cmd);
    assert_eq!(recv.len, 41);
    assert_eq!(&recv.buf[20..25], &[71, 35, 35, 71, 71]);
    assert_eq!(recv.buf[40], 71);
    assert_eq!(recv.buf[41], 0);

    // A buffer that ends with the carrier on takes the frame as it is
    let mut recv: BufferReceiver<Rc5> = BufferReceiver::new(&[0, 9], 40_000);
    recv.add_cmd(&cmd);
    assert_eq!(recv.len, 23);
    assert_eq!(&recv.buf[0..6], &[0, 9, 0, 35, 35, 71]);

    // A silence holds no more than 16 bits
    let mut recv: BufferReceiver<Nec> = BufferReceiver::new(&[65_000], 1_000_000);
    recv.add(&[10, 65_000]);
    let nec: NecCommand<NecStandard> = NecCommand::new(1, 1);
    let mut shifted: BufferReceiver<Nec> = BufferReceiver::new(&[1000], 1_000_000);
    shifted.add_cmd(&nec);
    assert_eq!(shifted.len, 69);
    assert_eq!(&shifted.buf[0..3], &[1000, 9000, 4500]);
    recv.add_cmd(&Rc5Command::new(0, 0, false));
    assert_eq!(recv.buf[2], 65_000);
    let mut long: BufferReceiver<Rc6> = BufferReceiver::new(&[65_535], 1_000_000);
    long.add(&[5, 65_535]);
    long.add_cmd(&Rc6Command::new(0, 0));
    assert_eq!(long.buf[2], 65_535);
    assert_eq!(long.len, 47);
}

#[test]
fn chained_frames_come_back_in_order() {
    let mut recv: BufferReceiver<Rc5> = BufferReceiver::new(&[], 1_000_000);
    let cmds = [
        Rc5Command::new(7, 16, false),
        Rc5Command::new(0, 21, true),
        Rc5Command::new(1, 33, false),
        Rc5Command::new(31, 63, true),
    ];
    for cmd in &cmds {
        recv.add_cmd(cmd);
    }
    let received = recv.iter().collect();
    assert_eq!(&received[..], &cmds[..]);

    let mut recv: BufferReceiver<Rc6> = BufferReceiver::new(&[], 40_000);
    let cmds = [Rc6Command::new(72, 16), Rc6Command::new(0, 20), Rc6Command::new(255, 255)];
    for cmd in &cmds {
        recv.add_cmd(cmd);
    }
    let received = recv.iter().collect();
    assert_eq!(&received[..], &cmds[..]);
}

#[test]
fn iterating_twice_gives_the_same() {
    let dists = [
        57910, 36, 36, 36, 35, 37, 35, 72, 71, 72, 36, 36, 36, 36, 35, 36, 36, 36, 35, 36, 36, 36,
        71, 36, 26605, 36, 36, 71, 72, 72, 71, 72, 36, 36, 35, 36, 36, 36, 35, 37, 35, 36, 36, 36,
        71, 36, 10254, 37, 35, 37, 34, 37, 35, 37, 35, 73, 34, 38, 70, 37, 141, 38, 34, 37, 35, 37,
        34, 38, 34, 37, 70, 73, 35, 37, 35, 37, 34, 38, 34, 37, 34, 38, 50973, 38, 34, 73, 70, 73,
        70, 74, 34, 37, 35, 37, 34, 38, 34, 37, 35, 37, 34, 38, 70, 37,
    ];
    let recv: BufferReceiver<Rc5> = BufferReceiver::new(&dists, 40_000);
    let first = recv.iter().collect();
    let second = recv.iter().collect();
    assert_eq!(first, second);
    assert_eq!(first.len(), 3);
    assert_eq!(
        first,
        vec![
            Rc5Command::new(20, 1, true),
            Rc5Command::new(20, 1, false),
            Rc5Command::new(20, 1, false)
        ]
    );
    // Step by step gives the same as all at once
    let mut it = recv.iter();
    let mut stepped = std::vec::Vec::new();
    while let Some(cmd) = it.next() {
        stepped.push(cmd);
    }
    assert_eq!(stepped, first);
    assert_eq!(it.pos, dists.len());
    assert_eq!(it.next(), None);
}

#[test]
fn edge_that_breaks_a_frame_starts_the_next() {
    // A frame that breaks off, and a whole frame right behind it
    let mut recv: BufferReceiver<Rc5> = BufferReceiver::new(&[0, 889, 889, 1778], 1_000_000);
    recv.add(&[5000]);
    assert_eq!(recv.len % 2, 1);
    let cmd = Rc5Command::new(20, 9, false);
    let mut b = [0u16; 96];
    let mut len = 0;
    infrared::Command::to_pulsetrain(&cmd, &mut b, &mut len);
    recv.add(&b[1..len]);
    let received = recv.iter().collect();
    assert_eq!(received, vec![cmd]);
}

#[test]
fn replay_time_wraps() {
    let mut ptb = infrared::sender::PulsetrainBuffer::with_samplerate(20_000);
    let cmd: NecCommand<NecStandard> = NecCommand::new(20, 10);
    ptb.load(&cmd);
    let recv: BufferReceiver<Nec> = BufferReceiver::new(&ptb.buf[0..ptb.len], 20_000);
    let mut it = recv.iter();
    // The frame begins shortly before the microsecond counter wraps
    it.ts = u32::MAX - 20_000;
    assert_eq!(it.next(), Some(cmd));
    assert!(it.ts < 100_000);
    assert_eq!(it.pos, 67);
    assert_eq!(it.next(), None);
    assert_eq!(it.pos, 69);
}
