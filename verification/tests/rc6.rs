use infrared::protocols::rc6::{Rc6, Rc6Command};
use infrared::recv::{Receiver, State};
use infrared::{BufferReceiver, Command};

#[test]
fn pulsetrain_on_chain() {
    let mut recv: BufferReceiver<Rc6> = BufferReceiver::new(&[], 1_000_000);
    let cmds = [
        Rc6Command::new(72, 17),
        Rc6Command::new(0, 21),
        Rc6Command::new(1, 33),
    ];

    for cmd in &cmds {
        recv.add_cmd(cmd);
    }

    let received = recv.iter().collect();
    assert_eq!(received.len(), cmds.len());

    for (cmd, cmdrecv) in cmds.iter().zip(received.iter()) {
        assert_eq!(cmd, cmdrecv);
    }
}

#[test]
fn newpulse() {
    let cmd = Rc6Command::new(70, 20);
    let mut b = [0u16; 96];
    let mut len = 0;
    cmd.to_pulsetrain(&mut b, &mut len);

    let mut edge = false;
    let mut recv = Rc6::with_samplerate(1_000_000);
    let mut ts: u32 = 0;
    let mut found = 0;

    for dist in &b[0..len] {
        edge = !edge;
        ts = ts.wrapping_add(*dist as u32);

        let s0 = recv.state;
        let res = recv.event(edge, ts);

        println!("{} ({}): {:?} -> {:?}", edge as u32, dist, s0, recv.state);

        if let State::Done(cmd) = res {
            println!("cmd: {:?}", cmd);
            assert_eq!(cmd.addr, 70);
            assert_eq!(cmd.cmd, 20);
            found += 1;
            recv.reset();
        }
    }
    assert_eq!(found, 1);
}

#[test]
fn basic() {
    let dists = [
        0, 108, 34, 19, 34, 19, 16, 20, 16, 19, 34, 36, 16, 37, 34, 20, 16, 19, 16, 37, 17, 19, 34, 19, 17, 19, 16, 19, 17, 19, 16, 20, 16, 19, 16, 37, 34, 20,

        0, 106, 35, 17, 35, 17, 17, 17, 17, 17, 35, 35, 17, 35, 35, 17, 17, 17, 17, 35, 17, 17, 35, 17, 17, 17, 17, 17, 17, 17, 17, 17, 17, 17, 17, 35, 35, 35,

        0, 108, 34, 19, 34, 19, 16, 20, 16, 19, 34, 36, 16, 37, 34, 20, 16, 19, 16, 37, 17, 19, 34, 19, 17, 19, 16, 19, 17, 19, 16, 20, 16, 19, 16, 37, 34, 20,
    ];

    let recv: BufferReceiver<Rc6> = BufferReceiver::new(&dists, 40_000);

    let cmds = recv.iter().collect();

    assert_eq!(cmds.len(), 3);

    for cmd in &cmds {
        assert_eq!(cmd.addr, 70);
        assert_eq!(cmd.cmd, 2);
    }
}
