use lib::{channel, Error};

#[test]
fn fresh_register_lets_sender_go_first() {
    let (mut tx, mut rx, mut reg) = channel();
    assert_eq!(reg, [0, 0]);
    assert_eq!(rx.try_recv(&mut reg), Err(Error::Blocked));
    assert_eq!(reg, [0, 0]);
    assert_eq!(tx.try_send(&mut reg, 0xA5), Ok(()));
    assert_eq!(reg, [0xA5, !0xA5usize]);
}

#[test]
fn register_alternates() {
    let (mut tx, mut rx, mut reg) = channel();
    assert_eq!(tx.try_send(&mut reg, 7), Ok(()));
    assert_eq!(tx.try_send(&mut reg, 8), Err(Error::Blocked));
    assert_eq!(reg, [7, !7usize]);
    assert_eq!(rx.try_recv(&mut reg), Ok(7));
    assert_eq!(reg, [7, 7]);
    assert_eq!(rx.try_recv(&mut reg), Err(Error::Blocked));
    assert_eq!(tx.try_send(&mut reg, 8), Ok(()));
    assert_eq!(rx.try_recv(&mut reg), Ok(8));
}

#[test]
fn register_single_thread_transfer() {
    let (mut tx, mut rx, mut reg) = channel();
    let data: Vec<usize> = vec![
        0x0000_0000_0000_0000,
        0x0000_0000_0000_0001,
        0x0000_0000_0000_0001,
        0xDEAD_BEEF_0BAD_B001,
        0x0000_0000_0000_00A5,
        0x5555_5555_5555_5555,
        0xAAAA_AAAA_AAAA_AAAA,
        0xFFFF_FFFF_FFFF_FFFF,
        0x0000_0000_0000_0000,
        0xFFFF_FFFF_FFFF_FFFF,
    ];
    for _ in 0..1000 {
        for datum in data.iter() {
            assert_eq!(tx.try_send(&mut reg, *datum), Ok(()));
            assert_eq!(tx.try_send(&mut reg, *datum), Err(Error::Blocked));
            assert_eq!(rx.try_recv(&mut reg), Ok(*datum));
            assert_eq!(rx.try_recv(&mut reg), Err(Error::Blocked));
        }
    }
}

#[test]
fn receiver_refuses_non_full_register() {
    let (_tx, mut rx, _) = channel();
    let mut reg = [3, 4];
    assert_eq!(rx.try_recv(&mut reg), Err(Error::Blocked));
    assert_eq!(reg, [3, 4]);
    let mut reg = [3, !3usize];
    assert_eq!(rx.try_recv(&mut reg), Ok(3));
}

#[test]
fn sender_refuses_non_empty_register() {
    let (mut tx, _rx, _) = channel();
    let mut reg = [1, 2];
    assert_eq!(tx.try_send(&mut reg, 9), Err(Error::Blocked));
    assert_eq!(reg, [1, 2]);
    let mut reg = [5, 5];
    assert_eq!(tx.try_send(&mut reg, 9), Ok(()));
    assert_eq!(reg, [9, !9usize]);
}
