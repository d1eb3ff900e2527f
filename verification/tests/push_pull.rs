use lib::push_pull::{channel, RecvErr, SendErr};

#[test]
fn simple_transfer() {
    let (mut main, mut sub, mut wire) = channel::<usize>().unwrap();

    let msg = 0xA5;
    assert_eq!(sub.try_recv(&mut wire), Err(RecvErr::Blocked));
    assert_eq!(main.try_send(&mut wire, msg), Ok(()));
    assert_eq!(main.try_send(&mut wire, msg), Err(SendErr::MustRecv(msg)));
    assert_eq!(main.try_recv(&mut wire), Err(RecvErr::Blocked));
    assert_eq!(sub.try_recv(&mut wire), Ok(msg));
    assert_eq!(sub.try_recv(&mut wire), Err(RecvErr::MustSend));
    assert_eq!(sub.try_send(&mut wire, msg), Ok(()));
    assert_eq!(sub.try_send(&mut wire, msg), Err(SendErr::MustRecv(msg)));
    assert_eq!(sub.try_recv(&mut wire), Err(RecvErr::Blocked));
    assert_eq!(main.try_send(&mut wire, msg), Err(SendErr::MustRecv(msg)));
    assert_eq!(main.try_recv(&mut wire), Ok(msg));

    let msg = 0xFF;
    assert_eq!(main.try_send(&mut wire, msg), Ok(()));
    assert_eq!(main.try_send(&mut wire, msg), Err(SendErr::MustRecv(msg)));
    assert_eq!(main.try_recv(&mut wire), Err(RecvErr::Blocked));
    assert_eq!(sub.try_recv(&mut wire), Ok(msg));
    assert_eq!(sub.try_recv(&mut wire), Err(RecvErr::MustSend));
    assert_eq!(sub.try_send(&mut wire, msg), Ok(()));
    assert_eq!(sub.try_send(&mut wire, msg), Err(SendErr::MustRecv(msg)));
    assert_eq!(sub.try_recv(&mut wire), Err(RecvErr::Blocked));
    assert_eq!(main.try_send(&mut wire, msg), Err(SendErr::MustRecv(msg)));
    assert_eq!(main.try_recv(&mut wire), Ok(msg));
}

#[test]
fn single_thread_loop() {
    let (mut main, mut sub, mut wire) = channel::<usize>().unwrap();
    let data = [0xA5, 0xF1, 0x23, 0x00];

    let range = 1_000_000;
    for _ in 0..range {
        for datum in data.iter() {
            loop {
                match main.try_send(&mut wire, *datum) {
                    Ok(_) => break,
                    Err(_) => continue,
                }
            }

            loop {
                match sub.try_recv(&mut wire) {
                    Ok(d) => {
                        assert_eq!(d, *datum);
                        break;
                    }
                    Err(_) => continue,
                }
            }

            loop {
                match sub.try_send(&mut wire, *datum) {
                    Ok(_) => break,
                    Err(_) => continue,
                }
            }

            loop {
                match main.try_recv(&mut wire) {
                    Ok(d) => {
                        assert_eq!(d, *datum);
                        break;
                    }
                    Err(_) => continue,
                }
            }
        }
    }
}

#[test]
fn main_must_send_first() {
    let (mut main, _sub, mut wire) = channel::<usize>().unwrap();
    assert_eq!(main.try_recv(&mut wire), Err(RecvErr::MustSend));
    assert_eq!(main.try_recv(&mut wire), Err(RecvErr::MustSend));
}

#[test]
fn sub_must_receive_first() {
    let (_main, mut sub, mut wire) = channel::<usize>().unwrap();
    assert_eq!(sub.try_send(&mut wire, 3), Err(SendErr::MustRecv(3)));
    assert_eq!(sub.try_recv(&mut wire), Err(RecvErr::Blocked));
}

#[test]
fn refused_send_leaves_wire_alone() {
    let (mut main, mut sub, mut wire) = channel::<usize>().unwrap();
    assert_eq!(main.try_send(&mut wire, 1), Ok(()));
    // a second send out of turn does not overwrite the first frame
    assert_eq!(main.try_send(&mut wire, 2), Err(SendErr::MustRecv(2)));
    assert_eq!(sub.try_recv(&mut wire), Ok(1));
}

#[test]
fn extreme_words_cross_both_ways() {
    let (mut main, mut sub, mut wire) = channel::<usize>().unwrap();
    for msg in [0usize, usize::MAX, 0x5555_5555_5555_5555, 0xAAAA_AAAA_AAAA_AAAA] {
        assert_eq!(main.try_send(&mut wire, msg), Ok(()));
        assert_eq!(main.try_recv(&mut wire), Err(RecvErr::Blocked));
        assert_eq!(sub.try_recv(&mut wire), Ok(msg));
        assert_eq!(sub.try_send(&mut wire, !msg), Ok(()));
        assert_eq!(sub.try_recv(&mut wire), Err(RecvErr::Blocked));
        assert_eq!(main.try_recv(&mut wire), Ok(!msg));
    }
}

#[test]
fn non_scalar() {
    let (mut main, mut sub, mut wire) = channel::<String>().unwrap();

    assert_eq!(main.try_send(&mut wire, String::from("Hello, World!")), Ok(()));
    assert_eq!(sub.try_recv(&mut wire).unwrap(), "Hello, World!");
    assert_eq!(sub.try_send(&mut wire, String::from("Right back at you!")), Ok(()));
    assert_eq!(main.try_recv(&mut wire).unwrap(), "Right back at you!");
}

#[test]
fn value_is_handed_out_once() {
    let (mut main, mut sub, mut wire) = channel::<Vec<u8>>().unwrap();
    assert_eq!(main.try_send(&mut wire, vec![1, 2, 3]), Ok(()));
    assert_eq!(sub.try_recv(&mut wire), Ok(vec![1, 2, 3]));
    // neither side can take it a second time
    assert_eq!(sub.try_recv(&mut wire), Err(RecvErr::MustSend));
    assert_eq!(main.try_recv(&mut wire), Err(RecvErr::Blocked));
    assert_eq!(sub.try_send(&mut wire, vec![]), Ok(()));
    assert_eq!(main.try_recv(&mut wire), Ok(vec![]));
    assert_eq!(main.try_recv(&mut wire), Err(RecvErr::MustSend));
    assert_eq!(sub.try_recv(&mut wire), Err(RecvErr::Blocked));
}

#[test]
fn refused_send_hands_value_back() {
    let (mut main, mut sub, mut wire) = channel::<String>().unwrap();
    assert_eq!(
        sub.try_send(&mut wire, String::from("too early")),
        Err(SendErr::MustRecv(String::from("too early")))
    );
    assert_eq!(main.try_send(&mut wire, String::from("first")), Ok(()));
    assert_eq!(
        main.try_send(&mut wire, String::from("second")),
        Err(SendErr::MustRecv(String::from("second")))
    );
    assert_eq!(sub.try_recv(&mut wire), Ok(String::from("first")));
}

#[test]
fn wire_has_one_word_per_word_of_the_type() {
    let (_m, _s, wire) = channel::<u8>().unwrap();
    assert_eq!(wire.word_len(), 1);
    let (_m, _s, wire) = channel::<String>().unwrap();
    assert_eq!(wire.word_len(), std::mem::size_of::<String>() / std::mem::size_of::<usize>());
    let (_m, _s, wire) = channel::<[u8; 9]>().unwrap();
    assert_eq!(wire.word_len(), (9 + std::mem::size_of::<usize>() - 1) / std::mem::size_of::<usize>());
}

#[test]
fn small_and_signed_values_cross() {
    let (mut main, mut sub, mut wire) = channel::<i8>().unwrap();
    for v in [0i8, -1, i8::MIN, i8::MAX] {
        assert_eq!(main.try_send(&mut wire, v), Ok(()));
        assert_eq!(sub.try_recv(&mut wire), Ok(v));
        assert_eq!(sub.try_send(&mut wire, v), Ok(()));
        assert_eq!(main.try_recv(&mut wire), Ok(v));
    }
}
