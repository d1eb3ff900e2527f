use lib::lock::{Contender, Lock, CONTENDERS};

#[test]
fn contender_ids() {
    let (mut arena, _reg) = Lock::new();

    let mut i: usize = 0;
    while let Some(contender) = arena.next() {
        let expected: usize = match i {
            0 => 0b00000001,
            1 => 0b00000011,
            2 => 0b00000111,
            3 => 0b00001111,
            4 => 0b00011111,
            5 => 0b00111111,
            6 => 0b01111111,
            7 => 0b11111111,
            _ => unreachable!(),
        };

        let id = contender.id;
        assert_eq!(expected, id, "\nExpected: {expected:016b}\nGot: {id:016b}");
        i += 1;
    }
    assert_eq!(i, CONTENDERS);
}

#[test]
fn new_lock_register_is_free() {
    let (_arena, reg) = Lock::new();
    assert_eq!(reg, [usize::MAX, usize::MAX]);
}

#[test]
fn exhausted_lock_hands_out_nothing() {
    let (mut arena, _reg) = Lock::new();
    for _ in 0..CONTENDERS {
        assert!(arena.next().is_some());
    }
    assert!(arena.next().is_none());
    assert!(arena.next().is_none());
}

#[test]
fn first_contender_takes_free_lock() {
    let (mut arena, mut reg) = Lock::new();
    let c = arena.next().unwrap();
    assert_eq!(c.contest(&mut reg), Ok(()));
    assert_eq!(reg, [1, !1usize]);
}

#[test]
fn second_contender_is_refused() {
    let (mut arena, mut reg) = Lock::new();
    let c0 = arena.next().unwrap();
    let c1 = arena.next().unwrap();
    assert_eq!(c0.contest(&mut reg), Ok(()));
    let held = reg;
    assert_eq!(c1.contest(&mut reg), Err(()));
    assert_eq!(reg, held);
    // the winner itself cannot take the lock a second time either
    assert_eq!(c0.contest(&mut reg), Err(()));
    assert_eq!(reg, held);
}

#[test]
fn contest_pulls_down_with_mask() {
    let mut reg = [usize::MAX, usize::MAX];
    let c = Contender { id: 0b1011 };
    assert_eq!(c.contest(&mut reg), Ok(()));
    assert_eq!(reg, [0b1011, !0b1011usize]);
}

#[test]
fn contest_refuses_partly_pulled_register() {
    let mut reg = [usize::MAX, 0];
    let c = Contender { id: 0b1 };
    assert_eq!(c.contest(&mut reg), Err(()));
    assert_eq!(reg, [usize::MAX, 0]);
    let mut reg = [0, usize::MAX];
    assert_eq!(c.contest(&mut reg), Err(()));
    assert_eq!(reg, [0, usize::MAX]);
}

#[test]
fn masks_of_one_lock_are_distinct() {
    let (mut arena, _reg) = Lock::new();
    let mut seen: Vec<usize> = Vec::new();
    while let Some(c) = arena.next() {
        assert!(!seen.contains(&c.id));
        assert!(c.id != usize::MAX);
        seen.push(c.id);
    }
    assert_eq!(seen.len(), 8);
}

#[test]
fn holds_checks_read_back_pattern() {
    let c = Contender { id: 0b0111 };
    assert!(c.holds([0b0111, !0b0111usize]));
    assert!(c.holds([0b0111, 0]));
    // another contender overwrote the register in between
    assert!(!c.holds([0b0011, !0b0011usize]));
    // region contaminated: the mask is set in neither word
    assert!(!c.holds([0b0101, !0b0111usize]));
    // second word has a bit of the mask set
    assert!(!c.holds([0b0111, 0b0001]));
}

#[test]
fn pull_down_then_read_back() {
    let (mut arena, mut reg) = Lock::new();
    let c0 = arena.next().unwrap();
    let c1 = arena.next().unwrap();
    assert_eq!(c0.pull_down(&mut reg), Ok(()));
    let read_back = reg;
    assert!(c0.holds(read_back));
    assert!(!c1.holds(read_back));
    assert_eq!(c1.pull_down(&mut reg), Err(()));
    assert_eq!(reg, read_back);
}
