use wator::rand::{ComplementaryMultiplyWithCarryGen, CMWC_CYCLE};

#[test]
fn seed_42_golden_sequence() {
    let mut g = ComplementaryMultiplyWithCarryGen::new(42);
    let expected: [u32; 8] = [
        4293816014, 366958157, 734712334, 4293272481, 733221381, 3668752368, 3669646426,
        4294166539,
    ];
    for e in expected.iter() {
        assert_eq!(g.random(), *e);
    }
}

#[test]
fn seed_0_golden_sequence() {
    let mut g = ComplementaryMultiplyWithCarryGen::new(0);
    assert_eq!(g.random(), 4294604858);
    assert_eq!(g.random(), 367747001);
    assert_eq!(g.random(), 735501178);
}

#[test]
fn seeding_fills_the_table() {
    let g = ComplementaryMultiplyWithCarryGen::new(42);
    assert_eq!(g.q.len(), CMWC_CYCLE);
    assert_eq!(g.q[0], 42);
    assert_eq!(g.q[1], 42u32.wrapping_add(0x9e3779b9));
    assert_eq!(g.q[2], 42u32.wrapping_add(0x9e3779b9).wrapping_add(0x9e3779b9));
    assert_eq!(g.q[3], g.q[0] ^ g.q[1] ^ 0x9e3779b9 ^ 42);
    assert_eq!(g.q[4095], g.q[4092] ^ g.q[4093] ^ 0x9e3779b9 ^ 42);
    assert_eq!(g.c, 362436);
    assert_eq!(g.i, 4095);
}

#[test]
fn draw_advances_cursor_and_stores_value() {
    let mut g = ComplementaryMultiplyWithCarryGen::new(42);
    let x = g.random();
    assert_eq!(g.i, 0);
    assert_eq!(g.q[0], x);
    assert_eq!(g.c, 0);
    let y = g.random();
    assert_eq!(g.i, 1);
    assert_eq!(g.q[1], y);
}

#[test]
fn cursor_wraps_after_a_full_cycle() {
    let mut g = ComplementaryMultiplyWithCarryGen::new(7);
    for _ in 0..CMWC_CYCLE {
        g.random();
    }
    assert_eq!(g.i, 4095);
    g.random();
    assert_eq!(g.i, 0);
}

#[test]
fn same_seed_same_stream() {
    let mut a = ComplementaryMultiplyWithCarryGen::new(123456);
    let mut b = ComplementaryMultiplyWithCarryGen::new(123456);
    for _ in 0..10000 {
        assert_eq!(a.random(), b.random());
    }
}

#[test]
fn cursor_outside_the_table_is_reduced() {
    let mut g = ComplementaryMultiplyWithCarryGen::new(42);
    g.i = 5000;
    let x = g.random();
    assert_eq!(g.i, 905);
    assert_eq!(g.q[905], x);
}
