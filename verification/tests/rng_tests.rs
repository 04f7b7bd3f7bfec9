use hexscatter::rng::Shift64;
use hexscatter::seed::{get_seed, seed_from_digest};

#[test]
fn shift64_i32() {
    let mut shift_a = Shift64::new(0);
    assert_eq!(shift_a.seed, 5036377382042008862);

    assert_eq!(shift_a.shift(), -6399782287330682226);
    assert_eq!(shift_a.shift(), 4297237695309840522);
    assert_eq!(shift_a.shift(), 1075437695011947220);
    assert_eq!(shift_a.shift(), -930821246400571898);

    assert_eq!(shift_a.i32(2048), 1025);
    assert_eq!(shift_a.i32(1024), 798);
    assert_eq!(shift_a.i32(512), 235);
    assert_eq!(shift_a.i32(256), 205);

    assert_eq!(shift_a.i32(128), 108);
    assert_eq!(shift_a.i32(64), 42);
    assert_eq!(shift_a.i32(128), 30);

    assert_eq!(shift_a.i32(256), 185);
    assert_eq!(shift_a.i32(512), 237);
    assert_eq!(shift_a.i32(1024), 974);
    assert_eq!(shift_a.i32(2048), 1385);

    assert_eq!(shift_a.shift(), -5828336445164884370);
    assert_eq!(shift_a.shift(), 1599167847083165552);
    assert_eq!(shift_a.shift(), 6218638069927327200);
    assert_eq!(shift_a.shift(), 8232039552211122488);
}

#[test]
fn shift64_get_seed() {
    let a = get_seed("".to_string());
    let b = get_seed("a".to_string());
    let c = get_seed("bb".to_string());
    let d = get_seed("ccc".to_string());
    let e = get_seed("near".to_string());

    assert_eq!(a, 5698237097726351552);
    assert_eq!(b, 3027204654264679692);
    assert_eq!(c, 331832489265128583);
    assert_eq!(d, 1883749424214749104);
    assert_eq!(e, -4661580130154814320);
}

fn float_i32(state: i64, n: i32) -> i32 {
    let x = (state as f64) / 9223372036854775808.0;
    ((x * n as f64).abs() - 1.0) as i32
}

fn float_usize(state: i64, n: usize) -> usize {
    let x = (state as f64) / 9223372036854775808.0;
    ((x * n as f64).abs() - 1.0) as usize
}

#[test]
fn new_wraps_at_the_largest_seed() {
    let a = Shift64::new(i64::MAX);
    let mut b = Shift64 { seed: i64::MIN };
    b.shift();
    assert_eq!(a.seed, b.seed);
}

#[test]
fn shift_moves_the_state() {
    let mut g = Shift64 { seed: 1 };
    let x = g.shift();
    assert_eq!(x, g.seed);
    assert_eq!(x, Shift64::new(0).seed);
}

#[test]
fn signed_draws_agree_with_double_arithmetic() {
    let bounds: [i32; 12] = [0, 1, 2, 3, 7, 256, 1024, -5, -2048, 1000003, i32::MAX, i32::MIN];
    let mut seed: i64 = 0;
    while seed < 400 {
        let mut g = Shift64::new(seed * 7919 - 1500);
        for n in bounds {
            let before = g.seed;
            let v = g.i32(n);
            let mut h = Shift64 { seed: before };
            let state = h.shift();
            assert_eq!(g.seed, state);
            assert_eq!(v, float_i32(state, n));
        }
        seed += 1;
    }
}

#[test]
fn size_draws_agree_with_double_arithmetic() {
    let bounds: [usize; 10] =
        [0, 1, 2, 3, 256, 9007199254740993, 18014398509481985, 1 << 62, usize::MAX - 1, usize::MAX];
    let mut seed: i64 = 0;
    while seed < 400 {
        let mut g = Shift64::new(seed * 104729 + 17);
        for n in bounds {
            let before = g.seed;
            let v = g.usize(n);
            let mut h = Shift64 { seed: before };
            let state = h.shift();
            assert_eq!(v, float_usize(state, n));
        }
        seed += 1;
    }
}

#[test]
fn draws_at_the_edges_of_the_state() {
    // The state before the one wanted is not known, so the draw is checked
    // on states that a generator reaches from chosen seeds, and on the
    // rounding of large states through the largest bound.
    let mut g = Shift64::new(12345);
    let mut i = 0;
    while i < 2000 {
        let before = g.seed;
        let v = g.i32(i32::MAX);
        let mut h = Shift64 { seed: before };
        assert_eq!(v, float_i32(h.shift(), i32::MAX));
        i += 1;
    }
}

#[test]
fn draw_below_one_gives_minus_one_or_zero() {
    let mut g = Shift64::new(0);
    assert_eq!(g.i32(0), -1);
    assert_eq!(g.usize(0), 0);
    let v = g.i32(1);
    assert!(v == 0 || v == -1);
}

#[test]
fn seed_from_digest_folds_four_words() {
    let mut digest = [0u8; 32];
    digest[7] = 3;
    digest[15] = 5;
    digest[23] = 7;
    digest[31] = 11;
    assert_eq!(seed_from_digest(&digest), 3 * 5 * 7 * 11);
    digest[0] = 0x80;
    assert_eq!(seed_from_digest(&digest), ((0x8000000000000003u64).wrapping_mul(385)) as i64);
}

#[test]
fn seed_from_digest_reads_most_significant_byte_first() {
    let mut digest = [0u8; 32];
    digest[6] = 1;
    digest[15] = 1;
    digest[23] = 1;
    digest[31] = 1;
    assert_eq!(seed_from_digest(&digest), 256);
    let longer = [1u8; 40];
    let word: u64 = 0x0101010101010101;
    assert_eq!(
        seed_from_digest(&longer),
        word.wrapping_mul(word).wrapping_mul(word).wrapping_mul(word) as i64
    );
}

#[test]
fn get_seed_differs_from_its_text() {
    assert_ne!(get_seed("a".to_string()), get_seed("b".to_string()));
    assert_eq!(get_seed("near".to_string()), get_seed("near".to_string()));
}
