use wavestation::prng::Xorshift64;

#[test]
fn next_u64_from_one() {
    let mut p = Xorshift64(1);
    assert_eq!(
        p.next_u64(),
        ((1u64 ^ (1u64 << 13)) ^ ((1u64 ^ (1u64 << 13)) >> 7))
            ^ (((1u64 ^ (1u64 << 13)) ^ ((1u64 ^ (1u64 << 13)) >> 7)) << 17)
    );
    let mut p = Xorshift64(1);
    assert_eq!(p.next_u64(), 1082269761);
}

#[test]
fn next_u64_from_larger_seed() {
    let mut p = Xorshift64(0x12345678);
    assert_eq!(p.next_u64(), 325431077887975636);
}

#[test]
fn next_u64_sequence() {
    let mut p = Xorshift64(1);
    assert_eq!(p.next_u64(), 1082269761);
    assert_eq!(p.next_u64(), 1152992998833853505);
    assert_eq!(p.next_u64(), 11177516664432764457);
}

#[test]
fn next_u64_deterministic() {
    let mut a = Xorshift64(0x42);
    let mut b = Xorshift64(0x42);
    for _ in 0..100 {
        assert_eq!(a.next_u64(), b.next_u64());
    }
}

#[test]
fn range_stays_in_bounds() {
    let mut p = Xorshift64(0xdeadbeef);
    for _ in 0..200 {
        let v = p.range(3, 17);
        assert!((3..17).contains(&v));
    }
}

#[test]
fn range_first_draw() {
    let mut p = Xorshift64(1);
    assert_eq!(p.range(0, 10), 0);
}

#[test]
fn bernoulli_threshold_extremes() {
    let mut p = Xorshift64(7);
    for _ in 0..50 {
        assert!(!p.bernoulli(0));
    }
    let mut p = Xorshift64(7);
    for _ in 0..50 {
        assert!(p.bernoulli(u64::MAX));
    }
}

#[test]
fn poisson_zero_threshold_is_zero() {
    let mut p = Xorshift64(99);
    assert_eq!(p.poisson(0), 0);
}

#[test]
fn poisson_moderate_threshold() {
    // a fair threshold gives small counts almost surely
    let mut p = Xorshift64(0x1234);
    for _ in 0..50 {
        let c = p.poisson(1u64 << 63);
        assert!(c <= 64);
    }
}
