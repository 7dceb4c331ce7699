use wavestation::cset::ConstraintSet;
use wavestation::prng::Xorshift64;

#[test]
fn insert_then_remove_restores() {
    let mut s = ConstraintSet::new();
    assert!(s.insert(3, 5, 7));
    assert!(s.insert(3, 1, 2));
    // a fresh position goes in and comes back out
    assert!(s.insert(3, 9, 9));
    assert!(s.remove(3, 9, 9));
    // the other two are still there and nothing else is
    assert!(s.remove(3, 5, 7));
    assert!(s.remove(3, 1, 2));
    assert!(!s.remove(3, 5, 7));
    let mut p = Xorshift64(1);
    assert_eq!(s.pop(&mut p), None);
}

#[test]
fn insert_is_idempotent_on_duplicates() {
    let mut s = ConstraintSet::new();
    assert!(s.insert(4, 2, 3));
    assert!(!s.insert(4, 2, 3));
    assert!(!s.insert(4, 2, 3));
    // one removal empties the bucket again
    assert!(s.remove(4, 2, 3));
    assert!(!s.remove(4, 2, 3));
}

#[test]
fn remove_absent_reports_false() {
    let mut s = ConstraintSet::new();
    assert!(!s.remove(2, 0, 0));
    s.insert(2, 0, 0);
    assert!(!s.remove(5, 0, 0));
    assert!(s.remove(2, 0, 0));
}

#[test]
fn pop_returns_smallest_key() {
    let mut s = ConstraintSet::new();
    s.insert(9, 1, 1);
    s.insert(4, 2, 2);
    s.insert(7, 3, 3);
    let mut p = Xorshift64(0x5555);
    let (c, x, y) = s.pop(&mut p).unwrap();
    assert_eq!(c, 4);
    assert_eq!((x, y), (2, 2));
    let (c, _, _) = s.pop(&mut p).unwrap();
    assert_eq!(c, 7);
    let (c, _, _) = s.pop(&mut p).unwrap();
    assert_eq!(c, 9);
    assert_eq!(s.pop(&mut p), None);
}

#[test]
fn pop_empty_is_none() {
    let mut s = ConstraintSet::new();
    let mut p = Xorshift64(3);
    assert_eq!(s.pop(&mut p), None);
}

#[test]
fn pop_reaches_every_member_of_a_tied_bucket() {
    // over many generator states, each position of the smallest bucket is
    // selected at least once
    let mut seen = [false; 3];
    for seed in 1..200u64 {
        let mut s = ConstraintSet::new();
        s.insert(2, 10, 0);
        s.insert(2, 11, 0);
        s.insert(2, 12, 0);
        s.insert(6, 99, 99);
        let mut p = Xorshift64(seed);
        // mix the state so nearby seeds give independent draws
        p.next_u64();
        p.next_u64();
        p.next_u64();
        let (c, x, _) = s.pop(&mut p).unwrap();
        assert_eq!(c, 2);
        seen[(x - 10) as usize] = true;
    }
    assert!(seen.iter().all(|&b| b));
}
