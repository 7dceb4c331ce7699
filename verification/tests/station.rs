use wavestation::station::WaveStation;

const HALF: u64 = 1u64 << 63;

fn dist2(a: (i64, i64), b: (i64, i64)) -> i128 {
    let dx = (b.0 - a.0) as i128;
    let dy = (b.1 - a.1) as i128;
    dx * dx + dy * dy
}

#[test]
fn new_keeps_the_given_seed() {
    let ws = WaveStation::new(Some(0x42), Some(5), HALF, HALF, 1, 1, 3, 1000);
    assert_eq!(ws.seed, 0x42);
    assert_eq!(ws.smallest, 1);
    assert_eq!(ws.clearance, 1);
    assert_eq!(ws.scale, 3);
    assert_eq!(ws.attempts, 1000);
}

#[test]
fn bubbles_lie_inside_the_bounding_box() {
    let ws = WaveStation::new(Some(0xdeadbeef), Some(10), HALF, HALF, 1, 1, 3, 1000);
    assert!(!ws.bubbles.is_empty());
    assert!(ws.size >= 10);
    for b in &ws.bubbles {
        assert!(b.x - (b.r as i64) >= 0);
        assert!(b.y - (b.r as i64) >= 0);
        assert!(b.x + (b.r as i64) < ws.width as i64);
        assert!(b.y + (b.r as i64) < ws.height as i64);
        assert!(b.r >= ws.smallest);
    }
}

#[test]
fn parents_precede_children() {
    let ws = WaveStation::new(Some(0x1234), Some(12), HALF, HALF, 1, 1, 3, 1000);
    for (i, b) in ws.bubbles.iter().enumerate() {
        match b.parent {
            Some(p) => assert!(p < i),
            None => assert_eq!(i, 0),
        }
    }
}

#[test]
fn bubbles_keep_their_clearance() {
    let ws = WaveStation::new(Some(0xfeed), Some(15), HALF, HALF, 1, 2, 3, 1000);
    let n = ws.bubbles.len();
    for i in 0..n {
        for j in (i + 1)..n {
            let a = &ws.bubbles[i];
            let b = &ws.bubbles[j];
            let lim = (a.r + b.r + ws.clearance) as i128;
            assert!(dist2((a.x, a.y), (b.x, b.y)) >= lim * lim);
        }
    }
}

#[test]
fn bubble_map_of_a_single_bubble() {
    let ws = WaveStation::new(Some(0x1), Some(1), HALF, HALF, 1, 1, 3, 1000);
    assert_eq!(ws.bubbles.len(), 1);
    let (w, h, map) = ws.render_bubble_map();
    assert_eq!(map.len(), w * h);
    // exactly one center, surrounded by dots, with space in the corners
    assert_eq!(map.iter().filter(|&&b| b == b'o').count(), 1);
    let b = &ws.bubbles[0];
    assert_eq!(map[b.x as usize + b.y as usize * w], b'o');
    if b.r > 0 {
        assert_eq!(map[(b.x - 1) as usize + b.y as usize * w], b'.');
        assert_eq!(map[b.x as usize + (b.y - 1) as usize * w], b'.');
    }
    assert_eq!(map[0], b' ');
    assert_eq!(map[w - 1], b' ');
    assert_eq!(map[(h - 1) * w], b' ');
    assert_eq!(map[w * h - 1], b' ');
}

#[test]
fn small_map_is_connected() {
    let ws = WaveStation::new(Some(0xdeadbeef), Some(10), HALF, HALF, 1, 1, 3, 1000);
    let (w, h, map) = ws.render_small_map(8, 8);
    assert_eq!((w, h), (8, 8));
    assert_eq!(map.len(), 64);
    let marks = map.iter().filter(|&&b| b == b'o').count();
    assert!(marks >= 1);
    // the non-space cells form one component containing a center
    let start = map.iter().position(|&b| b == b'o').unwrap();
    let mut seen = vec![false; w * h];
    let mut queue = vec![start];
    seen[start] = true;
    while let Some(q) = queue.pop() {
        let (x, y) = (q % w, q / w);
        let mut push = |nx: usize, ny: usize, queue: &mut Vec<usize>, seen: &mut Vec<bool>| {
            let m = nx + ny * w;
            if map[m] != b' ' && !seen[m] {
                seen[m] = true;
                queue.push(m);
            }
        };
        if x > 0 {
            push(x - 1, y, &mut queue, &mut seen);
        }
        if x < w - 1 {
            push(x + 1, y, &mut queue, &mut seen);
        }
        if y > 0 {
            push(x, y - 1, &mut queue, &mut seen);
        }
        if y < h - 1 {
            push(x, y + 1, &mut queue, &mut seen);
        }
    }
    for m in 0..w * h {
        if map[m] != b' ' {
            assert!(seen[m], "cell {} is disconnected", m);
        }
    }
}

#[test]
fn generation_is_deterministic() {
    let a = WaveStation::new(Some(0x42), Some(20), HALF, HALF, 1, 1, 3, 1000);
    let b = WaveStation::new(Some(0x42), Some(20), HALF, HALF, 1, 1, 3, 1000);
    assert_eq!(a.bubbles.len(), b.bubbles.len());
    assert_eq!((a.width, a.height, a.size), (b.width, b.height, b.size));
    let (_, _, ma) = a.render_bubble_map();
    let (_, _, mb) = b.render_bubble_map();
    assert_eq!(ma, mb);
}
