use wavestation::prng::Xorshift64;
use wavestation::station::WaveStation;
use wavestation::tiles::{catalog, Constraints, Dir, Tile, TILE_FLOOR};
use wavestation::wfc::wfc_core;

const HALF: u64 = 1u64 << 63;

fn tile_index(mask: u128) -> Option<usize> {
    if mask != 0 && mask.count_ones() == 1 {
        Some(mask.trailing_zeros() as usize)
    } else {
        None
    }
}

/// Every pair of adjacent collapsed cells must satisfy the catalog's
/// adjacency constraints in both directions.
fn assert_locally_consistent(ws: &WaveStation) {
    let tiles = catalog();
    let (cw, ch) = (ws.cwidth, ws.cheight);
    for y in 0..ch {
        for x in 0..cw {
            let a = match tile_index(ws.cmap[x + y * cw]) {
                Some(t) => t,
                None => continue,
            };
            if x + 1 < cw {
                if let Some(b) = tile_index(ws.cmap[x + 1 + y * cw]) {
                    assert!(
                        tiles[a].constraints.dir(Dir::E) & (1u128 << b) != 0,
                        "tile {} does not permit {} to its east",
                        a,
                        b
                    );
                    assert!(
                        tiles[b].constraints.dir(Dir::W) & (1u128 << a) != 0,
                        "tile {} does not permit {} to its west",
                        b,
                        a
                    );
                }
            }
            if y + 1 < ch {
                if let Some(b) = tile_index(ws.cmap[x + (y + 1) * cw]) {
                    assert!(tiles[a].constraints.dir(Dir::S) & (1u128 << b) != 0);
                    assert!(tiles[b].constraints.dir(Dir::N) & (1u128 << a) != 0);
                }
            }
        }
    }
}

#[test]
fn tiny_station_collapses_consistently() {
    let mut ws = WaveStation::new(Some(0x1), None, HALF, HALF, 1, 1, 3, 1000);
    let success = ws.run(1, true, 1);
    assert!(success);
    assert_eq!(ws.cwidth, ws.width * 3);
    assert_eq!(ws.cheight, ws.height * 3);
    assert_locally_consistent(&ws);
    // every cell resolved: the rendering holds no markers
    let (tw, th, map) = ws.render_tile_map();
    assert_eq!(tw, ws.cwidth * 2);
    assert_eq!(th, ws.cheight);
    assert_eq!(map.len(), ws.cwidth * ws.cheight * 2);
    assert!(!map.contains(&b'!'));
}

#[test]
fn zero_attempts_reports_failure_without_contradictions() {
    let mut ws = WaveStation::new(Some(0x1), None, HALF, HALF, 1, 1, 3, 0);
    let success = ws.run(5, true, 1);
    assert!(!success);
    let (_, _, map) = ws.render_tile_map();
    // the seeded map is rendered as-is: unresolved cells show markers,
    // contradictions cannot occur before the first attempt
    assert!(!map.contains(&b'!'));
    assert!(map.contains(&b'?'));
}

#[test]
fn repeat_runs_are_identical() {
    let mut a = WaveStation::new(Some(0x42), None, HALF, HALF, 1, 1, 3, 1000);
    let mut b = WaveStation::new(Some(0x42), None, HALF, HALF, 1, 1, 3, 1000);
    let ra = a.run(6, true, 1);
    let rb = b.run(6, true, 1);
    assert_eq!(ra, rb);
    let (wa, ha, ma) = a.render_tile_map();
    let (wb, hb, mb) = b.render_tile_map();
    assert_eq!((wa, ha), (wb, hb));
    assert_eq!(ma, mb);
}

#[test]
fn asymmetric_catalog_never_crashes() {
    // a deliberately one-sided rule set: tile 0 accepts tile 1 to the east,
    // but tile 1 refuses tile 0 to its west
    let tiles = vec![
        Tile::new(
            "one-way-a",
            (b'a', b'a'),
            Constraints { n: 0b11, e: 0b10, s: 0b11, w: 0b11 },
        ),
        Tile::new(
            "one-way-b",
            (b'b', b'b'),
            Constraints { n: 0b11, e: 0b11, s: 0b11, w: 0b10 },
        ),
    ];
    let mut cmap: Vec<u128> = vec![0b11; 9];
    let mut prng = Xorshift64(0x77);
    let (done, stats) = wfc_core(&tiles, &mut cmap, 3, 3, &mut prng, 10);
    // either outcome is acceptable; the run must simply finish
    assert!(stats.attempts <= 10);
    let _ = done;
}

#[test]
fn engine_respects_the_seed() {
    // run the same layout once for real and once with a zero budget, which
    // leaves the freshly seeded map behind
    let mut a = WaveStation::new(Some(0x7), None, HALF, HALF, 1, 1, 3, 1000);
    let ok = a.run(3, true, 3);
    let mut b = WaveStation::new(Some(0x7), None, HALF, HALF, 1, 1, 3, 0);
    let _ = b.run(3, true, 3);
    assert_eq!((a.cwidth, a.cheight), (b.cwidth, b.cheight));
    for k in 0..a.cmap.len() {
        // cells only ever lose options relative to what they were seeded with
        assert_eq!(a.cmap[k] & b.cmap[k], a.cmap[k], "cell {} grew beyond its seed", k);
        if ok {
            assert_ne!(a.cmap[k], 0);
            // a cell seeded with a forced floor still holds exactly floor
            if b.cmap[k] == TILE_FLOOR {
                assert_eq!(a.cmap[k], TILE_FLOOR);
            }
        }
    }
}

#[test]
fn stats_count_attempts() {
    let mut ws = WaveStation::new(Some(0x1), None, HALF, HALF, 1, 1, 3, 1000);
    let success = ws.run(1, true, 1);
    assert!(success);
    assert!(ws.wfc_attempts >= 1);
    assert!(ws.wfc_attempts <= 1000);
    assert!(ws.wfc_cycles > 0);
}
