use wavestation::tiles::{catalog, Dir, TILE_ALL, TILE_COUNT, TILE_FLOOR, TILE_SPACE};

#[test]
fn catalog_has_all_tiles() {
    let tiles = catalog();
    assert_eq!(tiles.len(), TILE_COUNT);
    assert_eq!(TILE_ALL.count_ones() as usize, TILE_COUNT);
    assert_eq!(TILE_SPACE, 1 << 0);
    assert_eq!(TILE_FLOOR, 1 << 5);
}

#[test]
fn space_permits_everything() {
    let tiles = catalog();
    assert_eq!(tiles[0].name, "space");
    assert_eq!(tiles[0].ascii, (b' ', b' '));
    assert_eq!(tiles[0].constraints.dir(Dir::N), u128::MAX);
    assert_eq!(tiles[0].constraints.dir(Dir::E), u128::MAX);
    assert_eq!(tiles[0].constraints.dir(Dir::S), u128::MAX);
    assert_eq!(tiles[0].constraints.dir(Dir::W), u128::MAX);
}

#[test]
fn floor_refuses_space_on_every_side() {
    let tiles = catalog();
    assert_eq!(tiles[5].name, "floor");
    assert_eq!(tiles[5].ascii, (b' ', b' '));
    for d in [Dir::N, Dir::E, Dir::S, Dir::W] {
        assert_eq!(tiles[5].constraints.dir(d) & TILE_SPACE, 0);
        assert_ne!(tiles[5].constraints.dir(d) & TILE_FLOOR, 0);
    }
}

#[test]
fn flip_is_an_involution() {
    for d in [Dir::N, Dir::E, Dir::S, Dir::W] {
        assert_eq!(d.flip().flip(), d);
    }
    assert_eq!(Dir::N.flip(), Dir::S);
    assert_eq!(Dir::E.flip(), Dir::W);
}

#[test]
fn every_glyph_is_printable_ascii() {
    for t in catalog() {
        assert!((0x20..0x7f).contains(&t.ascii.0));
        assert!((0x20..0x7f).contains(&t.ascii.1));
    }
}
