//! Constraint-map seeding and the wave-function-collapse engine.
//!
//! Seeding is the only place domain knowledge enters: bubble interiors and
//! hallway walls admit every tile but space, hallway centerlines are forced
//! to floor, and everything else is forced to space. The engine itself is
//! domain-agnostic: it alternates constraint propagation with collapsing a
//! random lowest-entropy cell, and restarts from the seeded snapshot on
//! contradiction, up to a bounded attempt count.

use crate::bits::{
    lemma_and_subset, lemma_bit_clear, lemma_bit_or, lemma_popcount_le_128, lemma_popcount_one,
    lemma_popcount_single, lemma_popcount_subset, lemma_popcount_zero, lemma_single_subset,
    lemma_subset_antisym, lemma_subset_bit, lemma_subset_refl, lemma_subset_trans,
    lemma_sum_popcount_update,
    popcount, select_bit, spec_popcount, sum_popcount,
};
use crate::cset::ConstraintSet;
use crate::prng::Xorshift64;
use crate::station::{
    distsq, spec_distsq, spec_sq, sq, Bubble, WaveStation, RADIUS_LIMIT, SCALE_LIMIT, WIDTH_LIMIT,
};
use crate::tiles::{catalog, Constraints, Dir, Tile, TILE_ALL, TILE_FLOOR, TILE_SPACE};
use vstd::prelude::*;

verus! {

/// Every bubble lies in the supported coordinate range and every parent
/// reference points at an earlier bubble.
pub open spec fn layout_ok(bs: Seq<Bubble>) -> bool {
    forall|i: int|
        0 <= i < bs.len() ==> {
            let b = #[trigger] bs[i];
            &&& 0 <= b.x <= WIDTH_LIMIT
            &&& 0 <= b.y <= WIDTH_LIMIT
            &&& b.r <= RADIUS_LIMIT
            &&& match b.parent {
                Option::Some(p) => 0 <= p < i,
                Option::None => true,
            }
        }
}

/// Cell `(x, y)` lies within bubble `i`, in scaled coordinates.
pub open spec fn bubble_covers(bs: Seq<Bubble>, i: int, scale: int, x: int, y: int) -> bool {
    spec_distsq(x, y, bs[i].x * scale, bs[i].y * scale) <= spec_sq(bs[i].r * scale)
}

/// Cell `(x, y)` lies within some bubble.
pub open spec fn in_bubble(bs: Seq<Bubble>, scale: int, x: int, y: int) -> bool {
    exists|i: int| 0 <= i < bs.len() && #[trigger] bubble_covers(bs, i, scale, x, y)
}

/// `v` lies between `a` and `b` inclusive, in either order.
pub open spec fn between(a: int, b: int, v: int) -> bool {
    (a <= v <= b) || (b <= v <= a)
}

/// Cell `(x, y)` lies on the centerline of the hallway from bubble `i` to its
/// parent: the horizontal leg at the bubble's row, or the vertical leg at the
/// bubble's column.
pub open spec fn hall_center_at(bs: Seq<Bubble>, i: int, scale: int, x: int, y: int) -> bool {
    match bs[i].parent {
        Option::Some(p) => {
            let ax = bs[i].x * scale;
            let ay = bs[i].y * scale;
            let bx = bs[p as int].x * scale;
            let by = bs[p as int].y * scale;
            (y == ay && between(ax, bx, x)) || (x == ax && between(ay, by, y))
        },
        Option::None => false,
    }
}

/// Cell `(x, y)` lies on some hallway centerline.
pub open spec fn on_hall_center(bs: Seq<Bubble>, scale: int, x: int, y: int) -> bool {
    exists|i: int| 0 <= i < bs.len() && #[trigger] hall_center_at(bs, i, scale, x, y)
}

/// Cell `(x, y)` lies within the hallway from bubble `i` to its parent,
/// thickened on both sides of each leg by half the scale.
pub open spec fn hall_band_at(bs: Seq<Bubble>, i: int, scale: int, x: int, y: int) -> bool {
    match bs[i].parent {
        Option::Some(p) => {
            let ax = bs[i].x * scale;
            let ay = bs[i].y * scale;
            let bx = bs[p as int].x * scale;
            let by = bs[p as int].y * scale;
            let h = (scale + 1) / 2;
            (between(ax, bx, x) && ay - h < y < ay + h) || (between(ay, by, y) && ax - h < x < ax
                + h)
        },
        Option::None => false,
    }
}

/// Cell `(x, y)` lies within some thickened hallway.
pub open spec fn in_hall_band(bs: Seq<Bubble>, scale: int, x: int, y: int) -> bool {
    exists|i: int| 0 <= i < bs.len() && #[trigger] hall_band_at(bs, i, scale, x, y)
}

/// The mask a freshly seeded cell holds: floor on hallway centerlines,
/// everything but space inside bubbles and hallway walls, and space
/// elsewhere.
pub open spec fn seeded_cell(bs: Seq<Bubble>, scale: int, x: int, y: int) -> u128 {
    if on_hall_center(bs, scale, x, y) {
        TILE_FLOOR
    } else if in_bubble(bs, scale, x, y) || in_hall_band(bs, scale, x, y) {
        TILE_ALL & !TILE_SPACE
    } else {
        TILE_SPACE
    }
}

/// The three values a seeded cell can hold are non-empty subsets of the
/// catalog mask.
proof fn lemma_seed_masks()
    ensures
        TILE_FLOOR & TILE_ALL == TILE_FLOOR,
        (TILE_ALL & !TILE_SPACE) & TILE_ALL == TILE_ALL & !TILE_SPACE,
        TILE_SPACE & TILE_ALL == TILE_SPACE,
        TILE_FLOOR != 0,
        TILE_ALL & !TILE_SPACE != 0,
        TILE_SPACE != 0,
{
    assert(TILE_FLOOR & TILE_ALL == TILE_FLOOR && (TILE_ALL & !TILE_SPACE) & TILE_ALL == TILE_ALL
        & !TILE_SPACE && TILE_SPACE & TILE_ALL == TILE_SPACE && TILE_FLOOR != 0 && TILE_ALL
        & !TILE_SPACE != 0 && TILE_SPACE != 0) by (bit_vector);
}

/// Cells in row-major order: an earlier cell has a smaller index.
proof fn lemma_row_major(cw: int, x: int, y: int, xx: int, yy: int)
    requires
        0 <= xx < cw,
        0 <= yy,
        0 <= x <= cw,
        yy < y || (yy == y && xx < x),
    ensures
        0 <= xx + yy * cw < y * cw + x,
{
    assert(0 <= xx + yy * cw < y * cw + x) by (nonlinear_arith)
        requires
            0 <= xx < cw,
            0 <= yy,
            0 <= x <= cw,
            yy < y || (yy == y && xx < x),
    ;
}

/// Distinct cells have distinct row-major indices.
proof fn lemma_rm_inj(cw: int, x1: int, y1: int, x2: int, y2: int)
    requires
        0 <= x1 < cw,
        0 <= x2 < cw,
        0 <= y1,
        0 <= y2,
        x1 != x2 || y1 != y2,
    ensures
        x1 + y1 * cw != x2 + y2 * cw,
{
    assert(x1 + y1 * cw != x2 + y2 * cw) by (nonlinear_arith)
        requires
            0 <= x1 < cw,
            0 <= x2 < cw,
            0 <= y1,
            0 <= y2,
            x1 != x2 || y1 != y2,
    ;
}

/// Scale a coordinate by the tile scale.
fn scale_coord(v: i64, scale: usize) -> (r: i64)
    requires
        0 <= v <= WIDTH_LIMIT,
        1 <= scale <= SCALE_LIMIT,
    ensures
        r == v as int * scale as int,
        0 <= r <= 0x40_0000_0100,
{
    proof {
        assert(0 <= v * (scale as i64) <= 0x40_0000_0100_i64) by (nonlinear_arith)
            requires
                0 <= v <= 0x4000_0001_i64,
                1 <= scale as i64 <= 0x100_i64,
        ;
    }
    v * (scale as i64)
}

/// Scale a radius by the tile scale.
fn scale_radius(r: usize, scale: usize) -> (s: usize)
    requires
        r <= RADIUS_LIMIT,
        1 <= scale <= SCALE_LIMIT,
    ensures
        s == r as int * scale as int,
        s <= 0x200_0000,
{
    proof {
        assert(0 <= r * scale <= 0x200_0000usize) by (nonlinear_arith)
            requires
                r <= 0x2_0000usize,
                1 <= scale <= 0x100usize,
        ;
    }
    r * scale
}

/// Whether `v` lies between `a` and `b` inclusive, in either order.
fn betw(a: i64, b: i64, v: i64) -> (r: bool)
    ensures
        r == between(a as int, b as int, v as int),
{
    (a <= v && v <= b) || (b <= v && v <= a)
}

/// Whether cell `(x, y)` lies within some bubble.
#[verifier::loop_isolation(false)]
fn cell_in_bubble(bubbles: &Vec<Bubble>, scale: usize, x: i64, y: i64) -> (r: bool)
    requires
        layout_ok(bubbles@),
        1 <= scale <= SCALE_LIMIT,
        0 <= x <= 0xffff_ffff,
        0 <= y <= 0xffff_ffff,
    ensures
        r == in_bubble(bubbles@, scale as int, x as int, y as int),
{
    let n = bubbles.len();
    let mut i: usize = 0;
    let mut found = false;
    while i < n && !found
        invariant
            i <= n,
            found ==> in_bubble(bubbles@, scale as int, x as int, y as int),
            !found ==> forall|j: int|
                0 <= j < i ==> !#[trigger] bubble_covers(bubbles@, j, scale as int, x as int, y as int),
        decreases n - i,
    {
        let b = bubbles[i];
        let bx = scale_coord(b.x, scale);
        let by = scale_coord(b.y, scale);
        let br = scale_radius(b.r, scale);
        if distsq(x, y, bx, by) <= sq(br) {
            proof {
                assert(bubble_covers(bubbles@, i as int, scale as int, x as int, y as int));
            }
            found = true;
        }
        i = i + 1;
    }
    found
}

/// Whether cell `(x, y)` lies on some hallway centerline.
#[verifier::loop_isolation(false)]
fn cell_on_center(bubbles: &Vec<Bubble>, scale: usize, x: i64, y: i64) -> (r: bool)
    requires
        layout_ok(bubbles@),
        1 <= scale <= SCALE_LIMIT,
        0 <= x <= 0xffff_ffff,
        0 <= y <= 0xffff_ffff,
    ensures
        r == on_hall_center(bubbles@, scale as int, x as int, y as int),
{
    let n = bubbles.len();
    let mut i: usize = 0;
    let mut found = false;
    while i < n && !found
        invariant
            i <= n,
            found ==> on_hall_center(bubbles@, scale as int, x as int, y as int),
            !found ==> forall|j: int|
                0 <= j < i ==> !#[trigger] hall_center_at(bubbles@, j, scale as int, x as int, y as int),
        decreases n - i,
    {
        let b = bubbles[i];
        match b.parent {
            Option::Some(p) => {
                let pb = bubbles[p];
                let ax = scale_coord(b.x, scale);
                let ay = scale_coord(b.y, scale);
                let bx = scale_coord(pb.x, scale);
                let by = scale_coord(pb.y, scale);
                if (y == ay && betw(ax, bx, x)) || (x == ax && betw(ay, by, y)) {
                    proof {
                        assert(hall_center_at(bubbles@, i as int, scale as int, x as int, y as int));
                    }
                    found = true;
                }
            },
            Option::None => {},
        }
        i = i + 1;
    }
    found
}

/// Whether cell `(x, y)` lies within some thickened hallway.
#[verifier::loop_isolation(false)]
fn cell_in_band(bubbles: &Vec<Bubble>, scale: usize, x: i64, y: i64) -> (r: bool)
    requires
        layout_ok(bubbles@),
        1 <= scale <= SCALE_LIMIT,
        0 <= x <= 0xffff_ffff,
        0 <= y <= 0xffff_ffff,
    ensures
        r == in_hall_band(bubbles@, scale as int, x as int, y as int),
{
    let n = bubbles.len();
    let mut i: usize = 0;
    let mut found = false;
    while i < n && !found
        invariant
            i <= n,
            found ==> in_hall_band(bubbles@, scale as int, x as int, y as int),
            !found ==> forall|j: int|
                0 <= j < i ==> !#[trigger] hall_band_at(bubbles@, j, scale as int, x as int, y as int),
        decreases n - i,
    {
        let b = bubbles[i];
        match b.parent {
            Option::Some(p) => {
                let pb = bubbles[p];
                let ax = scale_coord(b.x, scale);
                let ay = scale_coord(b.y, scale);
                let bx = scale_coord(pb.x, scale);
                let by = scale_coord(pb.y, scale);
                let h = ((scale + 1) / 2) as i64;
                if (betw(ax, bx, x) && ay - h < y && y < ay + h) || (betw(ay, by, y) && ax - h < x
                    && x < ax + h) {
                    proof {
                        assert(hall_band_at(bubbles@, i as int, scale as int, x as int, y as int));
                    }
                    found = true;
                }
            },
            Option::None => {},
        }
        i = i + 1;
    }
    found
}


/// The per-side constraint masks of a tile list.
pub open spec fn cons_of(ts: Seq<Tile>) -> Seq<Constraints> {
    Seq::new(ts.len(), |i: int| ts[i].constraints)
}

/// The set of tiles that at least one tile of the neighbor mask `cn` permits
/// on side `d`, considering the first `n` tiles.
pub open spec fn allowed_union(cons: Seq<Constraints>, cn: u128, d: Dir, n: int) -> u128
    decreases n,
{
    if n <= 0 {
        0
    } else if cn & (1u128 << ((n - 1) as u32)) != 0 {
        allowed_union(cons, cn, d, n - 1) | cons[n - 1].spec_dir(d)
    } else {
        allowed_union(cons, cn, d, n - 1)
    }
}

/// A cell mask `c` is in accord with the neighbor mask `cn` on side `d`:
/// every tile of `c` is permitted by some tile of `cn`, and every tile of `c`
/// permits some tile of `cn`.
pub open spec fn dir_ok(cons: Seq<Constraints>, c: u128, cn: u128, d: Dir) -> bool {
    &&& c & allowed_union(cons, cn, d.spec_flip(), cons.len() as int) == c
    &&& forall|t: u32|
        t < cons.len() && c & (1u128 << t) != 0 ==> #[trigger] cons[t as int].spec_dir(d) & cn != 0
}

/// A cell is stable: re-deriving its mask from its in-bounds neighbors would
/// not change it.
pub open spec fn cell_stable(
    cons: Seq<Constraints>,
    cmap: Seq<u128>,
    cw: int,
    ch: int,
    x: int,
    y: int,
) -> bool {
    let c = cmap[x + y * cw];
    &&& (x > 0 ==> dir_ok(cons, c, cmap[(x - 1) + y * cw], Dir::W))
    &&& (y > 0 ==> dir_ok(cons, c, cmap[x + (y - 1) * cw], Dir::N))
    &&& (x < cw - 1 ==> dir_ok(cons, c, cmap[(x + 1) + y * cw], Dir::E))
    &&& (y < ch - 1 ==> dir_ok(cons, c, cmap[x + (y + 1) * cw], Dir::S))
}

/// Accord with a neighbor survives shrinking the cell mask.
proof fn lemma_dir_ok_subset(cons: Seq<Constraints>, c2: u128, c: u128, cn: u128, d: Dir)
    requires
        cons.len() <= 128,
        c2 & c == c2,
        dir_ok(cons, c, cn, d),
    ensures
        dir_ok(cons, c2, cn, d),
{
    lemma_subset_trans(c2, c, allowed_union(cons, cn, d.spec_flip(), cons.len() as int));
    assert forall|t: u32|
        t < cons.len() && c2 & (1u128 << t) != 0 implies #[trigger] cons[t as int].spec_dir(d) & cn
        != 0 by {
        lemma_subset_bit(c2, c, t);
    }
}

/// Union over the tiles of the neighbor mask `cn` of what each permits on
/// side `fd`.
#[verifier::loop_isolation(false)]
fn union_allowed(tiles: &Vec<Tile>, cn: u128, fd: Dir) -> (m: u128)
    requires
        tiles@.len() <= 128,
    ensures
        m == allowed_union(cons_of(tiles@), cn, fd, tiles@.len() as int),
{
    let n = tiles.len();
    let mut m: u128 = 0;
    let mut i: usize = 0;
    while i < n
        invariant
            i <= n,
            m == allowed_union(cons_of(tiles@), cn, fd, i as int),
        decreases n - i,
    {
        if cn & (1u128 << (i as u32)) != 0 {
            m = m | tiles[i].constraints.dir(fd);
        }
        i = i + 1;
    }
    m
}

/// Constrain the cell mask `c` against one neighbor mask `cn` on side `d`:
/// drop tiles no neighbor tile permits, then drop tiles that permit no
/// neighbor tile. The result is unchanged exactly when `c` was already in
/// accord with the neighbor.
#[verifier::loop_isolation(false)]
fn apply_dir(tiles: &Vec<Tile>, c: u128, cn: u128, d: Dir) -> (r: u128)
    requires
        tiles@.len() <= 128,
    ensures
        r & c == r,
        dir_ok(cons_of(tiles@), r, cn, d),
        (r == c) <==> dir_ok(cons_of(tiles@), c, cn, d),
{
    let ghost cons = cons_of(tiles@);
    let n = tiles.len();
    let fd = d.flip();
    let mask = union_allowed(tiles, cn, fd);
    let c1 = c & mask;
    proof {
        lemma_and_subset(c, mask);
    }
    let mut c2 = c1;
    proof {
        lemma_subset_refl(c1);
    }
    let mut i: usize = 0;
    while i < n
        invariant
            i <= n,
            c2 & c1 == c2,
            forall|t: u32| #![trigger 1u128 << t]
                i <= t < 128 ==> ((c2 & (1u128 << t) != 0) == (c1 & (1u128 << t) != 0)),
            forall|t: u32| #![trigger 1u128 << t]
                t < i && t < n ==> ((c2 & (1u128 << t) != 0) == (c1 & (1u128 << t) != 0 && cons[
                    t as int
                ].spec_dir(d) & cn != 0)),
            dir_ok(cons, c, cn, d) ==> c2 == c,
        decreases n - i,
    {
        let bit_set = c2 & (1u128 << (i as u32)) != 0;
        let rd = tiles[i].constraints.dir(d);
        proof {
            assert(cons[i as int] == tiles@[i as int].constraints);
        }
        let ghost c2_prev = c2;
        if bit_set && rd & cn == 0 {
            proof {
                if dir_ok(cons, c, cn, d) {
                    assert(c2 == c);
                    assert(cons[i as int].spec_dir(d) & cn != 0);
                    assert(false);
                }
            }
            c2 = c2 & !(1u128 << (i as u32));
        }
        proof {
            if bit_set && rd & cn == 0 {
                lemma_bit_clear(c2_prev, i as u32, i as u32);
                assert forall|t: u32| t < 128 implies ((c2 & (1u128 << t) != 0) == (c2_prev & (
                1u128 << t) != 0 && t != i)) by {
                    lemma_bit_clear(c2_prev, i as u32, t);
                }
                lemma_subset_trans(c2, c2_prev, c1);
            } else {
                assert(c2 == c2_prev);
            }
            assert forall|t: u32| #![trigger 1u128 << t]
                t < i + 1 && t < n implies ((c2 & (1u128 << t) != 0) == (c1 & (1u128 << t) != 0
                && cons[t as int].spec_dir(d) & cn != 0)) by {
                if t < i {
                    assert((c2 & (1u128 << t) != 0) == (c2_prev & (1u128 << t) != 0));
                    assert((c2_prev & (1u128 << t) != 0) == (c1 & (1u128 << t) != 0 && cons[
                        t as int
                    ].spec_dir(d) & cn != 0));
                } else {
                    assert(t == i as u32);
                    assert((c2_prev & (1u128 << t) != 0) == (c1 & (1u128 << t) != 0));
                    if bit_set && rd & cn == 0 {
                        assert((c2 & (1u128 << t) != 0) == false);
                        assert(cons[t as int].spec_dir(d) & cn == 0);
                    } else {
                        assert(c2 == c2_prev);
                        if bit_set {
                            assert(cons[t as int].spec_dir(d) & cn != 0);
                        } else {
                            assert((c2 & (1u128 << t) != 0) == false);
                        }
                    }
                }
            }
            assert forall|t: u32| #![trigger 1u128 << t]
                i + 1 <= t < 128 implies ((c2 & (1u128 << t) != 0) == (c1 & (1u128 << t)
                != 0)) by {
                assert((c2 & (1u128 << t) != 0) == (c2_prev & (1u128 << t) != 0));
            }
        }
        i = i + 1;
    }
    proof {
        lemma_subset_trans(c2, c1, c);
        lemma_subset_trans(c2, c1, mask);
        assert forall|t: u32|
            t < cons.len() && c2 & (1u128 << t) != 0 implies #[trigger] cons[t as int].spec_dir(d)
            & cn != 0 by {
            assert((c2 & (1u128 << t) != 0) == (c1 & (1u128 << t) != 0 && cons[t as int].spec_dir(
                d,
            ) & cn != 0));
        }
        assert(dir_ok(cons, c2, cn, d));
        if c2 == c {
            lemma_subset_trans(c, c1, mask);
            assert forall|t: u32|
                t < cons.len() && c & (1u128 << t) != 0 implies #[trigger] cons[t as int].spec_dir(
                d,
            ) & cn != 0 by {
                assert((c & (1u128 << t) != 0) == (c1 & (1u128 << t) != 0 && cons[t as int].spec_dir(
                    d,
                ) & cn != 0));
            }
            assert(dir_ok(cons, c, cn, d));
        }
    }
    c2
}

/// Row-major cell indexing stays within the map and distributes over the
/// neighbor offsets.
proof fn lemma_cell_index(cw: int, ch: int, x: int, y: int)
    requires
        0 <= x < cw,
        0 <= y < ch,
    ensures
        0 <= x + y * cw < cw * ch,
        y > 0 ==> x + (y - 1) * cw == x + y * cw - cw && 0 <= x + (y - 1) * cw,
        y < ch - 1 ==> x + (y + 1) * cw == x + y * cw + cw && x + (y + 1) * cw < cw * ch,
        x > 0 ==> 0 <= (x - 1) + y * cw,
        x < cw - 1 ==> (x + 1) + y * cw < cw * ch,
{
    assert((0 <= x + y * cw < cw * ch) && (y > 0 ==> x + (y - 1) * cw == x + y * cw - cw && 0 <= x
        + (y - 1) * cw) && (y < ch - 1 ==> x + (y + 1) * cw == x + y * cw + cw && x + (y + 1) * cw
        < cw * ch) && (x > 0 ==> 0 <= (x - 1) + y * cw) && (x < cw - 1 ==> (x + 1) + y * cw < cw
        * ch)) by (nonlinear_arith)
        requires
            0 <= x < cw,
            0 <= y < ch,
    ;
}

/// Re-derive the mask of cell `(x, y)` from its in-bounds neighbors. The
/// result is a subset of the current mask, the cell is stable once the result
/// is written back, and the result equals the current mask exactly when the
/// cell is already stable.
#[verifier::loop_isolation(false)]
fn constrain_cell(
    tiles: &Vec<Tile>,
    cmap: &Vec<u128>,
    cw: usize,
    ch: usize,
    x: usize,
    y: usize,
) -> (r: u128)
    requires
        tiles@.len() <= 128,
        cmap@.len() == cw * ch,
        x < cw,
        y < ch,
    ensures
        r & cmap@[x + y * cw] == r,
        cell_stable(
            cons_of(tiles@),
            cmap@.update(x as int + y as int * cw as int, r),
            cw as int,
            ch as int,
            x as int,
            y as int,
        ),
        (r == cmap@[x + y * cw]) <==> cell_stable(
            cons_of(tiles@),
            cmap@,
            cw as int,
            ch as int,
            x as int,
            y as int,
        ),
{
    // the map's length, as a machine word, bounds the index arithmetic below
    let len = cmap.len();
    proof {
        assert(len == cw * ch);
        lemma_cell_index(cw as int, ch as int, x as int, y as int);
    }
    let ghost cons = cons_of(tiles@);
    let idx = x + y * cw;
    let c0 = cmap[idx];
    let mut c = c0;
    if x > 0 {
        c = apply_dir(tiles, c, cmap[idx - 1], Dir::W);
    }
    let ghost c_w = c;
    if y > 0 {
        c = apply_dir(tiles, c, cmap[idx - cw], Dir::N);
    }
    let ghost c_n = c;
    if x < cw - 1 {
        c = apply_dir(tiles, c, cmap[idx + 1], Dir::E);
    }
    let ghost c_e = c;
    if y < ch - 1 {
        c = apply_dir(tiles, c, cmap[idx + cw], Dir::S);
    }
    proof {
        let gi = x as int + y as int * cw as int;
        let m2 = cmap@.update(gi, c);
        // the write leaves every neighbor mask unchanged
        assert(m2[gi] == c);
        lemma_subset_refl(c);
        lemma_subset_refl(c_w);
        lemma_subset_refl(c_n);
        lemma_subset_refl(c_e);
        lemma_subset_refl(c0);
        lemma_subset_trans(c, c_e, c_n);
        lemma_subset_trans(c, c_n, c_w);
        lemma_subset_trans(c, c_w, c0);
        // the written cell is in accord with each in-bounds neighbor
        if x > 0 {
            lemma_dir_ok_subset(cons, c, c_w, cmap@[gi - 1], Dir::W);
        }
        if y > 0 {
            lemma_subset_trans(c, c_n, c_n);
            lemma_dir_ok_subset(cons, c, c_n, cmap@[gi - cw], Dir::N);
        }
        if x < cw - 1 {
            lemma_dir_ok_subset(cons, c, c_e, cmap@[gi + 1], Dir::E);
        }
        assert(cell_stable(cons, m2, cw as int, ch as int, x as int, y as int));
        // unchanged exactly when already stable
        if c == c0 {
            assert(c & c_w == c && c_w & c0 == c_w);
            lemma_subset_antisym(c_w, c0);
            assert(c & c_n == c && c_n & c_w == c_n);
            lemma_subset_antisym(c_n, c_w);
            assert(c_e & c_n == c_e);
            lemma_subset_antisym(c_e, c_n);
            lemma_subset_antisym(c, c_e);
            assert(cell_stable(cons, cmap@, cw as int, ch as int, x as int, y as int));
        }
        if cell_stable(cons, cmap@, cw as int, ch as int, x as int, y as int) {
            assert(c == c0);
        }
    }
    c
}


/// Diagnostic counters of one engine run.
#[derive(Debug, Clone, Copy, PartialEq, Eq, Structural)]
pub struct WfcStats {
    /// Attempts started.
    pub attempts: u64,
    /// Inner-loop iterations run.
    pub cycles: u64,
    /// Cell propagations performed.
    pub propagations: u64,
}

/// Saturating counter increment.
fn bump(x: u64) -> (r: u64)
    ensures
        r == (if x < u64::MAX {
            x + 1
        } else {
            x as int
        }),
{
    if x < u64::MAX {
        x + 1
    } else {
        x
    }
}

/// Copy a vector of plain values.
fn copy_vec<T: Copy>(v: &Vec<T>) -> (r: Vec<T>)
    ensures
        r@ == v@,
{
    let mut r: Vec<T> = Vec::new();
    let mut i: usize = 0;
    while i < v.len()
        invariant
            i <= v@.len(),
            r@ == v@.subrange(0, i as int),
        decreases v@.len() - i,
    {
        proof {
            assert(v@.subrange(0, i as int).push(v@[i as int]) =~= v@.subrange(0, i as int + 1));
        }
        r.push(v[i]);
        i = i + 1;
    }
    proof {
        assert(v@.subrange(0, v@.len() as int) =~= v@);
    }
    r
}

/// Push every in-bounds neighbor of `(x, y)` onto the propagation stack.
fn push_neighbors(propagating: &mut Vec<(usize, usize)>, x: usize, y: usize, cw: usize, ch: usize)
    requires
        x < cw,
        y < ch,
        forall|m: int|
            0 <= m < old(propagating)@.len() ==> (#[trigger] old(propagating)@[m]).0 < cw && old(
                propagating,
            )@[m].1 < ch,
    ensures
        forall|m: int|
            0 <= m < final(propagating)@.len() ==> (#[trigger] final(propagating)@[m]).0 < cw
                && final(propagating)@[m].1 < ch,
        forall|p: (usize, usize)|
            old(propagating)@.contains(p) ==> #[trigger] final(propagating)@.contains(p),
        x > 0 ==> final(propagating)@.contains((((x - 1) as usize), y)),
        y > 0 ==> final(propagating)@.contains((x, ((y - 1) as usize))),
        x < cw - 1 ==> final(propagating)@.contains((((x + 1) as usize), y)),
        y < ch - 1 ==> final(propagating)@.contains((x, ((y + 1) as usize))),
{
    let ghost s0 = propagating@;
    if x > 0 {
        propagating.push((x - 1, y));
    }
    let ghost s1 = propagating@;
    if y > 0 {
        propagating.push((x, y - 1));
    }
    let ghost s2 = propagating@;
    if x < cw - 1 {
        propagating.push((x + 1, y));
    }
    let ghost s3 = propagating@;
    if y < ch - 1 {
        propagating.push((x, y + 1));
    }
    proof {
        let s4 = propagating@;
        assert forall|p: (usize, usize)| s0.contains(p) implies #[trigger] s1.contains(p) by {
            let k = choose|k: int| 0 <= k < s0.len() && s0[k] == p;
            assert(s1[k] == p);
        }
        assert forall|p: (usize, usize)| s1.contains(p) implies #[trigger] s2.contains(p) by {
            let k = choose|k: int| 0 <= k < s1.len() && s1[k] == p;
            assert(s2[k] == p);
        }
        assert forall|p: (usize, usize)| s2.contains(p) implies #[trigger] s3.contains(p) by {
            let k = choose|k: int| 0 <= k < s2.len() && s2[k] == p;
            assert(s3[k] == p);
        }
        assert forall|p: (usize, usize)| s3.contains(p) implies #[trigger] s4.contains(p) by {
            let k = choose|k: int| 0 <= k < s3.len() && s3[k] == p;
            assert(s4[k] == p);
        }
        if x > 0 {
            assert(s1[s1.len() - 1] == (((x - 1) as usize), y));
            assert(s1.contains((((x - 1) as usize), y)));
        }
        if y > 0 {
            assert(s2[s2.len() - 1] == (x, ((y - 1) as usize)));
            assert(s2.contains((x, ((y - 1) as usize))));
        }
        if x < cw - 1 {
            assert(s3[s3.len() - 1] == (((x + 1) as usize), y));
            assert(s3.contains((((x + 1) as usize), y)));
        }
        if y < ch - 1 {
            assert(s4[s4.len() - 1] == (x, ((y + 1) as usize)));
            assert(s4.contains((x, ((y + 1) as usize))));
        }
    }
}

/// Stability of a cell is unaffected by a write to a cell that is neither it
/// nor one of its neighbors.
proof fn lemma_stability_frame(
    cons: Seq<Constraints>,
    m1: Seq<u128>,
    v: u128,
    cw: int,
    ch: int,
    x: int,
    y: int,
    x2: int,
    y2: int,
)
    requires
        0 <= x < cw,
        0 <= y < ch,
        0 <= x2 < cw,
        0 <= y2 < ch,
        m1.len() == cw * ch,
        !(x2 == x && y2 == y),
        !(x2 == x - 1 && y2 == y),
        !(x2 == x + 1 && y2 == y),
        !(x2 == x && y2 == y - 1),
        !(x2 == x && y2 == y + 1),
        cell_stable(cons, m1, cw, ch, x2, y2),
    ensures
        cell_stable(cons, m1.update(x + y * cw, v), cw, ch, x2, y2),
{
    let gi = x + y * cw;
    let m2 = m1.update(gi, v);
    lemma_cell_index(cw, ch, x, y);
    lemma_cell_index(cw, ch, x2, y2);
    lemma_rm_inj(cw, x2, y2, x, y);
    assert(m2[x2 + y2 * cw] == m1[x2 + y2 * cw]);
    if x2 > 0 {
        lemma_rm_inj(cw, x2 - 1, y2, x, y);
        assert(m2[(x2 - 1) + y2 * cw] == m1[(x2 - 1) + y2 * cw]);
    }
    if y2 > 0 {
        lemma_rm_inj(cw, x2, y2 - 1, x, y);
        assert(m2[x2 + (y2 - 1) * cw] == m1[x2 + (y2 - 1) * cw]);
    }
    if x2 < cw - 1 {
        lemma_rm_inj(cw, x2 + 1, y2, x, y);
        assert(m2[(x2 + 1) + y2 * cw] == m1[(x2 + 1) + y2 * cw]);
    }
    if y2 < ch - 1 {
        lemma_rm_inj(cw, x2, y2 + 1, x, y);
        assert(m2[x2 + (y2 + 1) * cw] == m1[x2 + (y2 + 1) * cw]);
    }
}

/// Collapse the constraint map: repeatedly propagate the adjacency
/// constraints to a fixed point, then commit a random lowest-entropy cell to
/// a random one of its remaining tiles; restart from the given map on
/// contradiction, at most `attempts` times.
///
/// Every cell only ever shrinks within an attempt, so the result is always a
/// subset of the given map cell by cell. On success no cell is empty, and
/// every cell the run ever touched is stable against its neighbors; cells
/// that start with at most one tile and are never touched carry no claim.
#[verifier::loop_isolation(false)]
#[verifier::rlimit(100)]
pub fn wfc_core(
    tiles: &Vec<Tile>,
    cmap: &mut Vec<u128>,
    cwidth: usize,
    cheight: usize,
    prng: &mut Xorshift64,
    attempts: u64,
) -> (r: (bool, WfcStats))
    requires
        tiles@.len() <= 128,
        old(cmap)@.len() == cwidth * cheight,
        1 <= cwidth <= 0xffff_ffff,
        1 <= cheight <= 0xffff_ffff,
        forall|k: int| 0 <= k < old(cmap)@.len() ==> old(cmap)@[k] != 0,
    ensures
        final(cmap)@.len() == old(cmap)@.len(),
        forall|k: int|
            0 <= k < final(cmap)@.len() ==> (#[trigger] final(cmap)@[k]) & old(cmap)@[k]
                == final(cmap)@[k],
        r.0 ==> forall|k: int| 0 <= k < final(cmap)@.len() ==> (#[trigger] final(cmap)@[k]) != 0,
        r.0 ==> forall|x: int, y: int|
            0 <= x < cwidth && 0 <= y < cheight ==> #[trigger] cell_stable(
                cons_of(tiles@),
                final(cmap)@,
                cwidth as int,
                cheight as int,
                x,
                y,
            ) || (final(cmap)@[x + y * cwidth] == old(cmap)@[x + y * cwidth] && spec_popcount(
                old(cmap)@[x + y * cwidth],
            ) <= 1),
        attempts == 0 ==> !r.0 && final(cmap)@ == old(cmap)@,
        attempts == 0 ==> *final(prng) == *old(prng),
        !r.0 && attempts > 0 ==> exists|k: int|
            0 <= k < final(cmap)@.len() && final(cmap)@[k] == 0,
        !r.0 ==> r.1.attempts == attempts,
        r.1.attempts <= attempts,
{
    let ghost init = old(cmap)@;
    let ghost cons = cons_of(tiles@);
    // the map's length, as a machine word, bounds the index arithmetic below
    let n_cells = cmap.len();
    proof {
        assert(n_cells == cwidth * cheight);
    }
    let init_cmap = copy_vec(cmap);
    // cells that start unresolved, in row-major order
    let mut init_unresolved: Vec<(usize, usize)> = Vec::new();
    let mut y0: usize = 0;
    while y0 < cheight
        invariant
            y0 <= cheight,
            forall|m: int|
                0 <= m < init_unresolved@.len() ==> (#[trigger] init_unresolved@[m]).0 < cwidth
                    && init_unresolved@[m].1 < cheight,
            forall|x: int, y: int|
                0 <= x < cwidth && 0 <= y < y0 && spec_popcount(init[x + y * cwidth]) > 1
                    ==> #[trigger] init_unresolved@.contains(((x as usize), (y as usize))),
        decreases cheight - y0,
    {
        let mut x0: usize = 0;
        while x0 < cwidth
            invariant
                x0 <= cwidth,
                y0 < cheight,
                forall|m: int|
                    0 <= m < init_unresolved@.len() ==> (#[trigger] init_unresolved@[m]).0 < cwidth
                        && init_unresolved@[m].1 < cheight,
                forall|x: int, y: int|
                    0 <= x < cwidth && 0 <= y < y0 && spec_popcount(init[x + y * cwidth]) > 1
                        ==> #[trigger] init_unresolved@.contains(((x as usize), (y as usize))),
                forall|x: int|
                    0 <= x < x0 && spec_popcount(init[x + y0 * cwidth]) > 1
                        ==> #[trigger] init_unresolved@.contains(((x as usize), (y0 as usize))),
            decreases cwidth - x0,
        {
            proof {
                lemma_cell_index(cwidth as int, cheight as int, x0 as int, y0 as int);
            }
            let ghost prev = init_unresolved@;
            if popcount(cmap[x0 + y0 * cwidth]) > 1 {
                init_unresolved.push((x0, y0));
            }
            proof {
                if spec_popcount(init[x0 + y0 * cwidth]) > 1 {
                    assert(init_unresolved@[init_unresolved@.len() - 1] == (x0, y0));
                    assert(init_unresolved@.contains((x0, y0)));
                }
                assert forall|x: int, y: int|
                    0 <= x < cwidth && 0 <= y < y0 && spec_popcount(init[x + y * cwidth]) > 1
                        implies #[trigger] init_unresolved@.contains(
                    ((x as usize), (y as usize)),
                ) by {
                    assert(prev.contains(((x as usize), (y as usize))));
                    let k = choose|k: int|
                        0 <= k < prev.len() && prev[k] == ((x as usize), (y as usize));
                    assert(init_unresolved@[k] == ((x as usize), (y as usize)));
                }
                assert forall|x: int|
                    0 <= x < x0 + 1 && spec_popcount(init[x + y0 * cwidth]) > 1
                        implies #[trigger] init_unresolved@.contains(
                    ((x as usize), (y0 as usize)),
                ) by {
                    if x < x0 {
                        assert(prev.contains(((x as usize), (y0 as usize))));
                        let k = choose|k: int|
                            0 <= k < prev.len() && prev[k] == ((x as usize), (y0 as usize));
                        assert(init_unresolved@[k] == ((x as usize), (y0 as usize)));
                    } else {
                        assert(x == x0);
                        assert(init_unresolved@.contains((x0, y0)));
                    }
                }
            }
            x0 = x0 + 1;
        }
        y0 = y0 + 1;
    }
    let mut stats = WfcStats { attempts: 0, cycles: 0, propagations: 0 };
    let mut success = false;
    let mut attempt: u64 = 0;
    proof {
        assert forall|k: int| 0 <= k < cmap@.len() implies (#[trigger] cmap@[k]) & init[k]
            == cmap@[k] by {
            lemma_subset_refl(cmap@[k]);
        }
    }
    while attempt < attempts && !success
        invariant
            cmap@.len() == cwidth * cheight,
            init_cmap@ == init,
            forall|k: int|
                0 <= k < cmap@.len() ==> (#[trigger] cmap@[k]) & init[k] == cmap@[k],
            success ==> forall|k: int| 0 <= k < cmap@.len() ==> (#[trigger] cmap@[k]) != 0,
            success ==> forall|x: int, y: int|
                0 <= x < cwidth && 0 <= y < cheight ==> #[trigger] cell_stable(
                    cons,
                    cmap@,
                    cwidth as int,
                    cheight as int,
                    x,
                    y,
                ) || (cmap@[x + y * cwidth] == init[x + y * cwidth] && spec_popcount(
                    init[x + y * cwidth],
                ) <= 1),
            stats.attempts == attempt,
            attempt <= attempts,
            attempt == 0 ==> cmap@ == init && *prng == *old(prng),
            success ==> attempt >= 1,
            attempt >= 1 && !success ==> exists|k: int| 0 <= k < cmap@.len() && cmap@[k] == 0,
        decreases attempts - attempt,
    {
        attempt = attempt + 1;
        stats.attempts = attempt;
        // restore the seeded snapshot
        let fresh = copy_vec(&init_cmap);
        *cmap = fresh;
        let mut unresolved = ConstraintSet::new();
        let mut propagating = copy_vec(&init_unresolved);
        let mut contradiction = false;
        let mut done = false;
        proof {
            assert forall|k: int| 0 <= k < cmap@.len() implies (#[trigger] cmap@[k]) & init[k]
                == cmap@[k] by {
                lemma_subset_refl(cmap@[k]);
            }
        }
        while !done
            invariant
                stats.attempts == attempt,
                unresolved.wf(),
                cmap@.len() == cwidth * cheight,
                forall|k: int|
                    0 <= k < cmap@.len() ==> (#[trigger] cmap@[k]) & init[k] == cmap@[k],
                forall|m: int|
                    0 <= m < propagating@.len() ==> (#[trigger] propagating@[m]).0 < cwidth
                        && propagating@[m].1 < cheight,
                !done ==> forall|cc: int, p: (usize, usize)|
                    #![trigger unresolved.bucket(cc).contains(p)]
                    unresolved.bucket(cc).contains(p) ==> p.0 < cwidth && p.1 < cheight && cc
                        == spec_popcount(cmap@[p.0 + p.1 * cwidth]) && cc >= 2,
                !done ==> forall|x: int, y: int|
                    0 <= x < cwidth && 0 <= y < cheight ==> #[trigger] cell_stable(
                        cons,
                        cmap@,
                        cwidth as int,
                        cheight as int,
                        x,
                        y,
                    ) || propagating@.contains(((x as usize), (y as usize))) || (cmap@[x + y
                        * cwidth] == init[x + y * cwidth] && spec_popcount(init[x + y * cwidth])
                        <= 1),
                !contradiction ==> forall|k: int|
                    0 <= k < cmap@.len() ==> (#[trigger] cmap@[k]) != 0,
                contradiction ==> done,
                contradiction ==> exists|k: int| 0 <= k < cmap@.len() && #[trigger] cmap@[k]
                    == 0,
                done ==> contradiction || forall|x: int, y: int|
                    0 <= x < cwidth && 0 <= y < cheight ==> #[trigger] cell_stable(
                        cons,
                        cmap@,
                        cwidth as int,
                        cheight as int,
                        x,
                        y,
                    ) || (cmap@[x + y * cwidth] == init[x + y * cwidth] && spec_popcount(
                        init[x + y * cwidth],
                    ) <= 1),
            decreases (if done {
                0int
            } else {
                1int
            }), sum_popcount(cmap@), propagating@.len(),
        {
            stats.cycles = bump(stats.cycles);
            let ghost stack0 = propagating@;
            let popped = propagating.pop();
            match popped {
                Option::Some(p) => {
                    let ghost stack1 = propagating@;
                    let (x, y) = p;
                    stats.propagations = bump(stats.propagations);
                    proof {
                        lemma_cell_index(cwidth as int, cheight as int, x as int, y as int);
                    }
                    let idx = x + y * cwidth;
                    let c_old = cmap[idx];
                    let c_new = constrain_cell(tiles, cmap, cwidth, cheight, x, y);
                    if c_new != c_old {
                        let ghost m1 = cmap@;
                        let pc_old = popcount(c_old);
                        let pc_new = popcount(c_new);
                        proof {
                            lemma_popcount_subset(c_new, c_old);
                            lemma_sum_popcount_update(cmap@, idx as int, c_new);
                            lemma_subset_trans(c_new, c_old, init[idx as int]);
                        }
                        cmap[idx] = c_new;
                        if c_new == 0 {
                            contradiction = true;
                            done = true;
                            proof {
                                assert(cmap@[idx as int] == 0);
                                assert((idx as int) < cmap@.len());
                                assert(exists|k: int|
                                    0 <= k < cmap@.len() && #[trigger] cmap@[k] == 0);
                            }
                        } else {
                            let ghost set0 = unresolved;
                            let _ = unresolved.remove(pc_old, x, y);
                            let ghost set1 = unresolved;
                            if pc_new > 1 {
                                let _ = unresolved.insert(pc_new, x, y);
                            }
                            let ghost set2 = unresolved;
                            let ghost stack_before_push = propagating@;
                            push_neighbors(&mut propagating, x, y, cwidth, cheight);
                            proof {
                                let gx = x as int;
                                let gy = y as int;
                                let gi = gx + gy * (cwidth as int);
                                assert(cmap@ == m1.update(gi, c_new));
                                // the entropy index again matches the map
                                assert forall|cc: int, p2: (usize, usize)|
                                    #![trigger unresolved.bucket(cc).contains(p2)]
                                    unresolved.bucket(cc).contains(p2) implies p2.0 < cwidth
                                    && p2.1 < cheight && cc == spec_popcount(
                                    cmap@[p2.0 + p2.1 * cwidth],
                                ) && cc >= 2 by {
                                    if p2 == (x, y) {
                                        if cc != pc_new {
                                            assert(set1.bucket(cc).contains(p2));
                                            assert(set0.bucket(cc).contains(p2));
                                            assert(false);
                                        }
                                        assert(cc == pc_new && pc_new >= 2);
                                    } else {
                                        assert(set1.bucket(cc).contains(p2));
                                        assert(set0.bucket(cc).contains(p2));
                                        lemma_cell_index(
                                            cwidth as int,
                                            cheight as int,
                                            p2.0 as int,
                                            p2.1 as int,
                                        );
                                        lemma_rm_inj(
                                            cwidth as int,
                                            p2.0 as int,
                                            p2.1 as int,
                                            gx,
                                            gy,
                                        );
                                        assert(cmap@[p2.0 + p2.1 * cwidth] == m1[p2.0 + p2.1
                                            * cwidth]);
                                    }
                                }
                                // stability: the cell is stable, its neighbors
                                // are queued, everything else is untouched
                                assert forall|x2: int, y2: int|
                                    0 <= x2 < cwidth && 0 <= y2 < cheight implies #[trigger] cell_stable(
                                    cons,
                                    cmap@,
                                    cwidth as int,
                                    cheight as int,
                                    x2,
                                    y2,
                                ) || propagating@.contains(((x2 as usize), (y2 as usize))) || (
                                cmap@[x2 + y2 * cwidth] == init[x2 + y2 * cwidth] && spec_popcount(
                                    init[x2 + y2 * cwidth],
                                ) <= 1) by {
                                    if x2 == gx && y2 == gy {
                                        assert(cmap@ == m1.update(gi, c_new));
                                        assert(cell_stable(
                                            cons,
                                            cmap@,
                                            cwidth as int,
                                            cheight as int,
                                            x2,
                                            y2,
                                        ));
                                    } else if (x2 == gx - 1 && y2 == gy) || (x2 == gx + 1 && y2
                                        == gy) || (x2 == gx && y2 == gy - 1) || (x2 == gx && y2
                                        == gy + 1) {
                                        assert(propagating@.contains(
                                            ((x2 as usize), (y2 as usize)),
                                        ));
                                    } else {
                                        assert(cell_stable(cons, m1, cwidth as int, cheight as int, x2, y2)
                                            || stack0.contains(((x2 as usize), (y2 as usize)))
                                            || (m1[x2 + y2 * cwidth] == init[x2 + y2 * cwidth]
                                            && spec_popcount(init[x2 + y2 * cwidth]) <= 1));
                                        if cell_stable(cons, m1, cwidth as int, cheight as int, x2, y2) {
                                            lemma_stability_frame(
                                                cons,
                                                m1,
                                                c_new,
                                                cwidth as int,
                                                cheight as int,
                                                gx,
                                                gy,
                                                x2,
                                                y2,
                                            );
                                        } else if stack0.contains(((x2 as usize), (y2 as usize))) {
                                            let k = choose|k: int|
                                                0 <= k < stack0.len() && stack0[k] == ((
                                                x2 as usize), (y2 as usize));
                                            assert(stack0[stack0.len() - 1] == (x, y));
                                            assert(k < stack0.len() - 1);
                                            assert(stack1[k] == ((x2 as usize), (y2 as usize)));
                                            assert(stack_before_push.contains(
                                                ((x2 as usize), (y2 as usize)),
                                            ));
                                            assert(propagating@.contains(
                                                ((x2 as usize), (y2 as usize)),
                                            ));
                                        } else {
                                            lemma_cell_index(cwidth as int, cheight as int, x2, y2);
                                            lemma_rm_inj(cwidth as int, x2, y2, gx, gy);
                                            assert(cmap@[x2 + y2 * cwidth] == m1[x2 + y2
                                                * cwidth]);
                                        }
                                    }
                                }
                            }
                        }
                    } else {
                        proof {
                            let gx = x as int;
                            let gy = y as int;
                            assert(cell_stable(
                                cons,
                                cmap@,
                                cwidth as int,
                                cheight as int,
                                gx,
                                gy,
                            ));
                            assert forall|x2: int, y2: int|
                                0 <= x2 < cwidth && 0 <= y2 < cheight implies #[trigger] cell_stable(
                                cons,
                                cmap@,
                                cwidth as int,
                                cheight as int,
                                x2,
                                y2,
                            ) || propagating@.contains(((x2 as usize), (y2 as usize))) || (cmap@[x2
                                + y2 * cwidth] == init[x2 + y2 * cwidth] && spec_popcount(
                                init[x2 + y2 * cwidth],
                            ) <= 1) by {
                                if !(x2 == gx && y2 == gy) {
                                    assert(cell_stable(cons, cmap@, cwidth as int, cheight as int, x2, y2)
                                        || stack0.contains(((x2 as usize), (y2 as usize))) || (
                                    cmap@[x2 + y2 * cwidth] == init[x2 + y2 * cwidth]
                                        && spec_popcount(init[x2 + y2 * cwidth]) <= 1));
                                    if stack0.contains(((x2 as usize), (y2 as usize))) {
                                        let k = choose|k: int|
                                            0 <= k < stack0.len() && stack0[k] == ((x2 as usize), (
                                            y2 as usize));
                                        assert(stack0[stack0.len() - 1] == (x, y));
                                        assert(k < stack0.len() - 1);
                                        assert(propagating@[k] == ((x2 as usize), (y2 as usize)));
                                        assert(propagating@.contains(((x2 as usize), (y2 as usize))));
                                    }
                                }
                            }
                        }
                    }
                },
                Option::None => {
                    let ghost set0 = unresolved;
                    let popped2 = unresolved.pop(prng);
                    match popped2 {
                        Option::Some(t) => {
                            let (cnt, x, y) = t;
                            proof {
                                lemma_cell_index(
                                    cwidth as int,
                                    cheight as int,
                                    x as int,
                                    y as int,
                                );
                            }
                            let idx = x + y * cwidth;
                            let c = cmap[idx];
                            proof {
                                lemma_popcount_le_128(c);
                            }
                            let j = prng.range(0, cnt as usize);
                            let b = select_bit(c, j as u32);
                            let nv = 1u128 << b;
                            let ghost m1 = cmap@;
                            proof {
                                lemma_single_subset(c, b);
                                lemma_popcount_single(b);
                                lemma_popcount_zero(nv);
                                lemma_sum_popcount_update(cmap@, idx as int, nv);
                                lemma_subset_trans(nv, c, init[idx as int]);
                            }
                            cmap[idx] = nv;
                            let ghost stack_before_push = propagating@;
                            push_neighbors(&mut propagating, x, y, cwidth, cheight);
                            proof {
                                let gx = x as int;
                                let gy = y as int;
                                let gi = gx + gy * (cwidth as int);
                                assert(cmap@ == m1.update(gi, nv));
                                // the popped cell was stable with at least two
                                // options; its collapsed mask stays in accord
                                assert(cell_stable(cons, m1, cwidth as int, cheight as int, gx, gy));
                                assert(m1[gi] == c);
                                if gx > 0 {
                                    lemma_dir_ok_subset(cons, nv, c, m1[(gx - 1) + gy * cwidth], Dir::W);
                                }
                                if gy > 0 {
                                    lemma_dir_ok_subset(cons, nv, c, m1[gx + (gy - 1) * cwidth], Dir::N);
                                }
                                if gx < cwidth - 1 {
                                    lemma_dir_ok_subset(cons, nv, c, m1[(gx + 1) + gy * cwidth], Dir::E);
                                }
                                if gy < cheight - 1 {
                                    lemma_dir_ok_subset(cons, nv, c, m1[gx + (gy + 1) * cwidth], Dir::S);
                                }
                                lemma_cell_index(cwidth as int, cheight as int, gx, gy);
                                assert(cell_stable(
                                    cons,
                                    cmap@,
                                    cwidth as int,
                                    cheight as int,
                                    gx,
                                    gy,
                                ));
                                // the entropy index again matches the map
                                assert forall|cc: int, p2: (usize, usize)|
                                    #![trigger unresolved.bucket(cc).contains(p2)]
                                    unresolved.bucket(cc).contains(p2) implies p2.0 < cwidth
                                    && p2.1 < cheight && cc == spec_popcount(
                                    cmap@[p2.0 + p2.1 * cwidth],
                                ) && cc >= 2 by {
                                    assert(set0.bucket(cc).contains(p2));
                                    if p2 == (x, y) {
                                        assert(cc == cnt);
                                        assert(false);
                                    } else {
                                        lemma_cell_index(
                                            cwidth as int,
                                            cheight as int,
                                            p2.0 as int,
                                            p2.1 as int,
                                        );
                                        lemma_rm_inj(
                                            cwidth as int,
                                            p2.0 as int,
                                            p2.1 as int,
                                            gx,
                                            gy,
                                        );
                                        assert(cmap@[p2.0 + p2.1 * cwidth] == m1[p2.0 + p2.1
                                            * cwidth]);
                                    }
                                }
                                // stability bookkeeping as for a propagation write
                                assert forall|x2: int, y2: int|
                                    0 <= x2 < cwidth && 0 <= y2 < cheight implies #[trigger] cell_stable(
                                    cons,
                                    cmap@,
                                    cwidth as int,
                                    cheight as int,
                                    x2,
                                    y2,
                                ) || propagating@.contains(((x2 as usize), (y2 as usize))) || (
                                cmap@[x2 + y2 * cwidth] == init[x2 + y2 * cwidth] && spec_popcount(
                                    init[x2 + y2 * cwidth],
                                ) <= 1) by {
                                    if x2 == gx && y2 == gy {
                                    } else if (x2 == gx - 1 && y2 == gy) || (x2 == gx + 1 && y2
                                        == gy) || (x2 == gx && y2 == gy - 1) || (x2 == gx && y2
                                        == gy + 1) {
                                        assert(propagating@.contains(
                                            ((x2 as usize), (y2 as usize)),
                                        ));
                                    } else {
                                        if cell_stable(cons, m1, cwidth as int, cheight as int, x2, y2) {
                                            lemma_stability_frame(
                                                cons,
                                                m1,
                                                nv,
                                                cwidth as int,
                                                cheight as int,
                                                gx,
                                                gy,
                                                x2,
                                                y2,
                                            );
                                        } else {
                                            lemma_cell_index(cwidth as int, cheight as int, x2, y2);
                                            lemma_rm_inj(cwidth as int, x2, y2, gx, gy);
                                            assert(cmap@[x2 + y2 * cwidth] == m1[x2 + y2
                                                * cwidth]);
                                        }
                                    }
                                }
                            }
                        },
                        Option::None => {
                            done = true;
                        },
                    }
                },
            }
        }
        if !contradiction {
            success = true;
        }
    }
    (success, stats)
}

impl WaveStation {
    /// Rebuild the constraint map from the bubble layout: floor on hallway
    /// centerlines, everything but space inside bubbles and hallway walls,
    /// space elsewhere.
    #[verifier::loop_isolation(false)]
    fn seed_cmap(&mut self)
        requires
            old(self).wf(),
            old(self).width * old(self).scale <= 0xffff_ffff,
            old(self).height * old(self).scale <= 0xffff_ffff,
            (old(self).width * old(self).scale) * (old(self).height * old(self).scale)
                <= usize::MAX,
        ensures
            final(self).wf(),
            final(self).cwidth == old(self).width * old(self).scale,
            final(self).cheight == old(self).height * old(self).scale,
            final(self).cmap@.len() == final(self).cwidth * final(self).cheight,
            forall|x: int, y: int|
                0 <= x < final(self).cwidth && 0 <= y < final(self).cheight
                    ==> #[trigger] final(self).cmap@[x + y * final(self).cwidth] == seeded_cell(
                    old(self).bubbles@,
                    old(self).scale as int,
                    x,
                    y,
                ),
            final(self).bubbles == old(self).bubbles,
            final(self).width == old(self).width,
            final(self).height == old(self).height,
            final(self).prng == old(self).prng,
            final(self).seed == old(self).seed,
            final(self).size == old(self).size,
            final(self).bubble_p == old(self).bubble_p,
            final(self).hallway_p == old(self).hallway_p,
            final(self).smallest == old(self).smallest,
            final(self).clearance == old(self).clearance,
            final(self).scale == old(self).scale,
            final(self).attempts == old(self).attempts,
            final(self).bubble_cycles == old(self).bubble_cycles,
            final(self).wfc_attempts == old(self).wfc_attempts,
            final(self).wfc_cycles == old(self).wfc_cycles,
            final(self).wfc_propagations == old(self).wfc_propagations,
    {
        proof {
            assert forall|i: int| 0 <= i < self.bubbles@.len() implies {
                let b = #[trigger] self.bubbles@[i];
                &&& 0 <= b.x <= WIDTH_LIMIT
                &&& 0 <= b.y <= WIDTH_LIMIT
                &&& b.r <= RADIUS_LIMIT
                &&& match b.parent {
                    Option::Some(p) => 0 <= p < i,
                    Option::None => true,
                }
            } by {
                assert(crate::station::wf_bubble(
                    self.bubbles@[i],
                    i,
                    self.width as int,
                    self.height as int,
                    self.smallest as int,
                ));
            }
            assert(layout_ok(self.bubbles@));
        }
        let cw = self.width * self.scale;
        let ch = self.height * self.scale;
        let ghost bs = self.bubbles@;
        let ghost sc = self.scale as int;
        let mut cmap: Vec<u128> = Vec::new();
        let mut y: usize = 0;
        while y < ch
            invariant
                y <= ch,
                cmap@.len() == y * cw,
                forall|yy: int, xx: int|
                    0 <= yy < y && 0 <= xx < cw ==> #[trigger] cmap@[xx + yy * cw] == seeded_cell(
                        bs,
                        sc,
                        xx,
                        yy,
                    ),
            decreases ch - y,
        {
            let mut x: usize = 0;
            while x < cw
                invariant
                    x <= cw,
                    y < ch,
                    cmap@.len() == y * cw + x,
                    forall|yy: int, xx: int|
                        0 <= yy < y && 0 <= xx < cw ==> #[trigger] cmap@[xx + yy * cw]
                            == seeded_cell(bs, sc, xx, yy),
                    forall|xx: int|
                        0 <= xx < x ==> #[trigger] cmap@[xx + y * cw] == seeded_cell(
                            bs,
                            sc,
                            xx,
                            y as int,
                        ),
                decreases cw - x,
            {
                let xi = x as i64;
                let yi = y as i64;
                let v = if cell_on_center(&self.bubbles, self.scale, xi, yi) {
                    TILE_FLOOR
                } else if cell_in_bubble(&self.bubbles, self.scale, xi, yi) || cell_in_band(
                    &self.bubbles,
                    self.scale,
                    xi,
                    yi,
                ) {
                    TILE_ALL & !TILE_SPACE
                } else {
                    TILE_SPACE
                };
                proof {
                    lemma_row_major(cw as int, x as int + 1, y as int, x as int, y as int);
                    assert forall|yy: int, xx: int|
                        0 <= yy < y && 0 <= xx < cw implies #[trigger] cmap@.push(v)[xx + yy * cw]
                        == seeded_cell(bs, sc, xx, yy) by {
                        lemma_row_major(cw as int, x as int, y as int, xx, yy);
                    }
                    assert forall|xx: int|
                        0 <= xx < x implies #[trigger] cmap@.push(v)[xx + y * cw] == seeded_cell(
                            bs,
                            sc,
                            xx,
                            y as int,
                        ) by {
                        lemma_row_major(cw as int, x as int, y as int, xx, y as int);
                    }
                    assert(cmap@.push(v)[x + y * cw] == v);
                }
                cmap.push(v);
                x = x + 1;
            }
            proof {
                assert((y + 1) * cw == y * cw + cw) by (nonlinear_arith);
            }
            y = y + 1;
        }
        self.cmap = cmap;
        self.cwidth = cw;
        self.cheight = ch;
        proof {
            assert(self.cmap@.len() == ch * cw);
            assert(ch * cw == cw * ch) by (nonlinear_arith);
            let ghost w0 = old(self).width;
            let ghost h0 = old(self).height;
            let ghost s0 = old(self).scale;
            assert(cw >= 1 && ch >= 1) by (nonlinear_arith)
                requires
                    cw == w0 * s0,
                    ch == h0 * s0,
                    w0 >= 1,
                    h0 >= 1,
                    s0 >= 1,
            ;
            lemma_seed_masks();
            assert forall|k: int| 0 <= k < self.cmap@.len() implies (#[trigger] self.cmap@[k])
                & TILE_ALL == self.cmap@[k] by {
                let yy = k / (cw as int);
                let xx = k % (cw as int);
                assert(0 <= xx < cw && 0 <= yy < ch && k == xx + yy * cw) by (nonlinear_arith)
                    requires
                        0 <= k < cw * ch,
                        cw >= 1,
                        yy == k / (cw as int),
                        xx == k % (cw as int),
                ;
                assert(self.cmap@[xx + yy * cw] == seeded_cell(bs, sc, xx, yy));
            }
        }
    }
}


/// The two output bytes of a cell: its tile's glyph when collapsed to a
/// single catalog tile, `!!` when contradictory, `??` otherwise.
pub open spec fn cell_glyph(c: u128) -> (u8, u8) {
    if c == 0 {
        (0x21, 0x21)
    } else if exists|t: u32| t < 82 && c == (1u128 << t) {
        let t = choose|t: u32| t < 82 && c == (1u128 << t);
        crate::tiles::catalog_glyph(t as int)
    } else {
        (0x3f, 0x3f)
    }
}

/// The per-side constraint masks of the built-in catalog.
pub open spec fn catalog_cons() -> Seq<Constraints> {
    Seq::new(crate::tiles::TILE_COUNT as nat, |i: int| crate::tiles::catalog_constraints(i))
}

/// A set bit of a mask that holds only catalog tiles names a catalog tile.
proof fn lemma_tile_bit_range(c: u128, b: u32)
    requires
        b < 128,
        c & TILE_ALL == c,
        c & (1u128 << b) != 0,
    ensures
        b < 82,
{
    assert(b < 82) by (bit_vector)
        requires
            b < 128u32,
            c & 0x3_ffff_ffff_ffff_ffff_ffffu128 == c,
            c & (1u128 << b) != 0,
    ;
}

/// Two single-bit masks intersect only when they are the same bit.
proof fn lemma_single_bit_eq(a: u32, b: u32)
    requires
        a < 128,
        b < 128,
        (1u128 << a) & (1u128 << b) != 0,
    ensures
        a == b,
{
    assert(a == b) by (bit_vector)
        requires
            a < 128u32,
            b < 128u32,
            (1u128 << a) & (1u128 << b) != 0,
    ;
}

/// Membership in the allowed union names a supporting neighbor tile.
proof fn lemma_union_member(cons: Seq<Constraints>, cn: u128, d: Dir, n: int, t: u32)
    requires
        0 <= n <= 128,
        t < 128,
        allowed_union(cons, cn, d, n) & (1u128 << t) != 0,
    ensures
        exists|j: u32|
            j < n && cn & (1u128 << j) != 0 && #[trigger] cons[j as int].spec_dir(d) & (1u128 << t)
                != 0,
    decreases n,
{
    if n <= 0 {
        assert(0u128 & (1u128 << t) == 0) by (bit_vector);
    } else {
        if cn & (1u128 << ((n - 1) as u32)) != 0 {
            let rest = allowed_union(cons, cn, d, n - 1);
            let m = cons[n - 1].spec_dir(d);
            lemma_bit_or(rest, m, t);
            if m & (1u128 << t) != 0 {
                let j0 = (n - 1) as u32;
                assert(j0 < n && cn & (1u128 << j0) != 0 && cons[j0 as int].spec_dir(d) & (1u128
                    << t) != 0);
            } else {
                lemma_union_member(cons, cn, d, n - 1, t);
                let j0 = choose|j: u32|
                    j < n - 1 && cn & (1u128 << j) != 0 && #[trigger] cons[j as int].spec_dir(d) & (
                    1u128 << t) != 0;
                assert(j0 < n && cn & (1u128 << j0) != 0 && cons[j0 as int].spec_dir(d) & (1u128
                    << t) != 0);
            }
        } else {
            lemma_union_member(cons, cn, d, n - 1, t);
            let j0 = choose|j: u32|
                j < n - 1 && cn & (1u128 << j) != 0 && #[trigger] cons[j as int].spec_dir(d) & (
                1u128 << t) != 0;
            assert(j0 < n && cn & (1u128 << j0) != 0 && cons[j0 as int].spec_dir(d) & (1u128 << t)
                != 0);
        }
    }
}

/// The cell index of the neighbor of `(x, y)` on side `d`.
pub open spec fn neighbor_index(cw: int, x: int, y: int, d: Dir) -> int {
    match d {
        Dir::W => (x - 1) + y * cw,
        Dir::N => x + (y - 1) * cw,
        Dir::E => (x + 1) + y * cw,
        Dir::S => x + (y + 1) * cw,
    }
}

/// Law (local consistency): when a stable cell and its in-bounds neighbor on
/// side `d` are both collapsed, the cell's tile permits the neighbor's tile
/// on side `d`, and the neighbor's tile permits the cell's tile on the
/// opposite side.
pub proof fn lemma_stable_pair_consistent(
    cons: Seq<Constraints>,
    cmap: Seq<u128>,
    cw: int,
    ch: int,
    x: int,
    y: int,
    d: Dir,
    ta: u32,
    tb: u32,
)
    requires
        cons.len() <= 128,
        cmap.len() == cw * ch,
        0 <= x < cw,
        0 <= y < ch,
        match d {
            Dir::W => x > 0,
            Dir::N => y > 0,
            Dir::E => x < cw - 1,
            Dir::S => y < ch - 1,
        },
        cell_stable(cons, cmap, cw, ch, x, y),
        ta < cons.len(),
        tb < 128,
        cmap[x + y * cw] == 1u128 << ta,
        cmap[neighbor_index(cw, x, y, d)] == 1u128 << tb,
    ensures
        cons[ta as int].spec_dir(d) & (1u128 << tb) != 0,
        tb < cons.len(),
        cons[tb as int].spec_dir(d.spec_flip()) & (1u128 << ta) != 0,
{
    let c = cmap[x + y * cw];
    let cn = cmap[neighbor_index(cw, x, y, d)];
    assert((1u128 << ta) & (1u128 << ta) != 0) by (bit_vector)
        requires
            ta < 128u32,
    ;
    assert(dir_ok(cons, c, cn, d));
    assert(cons[ta as int].spec_dir(d) & cn != 0);
    let union = allowed_union(cons, cn, d.spec_flip(), cons.len() as int);
    lemma_subset_bit(c, union, ta);
    lemma_union_member(cons, cn, d.spec_flip(), cons.len() as int, ta);
    let j = choose|j: u32|
        j < cons.len() && cn & (1u128 << j) != 0 && #[trigger] cons[j as int].spec_dir(
            d.spec_flip(),
        ) & (1u128 << ta) != 0;
    lemma_single_bit_eq(tb, j);
}

/// The station's constraint map is a successful collapse of its current
/// bubble layout: full-size, cell by cell within what the layout seeds, with
/// no contradictions, and stable wherever the engine touched.
pub open spec fn collapsed_for(ws: WaveStation) -> bool {
    &&& ws.cwidth == ws.width * ws.scale
    &&& ws.cheight == ws.height * ws.scale
    &&& ws.cmap@.len() == ws.cwidth * ws.cheight
    &&& forall|x: int, y: int|
        0 <= x < ws.cwidth && 0 <= y < ws.cheight ==> (#[trigger] ws.cmap@[x + y * ws.cwidth])
            & seeded_cell(ws.bubbles@, ws.scale as int, x, y) == ws.cmap@[x + y * ws.cwidth]
    &&& forall|k: int| 0 <= k < ws.cmap@.len() ==> (#[trigger] ws.cmap@[k]) != 0
    &&& forall|x: int, y: int|
        0 <= x < ws.cwidth && 0 <= y < ws.cheight ==> #[trigger] cell_stable(
            catalog_cons(),
            ws.cmap@,
            ws.cwidth as int,
            ws.cheight as int,
            x,
            y,
        ) || (ws.cmap@[x + y * ws.cwidth] == seeded_cell(ws.bubbles@, ws.scale as int, x, y)
            && spec_popcount(seeded_cell(ws.bubbles@, ws.scale as int, x, y)) <= 1)
}

/// The station's tile map would outgrow the supported cell coordinates or
/// the address space.
pub open spec fn map_oversized(ws: WaveStation) -> bool {
    ||| ws.width * ws.scale > 0xffff_ffff
    ||| ws.height * ws.scale > 0xffff_ffff
    ||| (ws.width * ws.scale) * (ws.height * ws.scale) > usize::MAX
}

impl WaveStation {
    /// Resolve the tile map: reseed the constraint map from the bubble
    /// layout, then collapse it with the built-in catalog. Reports whether an
    /// attempt completed without contradiction.
    #[verifier::rlimit(60)]
    pub fn wfc(&mut self) -> (success: bool)
        requires
            old(self).wf(),
            old(self).width * old(self).scale <= 0xffff_ffff,
            old(self).height * old(self).scale <= 0xffff_ffff,
            (old(self).width * old(self).scale) * (old(self).height * old(self).scale)
                <= usize::MAX,
        ensures
            final(self).wf(),
            final(self).bubbles == old(self).bubbles,
            final(self).width == old(self).width,
            final(self).height == old(self).height,
            final(self).seed == old(self).seed,
            final(self).size == old(self).size,
            final(self).bubble_p == old(self).bubble_p,
            final(self).hallway_p == old(self).hallway_p,
            final(self).smallest == old(self).smallest,
            final(self).clearance == old(self).clearance,
            final(self).scale == old(self).scale,
            final(self).attempts == old(self).attempts,
            final(self).bubble_cycles == old(self).bubble_cycles,
            final(self).cwidth == old(self).width * old(self).scale,
            final(self).cheight == old(self).height * old(self).scale,
            final(self).cmap@.len() == final(self).cwidth * final(self).cheight,
            forall|x: int, y: int|
                0 <= x < final(self).cwidth && 0 <= y < final(self).cheight
                    ==> (#[trigger] final(self).cmap@[x + y * final(self).cwidth]) & seeded_cell(
                    old(self).bubbles@,
                    old(self).scale as int,
                    x,
                    y,
                ) == final(self).cmap@[x + y * final(self).cwidth],
            success ==> forall|k: int|
                0 <= k < final(self).cmap@.len() ==> (#[trigger] final(self).cmap@[k]) != 0,
            success ==> forall|x: int, y: int|
                0 <= x < final(self).cwidth && 0 <= y < final(self).cheight
                    ==> #[trigger] cell_stable(
                    catalog_cons(),
                    final(self).cmap@,
                    final(self).cwidth as int,
                    final(self).cheight as int,
                    x,
                    y,
                ) || (final(self).cmap@[x + y * final(self).cwidth] == seeded_cell(
                    old(self).bubbles@,
                    old(self).scale as int,
                    x,
                    y,
                ) && spec_popcount(
                    seeded_cell(old(self).bubbles@, old(self).scale as int, x, y),
                ) <= 1),
            old(self).attempts == 0 ==> !success && forall|x: int, y: int|
                0 <= x < final(self).cwidth && 0 <= y < final(self).cheight
                    ==> #[trigger] final(self).cmap@[x + y * final(self).cwidth] == seeded_cell(
                    old(self).bubbles@,
                    old(self).scale as int,
                    x,
                    y,
                ),
            !success ==> final(self).wfc_attempts == old(self).attempts,
            final(self).wfc_attempts <= old(self).attempts,
            !success && old(self).attempts > 0 ==> exists|k: int|
                0 <= k < final(self).cmap@.len() && final(self).cmap@[k] == 0,
            old(self).attempts == 0 ==> final(self).prng == old(self).prng,
    {
        self.seed_cmap();
        let ghost seeded = self.cmap@;
        let ghost bs = old(self).bubbles@;
        let ghost sc = old(self).scale as int;
        let cw = self.cwidth;
        let ch = self.cheight;
        let tiles = catalog();
        proof {
            let ghost w0 = old(self).width;
            let ghost h0 = old(self).height;
            let ghost s0 = old(self).scale;
            assert(cw >= 1 && ch >= 1) by (nonlinear_arith)
                requires
                    cw == w0 * s0,
                    ch == h0 * s0,
                    w0 >= 1,
                    h0 >= 1,
                    s0 >= 1,
            ;
            assert(cons_of(tiles@) =~= catalog_cons());
            lemma_seed_masks();
            assert forall|k: int| 0 <= k < seeded.len() implies seeded[k] != 0 by {
                let yy = k / (cw as int);
                let xx = k % (cw as int);
                assert(0 <= xx < cw && 0 <= yy < ch && k == xx + yy * cw) by (nonlinear_arith)
                    requires
                        0 <= k < cw * ch,
                        cw >= 1,
                        yy == k / (cw as int),
                        xx == k % (cw as int),
                ;
                assert(seeded[xx + yy * cw] == seeded_cell(bs, sc, xx, yy));
            }
        }
        let r = wfc_core(&tiles, &mut self.cmap, cw, ch, &mut self.prng, self.attempts);
        let success = r.0;
        let stats = r.1;
        self.wfc_attempts = stats.attempts;
        if self.wfc_cycles <= u64::MAX - stats.cycles {
            self.wfc_cycles = self.wfc_cycles + stats.cycles;
        } else {
            self.wfc_cycles = u64::MAX;
        }
        if self.wfc_propagations <= u64::MAX - stats.propagations {
            self.wfc_propagations = self.wfc_propagations + stats.propagations;
        } else {
            self.wfc_propagations = u64::MAX;
        }
        proof {
            assert forall|x: int, y: int| 0 <= x < cw && 0 <= y < ch implies (
            #[trigger] self.cmap@[x + y * cw]) & seeded_cell(bs, sc, x, y) == self.cmap@[x + y
                * cw] by {
                lemma_cell_index(cw as int, ch as int, x, y);
                assert(self.cmap@[x + y * cw] & seeded[x + y * cw] == self.cmap@[x + y * cw]);
            }
            assert forall|k: int| 0 <= k < self.cmap@.len() implies (#[trigger] self.cmap@[k])
                & TILE_ALL == self.cmap@[k] by {
                lemma_subset_trans(self.cmap@[k], seeded[k], TILE_ALL);
            }
            if old(self).attempts == 0 {
                assert forall|x: int, y: int| 0 <= x < cw && 0 <= y < ch implies #[trigger] self.cmap@[x
                    + y * cw] == seeded_cell(bs, sc, x, y) by {
                    lemma_cell_index(cw as int, ch as int, x, y);
                }
            }
            if !success && old(self).attempts > 0 {
                let k0 = choose|k: int| 0 <= k < self.cmap@.len() && self.cmap@[k] == 0;
                assert(self.cmap@[k0] == 0);
            }
        }
        success
    }

    /// Render the constraint map as rows of two-byte glyphs: a collapsed
    /// cell shows its tile's glyph, a contradictory cell shows `!!`, and an
    /// unresolved cell shows `??`.
    #[verifier::loop_isolation(false)]
    pub fn render_tile_map(&self) -> (r: (usize, usize, Vec<u8>))
        requires
            self.wf(),
            self.cmap@.len() * 2 <= usize::MAX,
            self.cwidth * 2 <= usize::MAX,
        ensures
            r.0 == self.cwidth * 2,
            r.1 == self.cheight,
            r.2@.len() == self.cmap@.len() * 2,
            forall|k: int|
                0 <= k < self.cmap@.len() ==> r.2@[2 * k] == cell_glyph(
                    #[trigger] self.cmap@[k],
                ).0 && r.2@[2 * k + 1] == cell_glyph(self.cmap@[k]).1,
    {
        let n = self.cmap.len();
        let mut tmap: Vec<u8> = Vec::new();
        let mut k: usize = 0;
        while k < n
            invariant
                k <= n,
                tmap@.len() == 2 * k,
                forall|m: int|
                    0 <= m < k ==> tmap@[2 * m] == cell_glyph(#[trigger] self.cmap@[m]).0 && tmap@[
                        2 * m + 1
                    ] == cell_glyph(self.cmap@[m]).1,
            decreases n - k,
        {
            let c = self.cmap[k];
            let ghost tm0 = tmap@;
            if c == 0 {
                tmap.push(0x21);
                tmap.push(0x21);
            } else {
                let pc = popcount(c);
                if pc == 1 {
                    let b = select_bit(c, 0);
                    proof {
                        lemma_popcount_one(c, b);
                        lemma_tile_bit_range(c, b);
                        assert(b < 82 && c == (1u128 << b));
                        let t = choose|t: u32| t < 82 && c == (1u128 << t);
                        assert((1u128 << t) & (1u128 << b) != 0) by {
                            lemma_subset_refl(c);
                            lemma_popcount_zero(c);
                        }
                        lemma_single_bit_eq(t, b);
                        assert(cell_glyph(c) == crate::tiles::catalog_glyph(b as int));
                    }
                    let tile = crate::tiles::catalog_tile(b as usize);
                    tmap.push(tile.ascii.0);
                    tmap.push(tile.ascii.1);
                } else {
                    proof {
                        if exists|t: u32| t < 82 && c == (1u128 << t) {
                            let t = choose|t: u32| t < 82 && c == (1u128 << t);
                            lemma_popcount_single(t);
                            assert(false);
                        }
                    }
                    tmap.push(0x3f);
                    tmap.push(0x3f);
                }
            }
            proof {
                assert(tmap@[2 * (k as int)] == cell_glyph(self.cmap@[k as int]).0);
                assert(tmap@[2 * (k as int) + 1] == cell_glyph(self.cmap@[k as int]).1);
                assert forall|m: int| 0 <= m < k implies #[trigger] tmap@[2 * m] == tm0[2 * m]
                    && tmap@[2 * m + 1] == tm0[2 * m + 1] by {}
            }
            k = k + 1;
        }
        (self.cwidth * 2, self.cheight, tmap)
    }

    /// Drive generation toward `size` in chunks of `chunk_size`, resolving
    /// the tile map after each chunk when `tile_map` is set. Stops early,
    /// reporting failure, if a collapse fails or the map would outgrow the
    /// supported dimensions; stops without failure if growth stalls.
    pub fn run(&mut self, size: usize, tile_map: bool, chunk_size: usize) -> (success: bool)
        requires
            old(self).wf(),
            size <= crate::station::SIZE_LIMIT,
            chunk_size >= 1,
        ensures
            final(self).wf(),
            !success ==> tile_map,
            // success owes the work: the layout reached the requested size
            // unless placement stalled against the cycle cap
            success ==> final(self).size >= size || final(self).bubble_cycles >= old(
                self,
            ).bubble_cycles + crate::station::GEN_CYCLE_LIMIT || final(self).bubble_cycles
                == u64::MAX,
            // on success the map is a collapse of the final layout
            tile_map && success ==> collapsed_for(*final(self)),
            // failure has a visible cause: an exhausted zero budget, a
            // contradicted cell of the last attempt, or an oversized map
            !success ==> old(self).attempts == 0 || map_oversized(*final(self)) || exists|k: int|
                0 <= k < final(self).cmap@.len() && final(self).cmap@[k] == 0,
            final(self).seed == old(self).seed,
            final(self).bubble_p == old(self).bubble_p,
            final(self).hallway_p == old(self).hallway_p,
            final(self).smallest == old(self).smallest,
            final(self).clearance == old(self).clearance,
            final(self).scale == old(self).scale,
            final(self).attempts == old(self).attempts,
    {
        let mut success = true;
        let mut finished = false;
        while !finished
            invariant
                self.wf(),
                size <= crate::station::SIZE_LIMIT,
                chunk_size >= 1,
                success || tile_map,
                self.bubble_cycles >= old(self).bubble_cycles,
                finished && success ==> self.size >= size || self.bubble_cycles >= old(
                    self,
                ).bubble_cycles + crate::station::GEN_CYCLE_LIMIT || self.bubble_cycles
                    == u64::MAX,
                finished && success && tile_map ==> collapsed_for(*self),
                finished && !success ==> self.attempts == 0 || map_oversized(*self) || exists|
                    k: int,
                |
                    0 <= k < self.cmap@.len() && self.cmap@[k] == 0,
                self.seed == old(self).seed,
                self.bubble_p == old(self).bubble_p,
                self.hallway_p == old(self).hallway_p,
                self.smallest == old(self).smallest,
                self.clearance == old(self).clearance,
                self.scale == old(self).scale,
                self.attempts == old(self).attempts,
            decreases (if finished {
                0int
            } else {
                1int
            }), crate::station::SIZE_LIMIT + crate::station::RADIUS_LIMIT + 1 - self.size,
        {
            let ghost cyc_start = self.bubble_cycles;
            let before = self.size;
            if size > self.size {
                let remaining = size - self.size;
                let want = if chunk_size < remaining {
                    chunk_size
                } else {
                    remaining
                };
                self.gen_bubbles(want);
            }
            if tile_map {
                proof {
                    let w = self.width;
                    let h = self.height;
                    let sc = self.scale;
                    assert((w as u128) * (sc as u128) == w * sc && (h as u128) * (sc as u128) == h
                        * sc && w * sc < 0x80_0000_0000 && h * sc < 0x80_0000_0000)
                        by (nonlinear_arith)
                        requires
                            1 <= w <= 0x4000_0001usize,
                            1 <= h <= 0x4000_0001usize,
                            1 <= sc <= 0x100usize,
                    ;
                }
                let cw128 = (self.width as u128) * (self.scale as u128);
                let ch128 = (self.height as u128) * (self.scale as u128);
                if cw128 <= 0xffff_ffff && ch128 <= 0xffff_ffff {
                    proof {
                        assert(cw128 * ch128 <= 0xffff_ffffu128 * 0xffff_ffffu128)
                            by (nonlinear_arith)
                            requires
                                cw128 <= 0xffff_ffffu128,
                                ch128 <= 0xffff_ffffu128,
                        ;
                    }
                    if cw128 * ch128 <= usize::MAX as u128 {
                        success = self.wfc();
                        if !success {
                            finished = true;
                        }
                    } else {
                        success = false;
                        finished = true;
                    }
                } else {
                    success = false;
                    finished = true;
                }
            }
            if !finished && self.size >= size {
                finished = true;
            }
            if !finished && self.size <= before {
                proof {
                    // growth stalled, so the placement loop burned its budget
                    assert(self.bubble_cycles >= cyc_start + crate::station::GEN_CYCLE_LIMIT
                        || self.bubble_cycles == u64::MAX);
                }
                finished = true;
            }
        }
        success
    }
}

} // verus!
