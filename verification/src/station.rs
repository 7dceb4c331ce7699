//! The station: a layout of circular rooms ("bubbles") grown at random from a
//! seed, each connected to its parent by an axis-aligned hallway, together
//! with the constraint map derived from it.
//!
//! All geometry is exact integer arithmetic. Probabilities are fixed-point
//! thresholds in units of `2^-64` (see [`crate::prng`]).

use crate::prng::Xorshift64;
use rand::RngCore;
use vstd::prelude::*;

verus! {

/// Largest supported minimum bubble radius.
pub const SMALLEST_LIMIT: usize = 0x1_0000;

/// Largest supported inter-bubble clearance.
pub const CLEARANCE_LIMIT: usize = 0x1_0000;

/// Largest supported tile-cells-per-bubble-unit scale.
pub const SCALE_LIMIT: usize = 0x100;

/// Largest supported target station size.
pub const SIZE_LIMIT: usize = 0x100_0000;

/// Largest radius a bubble can have: the minimum radius plus the cap on a
/// Poisson-like draw.
pub const RADIUS_LIMIT: usize = 0x2_0000;

/// Widest bounding-box span the layout may reach; candidates that would grow
/// it further are rejected like colliding ones.
pub const SPAN_LIMIT: i64 = 0x4000_0000;

/// Largest width or height a centered layout can have.
pub const WIDTH_LIMIT: usize = 0x4000_0001;

/// Cap on the number of candidate placements one growth call may try, so that
/// rejection sampling terminates even for hopeless parameters.
pub const GEN_CYCLE_LIMIT: u64 = 0x100_0000;

/// Bound on the coordinates accepted by the exact distance helpers.
pub const GEOM_LIMIT: i64 = 0x1_0000_0000_0000;

/// The square of an integer.
pub open spec fn spec_sq(a: int) -> int {
    a * a
}

/// Squared Euclidean distance between two points.
pub open spec fn spec_distsq(ax: int, ay: int, bx: int, by: int) -> int {
    spec_sq(bx - ax) + spec_sq(by - ay)
}

/// Squared distance is symmetric in its two points.
pub proof fn lemma_distsq_comm(ax: int, ay: int, bx: int, by: int)
    ensures
        spec_distsq(ax, ay, bx, by) == spec_distsq(bx, by, ax, ay),
{
    assert((bx - ax) * (bx - ax) == (ax - bx) * (ax - bx)) by (nonlinear_arith);
    assert((by - ay) * (by - ay) == (ay - by) * (ay - by)) by (nonlinear_arith);
}

/// Square a radius-sized quantity.
pub fn sq(a: usize) -> (r: i128)
    requires
        a <= 0xffff_ffff,
    ensures
        r == spec_sq(a as int),
{
    let v = a as i128;
    proof {
        assert(v * v <= 0xffff_ffff_i128 * 0xffff_ffff_i128) by (nonlinear_arith)
            requires
                0 <= v <= 0xffff_ffff_i128,
        ;
    }
    v * v
}

/// Squared Euclidean distance between two points.
pub fn distsq(ax: i64, ay: i64, bx: i64, by: i64) -> (r: i128)
    requires
        -GEOM_LIMIT <= ax <= GEOM_LIMIT,
        -GEOM_LIMIT <= ay <= GEOM_LIMIT,
        -GEOM_LIMIT <= bx <= GEOM_LIMIT,
        -GEOM_LIMIT <= by <= GEOM_LIMIT,
    ensures
        r == spec_distsq(ax as int, ay as int, bx as int, by as int),
{
    let dx = (bx as i128) - (ax as i128);
    let dy = (by as i128) - (ay as i128);
    proof {
        assert(dx * dx <= 0x4_0000_0000_0000_i128 * 0x4_0000_0000_0000_i128 && dx * dx >= 0)
            by (nonlinear_arith)
            requires
                -0x4_0000_0000_0000_i128 <= dx <= 0x4_0000_0000_0000_i128,
        ;
        assert(dy * dy <= 0x4_0000_0000_0000_i128 * 0x4_0000_0000_0000_i128 && dy * dy >= 0)
            by (nonlinear_arith)
            requires
                -0x4_0000_0000_0000_i128 <= dy <= 0x4_0000_0000_0000_i128,
        ;
    }
    dx * dx + dy * dy
}

/// One circular room: center, radius, and the index of the bubble it grew
/// from, if any. Bubbles are stored in birth order, so a parent always
/// precedes its children.
#[derive(Debug, Clone, Copy)]
pub struct Bubble {
    pub x: i64,
    pub y: i64,
    pub r: usize,
    pub parent: Option<usize>,
}

/// A bubble that lies properly inside a `width` by `height` box and respects
/// the birth-order parent rule for its position `i` in the list.
pub open spec fn wf_bubble(b: Bubble, i: int, width: int, height: int, smallest: int) -> bool {
    &&& 0 <= b.x - b.r
    &&& b.x + b.r < width
    &&& 0 <= b.y - b.r
    &&& b.y + b.r < height
    &&& smallest <= b.r <= RADIUS_LIMIT
    &&& match b.parent {
        Option::Some(p) => 0 <= p < i,
        Option::None => i == 0,
    }
}

/// Any two distinct bubbles keep at least `clearance` between their rims.
pub open spec fn separated(bs: Seq<Bubble>, clearance: int) -> bool {
    forall|i: int, j: int|
        0 <= i < j < bs.len() ==> #[trigger] spec_distsq(
            bs[i].x as int,
            bs[i].y as int,
            bs[j].x as int,
            bs[j].y as int,
        ) >= spec_sq(bs[i].r + bs[j].r + clearance)
}

/// The bubbles all fit in the box `[lox, hix]` by `[loy, hiy]`, which
/// contains the origin cell and spans at most [`SPAN_LIMIT`].
pub open spec fn boxed(bs: Seq<Bubble>, lox: int, hix: int, loy: int, hiy: int) -> bool {
    &&& lox <= 0 && hix >= 1 && hix - lox <= SPAN_LIMIT
    &&& loy <= 0 && hiy >= 1 && hiy - loy <= SPAN_LIMIT
    &&& forall|i: int|
        0 <= i < bs.len() ==> {
            let b = #[trigger] bs[i];
            lox <= b.x - b.r && b.x + b.r <= hix && loy <= b.y - b.r && b.y + b.r <= hiy
        }
}

/// Sum of the radii of a bubble list: the "size" the layout has reached.
pub open spec fn radii_sum(bs: Seq<Bubble>) -> int
    decreases bs.len(),
{
    if bs.len() == 0 {
        0
    } else {
        radii_sum(bs.drop_last()) + bs.last().r
    }
}

/// Appending a bubble adds its radius to the sum.
proof fn lemma_radii_sum_push(bs: Seq<Bubble>, b: Bubble)
    ensures
        radii_sum(bs.push(b)) == radii_sum(bs) + b.r,
{
    assert(bs.push(b).drop_last() =~= bs);
    assert(bs.push(b).last() == b);
}

/// The radius sum splits at any cut point.
proof fn lemma_radii_sum_split(bs: Seq<Bubble>, n: int)
    requires
        0 <= n <= bs.len(),
    ensures
        radii_sum(bs) == radii_sum(bs.take(n)) + radii_sum(bs.skip(n)),
    decreases bs.len(),
{
    if n == bs.len() {
        assert(bs.take(n) =~= bs);
        assert(bs.skip(n) =~= Seq::<Bubble>::empty());
    } else {
        lemma_radii_sum_split(bs.drop_last(), n);
        assert(bs.drop_last().take(n) =~= bs.take(n));
        assert(bs.skip(n).drop_last() =~= bs.drop_last().skip(n));
        assert(bs.skip(n).last() == bs.last());
    }
}

/// Lists with the same radii have the same radius sum.
proof fn lemma_radii_sum_same(a: Seq<Bubble>, b: Seq<Bubble>)
    requires
        a.len() == b.len(),
        forall|i: int| 0 <= i < a.len() ==> a[i].r == (#[trigger] b[i]).r,
    ensures
        radii_sum(a) == radii_sum(b),
    decreases a.len(),
{
    if a.len() > 0 {
        lemma_radii_sum_same(a.drop_last(), b.drop_last());
    }
}

/// Bubble `j` grew off an earlier parent: it sits axis-aligned, exactly
/// one hallway (of length at least `clearance`) beyond the parent's rim,
/// and keeps strictly more than `clearance` from every other earlier
/// bubble.
pub open spec fn appended_ok(bs: Seq<Bubble>, j: int, clearance: int) -> bool {
    match bs[j].parent {
        Option::Some(p) => {
            let b = bs[j];
            let pb = bs[p as int];
            &&& 0 <= p < j
            &&& (b.x == pb.x || b.y == pb.y)
            &&& exists|h: int|
                h >= clearance && spec_distsq(pb.x as int, pb.y as int, b.x as int, b.y as int)
                    == #[trigger] spec_sq(pb.r + b.r + h)
            &&& forall|i: int|
                0 <= i < j && i != p ==> spec_distsq(
                    (#[trigger] bs[i]).x as int,
                    bs[i].y as int,
                    b.x as int,
                    b.y as int,
                ) > spec_sq(bs[i].r + b.r + clearance)
        },
        Option::None => false,
    }
}

/// Pushing a new bubble leaves every earlier appended relation untouched.
proof fn lemma_appended_ok_push(bs: Seq<Bubble>, nb: Bubble, j: int, cl: int)
    requires
        0 <= j < bs.len(),
        appended_ok(bs, j, cl),
    ensures
        appended_ok(bs.push(nb), j, cl),
{
    let bs2 = bs.push(nb);
    match bs[j].parent {
        Option::Some(p) => {
            let h = choose|h: int|
                h >= cl && spec_distsq(
                    bs[p as int].x as int,
                    bs[p as int].y as int,
                    bs[j].x as int,
                    bs[j].y as int,
                ) == #[trigger] spec_sq(bs[p as int].r + bs[j].r + h);
            assert(h >= cl && spec_distsq(
                bs2[p as int].x as int,
                bs2[p as int].y as int,
                bs2[j].x as int,
                bs2[j].y as int,
            ) == spec_sq(bs2[p as int].r + bs2[j].r + h));
            assert forall|i2: int| 0 <= i2 < j && i2 != p implies spec_distsq(
                (#[trigger] bs2[i2]).x as int,
                bs2[i2].y as int,
                bs2[j].x as int,
                bs2[j].y as int,
            ) > spec_sq(bs2[i2].r + bs2[j].r + cl) by {
                assert(bs2[i2] == bs[i2]);
            }
        },
        Option::None => {},
    }
}

/// Translating every bubble by one common vector preserves how an appended
/// bubble hangs off its parent.
proof fn lemma_appended_ok_translate(a: Seq<Bubble>, b: Seq<Bubble>, lx: int, ly: int, j: int, cl: int)
    requires
        a.len() == b.len(),
        forall|i: int|
            0 <= i < a.len() ==> (#[trigger] b[i]).x == a[i].x - lx && b[i].y == a[i].y - ly
                && b[i].r == a[i].r && b[i].parent == a[i].parent,
        0 <= j < a.len(),
        appended_ok(a, j, cl),
    ensures
        appended_ok(b, j, cl),
{
    match a[j].parent {
        Option::Some(p) => {
            let h = choose|h: int|
                h >= cl && spec_distsq(
                    a[p as int].x as int,
                    a[p as int].y as int,
                    a[j].x as int,
                    a[j].y as int,
                ) == #[trigger] spec_sq(a[p as int].r + a[j].r + h);
            assert(h >= cl && spec_distsq(
                b[p as int].x as int,
                b[p as int].y as int,
                b[j].x as int,
                b[j].y as int,
            ) == spec_sq(b[p as int].r + b[j].r + h));
            assert forall|i2: int| 0 <= i2 < j && i2 != p implies spec_distsq(
                (#[trigger] b[i2]).x as int,
                b[i2].y as int,
                b[j].x as int,
                b[j].y as int,
            ) > spec_sq(b[i2].r + b[j].r + cl) by {
                assert(spec_distsq(b[i2].x as int, b[i2].y as int, b[j].x as int, b[j].y as int)
                    == spec_distsq(a[i2].x as int, a[i2].y as int, a[j].x as int, a[j].y as int));
            }
        },
        Option::None => {},
    }
}

/// Left edge of the tight bounding box: the least `x - r`, and at most 0 (the
/// box always contains the origin cell).
pub open spec fn box_lo_x(bs: Seq<Bubble>) -> int
    decreases bs.len(),
{
    if bs.len() == 0 {
        0
    } else {
        let m = box_lo_x(bs.drop_last());
        let v = bs.last().x - bs.last().r;
        if v < m {
            v
        } else {
            m
        }
    }
}

/// Right edge of the tight bounding box: the greatest `x + r`, and at least 1.
pub open spec fn box_hi_x(bs: Seq<Bubble>) -> int
    decreases bs.len(),
{
    if bs.len() == 0 {
        1
    } else {
        let m = box_hi_x(bs.drop_last());
        let v = bs.last().x + bs.last().r;
        if v > m {
            v
        } else {
            m
        }
    }
}

/// Top edge of the tight bounding box: the least `y - r`, and at most 0.
pub open spec fn box_lo_y(bs: Seq<Bubble>) -> int
    decreases bs.len(),
{
    if bs.len() == 0 {
        0
    } else {
        let m = box_lo_y(bs.drop_last());
        let v = bs.last().y - bs.last().r;
        if v < m {
            v
        } else {
            m
        }
    }
}

/// Bottom edge of the tight bounding box: the greatest `y + r`, and at least 1.
pub open spec fn box_hi_y(bs: Seq<Bubble>) -> int
    decreases bs.len(),
{
    if bs.len() == 0 {
        1
    } else {
        let m = box_hi_y(bs.drop_last());
        let v = bs.last().y + bs.last().r;
        if v > m {
            v
        } else {
            m
        }
    }
}

/// The tight box bounds every bubble in the list.
proof fn lemma_box_bounds(bs: Seq<Bubble>, j: int)
    requires
        0 <= j < bs.len(),
    ensures
        box_lo_x(bs) <= bs[j].x - bs[j].r && bs[j].x + bs[j].r <= box_hi_x(bs),
        box_lo_y(bs) <= bs[j].y - bs[j].r && bs[j].y + bs[j].r <= box_hi_y(bs),
    decreases bs.len(),
{
    if j < bs.len() - 1 {
        lemma_box_bounds(bs.drop_last(), j);
    }
}

/// A space station: the seeded generator, the bubble layout with its bounding
/// box, the constraint map derived from it, the generation parameters, and
/// diagnostic counters.
#[derive(Debug, Clone)]
pub struct WaveStation {
    /// The seed the station was created from.
    pub seed: u64,
    /// Generator state; every random choice of the station draws from here.
    pub prng: Xorshift64,
    /// Sum of the radii of all bubbles so far.
    pub size: usize,
    /// Width of the bounding box around the bubbles.
    pub width: usize,
    /// Height of the bounding box around the bubbles.
    pub height: usize,
    /// The bubbles, in birth order; parents precede children.
    pub bubbles: Vec<Bubble>,
    /// Width of the constraint map, in tile cells.
    pub cwidth: usize,
    /// Height of the constraint map, in tile cells.
    pub cheight: usize,
    /// The constraint map: one mask of admissible tiles per cell, row-major.
    pub cmap: Vec<u128>,
    /// Probability to grow a bubble, in units of `2^-64`.
    pub bubble_p: u64,
    /// Probability to extend a hallway, in units of `2^-64`.
    pub hallway_p: u64,
    /// Minimum bubble radius.
    pub smallest: usize,
    /// Required clearance between bubble rims.
    pub clearance: usize,
    /// Tile cells per bubble unit.
    pub scale: usize,
    /// Restart budget for collapsing the constraint map.
    pub attempts: u64,
    /// Candidate placements tried so far.
    pub bubble_cycles: u64,
    /// Collapse attempts started so far.
    pub wfc_attempts: u64,
    /// Engine loop iterations so far.
    pub wfc_cycles: u64,
    /// Cell propagations so far.
    pub wfc_propagations: u64,
}

impl WaveStation {
    /// The station's steady-state invariant: parameters in supported ranges,
    /// every bubble properly inside the bounding box with parents preceding
    /// children, bubbles pairwise separated, and the constraint map of the
    /// recorded dimensions with only catalog bits set.
    pub open spec fn wf(self) -> bool {
        &&& self.smallest <= SMALLEST_LIMIT
        &&& self.clearance <= CLEARANCE_LIMIT
        &&& 1 <= self.scale <= SCALE_LIMIT
        &&& self.size <= SIZE_LIMIT + RADIUS_LIMIT
        &&& self.size == radii_sum(self.bubbles@)
        &&& 1 <= self.width <= WIDTH_LIMIT
        &&& 1 <= self.height <= WIDTH_LIMIT
        &&& self.bubbles@.len() >= 1
        &&& forall|i: int|
            0 <= i < self.bubbles@.len() ==> wf_bubble(
                #[trigger] self.bubbles@[i],
                i,
                self.width as int,
                self.height as int,
                self.smallest as int,
            )
        &&& separated(self.bubbles@, self.clearance as int)
        &&& self.cmap@.len() == self.cwidth * self.cheight
        &&& forall|k: int|
            0 <= k < self.cmap@.len() ==> (#[trigger] self.cmap@[k]) & crate::tiles::TILE_ALL
                == self.cmap@[k]
    }

    /// Create a station: seed the generator (from the host's randomness when
    /// no seed is given), place one bubble of random radius at the origin,
    /// grow the layout toward the requested size, and center it.
    pub fn new(
        seed: Option<u64>,
        size: Option<usize>,
        bubble_p: u64,
        hallway_p: u64,
        smallest: usize,
        clearance: usize,
        scale: usize,
        attempts: u64,
    ) -> (r: WaveStation)
        requires
            smallest <= SMALLEST_LIMIT,
            clearance <= CLEARANCE_LIMIT,
            1 <= scale <= SCALE_LIMIT,
            size matches Option::Some(s) ==> s <= SIZE_LIMIT,
        ensures
            r.wf(),
            seed matches Option::Some(s) ==> r.seed == s,
            r.bubble_p == bubble_p,
            r.hallway_p == hallway_p,
            r.smallest == smallest,
            r.clearance == clearance,
            r.scale == scale,
            r.attempts == attempts,
            r.cmap@.len() == 0,
            r.wfc_attempts == 0,
            r.wfc_cycles == 0,
            r.wfc_propagations == 0,
            r.bubble_cycles <= GEN_CYCLE_LIMIT,
            // the first bubble is the root, with one Poisson-like radius draw
            // from the seeded generator
            r.bubbles@[0].parent is None,
            r.bubbles@[0].r == smallest + crate::prng::poisson_count(
                r.seed,
                bubble_p,
                crate::prng::POISSON_CAP as nat,
            ),
            // the layout grows to the requested size unless placement stalls
            size matches Option::Some(sz) ==> r.size >= sz || r.bubble_cycles
                >= GEN_CYCLE_LIMIT || r.bubble_cycles == u64::MAX,
            // without a size request the station is the single centered
            // bubble and the generator has made exactly that one draw
            size is None ==> r.bubbles@.len() == 1 && r.size == r.bubbles@[0].r && r.prng.0
                == crate::prng::poisson_state(r.seed, bubble_p, crate::prng::POISSON_CAP as nat),
            size is None && r.bubbles@[0].r >= 1 ==> r.width == 2 * r.bubbles@[0].r + 1
                && r.height == 2 * r.bubbles@[0].r + 1 && r.bubbles@[0].x == r.bubbles@[0].r
                && r.bubbles@[0].y == r.bubbles@[0].r,
    {
        let seed = match seed {
            Option::Some(s) => s,
            Option::None => random_u64(),
        };
        let mut self_ = WaveStation {
            seed,
            prng: Xorshift64(seed),
            size: 0,
            width: 0,
            height: 0,
            bubbles: Vec::new(),
            cwidth: 0,
            cheight: 0,
            cmap: Vec::new(),
            bubble_p,
            hallway_p,
            smallest,
            clearance,
            scale,
            attempts,
            bubble_cycles: 0,
            wfc_attempts: 0,
            wfc_cycles: 0,
            wfc_propagations: 0,
        };
        let r0 = smallest + (self_.prng.poisson(bubble_p) as usize);
        self_.bubbles.push(Bubble { x: 0, y: 0, r: r0, parent: Option::None });
        self_.size = r0;
        proof {
            assert(boxed(self_.bubbles@, -(r0 as int), r0 + 1, -(r0 as int), r0 + 1));
            lemma_radii_sum_push(Seq::<Bubble>::empty(), self_.bubbles@[0]);
            assert(Seq::<Bubble>::empty().push(self_.bubbles@[0]) =~= self_.bubbles@);
        }
        let ghost pre_center = self_.bubbles@;
        self_.center();
        proof {
            lemma_radii_sum_same(self_.bubbles@, pre_center);
            // the tight box of the single origin bubble
            assert(pre_center.drop_last() =~= Seq::<Bubble>::empty());
            assert(box_lo_x(Seq::<Bubble>::empty()) == 0 && box_hi_x(Seq::<Bubble>::empty()) == 1
                && box_lo_y(Seq::<Bubble>::empty()) == 0 && box_hi_y(Seq::<Bubble>::empty()) == 1);
        }
        match size {
            Option::Some(sz) => {
                if sz > self_.size {
                    self_.gen_bubbles(sz - self_.size);
                }
            },
            Option::None => {},
        }
        self_
    }

    /// Grow the layout by roughly `delta` size units: repeatedly pick a
    /// random parent bubble, direction, radius and hallway length, and accept
    /// the candidate unless it comes too close to another bubble or would
    /// push the layout outside the supported span. The layout is re-centered
    /// afterwards, and the constraint map is cleared, to be reseeded from the
    /// new layout on the next collapse.
    #[verifier::loop_isolation(false)]
    #[verifier::rlimit(100)]
    pub fn gen_bubbles(&mut self, delta: usize)
        requires
            old(self).wf(),
            old(self).size + delta <= SIZE_LIMIT,
        ensures
            final(self).wf(),
            final(self).bubbles@.len() >= old(self).bubbles@.len(),
            final(self).size >= old(self).size,
            final(self).size >= old(self).size + delta || final(self).bubble_cycles >= old(
                self,
            ).bubble_cycles + GEN_CYCLE_LIMIT || final(self).bubble_cycles == u64::MAX,
            final(self).bubble_cycles <= old(self).bubble_cycles + GEN_CYCLE_LIMIT,
            final(self).bubble_cycles >= old(self).bubble_cycles,
            // existing bubbles keep their radius, parent and relative geometry
            forall|i: int|
                0 <= i < old(self).bubbles@.len() ==> (#[trigger] final(self).bubbles@[i]).r == old(
                    self,
                ).bubbles@[i].r && final(self).bubbles@[i].parent == old(self).bubbles@[i].parent,
            forall|i: int, j: int|
                0 <= i < old(self).bubbles@.len() && 0 <= j < old(self).bubbles@.len()
                    ==> spec_distsq(
                    (#[trigger] final(self).bubbles@[i]).x as int,
                    final(self).bubbles@[i].y as int,
                    (#[trigger] final(self).bubbles@[j]).x as int,
                    final(self).bubbles@[j].y as int,
                ) == spec_distsq(
                    old(self).bubbles@[i].x as int,
                    old(self).bubbles@[i].y as int,
                    old(self).bubbles@[j].x as int,
                    old(self).bubbles@[j].y as int,
                ),
            // the layout grew by exactly the appended radii
            final(self).size == old(self).size + radii_sum(
                final(self).bubbles@.skip(old(self).bubbles@.len() as int),
            ),
            // each appended bubble hangs one axis-aligned hallway off its
            // parent and clears every other bubble strictly
            forall|j: int|
                old(self).bubbles@.len() <= j < final(self).bubbles@.len() ==> appended_ok(
                    final(self).bubbles@,
                    j,
                    old(self).clearance as int,
                ),
            final(self).seed == old(self).seed,
            final(self).bubble_p == old(self).bubble_p,
            final(self).hallway_p == old(self).hallway_p,
            final(self).smallest == old(self).smallest,
            final(self).clearance == old(self).clearance,
            final(self).scale == old(self).scale,
            final(self).attempts == old(self).attempts,
            final(self).cmap@.len() == 0,
            final(self).cwidth == 0,
            final(self).cheight == 0,
            final(self).wfc_attempts == old(self).wfc_attempts,
            final(self).wfc_cycles == old(self).wfc_cycles,
            final(self).wfc_propagations == old(self).wfc_propagations,
    {
        let target = self.size + delta;
        let n0 = self.bubbles.len();
        // bounding box of the current layout, including the origin cell
        let mut lower_x: i64 = 0;
        let mut lower_y: i64 = 0;
        let mut upper_x: i64 = 1;
        let mut upper_y: i64 = 1;
        let mut i: usize = 0;
        while i < n0
            invariant
                *self == *old(self),
                i <= n0,
                lower_x == 0 && 1 <= upper_x <= SPAN_LIMIT,
                lower_y == 0 && 1 <= upper_y <= SPAN_LIMIT,
                forall|j: int|
                    0 <= j < i ==> {
                        let b = #[trigger] self.bubbles@[j];
                        &&& lower_x <= b.x - b.r && b.x + b.r <= upper_x
                        &&& lower_y <= b.y - b.r && b.y + b.r <= upper_y
                    },
            decreases n0 - i,
        {
            let b = self.bubbles[i];
            let rr = b.r as i64;
            if b.x - rr < lower_x {
                lower_x = b.x - rr;
            }
            if b.y - rr < lower_y {
                lower_y = b.y - rr;
            }
            if b.x + rr > upper_x {
                upper_x = b.x + rr;
            }
            if b.y + rr > upper_y {
                upper_y = b.y + rr;
            }
            proof {
                let b0 = self.bubbles@[i as int];
                assert(0 <= b0.x - b0.r && b0.x + b0.r < self.width as int);
                assert(0 <= b0.y - b0.r && b0.y + b0.r < self.height as int);
            }
            i = i + 1;
        }
        let mut cycles: u64 = 0;
        while self.size < target && cycles < GEN_CYCLE_LIMIT
            invariant
                cycles <= GEN_CYCLE_LIMIT,
                target <= SIZE_LIMIT,
                self.size <= SIZE_LIMIT + RADIUS_LIMIT,
                self.smallest <= SMALLEST_LIMIT,
                self.clearance <= CLEARANCE_LIMIT,
                1 <= self.scale <= SCALE_LIMIT,
                self.bubbles@.len() >= 1,
                self.bubbles@.len() >= old(self).bubbles@.len(),
                self.size >= old(self).size,
                lower_x <= 0 && upper_x >= 1,
                lower_y <= 0 && upper_y >= 1,
                upper_x - lower_x <= SPAN_LIMIT,
                upper_y - lower_y <= SPAN_LIMIT,
                forall|j: int|
                    0 <= j < self.bubbles@.len() ==> {
                        let b = #[trigger] self.bubbles@[j];
                        &&& lower_x <= b.x - b.r && b.x + b.r <= upper_x
                        &&& lower_y <= b.y - b.r && b.y + b.r <= upper_y
                        &&& self.smallest <= b.r <= RADIUS_LIMIT
                        &&& match b.parent {
                            Option::Some(p) => 0 <= p < j,
                            Option::None => j == 0,
                        }
                    },
                separated(self.bubbles@, self.clearance as int),
                forall|i: int| 0 <= i < n0 ==> self.bubbles@[i] == old(self).bubbles@[i],
                self.size == old(self).size + radii_sum(self.bubbles@.skip(n0 as int)),
                forall|j: int|
                    n0 <= j < self.bubbles@.len() ==> appended_ok(
                        self.bubbles@,
                        j,
                        self.clearance as int,
                    ),
                self.seed == old(self).seed,
                self.bubble_p == old(self).bubble_p,
                self.hallway_p == old(self).hallway_p,
                self.smallest == old(self).smallest,
                self.clearance == old(self).clearance,
                self.scale == old(self).scale,
                self.attempts == old(self).attempts,
                self.bubble_cycles == old(self).bubble_cycles,
                self.wfc_attempts == old(self).wfc_attempts,
                self.wfc_cycles == old(self).wfc_cycles,
                self.wfc_propagations == old(self).wfc_propagations,
            decreases GEN_CYCLE_LIMIT - cycles,
        {
            cycles = cycles + 1;
            let n = self.bubbles.len();
            // one draw each: parent, direction, radius, hallway length
            let pi = self.prng.range(0, n);
            let d = self.prng.range(0, 4);
            let (dir_x, dir_y): (i64, i64) = if d == 0 {
                (0, 1)
            } else if d == 1 {
                (1, 0)
            } else if d == 2 {
                (0, -1)
            } else {
                (-1, 0)
            };
            let rr = self.smallest + (self.prng.poisson(self.bubble_p) as usize);
            let hallway = self.clearance + (self.prng.poisson(self.hallway_p) as usize);
            let parent = self.bubbles[pi];
            let step = (parent.r + rr + hallway) as i64;
            proof {
                assert(-step <= dir_x * step <= step && -step <= dir_y * step <= step)
                    by (nonlinear_arith)
                    requires
                        -1 <= dir_x <= 1,
                        -1 <= dir_y <= 1,
                        step >= 0,
                ;
            }
            let x = parent.x + dir_x * step;
            let y = parent.y + dir_y * step;
            let rr64 = rr as i64;
            // reject candidates that would grow the layout beyond the span
            let nlx = if x - rr64 < lower_x {
                x - rr64
            } else {
                lower_x
            };
            let nux = if x + rr64 > upper_x {
                x + rr64
            } else {
                upper_x
            };
            let nly = if y - rr64 < lower_y {
                y - rr64
            } else {
                lower_y
            };
            let nuy = if y + rr64 > upper_y {
                y + rr64
            } else {
                upper_y
            };
            if nux - nlx > SPAN_LIMIT || nuy - nly > SPAN_LIMIT {
                continue ;
            }
            // reject candidates that come too close to any other bubble
            let mut collision = false;
            let mut k: usize = 0;
            while k < n && !collision
                invariant
                    k <= n,
                    !collision ==> forall|j: int|
                        0 <= j < k && j != pi ==> spec_distsq(
                            x as int,
                            y as int,
                            (#[trigger] self.bubbles@[j]).x as int,
                            self.bubbles@[j].y as int,
                        ) > spec_sq(rr + self.bubbles@[j].r + self.clearance),
                decreases n - k,
            {
                if k != pi {
                    let b = self.bubbles[k];
                    if distsq(x, y, b.x, b.y) <= sq(rr + b.r + self.clearance) {
                        collision = true;
                    }
                }
                k = k + 1;
            }
            if collision {
                continue ;
            }
            // accepted: the candidate keeps its clearance from every other
            // bubble, and sits exactly one hallway away from its parent
            proof {
                let px = parent.x as int;
                let py = parent.y as int;
                assert(spec_distsq(px, py, x as int, y as int) == spec_sq(step as int)) by (
                nonlinear_arith)
                    requires
                        (dir_x == 0 && (dir_y == 1 || dir_y == -1)) || (dir_y == 0 && (dir_x == 1
                            || dir_x == -1)),
                        x == parent.x + dir_x * step,
                        y == parent.y + dir_y * step,
                        px == parent.x as int,
                        py == parent.y as int,
                        spec_distsq(px, py, x as int, y as int) == spec_sq(x - px) + spec_sq(
                            y - py,
                        ),
                ;
                assert(spec_sq((parent.r + rr + self.clearance) as int) <= spec_sq(step as int))
                    by (nonlinear_arith)
                    requires
                        0 <= (parent.r + rr + self.clearance) as int <= step as int,
                ;
                let bs = self.bubbles@;
                let nb = Bubble { x, y, r: rr, parent: Option::Some(pi) };
                assert forall|i2: int, j2: int|
                    0 <= i2 < j2 < bs.push(nb).len() implies #[trigger] spec_distsq(
                    bs.push(nb)[i2].x as int,
                    bs.push(nb)[i2].y as int,
                    bs.push(nb)[j2].x as int,
                    bs.push(nb)[j2].y as int,
                ) >= spec_sq(bs.push(nb)[i2].r + bs.push(nb)[j2].r + self.clearance) by {
                    if j2 < bs.len() {
                        assert(bs.push(nb)[i2] == bs[i2] && bs.push(nb)[j2] == bs[j2]);
                    } else {
                        assert(bs.push(nb)[j2] == nb && bs.push(nb)[i2] == bs[i2]);
                        lemma_distsq_comm(x as int, y as int, bs[i2].x as int, bs[i2].y as int);
                        if i2 != pi {
                        } else {
                            assert(bs[i2] == parent);
                        }
                    }
                }
            }
            let ghost bs0 = self.bubbles@;
            self.bubbles.push(Bubble { x, y, r: rr, parent: Option::Some(pi) });
            self.size = self.size + rr;
            proof {
                let cl = self.clearance as int;
                let nb = Bubble { x, y, r: rr, parent: Option::Some(pi) };
                assert(self.bubbles@.skip(n0 as int) =~= bs0.skip(n0 as int).push(nb));
                lemma_radii_sum_push(bs0.skip(n0 as int), nb);
                // earlier appended bubbles are untouched by the push
                assert forall|j: int| n0 <= j < bs0.len() implies appended_ok(
                    self.bubbles@,
                    j,
                    cl,
                ) by {
                    lemma_appended_ok_push(bs0, nb, j, cl);
                }
                // the accepted bubble itself
                assert(self.bubbles@[bs0.len() as int] == nb);
                assert(self.bubbles@[pi as int] == parent);
                assert(hallway as int >= cl && spec_distsq(
                    parent.x as int,
                    parent.y as int,
                    nb.x as int,
                    nb.y as int,
                ) == spec_sq(parent.r + nb.r + (hallway as int)));
                assert((nb.x == parent.x || nb.y == parent.y)) by (nonlinear_arith)
                    requires
                        dir_x == 0 || dir_y == 0,
                        nb.x == parent.x + dir_x * step,
                        nb.y == parent.y + dir_y * step,
                ;
                assert forall|i2: int| 0 <= i2 < bs0.len() && i2 != pi implies spec_distsq(
                    (#[trigger] self.bubbles@[i2]).x as int,
                    self.bubbles@[i2].y as int,
                    nb.x as int,
                    nb.y as int,
                ) > spec_sq(self.bubbles@[i2].r + nb.r + cl) by {
                    assert(self.bubbles@[i2] == bs0[i2]);
                    lemma_distsq_comm(x as int, y as int, bs0[i2].x as int, bs0[i2].y as int);
                }
                assert(appended_ok(self.bubbles@, bs0.len() as int, cl));
            }
            lower_x = nlx;
            upper_x = nux;
            lower_y = nly;
            upper_y = nuy;
        }
        if self.bubble_cycles <= u64::MAX - cycles {
            self.bubble_cycles = self.bubble_cycles + cycles;
        } else {
            self.bubble_cycles = u64::MAX;
        }
        proof {
            assert forall|j: int| 0 <= j < self.bubbles@.len() implies {
                let b = #[trigger] self.bubbles@[j];
                -2 * SPAN_LIMIT <= b.x <= 2 * SPAN_LIMIT && -2 * SPAN_LIMIT <= b.y <= 2 * SPAN_LIMIT
                    && b.r <= RADIUS_LIMIT
            } by {
                let b = self.bubbles@[j];
                assert(lower_x <= b.x - b.r && b.x + b.r <= upper_x);
                assert(lower_y <= b.y - b.r && b.y + b.r <= upper_y);
            }
        }
        proof {
            assert(boxed(
                self.bubbles@,
                lower_x as int,
                upper_x as int,
                lower_y as int,
                upper_y as int,
            ));
        }
        let ghost bs_pre = self.bubbles@;
        self.center();
        proof {
            let n0i = n0 as int;
            let cl = self.clearance as int;
            let bs = self.bubbles@;
            // radii are untouched by the translation, so every sum carries over
            lemma_radii_sum_same(bs, bs_pre);
            assert(bs_pre.take(n0i) =~= old(self).bubbles@);
            lemma_radii_sum_split(bs_pre, n0i);
            assert(bs.skip(n0i).len() == bs_pre.skip(n0i).len());
            assert forall|k: int| 0 <= k < bs.skip(n0i).len() implies bs.skip(n0i)[k].r == (
            #[trigger] bs_pre.skip(n0i)[k]).r by {
                assert(bs.skip(n0i)[k] == bs[n0i + k]);
                assert(bs_pre.skip(n0i)[k] == bs_pre[n0i + k]);
            }
            lemma_radii_sum_same(bs.skip(n0i), bs_pre.skip(n0i));
            // every appended bubble still hangs correctly off its parent:
            // the translation moved all bubbles by one common vector
            assert forall|j: int| n0i <= j < bs.len() implies appended_ok(bs, j, cl) by {
                lemma_appended_ok_translate(
                    bs_pre,
                    bs,
                    box_lo_x(bs_pre),
                    box_lo_y(bs_pre),
                    j,
                    cl,
                );
            }
        }
        self.cmap = Vec::new();
        self.cwidth = 0;
        self.cheight = 0;
    }


    /// Scale a bubble coordinate into a small-map grid of `sdim` cells.
    fn scale_to(v: i64, sdim: usize, dim: usize) -> (r: usize)
        requires
            0 <= v < dim,
            1 <= dim <= WIDTH_LIMIT,
            1 <= sdim <= 0xffff_ffff,
        ensures
            r == v as int * sdim as int / dim as int,
            r < sdim,
    {
        proof {
            let vi = v as int;
            let si = sdim as int;
            let di = dim as int;
            assert(0 <= vi * si <= 0x4000_0001 * 0xffff_ffff && vi * si / di < si)
                by (nonlinear_arith)
                requires
                    0 <= vi < di,
                    1 <= di <= 0x4000_0001,
                    1 <= si <= 0xffff_ffff,
            ;
        }
        ((v * (sdim as i64)) / (dim as i64)) as usize
    }

    /// Render a small overview map: hallways drawn as lines between scaled
    /// centers, and every scaled bubble center marked `o`.
    #[verifier::loop_isolation(false)]
    pub fn render_small_map(&self, swidth: usize, sheight: usize) -> (r: (usize, usize, Vec<u8>))
        requires
            self.wf(),
            1 <= swidth <= 0xffff_ffff,
            1 <= sheight <= 0xffff_ffff,
            swidth * sheight <= usize::MAX,
        ensures
            r.0 == swidth,
            r.1 == sheight,
            r.2@.len() == swidth * sheight,
            forall|m: int|
                0 <= m < r.2@.len() ==> is_line_glyph(#[trigger] r.2@[m]),
            forall|i: int|
                0 <= i < self.bubbles@.len() ==> {
                    let b = #[trigger] self.bubbles@[i];
                    r.2@[b.x * swidth / (self.width as int) + (b.y * sheight / (
                    self.height as int)) * swidth] == 0x6f
                },
    {
        let n = self.bubbles.len();
        let mut smap: Vec<u8> = Vec::new();
        let total = swidth * sheight;
        let mut m: usize = 0;
        while m < total
            invariant
                m <= total,
                smap@.len() == m,
                forall|q: int| 0 <= q < m ==> is_line_glyph(#[trigger] smap@[q]),
            decreases total - m,
        {
            smap.push(0x20);
            m = m + 1;
        }
        // hallways
        let mut i: usize = 0;
        while i < n
            invariant
                i <= n,
                smap@.len() == total,
                forall|q: int| 0 <= q < total ==> is_line_glyph(#[trigger] smap@[q]),
            decreases n - i,
        {
            let b = self.bubbles[i];
            let x = Self::scale_to(b.x, swidth, self.width);
            let y = Self::scale_to(b.y, sheight, self.height);
            match b.parent {
                Option::Some(pi) => {
                    let pb = self.bubbles[pi];
                    let px = Self::scale_to(pb.x, swidth, self.width);
                    let py = Self::scale_to(pb.y, sheight, self.height);
                    let ghost sm_pre = smap@;
                    draw_hall(&mut smap, swidth, sheight, x, y, px, py);
                    proof {
                        assert forall|q: int| 0 <= q < total implies is_line_glyph(
                            #[trigger] smap@[q],
                        ) by {
                            assert(is_line_glyph(sm_pre[q]));
                        }
                    }
                },
                Option::None => {},
            }
            i = i + 1;
        }
        // bubble centers
        let mut i: usize = 0;
        while i < n
            invariant
                i <= n,
                smap@.len() == total,
                forall|q: int| 0 <= q < total ==> is_line_glyph(#[trigger] smap@[q]),
                forall|j: int|
                    0 <= j < i ==> {
                        let b = #[trigger] self.bubbles@[j];
                        smap@[b.x * swidth / (self.width as int) + (b.y * sheight / (
                        self.height as int)) * swidth] == 0x6f
                    },
            decreases n - i,
        {
            let b = self.bubbles[i];
            let x = Self::scale_to(b.x, swidth, self.width);
            let y = Self::scale_to(b.y, sheight, self.height);
            proof {
                lemma_grid_index(swidth as int, sheight as int, x as int, y as int);
            }
            let ghost sm0 = smap@;
            smap[x + y * swidth] = 0x6f;
            proof {
                assert forall|j: int| 0 <= j < i + 1 implies {
                    let bb = #[trigger] self.bubbles@[j];
                    smap@[bb.x * swidth / (self.width as int) + (bb.y * sheight / (
                    self.height as int)) * swidth] == 0x6f
                } by {
                    let bb = self.bubbles@[j];
                    let qx = bb.x * swidth / (self.width as int);
                    let qy = bb.y * sheight / (self.height as int);
                    lemma_scaled_in_range(bb.x as int, swidth as int, self.width as int);
                    lemma_scaled_in_range(bb.y as int, sheight as int, self.height as int);
                    lemma_grid_index(swidth as int, sheight as int, qx, qy);
                    if j < i {
                        if qx + qy * swidth != x + y * swidth {
                            assert(smap@[qx + qy * swidth] == sm0[qx + qy * swidth]);
                        }
                    }
                }
            }
            i = i + 1;
        }
        (swidth, sheight, smap)
    }

    /// Render the bubble map at natural scale: bubble interiors as dots,
    /// hallways as lines, and every bubble center marked `o`.
    #[verifier::loop_isolation(false)]
    pub fn render_bubble_map(&self) -> (r: (usize, usize, Vec<u8>))
        requires
            self.wf(),
            self.width <= 0xffff_ffff,
            self.height <= 0xffff_ffff,
            self.width * self.height <= usize::MAX,
        ensures
            r.0 == self.width,
            r.1 == self.height,
            r.2@.len() == self.width * self.height,
            forall|m: int|
                0 <= m < r.2@.len() ==> is_dot_glyph(#[trigger] r.2@[m]),
            forall|i: int|
                0 <= i < self.bubbles@.len() ==> {
                    let b = #[trigger] self.bubbles@[i];
                    r.2@[b.x + b.y * self.width] == 0x6f
                },
            // every cell inside some bubble's disc is drawn on
            forall|i: int, x: int, y: int|
                0 <= i < self.bubbles@.len() && 0 <= x < self.width && 0 <= y < self.height
                    && #[trigger] in_disc(self.bubbles@, i, x, y) ==> r.2@[x + y * self.width]
                    != 0x20,
    {
        let n = self.bubbles.len();
        let w = self.width;
        let h = self.height;
        let mut bmap: Vec<u8> = Vec::new();
        let total = w * h;
        let mut m: usize = 0;
        while m < total
            invariant
                m <= total,
                bmap@.len() == m,
                forall|q: int| 0 <= q < m ==> is_dot_glyph(#[trigger] bmap@[q]),
            decreases total - m,
        {
            bmap.push(0x20);
            m = m + 1;
        }
        // bubble interiors
        let mut i: usize = 0;
        while i < n
            invariant
                i <= n,
                bmap@.len() == total,
                forall|q: int| 0 <= q < total ==> is_dot_glyph(#[trigger] bmap@[q]),
                forall|jj: int, x: int, y: int|
                    0 <= jj < i && 0 <= x < w && 0 <= y < h && #[trigger] in_disc(
                        self.bubbles@,
                        jj,
                        x,
                        y,
                    ) ==> bmap@[x + y * w] == 0x2e,
            decreases n - i,
        {
            let b = self.bubbles[i];
            let mut y: usize = 0;
            while y < h
                invariant
                    y <= h,
                    bmap@.len() == total,
                    forall|q: int| 0 <= q < total ==> is_dot_glyph(#[trigger] bmap@[q]),
                    forall|jj: int, x2: int, y2: int|
                        0 <= jj < i && 0 <= x2 < w && 0 <= y2 < h && #[trigger] in_disc(
                            self.bubbles@,
                            jj,
                            x2,
                            y2,
                        ) ==> bmap@[x2 + y2 * w] == 0x2e,
                    forall|x2: int, y2: int|
                        0 <= x2 < w && 0 <= y2 < y && #[trigger] in_disc(
                            self.bubbles@,
                            i as int,
                            x2,
                            y2,
                        ) ==> bmap@[x2 + y2 * w] == 0x2e,
                decreases h - y,
            {
                let mut x: usize = 0;
                while x < w
                    invariant
                        x <= w,
                        y < h,
                        bmap@.len() == total,
                        forall|q: int| 0 <= q < total ==> is_dot_glyph(#[trigger] bmap@[q]),
                        forall|jj: int, x2: int, y2: int|
                            0 <= jj < i && 0 <= x2 < w && 0 <= y2 < h && #[trigger] in_disc(
                                self.bubbles@,
                                jj,
                                x2,
                                y2,
                            ) ==> bmap@[x2 + y2 * w] == 0x2e,
                        forall|x2: int, y2: int|
                            0 <= x2 < w && 0 <= y2 < y && #[trigger] in_disc(
                                self.bubbles@,
                                i as int,
                                x2,
                                y2,
                            ) ==> bmap@[x2 + y2 * w] == 0x2e,
                        forall|x2: int|
                            0 <= x2 < x && #[trigger] in_disc(self.bubbles@, i as int, x2, y as int)
                                ==> bmap@[x2 + (y as int) * w] == 0x2e,
                    decreases w - x,
                {
                    let ghost bm_prev = bmap@;
                    if distsq(x as i64, y as i64, b.x, b.y) <= sq(b.r) {
                        proof {
                            lemma_grid_index(w as int, h as int, x as int, y as int);
                        }
                        bmap[x + y * w] = 0x2e;
                    } else {
                        proof {
                            assert(!in_disc(self.bubbles@, i as int, x as int, y as int));
                        }
                    }
                    proof {
                        // the only write in this pass is a dot, so every cell
                        // already claimed as a dot stays one
                        assert forall|q: int|
                            0 <= q < total && bm_prev[q] == 0x2e implies bmap@[q] == 0x2e by {}
                        assert forall|jj: int, x2: int, y2: int|
                            0 <= jj < i && 0 <= x2 < w && 0 <= y2 < h && #[trigger] in_disc(
                                self.bubbles@,
                                jj,
                                x2,
                                y2,
                            ) implies bmap@[x2 + y2 * w] == 0x2e by {
                            lemma_grid_index(w as int, h as int, x2, y2);
                        }
                        assert forall|x2: int, y2: int|
                            0 <= x2 < w && 0 <= y2 < y && #[trigger] in_disc(
                                self.bubbles@,
                                i as int,
                                x2,
                                y2,
                            ) implies bmap@[x2 + y2 * w] == 0x2e by {
                            lemma_grid_index(w as int, h as int, x2, y2);
                        }
                        assert forall|x2: int|
                            0 <= x2 < x + 1 && #[trigger] in_disc(
                                self.bubbles@,
                                i as int,
                                x2,
                                y as int,
                            ) implies bmap@[x2 + (y as int) * w] == 0x2e by {
                            lemma_grid_index(w as int, h as int, x2, y as int);
                        }
                    }
                    x = x + 1;
                }
                y = y + 1;
            }
            i = i + 1;
        }
        // hallways
        let mut i: usize = 0;
        while i < n
            invariant
                i <= n,
                bmap@.len() == total,
                forall|q: int| 0 <= q < total ==> is_dot_glyph(#[trigger] bmap@[q]),
                forall|jj: int, x2: int, y2: int|
                    0 <= jj < n && 0 <= x2 < w && 0 <= y2 < h && #[trigger] in_disc(
                        self.bubbles@,
                        jj,
                        x2,
                        y2,
                    ) ==> bmap@[x2 + y2 * w] != 0x20,
            decreases n - i,
        {
            let b = self.bubbles[i];
            match b.parent {
                Option::Some(pi) => {
                    let pb = self.bubbles[pi];
                    let ghost bm_pre = bmap@;
                    draw_hall(
                        &mut bmap,
                        w,
                        h,
                        b.x as usize,
                        b.y as usize,
                        pb.x as usize,
                        pb.y as usize,
                    );
                    proof {
                        assert forall|q: int| 0 <= q < total implies is_dot_glyph(
                            #[trigger] bmap@[q],
                        ) by {
                            assert(is_dot_glyph(bm_pre[q]));
                        }
                        assert forall|jj: int, x2: int, y2: int|
                            0 <= jj < n && 0 <= x2 < w && 0 <= y2 < h && #[trigger] in_disc(
                                self.bubbles@,
                                jj,
                                x2,
                                y2,
                            ) implies bmap@[x2 + y2 * w] != 0x20 by {
                            lemma_grid_index(w as int, h as int, x2, y2);
                            assert(bm_pre[x2 + y2 * w] != 0x20);
                        }
                    }
                },
                Option::None => {},
            }
            i = i + 1;
        }
        // bubble centers
        let mut i: usize = 0;
        while i < n
            invariant
                i <= n,
                bmap@.len() == total,
                forall|q: int| 0 <= q < total ==> is_dot_glyph(#[trigger] bmap@[q]),
                forall|j: int|
                    0 <= j < i ==> {
                        let bb = #[trigger] self.bubbles@[j];
                        bmap@[bb.x + bb.y * w] == 0x6f
                    },
                forall|jj: int, x2: int, y2: int|
                    0 <= jj < n && 0 <= x2 < w && 0 <= y2 < h && #[trigger] in_disc(
                        self.bubbles@,
                        jj,
                        x2,
                        y2,
                    ) ==> bmap@[x2 + y2 * w] != 0x20,
            decreases n - i,
        {
            let b = self.bubbles[i];
            proof {
                lemma_grid_index(w as int, h as int, b.x as int, b.y as int);
            }
            let ghost bm0 = bmap@;
            bmap[(b.x as usize) + (b.y as usize) * w] = 0x6f;
            proof {
                assert forall|j: int| 0 <= j < i + 1 implies {
                    let bb = #[trigger] self.bubbles@[j];
                    bmap@[bb.x + bb.y * w] == 0x6f
                } by {
                    let bb = self.bubbles@[j];
                    lemma_grid_index(w as int, h as int, bb.x as int, bb.y as int);
                    if j < i && bb.x + bb.y * w != b.x + b.y * w {
                        assert(bmap@[bb.x + bb.y * w] == bm0[bb.x + bb.y * w]);
                    }
                }
                assert forall|jj: int, x2: int, y2: int|
                    0 <= jj < n && 0 <= x2 < w && 0 <= y2 < h && #[trigger] in_disc(
                        self.bubbles@,
                        jj,
                        x2,
                        y2,
                    ) implies bmap@[x2 + y2 * w] != 0x20 by {
                    lemma_grid_index(w as int, h as int, x2, y2);
                    assert(bm0[x2 + y2 * w] != 0x20);
                }
            }
            i = i + 1;
        }
        (w, h, bmap)
    }

    /// Translate the layout so its tight bounding box starts at the origin,
    /// and record the box's dimensions. Distances between bubbles are
    /// preserved.
    #[verifier::loop_isolation(false)]
    fn center(&mut self)
        requires
            old(self).bubbles@.len() >= 1,
            forall|i: int|
                0 <= i < old(self).bubbles@.len() ==> {
                    let b = #[trigger] old(self).bubbles@[i];
                    -2 * SPAN_LIMIT <= b.x <= 2 * SPAN_LIMIT && -2 * SPAN_LIMIT <= b.y <= 2
                        * SPAN_LIMIT && b.r <= RADIUS_LIMIT
                },
            exists|lox: int, hix: int, loy: int, hiy: int|
                #[trigger] boxed(old(self).bubbles@, lox, hix, loy, hiy),
        ensures
            final(self).bubbles@.len() == old(self).bubbles@.len(),
            1 <= final(self).width <= WIDTH_LIMIT,
            1 <= final(self).height <= WIDTH_LIMIT,
            final(self).width == box_hi_x(old(self).bubbles@) + 1 - box_lo_x(old(self).bubbles@),
            final(self).height == box_hi_y(old(self).bubbles@) + 1 - box_lo_y(old(self).bubbles@),
            forall|i: int|
                0 <= i < final(self).bubbles@.len() ==> (#[trigger] final(self).bubbles@[i]).x
                    == old(self).bubbles@[i].x - box_lo_x(old(self).bubbles@)
                    && final(self).bubbles@[i].y == old(self).bubbles@[i].y - box_lo_y(
                    old(self).bubbles@,
                ),
            forall|i: int|
                0 <= i < final(self).bubbles@.len() ==> {
                    let b = #[trigger] final(self).bubbles@[i];
                    &&& 0 <= b.x - b.r
                    &&& b.x + b.r < final(self).width
                    &&& 0 <= b.y - b.r
                    &&& b.y + b.r < final(self).height
                    &&& b.r == old(self).bubbles@[i].r
                    &&& b.parent == old(self).bubbles@[i].parent
                },
            forall|i: int, j: int|
                0 <= i < final(self).bubbles@.len() && 0 <= j < final(self).bubbles@.len()
                    ==> spec_distsq(
                    #[trigger] final(self).bubbles@[i].x as int,
                    final(self).bubbles@[i].y as int,
                    #[trigger] final(self).bubbles@[j].x as int,
                    final(self).bubbles@[j].y as int,
                ) == spec_distsq(
                    old(self).bubbles@[i].x as int,
                    old(self).bubbles@[i].y as int,
                    old(self).bubbles@[j].x as int,
                    old(self).bubbles@[j].y as int,
                ),
            final(self).seed == old(self).seed,
            final(self).prng == old(self).prng,
            final(self).size == old(self).size,
            final(self).cwidth == old(self).cwidth,
            final(self).cheight == old(self).cheight,
            final(self).cmap == old(self).cmap,
            final(self).bubble_p == old(self).bubble_p,
            final(self).hallway_p == old(self).hallway_p,
            final(self).smallest == old(self).smallest,
            final(self).clearance == old(self).clearance,
            final(self).scale == old(self).scale,
            final(self).attempts == old(self).attempts,
            final(self).bubble_cycles == old(self).bubble_cycles,
            final(self).wfc_attempts == old(self).wfc_attempts,
            final(self).wfc_cycles == old(self).wfc_cycles,
            final(self).wfc_propagations == old(self).wfc_propagations,
    {
        let ghost (glox, ghix, gloy, ghiy): (int, int, int, int) = choose|
            lox: int,
            hix: int,
            loy: int,
            hiy: int,
        | boxed(old(self).bubbles@, lox, hix, loy, hiy);
        let n = self.bubbles.len();
        let mut lower_x: i64 = 0;
        let mut lower_y: i64 = 0;
        let mut upper_x: i64 = 1;
        let mut upper_y: i64 = 1;
        let mut i: usize = 0;
        while i < n
            invariant
                i <= n,
                glox <= lower_x <= 0,
                1 <= upper_x <= ghix,
                gloy <= lower_y <= 0,
                1 <= upper_y <= ghiy,
                lower_x == box_lo_x(self.bubbles@.take(i as int)),
                upper_x == box_hi_x(self.bubbles@.take(i as int)),
                lower_y == box_lo_y(self.bubbles@.take(i as int)),
                upper_y == box_hi_y(self.bubbles@.take(i as int)),
            decreases n - i,
        {
            let b = self.bubbles[i];
            let rr = b.r as i64;
            proof {
                let pre = self.bubbles@.take(i as int);
                let cur = self.bubbles@.take(i as int + 1);
                assert(cur.drop_last() =~= pre);
                assert(cur.last() == self.bubbles@[i as int]);
            }
            if b.x - rr < lower_x {
                lower_x = b.x - rr;
            }
            if b.y - rr < lower_y {
                lower_y = b.y - rr;
            }
            if b.x + rr > upper_x {
                upper_x = b.x + rr;
            }
            if b.y + rr > upper_y {
                upper_y = b.y + rr;
            }
            i = i + 1;
        }
        proof {
            assert(self.bubbles@.take(n as int) =~= self.bubbles@);
            // the tight box also bounds every bubble, for the shift below
            assert forall|j: int| 0 <= j < n implies {
                let b = #[trigger] self.bubbles@[j];
                &&& lower_x <= b.x - b.r && b.x + b.r <= upper_x
                &&& lower_y <= b.y - b.r && b.y + b.r <= upper_y
            } by {
                lemma_box_bounds(self.bubbles@, j);
            }
        }
        let lx = lower_x;
        let ly = lower_y;
        let wi = (upper_x + 1 - lower_x) as usize;
        let he = (upper_y + 1 - lower_y) as usize;
        let mut shifted: Vec<Bubble> = Vec::new();
        let mut i: usize = 0;
        while i < n
            invariant
                i <= n,
                shifted@.len() == i,
                forall|j: int|
                    0 <= j < i ==> {
                        let b = #[trigger] shifted@[j];
                        let b0 = old(self).bubbles@[j];
                        b.x == b0.x - lx && b.y == b0.y - ly && b.r == b0.r && b.parent == b0.parent
                    },
            decreases n - i,
        {
            let b = self.bubbles[i];
            shifted.push(Bubble { x: b.x - lx, y: b.y - ly, r: b.r, parent: b.parent });
            i = i + 1;
        }
        self.bubbles = shifted;
        self.width = wi;
        self.height = he;
        proof {
            assert forall|i: int, j: int|
                0 <= i < self.bubbles@.len() && 0 <= j < self.bubbles@.len() implies spec_distsq(
                #[trigger] self.bubbles@[i].x as int,
                self.bubbles@[i].y as int,
                #[trigger] self.bubbles@[j].x as int,
                self.bubbles@[j].y as int,
            ) == spec_distsq(
                old(self).bubbles@[i].x as int,
                old(self).bubbles@[i].y as int,
                old(self).bubbles@[j].x as int,
                old(self).bubbles@[j].y as int,
            ) by {
                let a = self.bubbles@[i];
                let b = self.bubbles@[j];
                let a0 = old(self).bubbles@[i];
                let b0 = old(self).bubbles@[j];
                assert(b.x - a.x == b0.x - a0.x);
                assert(b.y - a.y == b0.y - a0.y);
            }
        }
    }
}


/// Cell `(x, y)` lies within bubble `i` of the layout, at natural scale.
pub open spec fn in_disc(bs: Seq<Bubble>, i: int, x: int, y: int) -> bool {
    spec_distsq(x, y, bs[i].x as int, bs[i].y as int) <= spec_sq(bs[i].r as int)
}

/// A byte the overview renderers may emit: space, line pieces, a crossing,
/// or a bubble center.
pub open spec fn is_line_glyph(b: u8) -> bool {
    b == 0x20 || b == 0x2d || b == 0x7c || b == 0x2b || b == 0x6f
}

/// A byte the bubble-map renderer may emit: the overview glyphs or an
/// interior dot.
pub open spec fn is_dot_glyph(b: u8) -> bool {
    is_line_glyph(b) || b == 0x2e
}

/// Grid indices stay within a `w` by `h` buffer.
proof fn lemma_grid_index(w: int, h: int, x: int, y: int)
    requires
        0 <= x < w,
        0 <= y < h,
    ensures
        0 <= x + y * w < w * h,
        y * w >= 0,
{
    assert(0 <= x + y * w < w * h && y * w >= 0) by (nonlinear_arith)
        requires
            0 <= x < w,
            0 <= y < h,
    ;
}

/// A scaled bubble coordinate lands inside the target dimension.
proof fn lemma_scaled_in_range(v: int, sdim: int, dim: int)
    requires
        0 <= v < dim,
        1 <= sdim,
        1 <= dim,
    ensures
        0 <= v * sdim / dim < sdim,
{
    assert(0 <= v * sdim / dim < sdim) by (nonlinear_arith)
        requires
            0 <= v < dim,
            1 <= sdim,
            1 <= dim,
    ;
}

/// Draw the two axis-aligned legs of a hallway between two grid positions:
/// a horizontal leg at the first position's row and a vertical leg at its
/// column, turning crossings of the two line styles into `+`.
#[verifier::loop_isolation(false)]
fn draw_hall(map: &mut Vec<u8>, w: usize, h: usize, x: usize, y: usize, px: usize, py: usize)
    requires
        x < w,
        y < h,
        px < w,
        py < h,
        old(map)@.len() == w * h,
    ensures
        final(map)@.len() == old(map)@.len(),
        forall|q: int|
            0 <= q < final(map)@.len() ==> #[trigger] final(map)@[q] == old(map)@[q]
                || final(map)@[q] == 0x2d || final(map)@[q] == 0x7c || final(map)@[q] == 0x2b,
{
    // the map's length, as a machine word, bounds the index arithmetic below
    let total = map.len();
    let lo_x = if x < px {
        x
    } else {
        px
    };
    let hi_x = if x < px {
        px
    } else {
        x
    };
    let mut cx = lo_x;
    while cx <= hi_x
        invariant
            lo_x <= cx,
            map@.len() == total,
            forall|q: int|
                0 <= q < map@.len() ==> #[trigger] map@[q] == old(map)@[q] || map@[q] == 0x2d
                    || map@[q] == 0x7c || map@[q] == 0x2b,
        decreases hi_x + 1 - cx,
    {
        proof {
            lemma_grid_index(w as int, h as int, cx as int, y as int);
        }
        let cur = map[cx + y * w];
        if cur == 0x7c {
            map[cx + y * w] = 0x2b;
        } else {
            map[cx + y * w] = 0x2d;
        }
        cx = cx + 1;
    }
    let lo_y = if y < py {
        y
    } else {
        py
    };
    let hi_y = if y < py {
        py
    } else {
        y
    };
    let mut cy = lo_y;
    while cy <= hi_y
        invariant
            lo_y <= cy,
            map@.len() == total,
            forall|q: int|
                0 <= q < map@.len() ==> #[trigger] map@[q] == old(map)@[q] || map@[q] == 0x2d
                    || map@[q] == 0x7c || map@[q] == 0x2b,
        decreases hi_y + 1 - cy,
    {
        proof {
            lemma_grid_index(w as int, h as int, x as int, cy as int);
        }
        let cur = map[x + cy * w];
        if cur == 0x2d {
            map[x + cy * w] = 0x2b;
        } else {
            map[x + cy * w] = 0x7c;
        }
        cy = cy + 1;
    }
}

/// Relies on `rand::thread_rng` and `rand::RngCore::next_u64` to pick a
/// starting seed when the caller gives none; nothing is assumed of the value.
#[verifier::external_body]
fn random_u64() -> u64 {
    rand::thread_rng().next_u64()
}

} // verus!
