//! The tile catalog: directions, per-tile adjacency bitmasks, and glyphs.
//!
//! Each tile owns one bit of a `u128` mask; a mask names a set of tiles. A
//! tile's constraint for a side is the mask of tiles permitted as its
//! immediate neighbor on that side.

use vstd::prelude::*;

verus! {

/// Cardinal direction from a cell toward one of its four neighbors.
#[derive(Debug, Clone, Copy, PartialEq, Eq, Structural)]
pub enum Dir {
    N,
    E,
    S,
    W,
}

impl Dir {
    /// The opposite of this direction.
    pub open spec fn spec_flip(self) -> Dir {
        match self {
            Dir::N => Dir::S,
            Dir::E => Dir::W,
            Dir::S => Dir::N,
            Dir::W => Dir::E,
        }
    }

    /// Return the opposite direction.
    pub fn flip(self) -> (r: Dir)
        ensures
            r == self.spec_flip(),
    {
        match self {
            Dir::N => Dir::S,
            Dir::E => Dir::W,
            Dir::S => Dir::N,
            Dir::W => Dir::E,
        }
    }
}

/// The four per-side masks of tiles permitted as neighbors.
#[derive(Debug, Clone, Copy, PartialEq, Eq, Structural)]
pub struct Constraints {
    pub n: u128,
    pub e: u128,
    pub s: u128,
    pub w: u128,
}

impl Constraints {
    /// The mask of this constraint record for the given side.
    pub open spec fn spec_dir(self, dir: Dir) -> u128 {
        match dir {
            Dir::N => self.n,
            Dir::E => self.e,
            Dir::S => self.s,
            Dir::W => self.w,
        }
    }

    /// Constraints with the same mask on all four sides.
    pub fn same(c: u128) -> (r: Constraints)
        ensures
            r == (Constraints { n: c, e: c, s: c, w: c }),
    {
        Constraints { n: c, e: c, s: c, w: c }
    }

    /// Return the mask for the given side.
    pub fn dir(&self, dir: Dir) -> (r: u128)
        ensures
            r == self.spec_dir(dir),
    {
        match dir {
            Dir::N => self.n,
            Dir::E => self.e,
            Dir::S => self.s,
            Dir::W => self.w,
        }
    }
}

/// One catalog entry: a debug label, a two-byte glyph, and the four
/// per-side adjacency masks.
#[derive(Debug, Clone, Copy)]
pub struct Tile {
    pub name: &'static str,
    pub ascii: (u8, u8),
    pub constraints: Constraints,
}

impl Tile {
    /// Build a tile from its parts.
    pub fn new(name: &'static str, ascii: (u8, u8), constraints: Constraints) -> (t: Tile)
        ensures
            t.ascii == ascii,
            t.constraints == constraints,
    {
        Tile { name, ascii, constraints }
    }
}

/// Number of tiles in the built-in catalog.
pub const TILE_COUNT: usize = 82;


pub const TILE_SPACE            : u128 = 1 << 0;

pub const TILE_DEGENERATE_N     : u128 = 1 << 1;
pub const TILE_DEGENERATE_E     : u128 = 1 << 2;
pub const TILE_DEGENERATE_S     : u128 = 1 << 3;
pub const TILE_DEGENERATE_W     : u128 = 1 << 4;

pub const TILE_FLOOR            : u128 = 1 << 5;

pub const TILE_N_WALL           : u128 = 1 << 6;
pub const TILE_E_WALL           : u128 = 1 << 7;
pub const TILE_S_WALL           : u128 = 1 << 8;
pub const TILE_W_WALL           : u128 = 1 << 9;

pub const TILE_NE_WALL          : u128 = 1 << 10;
pub const TILE_SE_WALL          : u128 = 1 << 11;
pub const TILE_SW_WALL          : u128 = 1 << 12;
pub const TILE_NW_WALL          : u128 = 1 << 13;

pub const TILE_NE_WALL2         : u128 = 1 << 14;
pub const TILE_SE_WALL2         : u128 = 1 << 15;
pub const TILE_SW_WALL2         : u128 = 1 << 16;
pub const TILE_NW_WALL2         : u128 = 1 << 17;

pub const TILE_NE_WALL3         : u128 = 1 << 18;
pub const TILE_SE_WALL3         : u128 = 1 << 19;
pub const TILE_SW_WALL3         : u128 = 1 << 20;
pub const TILE_NW_WALL3         : u128 = 1 << 21;

pub const TILE_NE_WALL4         : u128 = 1 << 22;
pub const TILE_SE_WALL4         : u128 = 1 << 23;
pub const TILE_SW_WALL4         : u128 = 1 << 24;
pub const TILE_NW_WALL4         : u128 = 1 << 25;

pub const TILE_LR_N_INWALL_A    : u128 = 1 << 26;
pub const TILE_LR_N_DOOR        : u128 = 1 << 27;
pub const TILE_LR_N_INWALL_B    : u128 = 1 << 28;
pub const TILE_LR_N_JOINT_A     : u128 = 1 << 29;
pub const TILE_LR_N_JOINT_B     : u128 = 1 << 30;
pub const TILE_LR_N_TEE_A       : u128 = 1 << 31;
pub const TILE_LR_N_TEE_B       : u128 = 1 << 32;
pub const TILE_LR_N_TEE_B2      : u128 = 1 << 33;

pub const TILE_LR_E_INWALL_A    : u128 = 1 << 34;
pub const TILE_LR_E_DOOR        : u128 = 1 << 35;
pub const TILE_LR_E_INWALL_B    : u128 = 1 << 36;
pub const TILE_LR_E_TEE_A       : u128 = 1 << 37;
pub const TILE_LR_E_TEE_B       : u128 = 1 << 38;
pub const TILE_LR_E_TEE_B2      : u128 = 1 << 39;

pub const TILE_LL_E_INWALL_A    : u128 = 1 << 40;
pub const TILE_LL_E_DOOR        : u128 = 1 << 41;
pub const TILE_LL_E_INWALL_B    : u128 = 1 << 42;
pub const TILE_LL_E_JOINT_A     : u128 = 1 << 43;
pub const TILE_LL_E_JOINT_B     : u128 = 1 << 44;
pub const TILE_LL_E_TEE_A       : u128 = 1 << 45;
pub const TILE_LL_E_TEE_B       : u128 = 1 << 46;
pub const TILE_LL_E_TEE_B2      : u128 = 1 << 47;

pub const TILE_LL_S_INWALL_A    : u128 = 1 << 48;
pub const TILE_LL_S_DOOR        : u128 = 1 << 49;
pub const TILE_LL_S_INWALL_B    : u128 = 1 << 50;
pub const TILE_LL_S_TEE_A       : u128 = 1 << 51;
pub const TILE_LL_S_TEE_B       : u128 = 1 << 52;
pub const TILE_LL_S_TEE_B2      : u128 = 1 << 53;

pub const TILE_UL_S_INWALL_A    : u128 = 1 << 54;
pub const TILE_UL_S_DOOR        : u128 = 1 << 55;
pub const TILE_UL_S_INWALL_B    : u128 = 1 << 56;
pub const TILE_UL_S_JOINT_A     : u128 = 1 << 57;
pub const TILE_UL_S_JOINT_B     : u128 = 1 << 58;
pub const TILE_UL_S_TEE_A       : u128 = 1 << 59;
pub const TILE_UL_S_TEE_B       : u128 = 1 << 60;
pub const TILE_UL_S_TEE_B2      : u128 = 1 << 61;

pub const TILE_UL_W_INWALL_A    : u128 = 1 << 62;
pub const TILE_UL_W_DOOR        : u128 = 1 << 63;
pub const TILE_UL_W_INWALL_B    : u128 = 1 << 64;
pub const TILE_UL_W_TEE_A       : u128 = 1 << 65;
pub const TILE_UL_W_TEE_B       : u128 = 1 << 66;
pub const TILE_UL_W_TEE_B2      : u128 = 1 << 67;

pub const TILE_UR_W_INWALL_A    : u128 = 1 << 68;
pub const TILE_UR_W_DOOR        : u128 = 1 << 69;
pub const TILE_UR_W_INWALL_B    : u128 = 1 << 70;
pub const TILE_UR_W_JOINT_A     : u128 = 1 << 71;
pub const TILE_UR_W_JOINT_B     : u128 = 1 << 72;
pub const TILE_UR_W_TEE_A       : u128 = 1 << 73;
pub const TILE_UR_W_TEE_B       : u128 = 1 << 74;
pub const TILE_UR_W_TEE_B2      : u128 = 1 << 75;

pub const TILE_UR_N_INWALL_A    : u128 = 1 << 76;
pub const TILE_UR_N_DOOR        : u128 = 1 << 77;
pub const TILE_UR_N_INWALL_B    : u128 = 1 << 78;
pub const TILE_UR_N_TEE_A       : u128 = 1 << 79;
pub const TILE_UR_N_TEE_B       : u128 = 1 << 80;
pub const TILE_UR_N_TEE_B2      : u128 = 1 << 81;

// some common constraints
pub const TILE_SPACEISH: u128
    = TILE_SPACE
    | TILE_DEGENERATE_N
    | TILE_DEGENERATE_E
    | TILE_DEGENERATE_S
    | TILE_DEGENERATE_W;

pub const TILE_FLOORISH: u128
    = TILE_FLOOR;

pub const TILE_WALLISH: u128
    = TILE_N_WALL
    | TILE_E_WALL
    | TILE_S_WALL
    | TILE_W_WALL
    | TILE_NE_WALL
    | TILE_SE_WALL
    | TILE_SW_WALL
    | TILE_NW_WALL
    | TILE_NE_WALL2
    | TILE_SE_WALL2
    | TILE_SW_WALL2
    | TILE_NW_WALL2
    | TILE_NE_WALL3
    | TILE_SE_WALL3
    | TILE_SW_WALL3
    | TILE_NW_WALL3
    | TILE_NE_WALL4
    | TILE_SE_WALL4
    | TILE_SW_WALL4
    | TILE_NW_WALL4;


/// A mask holding every tile of the built-in catalog.
pub const TILE_ALL: u128 = 0x3_ffff_ffff_ffff_ffff_ffff;

/// Adjacency constraints of tile `i` of the built-in catalog.
pub open spec fn catalog_constraints(i: int) -> Constraints {

if i == 0 {
        Constraints { n: u128::MAX, e: u128::MAX, s: u128::MAX, w: u128::MAX }
    }
    else if i == 1 {
        Constraints { n: TILE_SPACE, e: TILE_SPACE, s: !TILE_SPACE, w: TILE_SPACE }
    }
    else if i == 2 {
        Constraints { n: TILE_SPACE, e: TILE_SPACE, s: TILE_SPACE, w: !TILE_SPACE }
    }
    else if i == 3 {
        Constraints { n: !TILE_SPACE, e: TILE_SPACE, s: TILE_SPACE, w: TILE_SPACE }
    }
    else if i == 4 {
        Constraints { n: TILE_SPACE, e: !TILE_SPACE, s: TILE_SPACE, w: TILE_SPACE }
    }
    else if i == 5 {
        Constraints { n: !TILE_SPACEISH, e: !TILE_SPACEISH, s: !TILE_SPACEISH, w: !TILE_SPACEISH }
    }
    else if i == 6 {
        Constraints { n: TILE_SPACEISH, e: TILE_WALLISH, s: !TILE_SPACEISH, w: TILE_WALLISH }
    }
    else if i == 7 {
        Constraints { n: !TILE_SPACEISH, e: TILE_SPACEISH, s: !TILE_SPACEISH, w: !TILE_SPACEISH }
    }
    else if i == 8 {
        Constraints { n: !TILE_SPACEISH, e: TILE_WALLISH, s: TILE_SPACEISH, w: TILE_WALLISH }
    }
    else if i == 9 {
        Constraints { n: TILE_WALLISH, e: !TILE_SPACEISH, s: TILE_WALLISH, w: TILE_SPACEISH }
    }
    else if i == 10 {
        Constraints { n: TILE_SPACEISH, e: TILE_SPACEISH, s: TILE_WALLISH, w: TILE_WALLISH }
    }
    else if i == 11 {
        Constraints { n: TILE_WALLISH, e: TILE_SPACEISH, s: TILE_SPACEISH, w: TILE_WALLISH }
    }
    else if i == 12 {
        Constraints { n: TILE_WALLISH, e: TILE_WALLISH, s: TILE_SPACEISH, w: TILE_SPACEISH }
    }
    else if i == 13 {
        Constraints { n: TILE_SPACEISH, e: TILE_WALLISH, s: TILE_WALLISH, w: TILE_SPACEISH }
    }
    else if i == 14 {
        Constraints { n: TILE_NE_WALL, e: TILE_NE_WALL, s: !TILE_SPACEISH, w: !TILE_SPACEISH }
    }
    else if i == 15 {
        Constraints { n: !TILE_SPACEISH, e: TILE_SE_WALL, s: TILE_SE_WALL, w: !TILE_SPACEISH }
    }
    else if i == 16 {
        Constraints { n: !TILE_SPACEISH, e: !TILE_SPACEISH, s: TILE_SW_WALL, w: TILE_SW_WALL }
    }
    else if i == 17 {
        Constraints { n: TILE_NW_WALL, e: !TILE_SPACEISH, s: !TILE_SPACEISH, w: TILE_NW_WALL }
    }
    else if i == 18 {
        Constraints { n: TILE_E_WALL, e: TILE_NE_WALL|TILE_N_WALL, s: !TILE_SPACEISH, w: !TILE_SPACEISH }
    }
    else if i == 19 {
        Constraints { n: !TILE_SPACEISH, e: TILE_S_WALL, s: TILE_SE_WALL|TILE_E_WALL, w: !TILE_SPACEISH }
    }
    else if i == 20 {
        Constraints { n: !TILE_SPACEISH, e: !TILE_SPACEISH, s: TILE_W_WALL, w: TILE_SW_WALL|TILE_S_WALL }
    }
    else if i == 21 {
        Constraints { n: TILE_NW_WALL|TILE_W_WALL, e: !TILE_SPACEISH, s: !TILE_SPACEISH, w: TILE_N_WALL }
    }
    else if i == 22 {
        Constraints { n: TILE_NE_WALL|TILE_E_WALL, e: TILE_N_WALL, s: !TILE_SPACEISH, w: !TILE_SPACEISH }
    }
    else if i == 23 {
        Constraints { n: !TILE_SPACEISH, e: TILE_SE_WALL|TILE_S_WALL, s: TILE_E_WALL, w: !TILE_SPACEISH }
    }
    else if i == 24 {
        Constraints { n: !TILE_SPACEISH, e: !TILE_SPACEISH, s: TILE_SW_WALL|TILE_W_WALL, w: TILE_S_WALL }
    }
    else if i == 25 {
        Constraints { n: TILE_W_WALL, e: !TILE_SPACEISH, s: !TILE_SPACEISH, w: TILE_NW_WALL|TILE_N_WALL }
    }
    else if i == 26 {
        Constraints { n: TILE_LR_N_INWALL_A | TILE_LR_N_DOOR | TILE_LR_N_JOINT_A | TILE_LR_N_TEE_A | TILE_LR_E_TEE_B, e: TILE_FLOORISH | TILE_WALLISH, s: TILE_WALLISH | TILE_LR_N_INWALL_A | TILE_LR_N_TEE_A | TILE_LR_N_TEE_B, w: TILE_FLOORISH }
    }
    else if i == 27 {
        Constraints { n: TILE_LR_N_INWALL_B, e: TILE_FLOORISH, s: TILE_LR_N_INWALL_A, w: TILE_FLOORISH }
    }
    else if i == 28 {
        Constraints { n: TILE_WALLISH | TILE_LR_N_INWALL_B | TILE_LR_N_JOINT_B | TILE_LR_N_TEE_B | TILE_LR_N_TEE_B2 | TILE_LR_E_TEE_A | TILE_LR_E_TEE_B2, e: TILE_FLOORISH | TILE_WALLISH, s: TILE_LR_N_INWALL_B | TILE_LR_N_DOOR | TILE_LR_N_TEE_B2, w: TILE_FLOORISH }
    }
    else if i == 29 {
        Constraints { n: TILE_FLOORISH, e: TILE_LR_E_INWALL_A, s: TILE_LR_N_INWALL_A, w: TILE_FLOORISH }
    }
    else if i == 30 {
        Constraints { n: TILE_FLOORISH, e: TILE_LR_E_INWALL_B, s: TILE_LR_N_INWALL_B, w: TILE_FLOORISH }
    }
    else if i == 31 {
        Constraints { n: TILE_LR_N_INWALL_A, e: TILE_LR_E_INWALL_A, s: TILE_LR_N_INWALL_A, w: TILE_FLOORISH }
    }
    else if i == 32 {
        Constraints { n: TILE_LR_N_INWALL_A, e: TILE_LR_E_INWALL_B, s: TILE_LR_N_INWALL_B, w: TILE_FLOORISH }
    }
    else if i == 33 {
        Constraints { n: TILE_LR_N_INWALL_B, e: TILE_LR_E_INWALL_A, s: TILE_LR_N_INWALL_B, w: TILE_FLOORISH }
    }
    else if i == 34 {
        Constraints { n: TILE_FLOORISH, e: TILE_LR_E_INWALL_A | TILE_LR_E_DOOR | TILE_LR_E_TEE_A, s: TILE_FLOORISH | TILE_WALLISH, w: TILE_WALLISH | TILE_LR_E_INWALL_A | TILE_LR_N_JOINT_A | TILE_LR_N_TEE_A | TILE_LR_N_TEE_B2 | TILE_LR_E_TEE_A | TILE_LR_E_TEE_B }
    }
    else if i == 35 {
        Constraints { n: TILE_FLOORISH, e: TILE_LR_E_INWALL_B, s: TILE_FLOORISH, w: TILE_LR_E_INWALL_A }
    }
    else if i == 36 {
        Constraints { n: TILE_FLOORISH, e: TILE_WALLISH | TILE_LR_E_INWALL_B | TILE_LR_N_JOINT_B | TILE_LR_E_TEE_B | TILE_LR_E_TEE_B2, s: TILE_FLOORISH | TILE_WALLISH, w: TILE_LR_E_INWALL_B | TILE_LR_E_DOOR | TILE_LR_N_JOINT_B | TILE_LR_E_TEE_B2 }
    }
    else if i == 37 {
        Constraints { n: TILE_FLOORISH, e: TILE_LR_E_INWALL_A, s: TILE_LR_N_INWALL_B, w: TILE_LR_E_INWALL_A }
    }
    else if i == 38 {
        Constraints { n: TILE_FLOORISH, e: TILE_LR_E_INWALL_A, s: TILE_LR_N_INWALL_A, w: TILE_LR_E_INWALL_B }
    }
    else if i == 39 {
        Constraints { n: TILE_FLOORISH, e: TILE_LR_E_INWALL_B, s: TILE_LR_N_INWALL_B, w: TILE_LR_E_INWALL_B }
    }
    else if i == 40 {
        Constraints { n: TILE_FLOORISH, e: TILE_LL_E_INWALL_A | TILE_LL_E_DOOR | TILE_LL_E_JOINT_A | TILE_LL_E_TEE_A | TILE_LL_S_TEE_B, s: TILE_FLOORISH | TILE_WALLISH, w: TILE_WALLISH | TILE_LL_E_INWALL_A | TILE_LL_E_TEE_A | TILE_LL_E_TEE_B }
    }
    else if i == 41 {
        Constraints { n: TILE_FLOORISH, e: TILE_LL_E_INWALL_B, s: TILE_FLOORISH, w: TILE_LL_E_INWALL_A }
    }
    else if i == 42 {
        Constraints { n: TILE_FLOORISH, e: TILE_WALLISH | TILE_LL_E_INWALL_B | TILE_LL_E_JOINT_B | TILE_LL_E_TEE_B | TILE_LL_E_TEE_B2 | TILE_LL_S_TEE_A | TILE_LL_S_TEE_B2, s: TILE_FLOORISH | TILE_WALLISH, w: TILE_LL_E_INWALL_B | TILE_LL_E_DOOR | TILE_LL_E_TEE_B2 }
    }
    else if i == 43 {
        Constraints { n: TILE_FLOORISH, e: TILE_FLOORISH, s: TILE_LL_S_INWALL_A, w: TILE_LL_E_INWALL_A }
    }
    else if i == 44 {
        Constraints { n: TILE_FLOORISH, e: TILE_FLOORISH, s: TILE_LL_S_INWALL_B, w: TILE_LL_E_INWALL_B }
    }
    else if i == 45 {
        Constraints { n: TILE_FLOORISH, e: TILE_LL_E_INWALL_A, s: TILE_LL_S_INWALL_A, w: TILE_LL_E_INWALL_A }
    }
    else if i == 46 {
        Constraints { n: TILE_FLOORISH, e: TILE_LL_E_INWALL_A, s: TILE_LL_S_INWALL_B, w: TILE_LL_E_INWALL_B }
    }
    else if i == 47 {
        Constraints { n: TILE_FLOORISH, e: TILE_LL_E_INWALL_B, s: TILE_LL_S_INWALL_A, w: TILE_LL_E_INWALL_B }
    }
    else if i == 48 {
        Constraints { n: TILE_WALLISH | TILE_LL_S_INWALL_A | TILE_LL_E_JOINT_A | TILE_LL_E_TEE_A | TILE_LL_E_TEE_B2 | TILE_LL_S_TEE_A | TILE_LL_S_TEE_B, e: TILE_FLOORISH, s: TILE_LL_S_INWALL_A | TILE_LL_S_DOOR | TILE_LL_S_TEE_A, w: TILE_FLOORISH | TILE_WALLISH }
    }
    else if i == 49 {
        Constraints { n: TILE_LL_S_INWALL_A, e: TILE_FLOORISH, s: TILE_LL_S_INWALL_B, w: TILE_FLOORISH }
    }
    else if i == 50 {
        Constraints { n: TILE_LL_S_INWALL_B | TILE_LL_S_DOOR | TILE_LL_E_JOINT_B | TILE_LL_S_TEE_B2, e: TILE_FLOORISH, s: TILE_WALLISH | TILE_LL_S_INWALL_B | TILE_LL_E_JOINT_B | TILE_LL_S_TEE_B | TILE_LL_S_TEE_B2, w: TILE_FLOORISH | TILE_WALLISH }
    }
    else if i == 51 {
        Constraints { n: TILE_LL_S_INWALL_A, e: TILE_FLOORISH, s: TILE_LL_S_INWALL_A, w: TILE_LL_E_INWALL_B }
    }
    else if i == 52 {
        Constraints { n: TILE_LL_S_INWALL_B, e: TILE_FLOORISH, s: TILE_LL_S_INWALL_A, w: TILE_LL_E_INWALL_A }
    }
    else if i == 53 {
        Constraints { n: TILE_LL_S_INWALL_B, e: TILE_FLOORISH, s: TILE_LL_S_INWALL_B, w: TILE_LL_E_INWALL_B }
    }
    else if i == 54 {
        Constraints { n: TILE_WALLISH | TILE_UL_S_INWALL_A | TILE_UL_S_TEE_A | TILE_UL_S_TEE_B, e: TILE_FLOORISH, s: TILE_UL_S_INWALL_A | TILE_UL_S_DOOR | TILE_UL_S_JOINT_A | TILE_UL_S_TEE_A | TILE_UL_W_TEE_B, w: TILE_FLOORISH | TILE_WALLISH }
    }
    else if i == 55 {
        Constraints { n: TILE_UL_S_INWALL_A, e: TILE_FLOORISH, s: TILE_UL_S_INWALL_B, w: TILE_FLOORISH }
    }
    else if i == 56 {
        Constraints { n: TILE_UL_S_INWALL_B | TILE_UL_S_DOOR | TILE_UL_S_TEE_B2, e: TILE_FLOORISH, s: TILE_WALLISH | TILE_UL_S_INWALL_B | TILE_UL_S_JOINT_B | TILE_UL_S_TEE_B | TILE_UL_S_TEE_B2 | TILE_UL_W_TEE_A | TILE_UL_W_TEE_B2, w: TILE_FLOORISH | TILE_WALLISH }
    }
    else if i == 57 {
        Constraints { n: TILE_UL_S_INWALL_A, e: TILE_FLOORISH, s: TILE_FLOORISH, w: TILE_UL_W_INWALL_A }
    }
    else if i == 58 {
        Constraints { n: TILE_UL_S_INWALL_B, e: TILE_FLOORISH, s: TILE_FLOORISH, w: TILE_UL_W_INWALL_B }
    }
    else if i == 59 {
        Constraints { n: TILE_UL_S_INWALL_A, e: TILE_FLOORISH, s: TILE_UL_S_INWALL_A, w: TILE_UL_W_INWALL_A }
    }
    else if i == 60 {
        Constraints { n: TILE_UL_S_INWALL_B, e: TILE_FLOORISH, s: TILE_UL_S_INWALL_A, w: TILE_UL_W_INWALL_B }
    }
    else if i == 61 {
        Constraints { n: TILE_UL_S_INWALL_B, e: TILE_FLOORISH, s: TILE_UL_S_INWALL_B, w: TILE_UL_W_INWALL_A }
    }
    else if i == 62 {
        Constraints { n: TILE_FLOORISH | TILE_WALLISH, e: TILE_WALLISH | TILE_UL_W_INWALL_A | TILE_UL_S_JOINT_A | TILE_UL_S_TEE_A | TILE_UL_S_TEE_B2 | TILE_UL_W_TEE_A | TILE_UL_W_TEE_B, s: TILE_FLOORISH, w: TILE_UL_W_INWALL_A | TILE_UL_W_DOOR | TILE_UL_W_TEE_A }
    }
    else if i == 63 {
        Constraints { n: TILE_FLOORISH, e: TILE_UL_W_INWALL_A, s: TILE_FLOORISH, w: TILE_UL_W_INWALL_B }
    }
    else if i == 64 {
        Constraints { n: TILE_FLOORISH | TILE_WALLISH, e: TILE_UL_W_INWALL_B | TILE_UL_W_DOOR | TILE_UL_S_JOINT_B | TILE_UL_W_TEE_B2, s: TILE_FLOORISH, w: TILE_WALLISH | TILE_UL_W_INWALL_B | TILE_UL_S_JOINT_B | TILE_UL_W_TEE_B | TILE_UL_W_TEE_B2 }
    }
    else if i == 65 {
        Constraints { n: TILE_UL_S_INWALL_B, e: TILE_UL_W_INWALL_A, s: TILE_FLOORISH, w: TILE_UL_W_INWALL_A }
    }
    else if i == 66 {
        Constraints { n: TILE_UL_S_INWALL_A, e: TILE_UL_W_INWALL_B, s: TILE_FLOORISH, w: TILE_UL_W_INWALL_A }
    }
    else if i == 67 {
        Constraints { n: TILE_UL_S_INWALL_B, e: TILE_UL_W_INWALL_B, s: TILE_FLOORISH, w: TILE_UL_W_INWALL_B }
    }
    else if i == 68 {
        Constraints { n: TILE_FLOORISH | TILE_WALLISH, e: TILE_WALLISH | TILE_UR_W_INWALL_A | TILE_UR_W_TEE_A | TILE_UR_W_TEE_B, s: TILE_FLOORISH, w: TILE_UR_W_INWALL_A | TILE_UR_W_DOOR | TILE_UR_W_JOINT_A | TILE_UR_W_TEE_A | TILE_UR_N_TEE_B }
    }
    else if i == 69 {
        Constraints { n: TILE_FLOORISH, e: TILE_UR_W_INWALL_A, s: TILE_FLOORISH, w: TILE_UR_W_INWALL_B }
    }
    else if i == 70 {
        Constraints { n: TILE_FLOORISH | TILE_WALLISH, e: TILE_UR_W_INWALL_B | TILE_UR_W_DOOR | TILE_UR_W_TEE_B2, s: TILE_FLOORISH, w: TILE_WALLISH | TILE_UR_W_INWALL_B | TILE_UR_W_JOINT_B | TILE_UR_W_TEE_B | TILE_UR_W_TEE_B2 | TILE_UR_N_TEE_A | TILE_UR_N_TEE_B2 }
    }
    else if i == 71 {
        Constraints { n: TILE_UR_N_INWALL_A, e: TILE_UR_W_INWALL_A, s: TILE_FLOORISH, w: TILE_FLOORISH }
    }
    else if i == 72 {
        Constraints { n: TILE_UR_N_INWALL_B, e: TILE_UR_W_INWALL_B, s: TILE_FLOORISH, w: TILE_FLOORISH }
    }
    else if i == 73 {
        Constraints { n: TILE_UR_N_INWALL_A, e: TILE_UR_W_INWALL_A, s: TILE_FLOORISH, w: TILE_UR_W_INWALL_A }
    }
    else if i == 74 {
        Constraints { n: TILE_UR_N_INWALL_B, e: TILE_UR_W_INWALL_B, s: TILE_FLOORISH, w: TILE_UR_W_INWALL_A }
    }
    else if i == 75 {
        Constraints { n: TILE_UR_N_INWALL_A, e: TILE_UR_W_INWALL_B, s: TILE_FLOORISH, w: TILE_UR_W_INWALL_B }
    }
    else if i == 76 {
        Constraints { n: TILE_UR_N_INWALL_A | TILE_UR_N_DOOR | TILE_UR_N_TEE_A, e: TILE_FLOORISH | TILE_WALLISH, s: TILE_WALLISH | TILE_UR_N_INWALL_A | TILE_UR_W_JOINT_A | TILE_UR_W_TEE_A | TILE_UR_W_TEE_B2 | TILE_UR_N_TEE_A | TILE_UR_N_TEE_B, w: TILE_FLOORISH }
    }
    else if i == 77 {
        Constraints { n: TILE_UR_N_INWALL_B, e: TILE_FLOORISH, s: TILE_UR_N_INWALL_A, w: TILE_FLOORISH }
    }
    else if i == 78 {
        Constraints { n: TILE_WALLISH | TILE_UR_N_INWALL_B | TILE_UR_W_JOINT_B | TILE_UR_N_TEE_B | TILE_UR_N_TEE_B2, e: TILE_FLOORISH | TILE_WALLISH, s: TILE_UR_N_INWALL_B | TILE_UR_N_DOOR | TILE_UR_W_JOINT_B | TILE_UR_N_TEE_B2, w: TILE_FLOORISH }
    }
    else if i == 79 {
        Constraints { n: TILE_UR_N_INWALL_A, e: TILE_UR_W_INWALL_B, s: TILE_UR_N_INWALL_A, w: TILE_FLOORISH }
    }
    else if i == 80 {
        Constraints { n: TILE_UR_N_INWALL_A, e: TILE_UR_W_INWALL_A, s: TILE_UR_N_INWALL_B, w: TILE_FLOORISH }
    }
    else {
        Constraints { n: TILE_UR_N_INWALL_B, e: TILE_UR_W_INWALL_B, s: TILE_UR_N_INWALL_B, w: TILE_FLOORISH }
    }
}

/// Glyph of tile `i` of the built-in catalog.
pub open spec fn catalog_glyph(i: int) -> (u8, u8) {

if i == 0 {
        (0x20, 0x20)
    }
    else if i == 1 {
        (0x20, 0x20)
    }
    else if i == 2 {
        (0x20, 0x20)
    }
    else if i == 3 {
        (0x20, 0x20)
    }
    else if i == 4 {
        (0x20, 0x20)
    }
    else if i == 5 {
        (0x20, 0x20)
    }
    else if i == 6 {
        (0x2d, 0x2d)
    }
    else if i == 7 {
        (0x7c, 0x20)
    }
    else if i == 8 {
        (0x2d, 0x2d)
    }
    else if i == 9 {
        (0x20, 0x7c)
    }
    else if i == 10 {
        (0x2e, 0x20)
    }
    else if i == 11 {
        (0x27, 0x20)
    }
    else if i == 12 {
        (0x20, 0x27)
    }
    else if i == 13 {
        (0x20, 0x2e)
    }
    else if i == 14 {
        (0x20, 0x27)
    }
    else if i == 15 {
        (0x20, 0x2e)
    }
    else if i == 16 {
        (0x2e, 0x20)
    }
    else if i == 17 {
        (0x27, 0x20)
    }
    else if i == 18 {
        (0x2b, 0x2d)
    }
    else if i == 19 {
        (0x2b, 0x2d)
    }
    else if i == 20 {
        (0x2d, 0x2b)
    }
    else if i == 21 {
        (0x2d, 0x2b)
    }
    else if i == 22 {
        (0x2b, 0x2d)
    }
    else if i == 23 {
        (0x2b, 0x2d)
    }
    else if i == 24 {
        (0x2d, 0x2b)
    }
    else if i == 25 {
        (0x2d, 0x2b)
    }
    else if i == 26 {
        (0x7c, 0x20)
    }
    else if i == 27 {
        (0x20, 0x20)
    }
    else if i == 28 {
        (0x7c, 0x20)
    }
    else if i == 29 {
        (0x2e, 0x2d)
    }
    else if i == 30 {
        (0x2e, 0x2d)
    }
    else if i == 31 {
        (0x2b, 0x2d)
    }
    else if i == 32 {
        (0x2b, 0x2d)
    }
    else if i == 33 {
        (0x2b, 0x2d)
    }
    else if i == 34 {
        (0x2d, 0x2d)
    }
    else if i == 35 {
        (0x20, 0x20)
    }
    else if i == 36 {
        (0x2d, 0x2d)
    }
    else if i == 37 {
        (0x2b, 0x2d)
    }
    else if i == 38 {
        (0x2b, 0x2d)
    }
    else if i == 39 {
        (0x2b, 0x2d)
    }
    else if i == 40 {
        (0x2d, 0x2d)
    }
    else if i == 41 {
        (0x20, 0x20)
    }
    else if i == 42 {
        (0x2d, 0x2d)
    }
    else if i == 43 {
        (0x2d, 0x2e)
    }
    else if i == 44 {
        (0x2d, 0x2e)
    }
    else if i == 45 {
        (0x2d, 0x2b)
    }
    else if i == 46 {
        (0x2d, 0x2b)
    }
    else if i == 47 {
        (0x2d, 0x2b)
    }
    else if i == 48 {
        (0x20, 0x7c)
    }
    else if i == 49 {
        (0x20, 0x20)
    }
    else if i == 50 {
        (0x20, 0x7c)
    }
    else if i == 51 {
        (0x2d, 0x2b)
    }
    else if i == 52 {
        (0x2d, 0x2b)
    }
    else if i == 53 {
        (0x2d, 0x2b)
    }
    else if i == 54 {
        (0x20, 0x7c)
    }
    else if i == 55 {
        (0x20, 0x20)
    }
    else if i == 56 {
        (0x20, 0x7c)
    }
    else if i == 57 {
        (0x2d, 0x27)
    }
    else if i == 58 {
        (0x2d, 0x27)
    }
    else if i == 59 {
        (0x2d, 0x2b)
    }
    else if i == 60 {
        (0x2d, 0x2b)
    }
    else if i == 61 {
        (0x2d, 0x2b)
    }
    else if i == 62 {
        (0x2d, 0x2d)
    }
    else if i == 63 {
        (0x20, 0x20)
    }
    else if i == 64 {
        (0x2d, 0x2d)
    }
    else if i == 65 {
        (0x2d, 0x2b)
    }
    else if i == 66 {
        (0x2d, 0x2b)
    }
    else if i == 67 {
        (0x2d, 0x2b)
    }
    else if i == 68 {
        (0x2d, 0x2d)
    }
    else if i == 69 {
        (0x20, 0x20)
    }
    else if i == 70 {
        (0x2d, 0x2d)
    }
    else if i == 71 {
        (0x27, 0x2d)
    }
    else if i == 72 {
        (0x27, 0x2d)
    }
    else if i == 73 {
        (0x2b, 0x2d)
    }
    else if i == 74 {
        (0x2b, 0x2d)
    }
    else if i == 75 {
        (0x2b, 0x2d)
    }
    else if i == 76 {
        (0x7c, 0x20)
    }
    else if i == 77 {
        (0x20, 0x20)
    }
    else if i == 78 {
        (0x7c, 0x20)
    }
    else if i == 79 {
        (0x2b, 0x2d)
    }
    else if i == 80 {
        (0x2b, 0x2d)
    }
    else {
        (0x2b, 0x2d)
    }
}

/// Tile `i` of the built-in catalog.
pub fn catalog_tile(i: usize) -> (t: Tile)
    requires
        i < TILE_COUNT,
    ensures
        t.constraints == catalog_constraints(i as int),
        t.ascii == catalog_glyph(i as int),
{

if i == 0 {
        Tile { name: "space", ascii: (0x20, 0x20), constraints: Constraints { n: u128::MAX, e: u128::MAX, s: u128::MAX, w: u128::MAX } }
    }
    else if i == 1 {
        Tile { name: "degenerate-n", ascii: (0x20, 0x20), constraints: Constraints { n: TILE_SPACE, e: TILE_SPACE, s: !TILE_SPACE, w: TILE_SPACE } }
    }
    else if i == 2 {
        Tile { name: "degenerate-e", ascii: (0x20, 0x20), constraints: Constraints { n: TILE_SPACE, e: TILE_SPACE, s: TILE_SPACE, w: !TILE_SPACE } }
    }
    else if i == 3 {
        Tile { name: "degenerate-s", ascii: (0x20, 0x20), constraints: Constraints { n: !TILE_SPACE, e: TILE_SPACE, s: TILE_SPACE, w: TILE_SPACE } }
    }
    else if i == 4 {
        Tile { name: "degenerate-w", ascii: (0x20, 0x20), constraints: Constraints { n: TILE_SPACE, e: !TILE_SPACE, s: TILE_SPACE, w: TILE_SPACE } }
    }
    else if i == 5 {
        Tile { name: "floor", ascii: (0x20, 0x20), constraints: Constraints { n: !TILE_SPACEISH, e: !TILE_SPACEISH, s: !TILE_SPACEISH, w: !TILE_SPACEISH } }
    }
    else if i == 6 {
        Tile { name: "n-wall", ascii: (0x2d, 0x2d), constraints: Constraints { n: TILE_SPACEISH, e: TILE_WALLISH, s: !TILE_SPACEISH, w: TILE_WALLISH } }
    }
    else if i == 7 {
        Tile { name: "e-wall", ascii: (0x7c, 0x20), constraints: Constraints { n: !TILE_SPACEISH, e: TILE_SPACEISH, s: !TILE_SPACEISH, w: !TILE_SPACEISH } }
    }
    else if i == 8 {
        Tile { name: "s-wall", ascii: (0x2d, 0x2d), constraints: Constraints { n: !TILE_SPACEISH, e: TILE_WALLISH, s: TILE_SPACEISH, w: TILE_WALLISH } }
    }
    else if i == 9 {
        Tile { name: "w-wall", ascii: (0x20, 0x7c), constraints: Constraints { n: TILE_WALLISH, e: !TILE_SPACEISH, s: TILE_WALLISH, w: TILE_SPACEISH } }
    }
    else if i == 10 {
        Tile { name: "ne-wall", ascii: (0x2e, 0x20), constraints: Constraints { n: TILE_SPACEISH, e: TILE_SPACEISH, s: TILE_WALLISH, w: TILE_WALLISH } }
    }
    else if i == 11 {
        Tile { name: "se-wall", ascii: (0x27, 0x20), constraints: Constraints { n: TILE_WALLISH, e: TILE_SPACEISH, s: TILE_SPACEISH, w: TILE_WALLISH } }
    }
    else if i == 12 {
        Tile { name: "sw-wall", ascii: (0x20, 0x27), constraints: Constraints { n: TILE_WALLISH, e: TILE_WALLISH, s: TILE_SPACEISH, w: TILE_SPACEISH } }
    }
    else if i == 13 {
        Tile { name: "nw-wall", ascii: (0x20, 0x2e), constraints: Constraints { n: TILE_SPACEISH, e: TILE_WALLISH, s: TILE_WALLISH, w: TILE_SPACEISH } }
    }
    else if i == 14 {
        Tile { name: "ne-wall2", ascii: (0x20, 0x27), constraints: Constraints { n: TILE_NE_WALL, e: TILE_NE_WALL, s: !TILE_SPACEISH, w: !TILE_SPACEISH } }
    }
    else if i == 15 {
        Tile { name: "se-wall2", ascii: (0x20, 0x2e), constraints: Constraints { n: !TILE_SPACEISH, e: TILE_SE_WALL, s: TILE_SE_WALL, w: !TILE_SPACEISH } }
    }
    else if i == 16 {
        Tile { name: "sw-wall2", ascii: (0x2e, 0x20), constraints: Constraints { n: !TILE_SPACEISH, e: !TILE_SPACEISH, s: TILE_SW_WALL, w: TILE_SW_WALL } }
    }
    else if i == 17 {
        Tile { name: "nw-wall2", ascii: (0x27, 0x20), constraints: Constraints { n: TILE_NW_WALL, e: !TILE_SPACEISH, s: !TILE_SPACEISH, w: TILE_NW_WALL } }
    }
    else if i == 18 {
        Tile { name: "ne-wall3", ascii: (0x2b, 0x2d), constraints: Constraints { n: TILE_E_WALL, e: TILE_NE_WALL|TILE_N_WALL, s: !TILE_SPACEISH, w: !TILE_SPACEISH } }
    }
    else if i == 19 {
        Tile { name: "se-wall3", ascii: (0x2b, 0x2d), constraints: Constraints { n: !TILE_SPACEISH, e: TILE_S_WALL, s: TILE_SE_WALL|TILE_E_WALL, w: !TILE_SPACEISH } }
    }
    else if i == 20 {
        Tile { name: "sw-wall3", ascii: (0x2d, 0x2b), constraints: Constraints { n: !TILE_SPACEISH, e: !TILE_SPACEISH, s: TILE_W_WALL, w: TILE_SW_WALL|TILE_S_WALL } }
    }
    else if i == 21 {
        Tile { name: "nw-wall3", ascii: (0x2d, 0x2b), constraints: Constraints { n: TILE_NW_WALL|TILE_W_WALL, e: !TILE_SPACEISH, s: !TILE_SPACEISH, w: TILE_N_WALL } }
    }
    else if i == 22 {
        Tile { name: "ne-wall4", ascii: (0x2b, 0x2d), constraints: Constraints { n: TILE_NE_WALL|TILE_E_WALL, e: TILE_N_WALL, s: !TILE_SPACEISH, w: !TILE_SPACEISH } }
    }
    else if i == 23 {
        Tile { name: "se-wall4", ascii: (0x2b, 0x2d), constraints: Constraints { n: !TILE_SPACEISH, e: TILE_SE_WALL|TILE_S_WALL, s: TILE_E_WALL, w: !TILE_SPACEISH } }
    }
    else if i == 24 {
        Tile { name: "sw-wall4", ascii: (0x2d, 0x2b), constraints: Constraints { n: !TILE_SPACEISH, e: !TILE_SPACEISH, s: TILE_SW_WALL|TILE_W_WALL, w: TILE_S_WALL } }
    }
    else if i == 25 {
        Tile { name: "nw-wall4", ascii: (0x2d, 0x2b), constraints: Constraints { n: TILE_W_WALL, e: !TILE_SPACEISH, s: !TILE_SPACEISH, w: TILE_NW_WALL|TILE_N_WALL } }
    }
    else if i == 26 {
        Tile { name: "lr-n-inwall-a", ascii: (0x7c, 0x20), constraints: Constraints { n: TILE_LR_N_INWALL_A | TILE_LR_N_DOOR | TILE_LR_N_JOINT_A | TILE_LR_N_TEE_A | TILE_LR_E_TEE_B, e: TILE_FLOORISH | TILE_WALLISH, s: TILE_WALLISH | TILE_LR_N_INWALL_A | TILE_LR_N_TEE_A | TILE_LR_N_TEE_B, w: TILE_FLOORISH } }
    }
    else if i == 27 {
        Tile { name: "lr-n-door", ascii: (0x20, 0x20), constraints: Constraints { n: TILE_LR_N_INWALL_B, e: TILE_FLOORISH, s: TILE_LR_N_INWALL_A, w: TILE_FLOORISH } }
    }
    else if i == 28 {
        Tile { name: "lr-n-inwall-b", ascii: (0x7c, 0x20), constraints: Constraints { n: TILE_WALLISH | TILE_LR_N_INWALL_B | TILE_LR_N_JOINT_B | TILE_LR_N_TEE_B | TILE_LR_N_TEE_B2 | TILE_LR_E_TEE_A | TILE_LR_E_TEE_B2, e: TILE_FLOORISH | TILE_WALLISH, s: TILE_LR_N_INWALL_B | TILE_LR_N_DOOR | TILE_LR_N_TEE_B2, w: TILE_FLOORISH } }
    }
    else if i == 29 {
        Tile { name: "lr-n-joint-a", ascii: (0x2e, 0x2d), constraints: Constraints { n: TILE_FLOORISH, e: TILE_LR_E_INWALL_A, s: TILE_LR_N_INWALL_A, w: TILE_FLOORISH } }
    }
    else if i == 30 {
        Tile { name: "lr-n-joint-b", ascii: (0x2e, 0x2d), constraints: Constraints { n: TILE_FLOORISH, e: TILE_LR_E_INWALL_B, s: TILE_LR_N_INWALL_B, w: TILE_FLOORISH } }
    }
    else if i == 31 {
        Tile { name: "lr-n-tee-a", ascii: (0x2b, 0x2d), constraints: Constraints { n: TILE_LR_N_INWALL_A, e: TILE_LR_E_INWALL_A, s: TILE_LR_N_INWALL_A, w: TILE_FLOORISH } }
    }
    else if i == 32 {
        Tile { name: "lr-n-tee-b", ascii: (0x2b, 0x2d), constraints: Constraints { n: TILE_LR_N_INWALL_A, e: TILE_LR_E_INWALL_B, s: TILE_LR_N_INWALL_B, w: TILE_FLOORISH } }
    }
    else if i == 33 {
        Tile { name: "lr-n-tee-b2", ascii: (0x2b, 0x2d), constraints: Constraints { n: TILE_LR_N_INWALL_B, e: TILE_LR_E_INWALL_A, s: TILE_LR_N_INWALL_B, w: TILE_FLOORISH } }
    }
    else if i == 34 {
        Tile { name: "lr-e-inwall-a", ascii: (0x2d, 0x2d), constraints: Constraints { n: TILE_FLOORISH, e: TILE_LR_E_INWALL_A | TILE_LR_E_DOOR | TILE_LR_E_TEE_A, s: TILE_FLOORISH | TILE_WALLISH, w: TILE_WALLISH | TILE_LR_E_INWALL_A | TILE_LR_N_JOINT_A | TILE_LR_N_TEE_A | TILE_LR_N_TEE_B2 | TILE_LR_E_TEE_A | TILE_LR_E_TEE_B } }
    }
    else if i == 35 {
        Tile { name: "lr-e-door", ascii: (0x20, 0x20), constraints: Constraints { n: TILE_FLOORISH, e: TILE_LR_E_INWALL_B, s: TILE_FLOORISH, w: TILE_LR_E_INWALL_A } }
    }
    else if i == 36 {
        Tile { name: "lr-e-inwall-b", ascii: (0x2d, 0x2d), constraints: Constraints { n: TILE_FLOORISH, e: TILE_WALLISH | TILE_LR_E_INWALL_B | TILE_LR_N_JOINT_B | TILE_LR_E_TEE_B | TILE_LR_E_TEE_B2, s: TILE_FLOORISH | TILE_WALLISH, w: TILE_LR_E_INWALL_B | TILE_LR_E_DOOR | TILE_LR_N_JOINT_B | TILE_LR_E_TEE_B2 } }
    }
    else if i == 37 {
        Tile { name: "lr-e-tee-a", ascii: (0x2b, 0x2d), constraints: Constraints { n: TILE_FLOORISH, e: TILE_LR_E_INWALL_A, s: TILE_LR_N_INWALL_B, w: TILE_LR_E_INWALL_A } }
    }
    else if i == 38 {
        Tile { name: "lr-e-tee-b", ascii: (0x2b, 0x2d), constraints: Constraints { n: TILE_FLOORISH, e: TILE_LR_E_INWALL_A, s: TILE_LR_N_INWALL_A, w: TILE_LR_E_INWALL_B } }
    }
    else if i == 39 {
        Tile { name: "lr-e-tee-b2", ascii: (0x2b, 0x2d), constraints: Constraints { n: TILE_FLOORISH, e: TILE_LR_E_INWALL_B, s: TILE_LR_N_INWALL_B, w: TILE_LR_E_INWALL_B } }
    }
    else if i == 40 {
        Tile { name: "ll-e-inwall-a", ascii: (0x2d, 0x2d), constraints: Constraints { n: TILE_FLOORISH, e: TILE_LL_E_INWALL_A | TILE_LL_E_DOOR | TILE_LL_E_JOINT_A | TILE_LL_E_TEE_A | TILE_LL_S_TEE_B, s: TILE_FLOORISH | TILE_WALLISH, w: TILE_WALLISH | TILE_LL_E_INWALL_A | TILE_LL_E_TEE_A | TILE_LL_E_TEE_B } }
    }
    else if i == 41 {
        Tile { name: "ll-e-door", ascii: (0x20, 0x20), constraints: Constraints { n: TILE_FLOORISH, e: TILE_LL_E_INWALL_B, s: TILE_FLOORISH, w: TILE_LL_E_INWALL_A } }
    }
    else if i == 42 {
        Tile { name: "ll-e-inwall-b", ascii: (0x2d, 0x2d), constraints: Constraints { n: TILE_FLOORISH, e: TILE_WALLISH | TILE_LL_E_INWALL_B | TILE_LL_E_JOINT_B | TILE_LL_E_TEE_B | TILE_LL_E_TEE_B2 | TILE_LL_S_TEE_A | TILE_LL_S_TEE_B2, s: TILE_FLOORISH | TILE_WALLISH, w: TILE_LL_E_INWALL_B | TILE_LL_E_DOOR | TILE_LL_E_TEE_B2 } }
    }
    else if i == 43 {
        Tile { name: "ll-e-joint-a", ascii: (0x2d, 0x2e), constraints: Constraints { n: TILE_FLOORISH, e: TILE_FLOORISH, s: TILE_LL_S_INWALL_A, w: TILE_LL_E_INWALL_A } }
    }
    else if i == 44 {
        Tile { name: "ll-e-joint-b", ascii: (0x2d, 0x2e), constraints: Constraints { n: TILE_FLOORISH, e: TILE_FLOORISH, s: TILE_LL_S_INWALL_B, w: TILE_LL_E_INWALL_B } }
    }
    else if i == 45 {
        Tile { name: "ll-e-tee-a", ascii: (0x2d, 0x2b), constraints: Constraints { n: TILE_FLOORISH, e: TILE_LL_E_INWALL_A, s: TILE_LL_S_INWALL_A, w: TILE_LL_E_INWALL_A } }
    }
    else if i == 46 {
        Tile { name: "ll-e-tee-b", ascii: (0x2d, 0x2b), constraints: Constraints { n: TILE_FLOORISH, e: TILE_LL_E_INWALL_A, s: TILE_LL_S_INWALL_B, w: TILE_LL_E_INWALL_B } }
    }
    else if i == 47 {
        Tile { name: "ll-e-tee-b2", ascii: (0x2d, 0x2b), constraints: Constraints { n: TILE_FLOORISH, e: TILE_LL_E_INWALL_B, s: TILE_LL_S_INWALL_A, w: TILE_LL_E_INWALL_B } }
    }
    else if i == 48 {
        Tile { name: "ll-s-inwall-a", ascii: (0x20, 0x7c), constraints: Constraints { n: TILE_WALLISH | TILE_LL_S_INWALL_A | TILE_LL_E_JOINT_A | TILE_LL_E_TEE_A | TILE_LL_E_TEE_B2 | TILE_LL_S_TEE_A | TILE_LL_S_TEE_B, e: TILE_FLOORISH, s: TILE_LL_S_INWALL_A | TILE_LL_S_DOOR | TILE_LL_S_TEE_A, w: TILE_FLOORISH | TILE_WALLISH } }
    }
    else if i == 49 {
        Tile { name: "ll-s-door", ascii: (0x20, 0x20), constraints: Constraints { n: TILE_LL_S_INWALL_A, e: TILE_FLOORISH, s: TILE_LL_S_INWALL_B, w: TILE_FLOORISH } }
    }
    else if i == 50 {
        Tile { name: "ll-s-inwall-b", ascii: (0x20, 0x7c), constraints: Constraints { n: TILE_LL_S_INWALL_B | TILE_LL_S_DOOR | TILE_LL_E_JOINT_B | TILE_LL_S_TEE_B2, e: TILE_FLOORISH, s: TILE_WALLISH | TILE_LL_S_INWALL_B | TILE_LL_E_JOINT_B | TILE_LL_S_TEE_B | TILE_LL_S_TEE_B2, w: TILE_FLOORISH | TILE_WALLISH } }
    }
    else if i == 51 {
        Tile { name: "ll-s-tee-a", ascii: (0x2d, 0x2b), constraints: Constraints { n: TILE_LL_S_INWALL_A, e: TILE_FLOORISH, s: TILE_LL_S_INWALL_A, w: TILE_LL_E_INWALL_B } }
    }
    else if i == 52 {
        Tile { name: "ll-s-tee-b", ascii: (0x2d, 0x2b), constraints: Constraints { n: TILE_LL_S_INWALL_B, e: TILE_FLOORISH, s: TILE_LL_S_INWALL_A, w: TILE_LL_E_INWALL_A } }
    }
    else if i == 53 {
        Tile { name: "ll-s-tee-b2", ascii: (0x2d, 0x2b), constraints: Constraints { n: TILE_LL_S_INWALL_B, e: TILE_FLOORISH, s: TILE_LL_S_INWALL_B, w: TILE_LL_E_INWALL_B } }
    }
    else if i == 54 {
        Tile { name: "ul-s-inwall-a", ascii: (0x20, 0x7c), constraints: Constraints { n: TILE_WALLISH | TILE_UL_S_INWALL_A | TILE_UL_S_TEE_A | TILE_UL_S_TEE_B, e: TILE_FLOORISH, s: TILE_UL_S_INWALL_A | TILE_UL_S_DOOR | TILE_UL_S_JOINT_A | TILE_UL_S_TEE_A | TILE_UL_W_TEE_B, w: TILE_FLOORISH | TILE_WALLISH } }
    }
    else if i == 55 {
        Tile { name: "ul-s-door", ascii: (0x20, 0x20), constraints: Constraints { n: TILE_UL_S_INWALL_A, e: TILE_FLOORISH, s: TILE_UL_S_INWALL_B, w: TILE_FLOORISH } }
    }
    else if i == 56 {
        Tile { name: "ul-s-inwall-b", ascii: (0x20, 0x7c), constraints: Constraints { n: TILE_UL_S_INWALL_B | TILE_UL_S_DOOR | TILE_UL_S_TEE_B2, e: TILE_FLOORISH, s: TILE_WALLISH | TILE_UL_S_INWALL_B | TILE_UL_S_JOINT_B | TILE_UL_S_TEE_B | TILE_UL_S_TEE_B2 | TILE_UL_W_TEE_A | TILE_UL_W_TEE_B2, w: TILE_FLOORISH | TILE_WALLISH } }
    }
    else if i == 57 {
        Tile { name: "ul-s-joint-a", ascii: (0x2d, 0x27), constraints: Constraints { n: TILE_UL_S_INWALL_A, e: TILE_FLOORISH, s: TILE_FLOORISH, w: TILE_UL_W_INWALL_A } }
    }
    else if i == 58 {
        Tile { name: "ul-s-joint-b", ascii: (0x2d, 0x27), constraints: Constraints { n: TILE_UL_S_INWALL_B, e: TILE_FLOORISH, s: TILE_FLOORISH, w: TILE_UL_W_INWALL_B } }
    }
    else if i == 59 {
        Tile { name: "ul-s-tee-a", ascii: (0x2d, 0x2b), constraints: Constraints { n: TILE_UL_S_INWALL_A, e: TILE_FLOORISH, s: TILE_UL_S_INWALL_A, w: TILE_UL_W_INWALL_A } }
    }
    else if i == 60 {
        Tile { name: "ul-s-tee-b", ascii: (0x2d, 0x2b), constraints: Constraints { n: TILE_UL_S_INWALL_B, e: TILE_FLOORISH, s: TILE_UL_S_INWALL_A, w: TILE_UL_W_INWALL_B } }
    }
    else if i == 61 {
        Tile { name: "ul-s-tee-b2", ascii: (0x2d, 0x2b), constraints: Constraints { n: TILE_UL_S_INWALL_B, e: TILE_FLOORISH, s: TILE_UL_S_INWALL_B, w: TILE_UL_W_INWALL_A } }
    }
    else if i == 62 {
        Tile { name: "ul-w-inwall-a", ascii: (0x2d, 0x2d), constraints: Constraints { n: TILE_FLOORISH | TILE_WALLISH, e: TILE_WALLISH | TILE_UL_W_INWALL_A | TILE_UL_S_JOINT_A | TILE_UL_S_TEE_A | TILE_UL_S_TEE_B2 | TILE_UL_W_TEE_A | TILE_UL_W_TEE_B, s: TILE_FLOORISH, w: TILE_UL_W_INWALL_A | TILE_UL_W_DOOR | TILE_UL_W_TEE_A } }
    }
    else if i == 63 {
        Tile { name: "ul-w-door", ascii: (0x20, 0x20), constraints: Constraints { n: TILE_FLOORISH, e: TILE_UL_W_INWALL_A, s: TILE_FLOORISH, w: TILE_UL_W_INWALL_B } }
    }
    else if i == 64 {
        Tile { name: "ul-w-inwall-b", ascii: (0x2d, 0x2d), constraints: Constraints { n: TILE_FLOORISH | TILE_WALLISH, e: TILE_UL_W_INWALL_B | TILE_UL_W_DOOR | TILE_UL_S_JOINT_B | TILE_UL_W_TEE_B2, s: TILE_FLOORISH, w: TILE_WALLISH | TILE_UL_W_INWALL_B | TILE_UL_S_JOINT_B | TILE_UL_W_TEE_B | TILE_UL_W_TEE_B2 } }
    }
    else if i == 65 {
        Tile { name: "ul-w-tee-a", ascii: (0x2d, 0x2b), constraints: Constraints { n: TILE_UL_S_INWALL_B, e: TILE_UL_W_INWALL_A, s: TILE_FLOORISH, w: TILE_UL_W_INWALL_A } }
    }
    else if i == 66 {
        Tile { name: "ul-w-tee-b", ascii: (0x2d, 0x2b), constraints: Constraints { n: TILE_UL_S_INWALL_A, e: TILE_UL_W_INWALL_B, s: TILE_FLOORISH, w: TILE_UL_W_INWALL_A } }
    }
    else if i == 67 {
        Tile { name: "ul-w-tee-b2", ascii: (0x2d, 0x2b), constraints: Constraints { n: TILE_UL_S_INWALL_B, e: TILE_UL_W_INWALL_B, s: TILE_FLOORISH, w: TILE_UL_W_INWALL_B } }
    }
    else if i == 68 {
        Tile { name: "ur-w-inwall-a", ascii: (0x2d, 0x2d), constraints: Constraints { n: TILE_FLOORISH | TILE_WALLISH, e: TILE_WALLISH | TILE_UR_W_INWALL_A | TILE_UR_W_TEE_A | TILE_UR_W_TEE_B, s: TILE_FLOORISH, w: TILE_UR_W_INWALL_A | TILE_UR_W_DOOR | TILE_UR_W_JOINT_A | TILE_UR_W_TEE_A | TILE_UR_N_TEE_B } }
    }
    else if i == 69 {
        Tile { name: "ur-w-door", ascii: (0x20, 0x20), constraints: Constraints { n: TILE_FLOORISH, e: TILE_UR_W_INWALL_A, s: TILE_FLOORISH, w: TILE_UR_W_INWALL_B } }
    }
    else if i == 70 {
        Tile { name: "ur-w-inwall-b", ascii: (0x2d, 0x2d), constraints: Constraints { n: TILE_FLOORISH | TILE_WALLISH, e: TILE_UR_W_INWALL_B | TILE_UR_W_DOOR | TILE_UR_W_TEE_B2, s: TILE_FLOORISH, w: TILE_WALLISH | TILE_UR_W_INWALL_B | TILE_UR_W_JOINT_B | TILE_UR_W_TEE_B | TILE_UR_W_TEE_B2 | TILE_UR_N_TEE_A | TILE_UR_N_TEE_B2 } }
    }
    else if i == 71 {
        Tile { name: "ur-w-joint-a", ascii: (0x27, 0x2d), constraints: Constraints { n: TILE_UR_N_INWALL_A, e: TILE_UR_W_INWALL_A, s: TILE_FLOORISH, w: TILE_FLOORISH } }
    }
    else if i == 72 {
        Tile { name: "ur-w-joint-b", ascii: (0x27, 0x2d), constraints: Constraints { n: TILE_UR_N_INWALL_B, e: TILE_UR_W_INWALL_B, s: TILE_FLOORISH, w: TILE_FLOORISH } }
    }
    else if i == 73 {
        Tile { name: "ur-w-tee-a", ascii: (0x2b, 0x2d), constraints: Constraints { n: TILE_UR_N_INWALL_A, e: TILE_UR_W_INWALL_A, s: TILE_FLOORISH, w: TILE_UR_W_INWALL_A } }
    }
    else if i == 74 {
        Tile { name: "ur-w-tee-b", ascii: (0x2b, 0x2d), constraints: Constraints { n: TILE_UR_N_INWALL_B, e: TILE_UR_W_INWALL_B, s: TILE_FLOORISH, w: TILE_UR_W_INWALL_A } }
    }
    else if i == 75 {
        Tile { name: "ur-w-tee-b2", ascii: (0x2b, 0x2d), constraints: Constraints { n: TILE_UR_N_INWALL_A, e: TILE_UR_W_INWALL_B, s: TILE_FLOORISH, w: TILE_UR_W_INWALL_B } }
    }
    else if i == 76 {
        Tile { name: "ur-n-inwall-a", ascii: (0x7c, 0x20), constraints: Constraints { n: TILE_UR_N_INWALL_A | TILE_UR_N_DOOR | TILE_UR_N_TEE_A, e: TILE_FLOORISH | TILE_WALLISH, s: TILE_WALLISH | TILE_UR_N_INWALL_A | TILE_UR_W_JOINT_A | TILE_UR_W_TEE_A | TILE_UR_W_TEE_B2 | TILE_UR_N_TEE_A | TILE_UR_N_TEE_B, w: TILE_FLOORISH } }
    }
    else if i == 77 {
        Tile { name: "ur-n-door", ascii: (0x20, 0x20), constraints: Constraints { n: TILE_UR_N_INWALL_B, e: TILE_FLOORISH, s: TILE_UR_N_INWALL_A, w: TILE_FLOORISH } }
    }
    else if i == 78 {
        Tile { name: "ur-n-inwall-b", ascii: (0x7c, 0x20), constraints: Constraints { n: TILE_WALLISH | TILE_UR_N_INWALL_B | TILE_UR_W_JOINT_B | TILE_UR_N_TEE_B | TILE_UR_N_TEE_B2, e: TILE_FLOORISH | TILE_WALLISH, s: TILE_UR_N_INWALL_B | TILE_UR_N_DOOR | TILE_UR_W_JOINT_B | TILE_UR_N_TEE_B2, w: TILE_FLOORISH } }
    }
    else if i == 79 {
        Tile { name: "ur-n-tee-a", ascii: (0x2b, 0x2d), constraints: Constraints { n: TILE_UR_N_INWALL_A, e: TILE_UR_W_INWALL_B, s: TILE_UR_N_INWALL_A, w: TILE_FLOORISH } }
    }
    else if i == 80 {
        Tile { name: "ur-n-tee-b", ascii: (0x2b, 0x2d), constraints: Constraints { n: TILE_UR_N_INWALL_A, e: TILE_UR_W_INWALL_A, s: TILE_UR_N_INWALL_B, w: TILE_FLOORISH } }
    }
    else {
        Tile { name: "ur-n-tee-b2", ascii: (0x2b, 0x2d), constraints: Constraints { n: TILE_UR_N_INWALL_B, e: TILE_UR_W_INWALL_B, s: TILE_UR_N_INWALL_B, w: TILE_FLOORISH } }
    }
}

/// Build the built-in catalog as a vector of tiles, in index order.
pub fn catalog() -> (v: Vec<Tile>)
    ensures
        v@.len() == TILE_COUNT,
        forall|i: int|
            0 <= i < TILE_COUNT ==> (#[trigger] v@[i]).constraints == catalog_constraints(i)
                && v@[i].ascii == catalog_glyph(i),
{
    let mut v: Vec<Tile> = Vec::new();
    let mut i: usize = 0;
    while i < TILE_COUNT
        invariant
            i <= TILE_COUNT,
            v@.len() == i,
            forall|j: int|
                0 <= j < i ==> (#[trigger] v@[j]).constraints == catalog_constraints(j)
                    && v@[j].ascii == catalog_glyph(j),
        decreases TILE_COUNT - i,
    {
        let t = catalog_tile(i);
        v.push(t);
        i = i + 1;
    }
    v
}

} // verus!
