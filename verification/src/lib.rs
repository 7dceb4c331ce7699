//! Generator for 2D ASCII maps of a space station: a bubble layout of
//! circular rooms connected by hallways, grown from a seeded pseudo-random
//! generator, and a tile grid derived from that layout by constraint
//! propagation (wave-function collapse) over a fixed catalog of
//! local-adjacency bitmask constraints.

pub mod bits;
pub mod cset;
pub mod parse;
pub mod prng;
pub mod station;
pub mod tiles;
pub mod wfc;
