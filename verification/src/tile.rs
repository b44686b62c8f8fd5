//! Tile coordinate mapping.
//!
//! A tile is addressed by (x, y, zoom) in the standard quad-tree scheme:
//! 2^zoom tiles per axis, y = 0 at the northern edge. The Web-Mercator
//! world spans ±20,037,508.342789244 m on both axes, which is exactly
//! ±20,037,508,342,789,244 nanometers. At zoom z the bounds of a tile are
//! rationals with denominator 2^z, so this module computes them exactly in
//! *scaled nanometers*: every returned coordinate is the true coordinate in
//! nanometers multiplied by 2^z. Longitude bounds are likewise exact in
//! scaled nanodegrees. The latitude bounds of a tile go through the inverse
//! Web-Mercator (Gudermannian) function, which is not rational; they are
//! computed by the unverified shell.

use vstd::arithmetic::power2::{lemma2_to64, lemma_pow2_strictly_increases, pow2};
use vstd::prelude::*;

verus! {

/// One tile rendering request: tile address, band number, and output size
/// in pixels per side.
#[derive(Clone, Copy, Debug)]
pub struct TileRequest {
    pub x: i32,
    pub y: i32,
    pub z: u8,
    pub band: i32,
    pub tile_size: usize,
}

/// Half the Web-Mercator world extent, in nanometers (exact).
pub const HALF_WORLD_NM: i128 = 20_037_508_342_789_244;

/// Half the longitude range, in nanodegrees (exact).
pub const HALF_LON_NANODEG: i128 = 180_000_000_000;

/// Web-Mercator bounds of one tile, in nanometers scaled by 2^zoom.
#[derive(Clone, Copy, Debug)]
pub struct WebMercatorBounds {
    pub min_x: i128,
    pub min_y: i128,
    pub max_x: i128,
    pub max_y: i128,
}

/// West edge of tile column x at zoom z, in scaled nanometers.
pub open spec fn merc_min_x(x: int, z: nat) -> int {
    -HALF_WORLD_NM * pow2(z) + x * (2 * HALF_WORLD_NM)
}

/// East edge of tile column x at zoom z, in scaled nanometers.
pub open spec fn merc_max_x(x: int, z: nat) -> int {
    merc_min_x(x, z) + 2 * HALF_WORLD_NM
}

/// North edge of tile row y at zoom z, in scaled nanometers. Tile rows
/// count southward while the projected axis grows northward, hence the
/// subtraction from the top of the world.
pub open spec fn merc_max_y(y: int, z: nat) -> int {
    HALF_WORLD_NM * pow2(z) - y * (2 * HALF_WORLD_NM)
}

/// South edge of tile row y at zoom z, in scaled nanometers.
pub open spec fn merc_min_y(y: int, z: nat) -> int {
    merc_max_y(y, z) - 2 * HALF_WORLD_NM
}

/// 2^z for z < 64, as an i128.
fn pow2_i128(z: u8) -> (r: i128)
    requires
        z < 64,
    ensures
        r == pow2(z as nat),
{
    let mut r: i128 = 1;
    let mut i: u8 = 0;
    proof {
        lemma2_to64();
    }
    while i < z
        invariant
            i <= z < 64,
            r == pow2(i as nat),
        decreases z - i,
    {
        proof {
            lemma2_to64();
            vstd::arithmetic::power2::lemma_pow2_unfold((i + 1) as nat);
            lemma_pow2_strictly_increases((i + 1) as nat, 64);
        }
        r = r * 2;
        i = i + 1;
    }
    r
}

/// Exact Web-Mercator bounds of a tile, in nanometers scaled by 2^z.
pub fn tile_to_web_mercator_bounds(x: i32, y: i32, z: u8) -> (b: WebMercatorBounds)
    requires
        z < 64,
    ensures
        b.min_x == merc_min_x(x as int, z as nat),
        b.max_x == merc_max_x(x as int, z as nat),
        b.min_y == merc_min_y(y as int, z as nat),
        b.max_y == merc_max_y(y as int, z as nat),
{
    let p = pow2_i128(z);
    proof {
        lemma2_to64();
        lemma_pow2_strictly_increases(z as nat, 64);
        vstd::arithmetic::power2::lemma_pow2_pos(z as nat);
        assert(0 < p <= 0x10000000000000000);
        assert(0 <= HALF_WORLD_NM * p <= HALF_WORLD_NM * 0x10000000000000000) by (nonlinear_arith)
            requires
                0 < p <= 0x10000000000000000,
        ;
    }
    proof {
        assert((-0x80000000) * (2 * HALF_WORLD_NM) <= (x as int) * (2 * HALF_WORLD_NM) <= 0x80000000 * (2 * HALF_WORLD_NM)
            && (-0x80000000) * (2 * HALF_WORLD_NM) <= (y as int) * (2 * HALF_WORLD_NM) <= 0x80000000 * (2 * HALF_WORLD_NM))
            by (nonlinear_arith)
            requires
                -0x80000000 <= x as int <= 0x80000000,
                -0x80000000 <= y as int <= 0x80000000,
        ;
    }
    let top = HALF_WORLD_NM * p;
    let min_x = -top + (x as i128) * (2 * HALF_WORLD_NM);
    let max_y = top - (y as i128) * (2 * HALF_WORLD_NM);
    WebMercatorBounds {
        min_x,
        min_y: max_y - 2 * HALF_WORLD_NM,
        max_x: min_x + 2 * HALF_WORLD_NM,
        max_y,
    }
}

/// West edge of tile column x at zoom z, in scaled nanodegrees.
pub open spec fn lon_min(x: int, z: nat) -> int {
    -HALF_LON_NANODEG * pow2(z) + x * (2 * HALF_LON_NANODEG)
}

/// East edge of tile column x at zoom z, in scaled nanodegrees.
pub open spec fn lon_max(x: int, z: nat) -> int {
    lon_min(x, z) + 2 * HALF_LON_NANODEG
}

/// Exact longitude bounds of a tile column, in nanodegrees scaled by 2^z.
/// Longitude is linear in x; at zoom 0 the single column spans the full
/// −180°..180° range exactly.
pub fn tile_to_geo_lon_bounds(x: i32, z: u8) -> (b: (i128, i128))
    requires
        z < 64,
    ensures
        b.0 == lon_min(x as int, z as nat),
        b.1 == lon_max(x as int, z as nat),
{
    let p = pow2_i128(z);
    proof {
        lemma2_to64();
        lemma_pow2_strictly_increases(z as nat, 64);
        vstd::arithmetic::power2::lemma_pow2_pos(z as nat);
        assert(0 < p <= 0x10000000000000000);
        assert(0 <= HALF_LON_NANODEG * p <= HALF_LON_NANODEG * 0x10000000000000000) by (nonlinear_arith)
            requires
                0 < p <= 0x10000000000000000,
        ;
    }
    proof {
        assert((-0x80000000) * (2 * HALF_LON_NANODEG) <= (x as int) * (2 * HALF_LON_NANODEG) <= 0x80000000 * (2 * HALF_LON_NANODEG))
            by (nonlinear_arith)
            requires
                -0x80000000 <= x as int <= 0x80000000,
        ;
    }
    let top = HALF_LON_NANODEG * p;
    let min = -top + (x as i128) * (2 * HALF_LON_NANODEG);
    (min, min + 2 * HALF_LON_NANODEG)
}

/// Tiles mirrored through the center of the zoom-z grid have Web-Mercator
/// bounds that are point-symmetric about the origin: tile (x, y) against
/// tile (2^z − 1 − x, 2^z − 1 − y).
pub proof fn lemma_web_mercator_point_symmetry(x: int, y: int, z: nat)
    ensures
        merc_min_x(x, z) + merc_max_x(pow2(z) - 1 - x, z) == 0,
        merc_max_x(x, z) + merc_min_x(pow2(z) - 1 - x, z) == 0,
        merc_min_y(y, z) + merc_max_y(pow2(z) - 1 - y, z) == 0,
        merc_max_y(y, z) + merc_min_y(pow2(z) - 1 - y, z) == 0,
{
    let p: int = pow2(z) as int;
    let w: int = 2 * HALF_WORLD_NM;
    assert((p - 1 - x) * w == p * w - w - x * w) by (nonlinear_arith);
    assert((p - 1 - y) * w == p * w - w - y * w) by (nonlinear_arith);
    assert(HALF_WORLD_NM * p + HALF_WORLD_NM * p == p * w) by (nonlinear_arith)
        requires
            w == 2 * HALF_WORLD_NM,
    ;
}

/// Every tile's bounds are properly ordered on both axes.
pub proof fn lemma_web_mercator_bounds_ordered(x: int, y: int, z: nat)
    ensures
        merc_min_x(x, z) < merc_max_x(x, z),
        merc_min_y(y, z) < merc_max_y(y, z),
{
}

} // verus!
