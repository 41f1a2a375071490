//! Fixed-point scalar math for signed-distance evaluation. Lengths and
//! coordinates are integers in field-local units; square roots are rounded
//! down, so a distance is exact whenever the true distance is an integer and
//! otherwise is its floor.

use vstd::prelude::*;

verus! {

/// Coordinates and shape parameters are kept within this bound so that sums
/// of squares fit in 64 bits.
pub const COORD_LIMIT: i64 = 0x8000_0000;

/// Spatial origins are kept within half the coordinate bound, so that the
/// difference of two origins is still a valid query coordinate.
pub const POS_LIMIT: i64 = 0x4000_0000;

/// Absolute value within i64, for inputs above the minimum.
pub open spec fn abs64(x: i64) -> i64 {
    if x < 0 {
        (-(x as int)) as i64
    } else {
        x
    }
}

pub open spec fn abs_i(x: int) -> int {
    if x < 0 {
        -x
    } else {
        x
    }
}

pub open spec fn max_i(x: int, y: int) -> int {
    if x >= y {
        x
    } else {
        y
    }
}

pub open spec fn min_i(x: int, y: int) -> int {
    if x <= y {
        x
    } else {
        y
    }
}

/// Largest integer whose square does not exceed `x`.
pub open spec fn sqrt_floor(x: nat) -> nat
    decreases x,
{
    if x == 0 {
        0
    } else {
        let p = sqrt_floor((x - 1) as nat);
        if (p + 1) * (p + 1) <= x {
            (p + 1) as nat
        } else {
            p
        }
    }
}

pub proof fn lemma_sqrt_floor_bounds(x: nat)
    ensures
        (sqrt_floor(x) as int) * (sqrt_floor(x) as int) <= x as int,
        (x as int) < (sqrt_floor(x) as int + 1) * (sqrt_floor(x) as int + 1),
    decreases x,
{
    if x == 0 {
        assert(sqrt_floor(0nat) == 0);
    } else {
        let p = sqrt_floor((x - 1) as nat) as int;
        lemma_sqrt_floor_bounds((x - 1) as nat);
        assert(p * p <= x - 1);
        assert(x - 1 < (p + 1) * (p + 1));
        assert((p + 1) * (p + 1) >= 0) by (nonlinear_arith)
            requires
                p >= 0,
        ;
        if (p + 1) * (p + 1) <= x as int {
            assert(sqrt_floor(x) as int == p + 1);
            assert(x as int == (p + 1) * (p + 1));
            assert((p + 2) * (p + 2) > (p + 1) * (p + 1)) by (nonlinear_arith)
                requires
                    p >= 0,
            ;
        } else {
            assert(sqrt_floor(x) as int == p);
        }
    }
}

pub proof fn lemma_sqrt_floor_unique(x: nat, r: int)
    requires
        0 <= r,
        r * r <= x as int,
        (x as int) < (r + 1) * (r + 1),
    ensures
        r == sqrt_floor(x),
{
    let s = sqrt_floor(x) as int;
    lemma_sqrt_floor_bounds(x);
    if r < s {
        assert((r + 1) * (r + 1) <= s * s) by (nonlinear_arith)
            requires
                0 <= r + 1 <= s,
        ;
    }
    if s < r {
        assert((s + 1) * (s + 1) <= r * r) by (nonlinear_arith)
            requires
                0 <= s + 1 <= r,
        ;
    }
}

/// Floor square root, by binary search on the result.
pub fn isqrt(x: u64) -> (r: u64)
    ensures
        r == sqrt_floor(x as nat),
{
    let mut lo: u64 = 0;
    let mut hi: u64 = 0x1_0000_0000;
    while lo + 1 < hi
        invariant
            lo < hi <= 0x1_0000_0000u64,
            (lo as int) * (lo as int) <= x as int,
            (hi as int) * (hi as int) > x as int,
        decreases hi - lo,
    {
        let mid = lo + (hi - lo) / 2;
        proof {
            assert(lo < mid < hi);
            assert((mid as int) * (mid as int) <= 0xFFFF_FFFFi64 * 0xFFFF_FFFFi64)
                by (nonlinear_arith)
                requires
                    0 <= mid as int <= 0xFFFF_FFFF,
            ;
        }
        if mid * mid <= x {
            lo = mid;
        } else {
            hi = mid;
        }
    }
    proof {
        assert(hi == lo + 1);
        lemma_sqrt_floor_unique(x as nat, lo as int);
    }
    lo
}

/// Radial overshoot of a point past the cylinder wall: distance of the
/// point's footprint from the axis, minus the radius.
pub open spec fn cyl_dx(radius: int, px: int, py: int) -> int {
    sqrt_floor((px * px + py * py) as nat) - radius
}

/// Axial overshoot of a point past the cylinder cap: height above the
/// midplane, minus the half-length.
pub open spec fn cyl_dz(length: int, pz: int) -> int {
    abs_i(pz) - length / 2
}

/// Signed distance from a point to a capped cylinder of the given length and
/// radius, in the cylinder's local frame (axis along z, centered on the
/// origin). Negative strictly inside, zero on the surface, and the rounded
/// Euclidean distance to the nearest surface point outside.
pub open spec fn cyl_distance(length: int, radius: int, px: int, py: int, pz: int) -> int {
    let dx = cyl_dx(radius, px, py);
    let dz = cyl_dz(length, pz);
    let ox = max_i(dx, 0);
    let oz = max_i(dz, 0);
    min_i(max_i(dx, dz), 0) + sqrt_floor((ox * ox + oz * oz) as nat) as int
}

/// A point strictly within both bounds has a strictly negative distance.
pub proof fn lemma_cyl_inside(length: int, radius: int, px: int, py: int, pz: int)
    requires
        0 <= length,
        0 <= radius,
        px * px + py * py < radius * radius,
        abs_i(pz) < length / 2,
    ensures
        cyl_distance(length, radius, px, py, pz) < 0,
{
    let sq = px * px + py * py;
    assert(px * px + py * py >= 0) by (nonlinear_arith);
    let rho = sqrt_floor(sq as nat) as int;
    lemma_sqrt_floor_bounds(sq as nat);
    assert(rho < radius) by {
        if radius <= rho {
            assert(radius * radius <= rho * rho) by (nonlinear_arith)
                requires
                    0 <= radius <= rho,
            ;
        }
    }
    let dx = cyl_dx(radius, px, py);
    let dz = cyl_dz(length, pz);
    assert(dx == rho - radius);
    assert(dx < 0 && dz < 0);
    assert(max_i(dx, 0) == 0 && max_i(dz, 0) == 0);
    assert(sqrt_floor(0nat) == 0);
}

/// A point exactly on the wall, within the caps, has distance zero.
pub proof fn lemma_cyl_on_wall(length: int, radius: int, px: int, py: int, pz: int)
    requires
        0 <= length,
        0 <= radius,
        px * px + py * py == radius * radius,
        abs_i(pz) <= length / 2,
    ensures
        cyl_distance(length, radius, px, py, pz) == 0,
{
    let sq = px * px + py * py;
    assert((radius + 1) * (radius + 1) > radius * radius) by (nonlinear_arith)
        requires
            radius >= 0,
    ;
    lemma_sqrt_floor_unique(sq as nat, radius);
    let dx = cyl_dx(radius, px, py);
    let dz = cyl_dz(length, pz);
    assert(dx == 0);
    assert(dz <= 0);
    assert(max_i(dx, dz) == 0 && min_i(0int, 0int) == 0);
    assert(max_i(dx, 0) == 0 && max_i(dz, 0) == 0);
    assert(sqrt_floor(0nat) == 0);
}

/// A point exactly on a cap, within the wall, has distance zero.
pub proof fn lemma_cyl_on_cap(length: int, radius: int, px: int, py: int, pz: int)
    requires
        0 <= length,
        0 <= radius,
        px * px + py * py <= radius * radius,
        abs_i(pz) == length / 2,
    ensures
        cyl_distance(length, radius, px, py, pz) == 0,
{
    let sq = px * px + py * py;
    assert(px * px + py * py >= 0) by (nonlinear_arith);
    let rho = sqrt_floor(sq as nat) as int;
    lemma_sqrt_floor_bounds(sq as nat);
    assert(rho <= radius) by {
        if radius < rho {
            assert((radius + 1) * (radius + 1) <= rho * rho) by (nonlinear_arith)
                requires
                    0 <= radius + 1 <= rho,
            ;
            assert((radius + 1) * (radius + 1) > radius * radius) by (nonlinear_arith)
                requires
                    radius >= 0,
            ;
        }
    }
    let dx = cyl_dx(radius, px, py);
    let dz = cyl_dz(length, pz);
    assert(dx == rho - radius);
    assert(dx <= 0 && dz == 0);
    assert(max_i(dx, dz) == 0 && min_i(0int, 0int) == 0);
    assert(max_i(dx, 0) == 0 && max_i(dz, 0) == 0);
    assert(sqrt_floor(0nat) == 0);
}

/// Outside either bound, the distance is nonnegative and is the floor of the
/// Euclidean distance to the nearest surface point: its square brackets the
/// exact squared offset beyond the surface.
pub proof fn lemma_cyl_outside(length: int, radius: int, px: int, py: int, pz: int)
    requires
        cyl_dx(radius, px, py) >= 0 || cyl_dz(length, pz) >= 0,
    ensures
        ({
            let d = cyl_distance(length, radius, px, py, pz);
            let ox = max_i(cyl_dx(radius, px, py), 0);
            let oz = max_i(cyl_dz(length, pz), 0);
            d >= 0 && d * d <= ox * ox + oz * oz && ox * ox + oz * oz < (d + 1) * (d + 1)
        }),
{
    let dx = cyl_dx(radius, px, py);
    let dz = cyl_dz(length, pz);
    let ox = max_i(dx, 0);
    let oz = max_i(dz, 0);
    assert(ox * ox >= 0 && oz * oz >= 0) by (nonlinear_arith)
        requires
            ox >= 0 && oz >= 0,
    ;
    lemma_sqrt_floor_bounds((ox * ox + oz * oz) as nat);
    assert(min_i(max_i(dx, dz), 0) == 0);
}

/// Any cylinder distance over in-range parameters lies between minus the
/// coordinate bound and one and a half times the 32-bit range.
pub proof fn lemma_cyl_distance_range(length: int, radius: int, px: int, py: int, pz: int)
    requires
        0 <= length <= COORD_LIMIT,
        0 <= radius <= COORD_LIMIT,
        abs_i(px) <= COORD_LIMIT,
        abs_i(py) <= COORD_LIMIT,
        abs_i(pz) <= COORD_LIMIT,
    ensures
        -COORD_LIMIT <= cyl_distance(length, radius, px, py, pz) <= 0x1_8000_0000,
{
    let sq = px * px + py * py;
    assert(0 <= px * px <= 0x4000_0000_0000_0000) by (nonlinear_arith)
        requires
            -0x8000_0000 <= px <= 0x8000_0000,
    ;
    assert(0 <= py * py <= 0x4000_0000_0000_0000) by (nonlinear_arith)
        requires
            -0x8000_0000 <= py <= 0x8000_0000,
    ;
    let rho = sqrt_floor(sq as nat) as int;
    lemma_sqrt_floor_bounds(sq as nat);
    assert(rho <= 0xB504_F333) by {
        if rho > 0xB504_F333 {
            assert(rho * rho > 0x8000_0000_0000_0000) by (nonlinear_arith)
                requires
                    rho >= 0xB504_F334,
            ;
        }
    }
    let dx = cyl_dx(radius, px, py);
    let dz = cyl_dz(length, pz);
    let ox = max_i(dx, 0);
    let oz = max_i(dz, 0);
    assert(0 <= ox <= 0xB504_F333);
    assert(0 <= oz <= COORD_LIMIT);
    let sum2 = ox * ox + oz * oz;
    assert(0 <= ox * ox <= 0x8000_0000_0000_0000) by (nonlinear_arith)
        requires
            0 <= ox <= 0xB504_F333,
    ;
    assert(0 <= oz * oz <= 0x4000_0000_0000_0000) by (nonlinear_arith)
        requires
            0 <= oz <= 0x8000_0000,
    ;
    let outer = sqrt_floor(sum2 as nat) as int;
    lemma_sqrt_floor_bounds(sum2 as nat);
    assert(outer <= 0x1_8000_0000) by {
        if outer > 0x1_8000_0000 {
            assert(outer * outer > 0xC000_0000_0000_0000) by (nonlinear_arith)
                requires
                    outer >= 0x1_8000_0001,
            ;
        }
    }
    assert(-COORD_LIMIT <= min_i(max_i(dx, dz), 0) <= 0);
}

/// Executable signed distance to a capped cylinder, exact with respect to
/// the fixed-point model.
pub fn cylinder_distance(length: i64, radius: i64, px: i64, py: i64, pz: i64) -> (d: i64)
    requires
        0 <= length <= COORD_LIMIT,
        0 <= radius <= COORD_LIMIT,
        -COORD_LIMIT <= px <= COORD_LIMIT,
        -COORD_LIMIT <= py <= COORD_LIMIT,
        -COORD_LIMIT <= pz <= COORD_LIMIT,
    ensures
        d == cyl_distance(length as int, radius as int, px as int, py as int, pz as int),
{
    let ax: i64 = if px < 0 {
        -px
    } else {
        px
    };
    let ay: i64 = if py < 0 {
        -py
    } else {
        py
    };
    let az: i64 = if pz < 0 {
        -pz
    } else {
        pz
    };
    proof {
        assert((ax as int) * (ax as int) == px as int * px as int && (ay as int) * (ay as int)
            == py as int * py as int) by (nonlinear_arith)
            requires
                (ax as int == px as int || ax as int == -(px as int)),
                (ay as int == py as int || ay as int == -(py as int)),
        ;
        assert((ax as int) * (ax as int) <= 0x4000_0000_0000_0000 && (ay as int) * (ay as int)
            <= 0x4000_0000_0000_0000) by (nonlinear_arith)
            requires
                0 <= ax as int <= 0x8000_0000,
                0 <= ay as int <= 0x8000_0000,
        ;
    }
    let rho_sq: u64 = (ax as u64) * (ax as u64) + (ay as u64) * (ay as u64);
    let rho: u64 = isqrt(rho_sq);
    proof {
        lemma_sqrt_floor_bounds(rho_sq as nat);
        assert(rho_sq as int == px as int * px as int + py as int * py as int);
        assert(rho as int * rho as int <= 0x8000_0000_0000_0000);
        assert(rho as int <= 0xB504_F333) by {
            if rho as int > 0xB504_F333 {
                assert(rho as int * rho as int > 0x8000_0000_0000_0000) by (nonlinear_arith)
                    requires
                        rho as int >= 0xB504_F334,
                ;
            }
        }
    }
    let dx: i64 = (rho as i64) - radius;
    let h: i64 = length / 2;
    let dz: i64 = az - h;
    let m: i64 = if dx >= dz {
        dx
    } else {
        dz
    };
    let inner: i64 = if m <= 0 {
        m
    } else {
        0
    };
    let ox: i64 = if dx >= 0 {
        dx
    } else {
        0
    };
    let oz: i64 = if dz >= 0 {
        dz
    } else {
        0
    };
    proof {
        assert((ox as int) * (ox as int) <= 0x8000_0000_0000_0000) by (nonlinear_arith)
            requires
                0 <= ox as int <= 0xB504_F333,
        ;
        assert((oz as int) * (oz as int) <= 0x4000_0000_0000_0000) by (nonlinear_arith)
            requires
                0 <= oz as int <= 0x8000_0000,
        ;
    }
    let out_sq: u64 = (ox as u64) * (ox as u64) + (oz as u64) * (oz as u64);
    let outer: u64 = isqrt(out_sq);
    proof {
        lemma_sqrt_floor_bounds(out_sq as nat);
        assert(outer as int <= 0x2_0000_0000) by {
            if outer as int > 0x2_0000_0000 {
                assert(outer as int * outer as int > 0x2_0000_0000i64 * 0x2_0000_0000i64)
                    by (nonlinear_arith)
                    requires
                        outer as int > 0x2_0000_0000,
                ;
            }
        }
        let gl = length as int;
        let gr = radius as int;
        let gx = px as int;
        let gy = py as int;
        let gz = pz as int;
        assert(rho as int == sqrt_floor((gx * gx + gy * gy) as nat));
        assert(dx as int == cyl_dx(gr, gx, gy));
        assert(az as int == abs_i(gz));
        assert(h as int == gl / 2);
        assert(dz as int == cyl_dz(gl, gz));
        assert(m as int == max_i(dx as int, dz as int));
        assert(inner as int == min_i(max_i(dx as int, dz as int), 0));
        assert(ox as int == max_i(dx as int, 0) && oz as int == max_i(dz as int, 0));
        assert(out_sq as int == ox as int * ox as int + oz as int * oz as int);
        assert(outer as int == sqrt_floor((max_i(dx as int, 0) * max_i(dx as int, 0) + max_i(
            dz as int,
            0,
        ) * max_i(dz as int, 0)) as nat));
    }
    inner + (outer as i64)
}

} // verus!
