//! Density values and the distribution curves that turn a density into a
//! placement decision.
//!
//! A density is a whole number of millionths: `1_000_000` stands for one.
//! The density field itself is sampled by the host; the curves below are
//! exact integer arithmetic on its samples.

use vstd::prelude::*;

verus! {

/// The density value that stands for one.
pub const DENSITY_ONE: u32 = 1_000_000;

/// Distance between the two edges of a ramp.
pub open spec fn ramp_span(edge0: int, edge1: int) -> int {
    if edge1 > edge0 {
        edge1 - edge0
    } else {
        edge0 - edge1
    }
}

/// How far `x` has come from `edge0` toward `edge1`, held between zero and
/// the span of the ramp.
pub open spec fn ramp_pos(edge0: int, edge1: int, x: int) -> int {
    let along = if edge1 > edge0 {
        x - edge0
    } else {
        edge0 - x
    };
    if along < 0 {
        0
    } else if along > ramp_span(edge0, edge1) {
        ramp_span(edge0, edge1)
    } else {
        along
    }
}

/// The cubic ease `t * t * (3 - 2 * t)` of the position `t` of `x` on the
/// ramp from `edge0` to `edge1`, in millionths, rounded down. With
/// `t = pos / span` that is `pos² · (3 · span − 2 · pos) / span³`.
pub open spec fn smoothstep_spec(edge0: int, edge1: int, x: int) -> int {
    let span = ramp_span(edge0, edge1);
    let pos = ramp_pos(edge0, edge1, x);
    (1_000_000 * (pos * pos * (3 * span - 2 * pos))) / (span * span * span)
}

/// The smaller of two values.
pub open spec fn min_spec(a: int, b: int) -> int {
    if a <= b {
        a
    } else {
        b
    }
}

/// The band of densities in which asteroids are placed: it rises from
/// -0.5 to -0.3 and falls from -0.3 to -0.1.
pub open spec fn asteroid_distribution_spec(r: int) -> int {
    min_spec(smoothstep_spec(-500_000, -300_000, r), smoothstep_spec(-100_000, -300_000, r))
}

/// The band of densities in which explosive orbs are placed: it rises from
/// 0.3 to 0.35 and falls from 0.35 to 0.5.
pub open spec fn explosive_orb_distribution_spec(r: int) -> int {
    min_spec(smoothstep_spec(300_000, 350_000, r), smoothstep_spec(500_000, 350_000, r))
}

/// The cubic of the ease stays within the cube of the span.
proof fn lemma_ease_bounds(span: int, pos: int)
    requires
        0 <= pos <= span,
    ensures
        0 <= pos * pos * (3 * span - 2 * pos) <= span * span * span,
        pos * pos <= span * span,
{
    assert(pos * pos <= span * span) by (nonlinear_arith)
        requires
            0 <= pos <= span,
    ;
    assert(0 <= pos * pos * (3 * span - 2 * pos)) by (nonlinear_arith)
        requires
            0 <= pos <= span,
    ;
    assert(span * span * span - pos * pos * (3 * span - 2 * pos) == (span - pos) * (span - pos) * (
    span + 2 * pos)) by (nonlinear_arith);
    assert(0 <= (span - pos) * (span - pos) * (span + 2 * pos)) by (nonlinear_arith)
        requires
            0 <= pos <= span,
    ;
}

/// Smooth ramp from zero at `edge0` to one at `edge1`, in millionths: zero
/// up to `edge0`, `DENSITY_ONE` from `edge1` on, the cubic ease between.
/// The edges may stand in either order.
pub fn smoothstep(edge0: i32, edge1: i32, x: i32) -> (y: u32)
    requires
        edge0 != edge1,
    ensures
        y == smoothstep_spec(edge0 as int, edge1 as int, x as int),
        y <= DENSITY_ONE,
{
    let rising: bool = edge1 > edge0;
    let span: i64 = if rising {
        edge1 as i64 - edge0 as i64
    } else {
        edge0 as i64 - edge1 as i64
    };
    let along: i64 = if rising {
        x as i64 - edge0 as i64
    } else {
        edge0 as i64 - x as i64
    };
    let pos: i64 = if along < 0 {
        0
    } else if along > span {
        span
    } else {
        along
    };
    let s: u128 = span as u128;
    let p: u128 = pos as u128;
    proof {
        lemma_ease_bounds(s as int, p as int);
        assert(s * s <= 0xffff_ffff * 0xffff_ffff) by (nonlinear_arith)
            requires
                0 <= s <= 0xffff_ffff,
        ;
        assert(s * s * s <= 0xffff_ffff * 0xffff_ffff * 0xffff_ffff) by (nonlinear_arith)
            requires
                0 <= s <= 0xffff_ffff,
                s * s <= 0xffff_ffff * 0xffff_ffff,
        ;
        assert(s * s * s > 0) by (nonlinear_arith)
            requires
                s > 0,
        ;
    }
    let square: u128 = p * p;
    let slope: u128 = 3 * s - 2 * p;
    let cubic: u128 = square * slope;
    let cube: u128 = s * s * s;
    let y: u128 = (1_000_000 * cubic) / cube;
    assert(y <= 1_000_000) by (nonlinear_arith)
        requires
            y == (1_000_000 * cubic) / (cube as int),
            0 <= cubic <= cube,
            cube > 0,
    ;
    y as u32
}

/// The smaller of two values.
fn min_u32(a: u32, b: u32) -> (m: u32)
    ensures
        m == min_spec(a as int, b as int),
{
    if a <= b {
        a
    } else {
        b
    }
}

/// How strongly the density `r` calls for an asteroid, in millionths.
pub fn asteroid_distribution(r: i32) -> (y: u32)
    ensures
        y == asteroid_distribution_spec(r as int),
        y <= DENSITY_ONE,
{
    let a: u32 = smoothstep(-500_000, -300_000, r);
    let b: u32 = smoothstep(-100_000, -300_000, r);
    min_u32(a, b)
}

/// How strongly the density `r` calls for an explosive orb, in millionths.
pub fn explosive_orb_distribution(r: i32) -> (y: u32)
    ensures
        y == explosive_orb_distribution_spec(r as int),
        y <= DENSITY_ONE,
{
    let a: u32 = smoothstep(300_000, 350_000, r);
    let b: u32 = smoothstep(500_000, 350_000, r);
    min_u32(a, b)
}

/// Whether `root` is the integer square root of `n`.
pub open spec fn is_isqrt(n: int, root: int) -> bool {
    0 <= root && root * root <= n < (root + 1) * (root + 1)
}

/// The integer square root of `n`: the largest number whose square does not
/// exceed `n`.
pub fn isqrt(n: u64) -> (root: u32)
    ensures
        is_isqrt(n as int, root as int),
{
    let mut low: u64 = 0;
    let mut high: u64 = 0x1_0000_0000;
    assert(high * high > n) by (nonlinear_arith)
        requires
            high == 0x1_0000_0000,
            n <= 0xffff_ffff_ffff_ffff,
    ;
    while high - low > 1
        invariant
            low < high <= 0x1_0000_0000,
            low * low <= n < high * high,
        decreases high - low,
    {
        let mid: u64 = low + (high - low) / 2;
        assert(mid * mid <= 0xffff_ffff * 0xffff_ffff) by (nonlinear_arith)
            requires
                0 <= mid <= 0xffff_ffff,
        ;
        if mid * mid <= n {
            low = mid;
        } else {
            high = mid;
        }
    }
    low as u32
}

/// Number of cells along each axis into which a chunk of side `chunk_size`
/// is divided, so that the number of cells comes close to
/// `density_per_thousand` cells on a thousand square units: the integer
/// square root of the number of cells wanted, rounded down.
pub fn chunk_subdivisions(density_per_thousand: u16, chunk_size: u16) -> (cells: u32)
    ensures
        is_isqrt(density_per_thousand * chunk_size * chunk_size / 1000, cells as int),
{
    let density: u64 = density_per_thousand as u64;
    let side: u64 = chunk_size as u64;
    assert(0 <= density * side <= 0xffff * 0xffff) by (nonlinear_arith)
        requires
            0 <= density <= 0xffff,
            0 <= side <= 0xffff,
    ;
    assert(0 <= density * side * side <= 0xffff * 0xffff * 0xffff) by (nonlinear_arith)
        requires
            0 <= density * side <= 0xffff * 0xffff,
            0 <= side <= 0xffff,
    ;
    let wanted: u64 = density * side * side / 1000;
    isqrt(wanted)
}

} // verus!
