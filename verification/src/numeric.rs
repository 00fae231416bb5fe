//! Exact integer arithmetic shared by the projector, the zoom selector and the
//! mosaic assembler.
//!
//! Every quantity that the snapshot pipeline rounds is a quotient of two
//! integers.  The functions here compute the floor, the ceiling, the truncation
//! and the nearest integer of such a quotient without ever leaving integer
//! arithmetic, and state the result over mathematical integers.

use vstd::prelude::*;
use vstd::arithmetic::div_mod::lemma_fundamental_div_mod;
use vstd::arithmetic::div_mod::lemma_fundamental_div_mod_converse;
use vstd::arithmetic::div_mod::lemma_mod_pos_bound;
use vstd::arithmetic::power2::lemma2_to64;
use vstd::arithmetic::power2::lemma_pow2_strictly_increases;
use vstd::arithmetic::power2::lemma_pow2_unfold;
use vstd::arithmetic::power2::pow2;

verus! {

/// Highest zoom level the tile grid can address with `i32` indices.
pub const MAX_ZOOM: u8 = 30;

/// Largest magnitude of a numerator handed to the wide division helpers.
pub const WIDE_LIMIT: i128 = 0x7fff_ffff_ffff_ffff_ffff_ffff_ffff_ffff;

/// Largest divisor handed to the wide division helpers.
pub const DIVISOR_LIMIT: i128 = 0x1_0000_0000_0000_0000_0000;

/// The quotient `n / d` rounded towards negative infinity (`d` positive).
pub open spec fn floor_div(n: int, d: int) -> int {
    n / d
}

/// The quotient `n / d` rounded towards positive infinity (`d` positive).
pub open spec fn ceil_div(n: int, d: int) -> int {
    -((-n) / d)
}

/// The quotient `n / d` rounded towards zero (`d` positive).
pub open spec fn trunc_div(n: int, d: int) -> int {
    if n >= 0 {
        n / d
    } else {
        -((-n) / d)
    }
}

/// What is left of `n` once whole multiples of `d` are taken away towards
/// zero: it carries the sign of `n` and is smaller than `d` in magnitude.
pub open spec fn trunc_rem(n: int, d: int) -> int {
    if n >= 0 {
        n % d
    } else {
        -((-n) % d)
    }
}

/// The quotient `n / d` rounded to the nearest integer, a tie going away from
/// zero (`d` positive).
pub open spec fn round_div(n: int, d: int) -> int {
    if n >= 0 {
        (2 * n + d) / (2 * d)
    } else {
        -((2 * (-n) + d) / (2 * d))
    }
}

/// `value` limited to the closed interval from `low` to `high`.
pub open spec fn clamp(value: int, low: int, high: int) -> int {
    if value < low {
        low
    } else if value > high {
        high
    } else {
        value
    }
}

/// `value` limited to what an `i32` can hold.
pub open spec fn clamp_i32(value: int) -> int {
    clamp(value, i32::MIN as int, i32::MAX as int)
}

/// `value` limited to what an `i64` can hold.
pub open spec fn clamp_i64(value: int) -> int {
    clamp(value, i64::MIN as int, i64::MAX as int)
}

/// Two to the power `zoom`: the number of tiles along one side of the world
/// at that zoom level.
pub open spec fn tiles_per_side(zoom: u8) -> int {
    pow2(zoom as nat) as int
}

/// The number of tiles along one side of the world at `zoom`.
pub fn grid_side(zoom: u8) -> (side: i64)
    requires
        zoom <= MAX_ZOOM,
    ensures
        side == tiles_per_side(zoom),
        1 <= side <= 0x4000_0000,
{
    let mut side: i64 = 1;
    let mut level: u8 = 0;
    proof {
        lemma2_to64();
    }
    while level < zoom
        invariant
            level <= zoom <= MAX_ZOOM,
            side == pow2(level as nat),
            1 <= side <= 0x4000_0000,
        decreases zoom - level,
    {
        proof {
            lemma_pow2_unfold((level + 1) as nat);
            lemma2_to64();
            if level + 1 < 30 {
                lemma_pow2_strictly_increases((level + 1) as nat, 30);
            }
        }
        side = side * 2;
        level = level + 1;
    }
    side
}

/// `floor_div` on machine integers.
pub(crate) fn floor_div_wide(n: i128, d: i128) -> (q: i128)
    requires
        0 < d <= DIVISOR_LIMIT,
        -WIDE_LIMIT <= n <= WIDE_LIMIT,
    ensures
        q == floor_div(n as int, d as int),
        -WIDE_LIMIT <= q <= WIDE_LIMIT,
{
    if n >= 0 {
        let q = n / d;
        proof {
            lemma_fundamental_div_mod(n as int, d as int);
            lemma_mod_pos_bound(n as int, d as int);
            assert(d * (n / d) <= n);
            assert(n / d <= n) by (nonlinear_arith)
                requires
                    d * (n / d) <= n,
                    d >= 1,
                    n >= 0,
            ;
            assert(0 <= n / d) by (nonlinear_arith)
                requires
                    d * (n / d) + (n % d) == n,
                    0 <= n % d < d,
                    n >= 0,
            ;
        }
        q
    } else {
        let m = -n;
        let q = m / d;
        let r = m % d;
        proof {
            lemma_fundamental_div_mod(m as int, d as int);
            lemma_mod_pos_bound(m as int, d as int);
            assert(0 <= q <= m && (r > 0 ==> q < m)) by (nonlinear_arith)
                requires
                    d * q + r == m,
                    0 <= r < d,
                    m >= 0,
            ;
            if r == 0 {
                assert(n == (-q) * d + 0) by (nonlinear_arith)
                    requires
                        d * q + r == m,
                        r == 0,
                        n == -m,
                ;
                lemma_fundamental_div_mod_converse(n as int, d as int, -q, 0);
            } else {
                assert(n == (-q - 1) * d + (d - r)) by (nonlinear_arith)
                    requires
                        d * q + r == m,
                        n == -m,
                ;
                lemma_fundamental_div_mod_converse(n as int, d as int, -q - 1, d - r);
            }
        }
        if r == 0 {
            -q
        } else {
            -q - 1
        }
    }
}

/// `ceil_div` on machine integers.
pub(crate) fn ceil_div_wide(n: i128, d: i128) -> (q: i128)
    requires
        0 < d <= DIVISOR_LIMIT,
        -WIDE_LIMIT <= n <= WIDE_LIMIT,
    ensures
        q == ceil_div(n as int, d as int),
        -WIDE_LIMIT <= q <= WIDE_LIMIT,
{
    -floor_div_wide(-n, d)
}

/// `trunc_div` on machine integers.
pub(crate) fn trunc_div_wide(n: i128, d: i128) -> (q: i128)
    requires
        0 < d <= DIVISOR_LIMIT,
        -WIDE_LIMIT <= n <= WIDE_LIMIT,
    ensures
        q == trunc_div(n as int, d as int),
        -WIDE_LIMIT <= q <= WIDE_LIMIT,
{
    if n >= 0 {
        floor_div_wide(n, d)
    } else {
        -floor_div_wide(-n, d)
    }
}

/// `trunc_rem` on machine integers.
pub(crate) fn trunc_rem_wide(n: i128, d: i128) -> (r: i128)
    requires
        0 < d <= DIVISOR_LIMIT,
        -WIDE_LIMIT <= n <= WIDE_LIMIT,
    ensures
        r == trunc_rem(n as int, d as int),
        -d < r < d,
{
    if n >= 0 {
        proof {
            lemma_mod_pos_bound(n as int, d as int);
        }
        n % d
    } else {
        let m = -n;
        proof {
            lemma_mod_pos_bound(m as int, d as int);
        }
        -(m % d)
    }
}

/// `round_div` on machine integers.
pub(crate) fn round_div_wide(n: i128, d: i128) -> (q: i128)
    requires
        0 < 2 * d <= DIVISOR_LIMIT,
        -WIDE_LIMIT <= 4 * n <= WIDE_LIMIT,
    ensures
        q == round_div(n as int, d as int),
        -WIDE_LIMIT <= q <= WIDE_LIMIT,
{
    if n >= 0 {
        floor_div_wide(2 * n + d, 2 * d)
    } else {
        -floor_div_wide(2 * (-n) + d, 2 * d)
    }
}

/// `clamp_i32` on machine integers.
pub(crate) fn saturate_i32(value: i128) -> (r: i32)
    ensures
        r == clamp_i32(value as int),
{
    if value < -0x8000_0000 {
        -0x8000_0000
    } else if value > 0x7fff_ffff {
        0x7fff_ffff
    } else {
        value as i32
    }
}

/// `clamp_i64` on machine integers.
pub(crate) fn saturate_i64(value: i128) -> (r: i64)
    ensures
        r == clamp_i64(value as int),
{
    if value < -0x8000_0000_0000_0000 {
        -0x8000_0000_0000_0000
    } else if value > 0x7fff_ffff_ffff_ffff {
        0x7fff_ffff_ffff_ffff
    } else {
        value as i64
    }
}

} // verus!
