//! Smoothing kernels: radially symmetric weighting functions with bounded
//! support, used to interpolate quantities between particles.
//!
//! Two families are provided, each with its two- and three-dimensional
//! normalization constant. Every weight is exactly zero beyond the support
//! radius and nonnegative inside it, and every radial derivative is exactly
//! zero beyond the support radius and nonpositive inside it; these facts
//! are part of the functions' contracts.

use vstd::prelude::*;
use crate::fx::{
    fxb, s_mul, s_sub, s_add, s_div, fx_mul, fx_sub, fx_add, fx_div, fx_neg, SCALE, MAXV,
    lemma_s_mul_nonneg, lemma_s_mul_nonpos, lemma_s_div_nonneg, lemma_s_div_nonpos,
    lemma_s_div_le_one, lemma_tdiv_exact_mul,
};
use vstd::arithmetic::div_mod::{
    lemma_fundamental_div_mod, lemma_mod_bound, lemma_div_pos_is_pos, lemma_div_is_ordered,
    lemma_div_multiples_vanish,
};

verus! {

/// The dimension a body lives in; fixed once when a solver is built.
#[derive(Clone, Copy, Debug, PartialEq, Eq, Structural)]
pub enum Dim {
    Two,
    Three,
}

/// Which kernel family a solver role uses.
#[derive(Clone, Copy, Debug, PartialEq, Eq, Structural)]
pub enum KernelFamily {
    CubicSpline,
    Spiky,
}

/// The circle constant in fixed-point units.
pub const PI_FX: i64 = 205887;

/// The Spiky kernel's normalizer: `15/(pi h^6)` in three dimensions,
/// `10/(pi h^5)` in two.
pub open spec fn spiky_normalizer(h: int, dim: Dim) -> int {
    let h2 = s_mul(h, h);
    let h3 = s_mul(h2, h);
    match dim {
        Dim::Three => s_div(15 * SCALE, s_mul(PI_FX as int, s_mul(h3, h3))),
        Dim::Two => s_div(10 * SCALE, s_mul(PI_FX as int, s_mul(h3, h2))),
    }
}

/// The Spiky weight: `N (h - r)^3` inside the support, zero outside.
pub open spec fn spiky_weight(r: int, h: int, dim: Dim) -> int {
    if r <= h {
        let d = s_sub(h, r);
        s_mul(spiky_normalizer(h, dim), s_mul(s_mul(d, d), d))
    } else {
        0
    }
}

/// The Spiky radial derivative: `-3 N (h - r)^2` inside the support.
pub open spec fn spiky_diff(r: int, h: int, dim: Dim) -> int {
    if r <= h {
        let d = s_sub(h, r);
        -s_mul(s_mul(spiky_normalizer(h, dim), s_mul(d, d)), 3 * SCALE)
    } else {
        0
    }
}

/// The cubic-spline normalizer: `8/(pi h^3)` in three dimensions,
/// `40/(7 pi h^2)` in two.
pub open spec fn cubic_normalizer(h: int, dim: Dim) -> int {
    let h2 = s_mul(h, h);
    match dim {
        Dim::Three => s_div(8 * SCALE, s_mul(PI_FX as int, s_mul(h2, h))),
        Dim::Two => s_div(40 * SCALE, s_mul(7 * PI_FX as int, h2)),
    }
}

/// The cubic-spline weight over the normalized distance `q = r/h`:
/// `N (6(q^3 - q^2) + 1)` on the inner half of the support,
/// `2 N (1 - q)^3` on the outer half, zero outside.
pub open spec fn cubic_weight(r: int, h: int, dim: Dim) -> int {
    if r <= h {
        let q = s_div(r, h);
        let n = cubic_normalizer(h, dim);
        if 2 * q <= SCALE as int {
            let q2 = s_mul(q, q);
            let q3 = s_mul(q2, q);
            s_mul(n, s_add(SCALE as int, s_mul(6 * SCALE, s_sub(q3, q2))))
        } else {
            let u = s_sub(SCALE as int, q);
            s_mul(n, s_mul(2 * SCALE, s_mul(s_mul(u, u), u)))
        }
    } else {
        0
    }
}

/// The cubic-spline radial derivative: `6 N (3q^2 - 2q) / h` on the inner
/// half of the support, `-6 N (1 - q)^2 / h` on the outer half.
pub open spec fn cubic_diff(r: int, h: int, dim: Dim) -> int {
    if r <= h {
        let q = s_div(r, h);
        let n = cubic_normalizer(h, dim);
        if 2 * q <= SCALE as int {
            let t = s_sub(s_mul(3 * SCALE, s_mul(q, q)), s_mul(2 * SCALE, q));
            s_div(s_mul(n, s_mul(6 * SCALE, t)), h)
        } else {
            let u = s_sub(SCALE as int, q);
            s_div(-s_mul(n, s_mul(6 * SCALE, s_mul(u, u))), h)
        }
    } else {
        0
    }
}

/// Weight of the chosen family.
pub open spec fn family_weight(f: KernelFamily, r: int, h: int, dim: Dim) -> int {
    match f {
        KernelFamily::CubicSpline => cubic_weight(r, h, dim),
        KernelFamily::Spiky => spiky_weight(r, h, dim),
    }
}

/// Radial derivative of the chosen family.
pub open spec fn family_diff(f: KernelFamily, r: int, h: int, dim: Dim) -> int {
    match f {
        KernelFamily::CubicSpline => cubic_diff(r, h, dim),
        KernelFamily::Spiky => spiky_diff(r, h, dim),
    }
}

/// The Spiky smoothing kernel, steep near the origin.
#[derive(Clone, Copy, Debug)]
pub struct SpikyKernel;

/// The cubic-spline smoothing kernel, the default smooth choice for both
/// the density-weighting and gradient-weighting roles.
#[derive(Clone, Copy, Debug)]
pub struct CubicSplineKernel;

impl SpikyKernel {
    /// Interpolation weight at distance `r` for support radius `h`.
    pub fn scalar_apply(r: i64, h: i64, dim: Dim) -> (w: i64)
        requires
            0 <= r,
            0 < h,
            fxb(r as int),
            fxb(h as int),
        ensures
            w as int == spiky_weight(r as int, h as int, dim),
            r > h ==> w == 0,
            w >= 0,
            fxb(w as int),
    {
        if r > h {
            return 0;
        }
        let h2 = fx_mul(h, h);
        let h3 = fx_mul(h2, h);
        let den = match dim {
            Dim::Three => fx_mul(PI_FX, fx_mul(h3, h3)),
            Dim::Two => fx_mul(PI_FX, fx_mul(h3, h2)),
        };
        let num: i64 = match dim {
            Dim::Three => 15 * SCALE,
            Dim::Two => 10 * SCALE,
        };
        let n = fx_div(num, den);
        let d = fx_sub(h, r);
        let cube = fx_mul(fx_mul(d, d), d);
        let w = fx_mul(n, cube);
        proof {
            lemma_s_mul_nonneg(h as int, h as int);
            lemma_s_mul_nonneg(s_mul(h as int, h as int), h as int);
            let h2s = s_mul(h as int, h as int);
            let h3s = s_mul(h2s, h as int);
            match dim {
                Dim::Three => {
                    lemma_s_mul_nonneg(h3s, h3s);
                    lemma_s_mul_nonneg(PI_FX as int, s_mul(h3s, h3s));
                },
                Dim::Two => {
                    lemma_s_mul_nonneg(h3s, h2s);
                    lemma_s_mul_nonneg(PI_FX as int, s_mul(h3s, h2s));
                },
            }
            lemma_s_div_nonneg(num as int, den as int);
            lemma_s_mul_nonneg(d as int, d as int);
            lemma_s_mul_nonneg(s_mul(d as int, d as int), d as int);
            lemma_s_mul_nonneg(n as int, cube as int);
        }
        w
    }

    /// Radial derivative of the weight at distance `r`.
    pub fn scalar_apply_diff(r: i64, h: i64, dim: Dim) -> (g: i64)
        requires
            0 <= r,
            0 < h,
            fxb(r as int),
            fxb(h as int),
        ensures
            g as int == spiky_diff(r as int, h as int, dim),
            r > h ==> g == 0,
            g <= 0,
            fxb(g as int),
    {
        if r > h {
            return 0;
        }
        let h2 = fx_mul(h, h);
        let h3 = fx_mul(h2, h);
        let den = match dim {
            Dim::Three => fx_mul(PI_FX, fx_mul(h3, h3)),
            Dim::Two => fx_mul(PI_FX, fx_mul(h3, h2)),
        };
        let num: i64 = match dim {
            Dim::Three => 15 * SCALE,
            Dim::Two => 10 * SCALE,
        };
        let n = fx_div(num, den);
        let d = fx_sub(h, r);
        let sq = fx_mul(d, d);
        let t = fx_mul(fx_mul(n, sq), 3 * SCALE);
        proof {
            lemma_s_mul_nonneg(h as int, h as int);
            lemma_s_mul_nonneg(s_mul(h as int, h as int), h as int);
            let h2s = s_mul(h as int, h as int);
            let h3s = s_mul(h2s, h as int);
            match dim {
                Dim::Three => {
                    lemma_s_mul_nonneg(h3s, h3s);
                    lemma_s_mul_nonneg(PI_FX as int, s_mul(h3s, h3s));
                },
                Dim::Two => {
                    lemma_s_mul_nonneg(h3s, h2s);
                    lemma_s_mul_nonneg(PI_FX as int, s_mul(h3s, h2s));
                },
            }
            lemma_s_div_nonneg(num as int, den as int);
            lemma_s_mul_nonneg(d as int, d as int);
            lemma_s_mul_nonneg(n as int, sq as int);
            lemma_s_mul_nonneg(s_mul(n as int, sq as int), 3 * SCALE);
        }
        -t
    }
}

impl CubicSplineKernel {
    /// Interpolation weight at distance `r` for support radius `h`.
    pub fn scalar_apply(r: i64, h: i64, dim: Dim) -> (w: i64)
        requires
            0 <= r,
            0 < h,
            fxb(r as int),
            fxb(h as int),
        ensures
            w as int == cubic_weight(r as int, h as int, dim),
            r > h ==> w == 0,
            w >= 0,
            fxb(w as int),
    {
        if r > h {
            return 0;
        }
        let h2 = fx_mul(h, h);
        let den = match dim {
            Dim::Three => fx_mul(PI_FX, fx_mul(h2, h)),
            Dim::Two => fx_mul(7 * PI_FX, h2),
        };
        let num: i64 = match dim {
            Dim::Three => 8 * SCALE,
            Dim::Two => 40 * SCALE,
        };
        let n = fx_div(num, den);
        proof {
            lemma_s_mul_nonneg(h as int, h as int);
            let h2s = s_mul(h as int, h as int);
            match dim {
                Dim::Three => {
                    lemma_s_mul_nonneg(h2s, h as int);
                    lemma_s_mul_nonneg(PI_FX as int, s_mul(h2s, h as int));
                },
                Dim::Two => {
                    lemma_s_mul_nonneg(7 * PI_FX as int, h2s);
                },
            }
            lemma_s_div_nonneg(num as int, den as int);
        }
        let q = fx_div(r, h);
        proof {
            lemma_s_div_le_one(r as int, h as int);
        }
        if 2 * q <= SCALE {
            let q2 = fx_mul(q, q);
            let q3 = fx_mul(q2, q);
            let t = fx_sub(q3, q2);
            let inner = fx_mul(6 * SCALE, t);
            let poly = fx_add(SCALE, inner);
            proof {
                lemma_cubic_inner_poly(q as int);
                lemma_s_mul_nonneg(n as int, poly as int);
            }
            fx_mul(n, poly)
        } else {
            let u = fx_sub(SCALE, q);
            let cube = fx_mul(fx_mul(u, u), u);
            let scaled = fx_mul(2 * SCALE, cube);
            proof {
                lemma_s_mul_nonneg(u as int, u as int);
                lemma_s_mul_nonneg(s_mul(u as int, u as int), u as int);
                lemma_s_mul_nonneg(2 * SCALE, s_mul(s_mul(u as int, u as int), u as int));
                lemma_s_mul_nonneg(n as int, s_mul(2 * SCALE, s_mul(s_mul(u as int, u as int), u as int)));
            }
            fx_mul(n, scaled)
        }
    }

    /// Radial derivative of the weight at distance `r`.
    pub fn scalar_apply_diff(r: i64, h: i64, dim: Dim) -> (g: i64)
        requires
            0 <= r,
            0 < h,
            fxb(r as int),
            fxb(h as int),
        ensures
            g as int == cubic_diff(r as int, h as int, dim),
            r > h ==> g == 0,
            g <= 0,
            fxb(g as int),
    {
        if r > h {
            return 0;
        }
        let h2 = fx_mul(h, h);
        let den = match dim {
            Dim::Three => fx_mul(PI_FX, fx_mul(h2, h)),
            Dim::Two => fx_mul(7 * PI_FX, h2),
        };
        let num: i64 = match dim {
            Dim::Three => 8 * SCALE,
            Dim::Two => 40 * SCALE,
        };
        let n = fx_div(num, den);
        proof {
            lemma_s_mul_nonneg(h as int, h as int);
            let h2s = s_mul(h as int, h as int);
            match dim {
                Dim::Three => {
                    lemma_s_mul_nonneg(h2s, h as int);
                    lemma_s_mul_nonneg(PI_FX as int, s_mul(h2s, h as int));
                },
                Dim::Two => {
                    lemma_s_mul_nonneg(7 * PI_FX as int, h2s);
                },
            }
            lemma_s_div_nonneg(num as int, den as int);
        }
        let q = fx_div(r, h);
        proof {
            lemma_s_div_le_one(r as int, h as int);
        }
        if 2 * q <= SCALE {
            let q2 = fx_mul(q, q);
            let t = fx_sub(fx_mul(3 * SCALE, q2), fx_mul(2 * SCALE, q));
            let inner = fx_mul(6 * SCALE, t);
            let m = fx_mul(n, inner);
            proof {
                lemma_cubic_inner_slope_nonpos(q as int);
                lemma_s_mul_nonpos(n as int, inner as int);
                lemma_s_div_nonpos(s_mul(n as int, inner as int), h as int);
            }
            fx_div(m, h)
        } else {
            let u = fx_sub(SCALE, q);
            let sq = fx_mul(u, u);
            let inner = fx_mul(6 * SCALE, sq);
            let m = fx_neg(fx_mul(n, inner));
            proof {
                lemma_s_mul_nonneg(u as int, u as int);
                lemma_s_mul_nonneg(6 * SCALE, s_mul(u as int, u as int));
                lemma_s_mul_nonneg(n as int, s_mul(6 * SCALE, s_mul(u as int, u as int)));
                lemma_s_div_nonpos(-s_mul(n as int, s_mul(6 * SCALE, s_mul(u as int, u as int))), h as int);
            }
            fx_div(m, h)
        }
    }
}

/// On the inner half of the support the truncated spline polynomial
/// `1 + 6(q^3 - q^2)` stays nonnegative, so the saturating evaluation of
/// the inner branch is nonnegative.
proof fn lemma_cubic_inner_poly(q: int)
    requires
        0 <= q,
        2 * q <= SCALE as int,
    ensures
        s_add(SCALE as int, s_mul(6 * SCALE, s_sub(s_mul(s_mul(q, q), q), s_mul(q, q)))) >= 0,
{
    let s = SCALE as int;
    let q2 = s_mul(q, q);
    let q3 = s_mul(q2, q);
    lemma_fundamental_div_mod(q * q, s);
    lemma_mod_bound(q * q, s);
    let r1 = (q * q) % s;
    assert(q * q >= 0) by (nonlinear_arith)
        requires 0 <= q;
    lemma_div_pos_is_pos(q * q, s);
    // The first square stays within the unit, so no clamp acts on it.
    assert(q * q <= s * q) by (nonlinear_arith)
        requires 0 <= q, 2 * q <= s;
    lemma_div_is_ordered(q * q, s * q, s);
    lemma_div_multiples_vanish(q, s);
    assert(q2 == (q * q) / s);
    let q2v = (q * q) / s;
    lemma_fundamental_div_mod(q2v * q, s);
    lemma_mod_bound(q2v * q, s);
    let r2 = (q2v * q) % s;
    assert(q2v * q >= 0) by (nonlinear_arith)
        requires q2v >= 0, q >= 0;
    lemma_div_pos_is_pos(q2v * q, s);
    assert(q2v * q <= s * q) by (nonlinear_arith)
        requires q2v <= s, 0 <= q;
    lemma_div_is_ordered(q2v * q, s * q, s);
    assert(q3 == (q2v * q) / s);
    let q3v = (q2v * q) / s;
    let t = q3v - q2v;
    assert(s_sub(q3, q2) == t);
    // The factored cubic bound `8 q^2 (s - q) <= s^3` on the inner half.
    assert(s * s * s - 8 * (q * q) * (s - q) == (s - 2 * q) * (s * s + 2 * s * q - 4 * q * q))
        by (nonlinear_arith);
    assert((s - 2 * q) * (s * s + 2 * s * q - 4 * q * q) >= 0) by (nonlinear_arith)
        requires 0 <= q, 2 * q <= s;
    // Exact algebra of the two truncated divisions.
    assert(s * s * t == -(q * q - r1) * (s - q) - s * r2) by (nonlinear_arith)
        requires
            q * q == s * q2v + r1,
            q2v * q == s * q3v + r2,
            t == q3v - q2v;
    assert(-(q * q - r1) * (s - q) >= -(q * q) * (s - q)) by (nonlinear_arith)
        requires 0 <= r1, 0 <= q, q <= s;
    assert(s * s * (s + 6 * t) >= s * s * s - 6 * (q * q) * (s - q) - 6 * s * s) by (nonlinear_arith)
        requires
            s * s * t == -(q * q - r1) * (s - q) - s * r2,
            -(q * q - r1) * (s - q) >= -(q * q) * (s - q),
            r2 < s,
            s > 0;
    assert(s * s * (s + 6 * t) > 0) by (nonlinear_arith)
        requires
            s * s * (s + 6 * t) >= s * s * s - 6 * (q * q) * (s - q) - 6 * s * s,
            8 * (q * q) * (s - q) <= s * s * s,
            (q * q) * (s - q) >= 0,
            s == 65536;
    assert(s + 6 * t > 0) by (nonlinear_arith)
        requires s * s * (s + 6 * t) > 0, s > 0;
    // Rescaling by the unit is exact, and the final clamp keeps the sign.
    assert(6 * SCALE * t == (6 * t) * s) by (nonlinear_arith)
        requires s == SCALE as int;
    lemma_tdiv_exact_mul(6 * t);
    assert(s_mul(6 * SCALE, t) == crate::fx::sat(6 * t));
}

/// On the inner half of the support the truncated slope term
/// `3 q^2 - 2 q` is nonpositive, so the saturating evaluation of the
/// inner derivative branch is nonpositive.
proof fn lemma_cubic_inner_slope_nonpos(q: int)
    requires
        0 <= q,
        2 * q <= SCALE as int,
    ensures
        s_mul(6 * SCALE, s_sub(s_mul(3 * SCALE, s_mul(q, q)), s_mul(2 * SCALE, q))) <= 0,
{
    let s = SCALE as int;
    let q2 = s_mul(q, q);
    lemma_fundamental_div_mod(q * q, s);
    lemma_mod_bound(q * q, s);
    assert(q * q >= 0) by (nonlinear_arith)
        requires 0 <= q;
    lemma_div_pos_is_pos(q * q, s);
    assert(q * q <= s * q) by (nonlinear_arith)
        requires 0 <= q, 2 * q <= s;
    lemma_div_is_ordered(q * q, s * q, s);
    lemma_div_multiples_vanish(q, s);
    let q2v = (q * q) / s;
    assert(q2 == q2v);
    // Both scalings by the unit are exact.
    assert(3 * SCALE * q2v == (3 * q2v) * s) by (nonlinear_arith)
        requires s == SCALE as int;
    lemma_tdiv_exact_mul(3 * q2v);
    assert(2 * SCALE * q == (2 * q) * s) by (nonlinear_arith)
        requires s == SCALE as int;
    lemma_tdiv_exact_mul(2 * q);
    let r1 = (q * q) % s;
    assert(3 * q2v <= 2 * q) by (nonlinear_arith)
        requires
            q * q == s * q2v + r1,
            0 <= r1,
            0 <= q,
            2 * q <= s,
            s > 0;
    let t = s_sub(3 * q2v, 2 * q);
    assert(t <= 0);
    assert(6 * SCALE * t == (6 * t) * s) by (nonlinear_arith)
        requires s == SCALE as int;
    lemma_tdiv_exact_mul(6 * t);
}

} // verus!
