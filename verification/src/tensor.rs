//! Small fixed-point tensors: vectors, square matrices and packed
//! symmetric stress tensors.
//!
//! Two-dimensional bodies are carried in the same storage with the third
//! component pinned to zero, so one set of formulas serves both builds;
//! the few places where the two-dimensional material law genuinely
//! differs branch on the solver's dimension. Every executable operation
//! is pinned to a spec-level mirror over mathematical integers.

use vstd::prelude::*;
use crate::fx::{
    fxb, s_mul, s_mul3, s_add, s_sub, s_div, s_half, fx_mul, fx_mul3, fx_add, fx_sub, fx_neg,
    fx_div, fx_half, SCALE,
};

verus! {

/// Mathematical image of a vector.
pub ghost struct V3i {
    pub x: int,
    pub y: int,
    pub z: int,
}

/// Mathematical image of a matrix (row-major, `m_rc` is row `r`, column `c`).
pub ghost struct M3i {
    pub xx: int, pub xy: int, pub xz: int,
    pub yx: int, pub yy: int, pub yz: int,
    pub zx: int, pub zy: int, pub zz: int,
}

/// Mathematical image of a packed symmetric stress tensor.
pub ghost struct S6i {
    pub xx: int,
    pub yy: int,
    pub zz: int,
    pub yx: int,
    pub zx: int,
    pub zy: int,
}

/// A spatial vector of fixed-point scalars.
#[derive(Clone, Copy, Debug, PartialEq, Eq, Structural)]
pub struct V3 {
    pub x: i64,
    pub y: i64,
    pub z: i64,
}

/// A square matrix of fixed-point scalars.
#[derive(Clone, Copy, Debug, PartialEq, Eq, Structural)]
pub struct M3 {
    pub xx: i64, pub xy: i64, pub xz: i64,
    pub yx: i64, pub yy: i64, pub yz: i64,
    pub zx: i64, pub zy: i64, pub zz: i64,
}

/// A symmetric stress tensor packed as its independent components
/// (three diagonal, three off-diagonal).
#[derive(Clone, Copy, Debug, PartialEq, Eq, Structural)]
pub struct S6 {
    pub xx: i64,
    pub yy: i64,
    pub zz: i64,
    pub yx: i64,
    pub zx: i64,
    pub zy: i64,
}

impl View for V3 {
    type V = V3i;

    open spec fn view(&self) -> V3i {
        V3i { x: self.x as int, y: self.y as int, z: self.z as int }
    }
}

impl View for M3 {
    type V = M3i;

    open spec fn view(&self) -> M3i {
        M3i {
            xx: self.xx as int, xy: self.xy as int, xz: self.xz as int,
            yx: self.yx as int, yy: self.yy as int, yz: self.yz as int,
            zx: self.zx as int, zy: self.zy as int, zz: self.zz as int,
        }
    }
}

impl View for S6 {
    type V = S6i;

    open spec fn view(&self) -> S6i {
        S6i {
            xx: self.xx as int,
            yy: self.yy as int,
            zz: self.zz as int,
            yx: self.yx as int,
            zx: self.zx as int,
            zy: self.zy as int,
        }
    }
}

/// All components of a vector are in range.
pub open spec fn v3b(v: V3i) -> bool {
    fxb(v.x) && fxb(v.y) && fxb(v.z)
}

/// All components of a matrix are in range.
pub open spec fn m3b(m: M3i) -> bool {
    fxb(m.xx) && fxb(m.xy) && fxb(m.xz)
    && fxb(m.yx) && fxb(m.yy) && fxb(m.yz)
    && fxb(m.zx) && fxb(m.zy) && fxb(m.zz)
}

/// All components of a stress tensor are in range.
pub open spec fn s6b(s: S6i) -> bool {
    fxb(s.xx) && fxb(s.yy) && fxb(s.zz) && fxb(s.yx) && fxb(s.zx) && fxb(s.zy)
}

pub open spec fn v3i_zero() -> V3i {
    V3i { x: 0, y: 0, z: 0 }
}

pub open spec fn v3i_add(a: V3i, b: V3i) -> V3i {
    V3i { x: s_add(a.x, b.x), y: s_add(a.y, b.y), z: s_add(a.z, b.z) }
}

pub open spec fn v3i_sub(a: V3i, b: V3i) -> V3i {
    V3i { x: s_sub(a.x, b.x), y: s_sub(a.y, b.y), z: s_sub(a.z, b.z) }
}

pub open spec fn v3i_neg(a: V3i) -> V3i {
    V3i { x: -a.x, y: -a.y, z: -a.z }
}

pub open spec fn v3i_scale(a: V3i, s: int) -> V3i {
    V3i { x: s_mul(a.x, s), y: s_mul(a.y, s), z: s_mul(a.z, s) }
}

pub open spec fn m3i_zero() -> M3i {
    M3i { xx: 0, xy: 0, xz: 0, yx: 0, yy: 0, yz: 0, zx: 0, zy: 0, zz: 0 }
}

pub open spec fn m3i_identity() -> M3i {
    M3i {
        xx: SCALE as int, xy: 0, xz: 0,
        yx: 0, yy: SCALE as int, yz: 0,
        zx: 0, zy: 0, zz: SCALE as int,
    }
}

pub open spec fn m3i_add(a: M3i, b: M3i) -> M3i {
    M3i {
        xx: s_add(a.xx, b.xx), xy: s_add(a.xy, b.xy), xz: s_add(a.xz, b.xz),
        yx: s_add(a.yx, b.yx), yy: s_add(a.yy, b.yy), yz: s_add(a.yz, b.yz),
        zx: s_add(a.zx, b.zx), zy: s_add(a.zy, b.zy), zz: s_add(a.zz, b.zz),
    }
}

/// Row dot column: `a*x + b*y + c*z` under saturating fixed-point algebra.
pub open spec fn s_dot3(a: int, x: int, b: int, y: int, c: int, z: int) -> int {
    s_add(s_add(s_mul(a, x), s_mul(b, y)), s_mul(c, z))
}

/// Matrix times vector.
pub open spec fn m3i_mul_v(m: M3i, v: V3i) -> V3i {
    V3i {
        x: s_dot3(m.xx, v.x, m.xy, v.y, m.xz, v.z),
        y: s_dot3(m.yx, v.x, m.yy, v.y, m.yz, v.z),
        z: s_dot3(m.zx, v.x, m.zy, v.y, m.zz, v.z),
    }
}

/// Transposed matrix times vector (the inverse transform of a rotation).
pub open spec fn m3i_tmul_v(m: M3i, v: V3i) -> V3i {
    V3i {
        x: s_dot3(m.xx, v.x, m.yx, v.y, m.zx, v.z),
        y: s_dot3(m.xy, v.x, m.yy, v.y, m.zy, v.z),
        z: s_dot3(m.xz, v.x, m.yz, v.y, m.zz, v.z),
    }
}

/// Matrix product.
pub open spec fn m3i_mul_m(a: M3i, b: M3i) -> M3i {
    M3i {
        xx: s_dot3(a.xx, b.xx, a.xy, b.yx, a.xz, b.zx),
        xy: s_dot3(a.xx, b.xy, a.xy, b.yy, a.xz, b.zy),
        xz: s_dot3(a.xx, b.xz, a.xy, b.yz, a.xz, b.zz),
        yx: s_dot3(a.yx, b.xx, a.yy, b.yx, a.yz, b.zx),
        yy: s_dot3(a.yx, b.xy, a.yy, b.yy, a.yz, b.zy),
        yz: s_dot3(a.yx, b.xz, a.yy, b.yz, a.yz, b.zz),
        zx: s_dot3(a.zx, b.xx, a.zy, b.yx, a.zz, b.zx),
        zy: s_dot3(a.zx, b.xy, a.zy, b.yy, a.zz, b.zy),
        zz: s_dot3(a.zx, b.xz, a.zy, b.yz, a.zz, b.zz),
    }
}

/// Scaled outer product `u ⊗ v * c`, each entry formed as one wide triple
/// product so that it is exactly symmetric in the roles of `u` and `v`.
pub open spec fn m3i_outer3(u: V3i, v: V3i, c: int) -> M3i {
    M3i {
        xx: s_mul3(u.x, v.x, c), xy: s_mul3(u.x, v.y, c), xz: s_mul3(u.x, v.z, c),
        yx: s_mul3(u.y, v.x, c), yy: s_mul3(u.y, v.y, c), yz: s_mul3(u.y, v.z, c),
        zx: s_mul3(u.z, v.x, c), zy: s_mul3(u.z, v.y, c), zz: s_mul3(u.z, v.z, c),
    }
}

/// Cross product.
pub open spec fn v3i_cross(a: V3i, b: V3i) -> V3i {
    V3i {
        x: s_sub(s_mul(a.y, b.z), s_mul(a.z, b.y)),
        y: s_sub(s_mul(a.z, b.x), s_mul(a.x, b.z)),
        z: s_sub(s_mul(a.x, b.y), s_mul(a.y, b.x)),
    }
}

/// Componentwise half, rounded toward zero.
pub open spec fn v3i_half(a: V3i) -> V3i {
    V3i { x: s_half(a.x), y: s_half(a.y), z: s_half(a.z) }
}

/// Componentwise quotient by one scalar.
pub open spec fn v3i_divs(a: V3i, d: int) -> V3i {
    V3i { x: s_div(a.x, d), y: s_div(a.y, d), z: s_div(a.z, d) }
}

/// Transpose.
pub open spec fn m3i_transpose(m: M3i) -> M3i {
    M3i {
        xx: m.xx, xy: m.yx, xz: m.zx,
        yx: m.xy, yy: m.yy, yz: m.zy,
        zx: m.xz, zy: m.yz, zz: m.zz,
    }
}

impl V3 {
    pub fn zero() -> (r: V3)
        ensures
            r@ == v3i_zero(),
            v3b(r@),
    {
        V3 { x: 0, y: 0, z: 0 }
    }

    pub fn add(&self, o: &V3) -> (r: V3)
        requires
            v3b(self@),
            v3b(o@),
        ensures
            r@ == v3i_add(self@, o@),
            v3b(r@),
    {
        V3 { x: fx_add(self.x, o.x), y: fx_add(self.y, o.y), z: fx_add(self.z, o.z) }
    }

    pub fn sub(&self, o: &V3) -> (r: V3)
        requires
            v3b(self@),
            v3b(o@),
        ensures
            r@ == v3i_sub(self@, o@),
            v3b(r@),
    {
        V3 { x: fx_sub(self.x, o.x), y: fx_sub(self.y, o.y), z: fx_sub(self.z, o.z) }
    }

    pub fn neg(&self) -> (r: V3)
        requires
            v3b(self@),
        ensures
            r@ == v3i_neg(self@),
            v3b(r@),
    {
        V3 { x: fx_neg(self.x), y: fx_neg(self.y), z: fx_neg(self.z) }
    }

    pub fn scale(&self, s: i64) -> (r: V3)
        requires
            v3b(self@),
            fxb(s as int),
        ensures
            r@ == v3i_scale(self@, s as int),
            v3b(r@),
    {
        V3 { x: fx_mul(self.x, s), y: fx_mul(self.y, s), z: fx_mul(self.z, s) }
    }

    pub fn cross(&self, o: &V3) -> (r: V3)
        requires
            v3b(self@),
            v3b(o@),
        ensures
            r@ == v3i_cross(self@, o@),
            v3b(r@),
    {
        V3 {
            x: fx_sub(fx_mul(self.y, o.z), fx_mul(self.z, o.y)),
            y: fx_sub(fx_mul(self.z, o.x), fx_mul(self.x, o.z)),
            z: fx_sub(fx_mul(self.x, o.y), fx_mul(self.y, o.x)),
        }
    }

    pub fn half(&self) -> (r: V3)
        requires
            v3b(self@),
        ensures
            r@ == v3i_half(self@),
            v3b(r@),
    {
        V3 { x: fx_half(self.x), y: fx_half(self.y), z: fx_half(self.z) }
    }

    pub fn divs(&self, d: i64) -> (r: V3)
        requires
            v3b(self@),
            fxb(d as int),
        ensures
            r@ == v3i_divs(self@, d as int),
            v3b(r@),
    {
        V3 { x: fx_div(self.x, d), y: fx_div(self.y, d), z: fx_div(self.z, d) }
    }
}

/// Row dot column on stored scalars.
pub fn dot3(a: i64, x: i64, b: i64, y: i64, c: i64, z: i64) -> (r: i64)
    requires
        fxb(a as int), fxb(x as int), fxb(b as int), fxb(y as int), fxb(c as int), fxb(z as int),
    ensures
        r as int == s_dot3(a as int, x as int, b as int, y as int, c as int, z as int),
        fxb(r as int),
{
    fx_add(fx_add(fx_mul(a, x), fx_mul(b, y)), fx_mul(c, z))
}

impl M3 {
    pub fn zero() -> (r: M3)
        ensures
            r@ == m3i_zero(),
            m3b(r@),
    {
        M3 { xx: 0, xy: 0, xz: 0, yx: 0, yy: 0, yz: 0, zx: 0, zy: 0, zz: 0 }
    }

    pub fn identity() -> (r: M3)
        ensures
            r@ == m3i_identity(),
            m3b(r@),
    {
        M3 { xx: SCALE, xy: 0, xz: 0, yx: 0, yy: SCALE, yz: 0, zx: 0, zy: 0, zz: SCALE }
    }

    pub fn add(&self, o: &M3) -> (r: M3)
        requires
            m3b(self@),
            m3b(o@),
        ensures
            r@ == m3i_add(self@, o@),
            m3b(r@),
    {
        M3 {
            xx: fx_add(self.xx, o.xx), xy: fx_add(self.xy, o.xy), xz: fx_add(self.xz, o.xz),
            yx: fx_add(self.yx, o.yx), yy: fx_add(self.yy, o.yy), yz: fx_add(self.yz, o.yz),
            zx: fx_add(self.zx, o.zx), zy: fx_add(self.zy, o.zy), zz: fx_add(self.zz, o.zz),
        }
    }

    pub fn mul_v(&self, v: &V3) -> (r: V3)
        requires
            m3b(self@),
            v3b(v@),
        ensures
            r@ == m3i_mul_v(self@, v@),
            v3b(r@),
    {
        V3 {
            x: dot3(self.xx, v.x, self.xy, v.y, self.xz, v.z),
            y: dot3(self.yx, v.x, self.yy, v.y, self.yz, v.z),
            z: dot3(self.zx, v.x, self.zy, v.y, self.zz, v.z),
        }
    }

    pub fn tmul_v(&self, v: &V3) -> (r: V3)
        requires
            m3b(self@),
            v3b(v@),
        ensures
            r@ == m3i_tmul_v(self@, v@),
            v3b(r@),
    {
        V3 {
            x: dot3(self.xx, v.x, self.yx, v.y, self.zx, v.z),
            y: dot3(self.xy, v.x, self.yy, v.y, self.zy, v.z),
            z: dot3(self.xz, v.x, self.yz, v.y, self.zz, v.z),
        }
    }

    pub fn mul_m(&self, o: &M3) -> (r: M3)
        requires
            m3b(self@),
            m3b(o@),
        ensures
            r@ == m3i_mul_m(self@, o@),
            m3b(r@),
    {
        M3 {
            xx: dot3(self.xx, o.xx, self.xy, o.yx, self.xz, o.zx),
            xy: dot3(self.xx, o.xy, self.xy, o.yy, self.xz, o.zy),
            xz: dot3(self.xx, o.xz, self.xy, o.yz, self.xz, o.zz),
            yx: dot3(self.yx, o.xx, self.yy, o.yx, self.yz, o.zx),
            yy: dot3(self.yx, o.xy, self.yy, o.yy, self.yz, o.zy),
            yz: dot3(self.yx, o.xz, self.yy, o.yz, self.yz, o.zz),
            zx: dot3(self.zx, o.xx, self.zy, o.yx, self.zz, o.zx),
            zy: dot3(self.zx, o.xy, self.zy, o.yy, self.zz, o.zy),
            zz: dot3(self.zx, o.xz, self.zy, o.yz, self.zz, o.zz),
        }
    }

    pub fn transpose(&self) -> (r: M3)
        requires
            m3b(self@),
        ensures
            r@ == m3i_transpose(self@),
            m3b(r@),
    {
        M3 {
            xx: self.xx, xy: self.yx, xz: self.zx,
            yx: self.xy, yy: self.yy, yz: self.zy,
            zx: self.xz, zy: self.yz, zz: self.zz,
        }
    }

    pub fn outer3(u: &V3, v: &V3, c: i64) -> (r: M3)
        requires
            v3b(u@),
            v3b(v@),
            fxb(c as int),
        ensures
            r@ == m3i_outer3(u@, v@, c as int),
            m3b(r@),
    {
        M3 {
            xx: fx_mul3(u.x, v.x, c), xy: fx_mul3(u.x, v.y, c), xz: fx_mul3(u.x, v.z, c),
            yx: fx_mul3(u.y, v.x, c), yy: fx_mul3(u.y, v.y, c), yz: fx_mul3(u.y, v.z, c),
            zx: fx_mul3(u.z, v.x, c), zy: fx_mul3(u.z, v.y, c), zz: fx_mul3(u.z, v.z, c),
        }
    }
}

impl S6 {
    pub fn zero() -> (r: S6)
        ensures
            r@ == (S6i { xx: 0, yy: 0, zz: 0, yx: 0, zx: 0, zy: 0 }),
            s6b(r@),
    {
        S6 { xx: 0, yy: 0, zz: 0, yx: 0, zx: 0, zy: 0 }
    }
}

} // verus!
