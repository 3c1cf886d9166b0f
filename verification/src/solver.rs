//! The corotational elasticity solver of Becker et al. 2009: per particle
//! it extracts a best-fit local rotation from the neighborhood, forms a
//! rotation-corrected deformation gradient and a linear (or opt-in
//! nonlinear) stress, and accumulates symmetric pairwise forces into the
//! particle accelerations.
//!
//! Every phase is a plain sequential map over the particle range; each
//! iteration writes only its own slot, which is what allows the original
//! fork-join scheduling — the contracts below pin the per-slot values, so
//! any order of evaluation yields the same state.

use vstd::prelude::*;
use crate::fx::{
    fxb, s_mul, s_add, s_sub, s_div, s_half, fx_mul, fx_add, fx_sub, fx_div, fx_half, fx_neg,
    SCALE,
};
use crate::tensor::{
    V3, M3, S6, V3i, M3i, S6i, v3b, m3b, s6b, v3i_add, v3i_sub, v3i_neg, v3i_scale, v3i_cross,
    v3i_half, v3i_divs, m3i_zero, m3i_identity, m3i_add, m3i_mul_v, m3i_tmul_v, m3i_mul_m,
    m3i_outer3, m3i_transpose, s_dot3, dot3,
};
use crate::contacts::{Contact, ContactI, ParticlesContacts, graph_spec, permuted_contact};
use crate::kernel::{Dim, KernelFamily};

verus! {

/// The particle-container state the solver consumes and feeds back into:
/// current positions, per-particle volumes, the body's rest density, and
/// the acceleration accumulator the solver adds its contributions to.
pub struct Fluid {
    pub positions: Vec<V3>,
    pub volumes: Vec<i64>,
    pub density0: i64,
    pub accelerations: Vec<V3>,
}

impl Fluid {
    /// Positions as mathematical vectors.
    pub open spec fn pos(&self) -> Seq<V3i> {
        self.positions@.map_values(|p: V3| p@)
    }

    /// Volumes as mathematical scalars.
    pub open spec fn vols(&self) -> Seq<int> {
        self.volumes@.map_values(|v: i64| v as int)
    }

    /// Accelerations as mathematical vectors.
    pub open spec fn accs(&self) -> Seq<V3i> {
        self.accelerations@.map_values(|p: V3| p@)
    }

    /// Arrays in lock step, every scalar in range.
    pub open spec fn wf(&self) -> bool {
        &&& self.volumes@.len() == self.positions@.len()
        &&& self.accelerations@.len() == self.positions@.len()
        &&& fxb(self.density0 as int)
        &&& forall|i: int| 0 <= i < self.positions@.len() ==> v3b(#[trigger] self.pos()[i])
        &&& forall|i: int| 0 <= i < self.positions@.len() ==> fxb(#[trigger] self.vols()[i])
        &&& forall|i: int| 0 <= i < self.positions@.len() ==> v3b(#[trigger] self.accs()[i])
    }

    /// Mass of one particle: its current volume times the rest density.
    pub open spec fn mass(&self, j: int) -> int {
        s_mul(self.vols()[j], self.density0 as int)
    }

    /// Mass of one particle.
    pub fn particle_mass(&self, i: usize) -> (m: i64)
        requires
            self.wf(),
            i < self.positions@.len(),
        ensures
            m as int == self.mass(i as int),
            fxb(m as int),
    {
        proof {
            assert(self.vols()[i as int] == self.volumes@[i as int] as int);
        }
        fx_mul(self.volumes[i], self.density0)
    }
}

/// The three isotropic linear-elasticity coefficients derived from a
/// Young modulus and a Poisson ratio.
pub open spec fn coeffs_spec(e: int, nu: int) -> (int, int, int) {
    let den = s_mul(s_add(SCALE as int, nu), s_sub(SCALE as int, s_add(nu, nu)));
    (
        s_div(s_mul(e, s_sub(SCALE as int, nu)), den),
        s_div(s_mul(e, nu), den),
        s_div(s_mul(e, s_sub(SCALE as int, s_add(nu, nu))), s_add(den, den)),
    )
}

/// Computes the material coefficients `(d0, d1, d2)` from a Young modulus
/// and a Poisson ratio, which must lie strictly between -1 and 1/2.
pub fn elasticity_coefficients(young_modulus: i64, poisson_ratio: i64) -> (r: (i64, i64, i64))
    requires
        fxb(young_modulus as int),
        -SCALE < poisson_ratio,
        2 * poisson_ratio < SCALE,
    ensures
        (r.0 as int, r.1 as int, r.2 as int) == coeffs_spec(young_modulus as int, poisson_ratio as int),
        fxb(r.0 as int),
        fxb(r.1 as int),
        fxb(r.2 as int),
{
    let den = fx_mul(fx_add(SCALE, poisson_ratio), fx_sub(SCALE, fx_add(poisson_ratio, poisson_ratio)));
    let d0 = fx_div(fx_mul(young_modulus, fx_sub(SCALE, poisson_ratio)), den);
    let d1 = fx_div(fx_mul(young_modulus, poisson_ratio), den);
    let d2 = fx_div(
        fx_mul(young_modulus, fx_sub(SCALE, fx_add(poisson_ratio, poisson_ratio))),
        fx_add(den, den),
    );
    (d0, d1, d2)
}

/// A packed symmetric tensor applied to a vector.
pub open spec fn sym_mul_v(s: S6i, v: V3i) -> V3i {
    V3i {
        x: s_dot3(s.xx, v.x, s.yx, v.y, s.zx, v.z),
        y: s_dot3(s.yx, v.x, s.yy, v.y, s.zy, v.z),
        z: s_dot3(s.zx, v.x, s.zy, v.y, s.zz, v.z),
    }
}

/// Applies a packed symmetric tensor to a vector.
pub fn sym_mat_mul_vec(mat: &S6, v: &V3) -> (r: V3)
    requires
        s6b(mat@),
        v3b(v@),
    ensures
        r@ == sym_mul_v(mat@, v@),
        v3b(r@),
{
    V3 {
        x: dot3(mat.xx, v.x, mat.yx, v.y, mat.zx, v.z),
        y: dot3(mat.yx, v.x, mat.yy, v.y, mat.zy, v.z),
        z: dot3(mat.zx, v.x, mat.zy, v.y, mat.zz, v.z),
    }
}

/// Clamp of one residual rotation step to the fixed-point unit per axis,
/// which keeps the bounded-budget refinement stable however large the
/// rotation still to be recovered is.
pub open spec fn clamp_step(x: int) -> int {
    if x > SCALE as int {
        SCALE as int
    } else if x < -(SCALE as int) {
        -(SCALE as int)
    } else {
        x
    }
}

/// One step of the iterative rotation extraction, seeded with the current
/// estimate `r`: the residual axis `omega` is the sum over columns of
/// `r_k x a_k` divided by `|sum r_k . a_k| + 1` (one fixed-point step
/// standing for the scalar type's epsilon), clamped to one unit per axis;
/// if the residual vanishes the estimate is converged, otherwise it is
/// advanced by the Cayley rotation of the half-axis, an exactly
/// orthogonal update in exact arithmetic.
pub open spec fn rot_step(a: M3i, r: M3i) -> M3i {
    let c0 = v3i_cross(V3i { x: r.xx, y: r.yx, z: r.zx }, V3i { x: a.xx, y: a.yx, z: a.zx });
    let c1 = v3i_cross(V3i { x: r.xy, y: r.yy, z: r.zy }, V3i { x: a.xy, y: a.yy, z: a.zy });
    let c2 = v3i_cross(V3i { x: r.xz, y: r.yz, z: r.zz }, V3i { x: a.xz, y: a.yz, z: a.zz });
    let num = v3i_add(v3i_add(c0, c1), c2);
    let d0 = s_dot3(r.xx, a.xx, r.yx, a.yx, r.zx, a.zx);
    let d1 = s_dot3(r.xy, a.xy, r.yy, a.yy, r.zy, a.zy);
    let d2 = s_dot3(r.xz, a.xz, r.yz, a.yz, r.zz, a.zz);
    let dsum = s_add(s_add(d0, d1), d2);
    let den = s_add(if dsum >= 0 { dsum } else { -dsum }, 1);
    let w0 = v3i_divs(num, den);
    let w = V3i { x: clamp_step(w0.x), y: clamp_step(w0.y), z: clamp_step(w0.z) };
    if w.x == 0 && w.y == 0 && w.z == 0 {
        r
    } else {
        let h = v3i_half(w);
        m3i_mul_m(cayley(h), r)
    }
}

/// The Cayley rotation of a half-axis `h`: `(I + K) (I - K)^-1` for the
/// skew matrix `K` of `h`, inverted through the adjugate.
pub open spec fn cayley(h: V3i) -> M3i {
    let m = M3i {
        xx: SCALE as int, xy: h.z, xz: -h.y,
        yx: -h.z, yy: SCALE as int, yz: h.x,
        zx: h.y, zy: -h.x, zz: SCALE as int,
    };
    let p = M3i {
        xx: SCALE as int, xy: -h.z, xz: h.y,
        yx: h.z, yy: SCALE as int, yz: -h.x,
        zx: -h.y, zy: h.x, zz: SCALE as int,
    };
    m3i_mul_m(p, m3i_inverse(m))
}

/// Inverse through the adjugate over the fixed-point determinant; a
/// singular matrix yields the zero matrix, by the division convention.
pub open spec fn m3i_inverse(m: M3i) -> M3i {
    let det = m3i_det(m);
    M3i {
        xx: s_div(s_sub(s_mul(m.yy, m.zz), s_mul(m.yz, m.zy)), det),
        xy: s_div(s_sub(s_mul(m.xz, m.zy), s_mul(m.xy, m.zz)), det),
        xz: s_div(s_sub(s_mul(m.xy, m.yz), s_mul(m.xz, m.yy)), det),
        yx: s_div(s_sub(s_mul(m.yz, m.zx), s_mul(m.yx, m.zz)), det),
        yy: s_div(s_sub(s_mul(m.xx, m.zz), s_mul(m.xz, m.zx)), det),
        yz: s_div(s_sub(s_mul(m.xz, m.yx), s_mul(m.xx, m.yz)), det),
        zx: s_div(s_sub(s_mul(m.yx, m.zy), s_mul(m.yy, m.zx)), det),
        zy: s_div(s_sub(s_mul(m.xy, m.zx), s_mul(m.xx, m.zy)), det),
        zz: s_div(s_sub(s_mul(m.xx, m.yy), s_mul(m.xy, m.yx)), det),
    }
}

/// Fixed-point determinant.
pub open spec fn m3i_det(m: M3i) -> int {
    let t1 = crate::fx::s_mul3(m.xx, m.yy, m.zz);
    let t2 = crate::fx::s_mul3(m.xy, m.yz, m.zx);
    let t3 = crate::fx::s_mul3(m.xz, m.yx, m.zy);
    let t4 = crate::fx::s_mul3(m.xx, m.yz, m.zy);
    let t5 = crate::fx::s_mul3(m.xy, m.yx, m.zz);
    let t6 = crate::fx::s_mul3(m.xz, m.yy, m.zx);
    s_sub(s_sub(s_sub(s_add(s_add(t1, t2), t3), t4), t5), t6)
}

/// The rotation estimate after `k` refinement steps from a seed.
pub open spec fn rot_iter(a: M3i, seed: M3i, k: nat) -> M3i
    decreases k,
{
    if k == 0 {
        seed
    } else {
        rot_step(a, rot_iter(a, seed, (k - 1) as nat))
    }
}

/// Fixed-point determinant of a stored matrix.
pub fn m3_det(m: &M3) -> (r: i64)
    requires
        m3b(m@),
    ensures
        r as int == m3i_det(m@),
        fxb(r as int),
{
    let t1 = crate::fx::fx_mul3(m.xx, m.yy, m.zz);
    let t2 = crate::fx::fx_mul3(m.xy, m.yz, m.zx);
    let t3 = crate::fx::fx_mul3(m.xz, m.yx, m.zy);
    let t4 = crate::fx::fx_mul3(m.xx, m.yz, m.zy);
    let t5 = crate::fx::fx_mul3(m.xy, m.yx, m.zz);
    let t6 = crate::fx::fx_mul3(m.xz, m.yy, m.zx);
    fx_sub(fx_sub(fx_sub(fx_add(fx_add(t1, t2), t3), t4), t5), t6)
}

/// Inverse of a stored matrix through the adjugate.
pub fn m3_inverse(m: &M3) -> (r: M3)
    requires
        m3b(m@),
    ensures
        r@ == m3i_inverse(m@),
        m3b(r@),
{
    let det = m3_det(m);
    M3 {
        xx: fx_div(fx_sub(fx_mul(m.yy, m.zz), fx_mul(m.yz, m.zy)), det),
        xy: fx_div(fx_sub(fx_mul(m.xz, m.zy), fx_mul(m.xy, m.zz)), det),
        xz: fx_div(fx_sub(fx_mul(m.xy, m.yz), fx_mul(m.xz, m.yy)), det),
        yx: fx_div(fx_sub(fx_mul(m.yz, m.zx), fx_mul(m.yx, m.zz)), det),
        yy: fx_div(fx_sub(fx_mul(m.xx, m.zz), fx_mul(m.xz, m.zx)), det),
        yz: fx_div(fx_sub(fx_mul(m.xz, m.yx), fx_mul(m.xx, m.yz)), det),
        zx: fx_div(fx_sub(fx_mul(m.yx, m.zy), fx_mul(m.yy, m.zx)), det),
        zy: fx_div(fx_sub(fx_mul(m.xy, m.zx), fx_mul(m.xx, m.zy)), det),
        zz: fx_div(fx_sub(fx_mul(m.xx, m.yy), fx_mul(m.xy, m.yx)), det),
    }
}

/// Clamp of one residual rotation step.
fn clamp_step_exec(x: i64) -> (r: i64)
    requires
        fxb(x as int),
    ensures
        r as int == clamp_step(x as int),
        fxb(r as int),
{
    if x > SCALE {
        SCALE
    } else if x < -SCALE {
        -SCALE
    } else {
        x
    }
}

/// One executable refinement step of the rotation extraction.
fn rot_step_exec(a: &M3, r: &M3) -> (out: M3)
    requires
        m3b(a@),
        m3b(r@),
    ensures
        out@ == rot_step(a@, r@),
        m3b(out@),
{
    let rc0 = V3 { x: r.xx, y: r.yx, z: r.zx };
    let rc1 = V3 { x: r.xy, y: r.yy, z: r.zy };
    let rc2 = V3 { x: r.xz, y: r.yz, z: r.zz };
    let ac0 = V3 { x: a.xx, y: a.yx, z: a.zx };
    let ac1 = V3 { x: a.xy, y: a.yy, z: a.zy };
    let ac2 = V3 { x: a.xz, y: a.yz, z: a.zz };
    let num = rc0.cross(&ac0).add(&rc1.cross(&ac1)).add(&rc2.cross(&ac2));
    let d0 = dot3(r.xx, a.xx, r.yx, a.yx, r.zx, a.zx);
    let d1 = dot3(r.xy, a.xy, r.yy, a.yy, r.zy, a.zy);
    let d2 = dot3(r.xz, a.xz, r.yz, a.yz, r.zz, a.zz);
    let dsum = fx_add(fx_add(d0, d1), d2);
    let dabs = if dsum >= 0 { dsum } else { -dsum };
    let den = fx_add(dabs, 1);
    let w0 = num.divs(den);
    let w = V3 { x: clamp_step_exec(w0.x), y: clamp_step_exec(w0.y), z: clamp_step_exec(w0.z) };
    if w.x == 0 && w.y == 0 && w.z == 0 {
        proof {
            assert(v3i_add(v3i_add(v3i_cross(rc0@, ac0@), v3i_cross(rc1@, ac1@)), v3i_cross(rc2@, ac2@))
                == num@);
        }
        *r
    } else {
        let h = w.half();
        let m = M3 {
            xx: SCALE, xy: h.z, xz: fx_neg(h.y),
            yx: fx_neg(h.z), yy: SCALE, yz: h.x,
            zx: h.y, zy: fx_neg(h.x), zz: SCALE,
        };
        let p = M3 {
            xx: SCALE, xy: fx_neg(h.z), xz: h.y,
            yx: h.z, yy: SCALE, yz: fx_neg(h.x),
            zx: fx_neg(h.y), zy: h.x, zz: SCALE,
        };
        let cay = p.mul_m(&m3_inverse(&m));
        cay.mul_m(r)
    }
}

/// Extracts the orthogonal factor of `a` by iterative refinement from a
/// seed, with a fixed budget of 20 steps; a run that has not converged by
/// then keeps the best available estimate, trading exactness for a
/// predictable per-step cost.
pub fn extract_rotation(a: &M3, seed: &M3) -> (out: M3)
    requires
        m3b(a@),
        m3b(seed@),
    ensures
        out@ == rot_iter(a@, seed@, 20),
        m3b(out@),
{
    let mut r = *seed;
    let mut k: usize = 0;
    while k < 20
        invariant
            k <= 20,
            m3b(a@),
            m3b(r@),
            r@ == rot_iter(a@, seed@, k as nat),
        decreases 20 - k,
    {
        r = rot_step_exec(a, &r);
        k += 1;
    }
    r
}

/// Partial sum of the kernel-weighted neighbor masses of one row:
/// the denominator of the self-normalizing rest-volume estimate.
pub open spec fn wsum(row: Seq<ContactI>, vols: Seq<int>, rho: int, k: nat) -> int
    decreases k,
{
    if k == 0 {
        0
    } else {
        let c = row[k - 1];
        s_add(wsum(row, vols, rho, (k - 1) as nat), s_mul(s_mul(vols[c.j], rho), c.weight))
    }
}

/// The rest volume of a particle: its mass over the kernel-weighted mass
/// of its neighborhood; a particle with no neighborhood weight gets zero.
pub open spec fn volume0_spec(row: Seq<ContactI>, vols: Seq<int>, rho: int, mass_i: int) -> int {
    s_div(mass_i, wsum(row, vols, rho, row.len()))
}

/// Partial sum of the correlation matrix `A = sum w m (p_j - p_i) (p0_j - p0_i)^T`
/// whose orthogonal factor is the particle's rotation.
pub open spec fn apq(
    row: Seq<ContactI>,
    pos: Seq<V3i>,
    pos0: Seq<V3i>,
    vols: Seq<int>,
    rho: int,
    k: nat,
) -> M3i
    decreases k,
{
    if k == 0 {
        m3i_zero()
    } else {
        let c = row[k - 1];
        let p_ji = v3i_sub(pos[c.j], pos[c.i]);
        let p0_ji = v3i_sub(pos0[c.j], pos0[c.i]);
        let coeff = s_mul(c.weight, s_mul(vols[c.j], rho));
        m3i_add(apq(row, pos, pos0, vols, rho, (k - 1) as nat), m3i_outer3(p_ji, p0_ji, coeff))
    }
}

/// Partial sum of the transposed deformation gradient
/// `sum (grad v0_j) (R_i^-1 (p_j - p_i) - (p0_j - p0_i))^T`.
pub open spec fn grad_at(
    row: Seq<ContactI>,
    pos: Seq<V3i>,
    pos0: Seq<V3i>,
    rots: Seq<M3i>,
    vols0: Seq<int>,
    k: nat,
) -> M3i
    decreases k,
{
    if k == 0 {
        m3i_zero()
    } else {
        let c = row[k - 1];
        let p_ji = v3i_sub(pos[c.j], pos[c.i]);
        let p0_ji = v3i_sub(pos0[c.j], pos0[c.i]);
        let u_ji = v3i_sub(m3i_tmul_v(rots[c.i], p_ji), p0_ji);
        m3i_add(
            grad_at(row, pos, pos0, rots, vols0, (k - 1) as nat),
            m3i_outer3(c.gradient, u_ji, vols0[c.j]),
        )
    }
}

/// The isotropic material law applied to a transposed deformation
/// gradient: linear strain symmetrizes the gradient directly; nonlinear
/// strain derives it from `(G+I)(G+I)^T - I`, scaled by one half. In two
/// dimensions only the in-plane components are formed.
pub open spec fn stress_of(g: M3i, d0: int, d1: int, d2: int, nonlinear: bool, dim: Dim) -> S6i {
    match dim {
        Dim::Three => {
            if nonlinear {
                let j = m3i_add(g, m3i_identity());
                let jjt = m3i_mul_m(j, m3i_transpose(j));
                let ex = s_sub(jjt.xx, SCALE as int);
                let ey = s_sub(jjt.yy, SCALE as int);
                let ez = s_sub(jjt.zz, SCALE as int);
                S6i {
                    xx: s_half(s_dot3(d0, ex, d1, ey, d1, ez)),
                    yy: s_half(s_dot3(d1, ex, d0, ey, d1, ez)),
                    zz: s_half(s_dot3(d1, ex, d1, ey, d0, ez)),
                    yx: s_mul(s_half(jjt.yx), d2),
                    zx: s_mul(s_half(jjt.zx), d2),
                    zy: s_mul(s_half(jjt.zy), d2),
                }
            } else {
                S6i {
                    xx: s_dot3(d0, g.xx, d1, g.yy, d1, g.zz),
                    yy: s_dot3(d1, g.xx, d0, g.yy, d1, g.zz),
                    zz: s_dot3(d1, g.xx, d1, g.yy, d0, g.zz),
                    yx: s_mul(s_half(s_add(g.yx, g.xy)), d2),
                    zx: s_mul(s_half(s_add(g.zx, g.xz)), d2),
                    zy: s_mul(s_half(s_add(g.yz, g.zy)), d2),
                }
            }
        },
        Dim::Two => {
            if nonlinear {
                let j = m3i_add(g, m3i_identity());
                let jjt = m3i_mul_m(j, m3i_transpose(j));
                let ex = s_sub(jjt.xx, SCALE as int);
                let ey = s_sub(jjt.yy, SCALE as int);
                S6i {
                    xx: s_half(s_add(s_mul(d0, ex), s_mul(d1, ey))),
                    yy: s_half(s_add(s_mul(d1, ex), s_mul(d0, ey))),
                    zz: 0,
                    yx: s_mul(s_half(jjt.yx), d2),
                    zx: 0,
                    zy: 0,
                }
            } else {
                S6i {
                    xx: s_add(s_mul(d0, g.xx), s_mul(d1, g.yy)),
                    yy: s_add(s_mul(d1, g.xx), s_mul(d0, g.yy)),
                    zz: 0,
                    yx: s_mul(s_half(s_add(g.yx, g.xy)), d2),
                    zx: 0,
                    zy: 0,
                }
            }
        },
    }
}

/// The averaged pairwise force a contact contributes to its owner `c.i`:
/// the antisymmetric combination of the two stress-volume terms, each
/// rotated back by its particle's current rotation.
pub open spec fn contact_force(
    c: ContactI,
    stresses: Seq<S6i>,
    rots: Seq<M3i>,
    grads: Seq<M3i>,
    vols0: Seq<int>,
    nonlinear: bool,
) -> V3i {
    let d_ij = v3i_scale(c.gradient, vols0[c.j]);
    let sd_ij = sym_mul_v(stresses[c.i], d_ij);
    let f_ji = if nonlinear {
        v3i_scale(v3i_add(sd_ij, m3i_mul_v(grads[c.i], sd_ij)), -vols0[c.i])
    } else {
        v3i_scale(sd_ij, -vols0[c.i])
    };
    let d_ji = v3i_scale(c.gradient, -vols0[c.i]);
    let sd_ji = sym_mul_v(stresses[c.j], d_ji);
    let f_ij = if nonlinear {
        v3i_scale(v3i_add(sd_ji, m3i_mul_v(grads[c.j], sd_ji)), -vols0[c.j])
    } else {
        v3i_scale(sd_ji, -vols0[c.j])
    };
    v3i_half(v3i_sub(m3i_mul_v(rots[c.j], f_ij), m3i_mul_v(rots[c.i], f_ji)))
}

/// A particle's acceleration after the first `k` contacts of its row have
/// added their force over the particle's current volume mass.
pub open spec fn accel_at(
    row: Seq<ContactI>,
    acc0: V3i,
    stresses: Seq<S6i>,
    rots: Seq<M3i>,
    grads: Seq<M3i>,
    vols0: Seq<int>,
    vrho: int,
    nonlinear: bool,
    k: nat,
) -> V3i
    decreases k,
{
    if k == 0 {
        acc0
    } else {
        let prev = accel_at(row, acc0, stresses, rots, grads, vols0, vrho, nonlinear, (k - 1) as nat);
        let c = row[k - 1];
        v3i_add(prev, v3i_divs(contact_force(c, stresses, rots, grads, vols0, nonlinear), vrho))
    }
}

/// Rotation seeds after a particle-count change: surviving slots keep
/// their previous rotation, new slots start from the identity.
pub open spec fn reseeded(old_rots: Seq<M3i>, n: nat) -> Seq<M3i> {
    Seq::new(n, |i: int| if i < old_rots.len() { old_rots[i] } else { m3i_identity() })
}

/// Elasticity based on the corotated SPH method of Becker et al. 2009.
pub struct Becker2009Elasticity {
    pub d0: i64,
    pub d1: i64,
    pub d2: i64,
    pub nonlinear_strain: bool,
    pub dim: Dim,
    pub density_kernel: KernelFamily,
    pub gradient_kernel: KernelFamily,
    pub volumes0: Vec<i64>,
    pub positions0: Vec<V3>,
    pub contacts0: ParticlesContacts,
    pub rotations: Vec<M3>,
    pub deformation_gradient_tr: Vec<M3>,
    pub stress: Vec<S6>,
}

impl Becker2009Elasticity {
    /// Number of particles the reference state covers.
    pub open spec fn nparticles(&self) -> nat {
        self.positions0@.len()
    }

    /// Rest positions as mathematical vectors.
    pub open spec fn pos0s(&self) -> Seq<V3i> {
        self.positions0@.map_values(|p: V3| p@)
    }

    /// Rest volumes as mathematical scalars.
    pub open spec fn vols0s(&self) -> Seq<int> {
        self.volumes0@.map_values(|v: i64| v as int)
    }

    /// Rotations as mathematical matrices.
    pub open spec fn rotss(&self) -> Seq<M3i> {
        self.rotations@.map_values(|m: M3| m@)
    }

    /// Transposed deformation gradients as mathematical matrices.
    pub open spec fn gradss(&self) -> Seq<M3i> {
        self.deformation_gradient_tr@.map_values(|m: M3| m@)
    }

    /// Stresses as mathematical tensors.
    pub open spec fn stresss(&self) -> Seq<S6i> {
        self.stress@.map_values(|s: S6| s@)
    }

    /// The construction-time configuration, which no phase may change.
    pub open spec fn config(&self) -> (int, int, int, bool, Dim, KernelFamily, KernelFamily) {
        (
            self.d0 as int,
            self.d1 as int,
            self.d2 as int,
            self.nonlinear_strain,
            self.dim,
            self.density_kernel,
            self.gradient_kernel,
        )
    }

    /// Arrays in lock step with the contact graph, every scalar in range.
    pub open spec fn wf(&self) -> bool {
        &&& fxb(self.d0 as int)
        &&& fxb(self.d1 as int)
        &&& fxb(self.d2 as int)
        &&& self.volumes0@.len() == self.nparticles()
        &&& self.rotations@.len() == self.nparticles()
        &&& self.deformation_gradient_tr@.len() == self.nparticles()
        &&& self.stress@.len() == self.nparticles()
        &&& self.contacts0.wf(self.nparticles())
        &&& forall|i: int| 0 <= i < self.nparticles() ==> v3b(#[trigger] self.pos0s()[i])
        &&& forall|i: int| 0 <= i < self.nparticles() ==> fxb(#[trigger] self.vols0s()[i])
        &&& forall|i: int| 0 <= i < self.nparticles() ==> m3b(#[trigger] self.rotss()[i])
        &&& forall|i: int| 0 <= i < self.nparticles() ==> m3b(#[trigger] self.gradss()[i])
        &&& forall|i: int| 0 <= i < self.nparticles() ==> s6b(#[trigger] self.stresss()[i])
    }

    /// Builds a solver from its Young modulus and Poisson ratio, which
    /// must lie strictly between -1 and 1/2; `nonlinear_strain` opts into
    /// the finite-deformation strain tensor. Reference state stays empty
    /// until the first solve.
    pub fn new(
        young_modulus: i64,
        poisson_ratio: i64,
        nonlinear_strain: bool,
        dim: Dim,
        density_kernel: KernelFamily,
        gradient_kernel: KernelFamily,
    ) -> (r: Becker2009Elasticity)
        requires
            fxb(young_modulus as int),
            -SCALE < poisson_ratio,
            2 * poisson_ratio < SCALE,
        ensures
            r.wf(),
            r.nparticles() == 0,
            (r.d0 as int, r.d1 as int, r.d2 as int)
                == coeffs_spec(young_modulus as int, poisson_ratio as int),
            r.nonlinear_strain == nonlinear_strain,
            r.dim == dim,
            r.density_kernel == density_kernel,
            r.gradient_kernel == gradient_kernel,
    {
        let (d0, d1, d2) = elasticity_coefficients(young_modulus, poisson_ratio);
        let r = Becker2009Elasticity {
            d0,
            d1,
            d2,
            nonlinear_strain,
            dim,
            density_kernel,
            gradient_kernel,
            volumes0: Vec::new(),
            positions0: Vec::new(),
            contacts0: ParticlesContacts::new(),
            rotations: Vec::new(),
            deformation_gradient_tr: Vec::new(),
            stress: Vec::new(),
        };
        r
    }

    /// Lazy initialization: iff the particle count differs from the
    /// cached reference arrays, snapshots the current positions as rest
    /// positions, builds the contact graph over them, computes the
    /// self-normalizing rest volumes, reseeds rotations (surviving slots
    /// keep their previous value), and resets the scratch tensors.
    pub fn init(&mut self, kernel_radius: i64, fluid: &Fluid)
        requires
            old(self).wf(),
            fluid.wf(),
            0 < kernel_radius,
            fxb(kernel_radius as int),
        ensures
            final(self).wf(),
            final(self).config() == old(self).config(),
            final(self).nparticles() == fluid.positions@.len(),
            old(self).nparticles() == fluid.positions@.len() ==> *final(self) == *old(self),
            old(self).nparticles() != fluid.positions@.len() ==> {
                &&& final(self).pos0s() =~= fluid.pos()
                &&& final(self).contacts0.rows() =~= graph_spec(
                    fluid.positions@.len(),
                    fluid.pos(),
                    kernel_radius as int,
                    old(self).density_kernel,
                    old(self).gradient_kernel,
                    old(self).dim,
                )
                &&& forall|i: int| 0 <= i < fluid.positions@.len() ==>
                    (#[trigger] final(self).vols0s()[i]) == volume0_spec(
                        final(self).contacts0.rows()[i],
                        fluid.vols(),
                        fluid.density0 as int,
                        fluid.mass(i),
                    )
                &&& final(self).rotss() =~= reseeded(old(self).rotss(), fluid.positions@.len())
                &&& forall|i: int| 0 <= i < fluid.positions@.len() ==>
                    (#[trigger] final(self).gradss()[i]) == m3i_identity()
                &&& forall|i: int| 0 <= i < fluid.positions@.len() ==>
                    (#[trigger] final(self).stresss()[i]) == (S6i { xx: 0, yy: 0, zz: 0, yx: 0, zx: 0, zy: 0 })
            },
    {
        let n = fluid.positions.len();
        if self.positions0.len() != n {
            let mut p0: Vec<V3> = Vec::new();
            let mut i: usize = 0;
            while i < n
                invariant
                    i <= n,
                    n == fluid.positions@.len(),
                    p0@.len() == i,
                    forall|t: int| 0 <= t < i ==> p0@[t] == fluid.positions@[t],
                decreases n - i,
            {
                p0.push(fluid.positions[i]);
                i += 1;
            }
            proof {
                assert(p0@ =~= fluid.positions@);
                assert forall|k: int| 0 <= k < p0@.len() implies v3b(#[trigger] p0@[k]@) by {
                    assert(fluid.pos()[k] == fluid.positions@[k]@);
                }
            }
            self.positions0 = p0;
            self.contacts0 = ParticlesContacts::build(
                kernel_radius,
                &self.positions0,
                self.density_kernel,
                self.gradient_kernel,
                self.dim,
            );
            proof {
                assert(self.positions0@.map_values(|p: V3| p@) =~= fluid.pos());
            }
            let mut v0: Vec<i64> = Vec::new();
            let mut i: usize = 0;
            while i < n
                invariant
                    i <= n,
                    n == fluid.positions@.len(),
                    fluid.wf(),
                    self.contacts0.wf(n as nat),
                    v0@.len() == i,
                    forall|t: int| 0 <= t < i ==> (#[trigger] v0@[t]) as int == volume0_spec(
                        self.contacts0.rows()[t],
                        fluid.vols(),
                        fluid.density0 as int,
                        fluid.mass(t),
                    ),
                decreases n - i,
            {
                let ghost row = self.contacts0.rows()[i as int];
                let row_len = self.contacts0.lists[i].len();
                proof {
                    assert(row.len() == row_len);
                }
                let mut acc: i64 = 0;
                let mut k: usize = 0;
                while k < row_len
                    invariant
                        i < n,
                        k <= row_len,
                        n == fluid.positions@.len(),
                        fluid.wf(),
                        self.contacts0.wf(n as nat),
                        row == self.contacts0.rows()[i as int],
                        row_len == row.len(),
                        acc as int == wsum(row, fluid.vols(), fluid.density0 as int, k as nat),
                        fxb(acc as int),
                    decreases row_len - k,
                {
                    let c = self.contacts0.lists[i][k];
                    proof {
                        assert(row[k as int] == c@);
                    }
                    let m = fluid.particle_mass(c.j);
                    acc = fx_add(acc, fx_mul(m, c.weight));
                    k += 1;
                }
                v0.push(fx_div(fluid.particle_mass(i), acc));
                i += 1;
            }
            self.volumes0 = v0;
            let ghost seeds = old(self).rotss();
            let old_len = self.rotations.len();
            let mut fresh_r: Vec<M3> = Vec::new();
            let mut i: usize = 0;
            while i < n
                invariant
                    i <= n,
                    old(self).wf(),
                    old_len == self.rotations@.len(),
                    self.rotations@ == old(self).rotations@,
                    seeds == old(self).rotss(),
                    fresh_r@.len() == i,
                    forall|t: int| 0 <= t < i ==> m3b((#[trigger] fresh_r@[t])@),
                    forall|t: int| 0 <= t < i ==> (#[trigger] fresh_r@[t])@
                        == if t < seeds.len() { seeds[t] } else { m3i_identity() },
                decreases n - i,
            {
                if i < old_len {
                    proof {
                        assert(seeds[i as int] == self.rotations@[i as int]@);
                        assert(m3b(old(self).rotss()[i as int]));
                    }
                    let m = self.rotations[i];
                    fresh_r.push(m);
                } else {
                    fresh_r.push(M3::identity());
                }
                i += 1;
            }
            self.rotations = fresh_r;
            let mut g: Vec<M3> = Vec::new();
            let mut s: Vec<S6> = Vec::new();
            let mut i: usize = 0;
            while i < n
                invariant
                    i <= n,
                    g@.len() == i,
                    s@.len() == i,
                    forall|t: int| 0 <= t < i ==> (#[trigger] g@[t])@ == m3i_identity(),
                    forall|t: int| 0 <= t < i ==> (#[trigger] s@[t])@
                        == (S6i { xx: 0, yy: 0, zz: 0, yx: 0, zx: 0, zy: 0 }),
                decreases n - i,
            {
                g.push(M3::identity());
                s.push(S6::zero());
                i += 1;
            }
            self.deformation_gradient_tr = g;
            self.stress = s;
            proof {
                assert(self.rotss() =~= reseeded(seeds, n as nat));
                assert(self.pos0s() =~= fluid.pos());
            }
        }
    }

    /// Rotation extraction: for each particle, accumulates the
    /// correlation matrix of current against rest neighbor offsets and
    /// refines the particle's rotation from its previous value.
    pub fn compute_rotations(&mut self, fluid: &Fluid)
        requires
            old(self).wf(),
            fluid.wf(),
            old(self).nparticles() == fluid.positions@.len(),
        ensures
            final(self).wf(),
            final(self).config() == old(self).config(),
            final(self).positions0@ == old(self).positions0@,
            final(self).volumes0@ == old(self).volumes0@,
            final(self).contacts0 == old(self).contacts0,
            final(self).deformation_gradient_tr@ == old(self).deformation_gradient_tr@,
            final(self).stress@ == old(self).stress@,
            final(self).rotations@.len() == old(self).rotations@.len(),
            forall|i: int| 0 <= i < fluid.positions@.len() ==>
                (#[trigger] final(self).rotss()[i]) == rot_iter(
                    apq(
                        old(self).contacts0.rows()[i],
                        fluid.pos(),
                        old(self).pos0s(),
                        fluid.vols(),
                        fluid.density0 as int,
                        old(self).contacts0.rows()[i].len(),
                    ),
                    old(self).rotss()[i],
                    20,
                ),
    {
        let n = fluid.positions.len();
        let mut fresh: Vec<M3> = Vec::new();
        let mut i: usize = 0;
        while i < n
            invariant
                i <= n,
                n == fluid.positions@.len(),
                fluid.wf(),
                self.wf(),
                self == old(self),
                self.nparticles() == n,
                fresh@.len() == i,
                forall|t: int| 0 <= t < i ==> m3b((#[trigger] fresh@[t])@),
                forall|t: int| 0 <= t < i ==> (#[trigger] fresh@[t])@ == rot_iter(
                    apq(
                        self.contacts0.rows()[t],
                        fluid.pos(),
                        self.pos0s(),
                        fluid.vols(),
                        fluid.density0 as int,
                        self.contacts0.rows()[t].len(),
                    ),
                    self.rotss()[t],
                    20,
                ),
            decreases n - i,
        {
            let ghost row = self.contacts0.rows()[i as int];
            let row_len = self.contacts0.lists[i].len();
            proof {
                assert(row.len() == row_len);
            }
            let mut acc = M3::zero();
            let mut k: usize = 0;
            while k < row_len
                invariant
                    i < n,
                    k <= row_len,
                    n == fluid.positions@.len(),
                    fluid.wf(),
                    self.wf(),
                    self == old(self),
                    self.nparticles() == n,
                    row == self.contacts0.rows()[i as int],
                    row_len == row.len(),
                    acc@ == apq(row, fluid.pos(), self.pos0s(), fluid.vols(), fluid.density0 as int, k as nat),
                    m3b(acc@),
                decreases row_len - k,
            {
                let c = self.contacts0.lists[i][k];
                proof {
                    assert(row[k as int] == c@);
                    assert(fluid.pos()[c.j as int] == fluid.positions@[c.j as int]@);
                    assert(fluid.pos()[c.i as int] == fluid.positions@[c.i as int]@);
                    assert(self.pos0s()[c.j as int] == self.positions0@[c.j as int]@);
                    assert(self.pos0s()[c.i as int] == self.positions0@[c.i as int]@);
                }
                let p_ji = fluid.positions[c.j].sub(&fluid.positions[c.i]);
                let p0_ji = self.positions0[c.j].sub(&self.positions0[c.i]);
                let coeff = fx_mul(c.weight, fluid.particle_mass(c.j));
                acc = acc.add(&M3::outer3(&p_ji, &p0_ji, coeff));
                k += 1;
            }
            proof {
                assert(self.rotss()[i as int] == self.rotations@[i as int]@);
                assert(m3b(self.rotss()[i as int]));
            }
            let r = extract_rotation(&acc, &self.rotations[i]);
            fresh.push(r);
            i += 1;
        }
        self.rotations = fresh;
        proof {
            assert forall|t: int| 0 <= t < n implies m3b(#[trigger] self.rotss()[t]) by {
                assert(self.rotss()[t] == self.rotations@[t]@);
            }
            assert forall|t: int| 0 <= t < self.nparticles() implies v3b(#[trigger] self.pos0s()[t]) by {
                assert(v3b(old(self).pos0s()[t]));
                assert(self.pos0s()[t] == self.positions0@[t]@);
                assert(old(self).pos0s()[t] == old(self).positions0@[t]@);
            }
            assert forall|t: int| 0 <= t < self.nparticles() implies fxb(#[trigger] self.vols0s()[t]) by {
                assert(fxb(old(self).vols0s()[t]));
                assert(self.vols0s()[t] == self.volumes0@[t] as int);
                assert(old(self).vols0s()[t] == old(self).volumes0@[t] as int);
            }
            assert forall|t: int| 0 <= t < self.nparticles() implies m3b(#[trigger] self.gradss()[t]) by {
                assert(m3b(old(self).gradss()[t]));
                assert(self.gradss()[t] == self.deformation_gradient_tr@[t]@);
                assert(old(self).gradss()[t] == old(self).deformation_gradient_tr@[t]@);
            }
            assert forall|t: int| 0 <= t < self.nparticles() implies s6b(#[trigger] self.stresss()[t]) by {
                assert(s6b(old(self).stresss()[t]));
                assert(self.stresss()[t] == self.stress@[t]@);
                assert(old(self).stresss()[t] == old(self).stress@[t]@);
            }
            assert forall|t: int| 0 <= t < n implies #[trigger] self.rotss()[t] == rot_iter(
                apq(
                    old(self).contacts0.rows()[t],
                    fluid.pos(),
                    old(self).pos0s(),
                    fluid.vols(),
                    fluid.density0 as int,
                    old(self).contacts0.rows()[t].len(),
                ),
                old(self).rotss()[t],
                20,
            ) by {
                assert(self.rotss()[t] == self.rotations@[t]@);
            }
        }
    }

    /// Stress computation: accumulates each particle's transposed
    /// deformation gradient from rotation-corrected neighbor offsets and
    /// derives the packed stress through the material law.
    pub fn compute_stresses(&mut self, fluid: &Fluid)
        requires
            old(self).wf(),
            fluid.wf(),
            old(self).nparticles() == fluid.positions@.len(),
        ensures
            final(self).wf(),
            final(self).config() == old(self).config(),
            final(self).positions0@ == old(self).positions0@,
            final(self).volumes0@ == old(self).volumes0@,
            final(self).contacts0 == old(self).contacts0,
            final(self).rotations@ == old(self).rotations@,
            final(self).deformation_gradient_tr@.len() == old(self).deformation_gradient_tr@.len(),
            final(self).stress@.len() == old(self).stress@.len(),
            forall|i: int| 0 <= i < fluid.positions@.len() ==>
                (#[trigger] final(self).gradss()[i]) == grad_at(
                    old(self).contacts0.rows()[i],
                    fluid.pos(),
                    old(self).pos0s(),
                    old(self).rotss(),
                    old(self).vols0s(),
                    old(self).contacts0.rows()[i].len(),
                ),
            forall|i: int| 0 <= i < fluid.positions@.len() ==>
                (#[trigger] final(self).stresss()[i]) == stress_of(
                    grad_at(
                        old(self).contacts0.rows()[i],
                        fluid.pos(),
                        old(self).pos0s(),
                        old(self).rotss(),
                        old(self).vols0s(),
                        old(self).contacts0.rows()[i].len(),
                    ),
                    old(self).d0 as int,
                    old(self).d1 as int,
                    old(self).d2 as int,
                    old(self).nonlinear_strain,
                    old(self).dim,
                ),
    {
        let n = fluid.positions.len();
        let mut fresh_g: Vec<M3> = Vec::new();
        let mut fresh_s: Vec<S6> = Vec::new();
        let mut i: usize = 0;
        while i < n
            invariant
                i <= n,
                n == fluid.positions@.len(),
                fluid.wf(),
                self.wf(),
                self == old(self),
                self.nparticles() == n,
                fresh_g@.len() == i,
                fresh_s@.len() == i,
                forall|t: int| 0 <= t < i ==> m3b((#[trigger] fresh_g@[t])@),
                forall|t: int| 0 <= t < i ==> s6b((#[trigger] fresh_s@[t])@),
                forall|t: int| 0 <= t < i ==> (#[trigger] fresh_g@[t])@ == grad_at(
                    self.contacts0.rows()[t],
                    fluid.pos(),
                    self.pos0s(),
                    self.rotss(),
                    self.vols0s(),
                    self.contacts0.rows()[t].len(),
                ),
                forall|t: int| 0 <= t < i ==> (#[trigger] fresh_s@[t])@ == stress_of(
                    grad_at(
                        self.contacts0.rows()[t],
                        fluid.pos(),
                        self.pos0s(),
                        self.rotss(),
                        self.vols0s(),
                        self.contacts0.rows()[t].len(),
                    ),
                    self.d0 as int,
                    self.d1 as int,
                    self.d2 as int,
                    self.nonlinear_strain,
                    self.dim,
                ),
            decreases n - i,
        {
            let ghost row = self.contacts0.rows()[i as int];
            let row_len = self.contacts0.lists[i].len();
            proof {
                assert(row.len() == row_len);
            }
            let mut acc = M3::zero();
            let mut k: usize = 0;
            while k < row_len
                invariant
                    i < n,
                    k <= row_len,
                    n == fluid.positions@.len(),
                    fluid.wf(),
                    self.wf(),
                    self == old(self),
                    self.nparticles() == n,
                    row == self.contacts0.rows()[i as int],
                    row_len == row.len(),
                    acc@ == grad_at(row, fluid.pos(), self.pos0s(), self.rotss(), self.vols0s(), k as nat),
                    m3b(acc@),
                decreases row_len - k,
            {
                let c = self.contacts0.lists[i][k];
                proof {
                    assert(row[k as int] == c@);
                    assert(fluid.pos()[c.j as int] == fluid.positions@[c.j as int]@);
                    assert(fluid.pos()[c.i as int] == fluid.positions@[c.i as int]@);
                    assert(self.pos0s()[c.j as int] == self.positions0@[c.j as int]@);
                    assert(self.pos0s()[c.i as int] == self.positions0@[c.i as int]@);
                    assert(self.rotss()[c.i as int] == self.rotations@[c.i as int]@);
                    assert(self.vols0s()[c.j as int] == self.volumes0@[c.j as int] as int);
                }
                let p_ji = fluid.positions[c.j].sub(&fluid.positions[c.i]);
                let p0_ji = self.positions0[c.j].sub(&self.positions0[c.i]);
                let u_ji = self.rotations[c.i].tmul_v(&p_ji).sub(&p0_ji);
                acc = acc.add(&M3::outer3(&c.gradient, &u_ji, self.volumes0[c.j]));
                k += 1;
            }
            let st = stress_from_grad(&acc, self.d0, self.d1, self.d2, self.nonlinear_strain, self.dim);
            fresh_g.push(acc);
            fresh_s.push(st);
            i += 1;
        }
        self.deformation_gradient_tr = fresh_g;
        self.stress = fresh_s;
        proof {
            assert forall|t: int| 0 <= t < n implies m3b(#[trigger] self.gradss()[t])
                && s6b(#[trigger] self.stresss()[t]) by {
                assert(self.gradss()[t] == self.deformation_gradient_tr@[t]@);
                assert(self.stresss()[t] == self.stress@[t]@);
            }
            assert forall|t: int| 0 <= t < self.nparticles() implies v3b(#[trigger] self.pos0s()[t]) by {
                assert(v3b(old(self).pos0s()[t]));
                assert(self.pos0s()[t] == self.positions0@[t]@);
                assert(old(self).pos0s()[t] == old(self).positions0@[t]@);
            }
            assert forall|t: int| 0 <= t < self.nparticles() implies fxb(#[trigger] self.vols0s()[t]) by {
                assert(fxb(old(self).vols0s()[t]));
                assert(self.vols0s()[t] == self.volumes0@[t] as int);
                assert(old(self).vols0s()[t] == old(self).volumes0@[t] as int);
            }
            assert forall|t: int| 0 <= t < self.nparticles() implies m3b(#[trigger] self.rotss()[t]) by {
                assert(m3b(old(self).rotss()[t]));
                assert(self.rotss()[t] == self.rotations@[t]@);
                assert(old(self).rotss()[t] == old(self).rotations@[t]@);
            }
            assert forall|t: int| 0 <= t < n implies #[trigger] self.gradss()[t] == grad_at(
                old(self).contacts0.rows()[t],
                fluid.pos(),
                old(self).pos0s(),
                old(self).rotss(),
                old(self).vols0s(),
                old(self).contacts0.rows()[t].len(),
            ) by {
                assert(self.gradss()[t] == self.deformation_gradient_tr@[t]@);
            }
            assert forall|t: int| 0 <= t < n implies #[trigger] self.stresss()[t] == stress_of(
                grad_at(
                    old(self).contacts0.rows()[t],
                    fluid.pos(),
                    old(self).pos0s(),
                    old(self).rotss(),
                    old(self).vols0s(),
                    old(self).contacts0.rows()[t].len(),
                ),
                old(self).d0 as int,
                old(self).d1 as int,
                old(self).d2 as int,
                old(self).nonlinear_strain,
                old(self).dim,
            ) by {
                assert(self.stresss()[t] == self.stress@[t]@);
            }
        }
    }

    /// One full step of the elastic internal-force model: lazy
    /// initialization if the particle count changed, rotation extraction,
    /// stress computation, and the accumulation of the averaged pairwise
    /// forces into the particle accelerations (added, never overwritten).
    #[verifier::rlimit(60)]
    pub fn solve(&mut self, kernel_radius: i64, fluid: &mut Fluid)
        requires
            old(self).wf(),
            old(fluid).wf(),
            0 < kernel_radius,
            fxb(kernel_radius as int),
        ensures
            final(self).wf(),
            final(fluid).wf(),
            final(fluid).positions@ == old(fluid).positions@,
            final(fluid).volumes@ == old(fluid).volumes@,
            final(fluid).density0 == old(fluid).density0,
            final(self).config() == old(self).config(),
            final(self).nparticles() == old(fluid).positions@.len(),
            old(self).nparticles() == old(fluid).positions@.len() ==> {
                &&& final(self).positions0@ == old(self).positions0@
                &&& final(self).volumes0@ == old(self).volumes0@
                &&& final(self).contacts0.rows() == old(self).contacts0.rows()
            },
            old(self).nparticles() != old(fluid).positions@.len() ==> {
                &&& final(self).pos0s() =~= old(fluid).pos()
                &&& final(self).contacts0.rows() =~= graph_spec(
                    old(fluid).positions@.len(),
                    old(fluid).pos(),
                    kernel_radius as int,
                    old(self).density_kernel,
                    old(self).gradient_kernel,
                    old(self).dim,
                )
                &&& forall|i: int| 0 <= i < old(fluid).positions@.len() ==>
                    (#[trigger] final(self).vols0s()[i]) == volume0_spec(
                        final(self).contacts0.rows()[i],
                        old(fluid).vols(),
                        old(fluid).density0 as int,
                        old(fluid).mass(i),
                    )
            },
            forall|i: int| 0 <= i < old(fluid).positions@.len() ==>
                (#[trigger] final(self).rotss()[i]) == rot_iter(
                    apq(
                        final(self).contacts0.rows()[i],
                        old(fluid).pos(),
                        final(self).pos0s(),
                        old(fluid).vols(),
                        old(fluid).density0 as int,
                        final(self).contacts0.rows()[i].len(),
                    ),
                    reseeded(old(self).rotss(), old(fluid).positions@.len() as nat)[i],
                    20,
                ),
            forall|i: int| 0 <= i < old(fluid).positions@.len() ==>
                (#[trigger] final(self).gradss()[i]) == grad_at(
                    final(self).contacts0.rows()[i],
                    old(fluid).pos(),
                    final(self).pos0s(),
                    final(self).rotss(),
                    final(self).vols0s(),
                    final(self).contacts0.rows()[i].len(),
                ),
            forall|i: int| 0 <= i < old(fluid).positions@.len() ==>
                (#[trigger] final(self).stresss()[i]) == stress_of(
                    final(self).gradss()[i],
                    old(self).d0 as int,
                    old(self).d1 as int,
                    old(self).d2 as int,
                    old(self).nonlinear_strain,
                    old(self).dim,
                ),
            final(fluid).accelerations@.len() == old(fluid).positions@.len(),
            forall|i: int| 0 <= i < old(fluid).positions@.len() ==>
                (#[trigger] final(fluid).accs()[i]) == accel_at(
                    final(self).contacts0.rows()[i],
                    old(fluid).accs()[i],
                    final(self).stresss(),
                    final(self).rotss(),
                    final(self).gradss(),
                    final(self).vols0s(),
                    s_mul(old(fluid).vols()[i], old(fluid).density0 as int),
                    old(self).nonlinear_strain,
                    final(self).contacts0.rows()[i].len(),
                ),
    {
        let n = fluid.positions.len();
        self.init(kernel_radius, fluid);
        proof {
            assert forall|i: int| 0 <= i < n implies #[trigger] self.rotss()[i]
                == reseeded(old(self).rotss(), n as nat)[i] by {
                if old(self).nparticles() == n as nat {
                    assert(self.rotss()[i] == old(self).rotss()[i]);
                }
            }
        }
        let ghost s1 = *self;
        self.compute_rotations(fluid);
        let ghost s2 = *self;
        self.compute_stresses(fluid);
        let ghost s3 = *self;
        self.accumulate_forces(fluid);
        proof {
            let nn = n as int;
            assert(fluid.positions@ == old(fluid).positions@);
            assert(self.contacts0.rows() == s1.contacts0.rows());
            assert(self.positions0@ == s1.positions0@);
            assert(self.volumes0@ == s1.volumes0@);
            assert(self.rotations@ == s2.rotations@);
            assert forall|i: int| 0 <= i < nn implies #[trigger] self.pos0s()[i] == s1.pos0s()[i] by {
                assert(self.pos0s()[i] == self.positions0@[i]@);
                assert(s1.pos0s()[i] == s1.positions0@[i]@);
            }
            assert(self.pos0s() =~= s1.pos0s());
            assert forall|i: int| 0 <= i < nn implies #[trigger] self.vols0s()[i] == s1.vols0s()[i] by {
                assert(self.vols0s()[i] == self.volumes0@[i] as int);
                assert(s1.vols0s()[i] == s1.volumes0@[i] as int);
            }
            assert(self.vols0s() =~= s1.vols0s());
            assert forall|i: int| 0 <= i < nn implies #[trigger] self.rotss()[i] == s2.rotss()[i] by {
                assert(self.rotss()[i] == self.rotations@[i]@);
                assert(s2.rotss()[i] == s2.rotations@[i]@);
            }
            assert(self.rotss() =~= s2.rotss());
            if old(self).nparticles() != n as nat {
                assert forall|i: int| 0 <= i < nn implies
                    (#[trigger] self.vols0s()[i]) == volume0_spec(
                        self.contacts0.rows()[i],
                        old(fluid).vols(),
                        old(fluid).density0 as int,
                        old(fluid).mass(i),
                    ) by {
                    assert(s1.vols0s()[i] == volume0_spec(
                        s1.contacts0.rows()[i],
                        fluid.vols(),
                        fluid.density0 as int,
                        fluid.mass(i),
                    ));
                }
            }
            assert forall|i: int| 0 <= i < nn implies
                (#[trigger] self.rotss()[i]) == rot_iter(
                    apq(
                        self.contacts0.rows()[i],
                        old(fluid).pos(),
                        self.pos0s(),
                        old(fluid).vols(),
                        old(fluid).density0 as int,
                        self.contacts0.rows()[i].len(),
                    ),
                    reseeded(old(self).rotss(), n as nat)[i],
                    20,
                ) by {
                assert(s2.rotss()[i] == rot_iter(
                    apq(
                        s1.contacts0.rows()[i],
                        fluid.pos(),
                        s1.pos0s(),
                        fluid.vols(),
                        fluid.density0 as int,
                        s1.contacts0.rows()[i].len(),
                    ),
                    s1.rotss()[i],
                    20,
                ));
                assert(s1.rotss()[i] == reseeded(old(self).rotss(), n as nat)[i]);
            }
            assert forall|i: int| 0 <= i < nn implies
                (#[trigger] self.gradss()[i]) == grad_at(
                    self.contacts0.rows()[i],
                    old(fluid).pos(),
                    self.pos0s(),
                    self.rotss(),
                    self.vols0s(),
                    self.contacts0.rows()[i].len(),
                ) by {
                assert(s3.gradss()[i] == grad_at(
                    s2.contacts0.rows()[i],
                    fluid.pos(),
                    s2.pos0s(),
                    s2.rotss(),
                    s2.vols0s(),
                    s2.contacts0.rows()[i].len(),
                ));
                assert(self.gradss()[i] == s3.gradss()[i]) by {
                    assert(self.gradss()[i] == self.deformation_gradient_tr@[i]@);
                    assert(s3.gradss()[i] == s3.deformation_gradient_tr@[i]@);
                }
                assert(s2.contacts0.rows() == s1.contacts0.rows());
                assert(s2.pos0s() =~= s1.pos0s()) by {
                    assert forall|t: int| 0 <= t < s2.positions0@.len() implies
                        #[trigger] s2.pos0s()[t] == s1.pos0s()[t] by {
                        assert(s2.pos0s()[t] == s2.positions0@[t]@);
                        assert(s1.pos0s()[t] == s1.positions0@[t]@);
                    }
                }
                assert(s2.vols0s() =~= s1.vols0s()) by {
                    assert forall|t: int| 0 <= t < s2.volumes0@.len() implies
                        #[trigger] s2.vols0s()[t] == s1.vols0s()[t] by {
                        assert(s2.vols0s()[t] == s2.volumes0@[t] as int);
                        assert(s1.vols0s()[t] == s1.volumes0@[t] as int);
                    }
                }
            }
            assert forall|i: int| 0 <= i < nn implies
                (#[trigger] self.stresss()[i]) == stress_of(
                    self.gradss()[i],
                    old(self).d0 as int,
                    old(self).d1 as int,
                    old(self).d2 as int,
                    old(self).nonlinear_strain,
                    old(self).dim,
                ) by {
                assert(self.stresss()[i] == s3.stresss()[i]) by {
                    assert(self.stresss()[i] == self.stress@[i]@);
                    assert(s3.stresss()[i] == s3.stress@[i]@);
                }
                assert(self.gradss()[i] == s3.gradss()[i]) by {
                    assert(self.gradss()[i] == self.deformation_gradient_tr@[i]@);
                    assert(s3.gradss()[i] == s3.deformation_gradient_tr@[i]@);
                }
            }
        }
    }

    /// Force accumulation: adds each contact's averaged pairwise force,
    /// converted to an acceleration by the particle's current volume mass,
    /// into the particle's acceleration slot.
    pub fn accumulate_forces(&self, fluid: &mut Fluid)
        requires
            self.wf(),
            old(fluid).wf(),
            self.nparticles() == old(fluid).positions@.len(),
        ensures
            final(fluid).wf(),
            final(fluid).positions@ == old(fluid).positions@,
            final(fluid).volumes@ == old(fluid).volumes@,
            final(fluid).density0 == old(fluid).density0,
            final(fluid).accelerations@.len() == old(fluid).positions@.len(),
            forall|i: int| 0 <= i < old(fluid).positions@.len() ==>
                (#[trigger] final(fluid).accs()[i]) == accel_at(
                    self.contacts0.rows()[i],
                    old(fluid).accs()[i],
                    self.stresss(),
                    self.rotss(),
                    self.gradss(),
                    self.vols0s(),
                    s_mul(old(fluid).vols()[i], old(fluid).density0 as int),
                    self.nonlinear_strain,
                    self.contacts0.rows()[i].len(),
                ),
    {
        let n = fluid.positions.len();
        let mut i: usize = 0;
        while i < n
            invariant
                i <= n,
                n == fluid.positions@.len(),
                self.wf(),
                self.nparticles() == n,
                fluid.positions@ == old(fluid).positions@,
                fluid.volumes@ == old(fluid).volumes@,
                fluid.density0 == old(fluid).density0,
                old(fluid).wf(),
                fluid.accelerations@.len() == n,
                forall|t: int| i <= t < n ==> #[trigger] fluid.accelerations@[t]
                    == old(fluid).accelerations@[t],
                forall|t: int| 0 <= t < i ==> (#[trigger] fluid.accelerations@[t])@ == accel_at(
                    self.contacts0.rows()[t],
                    old(fluid).accs()[t],
                    self.stresss(),
                    self.rotss(),
                    self.gradss(),
                    self.vols0s(),
                    s_mul(old(fluid).vols()[t], old(fluid).density0 as int),
                    self.nonlinear_strain,
                    self.contacts0.rows()[t].len(),
                ),
            decreases n - i,
        {
            let ghost row = self.contacts0.rows()[i as int];
            let row_len = self.contacts0.lists[i].len();
            proof {
                assert(row.len() == row_len);
                assert(fluid.vols()[i as int] == fluid.volumes@[i as int] as int);
                assert(old(fluid).vols()[i as int] == old(fluid).volumes@[i as int] as int);
            }
            let vrho = fx_mul(fluid.volumes[i], fluid.density0);
            let mut acc = fluid.accelerations[i];
            proof {
                assert(old(fluid).accs()[i as int] == old(fluid).accelerations@[i as int]@);
                assert(v3b(acc@)) by {
                    assert(fluid.accs()[i as int] == fluid.accelerations@[i as int]@);
                }
            }
            let mut k: usize = 0;
            while k < row_len
                invariant
                    i < n,
                    k <= row_len,
                    self.wf(),
                    self.nparticles() == n,
                    row == self.contacts0.rows()[i as int],
                    row_len == row.len(),
                    vrho as int == s_mul(old(fluid).vols()[i as int], old(fluid).density0 as int),
                    fxb(vrho as int),
                    v3b(acc@),
                    acc@ == accel_at(
                        row,
                        old(fluid).accs()[i as int],
                        self.stresss(),
                        self.rotss(),
                        self.gradss(),
                        self.vols0s(),
                        vrho as int,
                        self.nonlinear_strain,
                        k as nat,
                    ),
                decreases row_len - k,
            {
                let c = self.contacts0.lists[i][k];
                proof {
                    assert(row[k as int] == c@);
                    assert(self.stresss()[c.i as int] == self.stress@[c.i as int]@);
                    assert(self.stresss()[c.j as int] == self.stress@[c.j as int]@);
                    assert(self.rotss()[c.i as int] == self.rotations@[c.i as int]@);
                    assert(self.rotss()[c.j as int] == self.rotations@[c.j as int]@);
                    assert(self.gradss()[c.i as int] == self.deformation_gradient_tr@[c.i as int]@);
                    assert(self.gradss()[c.j as int] == self.deformation_gradient_tr@[c.j as int]@);
                    assert(self.vols0s()[c.i as int] == self.volumes0@[c.i as int] as int);
                    assert(self.vols0s()[c.j as int] == self.volumes0@[c.j as int] as int);
                }
                let d_ij = c.gradient.scale(self.volumes0[c.j]);
                let sd_ij = sym_mat_mul_vec(&self.stress[c.i], &d_ij);
                let f_ji = if self.nonlinear_strain {
                    sd_ij.add(&self.deformation_gradient_tr[c.i].mul_v(&sd_ij))
                        .scale(fx_neg(self.volumes0[c.i]))
                } else {
                    sd_ij.scale(fx_neg(self.volumes0[c.i]))
                };
                let d_ji = c.gradient.scale(fx_neg(self.volumes0[c.i]));
                let sd_ji = sym_mat_mul_vec(&self.stress[c.j], &d_ji);
                let f_ij = if self.nonlinear_strain {
                    sd_ji.add(&self.deformation_gradient_tr[c.j].mul_v(&sd_ji))
                        .scale(fx_neg(self.volumes0[c.j]))
                } else {
                    sd_ji.scale(fx_neg(self.volumes0[c.j]))
                };
                let force = self.rotations[c.j].mul_v(&f_ij)
                    .sub(&self.rotations[c.i].mul_v(&f_ji))
                    .half();
                acc = acc.add(&force.divs(vrho));
                k += 1;
            }
            fluid.accelerations[i] = acc;
            i += 1;
        }
        proof {
            assert forall|t: int| 0 <= t < n implies v3b(#[trigger] fluid.pos()[t]) by {
                assert(fluid.pos()[t] == fluid.positions@[t]@);
                assert(old(fluid).pos()[t] == old(fluid).positions@[t]@);
                assert(v3b(old(fluid).pos()[t]));
            }
            assert forall|t: int| 0 <= t < n implies fxb(#[trigger] fluid.vols()[t]) by {
                assert(fluid.vols()[t] == fluid.volumes@[t] as int);
                assert(old(fluid).vols()[t] == old(fluid).volumes@[t] as int);
                assert(fxb(old(fluid).vols()[t]));
            }
            assert forall|t: int| 0 <= t < n implies v3b(#[trigger] fluid.accs()[t]) by {
                assert(fluid.accs()[t] == fluid.accelerations@[t]@);
            }
            assert forall|t: int| 0 <= t < n implies (#[trigger] fluid.accs()[t]) == accel_at(
                self.contacts0.rows()[t],
                old(fluid).accs()[t],
                self.stresss(),
                self.rotss(),
                self.gradss(),
                self.vols0s(),
                s_mul(old(fluid).vols()[t], old(fluid).density0 as int),
                self.nonlinear_strain,
                self.contacts0.rows()[t].len(),
            ) by {
                assert(fluid.accs()[t] == fluid.accelerations@[t]@);
            }
        }
    }

    /// Remaps the per-particle reference arrays and the contact graph
    /// through the bijection `perm`, so the physical particle previously
    /// at slot `i` owns slot `perm[i]` afterwards; the scratch tensors are
    /// not permuted, as the next solve recomputes them from scratch.
    pub fn apply_permutation(&mut self, perm: &Vec<usize>)
        requires
            old(self).wf(),
            perm@.len() == old(self).nparticles(),
            forall|k: int| 0 <= k < perm@.len() ==> #[trigger] perm@[k] < perm@.len(),
            forall|a: int, b: int|
                0 <= a < perm@.len() && 0 <= b < perm@.len() && a != b ==> perm@[a] != perm@[b],
        ensures
            final(self).wf(),
            final(self).config() == old(self).config(),
            final(self).nparticles() == old(self).nparticles(),
            forall|i: int| 0 <= i < perm@.len() ==>
                (#[trigger] final(self).vols0s()[perm@[i] as int]) == old(self).vols0s()[i],
            forall|i: int| 0 <= i < perm@.len() ==>
                (#[trigger] final(self).pos0s()[perm@[i] as int]) == old(self).pos0s()[i],
            forall|i: int| 0 <= i < perm@.len() ==>
                (#[trigger] final(self).rotss()[perm@[i] as int]) == old(self).rotss()[i],
            forall|i: int| 0 <= i < perm@.len() ==> #[trigger] final(self).contacts0.rows()[perm@[i] as int]
                == old(self).contacts0.rows()[i].map_values(|c: ContactI| permuted_contact(c, perm@)),
            final(self).deformation_gradient_tr@ == old(self).deformation_gradient_tr@,
            final(self).stress@ == old(self).stress@,
    {
        let n = perm.len();
        let mut new_v: Vec<i64> = Vec::new();
        let mut new_p: Vec<V3> = Vec::new();
        let mut new_r: Vec<M3> = Vec::new();
        let mut k: usize = 0;
        while k < n
            invariant
                k <= n,
                new_v@.len() == k,
                new_p@.len() == k,
                new_r@.len() == k,
                forall|t: int| 0 <= t < k ==> (#[trigger] new_v@[t]) == 0i64,
                forall|t: int| 0 <= t < k ==> (#[trigger] new_p@[t])@ == (V3 { x: 0i64, y: 0i64, z: 0i64 })@,
                forall|t: int| 0 <= t < k ==> (#[trigger] new_r@[t])@ == m3i_identity(),
            decreases n - k,
        {
            new_v.push(0);
            new_p.push(V3::zero());
            new_r.push(M3::identity());
            k += 1;
        }
        let mut i: usize = 0;
        while i < n
            invariant
                i <= n,
                n == perm@.len(),
                old(self).wf(),
                *self == *old(self),
                n == old(self).nparticles(),
                forall|t: int| 0 <= t < perm@.len() ==> #[trigger] perm@[t] < perm@.len(),
                forall|a: int, b: int|
                    0 <= a < perm@.len() && 0 <= b < perm@.len() && a != b ==> perm@[a] != perm@[b],
                new_v@.len() == n,
                new_p@.len() == n,
                new_r@.len() == n,
                forall|t: int| 0 <= t < i ==> (#[trigger] new_v@[perm@[t] as int]) as int
                    == old(self).vols0s()[t],
                forall|t: int| 0 <= t < i ==> (#[trigger] new_p@[perm@[t] as int])@
                    == old(self).pos0s()[t],
                forall|t: int| 0 <= t < i ==> (#[trigger] new_r@[perm@[t] as int])@
                    == old(self).rotss()[t],
            decreases n - i,
        {
            proof {
                assert(old(self).vols0s()[i as int] == self.volumes0@[i as int] as int);
                assert(old(self).pos0s()[i as int] == self.positions0@[i as int]@);
                assert(old(self).rotss()[i as int] == self.rotations@[i as int]@);
            }
            let dest = perm[i];
            let v = self.volumes0[i];
            new_v[dest] = v;
            let pv = self.positions0[i];
            new_p[dest] = pv;
            let rv = self.rotations[i];
            new_r[dest] = rv;
            proof {
                assert forall|t: int| 0 <= t < i + 1 implies (#[trigger] new_v@[perm@[t] as int]) as int
                    == old(self).vols0s()[t] by {
                    if t < i { assert(perm@[t] != perm@[i as int]); }
                }
                assert forall|t: int| 0 <= t < i + 1 implies (#[trigger] new_p@[perm@[t] as int])@
                    == old(self).pos0s()[t] by {
                    if t < i { assert(perm@[t] != perm@[i as int]); }
                }
                assert forall|t: int| 0 <= t < i + 1 implies (#[trigger] new_r@[perm@[t] as int])@
                    == old(self).rotss()[t] by {
                    if t < i { assert(perm@[t] != perm@[i as int]); }
                }
            }
            i += 1;
        }
        self.volumes0 = new_v;
        self.positions0 = new_p;
        self.rotations = new_r;
        self.contacts0.apply_permutation(perm);
        proof {
            crate::contacts::lemma_perm_onto(perm@);
            assert forall|t: int| 0 <= t < n implies
                fxb(#[trigger] self.vols0s()[t]) by {
                let s = crate::contacts::perm_preimage(perm@, t);
                assert(self.vols0s()[t] == self.volumes0@[t] as int);
            }
            assert forall|t: int| 0 <= t < n implies
                v3b(#[trigger] self.pos0s()[t]) by {
                let s = crate::contacts::perm_preimage(perm@, t);
                assert(self.pos0s()[t] == self.positions0@[t]@);
                assert(self.pos0s()[t] == old(self).pos0s()[s]);
                assert(v3b(old(self).pos0s()[s]));
            }
            assert forall|t: int| 0 <= t < n implies
                m3b(#[trigger] self.rotss()[t]) by {
                let s = crate::contacts::perm_preimage(perm@, t);
                assert(self.rotss()[t] == self.rotations@[t]@);
                assert(self.rotss()[t] == old(self).rotss()[s]);
                assert(m3b(old(self).rotss()[s]));
            }
            assert forall|t: int| 0 <= t < self.nparticles() implies
                m3b(#[trigger] self.gradss()[t]) by {
                assert(m3b(old(self).gradss()[t]));
                assert(self.gradss()[t] == self.deformation_gradient_tr@[t]@);
                assert(old(self).gradss()[t] == old(self).deformation_gradient_tr@[t]@);
            }
            assert forall|t: int| 0 <= t < self.nparticles() implies
                s6b(#[trigger] self.stresss()[t]) by {
                assert(s6b(old(self).stresss()[t]));
                assert(self.stresss()[t] == self.stress@[t]@);
                assert(old(self).stresss()[t] == old(self).stress@[t]@);
            }
        }
    }
}

/// The material law on one transposed deformation gradient.
pub fn stress_from_grad(g: &M3, d0: i64, d1: i64, d2: i64, nonlinear: bool, dim: Dim) -> (r: S6)
    requires
        m3b(g@),
        fxb(d0 as int),
        fxb(d1 as int),
        fxb(d2 as int),
    ensures
        r@ == stress_of(g@, d0 as int, d1 as int, d2 as int, nonlinear, dim),
        s6b(r@),
{
    match dim {
        Dim::Three => {
            if nonlinear {
                let j = g.add(&M3::identity());
                let jjt = j.mul_m(&j.transpose());
                let ex = fx_sub(jjt.xx, SCALE);
                let ey = fx_sub(jjt.yy, SCALE);
                let ez = fx_sub(jjt.zz, SCALE);
                S6 {
                    xx: fx_half(dot3(d0, ex, d1, ey, d1, ez)),
                    yy: fx_half(dot3(d1, ex, d0, ey, d1, ez)),
                    zz: fx_half(dot3(d1, ex, d1, ey, d0, ez)),
                    yx: fx_mul(fx_half(jjt.yx), d2),
                    zx: fx_mul(fx_half(jjt.zx), d2),
                    zy: fx_mul(fx_half(jjt.zy), d2),
                }
            } else {
                S6 {
                    xx: dot3(d0, g.xx, d1, g.yy, d1, g.zz),
                    yy: dot3(d1, g.xx, d0, g.yy, d1, g.zz),
                    zz: dot3(d1, g.xx, d1, g.yy, d0, g.zz),
                    yx: fx_mul(fx_half(fx_add(g.yx, g.xy)), d2),
                    zx: fx_mul(fx_half(fx_add(g.zx, g.xz)), d2),
                    zy: fx_mul(fx_half(fx_add(g.yz, g.zy)), d2),
                }
            }
        },
        Dim::Two => {
            if nonlinear {
                let j = g.add(&M3::identity());
                let jjt = j.mul_m(&j.transpose());
                let ex = fx_sub(jjt.xx, SCALE);
                let ey = fx_sub(jjt.yy, SCALE);
                S6 {
                    xx: fx_half(fx_add(fx_mul(d0, ex), fx_mul(d1, ey))),
                    yy: fx_half(fx_add(fx_mul(d1, ex), fx_mul(d0, ey))),
                    zz: 0,
                    yx: fx_mul(fx_half(jjt.yx), d2),
                    zx: 0,
                    zy: 0,
                }
            } else {
                S6 {
                    xx: fx_add(fx_mul(d0, g.xx), fx_mul(d1, g.yy)),
                    yy: fx_add(fx_mul(d1, g.xx), fx_mul(d0, g.yy)),
                    zz: 0,
                    yx: fx_mul(fx_half(fx_add(g.yx, g.xy)), d2),
                    zx: 0,
                    zy: 0,
                }
            }
        },
    }
}

} // verus!
