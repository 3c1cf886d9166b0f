//! The library's cross-cutting laws, stated over the same spec mirrors
//! the executable contracts use: permutation round trips restore the
//! reference state exactly, pairwise internal forces obey Newton's third
//! law, and a body whose current configuration equals its rest
//! configuration develops no rotation delta, no stress and no
//! acceleration.

use vstd::prelude::*;
use crate::fx::{
    fxb, s_mul, s_add, s_sub, s_div, s_half, SCALE,
    lemma_s_mul_neg, lemma_s_mul_zero, lemma_s_mul_one, lemma_s_mul3_zero, lemma_s_div_zero,
    lemma_tdiv_neg, lemma_sat_neg,
};
use crate::tensor::{
    V3i, M3i, S6i, v3b, m3b, v3i_add, v3i_sub, v3i_neg, v3i_scale, v3i_half, v3i_divs,
    m3i_zero, m3i_identity, m3i_add, m3i_mul_v, m3i_tmul_v, m3i_outer3, s_dot3,
};
use crate::contacts::{ContactI, permuted_contact};
use crate::kernel::Dim;
use crate::solver::{
    sym_mul_v, contact_force, accel_at, apq, grad_at, stress_of, rot_step, rot_iter,
};

verus! {

/// The zero stress tensor.
pub open spec fn s6i_zero() -> S6i {
    S6i { xx: 0, yy: 0, zz: 0, yx: 0, zx: 0, zy: 0 }
}

/// Negating a vector negates its scaled image, and negating the scale
/// factor does the same.
proof fn lemma_scale_signs(v: V3i, s: int)
    ensures
        v3i_scale(v3i_neg(v), s) == v3i_scale(v, -s),
        v3i_scale(v3i_neg(v), -s) == v3i_scale(v, s),
{
    lemma_s_mul_neg(v.x, s);
    lemma_s_mul_neg(v.y, s);
    lemma_s_mul_neg(v.z, s);
    lemma_s_mul_neg(-v.x, s);
    lemma_s_mul_neg(-v.y, s);
    lemma_s_mul_neg(-v.z, s);
}

/// The saturating dot of a row with a negated vector is the negation.
proof fn lemma_dot3_neg(a: int, x: int, b: int, y: int, c: int, z: int)
    ensures
        s_dot3(a, -x, b, -y, c, -z) == -s_dot3(a, x, b, y, c, z),
{
    lemma_s_mul_neg(a, x);
    lemma_s_mul_neg(b, y);
    lemma_s_mul_neg(c, z);
    lemma_sat_neg(s_mul(a, x) + s_mul(b, y));
    lemma_sat_neg(s_add(s_mul(a, x), s_mul(b, y)) + s_mul(c, z));
}

/// A symmetric tensor applied to a negated vector gives the negation.
proof fn lemma_sym_mul_v_neg(s: S6i, v: V3i)
    ensures
        sym_mul_v(s, v3i_neg(v)) == v3i_neg(sym_mul_v(s, v)),
{
    lemma_dot3_neg(s.xx, v.x, s.yx, v.y, s.zx, v.z);
    lemma_dot3_neg(s.yx, v.x, s.yy, v.y, s.zy, v.z);
    lemma_dot3_neg(s.zx, v.x, s.zy, v.y, s.zz, v.z);
}

/// A matrix applied to a negated vector gives the negation.
proof fn lemma_m3i_mul_v_neg(m: M3i, v: V3i)
    ensures
        m3i_mul_v(m, v3i_neg(v)) == v3i_neg(m3i_mul_v(m, v)),
{
    lemma_dot3_neg(m.xx, v.x, m.xy, v.y, m.xz, v.z);
    lemma_dot3_neg(m.yx, v.x, m.yy, v.y, m.yz, v.z);
    lemma_dot3_neg(m.zx, v.x, m.zy, v.y, m.zz, v.z);
}

/// The sum of two negated vectors is the negated sum.
proof fn lemma_v3i_add_neg(a: V3i, b: V3i)
    ensures
        v3i_add(v3i_neg(a), v3i_neg(b)) == v3i_neg(v3i_add(a, b)),
{
    lemma_sat_neg(a.x + b.x);
    lemma_sat_neg(a.y + b.y);
    lemma_sat_neg(a.z + b.z);
}

/// Swapping the operands of a difference negates it.
proof fn lemma_v3i_sub_swap(a: V3i, b: V3i)
    ensures
        v3i_sub(b, a) == v3i_neg(v3i_sub(a, b)),
{
    lemma_sat_neg(a.x - b.x);
    lemma_sat_neg(a.y - b.y);
    lemma_sat_neg(a.z - b.z);
}

/// Halving a negated vector gives the negated half.
proof fn lemma_v3i_half_neg(v: V3i)
    ensures
        v3i_half(v3i_neg(v)) == v3i_neg(v3i_half(v)),
{
    lemma_tdiv_neg(v.x, 2);
    lemma_tdiv_neg(v.y, 2);
    lemma_tdiv_neg(v.z, 2);
}

/// Newton's third law on the spec mirror of the force kernel: the force a
/// contact contributes to its owner is exactly the negation of what its
/// mirrored image (indices swapped, gradient negated — the entry the same
/// unordered pair has in the neighbor's row) contributes to the neighbor.
/// Summed over the whole body, the internal forces therefore cancel.
pub proof fn lemma_contact_force_antisymmetric(
    c: ContactI,
    m: ContactI,
    stresses: Seq<S6i>,
    rots: Seq<M3i>,
    grads: Seq<M3i>,
    vols0: Seq<int>,
    nonlinear: bool,
)
    requires
        m.i == c.j,
        m.j == c.i,
        m.weight == c.weight,
        m.gradient == v3i_neg(c.gradient),
    ensures
        contact_force(m, stresses, rots, grads, vols0, nonlinear)
            == v3i_neg(contact_force(c, stresses, rots, grads, vols0, nonlinear)),
{
    let g = c.gradient;
    let d_ij = v3i_scale(g, vols0[c.j]);
    let sd_ij = sym_mul_v(stresses[c.i], d_ij);
    let f_ji = if nonlinear {
        v3i_scale(v3i_add(sd_ij, m3i_mul_v(grads[c.i], sd_ij)), -vols0[c.i])
    } else {
        v3i_scale(sd_ij, -vols0[c.i])
    };
    let d_ji = v3i_scale(g, -vols0[c.i]);
    let sd_ji = sym_mul_v(stresses[c.j], d_ji);
    let f_ij = if nonlinear {
        v3i_scale(v3i_add(sd_ji, m3i_mul_v(grads[c.j], sd_ji)), -vols0[c.j])
    } else {
        v3i_scale(sd_ji, -vols0[c.j])
    };
    lemma_scale_signs(g, vols0[c.i]);
    lemma_scale_signs(g, -vols0[c.j]);
    assert(v3i_scale(m.gradient, vols0[m.j]) == d_ji);
    assert(v3i_scale(m.gradient, -vols0[m.i]) == d_ij) by {
        lemma_scale_signs(g, vols0[c.j]);
        assert(v3i_scale(v3i_neg(g), -vols0[c.j]) == v3i_scale(g, vols0[c.j]));
    }
    let force_c = v3i_half(v3i_sub(m3i_mul_v(rots[c.j], f_ij), m3i_mul_v(rots[c.i], f_ji)));
    assert(contact_force(c, stresses, rots, grads, vols0, nonlinear) == force_c);
    let force_m = v3i_half(v3i_sub(m3i_mul_v(rots[m.j], f_ji), m3i_mul_v(rots[m.i], f_ij)));
    assert(contact_force(m, stresses, rots, grads, vols0, nonlinear) == force_m);
    lemma_v3i_sub_swap(m3i_mul_v(rots[c.j], f_ij), m3i_mul_v(rots[c.i], f_ji));
    lemma_v3i_half_neg(v3i_sub(m3i_mul_v(rots[c.j], f_ij), m3i_mul_v(rots[c.i], f_ji)));
}

/// On a symmetric correlation matrix the rotation refinement seeded with
/// the identity stays exactly at the identity: a configuration whose
/// current and rest neighborhoods agree produces no rotation delta.
pub proof fn lemma_rot_iter_symmetric_identity(a: M3i, k: nat)
    requires
        m3b(a),
        a.xy == a.yx,
        a.xz == a.zx,
        a.yz == a.zy,
    ensures
        rot_iter(a, m3i_identity(), k) == m3i_identity(),
    decreases k,
{
    if k > 0 {
        lemma_rot_iter_symmetric_identity(a, (k - 1) as nat);
        let r = m3i_identity();
        let s = SCALE as int;
        lemma_s_mul_zero(a.xx);
        lemma_s_mul_zero(a.yx);
        lemma_s_mul_zero(a.zx);
        lemma_s_mul_zero(a.xy);
        lemma_s_mul_zero(a.yy);
        lemma_s_mul_zero(a.zy);
        lemma_s_mul_zero(a.xz);
        lemma_s_mul_zero(a.yz);
        lemma_s_mul_zero(a.zz);
        lemma_s_mul_one(a.xx);
        lemma_s_mul_one(a.yx);
        lemma_s_mul_one(a.zx);
        lemma_s_mul_one(a.xy);
        lemma_s_mul_one(a.yy);
        lemma_s_mul_one(a.zy);
        lemma_s_mul_one(a.xz);
        lemma_s_mul_one(a.yz);
        lemma_s_mul_one(a.zz);
        let c0 = crate::tensor::v3i_cross(V3i { x: r.xx, y: r.yx, z: r.zx }, V3i { x: a.xx, y: a.yx, z: a.zx });
        let c1 = crate::tensor::v3i_cross(V3i { x: r.xy, y: r.yy, z: r.zy }, V3i { x: a.xy, y: a.yy, z: a.zy });
        let c2 = crate::tensor::v3i_cross(V3i { x: r.xz, y: r.yz, z: r.zz }, V3i { x: a.xz, y: a.yz, z: a.zz });
        assert(c0 == V3i { x: 0, y: -a.zx, z: a.yx });
        assert(c1 == V3i { x: a.zy, y: 0, z: -a.xy });
        assert(c2 == V3i { x: -a.yz, y: a.xz, z: 0 });
        let num = v3i_add(v3i_add(c0, c1), c2);
        assert(num == V3i { x: 0, y: 0, z: 0 });
        let d0 = s_dot3(r.xx, a.xx, r.yx, a.yx, r.zx, a.zx);
        let d1 = s_dot3(r.xy, a.xy, r.yy, a.yy, r.zy, a.zy);
        let d2 = s_dot3(r.xz, a.xz, r.yz, a.yz, r.zz, a.zz);
        let dsum = s_add(s_add(d0, d1), d2);
        let den = s_add(if dsum >= 0 { dsum } else { -dsum }, 1);
        lemma_s_div_zero(den);
        assert(rot_step(a, r) == r);
    }
}

/// The correlation matrix of an undeformed configuration (current
/// positions equal to rest positions) is symmetric, because each term is
/// an outer product of a vector with itself.
pub proof fn lemma_apq_rest_symmetric(
    row: Seq<ContactI>,
    pos: Seq<V3i>,
    vols: Seq<int>,
    rho: int,
    k: nat,
)
    ensures
        ({
            let m = apq(row, pos, pos, vols, rho, k);
            m.xy == m.yx && m.xz == m.zx && m.yz == m.zy
        }),
    decreases k,
{
    if k > 0 {
        lemma_apq_rest_symmetric(row, pos, vols, rho, (k - 1) as nat);
        let c = row[k - 1];
        let v = v3i_sub(pos[c.j], pos[c.i]);
        let coeff = s_mul(c.weight, s_mul(vols[c.j], rho));
        let t = m3i_outer3(v, v, coeff);
        assert(v.x * v.y * coeff == v.y * v.x * coeff) by (nonlinear_arith);
        assert(v.x * v.z * coeff == v.z * v.x * coeff) by (nonlinear_arith);
        assert(v.y * v.z * coeff == v.z * v.y * coeff) by (nonlinear_arith);
        assert(t.xy == t.yx && t.xz == t.zx && t.yz == t.zy);
    }
}

/// With identity rotations and an undeformed configuration the
/// deformation gradient vanishes.
pub proof fn lemma_grad_rest_zero(
    row: Seq<ContactI>,
    pos: Seq<V3i>,
    rots: Seq<M3i>,
    vols0: Seq<int>,
    k: nat,
)
    requires
        forall|t: int| 0 <= t < rots.len() ==> #[trigger] rots[t] == m3i_identity(),
        forall|t: int| 0 <= t < k ==> 0 <= (#[trigger] row[t]).i < rots.len(),
    ensures
        grad_at(row, pos, pos, rots, vols0, k) == m3i_zero(),
    decreases k,
{
    if k > 0 {
        lemma_grad_rest_zero(row, pos, rots, vols0, (k - 1) as nat);
        let c = row[k - 1];
        let p_ji = v3i_sub(pos[c.j], pos[c.i]);
        assert(rots[c.i] == m3i_identity());
        lemma_s_mul_zero(p_ji.x);
        lemma_s_mul_zero(p_ji.y);
        lemma_s_mul_zero(p_ji.z);
        lemma_s_mul_one(p_ji.x);
        lemma_s_mul_one(p_ji.y);
        lemma_s_mul_one(p_ji.z);
        let u = v3i_sub(m3i_tmul_v(rots[c.i], p_ji), p_ji);
        assert(m3i_tmul_v(m3i_identity(), p_ji) == p_ji);
        assert(u == V3i { x: 0, y: 0, z: 0 });
        lemma_s_mul3_zero(c.gradient.x, vols0[c.j]);
        lemma_s_mul3_zero(c.gradient.y, vols0[c.j]);
        lemma_s_mul3_zero(c.gradient.z, vols0[c.j]);
        assert(m3i_outer3(c.gradient, u, vols0[c.j]) == m3i_zero());
    }
}

/// The material law maps a vanished deformation gradient to zero stress,
/// with either strain tensor and in either dimension.
pub proof fn lemma_stress_of_zero(d0: int, d1: int, d2: int, nonlinear: bool, dim: Dim)
    requires
        fxb(d0),
        fxb(d1),
        fxb(d2),
    ensures
        stress_of(m3i_zero(), d0, d1, d2, nonlinear, dim) == s6i_zero(),
{
    let s = SCALE as int;
    lemma_s_mul_zero(d0);
    lemma_s_mul_zero(d1);
    lemma_s_mul_zero(d2);
    crate::fx::lemma_tdiv_zero(2);
    if nonlinear {
        let j = m3i_add(m3i_zero(), m3i_identity());
        assert(j == m3i_identity());
        lemma_s_mul_one(s);
        lemma_s_mul_zero(s);
        let jjt = crate::tensor::m3i_mul_m(j, crate::tensor::m3i_transpose(j));
        assert(jjt == m3i_identity());
    }
}

/// A contact between two stress-free particles contributes no force.
pub proof fn lemma_contact_force_zero_stress(
    c: ContactI,
    stresses: Seq<S6i>,
    rots: Seq<M3i>,
    grads: Seq<M3i>,
    vols0: Seq<int>,
    nonlinear: bool,
)
    requires
        stresses[c.i] == s6i_zero(),
        stresses[c.j] == s6i_zero(),
    ensures
        contact_force(c, stresses, rots, grads, vols0, nonlinear) == (V3i { x: 0, y: 0, z: 0 }),
{
    let d_ij = v3i_scale(c.gradient, vols0[c.j]);
    let d_ji = v3i_scale(c.gradient, -vols0[c.i]);
    lemma_s_mul_zero(d_ij.x);
    lemma_s_mul_zero(d_ij.y);
    lemma_s_mul_zero(d_ij.z);
    lemma_s_mul_zero(d_ji.x);
    lemma_s_mul_zero(d_ji.y);
    lemma_s_mul_zero(d_ji.z);
    assert(sym_mul_v(stresses[c.i], d_ij) == (V3i { x: 0, y: 0, z: 0 }));
    assert(sym_mul_v(stresses[c.j], d_ji) == (V3i { x: 0, y: 0, z: 0 }));
    let zv = V3i { x: 0, y: 0, z: 0 };
    lemma_s_mul_zero(grads[c.i].xx);
    lemma_s_mul_zero(grads[c.i].xy);
    lemma_s_mul_zero(grads[c.i].xz);
    lemma_s_mul_zero(grads[c.i].yx);
    lemma_s_mul_zero(grads[c.i].yy);
    lemma_s_mul_zero(grads[c.i].yz);
    lemma_s_mul_zero(grads[c.i].zx);
    lemma_s_mul_zero(grads[c.i].zy);
    lemma_s_mul_zero(grads[c.i].zz);
    lemma_s_mul_zero(grads[c.j].xx);
    lemma_s_mul_zero(grads[c.j].xy);
    lemma_s_mul_zero(grads[c.j].xz);
    lemma_s_mul_zero(grads[c.j].yx);
    lemma_s_mul_zero(grads[c.j].yy);
    lemma_s_mul_zero(grads[c.j].yz);
    lemma_s_mul_zero(grads[c.j].zx);
    lemma_s_mul_zero(grads[c.j].zy);
    lemma_s_mul_zero(grads[c.j].zz);
    assert(m3i_mul_v(grads[c.i], zv) == zv);
    assert(m3i_mul_v(grads[c.j], zv) == zv);
    lemma_s_mul_zero(-vols0[c.i]);
    lemma_s_mul_zero(-vols0[c.j]);
    lemma_s_mul_zero(rots[c.i].xx);
    lemma_s_mul_zero(rots[c.i].xy);
    lemma_s_mul_zero(rots[c.i].xz);
    lemma_s_mul_zero(rots[c.i].yx);
    lemma_s_mul_zero(rots[c.i].yy);
    lemma_s_mul_zero(rots[c.i].yz);
    lemma_s_mul_zero(rots[c.i].zx);
    lemma_s_mul_zero(rots[c.i].zy);
    lemma_s_mul_zero(rots[c.i].zz);
    lemma_s_mul_zero(rots[c.j].xx);
    lemma_s_mul_zero(rots[c.j].xy);
    lemma_s_mul_zero(rots[c.j].xz);
    lemma_s_mul_zero(rots[c.j].yx);
    lemma_s_mul_zero(rots[c.j].yy);
    lemma_s_mul_zero(rots[c.j].yz);
    lemma_s_mul_zero(rots[c.j].zx);
    lemma_s_mul_zero(rots[c.j].zy);
    lemma_s_mul_zero(rots[c.j].zz);
    assert(m3i_mul_v(rots[c.i], zv) == zv);
    assert(m3i_mul_v(rots[c.j], zv) == zv);
    crate::fx::lemma_tdiv_zero(2);
}

/// A particle all of whose contacts are stress-free keeps its incoming
/// acceleration unchanged: the solver adds exactly zero.
pub proof fn lemma_accel_rest(
    row: Seq<ContactI>,
    acc0: V3i,
    stresses: Seq<S6i>,
    rots: Seq<M3i>,
    grads: Seq<M3i>,
    vols0: Seq<int>,
    vrho: int,
    nonlinear: bool,
    k: nat,
)
    requires
        v3b(acc0),
        forall|t: int| 0 <= t < k ==> stresses[(#[trigger] row[t]).i] == s6i_zero()
            && stresses[row[t].j] == s6i_zero(),
    ensures
        accel_at(row, acc0, stresses, rots, grads, vols0, vrho, nonlinear, k) == acc0,
    decreases k,
{
    if k > 0 {
        lemma_accel_rest(row, acc0, stresses, rots, grads, vols0, vrho, nonlinear, (k - 1) as nat);
        let c = row[k - 1];
        lemma_contact_force_zero_stress(c, stresses, rots, grads, vols0, nonlinear);
        lemma_s_div_zero(vrho);
    }
}

/// Applying a permutation and then its inverse restores the reference
/// arrays and the contact graph exactly. The hypotheses are what two
/// `apply_permutation` calls guarantee: `b` is `a` scattered through `p`,
/// `c` is `b` scattered through `q`, and `q` undoes `p`.
pub proof fn lemma_permutation_round_trip(
    a: Seq<ContactI>,
    b: Seq<ContactI>,
    c: Seq<ContactI>,
    p: Seq<usize>,
    q: Seq<usize>,
    n: nat,
    i: int,
)
    requires
        0 <= i < n,
        p.len() == n,
        q.len() == n,
        forall|t: int| 0 <= t < n ==> #[trigger] p[t] < n,
        forall|t: int| 0 <= t < n ==> q[p[t] as int] == t,
        b == a.map_values(|x: ContactI| permuted_contact(x, p)),
        c == b.map_values(|x: ContactI| permuted_contact(x, q)),
        forall|t: int| 0 <= t < a.len() ==> 0 <= (#[trigger] a[t]).i < n && 0 <= a[t].j < n,
    ensures
        c =~= a,
{
    assert forall|t: int| 0 <= t < a.len() implies #[trigger] c[t] == a[t] by {
        assert(b[t] == permuted_contact(a[t], p));
        assert(c[t] == permuted_contact(b[t], q));
        assert(q[p[a[t].i] as int] == a[t].i);
        assert(q[p[a[t].j] as int] == a[t].j);
    }
}

} // verus!
