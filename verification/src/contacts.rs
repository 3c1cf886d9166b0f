//! The reference contact graph: for every pair of particles closer than
//! the support radius at rest, one symmetric Contact caches the kernel
//! weight and kernel-gradient vector evaluated at the rest positions.
//!
//! The graph stores, for each particle `i`, the directed image of every
//! unordered pair `{i, j}`: the entry in `i`'s row carries the gradient
//! along `position_i - position_j`, and the entry in `j`'s row carries
//! its mirror. It is built once over the rest configuration and mutated
//! only by index permutation afterwards.

use vstd::prelude::*;
use crate::fx::{fxb, s_div, MAXV};
use crate::tensor::{V3, V3i, v3b, v3i_sub, v3i_scale};
use crate::kernel::{Dim, KernelFamily, SpikyKernel, CubicSplineKernel, family_weight, family_diff};

verus! {

/// The floor of the square root of a nonnegative integer.
pub open spec fn sqrt_floor(x: int) -> int {
    choose|r: int| 0 <= r && #[trigger] (r * r) <= x && x < (r + 1) * (r + 1)
}

/// The square-root floor is unique, so any witness equals `sqrt_floor`.
pub proof fn lemma_sqrt_floor_unique(x: int, r: int)
    requires
        0 <= r,
        r * r <= x,
        x < (r + 1) * (r + 1),
    ensures
        sqrt_floor(x) == r,
{
    let w = sqrt_floor(x);
    assert(0 <= w && w * w <= x && x < (w + 1) * (w + 1));
    if w < r {
        assert((w + 1) * (w + 1) <= r * r) by (nonlinear_arith)
            requires 0 <= w, w < r;
    }
    if r < w {
        assert((r + 1) * (r + 1) <= w * w) by (nonlinear_arith)
            requires 0 <= r, r < w;
    }
}

/// Binary-search integer square root on a wide intermediate.
fn isqrt(x: u128) -> (r: u128)
    requires
        x < 0x4_0000_0000_0000_0000_0000,
    ensures
        r * r <= x,
        x < (r + 1) * (r + 1),
        r <= 0x2_0000_0000_0000,
{
    let mut lo: u128 = 0;
    let mut hi: u128 = 0x2_0000_0000_0000;
    proof {
        assert(hi * hi > x) by (nonlinear_arith)
            requires hi == 0x2_0000_0000_0000, x < 0x4_0000_0000_0000_0000_0000;
    }
    while lo + 1 < hi
        invariant
            lo < hi,
            hi <= 0x2_0000_0000_0000,
            lo * lo <= x,
            hi * hi > x,
        decreases hi - lo,
    {
        let mid = lo + (hi - lo) / 2;
        proof {
            assert(mid * mid <= 0x2_0000_0000_0000 * 0x2_0000_0000_0000) by (nonlinear_arith)
                requires 0 <= mid, mid <= 0x2_0000_0000_0000;
        }
        if mid * mid <= x {
            lo = mid;
        } else {
            hi = mid;
        }
    }
    proof {
        assert((lo + 1) * (lo + 1) >= hi * hi) by (nonlinear_arith)
            requires lo + 1 >= hi, hi >= 1;
    }
    lo
}

/// Fixed-point distance between two points: the clamped square-root
/// floor of the squared offset, in the same fixed-point units.
pub open spec fn s_dist(a: V3i, b: V3i) -> int {
    let d = v3i_sub(a, b);
    let n2 = d.x * d.x + d.y * d.y + d.z * d.z;
    if sqrt_floor(n2) > MAXV as int {
        MAXV as int
    } else {
        sqrt_floor(n2)
    }
}

/// Distance between two stored points.
pub fn distance(a: &V3, b: &V3) -> (r: i64)
    requires
        v3b(a@),
        v3b(b@),
    ensures
        r as int == s_dist(a@, b@),
        0 <= r,
        fxb(r as int),
{
    let d = a.sub(b);
    proof {
        crate::fx::lemma_abs_mul_bound(d.x as int, d.x as int, MAXV as int, MAXV as int);
        crate::fx::lemma_abs_mul_bound(d.y as int, d.y as int, MAXV as int, MAXV as int);
        crate::fx::lemma_abs_mul_bound(d.z as int, d.z as int, MAXV as int, MAXV as int);
        assert(d.x as int * d.x as int >= 0) by (nonlinear_arith);
        assert(d.y as int * d.y as int >= 0) by (nonlinear_arith);
        assert(d.z as int * d.z as int >= 0) by (nonlinear_arith);
    }
    let n2: i128 = (d.x as i128) * (d.x as i128) + (d.y as i128) * (d.y as i128)
        + (d.z as i128) * (d.z as i128);
    let s = isqrt(n2 as u128);
    proof {
        lemma_sqrt_floor_unique(n2 as int, s as int);
    }
    if s > MAXV as u128 {
        MAXV
    } else {
        s as i64
    }
}

/// One cached neighbor relation of the reference configuration.
#[derive(Clone, Copy, Debug, PartialEq, Eq, Structural)]
pub struct Contact {
    /// The particle owning the row this contact sits in.
    pub i: usize,
    /// The neighbor.
    pub j: usize,
    /// Density-kernel weight at the rest distance.
    pub weight: i64,
    /// Gradient-kernel gradient vector at rest, along `position_i - position_j`.
    pub gradient: V3,
}

/// Mathematical image of a Contact.
pub ghost struct ContactI {
    pub i: int,
    pub j: int,
    pub weight: int,
    pub gradient: V3i,
}

impl View for Contact {
    type V = ContactI;

    open spec fn view(&self) -> ContactI {
        ContactI { i: self.i as int, j: self.j as int, weight: self.weight as int, gradient: self.gradient@ }
    }
}

/// The contact a pair `(i, j)` of rest positions induces.
pub open spec fn contact_spec(
    i: int,
    j: int,
    pos: Seq<V3i>,
    h: int,
    df: KernelFamily,
    gf: KernelFamily,
    dim: Dim,
) -> ContactI {
    let d = v3i_sub(pos[i], pos[j]);
    let r = s_dist(pos[i], pos[j]);
    let gm = family_diff(gf, r, h, dim);
    let dir = V3i { x: s_div(d.x, r), y: s_div(d.y, r), z: s_div(d.z, r) };
    ContactI {
        i,
        j,
        weight: family_weight(df, r, h, dim),
        gradient: v3i_scale(dir, gm),
    }
}

/// The row of particle `i`: its contacts with every neighbor `j < n`
/// within the support radius, in ascending order of `j`.
pub open spec fn row_spec(
    i: int,
    n: nat,
    pos: Seq<V3i>,
    h: int,
    df: KernelFamily,
    gf: KernelFamily,
    dim: Dim,
) -> Seq<ContactI>
    decreases n,
{
    if n == 0 {
        Seq::empty()
    } else {
        let prev = row_spec(i, (n - 1) as nat, pos, h, df, gf, dim);
        let j = n - 1;
        if j != i && s_dist(pos[i], pos[j]) <= h {
            prev.push(contact_spec(i, j, pos, h, df, gf, dim))
        } else {
            prev
        }
    }
}

/// The whole reference graph over `n` particles.
pub open spec fn graph_spec(
    n: nat,
    pos: Seq<V3i>,
    h: int,
    df: KernelFamily,
    gf: KernelFamily,
    dim: Dim,
) -> Seq<Seq<ContactI>> {
    Seq::new(n, |i: int| row_spec(i, n, pos, h, df, gf, dim))
}

/// Density-kernel weight of the chosen family.
pub fn weight_of(f: KernelFamily, r: i64, h: i64, dim: Dim) -> (w: i64)
    requires
        0 <= r,
        0 < h,
        fxb(r as int),
        fxb(h as int),
    ensures
        w as int == family_weight(f, r as int, h as int, dim),
        w >= 0,
        fxb(w as int),
{
    match f {
        KernelFamily::CubicSpline => CubicSplineKernel::scalar_apply(r, h, dim),
        KernelFamily::Spiky => SpikyKernel::scalar_apply(r, h, dim),
    }
}

/// Radial kernel derivative of the chosen family.
pub fn diff_of(f: KernelFamily, r: i64, h: i64, dim: Dim) -> (g: i64)
    requires
        0 <= r,
        0 < h,
        fxb(r as int),
        fxb(h as int),
    ensures
        g as int == family_diff(f, r as int, h as int, dim),
        g <= 0,
        fxb(g as int),
{
    match f {
        KernelFamily::CubicSpline => CubicSplineKernel::scalar_apply_diff(r, h, dim),
        KernelFamily::Spiky => SpikyKernel::scalar_apply_diff(r, h, dim),
    }
}

/// The symmetric sparse neighbor structure of the rest configuration.
pub struct ParticlesContacts {
    /// Row `i` holds the contacts whose first index is `i`.
    pub lists: Vec<Vec<Contact>>,
}

impl ParticlesContacts {
    /// Mathematical image: one sequence of contact images per particle.
    pub open spec fn rows(&self) -> Seq<Seq<ContactI>> {
        self.lists@.map_values(|v: Vec<Contact>| v@.map_values(|c: Contact| c@))
    }

    /// All rows own their contacts, indices are valid and scalars bounded.
    pub open spec fn wf(&self, n: nat) -> bool {
        &&& self.lists@.len() == n
        &&& forall|i: int, k: int|
            0 <= i < n && 0 <= k < self.rows()[i].len() ==> {
                let c = #[trigger] self.rows()[i][k];
                c.i == i && 0 <= c.j < n && fxb(c.weight) && v3b(c.gradient)
            }
    }

    /// An empty graph.
    pub fn new() -> (r: ParticlesContacts)
        ensures
            r.rows() == Seq::<Seq<ContactI>>::empty(),
            r.wf(0),
    {
        let r = ParticlesContacts { lists: Vec::new() };
        proof {
            assert(r.rows() =~= Seq::<Seq<ContactI>>::empty());
        }
        r
    }

    /// Number of particles the graph covers.
    pub fn len(&self) -> (n: usize)
        ensures
            n == self.lists@.len(),
    {
        self.lists.len()
    }

    /// Builds the reference graph: a self neighbor search over the rest
    /// positions, caching the density-kernel weight and the
    /// gradient-kernel gradient of every pair within the support radius.
    pub fn build(
        support_radius: i64,
        positions: &Vec<V3>,
        density_kernel: KernelFamily,
        gradient_kernel: KernelFamily,
        dim: Dim,
    ) -> (r: ParticlesContacts)
        requires
            0 < support_radius,
            fxb(support_radius as int),
            forall|k: int| 0 <= k < positions@.len() ==> v3b(#[trigger] positions@[k]@),
        ensures
            r.rows() =~= graph_spec(
                positions@.len(),
                positions@.map_values(|p: V3| p@),
                support_radius as int,
                density_kernel,
                gradient_kernel,
                dim,
            ),
            r.wf(positions@.len()),
    {
        let ghost pos = positions@.map_values(|p: V3| p@);
        let n = positions.len();
        let mut lists: Vec<Vec<Contact>> = Vec::new();
        let mut i: usize = 0;
        while i < n
            invariant
                i <= n,
                n == positions@.len(),
                pos == positions@.map_values(|p: V3| p@),
                0 < support_radius,
                fxb(support_radius as int),
                forall|k: int| 0 <= k < positions@.len() ==> v3b(#[trigger] positions@[k]@),
                lists@.len() == i,
                forall|k: int| 0 <= k < i ==> (#[trigger] lists@[k])@.map_values(|c: Contact| c@)
                    == row_spec(k, n as nat, pos, support_radius as int, density_kernel, gradient_kernel, dim),
            decreases n - i,
        {
            let mut row: Vec<Contact> = Vec::new();
            let mut j: usize = 0;
            proof {
                assert(row@.map_values(|c: Contact| c@)
                    =~= row_spec(i as int, 0nat, pos, support_radius as int, density_kernel, gradient_kernel, dim));
            }
            while j < n
                invariant
                    i < n,
                    j <= n,
                    n == positions@.len(),
                    pos == positions@.map_values(|p: V3| p@),
                    0 < support_radius,
                    fxb(support_radius as int),
                    forall|k: int| 0 <= k < positions@.len() ==> v3b(#[trigger] positions@[k]@),
                    row@.map_values(|c: Contact| c@)
                        == row_spec(i as int, j as nat, pos, support_radius as int, density_kernel, gradient_kernel, dim),
                decreases n - j,
            {
                if j != i {
                    let r = distance(&positions[i], &positions[j]);
                    if r <= support_radius {
                        let d = positions[i].sub(&positions[j]);
                        let w = weight_of(density_kernel, r, support_radius, dim);
                        let gm = diff_of(gradient_kernel, r, support_radius, dim);
                        let dir = V3 {
                            x: crate::fx::fx_div(d.x, r),
                            y: crate::fx::fx_div(d.y, r),
                            z: crate::fx::fx_div(d.z, r),
                        };
                        let c = Contact { i, j, weight: w, gradient: dir.scale(gm) };
                        row.push(c);
                        proof {
                            assert(row@.map_values(|c: Contact| c@)
                                =~= row_spec(i as int, (j + 1) as nat, pos, support_radius as int,
                                    density_kernel, gradient_kernel, dim));
                        }
                    } else {
                        proof {
                            assert(row@.map_values(|c: Contact| c@)
                                =~= row_spec(i as int, (j + 1) as nat, pos, support_radius as int,
                                    density_kernel, gradient_kernel, dim));
                        }
                    }
                } else {
                    proof {
                        assert(row@.map_values(|c: Contact| c@)
                            =~= row_spec(i as int, (j + 1) as nat, pos, support_radius as int,
                                density_kernel, gradient_kernel, dim));
                    }
                }
                j += 1;
            }
            lists.push(row);
            i += 1;
        }
        let r = ParticlesContacts { lists };
        proof {
            assert(r.rows() =~= graph_spec(n as nat, pos, support_radius as int, density_kernel, gradient_kernel, dim));
            lemma_row_spec_wf(n as nat, pos, support_radius as int, density_kernel, gradient_kernel, dim);
        }
        r
    }

    /// Remaps every row and every stored index through the bijection
    /// `perm`, so that the physical particle previously at slot `i` owns
    /// slot `perm[i]` afterwards.
    pub fn apply_permutation(&mut self, perm: &Vec<usize>)
        requires
            old(self).wf(perm@.len()),
            forall|k: int| 0 <= k < perm@.len() ==> #[trigger] perm@[k] < perm@.len(),
            forall|a: int, b: int|
                0 <= a < perm@.len() && 0 <= b < perm@.len() && a != b ==> perm@[a] != perm@[b],
        ensures
            final(self).wf(perm@.len()),
            final(self).rows().len() == old(self).rows().len(),
            forall|i: int| 0 <= i < perm@.len() ==> #[trigger] final(self).rows()[perm@[i] as int]
                == old(self).rows()[i].map_values(|c: ContactI| permuted_contact(c, perm@)),
    {
        let n = perm.len();
        let mut fresh: Vec<Vec<Contact>> = Vec::new();
        let mut k: usize = 0;
        while k < n
            invariant
                k <= n,
                fresh@.len() == k,
                forall|t: int| 0 <= t < k ==> (#[trigger] fresh@[t])@.len() == 0,
            decreases n - k,
        {
            fresh.push(Vec::new());
            k += 1;
        }
        let mut i: usize = 0;
        while i < n
            invariant
                i <= n,
                n == perm@.len(),
                old(self).wf(perm@.len()),
                self.lists@ == old(self).lists@,
                forall|t: int| 0 <= t < perm@.len() ==> #[trigger] perm@[t] < perm@.len(),
                forall|a: int, b: int|
                    0 <= a < perm@.len() && 0 <= b < perm@.len() && a != b ==> perm@[a] != perm@[b],
                fresh@.len() == n,
                forall|t: int| 0 <= t < i ==> (#[trigger] fresh@[perm@[t] as int])@.map_values(|c: Contact| c@)
                    == old(self).rows()[t].map_values(|c: ContactI| permuted_contact(c, perm@)),
                forall|t: int| i <= t < n ==> (#[trigger] fresh@[perm@[t] as int])@.len() == 0,
            decreases n - i,
        {
            let src = &self.lists[i];
            let m = src.len();
            let mut row: Vec<Contact> = Vec::new();
            let mut k2: usize = 0;
            while k2 < m
                invariant
                    i < n,
                    k2 <= m,
                    n == perm@.len(),
                    old(self).wf(perm@.len()),
                    self.lists@ == old(self).lists@,
                    src == &self.lists@[i as int],
                    m == src@.len(),
                    forall|t: int| 0 <= t < perm@.len() ==> #[trigger] perm@[t] < perm@.len(),
                    row@.len() == k2,
                    forall|t: int| 0 <= t < k2 ==> (#[trigger] row@[t])@
                        == permuted_contact(old(self).rows()[i as int][t], perm@),
                decreases m - k2,
            {
                let c = src[k2];
                proof {
                    assert(old(self).rows()[i as int][k2 as int] == c@);
                }
                let nc = Contact { i: perm[c.i], j: perm[c.j], weight: c.weight, gradient: c.gradient };
                row.push(nc);
                proof {
                    assert(nc@ == permuted_contact(c@, perm@));
                }
                k2 += 1;
            }
            proof {
                assert(row@.map_values(|c: Contact| c@)
                    =~= old(self).rows()[i as int].map_values(|c: ContactI| permuted_contact(c, perm@)));
            }
            let dest = perm[i];
            fresh[dest] = row;
            i += 1;
        }
        self.lists = fresh;
        proof {
            assert forall|i2: int| 0 <= i2 < perm@.len() implies #[trigger] self.rows()[perm@[i2] as int]
                == old(self).rows()[i2].map_values(|c: ContactI| permuted_contact(c, perm@)) by {
            }
            lemma_perm_onto(perm@);
            assert forall|p: int, k3: int|
                0 <= p < perm@.len() && 0 <= k3 < self.rows()[p].len() implies {
                    let c = #[trigger] self.rows()[p][k3];
                    c.i == p && 0 <= c.j < perm@.len() && fxb(c.weight) && v3b(c.gradient)
                } by {
                let i2 = perm_preimage(perm@, p);
                assert(0 <= i2 < perm@.len() && perm@[i2] == p);
                assert(self.rows()[p] == old(self).rows()[i2].map_values(
                    |c: ContactI| permuted_contact(c, perm@)));
            }
        }
    }
}

/// A contact with both endpoints renamed through a permutation.
pub open spec fn permuted_contact(c: ContactI, perm: Seq<usize>) -> ContactI {
    ContactI { i: perm[c.i] as int, j: perm[c.j] as int, weight: c.weight, gradient: c.gradient }
}

/// The slot whose image under the permutation is `p`.
pub open spec fn perm_preimage(perm: Seq<usize>, p: int) -> int {
    choose|i: int| 0 <= i < perm.len() && #[trigger] perm[i] == p
}

/// An injective map of a finite index range onto itself is surjective:
/// every slot `p` has a preimage.
pub proof fn lemma_perm_onto(perm: Seq<usize>)
    requires
        forall|k: int| 0 <= k < perm.len() ==> #[trigger] perm[k] < perm.len(),
        forall|a: int, b: int|
            0 <= a < perm.len() && 0 <= b < perm.len() && a != b ==> perm[a] != perm[b],
    ensures
        forall|p: int| 0 <= p < perm.len() ==> {
            let i = #[trigger] perm_preimage(perm, p);
            0 <= i < perm.len() && perm[i] == p
        },
{
    broadcast use vstd::set::group_set_axioms;
    broadcast use vstd::seq_lib::seq_to_set_is_finite;

    let n = perm.len() as int;
    let image = Seq::new(perm.len(), |k: int| perm[k] as int);
    let idseq = Seq::new(perm.len(), |k: int| k);
    assert forall|p: int| 0 <= p < n implies {
        let i = #[trigger] perm_preimage(perm, p);
        0 <= i < perm.len() && perm[i] == p
    } by {
        if !(exists|i: int| 0 <= i < n && #[trigger] perm[i] == p) {
            assert(image.no_duplicates()) by {
                assert forall|a: int, b: int|
                    0 <= a < n && 0 <= b < n && a != b implies image[a] != image[b] by {
                    assert(perm[a] != perm[b]);
                }
            }
            image.unique_seq_to_set();
            assert(idseq.no_duplicates());
            idseq.unique_seq_to_set();
            let range = idseq.to_set();
            let missing = image.to_set();
            assert(missing.subset_of(range.remove(p))) by {
                assert forall|q: int| missing.contains(q) implies range.remove(p).contains(q) by {
                    let w = choose|w: int| 0 <= w < image.len() && image[w] == q;
                    assert(perm[w] == q);
                    assert(idseq[q] == q);
                    assert(range.contains(q));
                    assert(q != p);
                }
            }
            assert(range.contains(p)) by {
                assert(idseq[p] == p);
            }
            assert(range.remove(p).len() == n - 1);
            vstd::set_lib::lemma_len_subset(missing, range.remove(p));
            assert(missing.len() == n);
            assert(false);
        }
    }
}

/// Every row the builder produces is owned by its particle and in range.
proof fn lemma_row_spec_wf(
    n: nat,
    pos: Seq<V3i>,
    h: int,
    df: KernelFamily,
    gf: KernelFamily,
    dim: Dim,
)
    requires
        forall|k: int| 0 <= k < pos.len() ==> v3b(#[trigger] pos[k]),
        pos.len() == n,
        h > 0,
        fxb(h),
    ensures
        forall|i: int, k: int|
            0 <= i < n && 0 <= k < row_spec(i, n, pos, h, df, gf, dim).len() ==> {
                let c = #[trigger] row_spec(i, n, pos, h, df, gf, dim)[k];
                c.i == i && 0 <= c.j < n && fxb(c.weight) && v3b(c.gradient)
            },
{
    assert forall|i: int, k: int|
        0 <= i < n && 0 <= k < row_spec(i, n, pos, h, df, gf, dim).len() implies {
            let c = #[trigger] row_spec(i, n, pos, h, df, gf, dim)[k];
            c.i == i && 0 <= c.j < n && fxb(c.weight) && v3b(c.gradient)
        } by {
        lemma_row_spec_member(i, n, pos, h, df, gf, dim, k);
    }
}

/// Structure of one row member.
proof fn lemma_row_spec_member(
    i: int,
    n: nat,
    pos: Seq<V3i>,
    h: int,
    df: KernelFamily,
    gf: KernelFamily,
    dim: Dim,
    k: int,
)
    requires
        forall|t: int| 0 <= t < pos.len() ==> v3b(#[trigger] pos[t]),
        pos.len() >= n,
        h > 0,
        fxb(h),
        0 <= i < pos.len(),
        0 <= k < row_spec(i, n, pos, h, df, gf, dim).len(),
    ensures
        ({
            let c = row_spec(i, n, pos, h, df, gf, dim)[k];
            c.i == i && 0 <= c.j < n && fxb(c.weight) && v3b(c.gradient)
        }),
    decreases n,
{
    if n > 0 {
        let prev = row_spec(i, (n - 1) as nat, pos, h, df, gf, dim);
        if k < prev.len() {
            lemma_row_spec_member(i, (n - 1) as nat, pos, h, df, gf, dim, k);
        } else {
            lemma_contact_spec_bounded(i, n - 1, pos, h, df, gf, dim);
        }
    }
}

/// A contact built from bounded positions has bounded scalars.
proof fn lemma_contact_spec_bounded(
    i: int,
    j: int,
    pos: Seq<V3i>,
    h: int,
    df: KernelFamily,
    gf: KernelFamily,
    dim: Dim,
)
    requires
        0 <= i < pos.len(),
        0 <= j < pos.len(),
        forall|t: int| 0 <= t < pos.len() ==> v3b(#[trigger] pos[t]),
        h > 0,
        fxb(h),
    ensures
        ({
            let c = contact_spec(i, j, pos, h, df, gf, dim);
            c.i == i && c.j == j && fxb(c.weight) && v3b(c.gradient)
        }),
{
    let c = contact_spec(i, j, pos, h, df, gf, dim);
    let r = s_dist(pos[i], pos[j]);
    assert(fxb(c.weight)) by {
        match df {
            KernelFamily::CubicSpline => {},
            KernelFamily::Spiky => {},
        }
    }
    assert(v3b(c.gradient)) by {
        match gf {
            KernelFamily::CubicSpline => {},
            KernelFamily::Spiky => {},
        }
    }
}

} // verus!
