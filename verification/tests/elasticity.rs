use sph_elasticity::fx::SCALE;
use sph_elasticity::tensor::{V3, M3};
use sph_elasticity::kernel::{Dim, KernelFamily, SpikyKernel, CubicSplineKernel};
use sph_elasticity::solver::{Becker2009Elasticity, Fluid, elasticity_coefficients};

fn fluid_of(positions: Vec<V3>, volume: i64, density0: i64) -> Fluid {
    let n = positions.len();
    Fluid {
        positions,
        volumes: vec![volume; n],
        density0,
        accelerations: vec![V3::zero(); n],
    }
}

#[test]
fn kernels_vanish_outside_support() {
    let h = SCALE;
    for dim in [Dim::Two, Dim::Three] {
        for r in [h + 1, 2 * h, 100 * h] {
            assert_eq!(SpikyKernel::scalar_apply(r, h, dim), 0);
            assert_eq!(SpikyKernel::scalar_apply_diff(r, h, dim), 0);
            assert_eq!(CubicSplineKernel::scalar_apply(r, h, dim), 0);
            assert_eq!(CubicSplineKernel::scalar_apply_diff(r, h, dim), 0);
        }
    }
}

#[test]
fn kernels_nonnegative_inside_support() {
    let h = 3 * SCALE / 2;
    for dim in [Dim::Two, Dim::Three] {
        let mut r: i64 = 0;
        while r <= h {
            assert!(SpikyKernel::scalar_apply(r, h, dim) >= 0);
            assert!(CubicSplineKernel::scalar_apply(r, h, dim) >= 0);
            assert!(SpikyKernel::scalar_apply_diff(r, h, dim) <= 0);
            assert!(CubicSplineKernel::scalar_apply_diff(r, h, dim) <= 0);
            r += h / 64;
        }
    }
}

#[test]
fn spiky_kernel_exact_values() {
    // 15/pi at the origin for a unit support radius, in fixed-point steps.
    assert_eq!(SpikyKernel::scalar_apply(0, SCALE, Dim::Three), 312911);
    assert_eq!(SpikyKernel::scalar_apply_diff(SCALE / 2, SCALE, Dim::Three), -234681);
}

#[test]
fn cubic_kernel_exact_values() {
    // 8/pi at the origin for a unit support radius, in fixed-point steps.
    assert_eq!(CubicSplineKernel::scalar_apply(0, SCALE, Dim::Three), 166886);
    assert_eq!(CubicSplineKernel::scalar_apply(SCALE / 2, SCALE, Dim::Two), 29801);
}

#[test]
fn material_coefficients_exact() {
    // E = 1, nu = 0: d0 = E, d1 = 0, d2 = E/2.
    let (d0, d1, d2) = elasticity_coefficients(SCALE, 0);
    assert_eq!((d0, d1, d2), (SCALE, 0, SCALE / 2));
}

#[test]
fn rest_state_adds_no_acceleration() {
    // A body whose current configuration equals its rest configuration
    // develops no rotation delta, no stress and no acceleration, for any
    // valid material parameters and either strain tensor.
    for (e, nu, nonlinear) in [
        (10 * SCALE, SCALE / 4, false),
        (10 * SCALE, SCALE / 4, true),
        (3 * SCALE, -SCALE / 2, false),
        (200 * SCALE, 2 * SCALE / 5, true),
    ] {
        let mut solver = Becker2009Elasticity::new(
            e, nu, nonlinear, Dim::Three, KernelFamily::CubicSpline, KernelFamily::CubicSpline,
        );
        let positions = vec![
            V3 { x: 0, y: 0, z: 0 },
            V3 { x: SCALE / 2, y: 0, z: 0 },
        ];
        let mut fluid = fluid_of(positions, SCALE, SCALE);
        fluid.accelerations[0] = V3 { x: 100, y: -50, z: 7 };
        fluid.accelerations[1] = V3 { x: -3, y: 4, z: 5 };
        solver.solve(SCALE, &mut fluid);
        assert_eq!(fluid.accelerations[0], V3 { x: 100, y: -50, z: 7 });
        assert_eq!(fluid.accelerations[1], V3 { x: -3, y: 4, z: 5 });
        for s in &solver.stress {
            assert_eq!((s.xx, s.yy, s.zz, s.yx, s.zx, s.zy), (0, 0, 0, 0, 0, 0));
        }
        for r in &solver.rotations {
            assert_eq!(*r, M3::identity());
        }
        // A second step over the same state stays quiescent.
        solver.solve(SCALE, &mut fluid);
        assert_eq!(fluid.accelerations[0], V3 { x: 100, y: -50, z: 7 });
    }
}

#[test]
fn uniform_scaling_gives_linear_stress() {
    // Scaling the current positions of a rest line by 1 + eps produces a
    // stress that doubles exactly when eps doubles (linear regime).
    let h: i64 = 78643;
    let rest = vec![
        V3 { x: 0, y: 0, z: 0 },
        V3 { x: SCALE / 2, y: 0, z: 0 },
        V3 { x: SCALE, y: 0, z: 0 },
    ];
    let mut stresses: Vec<(i64, i64, i64)> = Vec::new();
    for eps_sixteenths in [1i64, 2] {
        let f = SCALE + eps_sixteenths * SCALE / 16;
        let mut solver = Becker2009Elasticity::new(
            10 * SCALE, SCALE / 4, false, Dim::Three,
            KernelFamily::CubicSpline, KernelFamily::CubicSpline,
        );
        // Initialize the reference state over the rest configuration.
        let mut fluid = fluid_of(rest.clone(), SCALE, SCALE);
        solver.solve(h, &mut fluid);
        // Stretch and solve again over the same reference state.
        let scale_pos = |p: &V3| V3 {
            x: (p.x as i128 * f as i128 / SCALE as i128) as i64,
            y: (p.y as i128 * f as i128 / SCALE as i128) as i64,
            z: (p.z as i128 * f as i128 / SCALE as i128) as i64,
        };
        fluid.positions = rest.iter().map(scale_pos).collect();
        solver.solve(h, &mut fluid);
        let s = &solver.stress[1];
        stresses.push((s.xx, s.yy, s.zz));
        assert_eq!((s.yx, s.zx, s.zy), (0, 0, 0));
    }
    assert_eq!(stresses[0], (191232, 63744, 63744));
    assert_eq!(stresses[1], (382464, 127488, 127488));
    assert_eq!(stresses[1].0, 2 * stresses[0].0);
    assert_eq!(stresses[1].1, 2 * stresses[0].1);
}

#[test]
fn pairwise_forces_cancel() {
    // For two particles of equal volume the acceleration contributions
    // are exactly opposite: the internal forces obey Newton's third law.
    let mut solver = Becker2009Elasticity::new(
        10 * SCALE, SCALE / 4, false, Dim::Three,
        KernelFamily::CubicSpline, KernelFamily::CubicSpline,
    );
    let rest = vec![
        V3 { x: 0, y: 0, z: 0 },
        V3 { x: SCALE / 2, y: 0, z: 0 },
    ];
    let mut fluid = fluid_of(rest.clone(), SCALE, SCALE);
    solver.solve(SCALE, &mut fluid);
    // Stretch along x and shift along y, then solve on the same rest state.
    fluid.positions[1] = V3 { x: 3 * SCALE / 4, y: SCALE / 8, z: 0 };
    solver.solve(SCALE, &mut fluid);
    let a0 = fluid.accelerations[0];
    let a1 = fluid.accelerations[1];
    assert!(a0.x != 0 || a0.y != 0 || a0.z != 0);
    assert_eq!((a0.x, a0.y, a0.z), (-a1.x, -a1.y, -a1.z));
}

#[test]
fn nonlinear_pairwise_forces_cancel() {
    let mut solver = Becker2009Elasticity::new(
        10 * SCALE, SCALE / 4, true, Dim::Three,
        KernelFamily::CubicSpline, KernelFamily::Spiky,
    );
    let rest = vec![
        V3 { x: 0, y: 0, z: 0 },
        V3 { x: SCALE / 2, y: 0, z: 0 },
    ];
    let mut fluid = fluid_of(rest.clone(), SCALE, SCALE);
    solver.solve(SCALE, &mut fluid);
    fluid.positions[1] = V3 { x: 5 * SCALE / 8, y: 0, z: SCALE / 16 };
    solver.solve(SCALE, &mut fluid);
    let a0 = fluid.accelerations[0];
    let a1 = fluid.accelerations[1];
    assert!(a0.x != 0 || a0.y != 0 || a0.z != 0);
    assert_eq!((a0.x, a0.y, a0.z), (-a1.x, -a1.y, -a1.z));
}

#[test]
fn permutation_then_inverse_restores_state() {
    let mut solver = Becker2009Elasticity::new(
        10 * SCALE, SCALE / 4, false, Dim::Three,
        KernelFamily::CubicSpline, KernelFamily::CubicSpline,
    );
    let rest = vec![
        V3 { x: 0, y: 0, z: 0 },
        V3 { x: SCALE / 2, y: 0, z: 0 },
        V3 { x: 0, y: SCALE / 2, z: 0 },
    ];
    let mut fluid = fluid_of(rest, SCALE, SCALE);
    solver.solve(SCALE, &mut fluid);
    let volumes0 = solver.volumes0.clone();
    let positions0 = solver.positions0.clone();
    let rotations = solver.rotations.clone();
    let lists: Vec<Vec<sph_elasticity::contacts::Contact>> =
        solver.contacts0.lists.clone();
    let perm: Vec<usize> = vec![2, 0, 1];
    let inverse: Vec<usize> = vec![1, 2, 0];
    solver.apply_permutation(&perm);
    // The scatter really moved the rows.
    assert_eq!(solver.volumes0[2], volumes0[0]);
    assert_eq!(solver.positions0[2], positions0[0]);
    solver.apply_permutation(&inverse);
    assert_eq!(solver.volumes0, volumes0);
    assert_eq!(solver.positions0, positions0);
    assert_eq!(solver.rotations, rotations);
    assert_eq!(solver.contacts0.lists, lists);
}

#[test]
fn rigid_rotation_recovers_rotation_and_leaves_no_stress() {
    // A quarter-turn about z applied to a square of particles: the
    // extraction converges to the applied rotation and the stress is
    // numerically zero.
    let mut solver = Becker2009Elasticity::new(
        10 * SCALE, SCALE / 4, false, Dim::Three,
        KernelFamily::CubicSpline, KernelFamily::CubicSpline,
    );
    let rest = vec![
        V3 { x: SCALE / 2, y: 0, z: 0 },
        V3 { x: 0, y: SCALE / 2, z: 0 },
        V3 { x: -SCALE / 2, y: 0, z: 0 },
        V3 { x: 0, y: -SCALE / 2, z: 0 },
    ];
    let h = 3 * SCALE / 2;
    let mut fluid = fluid_of(rest.clone(), SCALE, SCALE);
    solver.solve(h, &mut fluid);
    // Rotate the current positions by 90 degrees about z, exactly.
    fluid.positions = rest.iter().map(|p| V3 { x: -p.y, y: p.x, z: p.z }).collect();
    solver.solve(h, &mut fluid);
    // Within 16 fixed-point steps (about 2.4e-4) of the exact quarter turn.
    let tol = 16;
    for r in &solver.rotations {
        assert!((r.xx - 0).abs() <= tol, "xx {}", r.xx);
        assert!((r.xy + SCALE).abs() <= tol, "xy {}", r.xy);
        assert!((r.yx - SCALE).abs() <= tol, "yx {}", r.yx);
        assert!((r.yy - 0).abs() <= tol, "yy {}", r.yy);
        assert!((r.zz - SCALE).abs() <= tol, "zz {}", r.zz);
    }
    // Numerically zero stress: within 256 steps of zero against a Young
    // modulus of ten units (655360 steps).
    let stress_tol = 256;
    for s in &solver.stress {
        assert!(s.xx.abs() <= stress_tol, "stress xx {}", s.xx);
        assert!(s.yy.abs() <= stress_tol, "stress yy {}", s.yy);
        assert!(s.zz.abs() <= stress_tol, "stress zz {}", s.zz);
    }
}

#[test]
fn rest_volume_estimate_conserves_interior_mass() {
    // On a well-sampled lattice the self-normalizing rest-volume estimate
    // of an interior particle reproduces its volume, so rest volume times
    // rest density approximates the particle mass there. Particles whose
    // kernel support leaves the lattice carry the usual boundary deficit.
    let mut solver = Becker2009Elasticity::new(
        10 * SCALE, SCALE / 4, false, Dim::Three,
        KernelFamily::CubicSpline, KernelFamily::CubicSpline,
    );
    let sp = SCALE / 4;
    let mut rest = Vec::new();
    for x in 0..5i64 {
        for y in 0..5i64 {
            for z in 0..5i64 {
                rest.push(V3 { x: x * sp, y: y * sp, z: z * sp });
            }
        }
    }
    let volume = SCALE / 64;
    let mut fluid = fluid_of(rest, volume, SCALE);
    solver.solve(SCALE, &mut fluid);
    let center = 2 * 25 + 2 * 5 + 2;
    assert_eq!(solver.volumes0[center], 1110);
    let v0 = solver.volumes0[center];
    // Within ten percent of the true volume at the center.
    assert!((v0 - volume).abs() * 10 <= volume, "v0 {}", v0);
}
