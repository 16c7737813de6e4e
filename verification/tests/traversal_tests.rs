use voxel_trace::grid::VoxelGrid;
use voxel_trace::scalar::Frac;
use voxel_trace::scalar::Par;
use voxel_trace::scalar::par_lt;
use voxel_trace::tracer::Ray;
use voxel_trace::tracer::Vec3;
use voxel_trace::tracer::trace;

fn fr(num: i64, den: i64) -> Frac {
    Frac { num, den }
}

fn v3(x: Frac, y: Frac, z: Frac) -> Vec3 {
    Vec3 { x, y, z }
}

// A ray whose stored direction is the negation of the travel
// direction, matching the tracer's `d = -direction` sign convention:
// the walk moves along `-direction`.
fn ray_travelling(pos: Vec3, travel: Vec3) -> Ray {
    Ray {
        position: pos,
        direction: v3(
            fr(-travel.x.num, travel.x.den),
            fr(-travel.y.num, travel.y.den),
            fr(-travel.z.num, travel.z.den),
        ),
    }
}

#[test]
fn straight_ray_hits_isolated_voxel() {
    let mut g = VoxelGrid::new(6, 5, 5);
    g.set(3, 2, 2, true);
    // Start at the center of voxel (0, 2, 2), travelling +X.
    let r = ray_travelling(
        v3(fr(1, 2), fr(5, 2), fr(5, 2)),
        v3(fr(1, 1), fr(0, 1), fr(0, 1)),
    );
    let h = trace(&g, &r).expect("ray aimed at a solid voxel must hit");
    // Normal points back along -X: opposite the travel direction.
    assert_eq!(h.normal.x, -1);
    assert_eq!(h.normal.y, 0);
    assert_eq!(h.normal.z, 0);
    // Three crossings, each moving the carried coordinate by 2.
    assert_eq!(h.position.x, fr(13, 2));
    assert_eq!(h.position.y, fr(5, 2));
    assert_eq!(h.position.z, fr(5, 2));
}

#[test]
fn empty_grid_returns_absence() {
    let g = VoxelGrid::new(8, 8, 8);
    let r = ray_travelling(
        v3(fr(1, 2), fr(1, 2), fr(1, 2)),
        v3(fr(1, 1), fr(1, 1), fr(1, 1)),
    );
    assert!(trace(&g, &r).is_none());
}

#[test]
fn step_budget_is_exactly_100() {
    let mut g = VoxelGrid::new(1, 1, 200);
    g.set(0, 0, 101, true);
    g.set(0, 0, 150, true);
    // 101 crossings needed: one more than the budget allows.
    let far = ray_travelling(
        v3(fr(1, 2), fr(1, 2), fr(1, 2)),
        v3(fr(0, 1), fr(0, 1), fr(1, 1)),
    );
    assert!(trace(&g, &far).is_none());
    // 100 crossings reach voxel z = 100; make it solid and the same
    // ray hits on its last allowed step.
    g.set(0, 0, 100, true);
    let h = trace(&g, &far).expect("a voxel 100 crossings away is still in budget");
    assert_eq!(h.normal.z, -1);
}

#[test]
fn tie_x_y_selects_y_first() {
    // position at the center of voxel (0,0,0); travel (1, 1, 1/2):
    // tmax = (0.5, 0.5, 1.0), an exact X-Y tie below Z, so the fixed
    // comparison order steps Y first, never X.
    let mut g = VoxelGrid::new(3, 3, 3);
    g.set(1, 0, 0, true);
    g.set(0, 1, 0, true);
    let r = ray_travelling(
        v3(fr(1, 2), fr(1, 2), fr(1, 2)),
        v3(fr(1, 1), fr(1, 1), fr(1, 2)),
    );
    let h = trace(&g, &r).expect("first crossing enters a solid voxel");
    assert_eq!((h.normal.x, h.normal.y, h.normal.z), (0, -1, 0));
    assert_eq!(h.position.x, fr(1, 2));
    assert_eq!(h.position.y, fr(5, 2));
    assert_eq!(h.position.z, fr(1, 2));
}

#[test]
fn full_tie_selects_z_first() {
    let mut g = VoxelGrid::new(3, 3, 3);
    g.set(1, 0, 0, true);
    g.set(0, 1, 0, true);
    g.set(0, 0, 1, true);
    let r = ray_travelling(
        v3(fr(1, 2), fr(1, 2), fr(1, 2)),
        v3(fr(1, 1), fr(1, 1), fr(1, 1)),
    );
    let h = trace(&g, &r).expect("first crossing enters a solid voxel");
    assert_eq!((h.normal.x, h.normal.y, h.normal.z), (0, 0, -1));
}

#[test]
fn outward_ray_keeps_testing_solid_boundary_voxel() {
    // Starting inside boundary voxel (0, 2, 2) and travelling -X out
    // of the grid: every crossing clamps back to x = 0, so the solid
    // boundary voxel is reported even though the ray has left.
    let mut g = VoxelGrid::new(4, 4, 4);
    g.set(0, 2, 2, true);
    let r = ray_travelling(
        v3(fr(1, 2), fr(5, 2), fr(5, 2)),
        v3(fr(-1, 1), fr(0, 1), fr(0, 1)),
    );
    let h = trace(&g, &r).expect("clamping re-tests the solid boundary voxel");
    assert_eq!((h.normal.x, h.normal.y, h.normal.z), (1, 0, 0));
    assert_eq!(h.position.x, fr(-3, 2));
}

#[test]
fn outward_ray_over_empty_boundary_returns_absence() {
    let g = VoxelGrid::new(4, 4, 4);
    let r = ray_travelling(
        v3(fr(1, 2), fr(5, 2), fr(5, 2)),
        v3(fr(-1, 1), fr(0, 1), fr(0, 1)),
    );
    assert!(trace(&g, &r).is_none());
}

#[test]
fn occupied_start_voxel_is_never_reported() {
    // Only the starting voxel is solid; the walk leaves it on its
    // first crossing and never tests it, so no hit is reported.
    let mut g = VoxelGrid::new(3, 3, 3);
    g.set(1, 1, 1, true);
    let r = ray_travelling(
        v3(fr(3, 2), fr(3, 2), fr(3, 2)),
        v3(fr(0, 1), fr(0, 1), fr(-1, 1)),
    );
    assert!(trace(&g, &r).is_none());
}

#[test]
fn cuboid_round_trip_six_directions() {
    // Solid cuboid over the middle half of each axis of an 8-grid:
    // voxels 2..=5.  Rays fired from outside along each axis toward
    // the center must hit the facing side with the normal opposite the
    // travel direction.
    let mut g = VoxelGrid::new(8, 8, 8);
    for z in 2..6 {
        for y in 2..6 {
            for x in 2..6 {
                g.set(x, y, z, true);
            }
        }
    }
    let zero = fr(0, 1);
    let one = fr(1, 1);
    let neg = fr(-1, 1);
    let mid = fr(7, 2);
    let lowc = fr(1, 2);
    let highc = fr(15, 2);

    let cases = [
        // (start, travel, expected normal)
        (v3(lowc, mid, mid), v3(one, zero, zero), (-1, 0, 0)),
        (v3(highc, mid, mid), v3(neg, zero, zero), (1, 0, 0)),
        (v3(mid, lowc, mid), v3(zero, one, zero), (0, -1, 0)),
        (v3(mid, highc, mid), v3(zero, neg, zero), (0, 1, 0)),
        (v3(mid, mid, lowc), v3(zero, zero, one), (0, 0, -1)),
        (v3(mid, mid, highc), v3(zero, zero, neg), (0, 0, 1)),
    ];
    for (start, travel, normal) in cases {
        let h = trace(&g, &ray_travelling(start, travel)).expect("ray into the cuboid must hit");
        assert_eq!((h.normal.x, h.normal.y, h.normal.z), normal);
    }
}

#[test]
fn parametric_comparison_is_exact() {
    // 1/3 < 2/5 exactly; floating point would agree here, but the
    // comparison is decided by cross-multiplication.
    assert!(par_lt(&Par { num: 1, den: 3 }, &Par { num: 2, den: 5 }));
    assert!(!par_lt(&Par { num: 2, den: 5 }, &Par { num: 1, den: 3 }));
    // Equal values in different representations are not less.
    assert!(!par_lt(&Par { num: 1, den: 2 }, &Par { num: 2, den: 4 }));
    assert!(!par_lt(&Par { num: 2, den: 4 }, &Par { num: 1, den: 2 }));
    // The infinity of a degenerate axis never wins, and every finite
    // value lies below it.
    let inf = Par { num: 1, den: 0 };
    assert!(!par_lt(&inf, &Par { num: 1000, den: 1 }));
    assert!(!par_lt(&inf, &inf));
    assert!(par_lt(&Par { num: -1000, den: 1 }, &inf));
}

#[test]
fn negative_origin_floors_toward_negative_infinity() {
    // Origin x = -3/2 lies in voxel -2; travelling +X, the third
    // crossing enters voxel 1 where the solid target sits at x = 1.
    let mut g = VoxelGrid::new(4, 1, 1);
    g.set(1, 0, 0, true);
    let r = ray_travelling(
        v3(fr(-3, 2), fr(1, 2), fr(1, 2)),
        v3(fr(1, 1), fr(0, 1), fr(0, 1)),
    );
    let h = trace(&g, &r).expect("ray entering the grid from -X must hit");
    assert_eq!((h.normal.x, h.normal.y, h.normal.z), (-1, 0, 0));
    // Three crossings: -2 -> -1 -> 0 -> 1, carried coordinate -3/2 + 6.
    assert_eq!(h.position.x, fr(9, 2));
}
