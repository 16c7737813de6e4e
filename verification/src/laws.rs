//! Proved properties of the traversal.
//!
//! The statements here are about the ghost recurrence `trace_from` /
//! `trace_spec`, which `tracer::trace` returns exactly; each public
//! lemma states one guarantee a caller can rely on.

use crate::grid::VoxelGrid;
use crate::scalar::Ratio;
use crate::scalar::is_fin;
use crate::scalar::ratio_eq;
use crate::scalar::ratio_lt;
use crate::tracer::MAX_STEPS;
use crate::tracer::Ray;
use crate::tracer::TraceState;
use crate::tracer::axis_advance;
use crate::tracer::axis_get;
use crate::tracer::clamped_voxel;
use crate::tracer::clampi;
use crate::tracer::lemma_selected_axis_finite;
use crate::tracer::lemma_state_init_wf;
use crate::tracer::lemma_state_step_wf;
use crate::tracer::ray_wf;
use crate::tracer::select_axis;
use crate::tracer::selected_axis;
use crate::tracer::state_init;
use crate::tracer::state_step;
use crate::tracer::state_wf;
use crate::tracer::step_normal;
use crate::tracer::trace_from;
use crate::tracer::trace_spec;
use crate::tracer::unit_normal;
use vstd::arithmetic::mul::lemma_mul_basics;
use vstd::arithmetic::mul::lemma_mul_is_distributive_add_other_way;
use vstd::arithmetic::mul::lemma_mul_unary_negation;
use vstd::prelude::*;

verus! {

/// Occupancy of a coordinate triple.
pub open spec fn occ3(g: VoxelGrid, v: (int, int, int)) -> bool {
    g.occ(v.0, v.1, v.2)
}

/// Grid dimension along axis `a`.
pub open spec fn dim_of(g: VoxelGrid, a: int) -> int {
    if a == 0 {
        g.width as int
    } else if a == 1 {
        g.height as int
    } else {
        g.depth as int
    }
}

/// A state whose walk is locked to axis `a`: every other axis carries
/// the infinity, so only axis `a` ever advances.
pub open spec fn axis_locked(s: TraceState, a: int) -> bool {
    &&& 0 <= a < 3
    &&& state_wf(s)
    &&& forall|j: int| 0 <= j < 3 && j != a ==> !is_fin(axis_get(s, j).tmax)
}

/// The clamped voxel a locked walk tests on its `i`-th crossing: the
/// locked axis has moved `i` steps, the other axes stand still.
pub open spec fn locked_probe(g: VoxelGrid, s: TraceState, a: int, i: int) -> (int, int, int) {
    (
        clampi(
            if a == 0 {
                s.x.voxel + i * s.x.step
            } else {
                s.x.voxel
            },
            g.width as int,
        ),
        clampi(
            if a == 1 {
                s.y.voxel + i * s.y.step
            } else {
                s.y.voxel
            },
            g.height as int,
        ),
        clampi(
            if a == 2 {
                s.z.voxel + i * s.z.step
            } else {
                s.z.voxel
            },
            g.depth as int,
        ),
    )
}

/// A locked walk always selects its one finite axis.
pub proof fn lemma_locked_selection(s: TraceState, a: int)
    requires
        axis_locked(s, a),
    ensures
        selected_axis(s) == a,
        is_fin(axis_get(s, a).tmax),
        axis_get(s, a).step == 1 || axis_get(s, a).step == -1,
{
    assert(forall|j: int| 0 <= j < 3 && j != a ==> !is_fin(#[trigger] axis_get(s, j).tmax));
    if a == 0 {
        assert(!is_fin(axis_get(s, 1).tmax));
        assert(!is_fin(axis_get(s, 2).tmax));
    } else if a == 1 {
        assert(!is_fin(axis_get(s, 0).tmax));
        assert(!is_fin(axis_get(s, 2).tmax));
    } else {
        assert(!is_fin(axis_get(s, 0).tmax));
        assert(!is_fin(axis_get(s, 1).tmax));
    }
    lemma_selected_axis_finite(s);
}

/// Stepping a locked walk advances exactly the locked axis and stays
/// locked.
pub proof fn lemma_locked_step(s: TraceState, a: int)
    requires
        axis_locked(s, a),
    ensures
        axis_locked(state_step(s), a),
        axis_get(state_step(s), a) == axis_advance(axis_get(s, a)),
        forall|j: int| 0 <= j < 3 && j != a ==> axis_get(state_step(s), j) == axis_get(s, j),
{
    lemma_locked_selection(s, a);
    lemma_state_step_wf(s);
}

/// A locked walk whose first occupied probe is the `k`-th one reports
/// a hit exactly there: the hit voxel is that probe and the normal
/// points back along the locked axis.
pub proof fn lemma_locked_first_hit(
    g: VoxelGrid,
    s: TraceState,
    a: int,
    k: int,
    fuel: nat,
)
    requires
        g.wf(),
        axis_locked(s, a),
        1 <= k <= fuel,
        occ3(g, locked_probe(g, s, a, k)),
        forall|j: int| 1 <= j < k ==> !occ3(g, locked_probe(g, s, a, j)),
    ensures
        trace_from(g, s, fuel) is Some,
        trace_from(g, s, fuel)->Some_0.voxel == locked_probe(g, s, a, k),
        trace_from(g, s, fuel)->Some_0.normal == unit_normal(a, -axis_get(s, a).step),
    decreases k,
{
    lemma_locked_selection(s, a);
    lemma_locked_step(s, a);
    let s2 = state_step(s);
    lemma_mul_basics(axis_get(s, a).step);
    assert(clamped_voxel(s2, g) == locked_probe(g, s, a, 1));
    assert(step_normal(s) == unit_normal(a, -axis_get(s, a).step));
    if k == 1 {
        assert(trace_from(g, s, fuel) is Some);
    } else {
        assert(!occ3(g, locked_probe(g, s, a, 1)));
        assert forall|i: int| locked_probe(g, s2, a, i) == locked_probe(g, s, a, i + 1) by {
            lemma_mul_is_distributive_add_other_way(axis_get(s, a).step, i, 1);
            lemma_mul_basics(axis_get(s, a).step);
        }
        lemma_locked_first_hit(g, s2, a, k - 1, (fuel - 1) as nat);
        assert(axis_get(s2, a).step == axis_get(s, a).step);
    }
}

/// A locked walk none of whose probes is occupied reports absence.
pub proof fn lemma_locked_no_hit(g: VoxelGrid, s: TraceState, a: int, fuel: nat)
    requires
        g.wf(),
        axis_locked(s, a),
        forall|j: int| 1 <= j <= fuel ==> !occ3(g, locked_probe(g, s, a, j)),
    ensures
        trace_from(g, s, fuel) is None,
    decreases fuel,
{
    if fuel > 0 {
        lemma_locked_selection(s, a);
        lemma_locked_step(s, a);
        let s2 = state_step(s);
        lemma_mul_basics(axis_get(s, a).step);
        assert(clamped_voxel(s2, g) == locked_probe(g, s, a, 1));
        assert(!occ3(g, locked_probe(g, s, a, 1)));
        assert forall|i: int| locked_probe(g, s2, a, i) == locked_probe(g, s, a, i + 1) by {
            lemma_mul_is_distributive_add_other_way(axis_get(s, a).step, i, 1);
            lemma_mul_basics(axis_get(s, a).step);
        }
        lemma_locked_no_hit(g, s2, a, (fuel - 1) as nat);
    }
}

/// The traversal only ever tests voxels reached by a genuine boundary
/// crossing: the very first tested voxel already differs from the
/// starting voxel by one step on the selected axis, so an occupied
/// starting voxel is never itself reported.  (Outside the grid, two
/// distinct voxels can still clamp to the same boundary voxel for the
/// lookup — the documented clamping quirk.)
pub proof fn lemma_never_tests_start_voxel(g: VoxelGrid, ray: Ray)
    requires
        g.wf(),
        ray_wf(ray),
    ensures
        ({
            let s0 = state_init(ray);
            let s1 = state_step(s0);
            let a = selected_axis(s0);
            &&& 0 <= a < 3
            &&& (axis_get(s0, a).step == 1 || axis_get(s0, a).step == -1)
            &&& axis_get(s1, a).voxel == axis_get(s0, a).voxel + axis_get(s0, a).step
            &&& forall|j: int| 0 <= j < 3 && j != a ==> axis_get(s1, j) == axis_get(s0, j)
            &&& (axis_get(s1, 0).voxel, axis_get(s1, 1).voxel, axis_get(s1, 2).voxel) != (
                axis_get(s0, 0).voxel,
                axis_get(s0, 1).voxel,
                axis_get(s0, 2).voxel,
            )
            &&& (g.in_bounds(axis_get(s0, 0).voxel, axis_get(s0, 1).voxel, axis_get(s0, 2).voxel)
                && g.in_bounds(
                axis_get(s1, 0).voxel,
                axis_get(s1, 1).voxel,
                axis_get(s1, 2).voxel,
            )) ==> clamped_voxel(s1, g) != clamped_voxel(s0, g)
        }),
{
    lemma_state_init_wf(ray);
    lemma_selected_axis_finite(state_init(ray));
}

/// Every reported hit's normal is the axis-aligned unit vector opposite
/// the step sign on some stepping axis: the face crossed to enter the
/// solid voxel.
pub proof fn lemma_hit_normal_opposes_step(g: VoxelGrid, ray: Ray)
    requires
        g.wf(),
        ray_wf(ray),
        trace_spec(g, ray) is Some,
    ensures
        ({
            let s0 = state_init(ray);
            let h = trace_spec(g, ray)->Some_0;
            exists|a: int|
                0 <= a < 3 && (axis_get(s0, a).step == 1 || axis_get(s0, a).step == -1)
                    && h.normal == unit_normal(a, -axis_get(s0, a).step)
        }),
{
    lemma_state_init_wf(ray);
    lemma_trace_from_normal(g, state_init(ray), MAX_STEPS as nat);
}

/// Induction behind `lemma_hit_normal_opposes_step`: step signs never
/// change along the walk, and the hit's normal is made from the step
/// sign of the axis selected at the hit.
proof fn lemma_trace_from_normal(g: VoxelGrid, s: TraceState, fuel: nat)
    requires
        g.wf(),
        state_wf(s),
        trace_from(g, s, fuel) is Some,
    ensures
        ({
            let h = trace_from(g, s, fuel)->Some_0;
            exists|a: int|
                0 <= a < 3 && (axis_get(s, a).step == 1 || axis_get(s, a).step == -1)
                    && h.normal == unit_normal(a, -axis_get(s, a).step)
        }),
    decreases fuel,
{
    let s2 = state_step(s);
    let h = trace_from(g, s, fuel)->Some_0;
    lemma_selected_axis_finite(s);
    lemma_state_step_wf(s);
    let cv = clamped_voxel(s2, g);
    if g.occ(cv.0, cv.1, cv.2) {
        let a = selected_axis(s);
        assert(0 <= a < 3 && (axis_get(s, a).step == 1 || axis_get(s, a).step == -1) && h.normal
            == unit_normal(a, -axis_get(s, a).step));
    } else {
        lemma_trace_from_normal(g, s2, (fuel - 1) as nat);
        let a = choose|a: int|
            0 <= a < 3 && (axis_get(s2, a).step == 1 || axis_get(s2, a).step == -1) && h.normal
                == unit_normal(a, -axis_get(s2, a).step);
        assert(axis_get(s2, a).step == axis_get(s, a).step);
        assert(0 <= a < 3 && (axis_get(s, a).step == 1 || axis_get(s, a).step == -1) && h.normal
            == unit_normal(a, -axis_get(s, a).step));
    }
}

/// On a fully empty grid every traversal spends its whole step budget
/// and reports absence.
pub proof fn lemma_empty_grid_no_hit(g: VoxelGrid, ray: Ray)
    requires
        g.wf(),
        forall|x: int, y: int, z: int| g.in_bounds(x, y, z) ==> !g.occ(x, y, z),
    ensures
        trace_spec(g, ray) is None,
{
    lemma_trace_from_empty(g, state_init(ray), MAX_STEPS as nat);
}

/// Induction behind `lemma_empty_grid_no_hit`: clamped lookups always
/// land in bounds, and in-bounds voxels of an empty grid are empty.
proof fn lemma_trace_from_empty(g: VoxelGrid, s: TraceState, fuel: nat)
    requires
        g.wf(),
        forall|x: int, y: int, z: int| g.in_bounds(x, y, z) ==> !g.occ(x, y, z),
    ensures
        trace_from(g, s, fuel) is None,
    decreases fuel,
{
    if fuel > 0 {
        let s2 = state_step(s);
        let cv = clamped_voxel(s2, g);
        assert(g.in_bounds(cv.0, cv.1, cv.2));
        lemma_trace_from_empty(g, s2, (fuel - 1) as nat);
    }
}

/// An exact tie between the X and Y parametric distances, both below
/// Z's, deterministically selects the Y axis: the fixed nested
/// comparison takes X only when strictly smallest.
pub proof fn lemma_tie_x_y_selects_y(tx: Ratio, ty: Ratio, tz: Ratio)
    requires
        ratio_eq(tx, ty),
        ratio_lt(ty, tz),
    ensures
        select_axis(tx, ty, tz) == 1,
{
}

/// Component `a` of a coordinate triple.
pub open spec fn tup_get(v: (int, int, int), a: int) -> int {
    if a == 0 {
        v.0
    } else if a == 1 {
        v.1
    } else {
        v.2
    }
}

/// The grid is occupied exactly on the axis-aligned box `[lo, hi]`.
pub open spec fn box_occupancy(g: VoxelGrid, lo: (int, int, int), hi: (int, int, int)) -> bool {
    forall|x: int, y: int, z: int|
        g.in_bounds(x, y, z) ==> (g.occ(x, y, z) <==> (lo.0 <= x <= hi.0 && lo.1 <= y <= hi.1
            && lo.2 <= z <= hi.2))
}

/// A ray whose walk is locked to one axis and points away from the
/// grid on it keeps re-testing the one clamped boundary voxel: it
/// reports a hit exactly when that boundary voxel is solid, even though
/// the geometric ray has left the grid — the documented clamping quirk.
pub proof fn lemma_outward_ray_retests_boundary(g: VoxelGrid, ray: Ray, a: int)
    requires
        g.wf(),
        ray_wf(ray),
        0 <= a < 3,
        forall|j: int| 0 <= j < 3 && j != a ==> axis_get(state_init(ray), j).step == 0,
        ({
            let ax = axis_get(state_init(ray), a);
            (ax.step == -1 && ax.voxel <= 0) || (ax.step == 1 && ax.voxel >= dim_of(g, a) - 1)
        }),
    ensures
        ({
            let s0 = state_init(ray);
            let bnd = locked_probe(g, s0, a, 1);
            &&& forall|i: int| 1 <= i ==> locked_probe(g, s0, a, i) == bnd
            &&& (trace_spec(g, ray) is Some <==> occ3(g, bnd))
            &&& (trace_spec(g, ray) is Some ==> trace_spec(g, ray)->Some_0.voxel == bnd
                && trace_spec(g, ray)->Some_0.normal == unit_normal(a, -axis_get(s0, a).step))
        }),
{
    lemma_state_init_wf(ray);
    let s0 = state_init(ray);
    assert forall|j: int| 0 <= j < 3 && j != a implies !is_fin(#[trigger] axis_get(s0, j).tmax) by {
        assert(axis_get(s0, j).step == 0);
    }
    assert(axis_locked(s0, a));
    let bnd = locked_probe(g, s0, a, 1);
    assert forall|i: int| 1 <= i implies locked_probe(g, s0, a, i) == bnd by {
        lemma_mul_basics(i);
        lemma_mul_unary_negation(i, 1);
        lemma_mul_basics(1int);
    }
    if occ3(g, bnd) {
        lemma_locked_first_hit(g, s0, a, 1, MAX_STEPS as nat);
    } else {
        assert forall|j: int| 1 <= j <= MAX_STEPS as nat implies !occ3(
            g,
            locked_probe(g, s0, a, j),
        ) by {
            assert(locked_probe(g, s0, a, j) == bnd);
        }
        lemma_locked_no_hit(g, s0, a, MAX_STEPS as nat);
    }
}

/// A ray locked to one axis, starting in bounds on that axis outside a
/// solid box and walking toward it with the box's face within the step
/// budget, hits the box on that first-crossed face, with the normal
/// opposite the walk.  A single isolated solid voxel is the degenerate
/// box `lo == hi`.
pub proof fn lemma_axis_ray_hits_box(
    g: VoxelGrid,
    ray: Ray,
    a: int,
    lo: (int, int, int),
    hi: (int, int, int),
)
    requires
        g.wf(),
        ray_wf(ray),
        0 <= a < 3,
        0 <= lo.0 <= hi.0 < g.width,
        0 <= lo.1 <= hi.1 < g.height,
        0 <= lo.2 <= hi.2 < g.depth,
        box_occupancy(g, lo, hi),
        forall|j: int| 0 <= j < 3 && j != a ==> (#[trigger] axis_get(state_init(ray), j)).step
            == 0,
        forall|j: int|
            0 <= j < 3 && j != a ==> tup_get(lo, j) <= clampi(
                (#[trigger] axis_get(state_init(ray), j)).voxel,
                dim_of(g, j),
            ) <= tup_get(hi, j),
        ({
            let ax = axis_get(state_init(ray), a);
            &&& 0 <= ax.voxel < dim_of(g, a)
            &&& ((ax.step == 1 && ax.voxel < tup_get(lo, a) && tup_get(lo, a) - ax.voxel
                <= MAX_STEPS) || (ax.step == -1 && ax.voxel > tup_get(hi, a) && ax.voxel - tup_get(
                hi,
                a,
            ) <= MAX_STEPS))
        }),
    ensures
        ({
            let s0 = state_init(ray);
            let ax = axis_get(s0, a);
            let face = if ax.step == 1 {
                tup_get(lo, a)
            } else {
                tup_get(hi, a)
            };
            let k = if ax.step == 1 {
                tup_get(lo, a) - ax.voxel
            } else {
                ax.voxel - tup_get(hi, a)
            };
            &&& trace_spec(g, ray) is Some
            &&& trace_spec(g, ray)->Some_0.normal == unit_normal(a, -ax.step)
            &&& trace_spec(g, ray)->Some_0.voxel == locked_probe(g, s0, a, k)
            &&& tup_get(trace_spec(g, ray)->Some_0.voxel, a) == face
        }),
{
    lemma_state_init_wf(ray);
    let s0 = state_init(ray);
    assert forall|j: int| 0 <= j < 3 && j != a implies !is_fin(#[trigger] axis_get(s0, j).tmax) by {
        assert(axis_get(s0, j).step == 0);
    }
    assert(axis_locked(s0, a));
    let ax = axis_get(s0, a);
    let face = if ax.step == 1 {
        tup_get(lo, a)
    } else {
        tup_get(hi, a)
    };
    let k = if ax.step == 1 {
        tup_get(lo, a) - ax.voxel
    } else {
        ax.voxel - tup_get(hi, a)
    };
    assert forall|j: int| 1 <= j <= k implies tup_get(
        #[trigger] locked_probe(g, s0, a, j),
        a,
    ) == ax.voxel + j * ax.step by {
        lemma_mul_basics(j);
        lemma_mul_unary_negation(j, 1);
        assert(0 <= ax.voxel + j * ax.step < dim_of(g, a));
    }
    assert forall|j: int, m: int|
        1 <= j <= k && 0 <= m < 3 && m != a implies tup_get(lo, m) <= #[trigger] tup_get(
        locked_probe(g, s0, a, j),
        m,
    ) <= tup_get(hi, m) by {
        assert(tup_get(locked_probe(g, s0, a, j), m) == clampi(
            axis_get(s0, m).voxel,
            dim_of(g, m),
        ));
    }
    assert forall|j: int| 1 <= j < k implies !occ3(g, locked_probe(g, s0, a, j)) by {
        let pv = locked_probe(g, s0, a, j);
        assert(tup_get(pv, a) == ax.voxel + j * ax.step);
        assert(g.in_bounds(pv.0, pv.1, pv.2));
        if ax.step == 1 {
            assert(tup_get(pv, a) < tup_get(lo, a));
        } else {
            assert(tup_get(pv, a) > tup_get(hi, a));
        }
    }
    let pk = locked_probe(g, s0, a, k);
    assert(tup_get(pk, a) == ax.voxel + k * ax.step);
    assert(tup_get(pk, a) == face);
    assert(g.in_bounds(pk.0, pk.1, pk.2));
    if a != 0 {
        assert(tup_get(lo, 0) <= tup_get(pk, 0) <= tup_get(hi, 0));
    }
    if a != 1 {
        assert(tup_get(lo, 1) <= tup_get(pk, 1) <= tup_get(hi, 1));
    }
    if a != 2 {
        assert(tup_get(lo, 2) <= tup_get(pk, 2) <= tup_get(hi, 2));
    }
    assert(lo.0 <= pk.0 <= hi.0 && lo.1 <= pk.1 <= hi.1 && lo.2 <= pk.2 <= hi.2);
    assert(occ3(g, pk));
    lemma_locked_first_hit(g, s0, a, k, MAX_STEPS as nat);
}

/// A three-way exact tie deterministically selects the Z axis.
pub proof fn lemma_full_tie_selects_z(tx: Ratio, ty: Ratio, tz: Ratio)
    requires
        ratio_eq(tx, ty),
        ratio_eq(ty, tz),
    ensures
        select_axis(tx, ty, tz) == 2,
{
}

} // verus!
