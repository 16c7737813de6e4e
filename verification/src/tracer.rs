//! Ray–voxel traversal: a grid DDA (digital differential analyzer) that
//! advances a ray one voxel boundary crossing at a time until it enters
//! an occupied voxel or a fixed step budget runs out.
//!
//! The traversal works from `d = -direction` (the sign convention of the
//! stepping: the grid walk moves along `d`).  Per axis it keeps the
//! parametric distance `tmax` to the next boundary crossing and the
//! spacing `tdelta` between crossings, both as exact rationals over a
//! common denominator; an axis with a zero direction component carries
//! the infinity, which never wins the minimum comparison and so never
//! crosses.  Voxel coordinates that leave the grid are clamped to the
//! nearest boundary voxel for the occupancy lookup, so an exiting ray
//! keeps re-testing that boundary voxel instead of terminating early.
//!
//! The whole traversal is mirrored, step for step, by the ghost
//! recurrence `trace_from`; `trace` returns exactly what the recurrence
//! `trace_spec` denotes.

use crate::grid::DIM_MAX;
use crate::grid::VoxelGrid;
use crate::scalar::Frac;
use crate::scalar::Par;
use crate::scalar::Ratio;
use crate::scalar::frac_bounded;
use crate::scalar::lemma_mul_abs_bound;
use crate::scalar::is_fin;
use crate::scalar::par_lt;
use crate::scalar::ratio_lt;
use vstd::arithmetic::div_mod::lemma_fundamental_div_mod;
use vstd::arithmetic::div_mod::lemma_mod_division_less_than_divisor;
use vstd::prelude::*;

verus! {

/// Fixed iteration budget of one traversal; also the exact number of
/// boundary crossings tested when no occupied voxel is found.
pub const MAX_STEPS: u32 = 100;

/// A point or direction with exact rational components.
#[derive(Clone, Copy)]
pub struct Vec3 {
    pub x: Frac,
    pub y: Frac,
    pub z: Frac,
}

/// A ray in grid-local coordinates.  The direction need not be
/// normalized; it must be non-zero on at least one axis.  The boundary
/// offset of the first crossing is midpoint-based, which assumes the
/// position starts at a voxel center: callers should initialize
/// positions at half-integer offsets for correct first-step behavior.
#[derive(Clone, Copy)]
pub struct Ray {
    pub position: Vec3,
    pub direction: Vec3,
}

/// An axis-aligned unit vector: one component is 1 or -1, the others 0.
#[derive(Clone, Copy, PartialEq, Eq, Structural, Debug)]
pub struct Normal3 {
    pub x: i32,
    pub y: i32,
    pub z: i32,
}

/// A successful traversal: the position reached on the crossing into
/// the solid voxel, and the face normal, opposite the step direction on
/// the crossed axis.
#[derive(Clone, Copy)]
pub struct Hit {
    pub position: Vec3,
    pub normal: Normal3,
}

/// Ghost per-axis traversal state.
pub ghost struct AxisState {
    /// Stepping sign of `d = -direction` on this axis: -1, 0 or 1.
    pub step: int,
    /// Current integer voxel coordinate (unclamped).
    pub voxel: int,
    /// Parametric distance to the next boundary crossing.
    pub tmax: Ratio,
    /// Parametric spacing between crossings, sharing `tmax`'s
    /// denominator.
    pub tdelta: Ratio,
    /// Continuous coordinate carried along the walk.
    pub pos: Ratio,
}

/// Ghost state of a whole traversal.
pub ghost struct TraceState {
    pub x: AxisState,
    pub y: AxisState,
    pub z: AxisState,
}

/// Ghost value of a reported hit; `voxel` is the clamped coordinate
/// whose occupancy ended the walk.
pub ghost struct HitModel {
    pub position: (Ratio, Ratio, Ratio),
    pub normal: (int, int, int),
    pub voxel: (int, int, int),
}

/// Sign of an integer.
pub open spec fn sgn(x: int) -> int {
    if x > 0 {
        1
    } else if x < 0 {
        -1
    } else {
        0
    }
}

/// Magnitude of an integer.
pub open spec fn absi(x: int) -> int {
    if x < 0 {
        -x
    } else {
        x
    }
}

/// Initial per-axis state for ray coordinate `pos` and direction
/// component `dir`.  With `d = -dir`, the step is `sgn(d)`; the voxel is
/// `floor(pos)`; the next boundary is `voxel + 0.5 + 0.5*step`; and
/// `tmax = (boundary - pos) / d`, `tdelta = step / d`, both put over the
/// positive common denominator `2 * pos.den * |dir.num|`.  A zero
/// direction component gets the "never crosses" infinity.
pub open spec fn axis_init(pos: Ratio, dir: Ratio) -> AxisState {
    let v = pos.num / pos.den;
    if dir.num == 0 {
        AxisState {
            step: 0,
            voxel: v,
            tmax: Ratio { num: 1, den: 0 },
            tdelta: Ratio { num: 1, den: 0 },
            pos,
        }
    } else {
        let step = -sgn(dir.num);
        let den = 2 * pos.den * absi(dir.num);
        AxisState {
            step,
            voxel: v,
            tmax: Ratio {
                num: ((2 * v + 1 + step) * pos.den - 2 * pos.num) * dir.den * step,
                den,
            },
            tdelta: Ratio { num: 2 * pos.den * dir.den, den },
            pos,
        }
    }
}

/// Initial traversal state of a ray.
pub open spec fn state_init(ray: Ray) -> TraceState {
    TraceState {
        x: axis_init(ray.position.x@, ray.direction.x@),
        y: axis_init(ray.position.y@, ray.direction.y@),
        z: axis_init(ray.position.z@, ray.direction.z@),
    }
}

/// The fixed nested comparison that picks the axis with the smallest
/// `tmax`: X wins only when strictly below both Y and Z; otherwise Y
/// wins when strictly below Z; otherwise Z.  Exact ties therefore go to
/// Y over X, and to Z over either.
pub open spec fn select_axis(tx: Ratio, ty: Ratio, tz: Ratio) -> int {
    if ratio_lt(tx, ty) {
        if ratio_lt(tx, tz) {
            0
        } else {
            2
        }
    } else {
        if ratio_lt(ty, tz) {
            1
        } else {
            2
        }
    }
}

/// Axis selected for the next crossing of state `s`.
pub open spec fn selected_axis(s: TraceState) -> int {
    select_axis(s.x.tmax, s.y.tmax, s.z.tmax)
}

/// The per-axis state of `s` on axis `a` (0, 1 or 2).
pub open spec fn axis_get(s: TraceState, a: int) -> AxisState {
    if a == 0 {
        s.x
    } else if a == 1 {
        s.y
    } else {
        s.z
    }
}

/// One crossing on an axis: the voxel moves by `step`, `tmax` grows by
/// `tdelta` (same denominator), and the continuous coordinate moves by
/// the unit step and then back away from the entered face — together
/// `2 * step` in units of the denominator.
pub open spec fn axis_advance(a: AxisState) -> AxisState {
    AxisState {
        step: a.step,
        voxel: a.voxel + a.step,
        tmax: Ratio { num: a.tmax.num + a.tdelta.num, den: a.tmax.den },
        tdelta: a.tdelta,
        pos: Ratio { num: a.pos.num + 2 * a.step * a.pos.den, den: a.pos.den },
    }
}

/// One traversal step: the selected axis advances, the others stand.
pub open spec fn state_step(s: TraceState) -> TraceState {
    let a = selected_axis(s);
    if a == 0 {
        TraceState { x: axis_advance(s.x), y: s.y, z: s.z }
    } else if a == 1 {
        TraceState { x: s.x, y: axis_advance(s.y), z: s.z }
    } else {
        TraceState { x: s.x, y: s.y, z: axis_advance(s.z) }
    }
}

/// Axis-aligned unit vector with value `v` on axis `a`.
pub open spec fn unit_normal(a: int, v: int) -> (int, int, int) {
    if a == 0 {
        (v, 0, 0)
    } else if a == 1 {
        (0, v, 0)
    } else {
        (0, 0, v)
    }
}

/// Face normal of the crossing taken from state `s`: opposite the step
/// sign on the selected axis.
pub open spec fn step_normal(s: TraceState) -> (int, int, int) {
    unit_normal(selected_axis(s), -axis_get(s, selected_axis(s)).step)
}

/// Clamp an integer coordinate into `[0, dim - 1]`.
pub open spec fn clampi(v: int, dim: int) -> int {
    if v < 0 {
        0
    } else if v >= dim {
        dim - 1
    } else {
        v
    }
}

/// The clamped lookup coordinate of state `s` in grid `g`.
pub open spec fn clamped_voxel(s: TraceState, g: VoxelGrid) -> (int, int, int) {
    (
        clampi(s.x.voxel, g.width as int),
        clampi(s.y.voxel, g.height as int),
        clampi(s.z.voxel, g.depth as int),
    )
}

/// The traversal recurrence: step, clamp, test; report the hit on the
/// first occupied voxel entered, or absence once the fuel is spent.
pub open spec fn trace_from(g: VoxelGrid, s: TraceState, fuel: nat) -> Option<HitModel>
    decreases fuel,
{
    if fuel == 0 {
        None
    } else {
        let s2 = state_step(s);
        let cv = clamped_voxel(s2, g);
        if g.occ(cv.0, cv.1, cv.2) {
            Some(
                HitModel {
                    position: (s2.x.pos, s2.y.pos, s2.z.pos),
                    normal: step_normal(s),
                    voxel: cv,
                },
            )
        } else {
            trace_from(g, s2, (fuel - 1) as nat)
        }
    }
}

/// A ray the traversal accepts: bounded exact components, and a
/// direction that is non-zero on at least one axis (an all-zero
/// direction has no defined traversal).
pub open spec fn ray_wf(r: Ray) -> bool {
    &&& frac_bounded(r.position.x@)
    &&& frac_bounded(r.position.y@)
    &&& frac_bounded(r.position.z@)
    &&& frac_bounded(r.direction.x@)
    &&& frac_bounded(r.direction.y@)
    &&& frac_bounded(r.direction.z@)
    &&& (r.direction.x@.num != 0 || r.direction.y@.num != 0 || r.direction.z@.num != 0)
}

/// What a whole traversal of `ray` through `g` denotes.
pub open spec fn trace_spec(g: VoxelGrid, ray: Ray) -> Option<HitModel> {
    trace_from(g, state_init(ray), MAX_STEPS as nat)
}

/// A returned hit carries exactly the values of a ghost hit.
pub open spec fn hit_matches(h: Hit, m: HitModel) -> bool {
    &&& h.position.x@ == m.position.0
    &&& h.position.y@ == m.position.1
    &&& h.position.z@ == m.position.2
    &&& (h.normal.x as int, h.normal.y as int, h.normal.z as int) == m.normal
}

/// The result of `trace` agrees with the ghost recurrence: absence
/// exactly when the recurrence denotes absence, and otherwise a hit
/// with the recurrence's position and normal.
pub open spec fn trace_matches(g: VoxelGrid, ray: Ray, r: Option<Hit>) -> bool {
    match r {
        Option::None => trace_spec(g, ray) is None,
        Option::Some(h) => trace_spec(g, ray) is Some && hit_matches(h, trace_spec(g, ray)->Some_0),
    }
}

/// Well-formed per-axis state: the step is a sign; an axis is infinite
/// exactly when it does not step; `tmax` and `tdelta` share their
/// denominator; the continuous coordinate is finite.
pub open spec fn axis_state_wf(a: AxisState) -> bool {
    &&& (a.step == -1 || a.step == 0 || a.step == 1)
    &&& (a.step == 0 <==> a.tmax.den == 0)
    &&& a.tmax.den == a.tdelta.den
    &&& a.tmax.den >= 0
    &&& (a.tmax.den == 0 ==> a.tmax.num == 1 && a.tdelta.num == 1)
    &&& a.pos.den >= 1
}

/// Well-formed traversal state: every axis well formed, and at least
/// one axis finite.
pub open spec fn state_wf(s: TraceState) -> bool {
    &&& axis_state_wf(s.x)
    &&& axis_state_wf(s.y)
    &&& axis_state_wf(s.z)
    &&& (is_fin(s.x.tmax) || is_fin(s.y.tmax) || is_fin(s.z.tmax))
}

/// In a well-formed state the selected axis is always one with a finite
/// `tmax` — an infinity never wins the minimum comparison — and hence
/// one that actually steps.
pub proof fn lemma_selected_axis_finite(s: TraceState)
    requires
        state_wf(s),
    ensures
        0 <= selected_axis(s) < 3,
        is_fin(axis_get(s, selected_axis(s)).tmax),
        axis_get(s, selected_axis(s)).step == 1 || axis_get(s, selected_axis(s)).step == -1,
{
}

/// Stepping preserves well-formedness: steps and denominators never
/// change, and only the finite selected axis advances.
pub proof fn lemma_state_step_wf(s: TraceState)
    requires
        state_wf(s),
    ensures
        state_wf(state_step(s)),
        axis_get(state_step(s), 0).step == axis_get(s, 0).step,
        axis_get(state_step(s), 1).step == axis_get(s, 1).step,
        axis_get(state_step(s), 2).step == axis_get(s, 2).step,
{
    lemma_selected_axis_finite(s);
}

/// The initial state of an accepted ray is well formed.
pub proof fn lemma_state_init_wf(r: Ray)
    requires
        ray_wf(r),
    ensures
        state_wf(state_init(r)),
{
    lemma_axis_init_wf(r.position.x@, r.direction.x@);
    lemma_axis_init_wf(r.position.y@, r.direction.y@);
    lemma_axis_init_wf(r.position.z@, r.direction.z@);
}

/// The initial state of one axis is well formed, and is finite exactly
/// when the direction component is non-zero.
pub proof fn lemma_axis_init_wf(pos: Ratio, dir: Ratio)
    requires
        frac_bounded(pos),
        frac_bounded(dir),
    ensures
        axis_state_wf(axis_init(pos, dir)),
        is_fin(axis_init(pos, dir).tmax) <==> dir.num != 0,
{
    if dir.num != 0 {
        assert(2 * pos.den * absi(dir.num) >= 1) by (nonlinear_arith)
            requires
                pos.den >= 1,
                absi(dir.num) >= 1,
        ;
    }
}

// ---------------------------------------------------------------------
// Executable traversal
// ---------------------------------------------------------------------
/// Executable per-axis cursor mirroring `AxisState`.
#[derive(Clone, Copy)]
struct AxisCursor {
    step: i64,
    voxel: i64,
    tmax: Par,
    tdelta: Par,
    pos: Frac,
}

/// Ghost value of a cursor.
spec fn cursor_view(c: AxisCursor) -> AxisState {
    AxisState {
        step: c.step as int,
        voxel: c.voxel as int,
        tmax: c.tmax@,
        tdelta: c.tdelta@,
        pos: c.pos@,
    }
}

/// Ghost state assembled from three per-axis states.
pub open spec fn mk_state(x: AxisState, y: AxisState, z: AxisState) -> TraceState {
    TraceState { x, y, z }
}

/// Numeric bounds of a cursor after `i` traversal steps; they keep all
/// comparison cross-products and updates inside machine integers.
spec fn cursor_bounded(c: AxisCursor, i: int) -> bool {
    &&& -(0x4000_0000 + i) <= c.voxel as int <= 0x4000_0000 + i
    &&& -(0x1000_0000_0000_0000_000 + i * 0x400_0000_0000) <= c.tmax.num as int
        <= 0x1000_0000_0000_0000_000 + i * 0x400_0000_0000
    &&& 0 <= c.tmax.den as int <= 0x8_0000_0000_0000
    &&& 0 <= c.tdelta.num as int <= 0x400_0000_0000
    &&& 0 <= c.tdelta.den as int <= 0x8_0000_0000_0000
    &&& 1 <= c.pos.den as int <= 0x10_0000
    &&& -(0x4000_0000 + i * 0x20_0000) <= c.pos.num as int <= 0x4000_0000 + i * 0x20_0000
}

/// The continuous coordinate moves by at most two denominators per
/// step.
proof fn lemma_step_delta_bound(step: int, den: int)
    requires
        step == 1 || step == 0 || step == -1,
        1 <= den <= 0x10_0000,
    ensures
        -0x20_0000 <= 2 * step * den <= 0x20_0000,
{
    assert(-0x20_0000 <= 2 * step * den <= 0x20_0000) by (nonlinear_arith)
        requires
            step == 1 || step == 0 || step == -1,
            1 <= den <= 0x10_0000,
    ;
}

/// Floor division (quotient rounded toward negative infinity) of a
/// bounded numerator by a positive denominator.
fn floor_div(a: i64, b: i64) -> (q: i64)
    requires
        1 <= b <= 0x10_0000,
        -0x4000_0000 <= a <= 0x4000_0000,
    ensures
        q == a as int / b as int,
        -0x4000_0000 <= q <= 0x4000_0000,
{
    proof {
        lemma_fundamental_div_mod(a as int, b as int);
        lemma_mod_division_less_than_divisor(a as int, b as int);
        let qq = a as int / b as int;
        let rr = a as int % b as int;
        assert(-0x4000_0000 <= qq <= 0x4000_0000) by (nonlinear_arith)
            requires
                a as int == b as int * qq + rr,
                0 <= rr < b as int,
                1 <= b as int <= 0x10_0000,
                -0x4000_0000 <= a as int <= 0x4000_0000,
        ;
    }
    match a.checked_div_euclid(b) {
        Some(q) => q,
        None => 0,
    }
}

/// Clamp a voxel coordinate into the grid along one dimension.
fn clamp_coord(v: i64, dim: usize) -> (c: usize)
    requires
        1 <= dim <= DIM_MAX,
    ensures
        c as int == clampi(v as int, dim as int),
        c < dim,
{
    if v < 0 {
        0
    } else if v >= dim as i64 {
        dim - 1
    } else {
        v as usize
    }
}

/// Build the executable cursor of one axis; its view is exactly the
/// ghost `axis_init` of the axis.
fn axis_setup(pos: &Frac, dir: &Frac) -> (c: AxisCursor)
    requires
        frac_bounded(pos@),
        frac_bounded(dir@),
    ensures
        cursor_view(c) == axis_init(pos@, dir@),
        cursor_bounded(c, 0),
{
    let a: i64 = pos.num;
    let b: i64 = pos.den;
    let p: i64 = dir.num;
    let q: i64 = dir.den;
    let v: i64 = floor_div(a, b);
    if p == 0 {
        AxisCursor {
            step: 0,
            voxel: v,
            tmax: Par { num: 1, den: 0 },
            tdelta: Par { num: 1, den: 0 },
            pos: Frac { num: a, den: b },
        }
    } else {
        let step: i64 = if p > 0 {
            -1
        } else {
            1
        };
        let pa: i64 = if p < 0 {
            -p
        } else {
            p
        };
        proof {
            assert((2 * v + 1 + step) * b - 2 * a <= 0x10_0000_0000_0000 && (2 * v + 1 + step) * b
                - 2 * a >= -0x10_0000_0000_0000) by (nonlinear_arith)
                requires
                    -0x4000_0000 <= v <= 0x4000_0000,
                    step == 1 || step == -1,
                    1 <= b <= 0x10_0000,
                    -0x4000_0000 <= a <= 0x4000_0000,
            ;
        }
        let nb_num: i64 = (2 * v + 1 + step) * b - 2 * a;
        proof {
            let nn = nb_num as int;
            let qq = q as int;
            let bb = b as int;
            let pp = pa as int;
            let ss = step as int;
            lemma_mul_abs_bound(nn, qq, 0x10_0000_0000_0000, 0x10_0000);
            vstd::arithmetic::mul::lemma_mul_basics(nn * qq);
            vstd::arithmetic::mul::lemma_mul_unary_negation(nn * qq, 1);
            if ss == 1 {
                assert(nn * qq * ss == nn * qq);
            } else {
                assert(nn * qq * ss == (nn * qq) * (-1));
                assert((nn * qq) * (-1) == -(nn * qq * 1));
                assert(nn * qq * 1 == nn * qq);
            }
            assert(-0x1000_0000_0000_0000_000 <= nn * qq * ss <= 0x1000_0000_0000_0000_000);
            lemma_mul_abs_bound(2 * bb, pp, 0x20_0000, 0x4000_0000);
            vstd::arithmetic::mul::lemma_mul_strictly_positive(2 * bb, pp);
            lemma_mul_abs_bound(2 * bb, qq, 0x20_0000, 0x10_0000);
            vstd::arithmetic::mul::lemma_mul_strictly_positive(2 * bb, qq);
        }
        let den: i128 = 2 * (b as i128) * (pa as i128);
        let tmax_num: i128 = (nb_num as i128) * (q as i128) * (step as i128);
        let tdelta_num: i128 = 2 * (b as i128) * (q as i128);
        AxisCursor {
            step,
            voxel: v,
            tmax: Par { num: tmax_num, den },
            tdelta: Par { num: tdelta_num, den },
            pos: Frac { num: a, den: b },
        }
    }
}

/// Traverse the grid along `ray`: visit up to `MAX_STEPS` boundary
/// crossings and return the first hit, or `None` when the budget runs
/// out.  The result is exactly what the ghost recurrence `trace_spec`
/// denotes for this ray and grid.
pub fn trace(grid: &VoxelGrid, ray: &Ray) -> (r: Option<Hit>)
    requires
        grid.wf(),
        ray_wf(*ray),
    ensures
        trace_matches(*grid, *ray, r),
{
    let mut cx = axis_setup(&ray.position.x, &ray.direction.x);
    let mut cy = axis_setup(&ray.position.y, &ray.direction.y);
    let mut cz = axis_setup(&ray.position.z, &ray.direction.z);
    proof {
        lemma_state_init_wf(*ray);
    }
    let mut i: u32 = 0;
    while i < MAX_STEPS
        invariant
            grid.wf(),
            i <= MAX_STEPS,
            state_wf(mk_state(cursor_view(cx), cursor_view(cy), cursor_view(cz))),
            cursor_bounded(cx, i as int),
            cursor_bounded(cy, i as int),
            cursor_bounded(cz, i as int),
            trace_from(*grid, mk_state(cursor_view(cx), cursor_view(cy), cursor_view(cz)), (MAX_STEPS - i) as nat) == trace_spec(
                *grid,
                *ray,
            ),
        decreases MAX_STEPS - i,
    {
        let ghost s = mk_state(cursor_view(cx), cursor_view(cy), cursor_view(cz));
        proof {
            lemma_selected_axis_finite(s);
            lemma_state_step_wf(s);
        }
        let axis: u32 = if par_lt(&cx.tmax, &cy.tmax) {
            if par_lt(&cx.tmax, &cz.tmax) {
                0
            } else {
                2
            }
        } else {
            if par_lt(&cy.tmax, &cz.tmax) {
                1
            } else {
                2
            }
        };
        let mut nx: i32 = 0;
        let mut ny: i32 = 0;
        let mut nz: i32 = 0;
        if axis == 0 {
            proof {
                lemma_step_delta_bound(cx.step as int, cx.pos.den as int);
            }
            cx.voxel = cx.voxel + cx.step;
            cx.tmax = Par { num: cx.tmax.num + cx.tdelta.num, den: cx.tmax.den };
            cx.pos = Frac { num: cx.pos.num + 2 * cx.step * cx.pos.den, den: cx.pos.den };
            nx = if cx.step == 1 {
                -1
            } else {
                1
            };
        } else if axis == 1 {
            proof {
                lemma_step_delta_bound(cy.step as int, cy.pos.den as int);
            }
            cy.voxel = cy.voxel + cy.step;
            cy.tmax = Par { num: cy.tmax.num + cy.tdelta.num, den: cy.tmax.den };
            cy.pos = Frac { num: cy.pos.num + 2 * cy.step * cy.pos.den, den: cy.pos.den };
            ny = if cy.step == 1 {
                -1
            } else {
                1
            };
        } else {
            proof {
                lemma_step_delta_bound(cz.step as int, cz.pos.den as int);
            }
            cz.voxel = cz.voxel + cz.step;
            cz.tmax = Par { num: cz.tmax.num + cz.tdelta.num, den: cz.tmax.den };
            cz.pos = Frac { num: cz.pos.num + 2 * cz.step * cz.pos.den, den: cz.pos.den };
            nz = if cz.step == 1 {
                -1
            } else {
                1
            };
        }
        proof {
            assert(mk_state(cursor_view(cx), cursor_view(cy), cursor_view(cz)) == state_step(s));
        }
        let lx = clamp_coord(cx.voxel, grid.width);
        let ly = clamp_coord(cy.voxel, grid.height);
        let lz = clamp_coord(cz.voxel, grid.depth);
        if grid.occupied(lx, ly, lz) {
            return Some(
                Hit {
                    position: Vec3 { x: cx.pos, y: cy.pos, z: cz.pos },
                    normal: Normal3 { x: nx, y: ny, z: nz },
                },
            );
        }
        i = i + 1;
    }
    None
}

} // verus!

