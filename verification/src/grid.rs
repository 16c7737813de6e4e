//! Dense boolean voxel grid.
//!
//! Occupancy flags live in a flat array, linearized X fastest, then Y,
//! then Z: the voxel at `(x, y, z)` sits at flat index
//! `x + y*width + z*width*height`.  Constructors and the traversal agree
//! on this order exactly.

use vstd::prelude::*;

verus! {

/// Upper bound on each grid dimension; keeps clamped coordinate
/// arithmetic inside `i64` during traversal.
pub const DIM_MAX: usize = 0x10_0000;

/// A dense 3D occupancy grid over `width * height * depth` voxels.
pub struct VoxelGrid {
    /// Flat occupancy flags: 0 = empty, 1 = solid.
    pub voxels: Vec<u8>,
    pub width: usize,
    pub height: usize,
    pub depth: usize,
}

/// Flat index of voxel `(x, y, z)` in the X-fastest linearization.
pub open spec fn flat_index(x: int, y: int, z: int, width: int, height: int) -> int {
    x + y * width + z * width * height
}

impl VoxelGrid {
    /// Well-formed grid: positive bounded dimensions, one flag per
    /// voxel, every flag 0 or 1.
    pub open spec fn wf(self) -> bool {
        &&& 1 <= self.width <= DIM_MAX
        &&& 1 <= self.height <= DIM_MAX
        &&& 1 <= self.depth <= DIM_MAX
        &&& self.voxels@.len() == self.width * self.height * self.depth
        &&& forall|i: int|
            0 <= i < self.voxels@.len() ==> self.voxels@[i] == 0 || self.voxels@[i] == 1
    }

    /// Whether the voxel at in-range coordinate `(x, y, z)` is solid.
    pub open spec fn occ(self, x: int, y: int, z: int) -> bool
        recommends
            self.wf(),
            0 <= x < self.width,
            0 <= y < self.height,
            0 <= z < self.depth,
    {
        self.voxels@[flat_index(x, y, z, self.width as int, self.height as int)] == 1
    }

    /// Whether integer coordinate `(x, y, z)` lies inside the grid.
    pub open spec fn in_bounds(self, x: int, y: int, z: int) -> bool {
        &&& 0 <= x < self.width
        &&& 0 <= y < self.height
        &&& 0 <= z < self.depth
    }

    /// Builds an all-empty grid of the given dimensions.
    pub fn new(width: usize, height: usize, depth: usize) -> (g: VoxelGrid)
        requires
            1 <= width <= DIM_MAX,
            1 <= height <= DIM_MAX,
            1 <= depth <= DIM_MAX,
            width * height * depth <= usize::MAX,
        ensures
            g.wf(),
            g.width == width,
            g.height == height,
            g.depth == depth,
            forall|x: int, y: int, z: int| g.in_bounds(x, y, z) ==> !g.occ(x, y, z),
    {
        proof {
            assert(width * height <= width * height * depth) by (nonlinear_arith)
                requires
                    width >= 1,
                    height >= 1,
                    depth >= 1,
            ;
        }
        let n: usize = width * height * depth;
        let mut voxels: Vec<u8> = Vec::new();
        let mut i: usize = 0;
        while i < n
            invariant
                i <= n,
                voxels@.len() == i,
                forall|j: int| 0 <= j < i ==> voxels@[j] == 0,
            decreases n - i,
        {
            voxels.push(0);
            i = i + 1;
        }
        let g = VoxelGrid { voxels, width, height, depth };
        proof {
            assert forall|x: int, y: int, z: int| g.in_bounds(x, y, z) implies !g.occ(x, y, z) by {
                lemma_flat_index_in_range(
                    x,
                    y,
                    z,
                    width as int,
                    height as int,
                    depth as int,
                );
            }
        }
        g
    }

    /// Looks up the occupancy flag of an in-range voxel.  Out-of-range
    /// coordinates are a caller error: the traversal clamps before it
    /// looks anything up.
    pub fn occupied(&self, x: usize, y: usize, z: usize) -> (r: bool)
        requires
            self.wf(),
            x < self.width,
            y < self.height,
            z < self.depth,
        ensures
            r == self.occ(x as int, y as int, z as int),
    {
        proof {
            lemma_flat_index_in_range(
                x as int,
                y as int,
                z as int,
                self.width as int,
                self.height as int,
                self.depth as int,
            );
            lemma_flat_index_partials(
                x as int,
                y as int,
                z as int,
                self.width as int,
                self.height as int,
                self.depth as int,
            );
        }
        let n: usize = self.voxels.len();
        let wh: usize = self.width * self.height;
        let idx: usize = x + y * self.width + z * wh;
        self.voxels[idx] == 1
    }

    /// Writes one occupancy flag; the population interface used by the
    /// external shape generators.
    pub fn set(&mut self, x: usize, y: usize, z: usize, solid: bool)
        requires
            old(self).wf(),
            x < old(self).width,
            y < old(self).height,
            z < old(self).depth,
        ensures
            final(self).wf(),
            final(self).width == old(self).width,
            final(self).height == old(self).height,
            final(self).depth == old(self).depth,
            final(self).occ(x as int, y as int, z as int) == solid,
            forall|i: int, j: int, k: int|
                final(self).in_bounds(i, j, k) && (i != x || j != y || k != z) ==> final(self).occ(
                    i,
                    j,
                    k,
                ) == old(self).occ(i, j, k),
    {
        proof {
            lemma_flat_index_in_range(
                x as int,
                y as int,
                z as int,
                self.width as int,
                self.height as int,
                self.depth as int,
            );
            lemma_flat_index_partials(
                x as int,
                y as int,
                z as int,
                self.width as int,
                self.height as int,
                self.depth as int,
            );
        }
        let n: usize = self.voxels.len();
        let wh: usize = self.width * self.height;
        let idx: usize = x + y * self.width + z * wh;
        let flag: u8 = if solid {
            1
        } else {
            0
        };
        self.voxels.set(idx, flag);
        proof {
            assert forall|i: int, j: int, k: int|
                self.in_bounds(i, j, k) && (i != x || j != y || k != z) implies self.occ(i, j, k)
                == old(self).occ(i, j, k) by {
                lemma_flat_index_in_range(
                    i,
                    j,
                    k,
                    self.width as int,
                    self.height as int,
                    self.depth as int,
                );
                if flat_index(i, j, k, self.width as int, self.height as int) == flat_index(
                    x as int,
                    y as int,
                    z as int,
                    self.width as int,
                    self.height as int,
                ) {
                    lemma_flat_index_injective(
                        i,
                        j,
                        k,
                        x as int,
                        y as int,
                        z as int,
                        self.width as int,
                        self.height as int,
                        self.depth as int,
                    );
                }
            }
        }
    }

    /// Point-in-bounds test over signed coordinates.
    pub fn contains(&self, x: i64, y: i64, z: i64) -> (r: bool)
        requires
            self.wf(),
        ensures
            r == self.in_bounds(x as int, y as int, z as int),
    {
        0 <= x && x < self.width as i64 && 0 <= y && y < self.height as i64 && 0 <= z && z
            < self.depth as i64
    }
}

/// An in-range coordinate's flat index lies within the array.
pub proof fn lemma_flat_index_in_range(x: int, y: int, z: int, w: int, h: int, d: int)
    requires
        0 <= x < w,
        0 <= y < h,
        0 <= z < d,
    ensures
        0 <= flat_index(x, y, z, w, h) < w * h * d,
{
    assert(x + y * w + z * w * h >= 0) by (nonlinear_arith)
        requires
            x >= 0,
            y >= 0,
            z >= 0,
            w >= 1,
            h >= 1,
    ;
    assert(x + y * w + z * w * h <= (w - 1) + (h - 1) * w + (d - 1) * w * h) by (nonlinear_arith)
        requires
            0 <= x < w,
            0 <= y < h,
            0 <= z < d,
            w >= 1,
            h >= 1,
    ;
    assert((w - 1) + (h - 1) * w + (d - 1) * w * h < w * h * d) by (nonlinear_arith)
        requires
            w >= 1,
            h >= 1,
            d >= 1,
    ;
}

/// The partial sums of the flat index stay below the array length, so
/// the executable index computation cannot overflow.
pub proof fn lemma_flat_index_partials(x: int, y: int, z: int, w: int, h: int, d: int)
    requires
        0 <= x < w,
        0 <= y < h,
        0 <= z < d,
    ensures
        w * h <= w * h * d,
        y * w <= w * h * d,
        z * (w * h) <= w * h * d,
        x + y * w <= w * h * d,
        x + y * w + z * (w * h) < w * h * d,
        z * (w * h) == z * w * h,
{
    assert(w * h <= w * h * d && y * w <= w * h * d && z * (w * h) <= w * h * d && x + y * w <= w
        * h * d && x + y * w + z * (w * h) < w * h * d && z * (w * h) == z * w * h)
        by (nonlinear_arith)
        requires
            0 <= x < w,
            0 <= y < h,
            0 <= z < d,
    ;
}

/// The X-fastest linearization is injective on in-range coordinates.
pub proof fn lemma_flat_index_injective(
    x1: int,
    y1: int,
    z1: int,
    x2: int,
    y2: int,
    z2: int,
    w: int,
    h: int,
    d: int,
)
    requires
        0 <= x1 < w,
        0 <= y1 < h,
        0 <= z1 < d,
        0 <= x2 < w,
        0 <= y2 < h,
        0 <= z2 < d,
        flat_index(x1, y1, z1, w, h) == flat_index(x2, y2, z2, w, h),
    ensures
        x1 == x2,
        y1 == y2,
        z1 == z2,
{
    let m = (y2 - y1) + h * (z2 - z1);
    assert(x1 - x2 == w * m) by (nonlinear_arith)
        requires
            x1 + y1 * w + z1 * w * h == x2 + y2 * w + z2 * w * h,
            m == (y2 - y1) + h * (z2 - z1),
    ;
    assert(m == 0) by (nonlinear_arith)
        requires
            x1 - x2 == w * m,
            0 <= x1 < w,
            0 <= x2 < w,
    ;
    assert(y1 == y2 && z1 == z2) by (nonlinear_arith)
        requires
            (y2 - y1) + h * (z2 - z1) == 0,
            0 <= y1 < h,
            0 <= y2 < h,
    ;
}

} // verus!
