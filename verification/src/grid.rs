//! The occupancy grid: a fixed-size field of boolean cells, the Moore
//! adjacency query, simulation-time accumulation, and the per-frame batch of
//! random particle walks.

use vstd::prelude::*;
use vstd::pervasive::VecAdditionalExecFns;

use crate::source::RandomSource;

verus! {

/// Duration of one simulation frame, in milliseconds.
pub const FRAME_MS: u64 = 100;

/// Stickiness is a probability expressed in millionths: a particle adjacent
/// to the cluster sticks when a uniform draw below this scale falls under
/// the grid's stickiness value.
pub const STICKINESS_SCALE: u64 = 1000000;

/// How many particle walks one simulation frame attempts.
pub const PARTICLES_PER_FRAME: u64 = 60;

/// Safety bound on the length of a single walk. The algorithm itself puts no
/// cap on a walk, but a bound is needed so that every call provably returns;
/// a walk that reaches it counts as an escaped particle.
pub const DEFAULT_WALK_CAP: u64 = 1000000;

/// A rectangular field of cells on which walking particles aggregate.
///
/// `cells` is row-major: the cell `(x, y)` lives at index `y * width + x`.
/// Occupancy only ever grows within one run; a reset builds a fresh grid.
pub struct Grid<R: RandomSource> {
    pub cells: Vec<bool>,
    pub width: usize,
    pub height: usize,
    /// Simulated time not yet consumed by whole frames, in milliseconds.
    pub time_ms: u64,
    /// Probability of sticking per adjacent attempt, in millionths.
    pub stickiness: u64,
    /// Pause flag; the caller gates `advance` on it.
    pub running: bool,
    pub rng: R,
    /// Walks attempted per frame; a tunable work quantum.
    pub particles_per_frame: u64,
    /// Safety bound on the steps of one walk.
    pub walk_cap: u64,
}

/// Row-major indices stay inside the cell vector.
proof fn lemma_rowmajor_in_range(w: int, h: int, x: int, y: int)
    by (nonlinear_arith)
    requires
        0 <= x < w,
        0 <= y < h,
    ensures
        0 <= y * w + x < w * h,
{
}

/// Row-major indexing is injective over in-range coordinates.
proof fn lemma_rowmajor_injective(w: int, x1: int, y1: int, x2: int, y2: int)
    by (nonlinear_arith)
    requires
        0 <= x1 < w,
        0 <= x2 < w,
        0 <= y1,
        0 <= y2,
        y1 * w + x1 == y2 * w + x2,
    ensures
        x1 == x2 && y1 == y2,
{
}

/// A grid's sides each fit in half the address space, so coordinates one
/// step outside the field still fit in a signed machine word.
proof fn lemma_dims_bounded(w: int, h: int)
    requires
        2 <= w,
        2 <= h,
        w * h <= usize::MAX,
    ensures
        w <= usize::MAX as int / 2,
        h <= usize::MAX as int / 2,
{
    assert(2 * w <= w * h && 2 * h <= w * h) by (nonlinear_arith)
        requires 2 <= w && 2 <= h;
    assert(w <= usize::MAX as int / 2 && h <= usize::MAX as int / 2) by (nonlinear_arith)
        requires 2 * w <= usize::MAX && 2 * h <= usize::MAX;
}

/// The eight Moore-neighbourhood offsets, in a fixed order.
pub open spec fn dir_offset_spec(d: int) -> (int, int) {
    if d == 0 {
        (-1, -1)
    } else if d == 1 {
        (0, -1)
    } else if d == 2 {
        (1, -1)
    } else if d == 3 {
        (-1, 0)
    } else if d == 4 {
        (1, 0)
    } else if d == 5 {
        (-1, 1)
    } else if d == 6 {
        (0, 1)
    } else {
        (1, 1)
    }
}

/// Turns a uniform draw below eight into a Moore-neighbourhood offset.
pub fn dir_offset(d: u64) -> (r: (i64, i64))
    requires
        d < 8,
    ensures
        r.0 as int == dir_offset_spec(d as int).0,
        r.1 as int == dir_offset_spec(d as int).1,
        -1 <= r.0 <= 1,
        -1 <= r.1 <= 1,
{
    if d == 0 {
        (-1, -1)
    } else if d == 1 {
        (0, -1)
    } else if d == 2 {
        (1, -1)
    } else if d == 3 {
        (-1, 0)
    } else if d == 4 {
        (1, 0)
    } else if d == 5 {
        (-1, 1)
    } else if d == 6 {
        (0, 1)
    } else {
        (1, 1)
    }
}

/// Accumulated time left over once every whole frame has been consumed.
pub open spec fn accum_rem(t: int) -> int
    decreases t,
{
    if t > FRAME_MS as int {
        accum_rem(t - FRAME_MS as int)
    } else {
        t
    }
}

/// How many whole frames an accumulated time `t` lets the simulation run.
pub open spec fn frames_due(t: int) -> int
    decreases t,
{
    if t > FRAME_MS as int {
        1 + frames_due(t - FRAME_MS as int)
    } else {
        0
    }
}

/// The frame accumulator is additive: pouring in time in two instalments
/// leaves the same remainder, and runs the same total number of frames, as
/// pouring it in at once. This is what makes `advance` frame-quantized:
/// only the sum of the deltas matters, never how it was split.
pub proof fn lemma_accum_additive(t: int, d: int)
    requires
        0 <= t,
        0 <= d,
    ensures
        accum_rem(accum_rem(t) + d) == accum_rem(t + d),
        frames_due(t) + frames_due(accum_rem(t) + d) == frames_due(t + d),
    decreases t,
{
    if t > FRAME_MS as int {
        lemma_accum_additive(t - FRAME_MS as int, d);
    }
}

/// A frame count is never negative.
proof fn lemma_frames_due_nonneg(t: int)
    ensures
        frames_due(t) >= 0,
    decreases t,
{
    if t > FRAME_MS as int {
        lemma_frames_due_nonneg(t - FRAME_MS as int);
    }
}

impl<R: RandomSource> Grid<R> {
    /// Well-formedness: the cell vector matches the dimensions, the field is
    /// large enough to hold an interior, and stickiness is a probability.
    pub open spec fn wf(self) -> bool {
        &&& self.cells.len() == self.width * self.height
        &&& 2 <= self.width
        &&& 2 <= self.height
        &&& self.stickiness <= STICKINESS_SCALE
    }

    /// A coordinate the simulation may occupy or walk through. The zero row
    /// and column are excluded while the far row and column are not; the
    /// asymmetry is deliberate and kept for compatibility.
    pub open spec fn in_bounds_spec(self, x: int, y: int) -> bool {
        0 < x < self.width as int && 0 < y < self.height as int
    }

    /// The model of the field: whether the cell `(x, y)` is occupied.
    /// Coordinates outside the walkable area are never occupied.
    pub open spec fn occupied(self, x: int, y: int) -> bool {
        self.in_bounds_spec(x, y) && self.cells@[y * self.width as int + x]
    }

    /// Everything but time, cells and the random source: the shape and the
    /// tuning of the grid, which no simulation step may change.
    pub open spec fn same_config(self, other: Grid<R>) -> bool {
        &&& self.width == other.width
        &&& self.height == other.height
        &&& self.stickiness == other.stickiness
        &&& self.running == other.running
        &&& self.particles_per_frame == other.particles_per_frame
        &&& self.walk_cap == other.walk_cap
    }

    /// Occupancy grows monotonically: every cell occupied in `self` is
    /// occupied in `later`.
    pub open spec fn grows_to(self, later: Grid<R>) -> bool {
        forall|x: int, y: int|
            #![trigger self.occupied(x, y)]
            #![trigger later.occupied(x, y)]
            self.occupied(x, y) ==> later.occupied(x, y)
    }

    /// Some cell of the eight-cell Moore neighbourhood of `(x, y)` is
    /// occupied.
    pub open spec fn adjacent_spec(self, x: int, y: int) -> bool {
        ||| self.occupied(x - 1, y - 1)
        ||| self.occupied(x, y - 1)
        ||| self.occupied(x + 1, y - 1)
        ||| self.occupied(x - 1, y)
        ||| self.occupied(x + 1, y)
        ||| self.occupied(x - 1, y + 1)
        ||| self.occupied(x, y + 1)
        ||| self.occupied(x + 1, y + 1)
    }

    /// An empty grid: no cell occupied, no accumulated time, running.
    pub fn create_empty(rng: R, width: usize, height: usize, stickiness: u64) -> (r: Grid<R>)
        requires
            2 <= width,
            2 <= height,
            width * height <= usize::MAX,
            stickiness <= STICKINESS_SCALE,
        ensures
            r.wf(),
            r.width == width,
            r.height == height,
            r.stickiness == stickiness,
            r.time_ms == 0,
            r.running == true,
            r.rng == rng,
            r.particles_per_frame == PARTICLES_PER_FRAME,
            r.walk_cap == DEFAULT_WALK_CAP,
            forall|x: int, y: int| !r.occupied(x, y),
    {
        let total = width * height;
        let mut cells: Vec<bool> = Vec::new();
        while cells.len() < total
            invariant
                cells.len() <= total,
                forall|k: int| 0 <= k < cells@.len() ==> !cells@[k],
            decreases total - cells.len(),
        {
            cells.push(false);
        }
        let r = Grid {
            cells,
            width,
            height,
            time_ms: 0,
            stickiness,
            running: true,
            rng,
            particles_per_frame: PARTICLES_PER_FRAME,
            walk_cap: DEFAULT_WALK_CAP,
        };
        proof {
            assert forall|x: int, y: int| !r.occupied(x, y) by {
                if r.in_bounds_spec(x, y) {
                    lemma_rowmajor_in_range(width as int, height as int, x, y);
                }
            }
        }
        r
    }

    /// Whether `(x, y)` may be occupied or walked through; the query itself
    /// accepts any coordinate.
    pub fn in_bounds(&self, x: i64, y: i64) -> (r: bool)
        ensures
            r == self.in_bounds_spec(x as int, y as int),
    {
        0 < x && (x as u64) < (self.width as u64) && 0 < y && (y as u64) < (self.height as u64)
    }

    /// Occupancy query; fails closed, answering `false` for any coordinate
    /// outside the walkable area.
    pub fn is_occupied(&self, x: i64, y: i64) -> (r: bool)
        requires
            self.wf(),
        ensures
            r == self.occupied(x as int, y as int),
    {
        if self.in_bounds(x, y) {
            let xi = x as usize;
            let yi = y as usize;
            proof {
                lemma_rowmajor_in_range(
                    self.width as int,
                    self.height as int,
                    x as int,
                    y as int,
                );
            }
            self.cells[yi * self.width + xi]
        } else {
            false
        }
    }

    /// Marks `(x, y)` occupied; the caller guarantees the coordinate is
    /// walkable. Occupancy elsewhere is untouched.
    pub fn occupy(&mut self, x: i64, y: i64)
        requires
            old(self).wf(),
            old(self).in_bounds_spec(x as int, y as int),
        ensures
            final(self).wf(),
            final(self).same_config(*old(self)),
            final(self).time_ms == old(self).time_ms,
            final(self).rng == old(self).rng,
            forall|i: int, j: int|
                #![trigger final(self).occupied(i, j)]
                #![trigger old(self).occupied(i, j)]
                final(self).occupied(i, j) == (old(self).occupied(i, j) || (i == x && j == y)),
    {
        proof {
            lemma_rowmajor_in_range(self.width as int, self.height as int, x as int, y as int);
        }
        let xi = x as usize;
        let yi = y as usize;
        let idx = yi * self.width + xi;
        self.cells.set(idx, true);
        proof {
            let w = self.width as int;
            let h = self.height as int;
            assert forall|i: int, j: int|
                final(self).occupied(i, j) == (old(self).occupied(i, j) || (i == x && j == y))
            by {
                if final(self).in_bounds_spec(i, j) {
                    lemma_rowmajor_in_range(w, h, i, j);
                    if j * w + i == (y as int) * w + (x as int) {
                        lemma_rowmajor_injective(w, i, j, x as int, y as int);
                    }
                }
            }
        }
    }

    /// A grid with the single centre cell occupied: the point seed.
    pub fn create_seeded(rng: R, width: usize, height: usize, stickiness: u64) -> (r: Grid<R>)
        requires
            2 <= width,
            2 <= height,
            width * height <= usize::MAX,
            stickiness <= STICKINESS_SCALE,
        ensures
            r.wf(),
            r.width == width,
            r.height == height,
            r.stickiness == stickiness,
            r.time_ms == 0,
            r.running == true,
            r.rng == rng,
            r.particles_per_frame == PARTICLES_PER_FRAME,
            r.walk_cap == DEFAULT_WALK_CAP,
            forall|x: int, y: int|
                #[trigger] r.occupied(x, y) <==> (x == width as int / 2 && y == height as int / 2),
    {
        let mut r = Self::create_empty(rng, width, height, stickiness);
        proof {
            lemma_dims_bounded(width as int, height as int);
        }
        r.occupy((width / 2) as i64, (height / 2) as i64);
        r
    }

    /// A grid pre-seeded with the hundred cells of the spiral pattern: a cell
    /// is occupied exactly when some spiral point lands on it.
    #[verifier::rlimit(60)]
    pub fn create_spiral(rng: R, width: usize, height: usize, stickiness: u64) -> (r: Grid<R>)
        requires
            2 <= width,
            2 <= height,
            width * height <= usize::MAX,
            stickiness <= STICKINESS_SCALE,
        ensures
            r.wf(),
            r.width == width,
            r.height == height,
            r.stickiness == stickiness,
            r.time_ms == 0,
            r.running == true,
            r.rng == rng,
            r.particles_per_frame == PARTICLES_PER_FRAME,
            r.walk_cap == DEFAULT_WALK_CAP,
            forall|x: int, y: int|
                #[trigger] r.occupied(x, y) <==> (exists|k: int|
                    0 <= k < 100 && crate::spiral::spiral_point_spec(k, width as int, height as int)
                        == (x, y)),
    {
        let ghost w = width as int;
        let ghost h = height as int;
        let pts = crate::spiral::spiral_points(width, height);
        let mut r = Self::create_empty(rng, width, height, stickiness);
        let mut j: usize = 0;
        while j < 100
            invariant
                w == width as int,
                h == height as int,
                2 <= width,
                2 <= height,
                width * height <= usize::MAX,
                j <= 100,
                pts@.len() == 100,
                forall|k: int|
                    0 <= k < 100 ==> ((#[trigger] pts@[k]).0 as int, pts@[k].1 as int)
                        == crate::spiral::spiral_point_spec(k, w, h),
                forall|k: int|
                    0 <= k < 100 ==> 0 < (#[trigger] pts@[k]).0 < width && 0 < pts@[k].1 < height,
                r.wf(),
                r.width == width,
                r.height == height,
                r.stickiness == stickiness,
                r.time_ms == 0,
                r.running == true,
                r.rng == rng,
                r.particles_per_frame == PARTICLES_PER_FRAME,
                r.walk_cap == DEFAULT_WALK_CAP,
                forall|x: int, y: int|
                    #[trigger] r.occupied(x, y) <==> (exists|k: int|
                        0 <= k < j && crate::spiral::spiral_point_spec(k, w, h) == (x, y)),
            decreases 100 - j,
        {
            let ghost prev = r;
            let p = pts[j];
            proof {
                lemma_dims_bounded(w, h);
            }
            r.occupy(p.0 as i64, p.1 as i64);
            proof {
                lemma_spiral_prefix_grows(prev, r, w, h, j as int, p.0 as int, p.1 as int);
            }
            j = j + 1;
        }
        r
    }

    /// Whether any of the eight neighbours of `(x, y)` is occupied; neighbours
    /// outside the walkable area count as unoccupied.
    pub fn is_adjacent_to_occupied(&self, x: i64, y: i64) -> (r: bool)
        requires
            self.wf(),
            i64::MIN < x < i64::MAX,
            i64::MIN < y < i64::MAX,
        ensures
            r == self.adjacent_spec(x as int, y as int),
    {
        self.is_occupied(x - 1, y - 1) || self.is_occupied(x, y - 1) || self.is_occupied(
            x + 1,
            y - 1,
        ) || self.is_occupied(x - 1, y) || self.is_occupied(x + 1, y) || self.is_occupied(
            x - 1,
            y + 1,
        ) || self.is_occupied(x, y + 1) || self.is_occupied(x + 1, y + 1)
    }

    /// One stick attempt of a particle standing at the walkable cell
    /// `(x, y)`: if the cell touches the cluster and a fresh draw falls under
    /// the stickiness, the cell is occupied and the walk is over. At full
    /// stickiness an adjacent particle always sticks on the spot; at zero
    /// stickiness nothing is ever occupied.
    pub fn try_stick(&mut self, x: i64, y: i64) -> (stuck: bool)
        requires
            old(self).wf(),
            old(self).in_bounds_spec(x as int, y as int),
        ensures
            final(self).wf(),
            final(self).same_config(*old(self)),
            final(self).time_ms == old(self).time_ms,
            old(self).grows_to(*final(self)),
            stuck ==> forall|i: int, j: int|
                #![trigger final(self).occupied(i, j)]
                #![trigger old(self).occupied(i, j)]
                final(self).occupied(i, j) == (old(self).occupied(i, j) || (i == x && j == y)),
            !stuck ==> final(self).cells == old(self).cells,
            old(self).stickiness == 0 ==> !stuck,
            old(self).adjacent_spec(x as int, y as int) && old(self).stickiness
                == STICKINESS_SCALE ==> stuck,
            !old(self).adjacent_spec(x as int, y as int) ==> !stuck && final(self).rng == old(
                self,
            ).rng,
    {
        proof {
            lemma_dims_bounded(self.width as int, self.height as int);
        }
        if self.is_adjacent_to_occupied(x, y) {
            let draw = self.rng.next_below(STICKINESS_SCALE);
            if draw < self.stickiness {
                self.occupy(x, y);
                return true;
            }
        }
        false
    }

    /// One particle walk from the walkable start `(sx, sy)`: drift one Moore
    /// step at a time until the particle sticks, escapes the walkable area,
    /// or exhausts the safety bound on steps. Occupancy only ever grows; at
    /// zero stickiness the field is left untouched; and at full stickiness a
    /// walk whose start already touches the cluster occupies exactly its
    /// start cell, with no further drift.
    pub fn run_walk(&mut self, sx: i64, sy: i64)
        requires
            old(self).wf(),
            old(self).in_bounds_spec(sx as int, sy as int),
        ensures
            final(self).wf(),
            final(self).same_config(*old(self)),
            final(self).time_ms == old(self).time_ms,
            old(self).grows_to(*final(self)),
            old(self).stickiness == 0 ==> final(self).cells == old(self).cells,
            old(self).stickiness == STICKINESS_SCALE && old(self).adjacent_spec(
                sx as int,
                sy as int,
            ) ==> forall|i: int, j: int|
                #![trigger final(self).occupied(i, j)]
                #![trigger old(self).occupied(i, j)]
                final(self).occupied(i, j) == (old(self).occupied(i, j) || (i == sx && j == sy)),
    {
        let mut x = sx;
        let mut y = sy;
        if self.try_stick(x, y) {
            return ;
        }
        let mut steps: u64 = 0;
        while steps < self.walk_cap
            invariant
                self.wf(),
                self.same_config(*old(self)),
                self.time_ms == old(self).time_ms,
                old(self).grows_to(*self),
                old(self).stickiness == 0 ==> self.cells == old(self).cells,
                self.in_bounds_spec(x as int, y as int),
                !(old(self).stickiness == STICKINESS_SCALE && old(self).adjacent_spec(
                    sx as int,
                    sy as int,
                )),
            decreases self.walk_cap - steps,
        {
            let dir = self.rng.next_below(8);
            let off = dir_offset(dir);
            proof {
                lemma_dims_bounded(self.width as int, self.height as int);
            }
            let nx = x + off.0;
            let ny = y + off.1;
            if !self.in_bounds(nx, ny) {
                return ;
            }
            x = nx;
            y = ny;
            if self.try_stick(x, y) {
                return ;
            }
            steps = steps + 1;
        }
    }

    /// One discrete simulation frame: a fixed batch of independent particle
    /// walks, each from a fresh uniform walkable starting coordinate.
    pub fn update_one_frame(&mut self)
        requires
            old(self).wf(),
        ensures
            final(self).wf(),
            final(self).same_config(*old(self)),
            final(self).time_ms == old(self).time_ms,
            old(self).grows_to(*final(self)),
            old(self).stickiness == 0 ==> final(self).cells == old(self).cells,
    {
        let mut k: u64 = 0;
        while k < self.particles_per_frame
            invariant
                self.wf(),
                self.same_config(*old(self)),
                self.time_ms == old(self).time_ms,
                old(self).grows_to(*self),
                old(self).stickiness == 0 ==> self.cells == old(self).cells,
            decreases self.particles_per_frame - k,
        {
            proof {
                lemma_dims_bounded(self.width as int, self.height as int);
            }
            let sx: u64 = 1 + self.rng.next_below((self.width - 1) as u64);
            let sy: u64 = 1 + self.rng.next_below((self.height - 1) as u64);
            self.run_walk(sx as i64, sy as i64);
            k = k + 1;
        }
    }

    /// Accumulates `delta_ms` of wall-clock time and runs one discrete frame
    /// for every whole frame duration accumulated, leaving the remainder.
    /// Small deltas run no frame at all; a large delta runs several, so the
    /// simulation rate is independent of how the caller slices time.
    pub fn advance(&mut self, delta_ms: u64)
        requires
            old(self).wf(),
            old(self).time_ms + delta_ms <= u64::MAX,
        ensures
            final(self).wf(),
            final(self).same_config(*old(self)),
            final(self).time_ms == accum_rem(old(self).time_ms + delta_ms),
            old(self).grows_to(*final(self)),
            old(self).stickiness == 0 ==> final(self).cells == old(self).cells,
            frames_due(old(self).time_ms + delta_ms) == 0 ==> final(self).cells == old(
                self,
            ).cells && final(self).rng == old(self).rng,
    {
        self.time_ms = self.time_ms + delta_ms;
        let ghost total: int = self.time_ms as int;
        proof {
            lemma_frames_due_nonneg(total);
        }
        while self.time_ms > FRAME_MS
            invariant
                self.wf(),
                self.same_config(*old(self)),
                old(self).grows_to(*self),
                old(self).stickiness == 0 ==> self.cells == old(self).cells,
                accum_rem(self.time_ms as int) == accum_rem(total),
                0 <= frames_due(self.time_ms as int) <= frames_due(total),
                frames_due(total) == frames_due(self.time_ms as int) ==> self.cells == old(
                    self,
                ).cells && self.rng == old(self).rng,
            decreases self.time_ms,
        {
            proof {
                lemma_frames_due_nonneg(self.time_ms as int - FRAME_MS as int);
            }
            self.update_one_frame();
            self.time_ms = self.time_ms - FRAME_MS;
        }
    }

    /// Flips the pause flag and changes nothing else.
    pub fn toggle_running(&mut self)
        ensures
            final(self).running == !old(self).running,
            final(self).cells == old(self).cells,
            final(self).width == old(self).width,
            final(self).height == old(self).height,
            final(self).time_ms == old(self).time_ms,
            final(self).stickiness == old(self).stickiness,
            final(self).rng == old(self).rng,
            final(self).particles_per_frame == old(self).particles_per_frame,
            final(self).walk_cap == old(self).walk_cap,
    {
        self.running = !self.running;
    }

    /// How many cells of the field are occupied.
    pub fn count_occupied(&self) -> (r: usize)
        ensures
            r as nat == count_trues(self.cells@),
    {
        let mut c: usize = 0;
        let mut i: usize = 0;
        while i < self.cells.len()
            invariant
                i <= self.cells.len(),
                c <= i,
                c as nat == count_trues(self.cells@.take(i as int)),
            decreases self.cells.len() - i,
        {
            proof {
                assert(self.cells@.take(i as int + 1).drop_last() =~= self.cells@.take(i as int));
                assert(self.cells@.take(i as int + 1).last() == self.cells@[i as int]);
            }
            if self.cells[i] {
                c = c + 1;
            }
            i = i + 1;
        }
        proof {
            assert(self.cells@.take(self.cells@.len() as int) =~= self.cells@);
        }
        c
    }
}

/// How many entries of a row of cells are occupied.
pub open spec fn count_trues(s: Seq<bool>) -> nat
    decreases s.len(),
{
    if s.len() == 0 {
        0
    } else {
        count_trues(s.drop_last()) + (if s.last() {
            1nat
        } else {
            0nat
        })
    }
}

/// Occupying the next spiral point extends a field holding the first `j`
/// spiral points to one holding the first `j + 1`.
proof fn lemma_spiral_prefix_grows<R: RandomSource>(
    prev: Grid<R>,
    cur: Grid<R>,
    w: int,
    h: int,
    j: int,
    px: int,
    py: int,
)
    requires
        0 <= j,
        (px, py) == crate::spiral::spiral_point_spec(j, w, h),
        forall|x: int, y: int|
            #![trigger cur.occupied(x, y)]
            #![trigger prev.occupied(x, y)]
            cur.occupied(x, y) == (prev.occupied(x, y) || (x == px && y == py)),
        forall|x: int, y: int|
            #[trigger] prev.occupied(x, y) <==> (exists|k: int|
                0 <= k < j && crate::spiral::spiral_point_spec(k, w, h) == (x, y)),
    ensures
        forall|x: int, y: int|
            #[trigger] cur.occupied(x, y) <==> (exists|k: int|
                0 <= k < j + 1 && crate::spiral::spiral_point_spec(k, w, h) == (x, y)),
{
    assert forall|x: int, y: int| #[trigger]
        cur.occupied(x, y) <==> (exists|k: int|
            0 <= k < j + 1 && crate::spiral::spiral_point_spec(k, w, h) == (x, y)) by {
        if cur.occupied(x, y) {
            if prev.occupied(x, y) {
                let k = choose|k: int|
                    0 <= k < j && crate::spiral::spiral_point_spec(k, w, h) == (x, y);
                assert(0 <= k < j + 1 && crate::spiral::spiral_point_spec(k, w, h) == (x, y));
            } else {
                assert(crate::spiral::spiral_point_spec(j, w, h) == (x, y));
            }
        }
        if exists|k: int| 0 <= k < j + 1 && crate::spiral::spiral_point_spec(k, w, h) == (x, y) {
            let k = choose|k: int|
                0 <= k < j + 1 && crate::spiral::spiral_point_spec(k, w, h) == (x, y);
            if k < j {
                assert(prev.occupied(x, y));
            } else {
                assert((px, py) == (x, y));
            }
            assert(cur.occupied(x, y));
        }
    }
}

/// Growth composes: if a grid grows into a second and the second into a
/// third, every cell occupied in the first is still occupied in the third.
/// Together with the growth clause of each simulation step this gives the
/// monotonicity of occupancy over any two points of a run.
pub proof fn lemma_grows_transitive<R: RandomSource>(a: Grid<R>, b: Grid<R>, c: Grid<R>)
    requires
        a.grows_to(b),
        b.grows_to(c),
    ensures
        a.grows_to(c),
{
    assert forall|x: int, y: int| a.occupied(x, y) implies c.occupied(x, y) by {
        assert(b.occupied(x, y));
    }
}

/// The border invariant: a coordinate outside the walkable area — the zero
/// row or column, or anything outside the field — is never occupied.
pub proof fn lemma_unwalkable_never_occupied<R: RandomSource>(g: Grid<R>, x: int, y: int)
    requires
        !g.in_bounds_spec(x, y),
    ensures
        !g.occupied(x, y),
{
}

} // verus!
