//! The solver: owns the particle collection and the spatial grid and runs
//! one simulation frame as a fixed sequence of sub-steps.
//!
//! Each sub-step, in strict order: gravity accumulation, grid rebuild,
//! collision resolution over the 3×3 cell neighbourhood of every occupied
//! cell, a hard boundary clamp, and Verlet integration. The whole frame is
//! specified as a pure function of the particle sequence
//! ([`update_spec`]), and `Solver::update` is proved to compute exactly
//! that function.

use vstd::arithmetic::div_mod::{lemma_div_nonincreasing, lemma_div_pos_is_pos};
use vstd::prelude::*;

use crate::config::{
    Config, CELL_CAPACITY, DT_LIMIT, GRAVITY_LIMIT, INTEGRATE_ACC_LIMIT, INTEGRATE_POS_LIMIT,
    POS_LIMIT, PREV_LIMIT, SPAWN_ACC_LIMIT, SPAWN_POS_LIMIT, SUB_STEPS,
};
use crate::grid::{empty_grid_spec, grid_insert_spec, Grid};
use crate::vertex::{accelerate_spec, integrate_spec, lemma_acc_dt_bound, Vec2, Vertex};

verus! {

// ---------------------------------------------------------------------------
// Bounds on particle state
// ---------------------------------------------------------------------------

/// Both position coordinates within the solver's hard coordinate bound.
pub open spec fn pos_in_limit(p: Vertex) -> bool {
    &&& -POS_LIMIT <= p.position.x <= POS_LIMIT
    &&& -POS_LIMIT <= p.position.y <= POS_LIMIT
}

/// Both previous-position coordinates within the solver's bound.
pub open spec fn prev_in_limit(p: Vertex) -> bool {
    &&& -PREV_LIMIT <= p.previous_position.x <= PREV_LIMIT
    &&& -PREV_LIMIT <= p.previous_position.y <= PREV_LIMIT
}

/// Both acceleration components within `bound`.
pub open spec fn acc_within(p: Vertex, bound: int) -> bool {
    &&& -bound <= p.acceleration.x <= bound
    &&& -bound <= p.acceleration.y <= bound
}

pub open spec fn all_pos_in_limit(objs: Seq<Vertex>) -> bool {
    forall|i: int| 0 <= i < objs.len() ==> pos_in_limit(#[trigger] objs[i])
}

pub open spec fn all_prev_in_limit(objs: Seq<Vertex>) -> bool {
    forall|i: int| 0 <= i < objs.len() ==> prev_in_limit(#[trigger] objs[i])
}

pub open spec fn all_acc_within(objs: Seq<Vertex>, bound: int) -> bool {
    forall|i: int| 0 <= i < objs.len() ==> acc_within(#[trigger] objs[i], bound)
}

/// What `Solver::add` asks of a new particle: coordinates and pending
/// acceleration within the spawn bounds (machine limits, far outside any
/// world).
pub open spec fn spawn_ok(p: Vertex) -> bool {
    &&& -SPAWN_POS_LIMIT <= p.position.x <= SPAWN_POS_LIMIT
    &&& -SPAWN_POS_LIMIT <= p.position.y <= SPAWN_POS_LIMIT
    &&& -SPAWN_POS_LIMIT <= p.previous_position.x <= SPAWN_POS_LIMIT
    &&& -SPAWN_POS_LIMIT <= p.previous_position.y <= SPAWN_POS_LIMIT
    &&& acc_within(p, SPAWN_ACC_LIMIT as int)
}

pub open spec fn all_spawn_ok(objs: Seq<Vertex>) -> bool {
    forall|i: int| 0 <= i < objs.len() ==> spawn_ok(#[trigger] objs[i])
}

/// What `Solver::update_positions` asks of each particle: the integration
/// bounds of `Vertex::update_position`.
pub open spec fn integrate_ok(p: Vertex) -> bool {
    &&& -INTEGRATE_POS_LIMIT <= p.position.x <= INTEGRATE_POS_LIMIT
    &&& -INTEGRATE_POS_LIMIT <= p.position.y <= INTEGRATE_POS_LIMIT
    &&& -INTEGRATE_POS_LIMIT <= p.previous_position.x <= INTEGRATE_POS_LIMIT
    &&& -INTEGRATE_POS_LIMIT <= p.previous_position.y <= INTEGRATE_POS_LIMIT
    &&& acc_within(p, INTEGRATE_ACC_LIMIT as int)
}

pub open spec fn all_integrate_ok(objs: Seq<Vertex>) -> bool {
    forall|i: int| 0 <= i < objs.len() ==> integrate_ok(#[trigger] objs[i])
}

// ---------------------------------------------------------------------------
// Phase 1: gravity
// ---------------------------------------------------------------------------

/// Every particle accumulates the gravity vector.
pub open spec fn apply_gravity_spec(objs: Seq<Vertex>, gravity: Vec2) -> Seq<Vertex> {
    Seq::new(objs.len(), |i: int| accelerate_spec(objs[i], gravity))
}

// ---------------------------------------------------------------------------
// Phase 2: grid rebuild
// ---------------------------------------------------------------------------

/// The grid contents after inserting particles `k..` of `objs`, each at its
/// current position under its own index, into `cells`.
pub open spec fn build_grid_from(
    config: Config,
    objs: Seq<Vertex>,
    cells: Seq<Seq<usize>>,
    k: int,
) -> Seq<Seq<usize>>
    decreases objs.len() - k,
{
    if k < 0 || k >= objs.len() {
        cells
    } else {
        build_grid_from(
            config,
            objs,
            grid_insert_spec(config, cells, objs[k].position.x, objs[k].position.y, k as usize),
            k + 1,
        )
    }
}

/// The freshly rebuilt grid: cleared, then every particle inserted in index
/// order.
pub open spec fn build_grid_spec(config: Config, objs: Seq<Vertex>) -> Seq<Seq<usize>> {
    build_grid_from(config, objs, empty_grid_spec(config), 0)
}

/// Every index stored anywhere in the grid refers into a particle
/// collection of length `n`.
pub open spec fn grid_indices_ok(cells: Seq<Seq<usize>>, n: int) -> bool {
    forall|c: int, p: int|
        0 <= c < cells.len() && 0 <= p < cells[c].len() ==> (#[trigger] cells[c][p]) < n
}

/// Inserting an in-range index keeps every stored index in range.
proof fn lemma_grid_insert_indices(
    config: Config,
    cells: Seq<Seq<usize>>,
    x: i64,
    y: i64,
    id: usize,
    n: int,
)
    requires
        config.wf(),
        cells.len() == config.grid_width * config.grid_height,
        grid_indices_ok(cells, n),
        (id as int) < n,
    ensures
        grid_indices_ok(grid_insert_spec(config, cells, x, y, id), n),
        grid_insert_spec(config, cells, x, y, id).len() == cells.len(),
{
    let inserted = grid_insert_spec(config, cells, x, y, id);
    if x < 0 || y < 0 {
        assert(inserted == cells);
    } else {
        let column = x / config.cell_width;
        let row = y / config.cell_width;
        if column >= config.grid_width || row >= config.grid_height {
            assert(inserted == cells);
        } else {
            let target = row * config.grid_width + column;
            assert(0 <= column && 0 <= row) by {
                vstd::arithmetic::div_mod::lemma_div_pos_is_pos(x as int, config.cell_width as int);
                vstd::arithmetic::div_mod::lemma_div_pos_is_pos(y as int, config.cell_width as int);
            }
            crate::grid::lemma_cell_index_in_range(
                config.grid_width as int,
                config.grid_height as int,
                column as int,
                row as int,
            );
            let new_cell = crate::grid::cell_add_spec(cells[target as int], id);
            assert(inserted == cells.update(target as int, new_cell));
            assert forall|c: int, p: int|
                0 <= c < inserted.len() && 0 <= p < inserted[c].len() implies (
            #[trigger] inserted[c][p]) < n by {
                if c == target as int {
                    assert(inserted[c] == new_cell);
                    if cells[c].len() < CELL_CAPACITY {
                        assert(new_cell == cells[c].push(id));
                    } else {
                        assert(new_cell == cells[c]);
                    }
                    if p < cells[c].len() {
                        assert(inserted[c][p] == cells[c][p]);
                        assert(cells[c][p] < n);
                    } else {
                        assert(inserted[c][p] == id);
                    }
                } else {
                    assert(inserted[c] == cells[c]);
                    assert(cells[c][p] < n);
                }
            }
        }
    }
}

/// A grid built from particle indices `0 .. objs.len()` holds only indices
/// into `objs`.
proof fn lemma_build_grid_from_indices(
    config: Config,
    objs: Seq<Vertex>,
    cells: Seq<Seq<usize>>,
    k: int,
)
    requires
        config.wf(),
        cells.len() == config.grid_width * config.grid_height,
        grid_indices_ok(cells, objs.len() as int),
    ensures
        grid_indices_ok(build_grid_from(config, objs, cells, k), objs.len() as int),
    decreases objs.len() - k,
{
    if 0 <= k < objs.len() {
        lemma_grid_insert_indices(
            config,
            cells,
            objs[k].position.x,
            objs[k].position.y,
            k as usize,
            objs.len() as int,
        );
        lemma_build_grid_from_indices(
            config,
            objs,
            grid_insert_spec(config, cells, objs[k].position.x, objs[k].position.y, k as usize),
            k + 1,
        );
    }
}

// ---------------------------------------------------------------------------
// Phase 3: collision resolution
// ---------------------------------------------------------------------------

/// `r` is the integer square root of `n`.
pub open spec fn is_isqrt(n: int, r: int) -> bool {
    0 <= r && r * r <= n && n < (r + 1) * (r + 1)
}

/// The integer square root of `n` (for `n >= 0` it exists and is unique).
pub open spec fn sqrt_val(n: int) -> int {
    choose|r: int| is_isqrt(n, r)
}

/// The positional correction along one axis: the axis component `d` scaled
/// by half the overlap `delta`, divided by the distance — the integer form
/// of `0.5 * delta * d / dist`, rounded toward zero.
pub open spec fn corr_spec(d: int, delta: int, dist: int) -> int {
    if d >= 0 {
        (d * delta) / (2 * dist)
    } else {
        -((-d) * delta / (2 * dist))
    }
}

/// One pair resolution. Distinct particles strictly closer than
/// `cell_width` (and not exactly coincident, where no separation axis
/// exists) are moved by exactly opposite corrections: half the overlap
/// each, along the axis between them. A correction that would push a
/// coordinate beyond the hard bound `POS_LIMIT` is skipped, so the
/// arithmetic can never overflow.
pub open spec fn collide_pair_spec(config: Config, objs: Seq<Vertex>, i: int, j: int) -> Seq<
    Vertex,
> {
    if i == j || i < 0 || i >= objs.len() || j < 0 || j >= objs.len() {
        objs
    } else {
        let dx = objs[i].position.x - objs[j].position.x;
        let dy = objs[i].position.y - objs[j].position.y;
        let d2 = dx * dx + dy * dy;
        if d2 <= 0 || d2 >= config.cell_width * config.cell_width {
            objs
        } else {
            let dist = sqrt_val(d2);
            let delta = config.cell_width - dist;
            let cx = corr_spec(dx, delta, dist);
            let cy = corr_spec(dy, delta, dist);
            let n1x = objs[i].position.x + cx;
            let n1y = objs[i].position.y + cy;
            let n2x = objs[j].position.x - cx;
            let n2y = objs[j].position.y - cy;
            if -POS_LIMIT <= n1x <= POS_LIMIT && -POS_LIMIT <= n1y <= POS_LIMIT && -POS_LIMIT
                <= n2x <= POS_LIMIT && -POS_LIMIT <= n2y <= POS_LIMIT {
                objs.update(
                    i,
                    Vertex { position: Vec2 { x: n1x as i64, y: n1y as i64 }, ..objs[i] },
                ).update(j, Vertex { position: Vec2 { x: n2x as i64, y: n2y as i64 }, ..objs[j] })
            } else {
                objs
            }
        }
    }
}

/// Particle `i` resolved against the particles listed in `list`, from
/// position `p` on, in order.
pub open spec fn collide_pairs_from(
    config: Config,
    objs: Seq<Vertex>,
    i: int,
    list: Seq<usize>,
    p: int,
) -> Seq<Vertex>
    decreases list.len() - p,
{
    if p < 0 || p >= list.len() {
        objs
    } else {
        collide_pairs_from(
            config,
            collide_pair_spec(config, objs, i, list[p] as int),
            i,
            list,
            p + 1,
        )
    }
}

/// Particle `i` resolved against the occupants of the 3×3 neighbourhood of
/// cell `(row, col)`, neighbour `n` (of 9, row-major over the offsets) on;
/// neighbours outside the grid are skipped, with no wrap-around.
pub open spec fn collide_neighbors_from(
    config: Config,
    cells: Seq<Seq<usize>>,
    objs: Seq<Vertex>,
    i: int,
    row: int,
    col: int,
    n: int,
) -> Seq<Vertex>
    decreases 9 - n,
{
    if n < 0 || n >= 9 {
        objs
    } else {
        let r = row + n / 3 - 1;
        let c = col + n % 3 - 1;
        let resolved = if 0 <= r < config.grid_height && 0 <= c < config.grid_width {
            collide_pairs_from(config, objs, i, cells[r * config.grid_width + c], 0)
        } else {
            objs
        };
        collide_neighbors_from(config, cells, resolved, i, row, col, n + 1)
    }
}

/// The occupants of cell `(row, col)` from position `p` on, each resolved
/// against its whole 3×3 neighbourhood.
pub open spec fn collide_cell_from(
    config: Config,
    cells: Seq<Seq<usize>>,
    objs: Seq<Vertex>,
    row: int,
    col: int,
    p: int,
) -> Seq<Vertex>
    decreases cells[row * config.grid_width + col].len() - p,
{
    let list = cells[row * config.grid_width + col];
    if p < 0 || p >= list.len() {
        objs
    } else {
        collide_cell_from(
            config,
            cells,
            collide_neighbors_from(config, cells, objs, list[p] as int, row, col, 0),
            row,
            col,
            p + 1,
        )
    }
}

/// The collision phase from cell `(row, col)` on, visiting cells in
/// row-major order.
pub open spec fn collide_cells_from(
    config: Config,
    cells: Seq<Seq<usize>>,
    objs: Seq<Vertex>,
    row: int,
    col: int,
) -> Seq<Vertex>
    decreases config.grid_height - row, config.grid_width + 1 - col,
{
    if row < 0 || col < 0 || row >= config.grid_height {
        objs
    } else if col >= config.grid_width {
        collide_cells_from(config, cells, objs, row + 1, 0)
    } else {
        collide_cells_from(
            config,
            cells,
            collide_cell_from(config, cells, objs, row, col, 0),
            row,
            col + 1,
        )
    }
}

/// One whole collision-resolution pass over the grid.
pub open spec fn collide_phase_spec(
    config: Config,
    cells: Seq<Seq<usize>>,
    objs: Seq<Vertex>,
) -> Seq<Vertex> {
    collide_cells_from(config, cells, objs, 0, 0)
}

// ---------------------------------------------------------------------------
// Phase 4: boundary constraint
// ---------------------------------------------------------------------------

/// One axis of the hard clamp into `[radius, extent - radius]`.
pub open spec fn clamp_coord_spec(v: i64, radius: i64, extent: i64) -> i64 {
    if v - radius <= 0 {
        radius
    } else if v + radius >= extent {
        (extent - radius) as i64
    } else {
        v
    }
}

/// The fully inelastic boundary clamp: each axis independently, previous
/// position untouched (so the implicit velocity reflects the clamp as a
/// discontinuity — an infinitely stiff, zero-restitution wall).
pub open spec fn clamp_spec(config: Config, p: Vertex) -> Vertex {
    Vertex {
        position: Vec2 {
            x: clamp_coord_spec(p.position.x, config.radius, config.world_width),
            y: clamp_coord_spec(p.position.y, config.radius, config.world_height),
        },
        ..p
    }
}

pub open spec fn apply_constraints_spec(config: Config, objs: Seq<Vertex>) -> Seq<Vertex> {
    Seq::new(objs.len(), |i: int| clamp_spec(config, objs[i]))
}

/// A position inside the legal band `[radius, extent - radius]` on both
/// axes.
pub open spec fn in_world(config: Config, p: Vertex) -> bool {
    &&& config.radius <= p.position.x <= config.world_width - config.radius
    &&& config.radius <= p.position.y <= config.world_height - config.radius
}

// ---------------------------------------------------------------------------
// Phase 5: integration
// ---------------------------------------------------------------------------

pub open spec fn update_positions_spec(objs: Seq<Vertex>, dt: int) -> Seq<Vertex> {
    Seq::new(objs.len(), |i: int| integrate_spec(objs[i], dt))
}

// ---------------------------------------------------------------------------
// A whole sub-step and a whole frame
// ---------------------------------------------------------------------------

/// One sub-step: gravity, grid rebuild, collision resolution, boundary
/// clamp, integration — in that order, nothing else.
pub open spec fn substep_spec(
    config: Config,
    objs: Seq<Vertex>,
    gravity: Vec2,
    sub_dt: int,
) -> Seq<Vertex> {
    let accelerated = apply_gravity_spec(objs, gravity);
    let cells = build_grid_spec(config, accelerated);
    let collided = collide_phase_spec(config, cells, accelerated);
    let clamped = apply_constraints_spec(config, collided);
    update_positions_spec(clamped, sub_dt)
}

/// `n` sub-steps in sequence.
pub open spec fn update_steps_spec(
    config: Config,
    objs: Seq<Vertex>,
    gravity: Vec2,
    sub_dt: int,
    n: int,
) -> Seq<Vertex>
    decreases n,
{
    if n <= 0 {
        objs
    } else {
        update_steps_spec(
            config,
            substep_spec(config, objs, gravity, sub_dt),
            gravity,
            sub_dt,
            n - 1,
        )
    }
}

/// One frame: `SUB_STEPS` sub-steps of `dt / SUB_STEPS` ticks each.
///
/// Gravity is accumulated once per sub-step, un-scaled by the sub-step
/// width, while integration uses the smaller `dt / SUB_STEPS`: relative to
/// the integration granularity, gravity acts about `SUB_STEPS` times as
/// strongly as its nominal value. The asymmetry is part of the engine's
/// tuning and is kept as it is.
pub open spec fn update_spec(config: Config, objs: Seq<Vertex>, gravity: Vec2, dt: int) -> Seq<
    Vertex,
> {
    update_steps_spec(config, objs, gravity, dt / (SUB_STEPS as int), SUB_STEPS as int)
}

// ---------------------------------------------------------------------------
// Arithmetic helpers
// ---------------------------------------------------------------------------

/// The square of a value bounded by `b` is bounded by `b * b`.
proof fn lemma_square_le(a: int, b: int)
    by (nonlinear_arith)
    requires
        -b <= a <= b,
        0 <= b,
    ensures
        0 <= a * a <= b * b,
{
}

/// A value whose square is below `b * b` is strictly within `(-b, b)`.
proof fn lemma_abs_lt_of_square_lt(a: int, b: int)
    by (nonlinear_arith)
    requires
        0 < b,
        a * a < b * b,
    ensures
        -b < a < b,
{
}

/// The integer square root is unique.
proof fn lemma_isqrt_unique(n: int, a: int, b: int)
    by (nonlinear_arith)
    requires
        0 <= a,
        a * a <= n,
        n < (a + 1) * (a + 1),
        0 <= b,
        b * b <= n,
        n < (b + 1) * (b + 1),
    ensures
        a == b,
{
}

/// The integer square root of `n`: the largest `r` with `r * r <= n`,
/// found by binary search.
pub fn isqrt(n: u64) -> (r: u64)
    requires
        n < 0x4000_0000_0000_0000,
    ensures
        r * r <= n,
        n < (r + 1) * (r + 1),
        r == sqrt_val(n as int),
{
    let mut lo: u64 = 0;
    let mut hi: u64 = 0x8000_0000;
    while lo + 1 < hi
        invariant
            lo < hi <= 0x8000_0000,
            lo * lo <= n,
            n < hi * hi,
            n < 0x4000_0000_0000_0000,
        decreases hi - lo,
    {
        let mid = lo + (hi - lo) / 2;
        proof {
            assert(mid * mid <= 0x4000_0000_0000_0000) by (nonlinear_arith)
                requires 0 <= mid <= 0x8000_0000;
        }
        if mid * mid <= n {
            lo = mid;
        } else {
            hi = mid;
        }
    }
    proof {
        assert(is_isqrt(n as int, lo as int));
        assert(is_isqrt(n as int, sqrt_val(n as int))) by {
            assert(exists|r: int| is_isqrt(n as int, r)) by {
                assert(is_isqrt(n as int, lo as int));
            }
        }
        lemma_isqrt_unique(
            n as int,
            lo as int,
            sqrt_val(n as int),
        );
    }
    lo
}

// ---------------------------------------------------------------------------
// The solver
// ---------------------------------------------------------------------------

/// Owns the gravity vector, the growable particle collection, and the grid.
///
/// Particle indices — in grid cells and in the contracts — refer to the
/// particle collection in insertion order; growth is append-only, so an
/// index never moves.
#[derive(Debug)]
pub struct Solver {
    gravity: Vec2,
    objects: Vec<Vertex>,
    grid: Grid,
    config: Config,
}

impl Solver {
    /// The particle sequence.
    pub closed spec fn objs(self) -> Seq<Vertex> {
        self.objects@
    }

    /// The current gravity vector.
    pub closed spec fn spec_gravity(self) -> Vec2 {
        self.gravity
    }

    /// The configuration.
    pub closed spec fn spec_config(self) -> Config {
        self.config
    }

    /// The grid's current cell contents.
    pub closed spec fn grid_cells(self) -> Seq<Seq<usize>> {
        self.grid@
    }

    /// The solver's invariant: a well-formed configuration and grid that
    /// agree, gravity within bounds, and every particle within the hard
    /// coordinate bounds.
    pub open spec fn wf(self) -> bool {
        &&& self.spec_config().wf()
        &&& self.grid_wf()
        &&& -GRAVITY_LIMIT <= self.spec_gravity().x <= GRAVITY_LIMIT
        &&& -GRAVITY_LIMIT <= self.spec_gravity().y <= GRAVITY_LIMIT
        &&& all_pos_in_limit(self.objs())
        &&& all_prev_in_limit(self.objs())
        &&& all_acc_within(self.objs(), SPAWN_ACC_LIMIT as int)
    }

    /// The grid part of the invariant.
    pub closed spec fn grid_wf(self) -> bool {
        &&& self.grid.wf()
        &&& self.grid.spec_config() == self.config
    }

    /// A new solver over `objects`, with the default downward gravity.
    pub fn new(config: Config, objects: Vec<Vertex>) -> (r: Solver)
        requires
            config.wf(),
            all_spawn_ok(objects@),
        ensures
            r.wf(),
            r.spec_config() == config,
            r.objs() == objects@,
            r.spec_gravity() == (Vec2 { x: 0i64, y: -1000i64 }),
    {
        let r = Solver { gravity: Vec2 { x: 0, y: -1000 }, objects, grid: Grid::new(config), config };
        proof {
            lemma_spawn_ok_bounds(r.objs());
        }
        r
    }

    /// Appends a new particle; earlier indices stay valid.
    pub fn add(&mut self, object: Vertex)
        requires
            old(self).wf(),
            spawn_ok(object),
        ensures
            final(self).wf(),
            final(self).objs() == old(self).objs().push(object),
            final(self).spec_gravity() == old(self).spec_gravity(),
            final(self).spec_config() == old(self).spec_config(),
            final(self).grid_cells() == old(self).grid_cells(),
    {
        self.objects.push(object);
    }

    /// The particles, in insertion order: a read-only view for the
    /// rendering collaborator, stable between `update` calls.
    pub fn get_objects(&self) -> (r: &Vec<Vertex>)
        ensures
            r@ == self.objs(),
    {
        &self.objects
    }

    /// Replaces the gravity vector, effective from the next `update`.
    pub fn change_gravity(&mut self, x: i64, y: i64)
        requires
            old(self).wf(),
            -GRAVITY_LIMIT <= x <= GRAVITY_LIMIT,
            -GRAVITY_LIMIT <= y <= GRAVITY_LIMIT,
        ensures
            final(self).wf(),
            final(self).spec_gravity() == (Vec2 { x: x, y: y }),
            final(self).objs() == old(self).objs(),
            final(self).spec_config() == old(self).spec_config(),
            final(self).grid_cells() == old(self).grid_cells(),
    {
        self.gravity = Vec2 { x, y };
    }

    /// Gravity application: every particle accumulates the gravity vector
    /// once. The time step plays no role here — gravity enters un-scaled
    /// each sub-step, the engine's deliberate timestep asymmetry — so the
    /// parameter is unused, as it is in the frame loop.
    pub fn apply_gravity(&mut self, _dt: i64)
        requires
            -GRAVITY_LIMIT <= old(self).spec_gravity().x <= GRAVITY_LIMIT,
            -GRAVITY_LIMIT <= old(self).spec_gravity().y <= GRAVITY_LIMIT,
            all_acc_within(old(self).objs(), 2 * SPAWN_ACC_LIMIT as int),
        ensures
            final(self).objs() == apply_gravity_spec(old(self).objs(), old(self).spec_gravity()),
            final(self).spec_gravity() == old(self).spec_gravity(),
            final(self).spec_config() == old(self).spec_config(),
            final(self).grid_cells() == old(self).grid_cells(),
            final(self).grid_wf() == old(self).grid_wf(),
    {
        let n = self.objects.len();
        let g = self.gravity;
        let mut i: usize = 0;
        while i < n
            invariant
                i <= n,
                n == self.objects@.len(),
                n == old(self).objs().len(),
                g == old(self).gravity,
                self.gravity == old(self).gravity,
                self.config == old(self).config,
                self.grid == old(self).grid,
                -GRAVITY_LIMIT <= g.x <= GRAVITY_LIMIT,
                -GRAVITY_LIMIT <= g.y <= GRAVITY_LIMIT,
                all_acc_within(old(self).objs(), 2 * SPAWN_ACC_LIMIT as int),
                forall|k: int|
                    0 <= k < i ==> #[trigger] self.objects@[k] == accelerate_spec(
                        old(self).objs()[k],
                        g,
                    ),
                forall|k: int| i <= k < n ==> #[trigger] self.objects@[k] == old(self).objs()[k],
            decreases n - i,
        {
            proof {
                assert(acc_within(old(self).objs()[i as int], 2 * SPAWN_ACC_LIMIT as int));
            }
            let obj = &mut self.objects[i];
            obj.accelerate(g);
            i = i + 1;
        }
        proof {
            assert(self.objects@ =~= apply_gravity_spec(
                old(self).objs(),
                old(self).spec_gravity(),
            ));
        }
    }

    /// Grid rebuild: clears every cell, then inserts every particle at its
    /// current position under its own index, in index order.
    pub fn add_objects_to_grid(&mut self)
        requires
            old(self).spec_config().wf(),
            old(self).grid_wf(),
        ensures
            final(self).grid_cells() == build_grid_spec(old(self).spec_config(), old(self).objs()),
            final(self).grid_wf(),
            final(self).objs() == old(self).objs(),
            final(self).spec_gravity() == old(self).spec_gravity(),
            final(self).spec_config() == old(self).spec_config(),
            grid_indices_ok(final(self).grid_cells(), old(self).objs().len() as int),
    {
        let ghost cfg = self.config;
        let ghost objs = self.objects@;
        self.grid.clear();
        let n = self.objects.len();
        let mut i: usize = 0;
        while i < n
            invariant
                i <= n,
                n == self.objects@.len(),
                self.objects@ == objs,
                self.gravity == old(self).gravity,
                self.config == old(self).config,
                cfg == self.config,
                self.config.wf(),
                self.grid.wf(),
                self.grid.spec_config() == self.config,
                build_grid_from(cfg, objs, self.grid@, i as int) == build_grid_spec(cfg, objs),
            decreases n - i,
        {
            let x = self.objects[i].position.x;
            let y = self.objects[i].position.y;
            self.grid.add_object(x, y, i);
            i = i + 1;
        }
        proof {
            assert(build_grid_from(cfg, objs, self.grid@, n as int) == self.grid@);
            assert(grid_indices_ok(empty_grid_spec(cfg), objs.len() as int));
            lemma_build_grid_from_indices(cfg, objs, empty_grid_spec(cfg), 0);
        }
    }

    /// Boundary constraint: clamps every particle's position into
    /// `[radius, world - radius]` per axis, independently — a hard, fully
    /// inelastic clamp that leaves the previous position untouched.
    ///
    /// Whatever the input — particles initialised outside the world
    /// included — afterwards every particle lies inside the legal band on
    /// both axes.
    pub fn apply_constraints(&mut self)
        requires
            old(self).spec_config().wf(),
            all_pos_in_limit(old(self).objs()),
        ensures
            final(self).objs() == apply_constraints_spec(
                old(self).spec_config(),
                old(self).objs(),
            ),
            forall|k: int|
                0 <= k < final(self).objs().len() ==> in_world(
                    old(self).spec_config(),
                    #[trigger] final(self).objs()[k],
                ),
            all_pos_in_limit(final(self).objs()),
            final(self).spec_gravity() == old(self).spec_gravity(),
            final(self).spec_config() == old(self).spec_config(),
            final(self).grid_cells() == old(self).grid_cells(),
            final(self).grid_wf() == old(self).grid_wf(),
    {
        let radius = self.config.radius;
        let world_width = self.config.world_width;
        let world_height = self.config.world_height;
        let n = self.objects.len();
        let mut i: usize = 0;
        while i < n
            invariant
                i <= n,
                n == self.objects@.len(),
                n == old(self).objs().len(),
                self.gravity == old(self).gravity,
                self.config == old(self).config,
                self.grid == old(self).grid,
                radius == self.config.radius,
                world_width == self.config.world_width,
                world_height == self.config.world_height,
                self.config.wf(),
                all_pos_in_limit(old(self).objs()),
                forall|k: int|
                    0 <= k < i ==> #[trigger] self.objects@[k] == clamp_spec(
                        self.config,
                        old(self).objs()[k],
                    ),
                forall|k: int| i <= k < n ==> #[trigger] self.objects@[k] == old(self).objs()[k],
            decreases n - i,
        {
            proof {
                assert(pos_in_limit(old(self).objs()[i as int]));
            }
            let obj = &mut self.objects[i];
            if obj.position.x - radius <= 0 {
                obj.position.x = radius;
            } else if obj.position.x + radius >= world_width {
                obj.position.x = world_width - radius;
            }
            if obj.position.y - radius <= 0 {
                obj.position.y = radius;
            } else if obj.position.y + radius >= world_height {
                obj.position.y = world_height - radius;
            }
            i = i + 1;
        }
        proof {
            assert(self.objects@ =~= apply_constraints_spec(
                old(self).spec_config(),
                old(self).objs(),
            ));
            assert forall|k: int| 0 <= k < self.objects@.len() implies in_world(
                old(self).spec_config(),
                #[trigger] self.objects@[k],
            ) && pos_in_limit(self.objects@[k]) by {
                assert(self.objects@[k] == clamp_spec(old(self).spec_config(), old(self).objs()[k]));
            }
        }
    }

    /// Integration: every particle takes one Verlet step of `dt` ticks.
    pub fn update_positions(&mut self, dt: i64)
        requires
            0 <= dt <= DT_LIMIT,
            all_integrate_ok(old(self).objs()),
        ensures
            final(self).objs() == update_positions_spec(old(self).objs(), dt as int),
            final(self).spec_gravity() == old(self).spec_gravity(),
            final(self).spec_config() == old(self).spec_config(),
            final(self).grid_cells() == old(self).grid_cells(),
            final(self).grid_wf() == old(self).grid_wf(),
    {
        let n = self.objects.len();
        let mut i: usize = 0;
        while i < n
            invariant
                i <= n,
                n == self.objects@.len(),
                n == old(self).objs().len(),
                0 <= dt <= DT_LIMIT,
                self.gravity == old(self).gravity,
                self.config == old(self).config,
                self.grid == old(self).grid,
                all_integrate_ok(old(self).objs()),
                forall|k: int|
                    0 <= k < i ==> #[trigger] self.objects@[k] == integrate_spec(
                        old(self).objs()[k],
                        dt as int,
                    ),
                forall|k: int| i <= k < n ==> #[trigger] self.objects@[k] == old(self).objs()[k],
            decreases n - i,
        {
            proof {
                assert(integrate_ok(old(self).objs()[i as int]));
            }
            let obj = &mut self.objects[i];
            obj.update_position(dt);
            i = i + 1;
        }
        proof {
            assert(self.objects@ =~= update_positions_spec(old(self).objs(), dt as int));
        }
    }

    /// One pair resolution, exactly [`collide_pair_spec`]: self-pairs are
    /// skipped, and two distinct particles strictly closer than
    /// `cell_width` move by equal and opposite half-overlap corrections.
    pub fn collide_objects(
        config: &Config,
        objects: &mut Vec<Vertex>,
        object_1_idx: usize,
        object_2_idx: usize,
    )
        requires
            config.wf(),
            object_1_idx < old(objects).len(),
            object_2_idx < old(objects).len(),
            all_pos_in_limit(old(objects)@),
        ensures
            final(objects)@ == collide_pair_spec(
                *config,
                old(objects)@,
                object_1_idx as int,
                object_2_idx as int,
            ),
            all_pos_in_limit(final(objects)@),
            final(objects)@.len() == old(objects)@.len(),
            forall|k: int|
                0 <= k < old(objects)@.len() ==> (#[trigger] final(objects)@[k]).previous_position
                    == old(objects)@[k].previous_position && final(objects)@[k].acceleration
                    == old(objects)@[k].acceleration && final(objects)@[k].color
                    == old(objects)@[k].color,
    {
        let ghost orig = objects@;
        let ghost gi = object_1_idx as int;
        let ghost gj = object_2_idx as int;
        if object_1_idx == object_2_idx {
            return;
        }
        let lhs_pos = objects[object_1_idx].position;
        let rhs_pos = objects[object_2_idx].position;
        proof {
            assert(pos_in_limit(orig[gi]));
            assert(pos_in_limit(orig[gj]));
        }
        let dx = lhs_pos.x - rhs_pos.x;
        let dy = lhs_pos.y - rhs_pos.y;
        proof {
            lemma_square_le(dx as int, 2 * POS_LIMIT as int);
            lemma_square_le(dy as int, 2 * POS_LIMIT as int);
        }
        let d2 = (dx as i128) * (dx as i128) + (dy as i128) * (dy as i128);
        let cw = config.cell_width;
        proof {
            lemma_square_le(cw as int, 0x4_0000);
        }
        let cw2 = (cw as i128) * (cw as i128);
        if d2 <= 0 || d2 >= cw2 {
            return;
        }
        proof {
            lemma_abs_lt_of_square_lt(dx as int, cw as int);
            lemma_abs_lt_of_square_lt(dy as int, cw as int);
        }
        let dist = isqrt(d2 as u64);
        proof {
            assert(1 <= dist) by (nonlinear_arith)
                requires
                    1 <= d2 as int,
                    (d2 as int) < (dist as int + 1) * (dist as int + 1),
                    0 <= dist;
            assert((dist as int) * (dist as int) < (cw as int) * (cw as int));
            lemma_abs_lt_of_square_lt(dist as int, cw as int);
        }
        let delta = (cw as u64) - dist;
        let adx: u64 = if dx >= 0 {
            dx as u64
        } else {
            (-dx) as u64
        };
        let ady: u64 = if dy >= 0 {
            dy as u64
        } else {
            (-dy) as u64
        };
        proof {
            assert(adx * delta < 0x10_0000_0000) by (nonlinear_arith)
                requires
                    0 <= adx < 0x4_0000,
                    0 <= delta < 0x4_0000;
            assert(ady * delta < 0x10_0000_0000) by (nonlinear_arith)
                requires
                    0 <= ady < 0x4_0000,
                    0 <= delta < 0x4_0000;
            lemma_div_nonincreasing((adx * delta) as int, (2 * dist) as int);
            lemma_div_nonincreasing((ady * delta) as int, (2 * dist) as int);
        }
        let cx_mag = adx * delta / (2 * dist);
        let cy_mag = ady * delta / (2 * dist);
        let cx: i64 = if dx >= 0 {
            cx_mag as i64
        } else {
            -(cx_mag as i64)
        };
        let cy: i64 = if dy >= 0 {
            cy_mag as i64
        } else {
            -(cy_mag as i64)
        };
        proof {
            assert(cx == corr_spec(dx as int, (cw - dist) as int, dist as int));
            assert(cy == corr_spec(dy as int, (cw - dist) as int, dist as int));
        }
        let n1x = lhs_pos.x + cx;
        let n1y = lhs_pos.y + cy;
        let n2x = rhs_pos.x - cx;
        let n2y = rhs_pos.y - cy;
        if n1x >= -POS_LIMIT && n1x <= POS_LIMIT && n1y >= -POS_LIMIT && n1y <= POS_LIMIT && n2x
            >= -POS_LIMIT && n2x <= POS_LIMIT && n2y >= -POS_LIMIT && n2y <= POS_LIMIT {
            let updated_1 = Vertex { position: Vec2 { x: n1x, y: n1y }, ..objects[object_1_idx] };
            let obj_1 = &mut objects[object_1_idx];
            *obj_1 = updated_1;
            let updated_2 = Vertex { position: Vec2 { x: n2x, y: n2y }, ..objects[object_2_idx] };
            let obj_2 = &mut objects[object_2_idx];
            *obj_2 = updated_2;
            proof {
                assert(objects@ =~= collide_pair_spec(*config, orig, gi, gj));
                assert forall|k: int| 0 <= k < objects@.len() implies pos_in_limit(
                    #[trigger] objects@[k],
                ) by {
                    if k != gi && k != gj {
                        assert(objects@[k] == orig[k]);
                    }
                }
            }
        } else {
            proof {
                assert(objects@ =~= collide_pair_spec(*config, orig, gi, gj));
            }
        }
    }

    /// Particle `object_1_idx` resolved against every occupant of the cell
    /// at `(row, column)`, in stored order.
    pub fn collide_nearby_cells(
        config: &Config,
        objects: &mut Vec<Vertex>,
        grid: &Grid,
        object_1_idx: usize,
        row: usize,
        column: usize,
    )
        requires
            config.wf(),
            grid.wf(),
            grid.spec_config() == *config,
            row < config.grid_height,
            column < config.grid_width,
            object_1_idx < old(objects).len(),
            all_pos_in_limit(old(objects)@),
            grid_indices_ok(grid@, old(objects).len() as int),
        ensures
            final(objects)@ == collide_pairs_from(
                *config,
                old(objects)@,
                object_1_idx as int,
                grid@[row as int * config.grid_width + column as int],
                0,
            ),
            all_pos_in_limit(final(objects)@),
            final(objects)@.len() == old(objects)@.len(),
            forall|k: int|
                0 <= k < old(objects)@.len() ==> (#[trigger] final(objects)@[k]).previous_position
                    == old(objects)@[k].previous_position && final(objects)@[k].acceleration
                    == old(objects)@[k].acceleration && final(objects)@[k].color
                    == old(objects)@[k].color,
    {
        let ghost orig = objects@;
        let ghost list = grid@[row as int * config.grid_width + column as int];
        let list_len = grid.get_cell_objects(row, column).len();
        let mut p: usize = 0;
        while p < list_len
            invariant
                p <= list_len,
                config.wf(),
                grid.wf(),
                grid.spec_config() == *config,
                row < config.grid_height,
                column < config.grid_width,
                list == grid@[row as int * config.grid_width + column as int],
                list_len == list.len(),
                objects@.len() == orig.len(),
                object_1_idx < orig.len(),
                grid_indices_ok(grid@, orig.len() as int),
                all_pos_in_limit(objects@),
                collide_pairs_from(*config, objects@, object_1_idx as int, list, p as int)
                    == collide_pairs_from(*config, orig, object_1_idx as int, list, 0),
                forall|k: int|
                    0 <= k < orig.len() ==> (#[trigger] objects@[k]).previous_position
                        == orig[k].previous_position && objects@[k].acceleration
                        == orig[k].acceleration && objects@[k].color == orig[k].color,
            decreases list_len - p,
        {
            let object_2_idx = grid.get_cell_objects(row, column)[p];
            proof {
                crate::grid::lemma_cell_index_in_range(
                    config.grid_width as int,
                    config.grid_height as int,
                    column as int,
                    row as int,
                );
                assert(grid@[row as int * config.grid_width + column as int][p as int]
                    < orig.len());
            }
            Self::collide_objects(config, objects, object_1_idx, object_2_idx);
            p = p + 1;
        }
    }

    /// One occupied cell: each particle index it holds is resolved against
    /// the occupants of the 3×3 neighbourhood of `(row, column)`, skipping
    /// neighbours outside the grid (no wrap-around).
    pub fn collide_cell(&mut self, row: usize, column: usize)
        requires
            old(self).spec_config().wf(),
            old(self).grid_wf(),
            row < old(self).spec_config().grid_height,
            column < old(self).spec_config().grid_width,
            all_pos_in_limit(old(self).objs()),
            grid_indices_ok(old(self).grid_cells(), old(self).objs().len() as int),
        ensures
            final(self).objs() == collide_cell_from(
                old(self).spec_config(),
                old(self).grid_cells(),
                old(self).objs(),
                row as int,
                column as int,
                0,
            ),
            all_pos_in_limit(final(self).objs()),
            final(self).objs().len() == old(self).objs().len(),
            final(self).spec_gravity() == old(self).spec_gravity(),
            final(self).spec_config() == old(self).spec_config(),
            final(self).grid_cells() == old(self).grid_cells(),
            final(self).grid_wf() == old(self).grid_wf(),
            forall|k: int|
                0 <= k < old(self).objs().len() ==> (#[trigger] final(self).objs()[
                k]).previous_position == old(self).objs()[k].previous_position && final(self).objs()[k].acceleration == old(self).objs()[k].acceleration && final(self).objs()[k].color == old(self).objs()[k].color,
    {
        let ghost orig = self.objects@;
        let ghost cells = self.grid@;
        let cfg = self.config;
        let list_len = self.grid.get_cell_objects(row, column).len();
        let mut p: usize = 0;
        while p < list_len
            invariant
                p <= list_len,
                cfg == self.config,
                cfg.wf(),
                self.config == old(self).config,
                self.gravity == old(self).gravity,
                self.grid == old(self).grid,
                cells == self.grid@,
                self.grid.wf(),
                self.grid.spec_config() == cfg,
                row < cfg.grid_height,
                column < cfg.grid_width,
                list_len == cells[row as int * cfg.grid_width + column as int].len(),
                self.objects@.len() == orig.len(),
                grid_indices_ok(cells, orig.len() as int),
                all_pos_in_limit(self.objects@),
                collide_cell_from(cfg, cells, self.objects@, row as int, column as int, p as int)
                    == collide_cell_from(cfg, cells, orig, row as int, column as int, 0),
                forall|k: int|
                    0 <= k < orig.len() ==> (#[trigger] self.objects@[k]).previous_position
                        == orig[k].previous_position && self.objects@[k].acceleration
                        == orig[k].acceleration && self.objects@[k].color == orig[k].color,
            decreases list_len - p,
        {
            let object_1_idx = self.grid.get_cell_objects(row, column)[p];
            proof {
                crate::grid::lemma_cell_index_in_range(
                    cfg.grid_width as int,
                    cfg.grid_height as int,
                    column as int,
                    row as int,
                );
                assert(cells[row as int * cfg.grid_width + column as int][p as int] < orig.len());
            }
            let ghost entry = self.objects@;
            let mut n_idx: usize = 0;
            while n_idx < 9
                invariant
                    n_idx <= 9,
                    cfg == self.config,
                    cfg.wf(),
                    self.config == old(self).config,
                    self.gravity == old(self).gravity,
                    self.grid == old(self).grid,
                    cells == self.grid@,
                    self.grid.wf(),
                    self.grid.spec_config() == cfg,
                    row < cfg.grid_height,
                    column < cfg.grid_width,
                    object_1_idx < orig.len(),
                    self.objects@.len() == orig.len(),
                    entry.len() == orig.len(),
                    grid_indices_ok(cells, orig.len() as int),
                    all_pos_in_limit(self.objects@),
                    collide_neighbors_from(
                        cfg,
                        cells,
                        self.objects@,
                        object_1_idx as int,
                        row as int,
                        column as int,
                        n_idx as int,
                    ) == collide_neighbors_from(
                        cfg,
                        cells,
                        entry,
                        object_1_idx as int,
                        row as int,
                        column as int,
                        0,
                    ),
                    forall|k: int|
                        0 <= k < orig.len() ==> (#[trigger] self.objects@[k]).previous_position
                            == orig[k].previous_position && self.objects@[k].acceleration
                            == orig[k].acceleration && self.objects@[k].color == orig[k].color,
                decreases 9 - n_idx,
            {
                let dr = n_idx / 3;
                let dc = n_idx % 3;
                let rr = row as i64 + dr as i64 - 1;
                let cc = column as i64 + dc as i64 - 1;
                if rr >= 0 && cc >= 0 && rr < cfg.grid_height && cc < cfg.grid_width {
                    Self::collide_nearby_cells(
                        &cfg,
                        &mut self.objects,
                        &self.grid,
                        object_1_idx,
                        rr as usize,
                        cc as usize,
                    );
                }
                n_idx = n_idx + 1;
            }
            p = p + 1;
        }
    }

    /// Collision resolution: a single relaxation pass over every grid cell
    /// in row-major order. The pass is not iterated to convergence;
    /// stability across overlapping clusters emerges from repeating it
    /// every sub-step.
    pub fn solve_collisions(&mut self)
        requires
            old(self).spec_config().wf(),
            old(self).grid_wf(),
            all_pos_in_limit(old(self).objs()),
            grid_indices_ok(old(self).grid_cells(), old(self).objs().len() as int),
        ensures
            final(self).objs() == collide_phase_spec(
                old(self).spec_config(),
                old(self).grid_cells(),
                old(self).objs(),
            ),
            all_pos_in_limit(final(self).objs()),
            final(self).objs().len() == old(self).objs().len(),
            final(self).spec_gravity() == old(self).spec_gravity(),
            final(self).spec_config() == old(self).spec_config(),
            final(self).grid_cells() == old(self).grid_cells(),
            final(self).grid_wf() == old(self).grid_wf(),
            forall|k: int|
                0 <= k < old(self).objs().len() ==> (#[trigger] final(self).objs()[
                k]).previous_position == old(self).objs()[k].previous_position && final(self).objs()[k].acceleration == old(self).objs()[k].acceleration && final(self).objs()[k].color == old(self).objs()[k].color,
    {
        let ghost orig = self.objects@;
        let ghost cells = self.grid@;
        let cfg = self.config;
        let grid_height = cfg.grid_height as usize;
        let grid_width = cfg.grid_width as usize;
        let mut row: usize = 0;
        while row < grid_height
            invariant
                row <= grid_height,
                cfg == self.config,
                cfg.wf(),
                self.config == old(self).config,
                self.gravity == old(self).gravity,
                cells == self.grid@,
                self.grid.wf(),
                self.grid.spec_config() == cfg,
                grid_height == cfg.grid_height,
                grid_width == cfg.grid_width,
                self.objects@.len() == orig.len(),
                grid_indices_ok(cells, orig.len() as int),
                all_pos_in_limit(self.objects@),
                collide_cells_from(cfg, cells, self.objects@, row as int, 0)
                    == collide_phase_spec(cfg, cells, orig),
                forall|k: int|
                    0 <= k < orig.len() ==> (#[trigger] self.objects@[k]).previous_position
                        == orig[k].previous_position && self.objects@[k].acceleration
                        == orig[k].acceleration && self.objects@[k].color == orig[k].color,
            decreases grid_height - row,
        {
            let mut column: usize = 0;
            while column < grid_width
                invariant
                    row < grid_height,
                    column <= grid_width,
                    cfg == self.config,
                    cfg.wf(),
                    self.config == old(self).config,
                    self.gravity == old(self).gravity,
                    cells == self.grid@,
                    self.grid.wf(),
                    self.grid.spec_config() == cfg,
                    grid_height == cfg.grid_height,
                    grid_width == cfg.grid_width,
                    self.objects@.len() == orig.len(),
                    grid_indices_ok(cells, orig.len() as int),
                    all_pos_in_limit(self.objects@),
                    collide_cells_from(cfg, cells, self.objects@, row as int, column as int)
                        == collide_phase_spec(cfg, cells, orig),
                    forall|k: int|
                        0 <= k < orig.len() ==> (#[trigger] self.objects@[k]).previous_position
                            == orig[k].previous_position && self.objects@[k].acceleration
                            == orig[k].acceleration && self.objects@[k].color == orig[k].color,
                decreases grid_width - column,
            {
                self.collide_cell(row, column);
                column = column + 1;
            }
            row = row + 1;
        }
    }

    /// Advances the simulation by one frame of `dt` ticks: `SUB_STEPS`
    /// sub-steps, each applying gravity, rebuilding the grid, resolving
    /// collisions, clamping to the world, and integrating with
    /// `dt / SUB_STEPS`. The result is exactly [`update_spec`] of the
    /// previous particle state.
    pub fn update(&mut self, dt: i64)
        requires
            old(self).wf(),
            0 <= dt <= DT_LIMIT,
        ensures
            final(self).wf(),
            final(self).objs() == update_spec(
                old(self).spec_config(),
                old(self).objs(),
                old(self).spec_gravity(),
                dt as int,
            ),
            final(self).objs().len() == old(self).objs().len(),
            final(self).spec_gravity() == old(self).spec_gravity(),
            final(self).spec_config() == old(self).spec_config(),
    {
        let ghost cfg = self.config;
        let ghost g = self.gravity;
        let ghost orig = self.objects@;
        let sub_dt = ((dt as u64) / SUB_STEPS) as i64;
        proof {
            lemma_div_pos_is_pos(dt as int, SUB_STEPS as int);
            lemma_div_nonincreasing(dt as int, SUB_STEPS as int);
        }
        let mut step: u64 = 0;
        while step < SUB_STEPS
            invariant
                step <= SUB_STEPS,
                0 <= sub_dt <= DT_LIMIT,
                cfg == self.config,
                g == self.gravity,
                self.config == old(self).config,
                self.gravity == old(self).gravity,
                cfg.wf(),
                self.grid_wf(),
                -GRAVITY_LIMIT <= g.x <= GRAVITY_LIMIT,
                -GRAVITY_LIMIT <= g.y <= GRAVITY_LIMIT,
                self.objects@.len() == orig.len(),
                all_pos_in_limit(self.objects@),
                all_prev_in_limit(self.objects@),
                all_acc_within(self.objects@, SPAWN_ACC_LIMIT as int),
                update_steps_spec(cfg, self.objects@, g, sub_dt as int, SUB_STEPS as int - step)
                    == update_spec(cfg, orig, g, dt as int),
            decreases SUB_STEPS - step,
        {
            let ghost s0 = self.objects@;
            proof {
                assert forall|k: int| 0 <= k < s0.len() implies acc_within(
                    #[trigger] s0[k],
                    2 * SPAWN_ACC_LIMIT as int,
                ) by {
                    assert(acc_within(s0[k], SPAWN_ACC_LIMIT as int));
                }
            }
            self.apply_gravity(dt);
            let ghost accelerated = self.objects@;
            proof {
                assert(accelerated == apply_gravity_spec(s0, g));
                assert forall|k: int| 0 <= k < accelerated.len() implies pos_in_limit(
                    #[trigger] accelerated[k],
                ) && prev_in_limit(accelerated[k]) && acc_within(
                    accelerated[k],
                    INTEGRATE_ACC_LIMIT as int,
                ) by {
                    assert(accelerated[k] == accelerate_spec(s0[k], g));
                    assert(pos_in_limit(s0[k]) && prev_in_limit(s0[k]) && acc_within(
                        s0[k],
                        SPAWN_ACC_LIMIT as int,
                    ));
                }
            }
            self.add_objects_to_grid();
            let ghost built = self.grid@;
            self.solve_collisions();
            let ghost collided = self.objects@;
            self.apply_constraints();
            let ghost clamped = self.objects@;
            proof {
                assert forall|k: int| 0 <= k < clamped.len() implies integrate_ok(
                    #[trigger] clamped[k],
                ) by {
                    assert(clamped[k] == clamp_spec(cfg, collided[k]));
                    assert(in_world(cfg, clamped[k]));
                    assert(prev_in_limit(accelerated[k]) && acc_within(
                        accelerated[k],
                        INTEGRATE_ACC_LIMIT as int,
                    ));
                }
            }
            self.update_positions(sub_dt);
            proof {
                assert(self.objects@ == substep_spec(cfg, s0, g, sub_dt as int));
                assert forall|k: int| 0 <= k < self.objects@.len() implies pos_in_limit(
                    #[trigger] self.objects@[k],
                ) && prev_in_limit(self.objects@[k]) && acc_within(
                    self.objects@[k],
                    SPAWN_ACC_LIMIT as int,
                ) by {
                    assert(self.objects@[k] == integrate_spec(clamped[k], sub_dt as int));
                    assert(integrate_ok(clamped[k]));
                    assert(in_world(cfg, clamped[k]));
                    lemma_acc_dt_bound(clamped[k].acceleration.x as int, sub_dt as int);
                    lemma_acc_dt_bound(clamped[k].acceleration.y as int, sub_dt as int);
                }
            }
            step = step + 1;
        }
    }
}

// ---------------------------------------------------------------------------
// Laws of the collision pass and of a whole frame
// ---------------------------------------------------------------------------

/// The squared distance between particles `i` and `j`.
pub open spec fn pair_dist2(objs: Seq<Vertex>, i: int, j: int) -> int {
    let dx = objs[i].position.x - objs[j].position.x;
    let dy = objs[i].position.y - objs[j].position.y;
    dx * dx + dy * dy
}

/// The x component of the correction one pair resolution applies to
/// particle `i` (particle `j` receives its exact negation).
pub open spec fn pair_correction_x(config: Config, objs: Seq<Vertex>, i: int, j: int) -> int {
    let dx = objs[i].position.x - objs[j].position.x;
    let dist = sqrt_val(pair_dist2(objs, i, j));
    corr_spec(dx, config.cell_width - dist, dist)
}

/// The y component of the correction one pair resolution applies to
/// particle `i`.
pub open spec fn pair_correction_y(config: Config, objs: Seq<Vertex>, i: int, j: int) -> int {
    let dy = objs[i].position.y - objs[j].position.y;
    let dist = sqrt_val(pair_dist2(objs, i, j));
    corr_spec(dy, config.cell_width - dist, dist)
}

/// The corrected positions of both particles stay within the hard
/// coordinate bound, so the correction is applied rather than skipped.
pub open spec fn pair_within_guard(config: Config, objs: Seq<Vertex>, i: int, j: int) -> bool {
    let cx = pair_correction_x(config, objs, i, j);
    let cy = pair_correction_y(config, objs, i, j);
    &&& -POS_LIMIT <= objs[i].position.x + cx <= POS_LIMIT
    &&& -POS_LIMIT <= objs[i].position.y + cy <= POS_LIMIT
    &&& -POS_LIMIT <= objs[j].position.x - cx <= POS_LIMIT
    &&& -POS_LIMIT <= objs[j].position.y - cy <= POS_LIMIT
}

/// Collision symmetry: one pair resolution touches no particle but the two,
/// moves them by exactly equal and opposite vectors, and — for two distinct
/// particles strictly closer than `cell_width`, not coincident, within the
/// overflow guard — that vector is exactly the half-overlap correction
/// along the axis between them: `d` scaled by `0.5 * (cell_width - dist) /
/// dist` per axis, in integer arithmetic.
pub proof fn lemma_collision_symmetry(config: Config, objs: Seq<Vertex>, i: int, j: int)
    requires
        0 <= i < objs.len(),
        0 <= j < objs.len(),
        i != j,
    ensures
        collide_pair_spec(config, objs, i, j).len() == objs.len(),
        forall|k: int|
            0 <= k < objs.len() && k != i && k != j ==> #[trigger] collide_pair_spec(
                config,
                objs,
                i,
                j,
            )[k] == objs[k],
        collide_pair_spec(config, objs, i, j)[i].position.x - objs[i].position.x == -(
        collide_pair_spec(config, objs, i, j)[j].position.x - objs[j].position.x),
        collide_pair_spec(config, objs, i, j)[i].position.y - objs[i].position.y == -(
        collide_pair_spec(config, objs, i, j)[j].position.y - objs[j].position.y),
        (0 < pair_dist2(objs, i, j) < config.cell_width * config.cell_width && pair_within_guard(
            config,
            objs,
            i,
            j,
        )) ==> (collide_pair_spec(config, objs, i, j)[i].position.x == objs[i].position.x
            + pair_correction_x(config, objs, i, j) && collide_pair_spec(
            config,
            objs,
            i,
            j,
        )[j].position.x == objs[j].position.x - pair_correction_x(config, objs, i, j)
            && collide_pair_spec(config, objs, i, j)[i].position.y == objs[i].position.y
            + pair_correction_y(config, objs, i, j) && collide_pair_spec(
            config,
            objs,
            i,
            j,
        )[j].position.y == objs[j].position.y - pair_correction_y(config, objs, i, j)),
{
    let r = collide_pair_spec(config, objs, i, j);
    let dx = objs[i].position.x - objs[j].position.x;
    let dy = objs[i].position.y - objs[j].position.y;
    let d2 = dx * dx + dy * dy;
    if 0 < d2 < config.cell_width * config.cell_width {
        let dist = sqrt_val(d2);
        let cx = corr_spec(dx, config.cell_width - dist, dist);
        let cy = corr_spec(dy, config.cell_width - dist, dist);
        let n1x = objs[i].position.x + cx;
        let n1y = objs[i].position.y + cy;
        let n2x = objs[j].position.x - cx;
        let n2y = objs[j].position.y - cy;
        if -POS_LIMIT <= n1x <= POS_LIMIT && -POS_LIMIT <= n1y <= POS_LIMIT && -POS_LIMIT <= n2x
            <= POS_LIMIT && -POS_LIMIT <= n2y <= POS_LIMIT {
            assert(r[i].position.x == n1x && r[j].position.x == n2x);
            assert(r[i].position.y == n1y && r[j].position.y == n2y);
        } else {
            assert(r == objs);
        }
    } else {
        assert(r == objs);
    }
}

/// One pair resolution in a collection of at most one particle changes
/// nothing: every candidate pair is a self-pair or out of range.
proof fn lemma_collide_pair_singleton(config: Config, objs: Seq<Vertex>, i: int, j: int)
    requires
        objs.len() <= 1,
    ensures
        collide_pair_spec(config, objs, i, j) == objs,
{
}

/// Resolving one particle against any index list leaves a singleton
/// collection unchanged.
proof fn lemma_collide_pairs_singleton(
    config: Config,
    objs: Seq<Vertex>,
    i: int,
    list: Seq<usize>,
    p: int,
)
    requires
        objs.len() <= 1,
    ensures
        collide_pairs_from(config, objs, i, list, p) == objs,
    decreases list.len() - p,
{
    if 0 <= p < list.len() {
        lemma_collide_pair_singleton(config, objs, i, list[p] as int);
        lemma_collide_pairs_singleton(config, objs, i, list, p + 1);
    }
}

/// The neighbourhood scan leaves a singleton collection unchanged.
proof fn lemma_collide_neighbors_singleton(
    config: Config,
    cells: Seq<Seq<usize>>,
    objs: Seq<Vertex>,
    i: int,
    row: int,
    col: int,
    n: int,
)
    requires
        objs.len() <= 1,
    ensures
        collide_neighbors_from(config, cells, objs, i, row, col, n) == objs,
    decreases 9 - n,
{
    if 0 <= n < 9 {
        let r = row + n / 3 - 1;
        let c = col + n % 3 - 1;
        if 0 <= r < config.grid_height && 0 <= c < config.grid_width {
            lemma_collide_pairs_singleton(config, objs, i, cells[r * config.grid_width + c], 0);
        }
        lemma_collide_neighbors_singleton(config, cells, objs, i, row, col, n + 1);
    }
}

/// One cell's scan leaves a singleton collection unchanged.
proof fn lemma_collide_cell_singleton(
    config: Config,
    cells: Seq<Seq<usize>>,
    objs: Seq<Vertex>,
    row: int,
    col: int,
    p: int,
)
    requires
        objs.len() <= 1,
    ensures
        collide_cell_from(config, cells, objs, row, col, p) == objs,
    decreases cells[row * config.grid_width + col].len() - p,
{
    let list = cells[row * config.grid_width + col];
    if 0 <= p < list.len() {
        lemma_collide_neighbors_singleton(config, cells, objs, list[p] as int, row, col, 0);
        lemma_collide_cell_singleton(config, cells, objs, row, col, p + 1);
    }
}

/// The whole collision pass leaves a singleton collection unchanged: a
/// particle is never resolved against itself.
proof fn lemma_collide_cells_singleton(
    config: Config,
    cells: Seq<Seq<usize>>,
    objs: Seq<Vertex>,
    row: int,
    col: int,
)
    requires
        objs.len() <= 1,
    ensures
        collide_cells_from(config, cells, objs, row, col) == objs,
    decreases config.grid_height - row, config.grid_width + 1 - col,
{
    if row < 0 || col < 0 || row >= config.grid_height {
    } else if col >= config.grid_width {
        lemma_collide_cells_singleton(config, cells, objs, row + 1, 0);
    } else {
        lemma_collide_cell_singleton(config, cells, objs, row, col, 0);
        lemma_collide_cells_singleton(config, cells, objs, row, col + 1);
    }
}

/// Boundary invariant: after the constraint phase every particle lies
/// within `[radius, world - radius]` on both axes — for all inputs,
/// particles initialised outside the world bounds included.
pub proof fn lemma_boundary_invariant(config: Config, objs: Seq<Vertex>)
    requires
        config.wf(),
    ensures
        forall|k: int|
            0 <= k < objs.len() ==> in_world(
                config,
                #[trigger] apply_constraints_spec(config, objs)[k],
            ),
{
    assert forall|k: int| 0 <= k < objs.len() implies in_world(
        config,
        #[trigger] apply_constraints_spec(config, objs)[k],
    ) by {
        assert(apply_constraints_spec(config, objs)[k] == clamp_spec(config, objs[k]));
    }
}

/// The clamp leaves a particle already inside the legal band unchanged.
proof fn lemma_clamp_identity(config: Config, p: Vertex)
    requires
        config.wf(),
        in_world(config, p),
    ensures
        clamp_spec(config, p) == p,
{
}

/// One sub-step leaves a lone particle at rest strictly inside the world,
/// under zero gravity, exactly unchanged.
proof fn lemma_rest_substep(config: Config, p: Vertex, sub_dt: int)
    requires
        config.wf(),
        p.position == p.previous_position,
        p.acceleration == (Vec2 { x: 0i64, y: 0i64 }),
        in_world(config, p),
    ensures
        substep_spec(config, seq![p], Vec2 { x: 0i64, y: 0i64 }, sub_dt) == seq![p],
{
    let zero = Vec2 { x: 0i64, y: 0i64 };
    let one = seq![p];
    assert(accelerate_spec(p, zero) == p);
    assert(apply_gravity_spec(one, zero) =~= one);
    let cells = build_grid_spec(config, one);
    lemma_collide_cells_singleton(config, cells, one, 0, 0);
    lemma_clamp_identity(config, p);
    assert(apply_constraints_spec(config, one) =~= one);
    crate::vertex::lemma_integrator_stationary(p, sub_dt, 1);
    assert(update_positions_spec(one, sub_dt) =~= one);
}

/// Idempotent rest state: a single particle at rest strictly inside the
/// world bounds, with zero pending acceleration and zero gravity, is
/// exactly identical after a whole frame, for any time step and any number
/// of sub-steps.
pub proof fn lemma_rest_state_fixed(config: Config, p: Vertex, n: int, sub_dt: int)
    requires
        config.wf(),
        p.position == p.previous_position,
        p.acceleration == (Vec2 { x: 0i64, y: 0i64 }),
        in_world(config, p),
    ensures
        update_steps_spec(config, seq![p], Vec2 { x: 0i64, y: 0i64 }, sub_dt, n) == seq![p],
    decreases n,
{
    if n > 0 {
        lemma_rest_substep(config, p, sub_dt);
        lemma_rest_state_fixed(config, p, n - 1, sub_dt);
    }
}

/// The frame-level corollary: `update_spec` keeps such a particle
/// bit-identical, for any `dt`.
pub proof fn lemma_rest_state_update(config: Config, p: Vertex, dt: int)
    requires
        config.wf(),
        p.position == p.previous_position,
        p.acceleration == (Vec2 { x: 0i64, y: 0i64 }),
        in_world(config, p),
    ensures
        update_spec(config, seq![p], Vec2 { x: 0i64, y: 0i64 }, dt) == seq![p],
{
    lemma_rest_state_fixed(config, p, SUB_STEPS as int, dt / (SUB_STEPS as int));
}

/// Spawn bounds imply the solver's running bounds.
proof fn lemma_spawn_ok_bounds(objs: Seq<Vertex>)
    requires
        all_spawn_ok(objs),
    ensures
        all_pos_in_limit(objs),
        all_prev_in_limit(objs),
        all_acc_within(objs, SPAWN_ACC_LIMIT as int),
{
    assert forall|i: int| 0 <= i < objs.len() implies pos_in_limit(#[trigger] objs[i])
        && prev_in_limit(objs[i]) && acc_within(objs[i], SPAWN_ACC_LIMIT as int) by {
        assert(spawn_ok(objs[i]));
    }
}

} // verus!
