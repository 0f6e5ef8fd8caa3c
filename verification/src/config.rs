//! Validated simulation configuration: world extent, particle radius, and the
//! grid geometry derived from them, fixed once at startup.

use vstd::prelude::*;

verus! {

/// How many particle indices one grid cell can hold; later insertions into a
/// full cell are silently dropped.
pub const CELL_CAPACITY: usize = 8;

/// Number of sub-steps one `update` call is divided into.
pub const SUB_STEPS: u64 = 8;

/// Largest accepted particle radius.
pub const RADIUS_LIMIT: i64 = 0x1_0000;

/// Largest accepted world extent per axis, in world units.
pub const WORLD_LIMIT: i64 = 0x10_0000;

/// Largest accepted number of grid cells, so the grid's backing storage stays
/// of modest size.
pub const CELL_COUNT_LIMIT: i64 = 0x10_0000;

/// Hard bound on the magnitude of any particle coordinate the solver ever
/// stores; chosen far beyond any world extent so it only guards `i64`
/// arithmetic, never the physics.
pub const POS_LIMIT: i64 = 0x10_0000_0000_0000;

/// Bound on the magnitude of a particle's previous-position coordinates
/// inside the solver.
pub const PREV_LIMIT: i64 = 0x100_0000_0000;

/// Bound on the coordinates of a particle handed to `Solver::add`.
pub const SPAWN_POS_LIMIT: i64 = 0x100_0000_0000;

/// Bound on the pending acceleration of a particle handed to `Solver::add`.
pub const SPAWN_ACC_LIMIT: i64 = 0x4000_0000;

/// Bound on the magnitude of each gravity component.
pub const GRAVITY_LIMIT: i64 = 0x10_0000;

/// Largest accepted frame time step, in ticks.
pub const DT_LIMIT: i64 = 0x100;

/// Bound on position coordinates accepted by `Vertex::update_position`.
pub const INTEGRATE_POS_LIMIT: i64 = 0x4_0000_0000_0000;

/// Bound on acceleration components accepted by `Vertex::update_position`.
pub const INTEGRATE_ACC_LIMIT: i64 = 0x1_0000_0000;

/// The fixed geometry of a simulation: particle radius, world extent, and the
/// derived cell width and grid dimensions.
///
/// The cell width is four times the radius, so that any two overlapping
/// circles are less than one cell apart and the 3×3 cell neighbourhood is
/// guaranteed to contain every colliding pair.
#[derive(Clone, Copy, PartialEq, Eq, Structural, Debug)]
pub struct Config {
    pub radius: i64,
    pub world_width: i64,
    pub world_height: i64,
    pub cell_width: i64,
    pub grid_width: i64,
    pub grid_height: i64,
}

impl Config {
    /// A well-formed configuration: positive radius, a world at least one
    /// cell wide and high, and grid dimensions derived by flooring
    /// `world / cell_width` (a partial trailing strip is absorbed into the
    /// last full cell).
    pub open spec fn wf(self) -> bool {
        &&& 1 <= self.radius <= RADIUS_LIMIT
        &&& self.cell_width == 4 * self.radius
        &&& self.cell_width <= self.world_width <= WORLD_LIMIT
        &&& self.cell_width <= self.world_height <= WORLD_LIMIT
        &&& self.grid_width == self.world_width / self.cell_width
        &&& self.grid_height == self.world_height / self.cell_width
        &&& 1 <= self.grid_width
        &&& 1 <= self.grid_height
        &&& self.grid_width * self.grid_height <= CELL_COUNT_LIMIT
    }

    /// The parameter triples that `new` accepts.
    pub open spec fn valid_params(radius: i64, world_width: i64, world_height: i64) -> bool {
        &&& 1 <= radius <= RADIUS_LIMIT
        &&& 4 * radius <= world_width <= WORLD_LIMIT
        &&& 4 * radius <= world_height <= WORLD_LIMIT
        &&& (world_width as int / (4 * radius as int)) * (world_height as int / (4 * radius as int))
            <= CELL_COUNT_LIMIT
    }

    /// Builds a configuration from the radius and the world extent,
    /// validating every derived quantity; rejected parameters give `None`.
    pub fn new(radius: i64, world_width: i64, world_height: i64) -> (r: Option<Config>)
        ensures
            Self::valid_params(radius, world_width, world_height) <==> r is Some,
            r matches Some(c) ==> (c.wf() && c.radius == radius && c.world_width == world_width
                && c.world_height == world_height && c.cell_width == 4 * radius),
    {
        if radius < 1 || radius > RADIUS_LIMIT {
            return None;
        }
        let cell_width = 4 * radius;
        if world_width < cell_width || world_width > WORLD_LIMIT {
            return None;
        }
        if world_height < cell_width || world_height > WORLD_LIMIT {
            return None;
        }
        let grid_width = ((world_width as u64) / (cell_width as u64)) as i64;
        let grid_height = ((world_height as u64) / (cell_width as u64)) as i64;
        assert(grid_width == world_width / cell_width);
        assert(grid_height == world_height / cell_width);
        assert(1 <= grid_width && grid_width <= WORLD_LIMIT) by {
            assert(world_width / cell_width >= 1) by (nonlinear_arith)
                requires 1 <= cell_width <= world_width;
            assert(world_width / cell_width <= world_width) by (nonlinear_arith)
                requires 1 <= cell_width && 0 <= world_width;
        }
        assert(1 <= grid_height && grid_height <= WORLD_LIMIT) by {
            assert(world_height / cell_width >= 1) by (nonlinear_arith)
                requires 1 <= cell_width <= world_height;
            assert(world_height / cell_width <= world_height) by (nonlinear_arith)
                requires 1 <= cell_width && 0 <= world_height;
        }
        assert(grid_width * grid_height <= WORLD_LIMIT * WORLD_LIMIT) by (nonlinear_arith)
            requires
                1 <= grid_width <= WORLD_LIMIT,
                1 <= grid_height <= WORLD_LIMIT,
                WORLD_LIMIT == 0x10_0000;
        if grid_width * grid_height > CELL_COUNT_LIMIT {
            return None;
        }
        Some(Config {
            radius,
            world_width,
            world_height,
            cell_width,
            grid_width,
            grid_height,
        })
    }
}

} // verus!
