//! The uniform spatial grid used as the broad phase of collision detection.
//!
//! The world is divided into square cells of width `config.cell_width`; each
//! cell holds a bounded list of particle indices into the solver's particle
//! store (a pure back-reference, never ownership). The grid is cleared and
//! repopulated once per sub-step, because particle positions change every
//! sub-step.

use vstd::prelude::*;

use crate::config::{Config, CELL_CAPACITY};

verus! {

/// One grid cell: a bounded list of particle indices in insertion order.
///
/// The bound keeps per-cell memory constant: once `CELL_CAPACITY` indices are
/// stored, further insertions are silently dropped (the oldest occupants are
/// kept). Under extreme local density this under-detects collisions, a
/// deliberate bounded-memory trade-off.
#[derive(Debug)]
pub struct Cell {
    objects: Vec<usize>,
}

/// The contents of `list` after appending `object` under the capacity bound:
/// a full list is left unchanged.
pub open spec fn cell_add_spec(list: Seq<usize>, object: usize) -> Seq<usize> {
    if list.len() < CELL_CAPACITY {
        list.push(object)
    } else {
        list
    }
}

impl View for Cell {
    type V = Seq<usize>;

    closed spec fn view(&self) -> Seq<usize> {
        self.objects@
    }
}

impl Cell {
    /// A cell never holds more than `CELL_CAPACITY` indices.
    pub open spec fn wf(self) -> bool {
        self@.len() <= CELL_CAPACITY
    }

    /// A new, empty cell.
    pub fn new() -> (r: Cell)
        ensures
            r@ == Seq::<usize>::empty(),
            r.wf(),
    {
        Cell { objects: Vec::new() }
    }

    /// Empties the cell; the backing storage is kept for reuse.
    pub fn clear(&mut self)
        ensures
            final(self)@ == Seq::<usize>::empty(),
            final(self).wf(),
    {
        self.objects.clear();
    }

    /// Appends `object`, unless the cell is already at capacity, in which
    /// case the call is a silent no-op.
    pub fn add(&mut self, object: usize)
        requires
            old(self).wf(),
        ensures
            final(self)@ == cell_add_spec(old(self)@, object),
            final(self).wf(),
    {
        if self.objects.len() < CELL_CAPACITY {
            self.objects.push(object);
        }
    }

    /// The stored indices, in insertion order.
    pub fn get_objects(&self) -> (r: &Vec<usize>)
        ensures
            r@ == self@,
    {
        &self.objects
    }
}

/// A grid whose every cell is empty, with one cell per grid coordinate.
pub open spec fn empty_grid_spec(config: Config) -> Seq<Seq<usize>> {
    Seq::new((config.grid_width * config.grid_height) as nat, |i: int| Seq::<usize>::empty())
}

/// The cells after inserting `object_id` at world position `(x, y)`:
/// the target cell is `(column, row) = (x / cell_width, y / cell_width)`,
/// and a position outside `[0, grid_width * cell_width) x [0, grid_height *
/// cell_width)` leaves the grid unchanged (a silent no-op, so particles
/// momentarily outside the world simply sit out collision detection).
pub open spec fn grid_insert_spec(
    config: Config,
    cells: Seq<Seq<usize>>,
    x: i64,
    y: i64,
    object_id: usize,
) -> Seq<Seq<usize>> {
    if x < 0 || y < 0 {
        cells
    } else {
        let column = x / config.cell_width;
        let row = y / config.cell_width;
        if column >= config.grid_width || row >= config.grid_height {
            cells
        } else {
            let target = row * config.grid_width + column;
            cells.update(target, cell_add_spec(cells[target], object_id))
        }
    }
}

/// The uniform spatial grid: `grid_width * grid_height` bounded cells, in
/// row-major order.
#[derive(Debug)]
pub struct Grid {
    config: Config,
    cells: Vec<Cell>,
}

impl View for Grid {
    type V = Seq<Seq<usize>>;

    closed spec fn view(&self) -> Seq<Seq<usize>> {
        Seq::new(self.cells@.len(), |i: int| self.cells@[i]@)
    }
}

impl Grid {
    /// The configuration this grid was built for.
    pub closed spec fn spec_config(self) -> Config {
        self.config
    }

    /// A well-formed grid: one cell per coordinate of a well-formed
    /// configuration, each within its capacity.
    pub open spec fn wf(self) -> bool {
        &&& self.spec_config().wf()
        &&& self@.len() == self.spec_config().grid_width * self.spec_config().grid_height
        &&& forall|i: int| 0 <= i < self@.len() ==> self@[i].len() <= CELL_CAPACITY
    }

    /// A grid of empty cells sized for `config`.
    pub fn new(config: Config) -> (r: Grid)
        requires
            config.wf(),
        ensures
            r.wf(),
            r.spec_config() == config,
            r@ == empty_grid_spec(config),
    {
        assert(1 <= config.grid_width * config.grid_height) by (nonlinear_arith)
            requires
                1 <= config.grid_width,
                1 <= config.grid_height;
        let count = (config.grid_width * config.grid_height) as usize;
        let mut cells: Vec<Cell> = Vec::new();
        let mut i: usize = 0;
        while i < count
            invariant
                i <= count,
                cells@.len() == i,
                forall|k: int| 0 <= k < i ==> cells@[k]@ == Seq::<usize>::empty(),
            decreases count - i,
        {
            cells.push(Cell::new());
            i = i + 1;
        }
        let r = Grid { config, cells };
        proof {
            assert(r@ =~= empty_grid_spec(config));
        }
        r
    }

    /// Resets every cell's occupant count to zero; storage is reused, not
    /// reallocated. Must run before each repopulation.
    pub fn clear(&mut self)
        requires
            old(self).wf(),
        ensures
            final(self).wf(),
            final(self).spec_config() == old(self).spec_config(),
            final(self)@ == empty_grid_spec(old(self).spec_config()),
    {
        let count = self.cells.len();
        let mut i: usize = 0;
        while i < count
            invariant
                i <= count,
                count == self.cells@.len(),
                self.config == old(self).config,
                forall|k: int| 0 <= k < i ==> self.cells@[k]@ == Seq::<usize>::empty(),
                forall|k: int| i <= k < count ==> self.cells@[k]@ == old(self).cells@[k]@,
            decreases count - i,
        {
            let cell = &mut self.cells[i];
            cell.clear();
            i = i + 1;
        }
        proof {
            assert(self@ =~= empty_grid_spec(old(self).spec_config()));
        }
    }

    /// Inserts `object_id` at world position `(x, y)`: a silent no-op when
    /// the position lies outside the gridded part of the world or the target
    /// cell is full.
    pub fn add_object(&mut self, x: i64, y: i64, object_id: usize)
        requires
            old(self).wf(),
        ensures
            final(self).wf(),
            final(self).spec_config() == old(self).spec_config(),
            final(self)@ == grid_insert_spec(old(self).spec_config(), old(self)@, x, y, object_id),
    {
        if x < 0 || y < 0 {
            return;
        }
        let column_u = (x as u64) / (self.config.cell_width as u64);
        let row_u = (y as u64) / (self.config.cell_width as u64);
        if column_u >= self.config.grid_width as u64 || row_u >= self.config.grid_height as u64 {
            return;
        }
        let column_index = column_u as i64;
        let row_index = row_u as i64;
        proof {
            lemma_cell_index_in_range(
                self.config.grid_width as int,
                self.config.grid_height as int,
                column_index as int,
                row_index as int,
            );
        }
        let target = (row_index * self.config.grid_width + column_index) as usize;
        let cell = &mut self.cells[target];
        proof {
            assert(old(self)@[target as int].len() <= CELL_CAPACITY);
            assert((*cell)@ == old(self)@[target as int]);
        }
        cell.add(object_id);
        proof {
            assert(self@ =~= grid_insert_spec(
                old(self).spec_config(),
                old(self)@,
                x,
                y,
                object_id,
            ));
        }
    }

    /// The indices currently stored for the cell at `(row_index,
    /// column_index)`, in insertion order.
    pub fn get_cell_objects(&self, row_index: usize, column_index: usize) -> (r: &Vec<usize>)
        requires
            self.wf(),
            row_index < self.spec_config().grid_height,
            column_index < self.spec_config().grid_width,
        ensures
            r@ == self@[row_index * self.spec_config().grid_width + column_index],
    {
        proof {
            lemma_cell_index_in_range(
                self.config.grid_width as int,
                self.config.grid_height as int,
                column_index as int,
                row_index as int,
            );
        }
        let target = (row_index as i64 * self.config.grid_width + column_index as i64) as usize;
        self.cells[target].get_objects()
    }
}

/// A row-major cell index from in-range coordinates lies within the grid.
pub proof fn lemma_cell_index_in_range(grid_width: int, grid_height: int, column: int, row: int)
    by (nonlinear_arith)
    requires
        0 < grid_width,
        0 < grid_height,
        0 <= column < grid_width,
        0 <= row < grid_height,
    ensures
        0 <= row * grid_width + column < grid_width * grid_height,
{
}

/// The contents of a cell that starts from `list` and receives the indices
/// of `ids` in order, one `cell_add_spec` at a time.
pub open spec fn cell_add_all_spec(list: Seq<usize>, ids: Seq<usize>) -> Seq<usize>
    decreases ids.len(),
{
    if ids.len() == 0 {
        list
    } else {
        cell_add_all_spec(cell_add_spec(list, ids[0]), ids.drop_first())
    }
}

/// Capacity bound: a cell filled from `list` keeps its occupants and takes
/// newcomers only up to `CELL_CAPACITY`, in insertion order; the excess is
/// dropped. In particular, inserting more than `CELL_CAPACITY` indices into
/// an empty cell leaves exactly the first `CELL_CAPACITY` of them.
pub proof fn lemma_cell_capacity(list: Seq<usize>, ids: Seq<usize>)
    requires
        list.len() <= CELL_CAPACITY,
    ensures
        cell_add_all_spec(list, ids) == list + ids.take(
            if ids.len() <= CELL_CAPACITY - list.len() {
                ids.len() as int
            } else {
                CELL_CAPACITY - list.len()
            },
        ),
    decreases ids.len(),
{
    let take = if ids.len() <= CELL_CAPACITY - list.len() {
        ids.len() as int
    } else {
        CELL_CAPACITY - list.len()
    };
    if ids.len() == 0 {
        assert(cell_add_all_spec(list, ids) =~= list + ids.take(0));
    } else if list.len() < CELL_CAPACITY {
        lemma_cell_capacity(list.push(ids[0]), ids.drop_first());
        let rest = ids.drop_first();
        let rest_take = if rest.len() <= CELL_CAPACITY - list.len() - 1 {
            rest.len() as int
        } else {
            CELL_CAPACITY - list.len() - 1
        };
        assert(list.push(ids[0]) + rest.take(rest_take) =~= list + ids.take(take));
    } else {
        lemma_cell_capacity(list, ids.drop_first());
        assert(list + ids.drop_first().take(0) =~= list + ids.take(0));
    }
}

/// Bucket correctness: inserting an index that is nowhere in the grid makes
/// it retrievable from the cell `(row, column) = (y / cell_width, x /
/// cell_width)` of its position and from no other, and an insertion outside
/// the gridded world leaves it in no cell at all.
pub proof fn lemma_grid_bucket(
    config: Config,
    cells: Seq<Seq<usize>>,
    x: i64,
    y: i64,
    object_id: usize,
)
    requires
        config.wf(),
        cells.len() == config.grid_width * config.grid_height,
        forall|c: int| 0 <= c < cells.len() ==> !cells[c].contains(object_id),
    ensures
        forall|c: int|
            0 <= c < cells.len() ==> (grid_insert_spec(config, cells, x, y, object_id)[c].contains(
                object_id,
            ) <==> (x >= 0 && y >= 0 && x / config.cell_width < config.grid_width
                && y / config.cell_width < config.grid_height && c == (y / config.cell_width)
                * config.grid_width + x / config.cell_width && cells[c].len() < CELL_CAPACITY)),
{
    let inserted = grid_insert_spec(config, cells, x, y, object_id);
    if x >= 0 && y >= 0 {
        let column = x / config.cell_width;
        let row = y / config.cell_width;
        assert(column >= 0 && row >= 0) by {
            vstd::arithmetic::div_mod::lemma_div_pos_is_pos(x as int, config.cell_width as int);
            vstd::arithmetic::div_mod::lemma_div_pos_is_pos(y as int, config.cell_width as int);
        }
        if column < config.grid_width && row < config.grid_height {
            let target = row * config.grid_width + column;
            lemma_cell_index_in_range(
                config.grid_width as int,
                config.grid_height as int,
                column,
                row,
            );
            assert forall|c: int| 0 <= c < cells.len() implies (inserted[c].contains(object_id)
                <==> (c == target && cells[c].len() < CELL_CAPACITY)) by {
                if c == target {
                    if cells[target].len() < CELL_CAPACITY {
                        assert(inserted[c] == cells[target].push(object_id));
                        assert(inserted[c][inserted[c].len() - 1] == object_id);
                    }
                } else {
                    assert(inserted[c] == cells[c]);
                }
            }
        }
    }
}

} // verus!
