//! The cell grid: a fixed number of cells in row-major order.

use crate::cell::{CellState, GridError};
use crate::source::draw_below;
use rand::rngs::StdRng;
use vstd::prelude::*;

verus! {

/// The position in row-major order of the cell in column `x` of row `y`.
pub open spec fn index_of(width: int, x: int, y: int) -> int {
    y * width + x
}

/// The column and the row of the cell at a row-major position.
pub open spec fn coord_of(width: int, index: int) -> (int, int) {
    (index % width, index / width)
}

/// A grid's worth of dead cells.
pub open spec fn blank(len: nat) -> Seq<CellState> {
    Seq::new(len, |i: int| CellState::Dead)
}

/// `after` is what `before` becomes when one draw below `one_in` is applied
/// to each cell: the draw at a position decides the cell at that position.
pub open spec fn seeded_by(
    before: Seq<CellState>,
    draws: Seq<u32>,
    one_in: u32,
    after: Seq<CellState>,
) -> bool {
    &&& draws.len() == before.len()
    &&& after.len() == before.len()
    &&& forall|i: int|
        0 <= i < before.len() ==> (#[trigger] draws[i]) < one_in && after[i]
            == before[i].spec_after_draw(draws[i])
}

/// A coordinate inside the grid has a position inside the cell sequence.
pub proof fn lemma_index_in_range(width: int, height: int, x: int, y: int)
    requires
        0 <= x < width,
        0 <= y < height,
    ensures
        0 <= y * width,
        0 <= index_of(width, x, y) < width * height,
{
    assert(0 <= y * width && y * width + x < width * height) by (nonlinear_arith)
        requires
            0 <= x < width,
            0 <= y < height,
    ;
}

/// A position inside the cell sequence has a coordinate inside the grid.
pub proof fn lemma_coord_in_range(width: int, height: int, index: int)
    requires
        0 < width,
        0 <= index < width * height,
    ensures
        0 <= coord_of(width, index).0 < width,
        0 <= coord_of(width, index).1 < height,
{
    assert(0 <= index % width < width && 0 <= index / width < height) by (nonlinear_arith)
        requires
            0 < width,
            0 <= index < width * height,
    ;
}

/// Converting a coordinate inside the grid to its position and back gives
/// the coordinate again.
pub proof fn lemma_coord_of_index(width: int, height: int, x: int, y: int)
    requires
        0 <= x < width,
        0 <= y < height,
    ensures
        coord_of(width, index_of(width, x, y)) == (x, y),
{
    vstd::arithmetic::div_mod::lemma_fundamental_div_mod_converse(y * width + x, width, y, x);
}

/// Converting a position inside the cell sequence to its coordinate and
/// back gives the position again.
pub proof fn lemma_index_of_coord(width: int, height: int, index: int)
    requires
        0 < width,
        0 <= index < width * height,
    ensures
        index_of(width, coord_of(width, index).0, coord_of(width, index).1) == index,
{
    vstd::arithmetic::div_mod::lemma_fundamental_div_mod(index, width);
    assert((index / width) * width == width * (index / width)) by (nonlinear_arith);
}

/// The row-major position of the cell in column `x` of row `y`.
pub fn xy_to_idx(width: usize, x: usize, y: usize) -> (index: usize)
    requires
        y * width + x <= usize::MAX,
    ensures
        index == index_of(width as int, x as int, y as int),
{
    assert(0 <= y * width) by (nonlinear_arith);
    y * width + x
}

/// The column and the row of the cell at a row-major position.
pub fn idx_to_xy(width: usize, index: usize) -> (coord: (usize, usize))
    requires
        width > 0,
    ensures
        (coord.0 as int, coord.1 as int) == coord_of(width as int, index as int),
{
    (index % width, index / width)
}

/// A grid of `width` columns and `height` rows. Its size is fixed when it is
/// made.
#[derive(Debug, Clone)]
pub struct CellGrid {
    width: usize,
    height: usize,
    cells: Vec<CellState>,
}

impl View for CellGrid {
    type V = Seq<CellState>;

    /// The cells in row-major order.
    closed spec fn view(&self) -> Seq<CellState> {
        self.cells@
    }
}

impl CellGrid {
    /// The number of columns.
    pub closed spec fn spec_width(&self) -> nat {
        self.width as nat
    }

    /// The number of rows.
    pub closed spec fn spec_height(&self) -> nat {
        self.height as nat
    }

    /// The grid is not empty and holds one cell for each coordinate.
    pub open spec fn wf(&self) -> bool {
        &&& self.spec_width() > 0
        &&& self.spec_height() > 0
        &&& self@.len() == self.spec_width() * self.spec_height()
    }

    /// Two grids have the same numbers of columns and rows.
    pub open spec fn same_shape(&self, other: &CellGrid) -> bool {
        &&& self.spec_width() == other.spec_width()
        &&& self.spec_height() == other.spec_height()
    }

    /// The coordinate lies inside the grid.
    pub open spec fn in_bounds(&self, x: int, y: int) -> bool {
        &&& 0 <= x < self.spec_width()
        &&& 0 <= y < self.spec_height()
    }

    /// The state of the cell in column `x` of row `y`.
    pub open spec fn spec_cell(&self, x: int, y: int) -> CellState {
        self@[index_of(self.spec_width() as int, x, y)]
    }

    /// A grid of dead cells in the shape given.
    fn filled(width: usize, height: usize) -> (grid: CellGrid)
        requires
            width > 0,
            height > 0,
            width * height <= usize::MAX,
        ensures
            grid.wf(),
            grid.spec_width() == width,
            grid.spec_height() == height,
            grid@ == blank((width * height) as nat),
    {
        let count: usize = width * height;
        let mut cells: Vec<CellState> = Vec::with_capacity(count);
        while cells.len() < count
            invariant
                cells.len() <= count,
                forall|i: int| 0 <= i < cells.len() ==> cells@[i] == CellState::Dead,
            decreases count - cells.len(),
        {
            cells.push(CellState::Dead);
        }
        assert(cells@ =~= blank(count as nat));
        CellGrid { width, height, cells }
    }

    /// Makes a grid of `width` columns and `height` rows in which every cell
    /// is dead. A grid without columns or without rows is refused.
    pub fn new(width: usize, height: usize) -> (made: Result<CellGrid, GridError>)
        requires
            width * height <= usize::MAX,
        ensures
            made is Err <==> (width == 0 || height == 0),
            made matches Err(e) ==> e == GridError::InvalidConfiguration,
            made matches Ok(grid) ==> (grid.wf() && grid.spec_width() == width
                && grid.spec_height() == height && grid@ == blank((width * height) as nat)),
    {
        if width == 0 || height == 0 {
            Err(GridError::InvalidConfiguration)
        } else {
            Ok(CellGrid::filled(width, height))
        }
    }

    /// A grid of dead cells in the shape of this one.
    pub fn blank_like(&self) -> (grid: CellGrid)
        requires
            self.wf(),
        ensures
            grid.wf(),
            grid.same_shape(self),
            grid@ == blank(self@.len()),
    {
        assert(self.width * self.height == self.cells.len());
        CellGrid::filled(self.width, self.height)
    }

    /// The number of columns.
    pub fn width(&self) -> (width: usize)
        ensures
            width == self.spec_width(),
    {
        self.width
    }

    /// The number of rows.
    pub fn height(&self) -> (height: usize)
        ensures
            height == self.spec_height(),
    {
        self.height
    }

    /// The number of cells.
    pub fn len(&self) -> (len: usize)
        ensures
            len == self@.len(),
    {
        self.cells.len()
    }

    /// Reads the cell in column `x` of row `y`.
    pub fn get(&self, x: usize, y: usize) -> (cell: Result<CellState, GridError>)
        requires
            self.wf(),
        ensures
            self.in_bounds(x as int, y as int) ==> cell == Ok::<CellState, GridError>(
                self.spec_cell(x as int, y as int),
            ),
            !self.in_bounds(x as int, y as int) ==> cell == Err::<CellState, GridError>(
                GridError::OutOfBounds,
            ),
    {
        if x >= self.width || y >= self.height {
            return Err(GridError::OutOfBounds);
        }
        proof {
            lemma_index_in_range(self.width as int, self.height as int, x as int, y as int);
            assert(self.width * self.height == self.cells.len());
        }
        let index: usize = xy_to_idx(self.width, x, y);
        Ok(self.cells[index])
    }

    /// Writes the cell in column `x` of row `y`. Outside the grid nothing is
    /// written.
    pub fn set(&mut self, x: usize, y: usize, state: CellState) -> (done: Result<(), GridError>)
        requires
            old(self).wf(),
        ensures
            final(self).wf(),
            final(self).same_shape(old(self)),
            old(self).in_bounds(x as int, y as int) ==> done == Ok::<(), GridError>(())
                && final(self)@ == old(self)@.update(
                index_of(old(self).spec_width() as int, x as int, y as int),
                state,
            ),
            !old(self).in_bounds(x as int, y as int) ==> done == Err::<(), GridError>(
                GridError::OutOfBounds,
            ) && final(self)@ == old(self)@,
    {
        if x >= self.width || y >= self.height {
            return Err(GridError::OutOfBounds);
        }
        proof {
            lemma_index_in_range(self.width as int, self.height as int, x as int, y as int);
            assert(self.width * self.height == self.cells.len());
        }
        let index: usize = xy_to_idx(self.width, x, y);
        self.cells.set(index, state);
        Ok(())
    }

    /// Makes every cell dead.
    pub fn clear(&mut self)
        requires
            old(self).wf(),
        ensures
            final(self).wf(),
            final(self).same_shape(old(self)),
            final(self)@ == blank(old(self)@.len()),
    {
        let count: usize = self.cells.len();
        let mut index: usize = 0;
        while index < count
            invariant
                index <= count,
                count == self.cells.len(),
                self.width == old(self).width,
                self.height == old(self).height,
                self.cells.len() == old(self).cells.len(),
                forall|i: int| 0 <= i < index ==> self.cells@[i] == CellState::Dead,
            decreases count - index,
        {
            self.cells.set(index, CellState::Dead);
            index = index + 1;
        }
        assert(self.cells@ =~= blank(count as nat));
    }

    /// Exchanges the contents of two grids, shapes included, without copying
    /// a cell.
    pub fn swap(&mut self, other: &mut Self)
        ensures
            *final(self) == *old(other),
            *final(other) == *old(self),
    {
        std::mem::swap(self, other);
    }

    /// Copies every cell of `other`, a grid of the same shape, into this
    /// grid.
    pub fn copy_from(&mut self, other: &Self)
        requires
            old(self).wf(),
            other.wf(),
            old(self).same_shape(other),
        ensures
            final(self).wf(),
            final(self).same_shape(other),
            final(self)@ == other@,
    {
        let count: usize = self.cells.len();
        let mut index: usize = 0;
        while index < count
            invariant
                index <= count,
                count == self.cells.len(),
                count == other.cells.len(),
                self.width == old(self).width,
                self.height == old(self).height,
                forall|i: int| 0 <= i < index ==> self.cells@[i] == other.cells@[i],
            decreases count - index,
        {
            self.cells.set(index, other.cells[index]);
            index = index + 1;
        }
        assert(self.cells@ =~= other.cells@);
    }

    /// Applies one random draw below `one_in` to every cell, in row-major
    /// order: a draw of zero brings the cell to life, any other draw leaves
    /// it as it was. So each cell that was dead comes to life with a chance
    /// of one in `one_in`, and with `one_in` at one every cell is alive
    /// afterwards.
    pub fn randomize(&mut self, rng: &mut StdRng, one_in: u32)
        requires
            old(self).wf(),
            one_in > 0,
        ensures
            final(self).wf(),
            final(self).same_shape(old(self)),
            exists|draws: Seq<u32>| seeded_by(old(self)@, draws, one_in, final(self)@),
    {
        let count: usize = self.cells.len();
        let mut index: usize = 0;
        let ghost mut draws: Seq<u32> = Seq::empty();
        while index < count
            invariant
                index <= count,
                one_in > 0,
                count == self.cells.len(),
                count == old(self).cells.len(),
                self.width == old(self).width,
                self.height == old(self).height,
                draws.len() == index,
                forall|i: int|
                    0 <= i < index ==> (#[trigger] draws[i]) < one_in && self.cells@[i] == old(
                        self,
                    ).cells@[i].spec_after_draw(draws[i]),
                forall|i: int| index <= i < count ==> self.cells@[i] == old(self).cells@[i],
            decreases count - index,
        {
            let draw: u32 = draw_below(rng, one_in);
            let state = self.cells[index].after_draw(draw);
            self.cells.set(index, state);
            proof {
                draws = draws.push(draw);
            }
            index = index + 1;
        }
        assert(seeded_by(old(self)@, draws, one_in, self@));
    }

    /// The grid after one random draw below `one_in` has been applied to
    /// every cell, as `randomize` does.
    pub fn random_state(self, rng: &mut StdRng, one_in: u32) -> (grid: Self)
        requires
            self.wf(),
            one_in > 0,
        ensures
            grid.wf(),
            grid.same_shape(&self),
            exists|draws: Seq<u32>| seeded_by(self@, draws, one_in, grid@),
    {
        let mut grid = self;
        grid.randomize(rng, one_in);
        grid
    }
}

/// Seeding brings cells to life and kills none: every cell is alive
/// afterwards or as it was before.
pub proof fn lemma_seeding_keeps_life(
    before: Seq<CellState>,
    draws: Seq<u32>,
    one_in: u32,
    after: Seq<CellState>,
)
    requires
        seeded_by(before, draws, one_in, after),
    ensures
        forall|i: int|
            0 <= i < before.len() ==> (#[trigger] after[i]) == CellState::Alive || after[i]
                == before[i],
{
    assert forall|i: int| 0 <= i < before.len() implies (#[trigger] after[i]) == CellState::Alive
        || after[i] == before[i] by {
        assert(draws[i] < one_in);
    }
}

/// Seeding with a chance of one in one brings every cell to life.
pub proof fn lemma_seeding_one_in_one(
    before: Seq<CellState>,
    draws: Seq<u32>,
    after: Seq<CellState>,
)
    requires
        seeded_by(before, draws, 1, after),
    ensures
        forall|i: int| 0 <= i < after.len() ==> (#[trigger] after[i]) == CellState::Alive,
{
    assert forall|i: int| 0 <= i < after.len() implies (#[trigger] after[i])
        == CellState::Alive by {
        assert(draws[i] < 1);
    }
}

} // verus!
