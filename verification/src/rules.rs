//! The rule that computes one generation from the previous one.
//!
//! A cell has up to eight neighbours: the cells one step away in a row, a
//! column or a diagonal. The grid ends at its edges, so a cell on an edge
//! has fewer neighbours; nothing wraps around.

use crate::cell::CellState;
use crate::grid::{
    blank, coord_of, idx_to_xy, index_of, lemma_coord_in_range, lemma_coord_of_index,
    lemma_index_in_range, lemma_index_of_coord, CellGrid,
};
use vstd::prelude::*;

verus! {

/// There is a cell in column `x` of row `y`, and it is alive.
pub open spec fn alive_at(width: int, height: int, cells: Seq<CellState>, x: int, y: int) -> bool {
    &&& 0 <= x < width
    &&& 0 <= y < height
    &&& cells[index_of(width, x, y)] == CellState::Alive
}

/// One for a live cell at the coordinate, zero otherwise.
pub open spec fn live_at(width: int, height: int, cells: Seq<CellState>, x: int, y: int) -> nat {
    if alive_at(width, height, cells, x, y) {
        1
    } else {
        0
    }
}

/// The number of live cells among the neighbours of the cell in column `x` of
/// row `y`. A neighbouring coordinate outside the grid counts for nothing.
pub open spec fn live_neighbors(
    width: int,
    height: int,
    cells: Seq<CellState>,
    x: int,
    y: int,
) -> nat {
    live_at(width, height, cells, x - 1, y - 1) + live_at(width, height, cells, x, y - 1)
        + live_at(width, height, cells, x + 1, y - 1) + live_at(width, height, cells, x - 1, y)
        + live_at(width, height, cells, x + 1, y) + live_at(width, height, cells, x - 1, y + 1)
        + live_at(width, height, cells, x, y + 1) + live_at(width, height, cells, x + 1, y + 1)
}

/// The state of a cell in the next generation: a live cell survives with two
/// or three live neighbours, a dead cell comes to life with exactly three,
/// and every other cell is dead.
pub open spec fn next_state(state: CellState, count: nat) -> CellState {
    match state {
        CellState::Alive => if count == 2 || count == 3 {
            CellState::Alive
        } else {
            CellState::Dead
        },
        CellState::Dead => if count == 3 {
            CellState::Alive
        } else {
            CellState::Dead
        },
    }
}

/// The state in the next generation of the cell at a row-major position.
pub open spec fn next_cell(width: int, height: int, cells: Seq<CellState>, index: int) -> CellState {
    next_state(
        cells[index],
        live_neighbors(
            width,
            height,
            cells,
            coord_of(width, index).0,
            coord_of(width, index).1,
        ),
    )
}

/// The next generation of a whole grid.
pub open spec fn next_cells(width: int, height: int, cells: Seq<CellState>) -> Seq<CellState> {
    Seq::new(cells.len(), |index: int| next_cell(width, height, cells, index))
}

/// A grid of dead cells has no live cell at any coordinate.
proof fn lemma_blank_has_no_live_cell(width: int, height: int, x: int, y: int)
    requires
        0 < width,
        0 < height,
    ensures
        !alive_at(width, height, blank((width * height) as nat), x, y),
{
    if 0 <= x < width && 0 <= y < height {
        lemma_index_in_range(width, height, x, y);
    }
}

/// No life comes from nothing: the next generation of a grid of dead cells
/// is a grid of dead cells.
pub proof fn lemma_dead_grid_stays_dead(width: int, height: int)
    requires
        0 < width,
        0 < height,
    ensures
        next_cells(width, height, blank((width * height) as nat)) == blank(
            (width * height) as nat,
        ),
{
    let cells = blank((width * height) as nat);
    assert(0 < width * height) by (nonlinear_arith)
        requires
            0 < width,
            0 < height,
    ;
    assert forall|index: int| 0 <= index < cells.len() implies next_cell(
        width,
        height,
        cells,
        index,
    ) == CellState::Dead by {
        let x = coord_of(width, index).0;
        let y = coord_of(width, index).1;
        lemma_blank_has_no_live_cell(width, height, x - 1, y - 1);
        lemma_blank_has_no_live_cell(width, height, x, y - 1);
        lemma_blank_has_no_live_cell(width, height, x + 1, y - 1);
        lemma_blank_has_no_live_cell(width, height, x - 1, y);
        lemma_blank_has_no_live_cell(width, height, x + 1, y);
        lemma_blank_has_no_live_cell(width, height, x - 1, y + 1);
        lemma_blank_has_no_live_cell(width, height, x, y + 1);
        lemma_blank_has_no_live_cell(width, height, x + 1, y + 1);
    }
    assert(next_cells(width, height, cells) =~= cells);
}

/// A cell without a live neighbour is dead in the next generation: a live
/// cell that stands alone dies, and a dead one is not born.
pub proof fn lemma_isolated_cell_dies(
    width: int,
    height: int,
    cells: Seq<CellState>,
    x: int,
    y: int,
)
    requires
        cells.len() == width * height,
        0 <= x < width,
        0 <= y < height,
        live_neighbors(width, height, cells, x, y) == 0,
    ensures
        0 <= index_of(width, x, y) < cells.len(),
        next_cells(width, height, cells)[index_of(width, x, y)] == CellState::Dead,
{
    lemma_index_in_range(width, height, x, y);
    lemma_coord_of_index(width, height, x, y);
}

/// The cell at a position inside the grid is alive exactly if there is a
/// live cell at its coordinate.
proof fn lemma_alive_at_coord(width: int, height: int, cells: Seq<CellState>, index: int)
    requires
        0 < width,
        0 <= index < width * height,
    ensures
        alive_at(width, height, cells, coord_of(width, index).0, coord_of(width, index).1) <==> cells[index]
            == CellState::Alive,
{
    lemma_coord_in_range(width, height, index);
    lemma_index_of_coord(width, height, index);
}

/// The coordinate belongs to the square of two by two cells whose first
/// cell is in column `x` of row `y`.
pub open spec fn in_block(x: int, y: int, cx: int, cy: int) -> bool {
    &&& x <= cx <= x + 1
    &&& y <= cy <= y + 1
}

/// A square of two by two live cells with no other live cell next to it
/// stays alive, in the middle of the grid or at an edge: each of its cells
/// has the other three as its live neighbours.
pub proof fn lemma_block_survives(width: int, height: int, cells: Seq<CellState>, x: int, y: int)
    requires
        cells.len() == width * height,
        0 <= x,
        x + 1 < width,
        0 <= y,
        y + 1 < height,
        forall|cx: int, cy: int|
            x - 1 <= cx <= x + 2 && y - 1 <= cy <= y + 2 ==> (#[trigger] alive_at(
                width,
                height,
                cells,
                cx,
                cy,
            ) <==> in_block(x, y, cx, cy)),
    ensures
        forall|cx: int, cy: int|
            in_block(x, y, cx, cy) ==> next_cells(width, height, cells)[#[trigger] index_of(
                width,
                cx,
                cy,
            )] == CellState::Alive,
{
    assert forall|cx: int, cy: int| in_block(x, y, cx, cy) implies next_cells(
        width,
        height,
        cells,
    )[#[trigger] index_of(width, cx, cy)] == CellState::Alive by {
        lemma_index_in_range(width, height, cx, cy);
        lemma_coord_of_index(width, height, cx, cy);
        assert(alive_at(width, height, cells, cx, cy));
        assert(live_neighbors(width, height, cells, cx, cy) == 3);
    }
}

/// One for a coordinate of the square, zero for any other.
pub open spec fn block_at(x: int, y: int, cx: int, cy: int) -> nat {
    if in_block(x, y, cx, cy) {
        1
    } else {
        0
    }
}

/// The number of cells of the square among the neighbours of a coordinate.
pub open spec fn block_neighbors(x: int, y: int, cx: int, cy: int) -> nat {
    block_at(x, y, cx - 1, cy - 1) + block_at(x, y, cx, cy - 1) + block_at(x, y, cx + 1, cy - 1)
        + block_at(x, y, cx - 1, cy) + block_at(x, y, cx + 1, cy) + block_at(x, y, cx - 1, cy + 1)
        + block_at(x, y, cx, cy + 1) + block_at(x, y, cx + 1, cy + 1)
}

/// A cell of the square has the other three as neighbours; a cell outside
/// it has at most two of them.
proof fn lemma_block_neighbors(x: int, y: int, cx: int, cy: int)
    ensures
        in_block(x, y, cx, cy) ==> block_neighbors(x, y, cx, cy) == 3,
        !in_block(x, y, cx, cy) ==> block_neighbors(x, y, cx, cy) <= 2,
{
}

/// In a grid whose only live cells are the square, a coordinate has as many
/// live neighbours as it has neighbours in the square.
proof fn lemma_live_neighbors_of_block(
    width: int,
    height: int,
    cells: Seq<CellState>,
    x: int,
    y: int,
    cx: int,
    cy: int,
)
    requires
        forall|ax: int, ay: int| #[trigger]
            alive_at(width, height, cells, ax, ay) <==> in_block(x, y, ax, ay),
    ensures
        live_neighbors(width, height, cells, cx, cy) == block_neighbors(x, y, cx, cy),
{
    assert(live_at(width, height, cells, cx - 1, cy - 1) == block_at(x, y, cx - 1, cy - 1));
    assert(live_at(width, height, cells, cx, cy - 1) == block_at(x, y, cx, cy - 1));
    assert(live_at(width, height, cells, cx + 1, cy - 1) == block_at(x, y, cx + 1, cy - 1));
    assert(live_at(width, height, cells, cx - 1, cy) == block_at(x, y, cx - 1, cy));
    assert(live_at(width, height, cells, cx + 1, cy) == block_at(x, y, cx + 1, cy));
    assert(live_at(width, height, cells, cx - 1, cy + 1) == block_at(x, y, cx - 1, cy + 1));
    assert(live_at(width, height, cells, cx, cy + 1) == block_at(x, y, cx, cy + 1));
    assert(live_at(width, height, cells, cx + 1, cy + 1) == block_at(x, y, cx + 1, cy + 1));
}

/// In a grid whose only live cells are the square, no cell changes its
/// state.
proof fn lemma_block_cell_unchanged(
    width: int,
    height: int,
    cells: Seq<CellState>,
    x: int,
    y: int,
    index: int,
)
    requires
        0 < width,
        0 <= index < width * height,
        forall|ax: int, ay: int| #[trigger]
            alive_at(width, height, cells, ax, ay) <==> in_block(x, y, ax, ay),
    ensures
        next_cell(width, height, cells, index) == cells[index],
{
    let cx = coord_of(width, index).0;
    let cy = coord_of(width, index).1;
    lemma_alive_at_coord(width, height, cells, index);
    lemma_live_neighbors_of_block(width, height, cells, x, y, cx, cy);
    lemma_block_neighbors(x, y, cx, cy);
}

/// A grid whose only live cells are a square of two by two, in the middle
/// of the grid or at an edge, is a still life: its next generation is the
/// grid itself.
pub proof fn lemma_block_is_still_life(
    width: int,
    height: int,
    cells: Seq<CellState>,
    x: int,
    y: int,
)
    requires
        cells.len() == width * height,
        0 <= x,
        x + 1 < width,
        0 <= y,
        y + 1 < height,
        forall|cx: int, cy: int|
            0 <= cx < width && 0 <= cy < height ==> (#[trigger] alive_at(
                width,
                height,
                cells,
                cx,
                cy,
            ) <==> in_block(x, y, cx, cy)),
    ensures
        next_cells(width, height, cells) == cells,
{
    assert forall|ax: int, ay: int| #[trigger]
        alive_at(width, height, cells, ax, ay) <==> in_block(x, y, ax, ay) by {
        if !(0 <= ax < width && 0 <= ay < height) {
            assert(!in_block(x, y, ax, ay));
        }
    }
    assert forall|index: int| 0 <= index < cells.len() implies #[trigger] next_cell(
        width,
        height,
        cells,
        index,
    ) == cells[index] by {
        lemma_block_cell_unchanged(width, height, cells, x, y, index);
    }
    assert(next_cells(width, height, cells) =~= cells);
}

/// Whether the cell at a coordinate inside the grid is alive.
fn is_live(grid: &CellGrid, x: usize, y: usize) -> (alive: bool)
    requires
        grid.wf(),
        grid.in_bounds(x as int, y as int),
    ensures
        alive == alive_at(
            grid.spec_width() as int,
            grid.spec_height() as int,
            grid@,
            x as int,
            y as int,
        ),
{
    match grid.get(x, y) {
        Ok(state) => state.is_alive(),
        Err(_) => false,
    }
}

/// Counts the live neighbours of the cell in column `x` of row `y`.
pub fn count_live_neighbors(grid: &CellGrid, x: usize, y: usize) -> (count: u8)
    requires
        grid.wf(),
        grid.in_bounds(x as int, y as int),
    ensures
        count == live_neighbors(
            grid.spec_width() as int,
            grid.spec_height() as int,
            grid@,
            x as int,
            y as int,
        ),
{
    let width: usize = grid.width();
    let height: usize = grid.height();
    let left: bool = x > 0;
    let right: bool = x + 1 < width;
    let mut count: u8 = 0;
    if y > 0 {
        if left && is_live(grid, x - 1, y - 1) {
            count = count + 1;
        }
        if is_live(grid, x, y - 1) {
            count = count + 1;
        }
        if right && is_live(grid, x + 1, y - 1) {
            count = count + 1;
        }
    }
    if left && is_live(grid, x - 1, y) {
        count = count + 1;
    }
    if right && is_live(grid, x + 1, y) {
        count = count + 1;
    }
    if y + 1 < height {
        if left && is_live(grid, x - 1, y + 1) {
            count = count + 1;
        }
        if is_live(grid, x, y + 1) {
            count = count + 1;
        }
        if right && is_live(grid, x + 1, y + 1) {
            count = count + 1;
        }
    }
    count
}

/// Decides the state of a cell in the next generation from its state and the
/// number of its live neighbours.
pub fn apply_rule(state: CellState, count: u8) -> (next: CellState)
    ensures
        next == next_state(state, count as nat),
{
    match state {
        CellState::Alive => if count == 2 || count == 3 {
            CellState::Alive
        } else {
            CellState::Dead
        },
        CellState::Dead => if count == 3 {
            CellState::Alive
        } else {
            CellState::Dead
        },
    }
}

/// Computes the next generation of `current` into `next`, a grid of the same
/// shape. `current` is only read: every cell of the new generation is decided
/// from the old one.
pub fn step(current: &CellGrid, next: &mut CellGrid)
    requires
        current.wf(),
        old(next).wf(),
        old(next).same_shape(current),
    ensures
        final(next).wf(),
        final(next).same_shape(current),
        final(next)@ == next_cells(
            current.spec_width() as int,
            current.spec_height() as int,
            current@,
        ),
{
    let width: usize = current.width();
    let count: usize = current.len();
    let mut index: usize = 0;
    while index < count
        invariant
            index <= count,
            count == current@.len(),
            width == current.spec_width(),
            current.wf(),
            next.wf(),
            next.same_shape(current),
            forall|i: int|
                0 <= i < index ==> next@[i] == next_cell(
                    current.spec_width() as int,
                    current.spec_height() as int,
                    current@,
                    i,
                ),
        decreases count - index,
    {
        let (x, y) = idx_to_xy(width, index);
        proof {
            lemma_coord_in_range(width as int, current.spec_height() as int, index as int);
            lemma_index_of_coord(width as int, current.spec_height() as int, index as int);
        }
        let neighbors: u8 = count_live_neighbors(current, x, y);
        let state = match current.get(x, y) {
            Ok(state) => state,
            Err(_) => CellState::Dead,
        };
        match next.set(x, y, apply_rule(state, neighbors)) {
            Ok(()) => {},
            Err(_) => {},
        }
        index = index + 1;
    }
    assert(next@ =~= next_cells(
        current.spec_width() as int,
        current.spec_height() as int,
        current@,
    ));
}

} // verus!
