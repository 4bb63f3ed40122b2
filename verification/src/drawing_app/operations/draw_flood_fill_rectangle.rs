//! Flood fill: repainting the connected patch of equal characters that a
//! cell belongs to.

use crate::drawing_app::canvas::{Canvas, Cell, Grid, Point};
use crate::drawing_app::commands::DrawCommand;
use crate::drawing_app::operations::utils::{cell_of, get_canvas_pixel, position_is_on_canvas};
use vstd::prelude::*;

verus! {

/// The two cells share a side.
pub open spec fn adjacent(a: Cell, b: Cell) -> bool {
    ||| a.0 == b.0 && (a.1 == b.1 + 1 || a.1 + 1 == b.1)
    ||| a.1 == b.1 && (a.0 == b.0 + 1 || a.0 + 1 == b.0)
}

/// `walk` visits cells of the grid that all hold `colour`, each one sharing
/// a side with the one before it.
pub open spec fn is_walk(grid: Grid, colour: char, walk: Seq<Cell>) -> bool {
    &&& walk.len() > 0
    &&& forall|i: int|
        0 <= i < walk.len() ==> grid.contains(#[trigger] walk[i]) && grid.at(walk[i]) == colour
    &&& forall|i: int, j: int|
        0 <= i && j == i + 1 && j < walk.len() ==> adjacent(#[trigger] walk[i], #[trigger] walk[j])
}

/// `walk` is a walk over `colour` that leads from `from` to `to`.
pub open spec fn joins(grid: Grid, colour: char, walk: Seq<Cell>, from: Cell, to: Cell) -> bool {
    is_walk(grid, colour, walk) && walk[0] == from && walk.last() == to
}

/// `to` can be reached from `from` by steps up, down, left and right over
/// cells that hold `colour`, both ends included.
pub open spec fn connected(grid: Grid, colour: char, from: Cell, to: Cell) -> bool {
    exists|walk: Seq<Cell>| #[trigger] joins(grid, colour, walk, from, to)
}

/// The largest patch of cells holding `colour` that is connected to `from`.
/// It is empty unless `from` lies on the grid and holds `colour` itself.
pub open spec fn region(grid: Grid, from: Cell, colour: char) -> Set<Cell> {
    Set::new(|cell: Cell| connected(grid, colour, from, cell))
}

/// The grid after the patch of `current` around `start` was repainted with
/// `fill`; every other cell is as it was.
pub open spec fn flood(grid: Grid, start: Cell, current: char, fill: char) -> Grid {
    grid.paint(region(grid, start, current), fill)
}

/// What a flood-fill command does: it repaints the patch around `position`
/// that holds the character found at `position`. A position off the grid
/// leaves the grid as it is.
pub open spec fn flood_fill_of(grid: Grid, position: Point, fill: char) -> Grid {
    if grid.contains(cell_of(position)) {
        flood(grid, cell_of(position), grid.at(cell_of(position)), fill)
    } else {
        grid
    }
}

/// A cell that holds `colour` is connected to itself.
pub proof fn lemma_connected_to_itself(grid: Grid, colour: char, cell: Cell)
    requires
        grid.contains(cell),
        grid.at(cell) == colour,
    ensures
        connected(grid, colour, cell, cell),
{
    assert(joins(grid, colour, seq![cell], cell, cell));
}

/// A connection can be extended by one step onto a neighbour that holds
/// `colour`.
pub proof fn lemma_connected_extends(grid: Grid, colour: char, from: Cell, to: Cell, next: Cell)
    requires
        connected(grid, colour, from, to),
        adjacent(to, next),
        grid.contains(next),
        grid.at(next) == colour,
    ensures
        connected(grid, colour, from, next),
{
    let walk = choose|walk: Seq<Cell>| joins(grid, colour, walk, from, to);
    let longer = walk.push(next);
    assert(joins(grid, colour, longer, from, next));
}

/// Both ends of a connection lie on the grid and hold `colour`.
pub proof fn lemma_connected_ends(grid: Grid, colour: char, from: Cell, to: Cell)
    requires
        connected(grid, colour, from, to),
    ensures
        grid.contains(from),
        grid.at(from) == colour,
        grid.contains(to),
        grid.at(to) == colour,
{
}

/// A flood fill that starts off the grid, or names as current a character
/// other than the one at its start, or fills with the character that is
/// already there, changes nothing.
pub proof fn lemma_flood_without_effect(grid: Grid, start: Cell, current: char, fill: char)
    requires
        grid.well_formed(),
        !grid.contains(start) || grid.at(start) != current || current == fill,
    ensures
        flood(grid, start, current, fill) == grid,
{
    assert(flood(grid, start, current, fill).rows =~~= grid.rows);
}

/// The number of times `colour` occurs in a row.
spec fn count_in_row(row: Seq<char>, colour: char) -> nat
    decreases row.len(),
{
    if row.len() == 0 {
        0
    } else {
        count_in_row(row.drop_last(), colour) + if row.last() == colour {
            1nat
        } else {
            0nat
        }
    }
}

/// The number of cells that hold `colour`.
spec fn count_in_rows(rows: Seq<Seq<char>>, colour: char) -> nat
    decreases rows.len(),
{
    if rows.len() == 0 {
        0
    } else {
        count_in_rows(rows.drop_last(), colour) + count_in_row(rows.last(), colour)
    }
}

/// Repainting one occurrence of `colour` in a row leaves one occurrence
/// fewer.
proof fn lemma_count_in_row_after_repaint(row: Seq<char>, x: int, colour: char, fill: char)
    requires
        0 <= x < row.len(),
        row[x] == colour,
        fill != colour,
    ensures
        count_in_row(row.update(x, fill), colour) + 1 == count_in_row(row, colour),
    decreases row.len(),
{
    let repainted = row.update(x, fill);
    if x == row.len() - 1 {
        assert(repainted.drop_last() =~= row.drop_last());
    } else {
        assert(repainted.drop_last() =~= row.drop_last().update(x, fill));
        lemma_count_in_row_after_repaint(row.drop_last(), x, colour, fill);
    }
}

/// Repainting one cell that holds `colour` leaves one such cell fewer.
proof fn lemma_count_in_rows_after_repaint(
    rows: Seq<Seq<char>>,
    x: int,
    y: int,
    colour: char,
    fill: char,
)
    requires
        0 <= y < rows.len(),
        0 <= x < rows[y].len(),
        rows[y][x] == colour,
        fill != colour,
    ensures
        count_in_rows(rows.update(y, rows[y].update(x, fill)), colour) + 1 == count_in_rows(
            rows,
            colour,
        ),
    decreases rows.len(),
{
    let repainted = rows.update(y, rows[y].update(x, fill));
    if y == rows.len() - 1 {
        assert(repainted.drop_last() =~= rows.drop_last());
        lemma_count_in_row_after_repaint(rows[y], x, colour, fill);
    } else {
        assert(repainted.drop_last() =~= rows.drop_last().update(
            y,
            rows.drop_last()[y].update(x, fill),
        ));
        lemma_count_in_rows_after_repaint(rows.drop_last(), x, y, colour, fill);
    }
}

/// The cell held `current` at the start and holds `fill` now.
spec fn painted(initial: Grid, work: Grid, cell: Cell, current: char, fill: char) -> bool {
    initial.contains(cell) && initial.at(cell) == current && work.at(cell) == fill
}

/// The cell waits on the stack.
spec fn is_pending(pending: Seq<Point>, cell: Cell) -> bool {
    exists|i: int| 0 <= i < pending.len() && cell_of(#[trigger] pending[i]) == cell
}

/// Every neighbour of the cell that held `current` at the start has been
/// painted.
spec fn settled(initial: Grid, work: Grid, cell: Cell, current: char, fill: char) -> bool {
    forall|next: Cell|
        #[trigger] adjacent(cell, next) && initial.contains(next) && initial.at(next) == current
            ==> work.at(next) == fill
}

/// The state of a fill under way: `work` is the grid so far, `pending` the
/// painted cells whose neighbours are still to be looked at, `visiting` the
/// cell whose neighbours are being looked at.
spec fn in_progress(
    initial: Grid,
    work: Grid,
    pending: Seq<Point>,
    start: Cell,
    current: char,
    fill: char,
    visiting: Option<Cell>,
) -> bool {
    &&& current != fill
    &&& initial.well_formed()
    &&& work.well_formed()
    &&& work.width == initial.width
    &&& work.height == initial.height
    &&& painted(initial, work, start, current, fill)
    &&& forall|cell: Cell| #[trigger]
        initial.contains(cell) ==> work.at(cell) == initial.at(cell) || (painted(
            initial,
            work,
            cell,
            current,
            fill,
        ) && connected(initial, current, start, cell))
    &&& forall|i: int|
        0 <= i < pending.len() ==> painted(
            initial,
            work,
            cell_of(#[trigger] pending[i]),
            current,
            fill,
        )
    &&& forall|cell: Cell| #[trigger]
        painted(initial, work, cell, current, fill) ==> settled(
            initial,
            work,
            cell,
            current,
            fill,
        ) || is_pending(pending, cell) || visiting == Some(cell)
}

/// Along a walk from the start, every cell has been painted once nothing
/// is pending any more.
proof fn lemma_walk_is_painted(
    initial: Grid,
    work: Grid,
    start: Cell,
    current: char,
    fill: char,
    walk: Seq<Cell>,
    i: int,
)
    requires
        in_progress(initial, work, Seq::empty(), start, current, fill, None),
        is_walk(initial, current, walk),
        walk[0] == start,
        0 <= i < walk.len(),
    ensures
        work.at(walk[i]) == fill,
    decreases i,
{
    if i > 0 {
        lemma_walk_is_painted(initial, work, start, current, fill, walk, i - 1);
    }
}

/// With nothing pending, the grid so far is the flooded grid.
proof fn lemma_fill_is_complete(initial: Grid, work: Grid, start: Cell, current: char, fill: char)
    requires
        in_progress(initial, work, Seq::empty(), start, current, fill, None),
    ensures
        work == flood(initial, start, current, fill),
{
    let patch = region(initial, start, current);
    let flooded = flood(initial, start, current, fill);
    assert forall|y: int, x: int|
        0 <= y < initial.rows.len() && 0 <= x < initial.rows[y].len() implies work.rows[y][x]
        == flooded.rows[y][x] by {
        let cell = (x, y);
        assert(initial.contains(cell));
        if patch.contains(cell) {
            let walk = choose|walk: Seq<Cell>| joins(initial, current, walk, start, cell);
            lemma_walk_is_painted(initial, work, start, current, fill, walk, walk.len() - 1);
        }
    }
    assert(work.rows =~~= flooded.rows);
}

/// Sets one pixel.
fn paint_pixel(canvas: &mut Canvas, x: i32, y: i32, character: char)
    requires
        old(canvas).well_formed(),
        old(canvas)@.contains((x as int, y as int)),
    ensures
        final(canvas).well_formed(),
        final(canvas)@ == old(canvas)@.with_cell((x as int, y as int), character),
{
    assert(canvas@.rows[y as int] == canvas.pixels@[y as int]@);
    canvas.pixels[y as usize][x as usize] = character;
    assert(canvas@.rows =~~= old(canvas)@.with_cell((x as int, y as int), character).rows);
}

/// Looks at one neighbour of the cell `from`: where it lies on the canvas
/// and still holds `current`, it is painted and put on the stack.
fn visit(
    canvas: &mut Canvas,
    pending: &mut Vec<Point>,
    x: i32,
    y: i32,
    current: char,
    fill: char,
    Ghost(initial): Ghost<Grid>,
    Ghost(start): Ghost<Cell>,
    Ghost(from): Ghost<Cell>,
)
    requires
        in_progress(initial, old(canvas)@, old(pending)@, start, current, fill, Some(from)),
        painted(initial, old(canvas)@, from, current, fill),
        adjacent(from, (x as int, y as int)),
    ensures
        in_progress(initial, final(canvas)@, final(pending)@, start, current, fill, Some(from)),
        initial.contains((x as int, y as int)) && initial.at((x as int, y as int)) == current
            ==> final(canvas)@.at((x as int, y as int)) == fill,
        forall|cell: Cell| #[trigger]
            initial.contains(cell) && old(canvas)@.at(cell) == fill ==> final(canvas)@.at(cell)
                == fill,
        2 * count_in_rows(final(canvas)@.rows, current) + final(pending)@.len() <= 2
            * count_in_rows(old(canvas)@.rows, current) + old(pending)@.len(),
{
    let neighbour = Point { x, y };
    let ghost cell = (x as int, y as int);
    let ghost before = canvas@;
    if position_is_on_canvas(canvas, &neighbour) && get_canvas_pixel(canvas, &neighbour)
        == current {
        paint_pixel(canvas, x, y, fill);
        pending.push(neighbour);
        proof {
            let work = canvas@;
            lemma_connected_extends(initial, current, start, from, cell);
            lemma_count_in_rows_after_repaint(before.rows, x as int, y as int, current, fill);
            assert(cell_of(pending@[pending@.len() - 1]) == cell);
            assert forall|other: Cell| #[trigger]
                painted(initial, work, other, current, fill) implies settled(
                initial,
                work,
                other,
                current,
                fill,
            ) || is_pending(pending@, other) || Some(from) == Some(other) by {
                if other != cell {
                    if is_pending(old(pending)@, other) {
                        let i = choose|i: int|
                            0 <= i < old(pending)@.len() && cell_of(#[trigger] old(pending)@[i])
                                == other;
                        assert(pending@[i] == old(pending)@[i]);
                    }
                }
            }
        }
    }
}

/// Repaints with `flood_fill_character` the connected patch of
/// `current_character` that `position` belongs to.
///
/// Nothing changes where `position` lies off the canvas, where the pixel
/// there is not `current_character`, or where the two characters are the
/// same. Cells are worked off a stack, so a large canvas costs memory in
/// proportion to its cells and no call depth.
pub fn flood_fill(
    canvas: &mut Canvas,
    position: &Point,
    current_character: char,
    flood_fill_character: char,
)
    requires
        old(canvas).well_formed(),
    ensures
        final(canvas).well_formed(),
        final(canvas)@ == flood(
            old(canvas)@,
            cell_of(*position),
            current_character,
            flood_fill_character,
        ),
{
    let ghost initial = canvas@;
    let ghost start = cell_of(*position);
    if !position_is_on_canvas(canvas, position) {
        proof {
            lemma_flood_without_effect(initial, start, current_character, flood_fill_character);
        }
        return ;
    }
    if get_canvas_pixel(canvas, position) != current_character {
        proof {
            lemma_flood_without_effect(initial, start, current_character, flood_fill_character);
        }
        return ;
    }
    if current_character == flood_fill_character {
        proof {
            lemma_flood_without_effect(initial, start, current_character, flood_fill_character);
        }
        return ;
    }
    paint_pixel(canvas, position.x, position.y, flood_fill_character);
    let mut pending: Vec<Point> = Vec::new();
    pending.push(*position);
    proof {
        lemma_connected_to_itself(initial, current_character, start);
        assert(cell_of(pending@[0]) == start);
    }
    while pending.len() > 0
        invariant
            in_progress(
                initial,
                canvas@,
                pending@,
                start,
                current_character,
                flood_fill_character,
                None,
            ),
        decreases 2 * count_in_rows(canvas@.rows, current_character) + pending@.len(),
    {
        let ghost stacked = pending@;
        let cell = pending.pop().unwrap();
        let ghost here = cell_of(cell);
        proof {
            assert forall|other: Cell| #[trigger]
                painted(
                    initial,
                    canvas@,
                    other,
                    current_character,
                    flood_fill_character,
                ) implies settled(
                initial,
                canvas@,
                other,
                current_character,
                flood_fill_character,
            ) || is_pending(pending@, other) || Some(here) == Some(other) by {
                if is_pending(stacked, other) && other != here {
                    let i = choose|i: int|
                        0 <= i < stacked.len() && cell_of(#[trigger] stacked[i]) == other;
                    assert(pending@[i] == stacked[i]);
                }
            }
        }
        visit(
            canvas,
            &mut pending,
            cell.x,
            cell.y + 1,
            current_character,
            flood_fill_character,
            Ghost(initial),
            Ghost(start),
            Ghost(here),
        );
        visit(
            canvas,
            &mut pending,
            cell.x,
            cell.y - 1,
            current_character,
            flood_fill_character,
            Ghost(initial),
            Ghost(start),
            Ghost(here),
        );
        visit(
            canvas,
            &mut pending,
            cell.x + 1,
            cell.y,
            current_character,
            flood_fill_character,
            Ghost(initial),
            Ghost(start),
            Ghost(here),
        );
        visit(
            canvas,
            &mut pending,
            cell.x - 1,
            cell.y,
            current_character,
            flood_fill_character,
            Ghost(initial),
            Ghost(start),
            Ghost(here),
        );
    }
    proof {
        lemma_fill_is_complete(
            initial,
            canvas@,
            start,
            current_character,
            flood_fill_character,
        );
    }
}

/// Carries out a flood-fill command on a copy of the canvas: the patch
/// around `command.position` that holds the character found there is
/// repainted with `command.character`.
pub fn execute(previous_state_canvas: &Canvas, command: &DrawCommand) -> (canvas: Canvas)
    requires
        previous_state_canvas.well_formed(),
    ensures
        canvas.well_formed(),
        canvas@ == flood_fill_of(previous_state_canvas@, command.position, command.character),
{
    let mut new_canvas = previous_state_canvas.clone();
    if position_is_on_canvas(&new_canvas, &command.position) {
        let current_character = get_canvas_pixel(&new_canvas, &command.position);
        flood_fill(&mut new_canvas, &command.position, current_character, command.character);
    }
    new_canvas
}

} // verus!
