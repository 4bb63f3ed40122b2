//! Outlined rectangles.

use crate::drawing_app::canvas::{Canvas, Dimensions, Grid, Point};
use crate::drawing_app::commands::DrawCommand;
use crate::drawing_app::operations::utils::{
    border,
    has_area,
    is_edge,
    rectangle_size_is_none_zero,
};
use vstd::prelude::*;

verus! {

/// What an outline-rectangle command does: every cell of the grid that lies
/// on the border of the rectangle holds `character` afterwards, every other
/// cell is as it was. Parts of the border beyond the grid are cut off.
/// Without dimensions, or with a rectangle without area, the grid stays as
/// it is.
pub open spec fn outline_rectangle_of(
    grid: Grid,
    position: Point,
    dimensions: Option<Dimensions>,
    character: char,
) -> Grid {
    match dimensions {
        Some(dimensions) if has_area(dimensions) => grid.paint(
            border(position, dimensions),
            character,
        ),
        _ => grid,
    }
}

/// Carries out an outline-rectangle command on a copy of the canvas.
pub fn execute(previous_state_canvas: &Canvas, command: &DrawCommand) -> (canvas: Canvas)
    requires
        previous_state_canvas.well_formed(),
    ensures
        canvas.well_formed(),
        canvas@ == outline_rectangle_of(
            previous_state_canvas@,
            command.position,
            command.dimensions,
            command.character,
        ),
{
    match command.dimensions {
        Some(dimensions) => {
            if rectangle_size_is_none_zero(&dimensions) {
                return draw_outline(previous_state_canvas, &dimensions, command);
            }
            previous_state_canvas.clone()
        },
        None => previous_state_canvas.clone(),
    }
}

/// Goes over every pixel of the canvas and repaints those on the border of
/// the rectangle.
fn draw_outline(
    previous_state_canvas: &Canvas,
    dimensions: &Dimensions,
    command: &DrawCommand,
) -> (canvas: Canvas)
    requires
        previous_state_canvas.well_formed(),
    ensures
        canvas.well_formed(),
        canvas@ == previous_state_canvas@.paint(
            border(command.position, *dimensions),
            command.character,
        ),
{
    let ghost target = previous_state_canvas@.paint(
        border(command.position, *dimensions),
        command.character,
    );
    let mut pixels: Vec<Vec<char>> = Vec::new();
    let mut row_index: usize = 0;
    while row_index < previous_state_canvas.pixels.len()
        invariant
            previous_state_canvas.well_formed(),
            target == previous_state_canvas@.paint(
                border(command.position, *dimensions),
                command.character,
            ),
            row_index <= previous_state_canvas.pixels@.len(),
            pixels@.len() == row_index,
            forall|j: int| 0 <= j < row_index ==> (#[trigger] pixels@[j])@ == target.rows[j],
        decreases previous_state_canvas.pixels@.len() - row_index,
    {
        let row = &previous_state_canvas.pixels[row_index];
        let mut new_row: Vec<char> = Vec::new();
        let mut column_index: usize = 0;
        while column_index < row.len()
            invariant
                previous_state_canvas.well_formed(),
                target == previous_state_canvas@.paint(
                    border(command.position, *dimensions),
                    command.character,
                ),
                row_index < previous_state_canvas.pixels@.len(),
                row@ == previous_state_canvas@.rows[row_index as int],
                column_index <= row@.len(),
                new_row@.len() == column_index,
                forall|i: int|
                    0 <= i < column_index ==> new_row@[i] == target.rows[row_index as int][i],
            decreases row@.len() - column_index,
        {
            let pixel = if is_edge(
                dimensions,
                &command.position,
                row_index as i32,
                column_index as i32,
            ) {
                command.character
            } else {
                row[column_index]
            };
            new_row.push(pixel);
            column_index = column_index + 1;
        }
        pixels.push(new_row);
        row_index = row_index + 1;
    }
    let canvas = Canvas { dimensions: previous_state_canvas.dimensions, pixels };
    assert(canvas@.rows =~~= target.rows);
    canvas
}

} // verus!
