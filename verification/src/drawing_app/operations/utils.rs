//! Geometry shared by the drawing operations: which cells lie on the canvas,
//! inside a rectangle, or on a rectangle's border.

use crate::drawing_app::canvas::{Canvas, Cell, Dimensions, Point};
use vstd::prelude::*;

verus! {

/// `index` lies among the `length` positions that begin at `start`.
pub open spec fn in_bound(index: int, start: int, length: int) -> bool {
    start <= index < start + length
}

/// The rectangle covers at least one cell.
pub open spec fn has_area(dimensions: Dimensions) -> bool {
    dimensions.width > 0 && dimensions.height > 0
}

/// The cell lies inside the rectangle that has its upper-left corner at
/// `position`.
pub open spec fn in_rectangle(cell: Cell, position: Point, dimensions: Dimensions) -> bool {
    &&& in_bound(cell.0, position.x as int, dimensions.width as int)
    &&& in_bound(cell.1, position.y as int, dimensions.height as int)
}

/// The cell lies on the top or the bottom row of the rectangle.
pub open spec fn on_row_edge(cell: Cell, position: Point, dimensions: Dimensions) -> bool {
    &&& cell.1 == position.y || cell.1 == position.y + dimensions.height - 1
    &&& in_bound(cell.0, position.x as int, dimensions.width as int)
}

/// The cell lies on the leftmost or the rightmost column of the rectangle.
pub open spec fn on_column_edge(cell: Cell, position: Point, dimensions: Dimensions) -> bool {
    &&& cell.0 == position.x || cell.0 == position.x + dimensions.width - 1
    &&& in_bound(cell.1, position.y as int, dimensions.height as int)
}

/// The cell lies on the border of the rectangle.
pub open spec fn on_edge(cell: Cell, position: Point, dimensions: Dimensions) -> bool {
    on_row_edge(cell, position, dimensions) || on_column_edge(cell, position, dimensions)
}

/// The cells of a rectangle.
pub open spec fn rectangle(position: Point, dimensions: Dimensions) -> Set<Cell> {
    Set::new(|cell: Cell| in_rectangle(cell, position, dimensions))
}

/// The cells on the border of a rectangle.
pub open spec fn border(position: Point, dimensions: Dimensions) -> Set<Cell> {
    Set::new(|cell: Cell| on_edge(cell, position, dimensions))
}

/// The cell that a point names.
pub open spec fn cell_of(point: Point) -> Cell {
    (point.x as int, point.y as int)
}

/// The character at `position`, which must lie on the canvas.
pub fn get_canvas_pixel(canvas: &Canvas, position: &Point) -> (pixel: char)
    requires
        canvas.well_formed(),
        canvas@.contains(cell_of(*position)),
    ensures
        pixel == canvas@.at(cell_of(*position)),
{
    assert(canvas@.rows[position.y as int] == canvas.pixels@[position.y as int]@);
    canvas.pixels[position.y as usize][position.x as usize]
}

/// Whether `start_point` lies within the canvas's extent.
pub fn position_is_on_canvas(canvas: &Canvas, start_point: &Point) -> (on_canvas: bool)
    ensures
        on_canvas == canvas@.contains(cell_of(*start_point)),
{
    start_point.x >= 0 && start_point.y >= 0 && start_point.x < canvas.dimensions.width
        && start_point.y < canvas.dimensions.height
}

/// Whether `index` lies among the `length` positions that begin at `start`.
pub fn index_is_in_bound(index: i32, start: i32, length: i32) -> (inside: bool)
    ensures
        inside == in_bound(index as int, start as int, length as int),
{
    index >= start && (index as i64) < length as i64 + start as i64
}

/// Whether the rectangle covers at least one cell.
pub fn rectangle_size_is_none_zero(dimensions: &Dimensions) -> (some: bool)
    ensures
        some == has_area(*dimensions),
{
    dimensions.width > 0 && dimensions.height > 0
}

/// Whether the cell lies on the top or the bottom row of the rectangle.
fn is_row_edge(
    dimensions: &Dimensions,
    start_point: &Point,
    row_index: i32,
    column_index: i32,
) -> (on_line: bool)
    ensures
        on_line == on_row_edge((column_index as int, row_index as int), *start_point, *dimensions),
{
    is_on_line(
        dimensions.width,
        dimensions.height,
        start_point.y,
        start_point.x,
        row_index,
        column_index,
    )
}

/// Whether the cell lies on the leftmost or the rightmost column of the
/// rectangle.
fn is_column_edge(
    dimensions: &Dimensions,
    start_point: &Point,
    row_index: i32,
    column_index: i32,
) -> (on_line: bool)
    ensures
        on_line == on_column_edge(
            (column_index as int, row_index as int),
            *start_point,
            *dimensions,
        ),
{
    is_on_line(
        dimensions.height,
        dimensions.width,
        start_point.x,
        start_point.y,
        column_index,
        row_index,
    )
}

/// Two parallel lines run `length - 1` apart, the first through
/// `start_position_x`; each spans `distance` positions from
/// `start_position_y` on. Whether the point lies on one of them.
fn is_on_line(
    distance: i32,
    length: i32,
    start_position_x: i32,
    start_position_y: i32,
    point_x: i32,
    point_y: i32,
) -> (on_line: bool)
    ensures
        on_line == ((point_x == start_position_x || point_x == start_position_x + length - 1)
            && in_bound(point_y as int, start_position_y as int, distance as int)),
{
    (point_x == start_position_x || point_x as i64 == start_position_x as i64 + length as i64 - 1)
        && (point_y >= start_position_y && point_y as i64 <= start_position_y as i64
        + distance as i64 - 1)
}

/// Whether the cell in row `row_index` and column `column_index` lies on the
/// border of the rectangle.
pub fn is_edge(dimensions: &Dimensions, start_point: &Point, row_index: i32, column_index: i32) -> (edge: bool)
    ensures
        edge == on_edge((column_index as int, row_index as int), *start_point, *dimensions),
{
    is_row_edge(dimensions, start_point, row_index, column_index) || is_column_edge(
        dimensions,
        start_point,
        row_index,
        column_index,
    )
}

} // verus!
