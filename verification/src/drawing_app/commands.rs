//! The drawing commands.

use crate::drawing_app::canvas::{Dimensions, Point};
use vstd::prelude::*;

verus! {

/// The kinds of drawing command.
#[derive(Clone, Copy, Debug, PartialEq, Eq, Structural)]
pub enum CommandName {
    FillRectangle,
    OutlineRectangle,
    FloodFill,
}

/// One requested change to the canvas.
///
/// `position` is the upper-left corner of a rectangle, or the cell a flood
/// fill starts from. `dimensions` belongs to the two rectangle commands; a
/// rectangle command without it draws nothing, and a flood fill ignores it.
#[derive(Clone, Copy, Debug)]
pub struct DrawCommand {
    pub name: CommandName,
    pub position: Point,
    pub dimensions: Option<Dimensions>,
    pub character: char,
}

} // verus!
