//! The requests of the drawing routes.

use crate::drawing_app::canvas::{Dimensions, Point};
use vstd::prelude::*;

verus! {

/// What the rectangle route is sent: a rectangle, and for its filling and
/// its outline either one character or the word "none".
#[derive(Clone, Debug)]
pub struct DrawRectangleOperation {
    pub position: Point,
    pub dimensions: Dimensions,
    pub fill_character: String,
    pub outline_character: String,
}

/// The word that stands for "leave this out" in a character field. Case of
/// the letters does not count.
pub const NONE_CHARACTER: &'static str = "none";

/// What the flood-fill route is sent: where to start, and either the
/// character to fill with or the word "none".
#[derive(Clone, Debug)]
pub struct FloodFillOperation {
    pub position: Point,
    pub fill_character: String,
}

} // verus!
