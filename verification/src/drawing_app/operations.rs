//! The three drawing operations and the geometry they share.

pub mod draw_fill_rectangle;
pub mod draw_flood_fill_rectangle;
pub mod draw_outline_rectangle;
pub mod utils;
