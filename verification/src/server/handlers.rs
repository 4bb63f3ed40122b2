//! From requests to drawing commands, and from canvases and failures to
//! responses.

pub mod draw_rectangle;
pub mod errors;
pub mod flood_fill;
pub mod handle_rejections;
pub mod request;
pub mod utils;
