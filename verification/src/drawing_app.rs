//! The canvas, the drawing commands and the engine that applies them.

pub mod application;
pub mod canvas;
pub mod commands;
pub mod operations;
pub mod storage;
