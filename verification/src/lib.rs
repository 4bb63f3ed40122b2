//! A canvas of characters that is drawn on with three commands: fill a
//! rectangle, outline a rectangle, flood-fill a patch.
//!
//! - [`drawing_app`] holds the canvas, the commands, the engine that applies
//!   a list of commands, and the text in which a canvas is stored.
//! - [`server`] holds the rules of the service in front of the canvas: how a
//!   request becomes commands, how a canvas becomes a page, how a rejected
//!   request becomes an error message.
//! - [`config`] reads the configuration off a command line.
//!
//! Nothing here reads or writes a file or a socket; that is left to the
//! program around the library. Every function is verified against a
//! mathematical model of the canvas, [`drawing_app::canvas::Grid`].

pub mod config;
pub mod drawing_app;
pub mod server;
