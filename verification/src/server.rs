//! The rules of the service in front of the canvas: what a request asks
//! for, and what is answered. The transport is left to the caller.

pub mod handlers;
