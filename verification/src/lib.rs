//! Core of a Pixelflut server: a streaming command parser over a byte ring,
//! a BGRA pixel canvas with alpha blending, and the per-connection command
//! execution rules, all with verified contracts.

pub mod bgra;
pub mod canvas;
pub mod command;
pub mod command_ring;
pub mod parser_laws;
pub mod pfparse;
pub mod replies;
pub mod ring_coordination;
pub mod pixelflut_connection_handler;
