//! Client-side core of a line-framed media-player control protocol.
//!
//! The crate covers the wire-level frame codec shared by the control and
//! the push connection, the handshake and routing rules of the
//! subscription multiplexer, a time-interpolating playback-progress
//! clock, and the shared playback-state store that poll results and push
//! events are reconciled into. Socket handling, threads and terminal
//! rendering live outside the library and only exchange plain values
//! with it.

pub mod app;
pub mod ascii;
pub mod json;
pub mod models;
pub mod num;
pub mod player;
pub mod rpc;
pub mod ui;
