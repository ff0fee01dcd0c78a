//! State-synchronisation engine of a shared pixel canvas.
//!
//! The crate holds the canvas, its wire format, the periodic checkpoint with
//! its delta log, and the decisions that the mutation pipeline and every
//! connection take. Sockets, channels and timers are left to the caller.

pub mod primitives;
pub mod records;
pub mod laws;
pub mod canvas;
pub mod frames;
pub mod place;
pub mod pipeline;
pub mod connection;
