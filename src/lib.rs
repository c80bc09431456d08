//! Rendering engine of a live terminal viewer that follows the tail of a
//! growing file: line assembly, wrapping with ANSI escape pass-through,
//! cursor bookkeeping and a pinned status row.

pub mod width;
pub mod terminal;
pub mod escape;
pub mod cursor;
pub mod clock;
pub mod layout;
pub mod viewer;
pub mod noecho;
