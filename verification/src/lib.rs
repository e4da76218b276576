//! A maze as a fixed grid of cell states, rendered to a flat buffer of
//! packed RGB pixels.
//!
//! Every executable function carries a contract over a mathematical model:
//! a color is a `u32` number, a maze is a sequence of rows of cell states,
//! and a pixel buffer is a sequence of colors.

pub mod color;
pub mod maze;
