//! Procedural growth of an ASCII bonsai: a recursive, randomly biased walk of
//! branches whose every cell write is a function of the random draws it consumed.

pub mod branch_type;
pub mod random;
pub mod set_deltas;
pub mod config;
pub mod glyph;
pub mod sprout;
pub mod grow;
