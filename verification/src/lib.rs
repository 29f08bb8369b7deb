//! Matchstick equation puzzles: equations rendered as segment glyphs, where a
//! fixed budget of segment relocations turns one equation into another.
//!
//! The library enumerates every way a movement budget can be distributed over
//! the positions of an equation, maps the resulting segment patterns back to
//! symbols, expands the per-position choices into candidate equations, and
//! keeps the candidates that are arithmetically true.

pub mod equation;
pub mod product;
pub mod puzzle;
pub mod segment_display;
pub mod symbol;
pub mod transition;
pub mod validation;
