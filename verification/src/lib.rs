//! A small application-framework layer over a native rendering stack,
//! together with a verified falling-sand cellular automaton.
//!
//! The algorithmic core is [`grid::SandGrid`]: a fixed-size 2-D cell array
//! with point and radius painting, a discrete gravity-driven settling step,
//! and a dirty-flag-gated upload of its pixel representation.

pub mod cell;
pub mod coin;
pub mod framework;
pub mod grid;
pub mod pixbuf;
pub mod upload;
