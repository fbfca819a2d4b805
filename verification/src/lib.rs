//! A bounded two-dimensional cellular-automaton engine.
//!
//! The crate provides a fixed-size grid of cells, neighbor sampling under
//! explicit boundary policies, and two concrete transition rules: Conway's
//! game of life and a gravity-driven falling-sand automaton. A small
//! phase-driven color cycler and the option types of the surrounding
//! command-line driver round it out.

pub mod grid;
pub mod life;
pub mod options;
pub mod project;
pub mod rgb;
pub mod sand;
