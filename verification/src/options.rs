//! The option types of the command-line driver: which sketch to run.
//! Argument parsing itself lives with the driver; the library only fixes
//! the closed set of recognized sketches and its default.

use vstd::prelude::*;

verus! {

/// The sketches a driver can run, one per rule set or demo scene.
#[derive(Clone, Copy, Debug, PartialEq, Eq, Structural)]
pub enum RunOptions {
    /// A field of dots displaced by Perlin noise.
    PerlinNoise,
    /// A sine wave whose amplitude wanders with noise.
    AmplitudeNoise,
    /// The falling-sand automaton.
    FallingSand,
    /// The cyclic red-green-blue color transition.
    RgbLinearTransition,
    /// Conway's game of life.
    GameOfLife,
    /// The basic shapes demo scene.
    InitialShapes,
}

/// The parsed command line: the name of the sketch to run.
#[derive(Clone, Copy, Debug, PartialEq, Eq, Structural)]
pub struct Args {
    pub name: RunOptions,
}

impl RunOptions {
    /// The sketch a driver falls back to when none is named.
    pub fn default_option() -> (option: RunOptions)
        ensures
            option == RunOptions::InitialShapes,
    {
        RunOptions::InitialShapes
    }
}

} // verus!
