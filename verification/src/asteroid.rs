//! The asteroid demonstration program.

use vstd::prelude::*;

verus! {

/// The asteroid demonstration: a program without state of its own. What it
/// shows lives in the poses and particle systems that it is handed.
#[derive(Debug, Clone, Copy, PartialEq, Eq, Structural)]
pub struct Asteroid {}

impl Asteroid {
    /// A fresh program.
    pub fn new() -> (a: Self)
        ensures
            a == (Asteroid {}),
    {
        Self {}
    }
}

} // verus!
