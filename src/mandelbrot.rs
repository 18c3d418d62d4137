//! Escape-time solving and the search for a structured region of the set.

pub mod find_center;
pub mod solve;

use vstd::prelude::*;

verus! {

/// Number of iterations after which an orbit is taken to be bounded.
pub const MAX_ITER: u64 = 1024;

/// Outcome of the escape-time test for one pixel.
#[derive(Clone, Copy, Debug, PartialEq, Eq, Structural)]
pub struct Point {
    /// whether the orbit left the escape radius
    pub is_diverged: bool,
    /// the step at which it did, or the cap when it did not
    pub iter: u64,
}

impl Point {
    /// A bounded point carries the cap; a diverged one a step in `1..=MAX_ITER`.
    pub open spec fn wf(self) -> bool {
        if self.is_diverged {
            1 <= self.iter <= MAX_ITER
        } else {
            self.iter == MAX_ITER
        }
    }
}

/// Ways in which the search for a structured region ends without a center.
#[derive(Clone, Copy, Debug, PartialEq, Eq, Structural)]
pub enum SearchError {
    /// every quadrant of the coarse grid scored zero: no boundary is visible
    NoStructureFound,
    /// a resolution axis is zero, or the target spacing is not positive
    InvalidConfiguration,
}

} // verus!
