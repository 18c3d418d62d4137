use vstd::prelude::*;

verus! {

/// Two-dimensional information: a grid resolution, a plane position or a spacing.
#[derive(Clone, Copy, Debug, PartialEq, Eq, Structural)]
pub struct Coord<T> {
    /// horizontal
    pub x: T,
    /// vertical
    pub y: T,
}

} // verus!
