use vstd::prelude::*;
use crate::scalar::Scalar;

verus! {

/// A colour by its red, green and blue channels, each meant to lie between
/// zero and one. Nothing clamps them.
#[derive(Clone, Copy, Debug, PartialEq, Eq, Structural)]
pub struct Color {
    pub r: Scalar,
    pub g: Scalar,
    pub b: Scalar,
}

impl Color {
    /// The colour with the given channels.
    pub fn new(r: Scalar, g: Scalar, b: Scalar) -> (c: Color)
        ensures
            c.r == r,
            c.g == g,
            c.b == b,
    {
        Color { r, g, b }
    }
}

} // verus!
