use vstd::prelude::*;

verus! {

/// A point or a displacement of the plane.
///
/// The number type `S` belongs to the host: the library stores and copies
/// coordinates and never computes with them.
#[derive(Clone, Copy, Debug)]
pub struct Vec2<S> {
    pub x: S,
    pub y: S,
}

/// The vector with the coordinates `x` and `y`.
pub fn vec2<S>(x: S, y: S) -> (v: Vec2<S>)
    ensures
        v.x == x,
        v.y == y,
{
    Vec2 { x, y }
}

} // verus!
