//! Sides of a box and per-side values.
use vstd::prelude::*;

verus! {

/// One side of a box.
#[derive(Clone, Copy, PartialEq, Eq, Structural, Debug)]
pub enum Side {
    Left,
    Right,
    Top,
    Bottom,
}

impl Side {
    /// Position of the side in a [`SideArray`]: `[left, right, top, bottom]`.
    pub open spec fn index(self) -> int {
        match self {
            Side::Left => 0,
            Side::Right => 1,
            Side::Top => 2,
            Side::Bottom => 3,
        }
    }

    /// Position of the side in a [`SideArray`].
    pub fn position(self) -> (r: usize)
        ensures
            r == self.index(),
    {
        match self {
            Side::Left => 0,
            Side::Right => 1,
            Side::Top => 2,
            Side::Bottom => 3,
        }
    }
}

/// A value for each side of a box, in the order `[left, right, top, bottom]`.
pub struct SideArray<T>(pub [T; 4]);

impl<T> SideArray<T> {
    /// The value for the given side.
    pub fn side(&self, side: Side) -> (r: &T)
        ensures
            *r == self.0@[side.index()],
    {
        &self.0[side.position()]
    }

    /// Mutable access to the value for the given side; the other sides are left as they were.
    pub fn side_mut(&mut self, side: Side) -> (r: &mut T)
        ensures
            *r == old(self).0@[side.index()],
            final(self).0@ == old(self).0@.update(side.index(), *final(r)),
    {
        &mut self.0[side.position()]
    }
}

} // verus!
