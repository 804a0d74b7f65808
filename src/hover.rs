//! Pointing devices.
use vstd::prelude::*;
use crate::context::IO;

verus! {

/// An input system for devices that point at the screen, such as a mouse, a touchpad or a
/// pen. It hovers at most one node at a time; several can coexist in different branches.
pub trait HoverIO: IO {}

} // verus!
