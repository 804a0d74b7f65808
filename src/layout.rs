//! Node layout parameters.
use vstd::prelude::*;

verus! {

/// Alignment of a node's content box within the space it occupies.
#[derive(Clone, Copy, PartialEq, Eq, Structural, Debug)]
pub enum NodeAlign {
    Start,
    Center,
    End,
    Fill,
}

/// Node parameter for setting the node layout.
#[derive(Clone, Copy, PartialEq, Eq, Debug)]
pub struct Layout {
    /// Fraction of available space this node should occupy in the node direction. `0` means
    /// the size follows the content.
    pub expand: u32,
    /// Alignment on each axis.
    pub node_align: [NodeAlign; 2],
}

} // verus!
