//! Drawing.
use vstd::prelude::*;
use crate::context::IO;

verus! {

/// I/O interface for canvas drawing. The origin is the top-left corner and one unit is 1/96
/// of an inch. The canvas accepts every input and never fails; geometry beyond its boundary
/// is cropped.
pub trait CanvasIO: IO {}

} // verus!
