//! Nodes that can take focus.
use vstd::prelude::*;
use crate::action::Actionable;

verus! {

/// A node that can be focused.
pub trait Focusable: Actionable {
    /// Handle input; called each frame while the node has focus, never while it blocks input.
    /// Returns true if the input was handled.
    fn focus_impl(&mut self) -> (handled: bool)
        requires
            !old(self).blocked();

    /// Ask for focus. A node may move the request to another node, or ignore it.
    fn focus(&mut self);

    /// True if this node has focus.
    fn is_focused(&self) -> bool;
}

} // verus!
