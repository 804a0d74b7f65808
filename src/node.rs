//! Hit-test filters and node kinds.
use vstd::prelude::*;
use crate::layout::{Layout, NodeAlign};
use crate::theme::Theme;

verus! {

/// Whether a node contains a point in its boundaries, as a bit mask. Each bit is inverted:
/// a clear bit means "in bounds", so the empty mask is [`HitPassthrough::opaque`].
///
/// Bit `1` set: the point is not in the node itself. Bit `2` set: the point is not in any of the
/// node's children, which should not be tested.
#[derive(Clone, Copy, PartialEq, Eq, Structural, Debug, Hash, Default)]
pub struct HitPassthrough {
    bits: u8,
}

impl HitPassthrough {
    /// The mask's bits.
    pub closed spec fn view(self) -> u8 {
        self.bits
    }

    /// Only the two defined bits may be set.
    pub closed spec fn wf(self) -> bool {
        self.bits <= 3
    }

    /// The point is in bounds of this node.
    pub fn opaque() -> (r: Self)
        ensures
            r@ == 0,
            r.wf(),
            r.in_self_spec(),
            r.in_children_spec(),
    {
        assert((0u8 & 1u8 == 0u8) == true && (0u8 & 2u8 == 0u8) == true) by (bit_vector);
        HitPassthrough { bits: 0 }
    }

    /// The point is not in bounds of this node.
    pub fn passthrough() -> (r: Self)
        ensures
            r@ == 1,
            r.wf(),
            !r.in_self_spec(),
            r.in_children_spec(),
    {
        assert((1u8 & 1u8 == 0u8) == false && (1u8 & 2u8 == 0u8) == true) by (bit_vector);
        HitPassthrough { bits: 1 }
    }

    /// The point is in bounds, but not in the bounds of any of the children.
    pub fn passthrough_children() -> (r: Self)
        ensures
            r@ == 2,
            r.wf(),
            r.in_self_spec(),
            !r.in_children_spec(),
    {
        assert((2u8 & 1u8 == 0u8) == true && (2u8 & 2u8 == 0u8) == false) by (bit_vector);
        HitPassthrough { bits: 2 }
    }

    /// The point is in bounds of none of the nodes in the branch: neither of the node, nor of
    /// its children.
    pub fn passthrough_branch() -> (r: Self)
        ensures
            r@ == 3,
            r.wf(),
            !r.in_self_spec(),
            !r.in_children_spec(),
    {
        assert((3u8 & 1u8 == 0u8) == false && (3u8 & 2u8 == 0u8) == false) by (bit_vector);
        HitPassthrough { bits: 3 }
    }

    /// The mask's bits.
    pub fn bits(self) -> (r: u8)
        ensures
            r == self@,
    {
        self.bits
    }

    /// True if the queried point can be found in the node itself.
    pub open spec fn in_self_spec(self) -> bool {
        self@ & 1 == 0
    }

    /// True if the queried point may be found in the children of the node; false means the
    /// children should not be tested.
    pub open spec fn in_children_spec(self) -> bool {
        self@ & 2 == 0
    }

    /// True if the queried point can be found in the node itself.
    pub fn in_self(self) -> (r: bool)
        ensures
            r == self.in_self_spec(),
    {
        self.bits & 1 == 0
    }

    /// True if the queried point may be found in the children of the node; false means the
    /// children should not be tested.
    pub fn in_children(self) -> (r: bool)
        ensures
            r == self.in_children_spec(),
    {
        self.bits & 2 == 0
    }

    /// A mask that combines the restrictions of both masks: the point is in the node only if
    /// both say so, and may be in the children only if both say so.
    pub fn filter(self, other: Self) -> (r: Self)
        requires
            self.wf(),
            other.wf(),
        ensures
            r.wf(),
            r@ == self@ | other@,
            r.in_self_spec() == (self.in_self_spec() && other.in_self_spec()),
            r.in_children_spec() == (self.in_children_spec() && other.in_children_spec()),
    {
        let a = self.bits;
        let b = other.bits;
        let c = a | b;
        assert(c <= 3) by (bit_vector)
            requires
                a <= 3,
                b <= 3,
                c == a | b,
        ;
        assert((c & 1 == 0) == (a & 1 == 0 && b & 1 == 0)) by (bit_vector)
            requires
                c == a | b,
        ;
        assert((c & 2 == 0) == (a & 2 == 0 && b & 2 == 0)) by (bit_vector)
            requires
                c == a | b,
        ;
        HitPassthrough { bits: c }
    }
}

impl HitPassthrough {
    /// Make this mask the node's hit filter.
    pub fn apply(self, node: &mut NodeData)
        ensures
            *final(node) == (NodeData { hit_passthrough: self, ..*old(node) }),
    {
        node.hit_passthrough = self;
    }
}

/// Kind of a node, used by theme selectors.
#[derive(Clone, Copy, PartialEq, Eq, Structural, Debug, Hash)]
pub struct NodeType {
    pub id: usize,
}

/// The kinds of node the tree knows.
#[derive(Clone, Copy, PartialEq, Eq, Structural, Debug)]
pub enum NodeVariant {
    Frame,
    Label,
    Button,
    TextInput,
    ScrollInput,
}

impl NodeVariant {
    /// Number of the variant.
    pub open spec fn index(self) -> usize {
        match self {
            NodeVariant::Frame => 0,
            NodeVariant::Label => 1,
            NodeVariant::Button => 2,
            NodeVariant::TextInput => 3,
            NodeVariant::ScrollInput => 4,
        }
    }

    /// The kind of this node; two variants give the same kind exactly when they are equal.
    pub fn node_type(&self) -> (r: NodeType)
        ensures
            r.id == self.index(),
    {
        let id: usize = match self {
            NodeVariant::Frame => 0,
            NodeVariant::Label => 1,
            NodeVariant::Button => 2,
            NodeVariant::TextInput => 3,
            NodeVariant::ScrollInput => 4,
        };
        NodeType { id }
    }
}

/// State of a UI node.
#[derive(Debug)]
pub struct NodeData {
    /// Layout for this node.
    pub layout: Layout,
    /// Filter applied to every hit test of the node. The default accepts all events.
    pub hit_passthrough: HitPassthrough,
    /// If true, this node must update its size before it is drawn.
    pub is_resize_pending: bool,
    /// If true, this node is hidden and won't be drawn.
    pub is_hidden: bool,
    /// If true, this node is hovered.
    pub is_hovered: bool,
    /// If true, this node is disabled.
    pub is_disabled: bool,
    /// If true, this node is disabled because an ancestor is.
    pub is_disabled_inherited: bool,
    /// If true, this node will be removed from the tree on the next draw.
    pub to_remove: bool,
    /// Theme of this node.
    pub theme: Theme,
    /// True if the theme was assigned to this node directly; otherwise it is inherited from
    /// the parent.
    pub is_theme_explicit: bool,
}

impl NodeData {
    /// A new node: visible, enabled, not hovered, with an empty inherited theme, and waiting for
    /// its first resize.
    pub fn new() -> (r: Self)
        ensures
            r.is_resize_pending,
            !r.is_hidden && !r.is_hovered && !r.is_disabled && !r.is_disabled_inherited && !r.to_remove,
            !r.is_theme_explicit,
            r.theme.rules@.len() == 0,
            r.hit_passthrough@ == 0,
            r.layout.expand == 0,
    {
        NodeData {
            layout: Layout { expand: 0, node_align: [NodeAlign::Start, NodeAlign::Start] },
            hit_passthrough: HitPassthrough::opaque(),
            is_resize_pending: true,
            is_hidden: false,
            is_hovered: false,
            is_disabled: false,
            is_disabled_inherited: false,
            to_remove: false,
            theme: Theme::new(),
            is_theme_explicit: false,
        }
    }

    /// True if the node is hidden, or about to be removed.
    pub fn is_hidden(&self) -> (r: bool)
        ensures
            r == (self.is_hidden || self.to_remove),
    {
        self.is_hidden || self.to_remove
    }

    /// Show or hide the node. A change of visibility asks for a resize.
    pub fn set_hidden(&mut self, value: bool)
        ensures
            *final(self) == (NodeData {
                is_hidden: value,
                is_resize_pending: old(self).is_resize_pending || old(self).is_hidden != value,
                ..*old(self)
            }),
    {
        if self.is_hidden != value {
            self.update_size();
        }
        self.is_hidden = value;
    }

    /// The theme in use.
    pub fn theme(&self) -> (r: &Theme)
        ensures
            *r == self.theme,
    {
        &self.theme
    }

    /// Assign a theme to this node directly; it is no longer inherited. Asks for a resize.
    pub fn set_theme(&mut self, value: Theme)
        ensures
            *final(self) == (NodeData { theme: value, is_theme_explicit: true, is_resize_pending: true, ..*old(self) }),
    {
        self.theme = value;
        self.is_theme_explicit = true;
        self.update_size();
    }

    /// Take the theme of the parent, unless a theme was assigned to this node directly.
    pub fn inherit_theme(&mut self, value: Theme)
        ensures
            old(self).is_theme_explicit ==> *final(self) == *old(self),
            !old(self).is_theme_explicit ==> *final(self) == (NodeData { theme: value, is_resize_pending: true, ..*old(self) }),
    {
        if self.is_theme_explicit {
            return;
        }
        self.theme = value;
        self.update_size();
    }

    /// Drop the assigned theme: the node goes back to an empty, inherited one. Asks for a
    /// resize.
    pub fn reset_theme(&mut self)
        ensures
            final(self).theme.rules@.len() == 0,
            *final(self) == (NodeData { theme: final(self).theme, is_theme_explicit: false, is_resize_pending: true, ..*old(self) }),
    {
        self.theme = Theme::new();
        self.is_theme_explicit = false;
        self.update_size();
    }

    /// Ask for the node's size to be computed again before the next draw.
    pub fn update_size(&mut self)
        ensures
            *final(self) == (NodeData { is_resize_pending: true, ..*old(self) }),
    {
        self.is_resize_pending = true;
    }
}

/// A UI node: its state and its kind.
#[derive(Debug)]
pub struct Node {
    pub data: NodeData,
    pub variant: NodeVariant,
}

impl Node {
    /// A new node of the given kind.
    pub fn new(variant: NodeVariant) -> (r: Self)
        ensures
            r.variant == variant,
            r.data.is_resize_pending,
            !r.data.is_hidden && !r.data.to_remove,
    {
        Node { data: NodeData::new(), variant }
    }
}

} // verus!
