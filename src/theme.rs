//! Themes: rules that pick nodes by kind and tags.
use vstd::prelude::*;
use crate::node::NodeType;
use crate::tag_list::TagList;

verus! {

/// Selector picks a node by its kind and tags.
#[derive(Debug)]
pub struct Selector {
    /// Kind of node to match.
    pub node_type: NodeType,
    /// Tags needed by the selector.
    pub tags: TagList,
    /// If true, this selector rejects any node.
    pub reject_all: bool,
}

/// A rule: the nodes its selector picks get the style it sets.
#[derive(Debug)]
pub struct Rule {
    pub selector: Selector,
}

/// Node theme.
#[derive(Debug)]
pub struct Theme {
    pub rules: Vec<Rule>,
}

impl Theme {
    /// A theme with no rules.
    pub fn new() -> (r: Self)
        ensures
            r.rules@.len() == 0,
    {
        Theme { rules: Vec::new() }
    }

    /// Positions of the rules for a kind of node, in order.
    pub fn rules_for(&self, node_type: NodeType) -> (r: Vec<usize>)
        ensures
            r@ == rules_of_type(self.rules@, node_type),
    {
        let mut out: Vec<usize> = Vec::new();
        let mut i: usize = 0;
        while i < self.rules.len()
            invariant
                i <= self.rules@.len(),
                out@ == rules_of_type(self.rules@.take(i as int), node_type),
            decreases self.rules@.len() - i,
        {
            assert(self.rules@.take(i + 1).drop_last() == self.rules@.take(i as int));
            if self.rules[i].selector.node_type == node_type {
                out.push(i);
            }
            i = i + 1;
        }
        assert(self.rules@.take(i as int) == self.rules@);
        out
    }
}

/// Positions of the rules whose selector is for `node_type`, in order.
pub open spec fn rules_of_type(rules: Seq<Rule>, node_type: NodeType) -> Seq<usize>
    decreases rules.len(),
{
    if rules.len() == 0 {
        Seq::empty()
    } else {
        let rest = rules_of_type(rules.drop_last(), node_type);
        if rules.last().selector.node_type == node_type {
            rest.push((rules.len() - 1) as usize)
        } else {
            rest
        }
    }
}

} // verus!
