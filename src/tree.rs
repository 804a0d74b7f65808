//! Focus navigation: tab order and directional candidates, gathered in one walk of the tree.
use vstd::prelude::*;
use crate::backend::Rectangle;
use crate::style::{Side, SideArray};
use crate::action::{ActionBuffer, ActionCall, InputDevices, InputEvent, held_items, calls_for, PendingEvent};
use crate::context::{IOID, IOScope, RunningAction, TreeActionContext, TreeIOContext, lookup, replaced, started, stopped};
use crate::input::InputLayers;

verus! {

/// A focus candidate for one direction.
#[derive(Clone, Copy, PartialEq, Eq, Structural, Debug)]
pub struct WithPriority {
    /// Pick priority, from the tree distance to the focused node.
    pub priority: i32,
    /// Squared distance between this node and the focused node, in half pixels.
    pub distance2: i128,
    /// The node.
    pub node: usize,
}

/// `cand` beats `cur`: higher priority, or equal priority and nearer.
pub open spec fn beats(cand: WithPriority, cur: WithPriority) -> bool {
    cand.priority > cur.priority || (cand.priority == cur.priority && cand.distance2 < cur.distance2)
}

/// The candidate kept for a side once `cand` has been offered.
pub open spec fn offer(cur: Option<WithPriority>, cand: WithPriority) -> Option<WithPriority> {
    match cur {
        Some(c) => if beats(cand, c) { Some(cand) } else { cur },
        None => Some(cand),
    }
}

/// The box `b` lies wholly beyond the focus box on the given side.
pub open spec fn is_beyond(side: Side, focus: Rectangle, b: Rectangle) -> bool {
    match side {
        Side::Left => b.x + b.width <= focus.x,
        Side::Right => b.x >= focus.x + focus.width,
        Side::Top => b.y + b.height <= focus.y,
        Side::Bottom => b.y >= focus.y + focus.height,
    }
}

/// The box `b` lies wholly beyond the focus box on the given side.
pub fn beyond(side: Side, focus: &Rectangle, b: &Rectangle) -> (r: bool)
    ensures
        r == is_beyond(side, *focus, *b),
{
    match side {
        Side::Left => (b.x as i64) + (b.width as i64) <= focus.x as i64,
        Side::Right => b.x as i64 >= (focus.x as i64) + (focus.width as i64),
        Side::Top => (b.y as i64) + (b.height as i64) <= focus.y as i64,
        Side::Bottom => b.y as i64 >= (focus.y as i64) + (focus.height as i64),
    }
}

/// Tab-order part of the tracker.
#[derive(Clone, Copy, PartialEq, Eq, Structural, Debug)]
pub struct TabOrder {
    pub prev: Option<usize>,
    pub next: Option<usize>,
    pub first: Option<usize>,
    pub last: Option<usize>,
    /// The focused node has been seen in this walk.
    pub found: bool,
}

/// Tab order before any node has been seen.
pub open spec fn tab_empty() -> TabOrder {
    TabOrder { prev: None, next: None, first: None, last: None, found: false }
}

/// Tab order after seeing a focusable node.
pub open spec fn tab_visit(t: TabOrder, node: usize, focused: bool) -> TabOrder {
    TabOrder {
        prev: if !focused && !t.found { Some(node) } else { t.prev },
        next: if !focused && t.found && t.next is None { Some(node) } else { t.next },
        first: if t.first is None { Some(node) } else { t.first },
        last: Some(node),
        found: t.found || focused,
    }
}

/// Tab order at the end of a walk: `prev` and `next` wrap around.
pub open spec fn tab_finish(t: TabOrder) -> TabOrder {
    TabOrder {
        prev: if t.prev is None { t.last } else { t.prev },
        next: if t.next is None { t.first } else { t.next },
        ..t
    }
}

/// A focusable node met in a walk, in traversal order.
#[derive(Clone, Copy, PartialEq, Eq, Structural, Debug)]
pub struct FocusVisit {
    pub node: usize,
    /// Tree depth of the node.
    pub depth: u32,
    /// Layout box of the node.
    pub layout_box: Rectangle,
    /// The node has focus.
    pub focused: bool,
}

/// Tab order after seeing the nodes of `visits`.
pub open spec fn tab_fold(visits: Seq<FocusVisit>) -> TabOrder
    decreases visits.len(),
{
    if visits.len() == 0 {
        tab_empty()
    } else {
        tab_visit(tab_fold(visits.drop_last()), visits.last().node, visits.last().focused)
    }
}

/// The value clamped to the range of `i32`.
pub open spec fn clamp_i32(v: int) -> i32 {
    if v < i32::MIN { i32::MIN } else if v > i32::MAX { i32::MAX } else { v as i32 }
}

/// Focus navigation data, rebuilt on every walk of the tree.
pub struct FocusDirection {
    /// Box of the focused node after the last walk.
    pub last_focus_box: Rectangle,
    /// Nodes that get focus with tab navigation.
    pub prev: Option<usize>,
    pub next: Option<usize>,
    /// First and last focusable nodes in the tree.
    pub first: Option<usize>,
    pub last: Option<usize>,
    /// Focusable nodes, by direction from the focused node.
    pub positional: SideArray<Option<WithPriority>>,
    /// Focus priority for the node being visited. Grows with each depth step until the focused
    /// node is found, and falls afterwards, so it is highest near the focused node.
    pub priority: i32,
    /// Added to `priority` on each depth step: `1` before the focused node is found, `-1` after.
    pub priority_direction: i32,
    /// Current tree depth.
    pub depth: u32,
    /// Box of the focused node, once found in this walk.
    pub focus_box: Option<Rectangle>,
}

impl FocusDirection {
    /// The direction is one step up or down.
    pub open spec fn wf(&self) -> bool {
        self.priority_direction == 1 || self.priority_direction == -1
    }

    /// The focused node has been seen in this walk.
    pub open spec fn found(&self) -> bool {
        self.priority_direction == -1
    }

    /// Current tree depth.
    pub open spec fn depth_spec(&self) -> u32 {
        self.depth
    }

    /// Box of the focused node found in this walk, if any.
    pub open spec fn focus_box_spec(&self) -> Option<Rectangle> {
        self.focus_box
    }

    /// The tab-order part.
    pub open spec fn tab(&self) -> TabOrder {
        TabOrder { prev: self.prev, next: self.next, first: self.first, last: self.last, found: self.found() }
    }

    /// Priority after moving to `depth`.
    pub open spec fn priority_at(&self, depth: u32) -> i32 {
        let steps = if depth >= self.depth_spec() { depth - self.depth_spec() } else { self.depth_spec() - depth };
        clamp_i32(self.priority + if self.found() { -steps } else { steps })
    }

    /// A tracker for a new walk. Nothing has been seen; `last_focus_box` is the focus box of
    /// the walk before.
    pub fn new(last_focus_box: Rectangle) -> (r: Self)
        ensures
            r.wf(),
            r.tab() == tab_empty(),
            r.last_focus_box == last_focus_box,
            r.positional.0@ == seq![None::<WithPriority>, None, None, None],
            r.priority == 0,
            r.depth_spec() == 0,
            r.focus_box_spec() is None,
    {
        FocusDirection {
            last_focus_box,
            prev: None,
            next: None,
            first: None,
            last: None,
            positional: SideArray([None, None, None, None]),
            priority: 0,
            priority_direction: 1,
            depth: 0,
            focus_box: None,
        }
    }

    /// True once the focused node has been seen in this walk.
    pub fn is_focus_found(&self) -> (r: bool)
        requires
            self.wf(),
        ensures
            r == self.found(),
    {
        self.priority_direction < 0
    }

    /// Move to a node at `depth`: the priority changes by one for each level between the old
    /// depth and the new, up before the focused node is found and down afterwards. It stays
    /// within the range of `i32`.
    pub fn step_depth(&mut self, depth: u32)
        requires
            old(self).wf(),
        ensures
            final(self).wf(),
            final(self).priority == old(self).priority_at(depth),
            final(self).depth_spec() == depth,
            final(self).tab() == old(self).tab(),
            final(self).positional == old(self).positional,
            final(self).last_focus_box == old(self).last_focus_box,
            final(self).focus_box_spec() == old(self).focus_box_spec(),
    {
        let steps: i64 = if depth >= self.depth { (depth - self.depth) as i64 } else { (self.depth - depth) as i64 };
        let v: i64 = if self.priority_direction < 0 {
            self.priority as i64 - steps
        } else {
            self.priority as i64 + steps
        };
        self.priority = if v < i32::MIN as i64 {
            i32::MIN
        } else if v > i32::MAX as i64 {
            i32::MAX
        } else {
            v as i32
        };
        self.depth = depth;
    }

    /// Offer a candidate for one side, if its box lies beyond the focus box there.
    fn offer_side(&mut self, side: Side, cand: WithPriority, b: &Rectangle)
        ensures
            final(self).positional.0@ == old(self).positional.0@.update(side.index(),
                if is_beyond(side, old(self).last_focus_box, *b) {
                    offer(old(self).positional.0@[side.index()], cand)
                } else {
                    old(self).positional.0@[side.index()]
                }),
            final(self).last_focus_box == old(self).last_focus_box,
            final(self).tab() == old(self).tab(),
            final(self).priority == old(self).priority,
            final(self).priority_direction == old(self).priority_direction,
            final(self).depth == old(self).depth,
            final(self).focus_box == old(self).focus_box,
    {
        if beyond(side, &self.last_focus_box, b) {
            let slot = self.positional.side_mut(side);
            let take = match *slot {
                Some(c) => cand.priority > c.priority || (cand.priority == c.priority && cand.distance2 < c.distance2),
                None => true,
            };
            if take {
                *slot = Some(cand);
            }
        }
    }

    /// Record a focusable node met in the walk, at `depth`, with its layout box.
    ///
    /// The priority is first moved to the node's depth. The node extends the tab order: it is
    /// the last node so far, the first if none came before, `prev` while the focused node has
    /// not been seen, `next` if it is the first after it. A node other than the focused one is
    /// offered as the candidate of each side whose direction it lies in, seen from the focus
    /// box of the walk before; it replaces the candidate there if it has a higher priority, or
    /// the same priority and a smaller squared distance.
    pub fn visit(&mut self, node: usize, depth: u32, layout_box: Rectangle, focused: bool)
        requires
            old(self).wf(),
        ensures
            final(self).wf(),
            final(self).tab() == tab_visit(old(self).tab(), node, focused),
            final(self).priority == old(self).priority_at(depth),
            final(self).depth_spec() == depth,
            final(self).last_focus_box == old(self).last_focus_box,
            final(self).focus_box_spec() == if focused { Some(layout_box) } else { old(self).focus_box_spec() },
            forall|side: Side| #[trigger] final(self).positional.0@[side.index()] == if !focused && is_beyond(side, old(self).last_focus_box, layout_box) {
                offer(old(self).positional.0@[side.index()], WithPriority {
                    priority: old(self).priority_at(depth),
                    distance2: layout_box.distance2_spec(old(self).last_focus_box) as i128,
                    node,
                })
            } else {
                old(self).positional.0@[side.index()]
            },
            final(self).positional.0@.len() == 4,
    {
        self.step_depth(depth);
        if self.first.is_none() {
            self.first = Some(node);
        }
        self.last = Some(node);
        if focused {
            self.priority_direction = -1;
            self.focus_box = Some(layout_box);
        } else {
            if self.priority_direction > 0 {
                self.prev = Some(node);
            } else if self.next.is_none() {
                self.next = Some(node);
            }
            let cand = WithPriority { priority: self.priority, distance2: layout_box.distance2(&self.last_focus_box), node };
            self.offer_side(Side::Left, cand, &layout_box);
            self.offer_side(Side::Right, cand, &layout_box);
            self.offer_side(Side::Top, cand, &layout_box);
            self.offer_side(Side::Bottom, cand, &layout_box);
        }
    }

    /// Node to focus with tab navigation backwards.
    pub fn focus_previous(&self) -> (r: Option<usize>)
        ensures
            r == self.prev,
    {
        self.prev
    }

    /// Node to focus with tab navigation.
    pub fn focus_next(&self) -> (r: Option<usize>)
        ensures
            r == self.next,
    {
        self.next
    }

    /// Node to focus when moving towards a side, if any.
    pub fn focus_direction(&self, side: Side) -> (r: Option<usize>)
        ensures
            r == match self.positional.0@[side.index()] {
                Some(c) => Some(c.node),
                None => None::<usize>,
            },
    {
        match self.positional.side(side) {
            Some(c) => Some(c.node),
            None => None,
        }
    }

    /// End the walk: with no node before the focused one, `prev` wraps to the last node; with
    /// none after it, `next` wraps to the first. The focused node's box becomes the focus box
    /// for the next walk.
    pub fn finish(&mut self)
        requires
            old(self).wf(),
        ensures
            final(self).wf(),
            final(self).tab() == tab_finish(old(self).tab()),
            final(self).last_focus_box == match old(self).focus_box_spec() {
                Some(b) => b,
                None => old(self).last_focus_box,
            },
            final(self).positional == old(self).positional,
            final(self).priority == old(self).priority,
    {
        if self.prev.is_none() {
            self.prev = self.last;
        }
        if self.next.is_none() {
            self.next = self.first;
        }
        if let Some(b) = self.focus_box {
            self.last_focus_box = b;
        }
    }
}

/// Priority and depth after the nodes of `visits`, starting from priority 0 at depth 0.
pub open spec fn priority_fold(visits: Seq<FocusVisit>) -> (i32, u32)
    decreases visits.len(),
{
    if visits.len() == 0 {
        (0i32, 0u32)
    } else {
        let (p, d) = priority_fold(visits.drop_last());
        let found = tab_fold(visits.drop_last()).found;
        let depth = visits.last().depth;
        let steps = if depth >= d { depth - d } else { d - depth };
        (clamp_i32(p + if found { -steps } else { steps }), depth)
    }
}

/// Candidate kept for a side after the nodes of `visits`, seen from `focus`.
pub open spec fn side_fold(focus: Rectangle, visits: Seq<FocusVisit>, side: Side) -> Option<WithPriority>
    decreases visits.len(),
{
    if visits.len() == 0 {
        None
    } else {
        let before = side_fold(focus, visits.drop_last(), side);
        let v = visits.last();
        if !v.focused && is_beyond(side, focus, v.layout_box) {
            offer(before, WithPriority {
                priority: priority_fold(visits).0,
                distance2: v.layout_box.distance2_spec(focus) as i128,
                node: v.node,
            })
        } else {
            before
        }
    }
}

/// Box of the last focused node among `visits`.
pub open spec fn focus_box_fold(visits: Seq<FocusVisit>) -> Option<Rectangle>
    decreases visits.len(),
{
    if visits.len() == 0 {
        None
    } else if visits.last().focused {
        Some(visits.last().layout_box)
    } else {
        focus_box_fold(visits.drop_last())
    }
}

/// Run one walk's focusable nodes, in traversal order, through a new tracker and finish it.
pub fn focus_pass(last_focus_box: Rectangle, visits: &Vec<FocusVisit>) -> (r: FocusDirection)
    ensures
        r.wf(),
        r.tab() == tab_finish(tab_fold(visits@)),
        forall|side: Side| #[trigger] r.positional.0@[side.index()] == side_fold(last_focus_box, visits@, side),
        r.priority == priority_fold(visits@).0,
        r.last_focus_box == match focus_box_fold(visits@) {
            Some(b) => b,
            None => last_focus_box,
        },
{
    let mut t = FocusDirection::new(last_focus_box);
    let mut i: usize = 0;
    while i < visits.len()
        invariant
            i <= visits@.len(),
            t.wf(),
            t.positional.0@.len() == 4,
            t.last_focus_box == last_focus_box,
            t.tab() == tab_fold(visits@.take(i as int)),
            (t.priority, t.depth_spec()) == priority_fold(visits@.take(i as int)),
            t.focus_box_spec() == focus_box_fold(visits@.take(i as int)),
            forall|side: Side| #[trigger] t.positional.0@[side.index()] == side_fold(last_focus_box, visits@.take(i as int), side),
        decreases visits@.len() - i,
    {
        let ghost before = t;
        let v = visits[i];
        assert(visits@.take(i + 1).drop_last() == visits@.take(i as int));
        assert(visits@.take(i + 1).last() == v);
        t.visit(v.node, v.depth, v.layout_box, v.focused);
        i = i + 1;
        assert forall|side: Side| #[trigger] t.positional.0@[side.index()] == side_fold(last_focus_box, visits@.take(i as int), side) by {
            assert(before.positional.0@[side.index()] == side_fold(last_focus_box, visits@.take(i - 1), side));
        }
    }
    assert(visits@.take(i as int) == visits@);
    t.finish();
    t
}

/// Tab order is cyclic. With no focusable node every field stays empty. Otherwise `first` and
/// `last` are the first and last focusable nodes; when the focused node is the last one,
/// `next` wraps to the first; when it is the first one, `prev` wraps to the last.
pub proof fn lemma_tab_order_cyclic(visits: Seq<FocusVisit>)
    ensures
        visits.len() == 0 ==> tab_finish(tab_fold(visits)) == tab_empty(),
        visits.len() > 0 ==> tab_finish(tab_fold(visits)).first == Some(visits[0].node),
        visits.len() > 0 ==> tab_finish(tab_fold(visits)).last == Some(visits.last().node),
        visits.len() > 0 && visits.last().focused && (forall|i: int| 0 <= i < visits.len() - 1 ==> !(#[trigger] visits[i]).focused)
            ==> tab_finish(tab_fold(visits)).next == tab_finish(tab_fold(visits)).first,
        visits.len() > 0 && visits[0].focused ==> tab_finish(tab_fold(visits)).prev == tab_finish(tab_fold(visits)).last,
    decreases visits.len(),
{
    if visits.len() > 0 {
        lemma_first_kept(visits);
        if visits.last().focused && (forall|i: int| 0 <= i < visits.len() - 1 ==> !(#[trigger] visits[i]).focused) {
            lemma_next_unset_before_focus(visits.drop_last());
        }
        if visits[0].focused {
            lemma_prev_unset_after_focus(visits);
        }
    }
}

proof fn lemma_first_kept(visits: Seq<FocusVisit>)
    requires
        visits.len() > 0,
    ensures
        tab_fold(visits).first == Some(visits[0].node),
    decreases visits.len(),
{
    if visits.len() > 1 {
        assert(visits.drop_last()[0] == visits[0]);
        lemma_first_kept(visits.drop_last());
    } else {
        assert(tab_fold(visits.drop_last()) == tab_empty());
    }
}

proof fn lemma_next_unset_before_focus(visits: Seq<FocusVisit>)
    requires
        forall|i: int| 0 <= i < visits.len() ==> !(#[trigger] visits[i]).focused,
    ensures
        !tab_fold(visits).found,
        tab_fold(visits).next is None,
    decreases visits.len(),
{
    if visits.len() > 0 {
        lemma_next_unset_before_focus(visits.drop_last());
    }
}

proof fn lemma_prev_unset_after_focus(visits: Seq<FocusVisit>)
    requires
        visits.len() > 0,
        visits[0].focused,
    ensures
        tab_fold(visits).found,
        tab_fold(visits).prev is None,
    decreases visits.len(),
{
    if visits.len() > 1 {
        assert(visits.drop_last()[0] == visits[0]);
        lemma_prev_unset_after_focus(visits.drop_last());
    } else {
        assert(tab_fold(visits.drop_last()) == tab_empty());
    }
}

/// With exactly one focusable node, `first`, `last`, `prev` and `next` are all that node.
pub proof fn lemma_single_focusable(v: FocusVisit)
    ensures
        tab_finish(tab_fold(seq![v])).first == Some(v.node),
        tab_finish(tab_fold(seq![v])).last == Some(v.node),
        tab_finish(tab_fold(seq![v])).prev == Some(v.node),
        tab_finish(tab_fold(seq![v])).next == Some(v.node),
{
    assert(seq![v].drop_last() == Seq::<FocusVisit>::empty());
    assert(tab_fold(seq![v].drop_last()) == tab_empty());
}

/// Directional choice: of two candidates offered for a side, in either order, the one with the
/// higher priority is kept, whatever the distances; on equal priority the nearer one is kept.
pub proof fn lemma_candidate_choice(a: WithPriority, b: WithPriority)
    requires
        a.priority > b.priority || (a.priority == b.priority && a.distance2 < b.distance2),
    ensures
        offer(offer(None, a), b) == Some(a),
        offer(offer(None, b), a) == Some(a),
{
}

/// A walk over the node tree, or over the subtree of `start_node`.
#[derive(Clone, Copy, PartialEq, Eq, Structural, Debug)]
pub struct TreeAction {
    /// Node to descend into; callbacks are only given for this node and its children. `None`
    /// walks the entire tree.
    pub start_node: Option<usize>,
    /// If true, this action is complete and no more callbacks are given.
    pub to_stop: bool,
    /// Number of times the action has been started or stopped. A run captured with an older
    /// generation is stale and must not continue.
    pub generation: u64,
    /// Set once the walk has descended into `start_node`, cleared when it leaves it.
    pub in_start_node: bool,
}

/// Global data for the layout tree: what is focused and hovered, the input bindings, the
/// frame's pending input, tree actions and the I/O context.
pub struct LayoutTree {
    /// Root node of the tree.
    pub root: usize,
    /// Node the pointer hovers over, if any.
    pub hover: Option<usize>,
    /// Focused node, if any.
    pub focus: Option<usize>,
    /// Focus navigation data from the last walk.
    pub focus_direction: FocusDirection,
    /// Tree actions and their runs.
    pub actions: TreeActionContext,
    /// Input layers binding strokes to actions.
    pub bound_inputs: InputLayers,
    /// Registered input devices.
    pub devices: InputDevices,
    /// Input events of the current frame, waiting for the walk to end.
    pub pending: ActionBuffer,
    /// Active I/O systems.
    pub io: TreeIOContext,
}

impl LayoutTree {
    /// The parts keep their own invariants.
    pub open spec fn wf(&self) -> bool {
        &&& self.focus_direction.wf()
        &&& self.bound_inputs.wf()
        &&& self.io.wf()
    }

    /// A tree with nothing focused or hovered, no bindings, no actions and no I/O systems.
    pub fn new(root: usize, devices: InputDevices) -> (r: Self)
        ensures
            r.wf(),
            r.root == root,
            r.devices == devices,
            r.hover is None,
            r.focus is None,
            r.pending@.len() == 0,
            r.bound_inputs@.len() == 0,
            r.io@ == Map::<usize, usize>::empty(),
            r.actions.slots().len() == 0,
            r.actions.live().len() == 0,
            r.focus_direction.tab() == tab_empty(),
    {
        LayoutTree {
            root,
            hover: None,
            focus: None,
            focus_direction: FocusDirection::new(Rectangle { x: 0, y: 0, width: 0, height: 0 }),
            actions: TreeActionContext::new(),
            bound_inputs: InputLayers::new(),
            devices,
            pending: ActionBuffer::new(),
            io: TreeIOContext::new(),
        }
    }

    /// Queue an input event for the end of the frame.
    pub fn submit_event(&mut self, event: InputEvent, number: i32)
        ensures
            final(self).pending@ == old(self).pending@.push(PendingEvent { event, number }),
            *final(self) == (LayoutTree { pending: final(self).pending, ..*old(self) }),
    {
        self.pending.submit(event, number);
    }

    /// End the frame's input: resolve every queued event against the bound layers. The queue
    /// is empty afterwards.
    pub fn resolve_input(&mut self) -> (r: Vec<ActionCall>)
        requires
            old(self).wf(),
        ensures
            final(self).wf(),
            final(self).pending@.len() == 0,
            r@ == calls_for(old(self).devices, old(self).bound_inputs@, held_items(old(self).devices, old(self).pending@), old(self).pending@),
            *final(self) == (LayoutTree { pending: final(self).pending, ..*old(self) }),
    {
        self.pending.resolve(&self.devices, &self.bound_inputs)
    }

    /// Add and start a tree action over the subtree of `start_node`, or the whole tree.
    pub fn start_action(&mut self, start_node: Option<usize>) -> (run: RunningAction)
        ensures
            run.handle == old(self).actions.slots().len(),
            final(self).actions.slots() == old(self).actions.slots().push(started(TreeAction { start_node, to_stop: true, generation: 0, in_start_node: false })),
            final(self).actions.live() == old(self).actions.live().push(run),
            final(self).actions.iterators() == old(self).actions.iterators(),
            *final(self) == (LayoutTree { actions: final(self).actions, ..*old(self) }),
    {
        let handle = self.actions.add_action(start_node);
        self.actions.start_action(handle)
    }

    /// Stop a tree action.
    pub fn stop_action(&mut self, handle: usize)
        requires
            handle < old(self).actions.slots().len(),
        ensures
            final(self).actions.slots() == old(self).actions.slots().update(handle as int, stopped(old(self).actions.slots()[handle as int])),
            final(self).actions.live() == old(self).actions.live(),
            final(self).actions.iterators() == old(self).actions.iterators(),
            *final(self) == (LayoutTree { actions: final(self).actions, ..*old(self) }),
    {
        self.actions.stop_action(handle);
    }

    /// Rebuild the focus navigation data from a walk's focusable nodes, in traversal order.
    /// The focus box of the walk before is used for distances.
    pub fn update_focus_direction(&mut self, visits: &Vec<FocusVisit>)
        requires
            old(self).wf(),
        ensures
            final(self).wf(),
            final(self).focus_direction.tab() == tab_finish(tab_fold(visits@)),
            forall|side: Side| #[trigger] final(self).focus_direction.positional.0@[side.index()]
                == side_fold(old(self).focus_direction.last_focus_box, visits@, side),
            final(self).focus_direction.last_focus_box == match focus_box_fold(visits@) {
                Some(b) => b,
                None => old(self).focus_direction.last_focus_box,
            },
            *final(self) == (LayoutTree { focus_direction: final(self).focus_direction, ..*old(self) }),
    {
        self.focus_direction = focus_pass(self.focus_direction.last_focus_box, visits);
    }

    /// Move focus to the next node in tab order; nothing changes when there is none.
    pub fn focus_next(&mut self) -> (r: Option<usize>)
        ensures
            r == old(self).focus_direction.next,
            *final(self) == (LayoutTree { focus: if r is Some { r } else { old(self).focus }, ..*old(self) }),
    {
        let r = self.focus_direction.focus_next();
        if r.is_some() {
            self.focus = r;
        }
        r
    }

    /// Move focus to the previous node in tab order; nothing changes when there is none.
    pub fn focus_previous(&mut self) -> (r: Option<usize>)
        ensures
            r == old(self).focus_direction.prev,
            *final(self) == (LayoutTree { focus: if r is Some { r } else { old(self).focus }, ..*old(self) }),
    {
        let r = self.focus_direction.focus_previous();
        if r.is_some() {
            self.focus = r;
        }
        r
    }

    /// Move focus to the best candidate towards a side; nothing changes when there is none.
    pub fn focus_direction(&mut self, side: Side) -> (r: Option<usize>)
        ensures
            r == match old(self).focus_direction.positional.0@[side.index()] {
                Some(c) => Some(c.node),
                None => None::<usize>,
            },
            *final(self) == (LayoutTree { focus: if r is Some { r } else { old(self).focus }, ..*old(self) }),
    {
        let r = self.focus_direction.focus_direction(side);
        if r.is_some() {
            self.focus = r;
        }
        r
    }

    /// Make `io` the active implementation of an interface until the returned scope is closed
    /// with `end_io`.
    pub fn with_io(&mut self, id: IOID, io: usize) -> (scope: IOScope)
        requires
            old(self).wf(),
        ensures
            final(self).wf(),
            scope.id == id,
            scope.previous == lookup(old(self).io@, id.key()),
            final(self).io@ == old(self).io@.insert(id.key(), io),
            *final(self) == (LayoutTree { io: final(self).io, ..*old(self) }),
    {
        self.io.push_io(id, io)
    }

    /// Close a scope opened by `with_io`, putting back what was active before.
    pub fn end_io(&mut self, scope: IOScope)
        requires
            old(self).wf(),
        ensures
            final(self).wf(),
            final(self).io@ == replaced(old(self).io@, scope.id.key(), scope.previous),
            *final(self) == (LayoutTree { io: final(self).io, ..*old(self) }),
    {
        self.io.pop_io(scope);
    }
}

/// A node of the tree in pre-order, with its depth.
#[derive(Clone, Copy, PartialEq, Eq, Structural, Debug)]
pub struct TreeNode {
    pub node: usize,
    pub depth: u32,
}

/// One step of a depth-first walk: a node is entered before its children and left after them.
#[derive(Clone, Copy, PartialEq, Eq, Structural, Debug)]
pub enum WalkStep {
    Enter(usize),
    Leave(usize),
}

/// Leave every open node, innermost first, whose depth is at least `depth`.
pub open spec fn unwind(out: Seq<WalkStep>, open: Seq<TreeNode>, depth: int) -> (Seq<WalkStep>, Seq<TreeNode>)
    decreases open.len(),
{
    if open.len() > 0 && open.last().depth >= depth {
        unwind(out.push(WalkStep::Leave(open.last().node)), open.drop_last(), depth)
    } else {
        (out, open)
    }
}

/// Steps so far and nodes still open after the nodes of `nodes`: each node first closes the
/// open nodes that are not its ancestors, then is entered.
pub open spec fn walk_prefix(nodes: Seq<TreeNode>) -> (Seq<WalkStep>, Seq<TreeNode>)
    decreases nodes.len(),
{
    if nodes.len() == 0 {
        (Seq::empty(), Seq::empty())
    } else {
        let (out, open) = walk_prefix(nodes.drop_last());
        let v = nodes.last();
        let (out2, open2) = unwind(out, open, v.depth as int);
        (out2.push(WalkStep::Enter(v.node)), open2.push(v))
    }
}

/// The whole walk: after the last node every open node is left.
pub open spec fn walk_steps(nodes: Seq<TreeNode>) -> Seq<WalkStep> {
    unwind(walk_prefix(nodes).0, walk_prefix(nodes).1, 0).0
}

proof fn lemma_unwind_count(out: Seq<WalkStep>, open: Seq<TreeNode>, depth: int)
    ensures
        unwind(out, open, depth).0.len() + unwind(out, open, depth).1.len() == out.len() + open.len(),
    decreases open.len(),
{
    if open.len() > 0 && open.last().depth >= depth {
        lemma_unwind_count(out.push(WalkStep::Leave(open.last().node)), open.drop_last(), depth);
    }
}

proof fn lemma_unwind_all(out: Seq<WalkStep>, open: Seq<TreeNode>)
    ensures
        unwind(out, open, 0).1.len() == 0,
    decreases open.len(),
{
    if open.len() > 0 {
        lemma_unwind_all(out.push(WalkStep::Leave(open.last().node)), open.drop_last());
    }
}

proof fn lemma_walk_prefix_count(nodes: Seq<TreeNode>)
    ensures
        walk_prefix(nodes).0.len() + walk_prefix(nodes).1.len() == 2 * nodes.len(),
    decreases nodes.len(),
{
    if nodes.len() > 0 {
        lemma_walk_prefix_count(nodes.drop_last());
        let (out, open) = walk_prefix(nodes.drop_last());
        lemma_unwind_count(out, open, nodes.last().depth as int);
    }
}

/// A walk over `n` nodes has `2 * n` steps: every node is entered once and left once.
pub proof fn lemma_walk_balanced(nodes: Seq<TreeNode>)
    ensures
        walk_steps(nodes).len() == 2 * nodes.len(),
{
    lemma_walk_prefix_count(nodes);
    lemma_unwind_count(walk_prefix(nodes).0, walk_prefix(nodes).1, 0);
    lemma_unwind_all(walk_prefix(nodes).0, walk_prefix(nodes).1);
}

/// The order of a depth-first walk over a tree given in pre-order with depths: each node is
/// entered, then its descendants are walked, then it is left. Returns `before_descend` and
/// `after_descend` points in the order a walk reaches them.
pub fn walk_order(nodes: &Vec<TreeNode>) -> (r: Vec<WalkStep>)
    requires
        nodes@.len() <= usize::MAX / 2,
    ensures
        r@ == walk_steps(nodes@),
        r@.len() == 2 * nodes@.len(),
{
    proof { lemma_walk_balanced(nodes@); }
    let mut out: Vec<WalkStep> = Vec::new();
    let mut open: Vec<TreeNode> = Vec::new();
    let mut i: usize = 0;
    while i < nodes.len()
        invariant
            i <= nodes@.len(),
            nodes@.len() <= usize::MAX / 2,
            (out@, open@) == walk_prefix(nodes@.take(i as int)),
            out@.len() + open@.len() == 2 * i,
            open@.len() <= i,
        decreases nodes@.len() - i,
    {
        let v = nodes[i];
        assert(nodes@.take(i + 1).drop_last() == nodes@.take(i as int));
        assert(nodes@.take(i + 1).last() == v);
        let ghost out0 = out@;
        let ghost open0 = open@;
        proof { lemma_unwind_count(out0, open0, v.depth as int); }
        while open.len() > 0 && open[open.len() - 1].depth >= v.depth
            invariant
                unwind(out0, open0, v.depth as int) == unwind(out@, open@, v.depth as int),
                out@.len() + open@.len() == out0.len() + open0.len(),
                open@.len() <= open0.len(),
                out0.len() + open0.len() <= usize::MAX,
            decreases open@.len(),
        {
            let last = open.pop().unwrap();
            out.push(WalkStep::Leave(last.node));
        }
        out.push(WalkStep::Enter(v.node));
        open.push(v);
        i = i + 1;
    }
    assert(nodes@.take(i as int) == nodes@);
    let ghost out0 = out@;
    let ghost open0 = open@;
    while open.len() > 0
        invariant
            unwind(out0, open0, 0) == unwind(out@, open@, 0),
            out@.len() + open@.len() == out0.len() + open0.len(),
            out0.len() + open0.len() <= usize::MAX,
        decreases open@.len(),
    {
        let last = open.pop().unwrap();
        out.push(WalkStep::Leave(last.node));
    }
    out
}

} // verus!
