//! The I/O context: which implementation is active for each I/O interface.
use vstd::prelude::*;
use crate::static_id::StaticID;
use crate::tree::TreeAction;
use crate::event::Event;

verus! {

/// An I/O system: an implementation of an I/O interface, made active for a subtree through
/// the I/O context.
pub trait IO {}

/// ID for an I/O interface.
#[derive(Clone, Copy, PartialEq, Eq, Structural, Debug, Hash)]
pub struct IOID {
    pub id: StaticID,
}

impl IOID {
    /// Build the ID of an I/O interface from its number.
    pub fn new(id: usize) -> (r: Self)
        ensures
            r.key() == id,
    {
        IOID { id: StaticID { id } }
    }

    /// The number that identifies and orders interfaces.
    pub open spec fn key(self) -> usize {
        self.id.id
    }
}

/// An active implementation of an I/O interface. The implementation is referred to by a
/// handle; the context never owns it.
#[derive(Clone, Copy, Debug)]
pub struct IOInstance {
    pub id: IOID,
    pub io: usize,
}

/// An override opened by `TreeIOContext::push_io`: the interface and the implementation that
/// was active before.
#[derive(Clone, Copy, PartialEq, Eq, Structural, Debug)]
pub struct IOScope {
    pub id: IOID,
    pub previous: Option<usize>,
}

impl PartialEq for IOInstance {
    /// Instances are equal when they are for the same interface.
    fn eq(&self, other: &IOInstance) -> (r: bool) {
        self.id == other.id
    }
}

impl vstd::std_specs::cmp::PartialEqSpecImpl for IOInstance {
    open spec fn obeys_eq_spec() -> bool {
        true
    }

    open spec fn eq_spec(&self, other: &IOInstance) -> bool {
        self.id == other.id
    }
}

impl Eq for IOInstance {}

/// Active context for I/O operations. Keeps track of the active implementation of each I/O
/// interface.
///
/// Implementations are changed by `replace`, which takes the new one and hands back the one
/// set before. Putting that one back when a scope ends makes the context behave as a stack.
pub struct TreeIOContext {
    /// Active implementations, sorted by interface ID, at most one per interface.
    active_ios: Vec<IOInstance>,
}

/// The context after `replace(id, io)`, as a map from interface to implementation.
pub open spec fn replaced(m: Map<usize, usize>, id: usize, io: Option<usize>) -> Map<usize, usize> {
    match io {
        Some(v) => m.insert(id, v),
        None => m.remove(id),
    }
}

/// What the context holds for an interface.
pub open spec fn lookup(m: Map<usize, usize>, id: usize) -> Option<usize> {
    if m.dom().contains(id) {
        Some(m[id])
    } else {
        None
    }
}

/// Entries strictly ordered by interface ID.
pub open spec fn sorted_by_id(s: Seq<IOInstance>) -> bool {
    forall|i: int, j: int| 0 <= i < j < s.len() ==> #[trigger] s[i].id.key() < #[trigger] s[j].id.key()
}

/// The entries as a map from interface ID to implementation handle.
pub open spec fn entries_map(s: Seq<IOInstance>) -> Map<usize, usize> {
    Map::new(
        |k: usize| exists|i: int| 0 <= i < s.len() && s[i].id.key() == k,
        |k: usize| s[choose|i: int| 0 <= i < s.len() && s[i].id.key() == k].io,
    )
}

proof fn lemma_entries_at(s: Seq<IOInstance>, i: int)
    requires
        sorted_by_id(s),
        0 <= i < s.len(),
    ensures
        entries_map(s).dom().contains(s[i].id.key()),
        entries_map(s)[s[i].id.key()] == s[i].io,
{
    let k = s[i].id.key();
    assert(entries_map(s).dom().contains(k));
    let j = choose|j: int| 0 <= j < s.len() && s[j].id.key() == k;
    if j < i {
        assert(s[j].id.key() < s[i].id.key());
    } else if i < j {
        assert(s[i].id.key() < s[j].id.key());
    }
}

impl TreeIOContext {
    /// Entries are strictly ordered by interface ID.
    pub closed spec fn wf(&self) -> bool {
        sorted_by_id(self.active_ios@)
    }

    /// The context as a map from interface ID to implementation handle.
    pub closed spec fn view(&self) -> Map<usize, usize> {
        entries_map(self.active_ios@)
    }

    /// An empty context: no interface has an implementation.
    pub fn new() -> (r: Self)
        ensures
            r.wf(),
            r@ == Map::<usize, usize>::empty(),
    {
        let r = TreeIOContext { active_ios: Vec::new() };
        assert(r@ =~= Map::<usize, usize>::empty());
        r
    }

    /// Position of the first entry whose ID is not below `key`.
    fn position(&self, key: usize) -> (p: usize)
        requires
            self.wf(),
        ensures
            p <= self.active_ios@.len(),
            forall|i: int| 0 <= i < p ==> self.active_ios@[i].id.key() < key,
            forall|i: int| p <= i < self.active_ios@.len() ==> self.active_ios@[i].id.key() >= key,
    {
        let mut p: usize = 0;
        while p < self.active_ios.len() && self.active_ios[p].id.id.id < key
            invariant
                self.wf(),
                p <= self.active_ios@.len(),
                forall|i: int| 0 <= i < p ==> self.active_ios@[i].id.key() < key,
            decreases self.active_ios@.len() - p,
        {
            p = p + 1;
        }
        if p < self.active_ios.len() {
            assert forall|i: int| p <= i < self.active_ios@.len() implies self.active_ios@[i].id.key() >= key by {
                if p < i {
                    assert(self.active_ios@[p as int].id.key() < self.active_ios@[i].id.key());
                }
            }
        }
        p
    }

    /// The implementation active for the interface, if any.
    pub fn current(&self, id: IOID) -> (r: Option<usize>)
        requires
            self.wf(),
        ensures
            r == lookup(self@, id.key()),
    {
        let p = self.position(id.id.id);
        if p < self.active_ios.len() && self.active_ios[p].id.id.id == id.id.id {
            proof { lemma_entries_at(self.active_ios@, p as int); }
            Some(self.active_ios[p].io)
        } else {
            proof {
                if self@.dom().contains(id.key()) {
                    let j = choose|j: int| 0 <= j < self.active_ios@.len() && self.active_ios@[j].id.key() == id.key();
                    if p < j {
                        assert(self.active_ios@[p as int].id.key() < self.active_ios@[j].id.key());
                    }
                }
            }
            None
        }
    }

    /// Override the implementation of an interface for a scope. The returned scope remembers
    /// what was active before; hand it to `pop_io` when the scope ends.
    pub fn push_io(&mut self, id: IOID, io: usize) -> (scope: IOScope)
        requires
            old(self).wf(),
        ensures
            final(self).wf(),
            scope == (IOScope { id, previous: lookup(old(self)@, id.key()) }),
            final(self)@ == old(self)@.insert(id.key(), io),
    {
        let previous = self.replace(id, Some(io));
        IOScope { id, previous }
    }

    /// End a scope opened by `push_io`: the implementation active before it is put back.
    pub fn pop_io(&mut self, scope: IOScope)
        requires
            old(self).wf(),
        ensures
            final(self).wf(),
            final(self)@ == replaced(old(self)@, scope.id.key(), scope.previous),
    {
        self.replace(scope.id, scope.previous);
    }

    /// Make `io` the active implementation of the interface, or clear it when `io` is `None`.
    /// Returns the implementation that was active before, so that the caller can put it back.
    pub fn replace(&mut self, id: IOID, io: Option<usize>) -> (r: Option<usize>)
        requires
            old(self).wf(),
        ensures
            final(self).wf(),
            r == lookup(old(self)@, id.key()),
            final(self)@ == replaced(old(self)@, id.key(), io),
    {
        let key = id.id.id;
        let p = self.position(key);
        let ghost before = self.active_ios@;
        let found = p < self.active_ios.len() && self.active_ios[p].id.id.id == key;
        let r = self.current(id);
        match io {
            Some(v) => {
                let entry = IOInstance { id, io: v };
                if found {
                    self.active_ios.set(p, entry);
                    assert(self.active_ios@ == before.update(p as int, entry));
                } else {
                    self.active_ios.insert(p, entry);
                    assert(self.active_ios@ == before.insert(p as int, entry));
                }
            }
            None => {
                if found {
                    self.active_ios.remove(p);
                    assert(self.active_ios@ == before.remove(p as int));
                }
            }
        }
        proof { lemma_replaced(self.active_ios@, before, p as int, key, io, found); }
        r
    }
}

proof fn lemma_replaced(s: Seq<IOInstance>, before: Seq<IOInstance>, p: int, key: usize, io: Option<usize>, found: bool)
    requires
        0 <= p <= before.len(),
        forall|i: int, j: int| 0 <= i < j < before.len() ==> #[trigger] before[i].id.key() < #[trigger] before[j].id.key(),
        forall|i: int| 0 <= i < p ==> before[i].id.key() < key,
        forall|i: int| p <= i < before.len() ==> before[i].id.key() >= key,
        found == (p < before.len() && before[p].id.key() == key),
        match io {
            Some(v) => if found {
                s == before.update(p, IOInstance { id: IOID { id: StaticID { id: key } }, io: v })
            } else {
                s == before.insert(p, IOInstance { id: IOID { id: StaticID { id: key } }, io: v })
            },
            None => if found { s == before.remove(p) } else { s == before },
        },
    ensures
        sorted_by_id(s),
        entries_map(s) == replaced(entries_map(before), key, io),
{
    assert(sorted_by_id(s)) by {
        assert forall|i: int, j: int| 0 <= i < j < s.len() implies #[trigger] s[i].id.key() < #[trigger] s[j].id.key() by {
            match io {
                Some(v) => if !found {
                    if j == p {
                        assert(s[i] == before[i]);
                    } else if i == p {
                        assert(s[j] == before[j - 1]);
                    } else if i > p {
                        assert(s[i] == before[i - 1] && s[j] == before[j - 1]);
                    } else if j > p {
                        assert(s[j] == before[j - 1]);
                    }
                } else {
                    if j == p {
                        assert(s[i] == before[i]);
                    } else if i == p {
                        assert(s[j] == before[j]);
                    }
                },
                None => if found {
                    if i >= p {
                        assert(s[i] == before[i + 1] && s[j] == before[j + 1]);
                    } else if j >= p {
                        assert(s[j] == before[j + 1]);
                    }
                },
            }
        }
    }
    let target = replaced(entries_map(before), key, io);
    assert forall|k: usize| #[trigger] entries_map(s).dom().contains(k) <==> target.dom().contains(k) by {
        if entries_map(s).dom().contains(k) {
            let i = choose|i: int| 0 <= i < s.len() && s[i].id.key() == k;
            match io {
                Some(v) => if k != key {
                    if !found && i > p { assert(s[i] == before[i - 1]); lemma_entries_at(before, i - 1); }
                    else { assert(s[i] == before[i]); lemma_entries_at(before, i); }
                },
                None => {
                    if found && i >= p { assert(s[i] == before[i + 1]); lemma_entries_at(before, i + 1); }
                    else { assert(s[i] == before[i]); lemma_entries_at(before, i); }
                },
            }
        }
        if target.dom().contains(k) {
            if io is Some && k == key {
                lemma_entries_at(s, p);
            } else {
                let i = choose|i: int| 0 <= i < before.len() && before[i].id.key() == k;
                if i < p {
                    assert(s[i] == before[i]);
                    lemma_entries_at(s, i);
                } else {
                    match io {
                        Some(v) => if found { assert(s[i] == before[i]); lemma_entries_at(s, i); }
                            else { assert(s[i + 1] == before[i]); lemma_entries_at(s, i + 1); },
                        None => if found { assert(s[i - 1] == before[i]); lemma_entries_at(s, i - 1); }
                            else { assert(s[i] == before[i]); lemma_entries_at(s, i); },
                    }
                }
            }
        }
    }
    assert forall|k: usize| #[trigger] entries_map(s).dom().contains(k) implies entries_map(s)[k] == target[k] by {
        let i = choose|i: int| 0 <= i < s.len() && s[i].id.key() == k;
        lemma_entries_at(s, i);
        match io {
            Some(v) => if k != key {
                if !found && i > p { assert(s[i] == before[i - 1]); lemma_entries_at(before, i - 1); }
                else { assert(s[i] == before[i]); lemma_entries_at(before, i); }
            } else {
                if i != p {
                    if i < p { assert(s[i] == before[i]); }
                    else if !found { assert(s[i] == before[i - 1]); }
                    else { assert(s[i] == before[i]); }
                }
            },
            None => {
                if found && i >= p { assert(s[i] == before[i + 1]); lemma_entries_at(before, i + 1); }
                else { assert(s[i] == before[i]); lemma_entries_at(before, i); }
            },
        }
    }
    assert(entries_map(s) =~= target);
}

/// A scope opened with `push_io` and closed with `pop_io`, with nothing else changing the
/// context in between, leaves the context as it was.
pub proof fn lemma_scope_restores(m: Map<usize, usize>, id: usize, io: usize)
    ensures
        replaced(m.insert(id, io), id, lookup(m, id)) == m,
{
    lemma_replace_restore(m, id, Some(io));
}

/// Replacing an implementation and then putting back what `replace` returned leaves the
/// context as it was, for every interface.
pub proof fn lemma_replace_restore(m: Map<usize, usize>, id: usize, io: Option<usize>)
    ensures
        replaced(replaced(m, id, io), id, lookup(m, id)) == m,
        lookup(replaced(replaced(m, id, io), id, lookup(m, id)), id) == lookup(m, id),
{
    let back = replaced(replaced(m, id, io), id, lookup(m, id));
    assert(back =~= m);
}

/// A scheduled run of a tree action: the action's handle and the generation it had when the
/// run was scheduled.
#[derive(Clone, Copy, PartialEq, Eq, Structural, Debug)]
pub struct RunningAction {
    pub handle: usize,
    pub generation: u64,
}

/// The run is still the live one: the action has not been started or stopped since, and is
/// not stopped.
pub open spec fn is_current_spec(slots: Seq<TreeAction>, run: RunningAction) -> bool {
    &&& run.handle < slots.len()
    &&& slots[run.handle as int].generation == run.generation
    &&& !slots[run.handle as int].to_stop
}

/// The generation after `g`. Generations wrap around after `u64::MAX`; a run is only ever
/// compared for equality with the live generation.
pub open spec fn next_generation(g: u64) -> u64 {
    if g == u64::MAX { 0 } else { (g + 1) as u64 }
}

/// The generation after `g`, wrapping around after `u64::MAX`.
pub fn bump_generation(g: u64) -> (r: u64)
    ensures
        r == next_generation(g),
{
    if g == u64::MAX { 0 } else { g + 1 }
}

/// The action after an explicit stop.
pub open spec fn stopped(a: TreeAction) -> TreeAction {
    TreeAction { to_stop: true, generation: next_generation(a.generation), ..a }
}

/// The action after a start: a running action is stopped first, then the action starts again.
pub open spec fn started(a: TreeAction) -> TreeAction {
    let s = if a.to_stop { a } else { stopped(a) };
    TreeAction { to_stop: false, generation: next_generation(s.generation), in_start_node: a.start_node is None, ..s }
}

/// Handles of the runs in `live` that get a callback now: current runs whose action is inside
/// its start node, in the order they were scheduled.
pub open spec fn receivers(slots: Seq<TreeAction>, live: Seq<RunningAction>) -> Seq<usize>
    decreases live.len(),
{
    if live.len() == 0 {
        Seq::empty()
    } else {
        let rest = receivers(slots, live.drop_last());
        let run = live.last();
        if is_current_spec(slots, run) && slots[run.handle as int].in_start_node {
            rest.push(run.handle)
        } else {
            rest
        }
    }
}

/// The runs of `live` that are still current, in order.
pub open spec fn current_runs(slots: Seq<TreeAction>, live: Seq<RunningAction>) -> Seq<RunningAction>
    decreases live.len(),
{
    if live.len() == 0 {
        Seq::empty()
    } else {
        let rest = current_runs(slots, live.drop_last());
        if is_current_spec(slots, live.last()) { rest.push(live.last()) } else { rest }
    }
}

/// The walk enters `node`: running actions that start there are now inside their start node.
pub open spec fn entered(a: TreeAction, node: usize) -> TreeAction {
    if a.start_node == Some(node) && !a.to_stop { TreeAction { in_start_node: true, ..a } } else { a }
}

/// The walk leaves `node`: running actions that started there have finished.
pub open spec fn left(a: TreeAction, node: usize) -> TreeAction {
    if a.start_node == Some(node) && a.in_start_node && !a.to_stop {
        TreeAction { in_start_node: false, to_stop: true, ..a }
    } else {
        a
    }
}

/// The walk of the whole tree is over: every action still running has finished.
pub open spec fn tree_done(a: TreeAction) -> TreeAction {
    TreeAction { in_start_node: false, to_stop: true, ..a }
}

/// Manages tree actions and the runs scheduled for them.
pub struct TreeActionContext {
    /// Every action ever added; a handle is an index here.
    slots: Vec<TreeAction>,
    /// Scheduled runs, in the order they were scheduled.
    actions: Vec<RunningAction>,
    /// Number of walks iterating over the runs. Stale runs are only removed while at most one
    /// walk iterates, so that a nested walk never sees the collection change under it.
    running_iterators: u32,
}

impl TreeActionContext {
    /// The actions, by handle.
    pub closed spec fn slots(&self) -> Seq<TreeAction> {
        self.slots@
    }

    /// The scheduled runs.
    pub closed spec fn live(&self) -> Seq<RunningAction> {
        self.actions@
    }

    /// Number of walks iterating.
    pub closed spec fn iterators(&self) -> u32 {
        self.running_iterators
    }

    /// No action, no run, no walk.
    pub fn new() -> (r: Self)
        ensures
            r.slots() == Seq::<TreeAction>::empty(),
            r.live() == Seq::<RunningAction>::empty(),
            r.iterators() == 0,
    {
        TreeActionContext { slots: Vec::new(), actions: Vec::new(), running_iterators: 0 }
    }

    /// Number of actions added.
    pub fn action_count(&self) -> (r: usize)
        ensures
            r == self.slots().len(),
    {
        self.slots.len()
    }

    /// Number of scheduled runs, stale ones included until they are removed.
    pub fn run_count(&self) -> (r: usize)
        ensures
            r == self.live().len(),
    {
        self.actions.len()
    }

    /// Number of walks iterating.
    pub fn iterator_count(&self) -> (r: u32)
        ensures
            r == self.iterators(),
    {
        self.running_iterators
    }

    /// The action of a handle.
    pub fn action(&self, handle: usize) -> (r: TreeAction)
        requires
            handle < self.slots().len(),
        ensures
            r == self.slots()[handle as int],
    {
        self.slots[handle]
    }

    /// The scheduled run at a position.
    pub fn run_at(&self, i: usize) -> (r: RunningAction)
        requires
            i < self.live().len(),
        ensures
            r == self.live()[i as int],
    {
        self.actions[i]
    }

    /// Add an action, not yet started, walking the subtree of `start_node` (or the whole tree).
    /// Returns its handle.
    pub fn add_action(&mut self, start_node: Option<usize>) -> (handle: usize)
        ensures
            handle == old(self).slots().len(),
            final(self).slots() == old(self).slots().push(TreeAction { start_node, to_stop: true, generation: 0, in_start_node: false }),
            final(self).live() == old(self).live(),
            final(self).iterators() == old(self).iterators(),
    {
        let handle = self.slots.len();
        self.slots.push(TreeAction { start_node, to_stop: true, generation: 0, in_start_node: false });
        handle
    }

    /// Start an action and schedule a run of it. An action that is still running is stopped
    /// first, so a restart bumps the generation twice and every run captured before it becomes
    /// stale.
    pub fn start_action(&mut self, handle: usize) -> (run: RunningAction)
        requires
            handle < old(self).slots().len(),
        ensures
            final(self).slots() == old(self).slots().update(handle as int, started(old(self).slots()[handle as int])),
            run == (RunningAction { handle, generation: started(old(self).slots()[handle as int]).generation }),
            final(self).live() == old(self).live().push(run),
            final(self).iterators() == old(self).iterators(),
    {
        let mut a = self.slots[handle];
        if !a.to_stop {
            a.to_stop = true;
            a.generation = bump_generation(a.generation);
        }
        a.to_stop = false;
        a.generation = bump_generation(a.generation);
        a.in_start_node = a.start_node.is_none();
        self.slots.set(handle, a);
        let run = RunningAction { handle, generation: a.generation };
        self.actions.push(run);
        run
    }

    /// Stop an action: it gets no more callbacks, and every run of it becomes stale.
    pub fn stop_action(&mut self, handle: usize)
        requires
            handle < old(self).slots().len(),
        ensures
            final(self).slots() == old(self).slots().update(handle as int, stopped(old(self).slots()[handle as int])),
            final(self).live() == old(self).live(),
            final(self).iterators() == old(self).iterators(),
    {
        let mut a = self.slots[handle];
        a.to_stop = true;
        a.generation = bump_generation(a.generation);
        self.slots.set(handle, a);
    }

    /// True if the run may go on: its action has not been started or stopped since the run was
    /// scheduled. A stale run abandons itself.
    pub fn is_current(&self, run: RunningAction) -> (r: bool)
        ensures
            r == is_current_spec(self.slots(), run),
    {
        run.handle < self.slots.len() && self.slots[run.handle].generation == run.generation
            && !self.slots[run.handle].to_stop
    }

    /// Resume a run: the continuation is dispatched only if the run is still current. A run
    /// whose action was restarted or stopped since it was scheduled is silently abandoned, and
    /// `None` is returned.
    pub fn resume<F, T>(&self, run: RunningAction, continuation: &Event<F>) -> (r: Option<T>)
        where
            F: Fn() -> T,
        requires
            call_requires(continuation.handler, ()),
        ensures
            r is None == !is_current_spec(self.slots(), run),
            r matches Some(v) ==> call_ensures(continuation.handler, (), v),
    {
        if self.is_current(run) {
            Some(continuation.dispatch())
        } else {
            None
        }
    }

    /// A walk starts iterating over the runs. The count stops at `u32::MAX`; removal only
    /// needs to know whether it is above one.
    pub fn begin_iteration(&mut self)
        ensures
            final(self).iterators() == if old(self).iterators() < u32::MAX {
                (old(self).iterators() + 1) as u32
            } else {
                u32::MAX
            },
            final(self).slots() == old(self).slots(),
            final(self).live() == old(self).live(),
    {
        if self.running_iterators < u32::MAX {
            self.running_iterators = self.running_iterators + 1;
        }
    }

    /// A walk stops iterating over the runs. Without a walk iterating, nothing changes.
    pub fn end_iteration(&mut self)
        ensures
            final(self).iterators() == if old(self).iterators() > 0 {
                (old(self).iterators() - 1) as u32
            } else {
                0
            },
            final(self).slots() == old(self).slots(),
            final(self).live() == old(self).live(),
    {
        if self.running_iterators > 0 {
            self.running_iterators = self.running_iterators - 1;
        }
    }

    /// Remove stale and finished runs. While a nested walk iterates (two walks or more), the
    /// runs are left exactly as they are; the removal waits until the nested walk is done.
    pub fn remove_finished(&mut self)
        ensures
            final(self).slots() == old(self).slots(),
            final(self).iterators() == old(self).iterators(),
            old(self).iterators() >= 2 ==> final(self).live() == old(self).live(),
            old(self).iterators() <= 1 ==> final(self).live() == current_runs(old(self).slots(), old(self).live()),
    {
        if self.running_iterators >= 2 {
            return;
        }
        let mut kept: Vec<RunningAction> = Vec::new();
        let mut i: usize = 0;
        while i < self.actions.len()
            invariant
                i <= self.actions@.len(),
                kept@ == current_runs(self.slots@, self.actions@.take(i as int)),
            decreases self.actions@.len() - i,
        {
            assert(self.actions@.take(i + 1).drop_last() == self.actions@.take(i as int));
            let run = self.actions[i];
            if self.is_current(run) {
                kept.push(run);
            }
            i = i + 1;
        }
        assert(self.actions@.take(i as int) == self.actions@);
        self.actions = kept;
    }

    /// Handles that get a callback now, in scheduling order.
    fn receivers_now(&self) -> (r: Vec<usize>)
        ensures
            r@ == receivers(self.slots(), self.live()),
    {
        let mut out: Vec<usize> = Vec::new();
        let mut i: usize = 0;
        while i < self.actions.len()
            invariant
                i <= self.actions@.len(),
                out@ == receivers(self.slots@, self.actions@.take(i as int)),
            decreases self.actions@.len() - i,
        {
            assert(self.actions@.take(i + 1).drop_last() == self.actions@.take(i as int));
            let run = self.actions[i];
            if self.is_current(run) && self.slots[run.handle].in_start_node {
                out.push(run.handle);
            }
            i = i + 1;
        }
        assert(self.actions@.take(i as int) == self.actions@);
        out
    }

    /// The walk reaches `node`, before its children. Running actions that start at `node` are
    /// now inside it. Returns the handles whose `before_descend` is called for `node`: those of
    /// current runs whose action is inside its start node. The list is taken before any
    /// callback runs, so an action stopped by one of these callbacks still gets the callbacks
    /// of this event, and none after.
    pub fn before_descend(&mut self, node: usize) -> (r: Vec<usize>)
        ensures
            final(self).slots() == old(self).slots().map_values(|a: TreeAction| entered(a, node)),
            final(self).live() == old(self).live(),
            final(self).iterators() == old(self).iterators(),
            r@ == receivers(final(self).slots(), old(self).live()),
    {
        let mut i: usize = 0;
        while i < self.slots.len()
            invariant
                i <= self.slots@.len(),
                self.slots@.len() == old(self).slots@.len(),
                self.actions == old(self).actions,
                self.running_iterators == old(self).running_iterators,
                forall|j: int| 0 <= j < i ==> self.slots@[j] == entered(old(self).slots@[j], node),
                forall|j: int| i <= j < self.slots@.len() ==> self.slots@[j] == old(self).slots@[j],
            decreases self.slots@.len() - i,
        {
            let a = self.slots[i];
            if a.start_node == Some(node) && !a.to_stop {
                self.slots.set(i, TreeAction { in_start_node: true, ..a });
            }
            i = i + 1;
        }
        assert(self.slots@ == old(self).slots@.map_values(|a: TreeAction| entered(a, node)));
        self.receivers_now()
    }

    /// The walk leaves `node`, after its children. Returns the handles whose `after_descend`
    /// is called for `node`, as `before_descend` does; then running actions that started at
    /// `node` have finished and are stopped.
    pub fn after_descend(&mut self, node: usize) -> (r: Vec<usize>)
        ensures
            r@ == receivers(old(self).slots(), old(self).live()),
            final(self).slots() == old(self).slots().map_values(|a: TreeAction| left(a, node)),
            final(self).live() == old(self).live(),
            final(self).iterators() == old(self).iterators(),
    {
        let out = self.receivers_now();
        let mut i: usize = 0;
        while i < self.slots.len()
            invariant
                i <= self.slots@.len(),
                self.slots@.len() == old(self).slots@.len(),
                self.actions == old(self).actions,
                self.running_iterators == old(self).running_iterators,
                forall|j: int| 0 <= j < i ==> self.slots@[j] == left(old(self).slots@[j], node),
                forall|j: int| i <= j < self.slots@.len() ==> self.slots@[j] == old(self).slots@[j],
            decreases self.slots@.len() - i,
        {
            let a = self.slots[i];
            if a.start_node == Some(node) && a.in_start_node && !a.to_stop {
                self.slots.set(i, TreeAction { in_start_node: false, to_stop: true, ..a });
            }
            i = i + 1;
        }
        assert(self.slots@ == old(self).slots@.map_values(|a: TreeAction| left(a, node)));
        out
    }

    /// The walk of the whole tree is over: every action still running finishes, including one
    /// whose start node was never met.
    pub fn after_tree(&mut self)
        ensures
            final(self).slots() == old(self).slots().map_values(|a: TreeAction| tree_done(a)),
            final(self).live() == old(self).live(),
            final(self).iterators() == old(self).iterators(),
    {
        let mut i: usize = 0;
        while i < self.slots.len()
            invariant
                i <= self.slots@.len(),
                self.slots@.len() == old(self).slots@.len(),
                self.actions == old(self).actions,
                self.running_iterators == old(self).running_iterators,
                forall|j: int| 0 <= j < i ==> self.slots@[j] == tree_done(old(self).slots@[j]),
                forall|j: int| i <= j < self.slots@.len() ==> self.slots@[j] == old(self).slots@[j],
            decreases self.slots@.len() - i,
        {
            let a = self.slots[i];
            self.slots.set(i, TreeAction { in_start_node: false, to_stop: true, ..a });
            i = i + 1;
        }
        assert(self.slots@ == old(self).slots@.map_values(|a: TreeAction| tree_done(a)));
    }
}

/// Restarting a running action bumps its generation twice, once for the implicit stop and
/// once for the new start (wrapping around after `u64::MAX`), and a run captured before the
/// restart is no longer current, so it cannot continue.
pub proof fn lemma_restart_invalidates(slots: Seq<TreeAction>, run: RunningAction)
    requires
        is_current_spec(slots, run),
    ensures
        started(slots[run.handle as int]).generation == next_generation(next_generation(slots[run.handle as int].generation)),
        slots[run.handle as int].generation <= u64::MAX - 2 ==> started(slots[run.handle as int]).generation == slots[run.handle as int].generation + 2,
        started(slots[run.handle as int]).generation != run.generation,
        !is_current_spec(slots.update(run.handle as int, started(slots[run.handle as int])), run),
{
}


/// A stale or stopped run never receives a callback.
pub proof fn lemma_stale_run_gets_no_callback(slots: Seq<TreeAction>, live: Seq<RunningAction>, i: int)
    requires
        0 <= i < live.len(),
        !is_current_spec(slots, live[i]),
        forall|j: int| 0 <= j < live.len() && j != i ==> (#[trigger] live[j]).handle != live[i].handle,
    ensures
        !receivers(slots, live).contains(live[i].handle),
    decreases live.len(),
{
    if i < live.len() - 1 {
        lemma_stale_run_gets_no_callback(slots, live.drop_last(), i);
    } else {
        lemma_receivers_from(slots, live.drop_last());
        if receivers(slots, live.drop_last()).contains(live[i].handle) {
            let k = choose|k: int| 0 <= k < live.drop_last().len() && live.drop_last()[k].handle == live[i].handle;
            assert(live[k].handle == live[i].handle);
        }
    }
}

proof fn lemma_receivers_from(slots: Seq<TreeAction>, live: Seq<RunningAction>)
    ensures
        forall|h: usize| receivers(slots, live).contains(h) ==> exists|k: int| 0 <= k < live.len() && (#[trigger] live[k]).handle == h,
    decreases live.len(),
{
    if live.len() > 0 {
        lemma_receivers_from(slots, live.drop_last());
        assert forall|h: usize| receivers(slots, live).contains(h) implies exists|k: int| 0 <= k < live.len() && (#[trigger] live[k]).handle == h by {
            if receivers(slots, live.drop_last()).contains(h) {
                let k = choose|k: int| 0 <= k < live.drop_last().len() && (#[trigger] live.drop_last()[k]).handle == h;
                assert(live[k] == live.drop_last()[k]);
            } else {
                assert(live[live.len() - 1].handle == h);
            }
        }
    }
}

} // verus!
