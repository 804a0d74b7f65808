//! Input actions, strokes, and the layers that bind strokes to actions.
use vstd::prelude::*;

verus! {

/// ID of an input action.
#[derive(Clone, Copy, PartialEq, Eq, Structural, Debug, Hash)]
pub struct InputActionID {
    /// Unique ID of the action.
    pub id: usize,
}

/// Default input actions one can listen to.
#[derive(Clone, Copy, PartialEq, Eq, Structural, Debug)]
pub enum FluidInputAction {
    /// Press the input. Used for example to activate buttons.
    Press,
    /// Submit input, eg. finish writing in a text input.
    Submit,
    /// Cancel the input.
    Cancel,
    /// Open context menu.
    ContextMenu,
    /// Focus previous input.
    FocusPrevious,
    /// Focus next input.
    FocusNext,
    /// Focus input on the left.
    FocusLeft,
    /// Focus input on the right.
    FocusRight,
    /// Focus input above.
    FocusUp,
    /// Focus input below.
    FocusDown,
    /// Start a new text line, place a line feed.
    BreakLine,
    /// Move to the previous character in text.
    PreviousChar,
    /// Move to the next character in text.
    NextChar,
    /// Move to the previous word in text.
    PreviousWord,
    /// Move to the next word in text.
    NextWord,
    /// Move to the previous line in text.
    PreviousLine,
    /// Move to the next line in text.
    NextLine,
    /// Move to the beginning of this line; Home key.
    ToLineStart,
    /// Move to the end of this line; End key.
    ToLineEnd,
    /// Move to the beginning.
    ToStart,
    /// Move to the end.
    ToEnd,
    /// Erase last character in an input.
    Backspace,
    /// Erase last a word in an input.
    BackspaceWord,
    /// Delete the next character in an input.
    DeleteChar,
    /// Delete the next word in an input.
    DeleteWord,
    /// Copy selected content.
    Copy,
    /// Cut (copy and delete) selected content.
    Cut,
    /// Paste selected content.
    Paste,
    /// Undo last action.
    Undo,
    /// Redo last action; reverse "undo".
    Redo,
    /// Insert a tab into a code editor (tab key).
    InsertTab,
    /// Indent current line or selection in a code editor.
    Indent,
    /// Outdent current line or selection in a code editor (shift+tab).
    Outdent,
    /// Select previous character in text.
    SelectPreviousChar,
    /// Select next character in text.
    SelectNextChar,
    /// Select previous word in text.
    SelectPreviousWord,
    /// Select next word in text.
    SelectNextWord,
    /// Select to previous line in text.
    SelectPreviousLine,
    /// Select to next line in text.
    SelectNextLine,
    /// Select all in text.
    SelectAll,
    /// Select from here to line beginning.
    SelectToLineStart,
    /// Select from here to line end.
    SelectToLineEnd,
    /// Select from here to beginning.
    SelectToStart,
    /// Select from here to end.
    SelectToEnd,
    /// Navigate to the previous list entry.
    EntryPrevious,
    /// Navigate to the next list entry.
    EntryNext,
    /// Navigate up in a tree, eg. in the file picker.
    EntryUp,
    /// Scroll left a bit.
    ScrollLeft,
    /// Scroll right a bit.
    ScrollRight,
    /// Scroll up a bit.
    ScrollUp,
    /// Scroll down a bit.
    ScrollDown,
    /// Scroll left by a page. Unbound by default.
    PageLeft,
    /// Scroll right by a page. Unbound by default.
    PageRight,
    /// Scroll up by a page.
    PageUp,
    /// Scroll down by a page.
    PageDown,
}

impl FluidInputAction {
    /// Position of the action in the list of default actions.
    pub open spec fn index(self) -> usize {
        match self {
            FluidInputAction::Press => 0,
            FluidInputAction::Submit => 1,
            FluidInputAction::Cancel => 2,
            FluidInputAction::ContextMenu => 3,
            FluidInputAction::FocusPrevious => 4,
            FluidInputAction::FocusNext => 5,
            FluidInputAction::FocusLeft => 6,
            FluidInputAction::FocusRight => 7,
            FluidInputAction::FocusUp => 8,
            FluidInputAction::FocusDown => 9,
            FluidInputAction::BreakLine => 10,
            FluidInputAction::PreviousChar => 11,
            FluidInputAction::NextChar => 12,
            FluidInputAction::PreviousWord => 13,
            FluidInputAction::NextWord => 14,
            FluidInputAction::PreviousLine => 15,
            FluidInputAction::NextLine => 16,
            FluidInputAction::ToLineStart => 17,
            FluidInputAction::ToLineEnd => 18,
            FluidInputAction::ToStart => 19,
            FluidInputAction::ToEnd => 20,
            FluidInputAction::Backspace => 21,
            FluidInputAction::BackspaceWord => 22,
            FluidInputAction::DeleteChar => 23,
            FluidInputAction::DeleteWord => 24,
            FluidInputAction::Copy => 25,
            FluidInputAction::Cut => 26,
            FluidInputAction::Paste => 27,
            FluidInputAction::Undo => 28,
            FluidInputAction::Redo => 29,
            FluidInputAction::InsertTab => 30,
            FluidInputAction::Indent => 31,
            FluidInputAction::Outdent => 32,
            FluidInputAction::SelectPreviousChar => 33,
            FluidInputAction::SelectNextChar => 34,
            FluidInputAction::SelectPreviousWord => 35,
            FluidInputAction::SelectNextWord => 36,
            FluidInputAction::SelectPreviousLine => 37,
            FluidInputAction::SelectNextLine => 38,
            FluidInputAction::SelectAll => 39,
            FluidInputAction::SelectToLineStart => 40,
            FluidInputAction::SelectToLineEnd => 41,
            FluidInputAction::SelectToStart => 42,
            FluidInputAction::SelectToEnd => 43,
            FluidInputAction::EntryPrevious => 44,
            FluidInputAction::EntryNext => 45,
            FluidInputAction::EntryUp => 46,
            FluidInputAction::ScrollLeft => 47,
            FluidInputAction::ScrollRight => 48,
            FluidInputAction::ScrollUp => 49,
            FluidInputAction::ScrollDown => 50,
            FluidInputAction::PageLeft => 51,
            FluidInputAction::PageRight => 52,
            FluidInputAction::PageUp => 53,
            FluidInputAction::PageDown => 54,
        }
    }

    /// ID of the action; distinct actions have distinct IDs.
    pub fn id(self) -> (r: InputActionID)
        ensures
            r.id == self.index(),
    {
        let id: usize = match self {
            FluidInputAction::Press => 0,
            FluidInputAction::Submit => 1,
            FluidInputAction::Cancel => 2,
            FluidInputAction::ContextMenu => 3,
            FluidInputAction::FocusPrevious => 4,
            FluidInputAction::FocusNext => 5,
            FluidInputAction::FocusLeft => 6,
            FluidInputAction::FocusRight => 7,
            FluidInputAction::FocusUp => 8,
            FluidInputAction::FocusDown => 9,
            FluidInputAction::BreakLine => 10,
            FluidInputAction::PreviousChar => 11,
            FluidInputAction::NextChar => 12,
            FluidInputAction::PreviousWord => 13,
            FluidInputAction::NextWord => 14,
            FluidInputAction::PreviousLine => 15,
            FluidInputAction::NextLine => 16,
            FluidInputAction::ToLineStart => 17,
            FluidInputAction::ToLineEnd => 18,
            FluidInputAction::ToStart => 19,
            FluidInputAction::ToEnd => 20,
            FluidInputAction::Backspace => 21,
            FluidInputAction::BackspaceWord => 22,
            FluidInputAction::DeleteChar => 23,
            FluidInputAction::DeleteWord => 24,
            FluidInputAction::Copy => 25,
            FluidInputAction::Cut => 26,
            FluidInputAction::Paste => 27,
            FluidInputAction::Undo => 28,
            FluidInputAction::Redo => 29,
            FluidInputAction::InsertTab => 30,
            FluidInputAction::Indent => 31,
            FluidInputAction::Outdent => 32,
            FluidInputAction::SelectPreviousChar => 33,
            FluidInputAction::SelectNextChar => 34,
            FluidInputAction::SelectPreviousWord => 35,
            FluidInputAction::SelectNextWord => 36,
            FluidInputAction::SelectPreviousLine => 37,
            FluidInputAction::SelectNextLine => 38,
            FluidInputAction::SelectAll => 39,
            FluidInputAction::SelectToLineStart => 40,
            FluidInputAction::SelectToLineEnd => 41,
            FluidInputAction::SelectToStart => 42,
            FluidInputAction::SelectToEnd => 43,
            FluidInputAction::EntryPrevious => 44,
            FluidInputAction::EntryNext => 45,
            FluidInputAction::EntryUp => 46,
            FluidInputAction::ScrollLeft => 47,
            FluidInputAction::ScrollRight => 48,
            FluidInputAction::ScrollUp => 49,
            FluidInputAction::ScrollDown => 50,
            FluidInputAction::PageLeft => 51,
            FluidInputAction::PageRight => 52,
            FluidInputAction::PageUp => 53,
            FluidInputAction::PageDown => 54,
        };
        InputActionID { id }
    }
}

/// A single key or button that can take part in a stroke.
#[derive(Clone, Copy, PartialEq, Eq, Structural, Debug, Hash)]
pub enum InputStrokeItem {
    KeyboardKey(i32),
    MouseButton(i32),
    GamepadButton(i32),
}

/// A key or button combination. All items but the last act as modifiers.
#[derive(Debug)]
pub struct InputStroke {
    pub input: Vec<InputStrokeItem>,
}

impl InputStroke {
    /// A stroke of the given items.
    pub fn new(input: Vec<InputStrokeItem>) -> (r: Self)
        ensures
            r.input@ == input@,
    {
        InputStroke { input }
    }

    /// Number of items in the stroke.
    pub fn len(&self) -> (r: usize)
        ensures
            r == self.input@.len(),
    {
        self.input.len()
    }

    /// True if the item is part of the stroke.
    pub fn contains(&self, item: InputStrokeItem) -> (r: bool)
        ensures
            r == self.input@.contains(item),
    {
        let mut i: usize = 0;
        while i < self.input.len()
            invariant
                i <= self.input@.len(),
                forall|j: int| 0 <= j < i ==> self.input@[j] != item,
            decreases self.input@.len() - i,
        {
            if self.input[i] == item {
                return true;
            }
            i = i + 1;
        }
        false
    }

    /// True if both strokes hold the same items, whatever their order or repetitions.
    pub fn same_items(&self, other: &InputStroke) -> (r: bool)
        ensures
            r == (self.input@.to_set() == other.input@.to_set()),
    {
        let a = self.is_held(&other.input);
        let b = other.is_held(&self.input);
        proof {
            if a && b {
                assert forall|x: InputStrokeItem| self.input@.to_set().contains(x) <==> other.input@.to_set().contains(x) by {
                    if self.input@.contains(x) {
                        let j = choose|j: int| 0 <= j < self.input@.len() && self.input@[j] == x;
                        assert(other.input@.contains(self.input@[j]));
                    }
                    if other.input@.contains(x) {
                        let j = choose|j: int| 0 <= j < other.input@.len() && other.input@[j] == x;
                        assert(self.input@.contains(other.input@[j]));
                    }
                }
                assert(self.input@.to_set() =~= other.input@.to_set());
            } else if !a {
                let j = choose|j: int| 0 <= j < self.input@.len() && !other.input@.contains(#[trigger] self.input@[j]);
                assert(self.input@.to_set().contains(self.input@[j]));
                assert(!other.input@.to_set().contains(self.input@[j]));
            } else {
                let j = choose|j: int| 0 <= j < other.input@.len() && !self.input@.contains(#[trigger] other.input@[j]);
                assert(other.input@.to_set().contains(other.input@[j]));
                assert(!self.input@.to_set().contains(other.input@[j]));
            }
        }
        a && b
    }

    /// True if every item of the stroke is among `held`.
    pub fn is_held(&self, held: &Vec<InputStrokeItem>) -> (r: bool)
        ensures
            r == held_all(self.input@, held@),
    {
        let mut i: usize = 0;
        while i < self.input.len()
            invariant
                i <= self.input@.len(),
                forall|j: int| 0 <= j < i ==> held@.contains(#[trigger] self.input@[j]),
            decreases self.input@.len() - i,
        {
            if !contains_item(held, self.input[i]) {
                return false;
            }
            i = i + 1;
        }
        true
    }
}

/// True if the item is in the list.
pub fn contains_item(items: &Vec<InputStrokeItem>, item: InputStrokeItem) -> (r: bool)
    ensures
        r == items@.contains(item),
{
    let mut i: usize = 0;
    while i < items.len()
        invariant
            i <= items@.len(),
            forall|j: int| 0 <= j < i ==> items@[j] != item,
        decreases items@.len() - i,
    {
        if items[i] == item {
            return true;
        }
        i = i + 1;
    }
    false
}

/// Every item of `stroke` is among `held`.
pub open spec fn held_all(stroke: Seq<InputStrokeItem>, held: Seq<InputStrokeItem>) -> bool {
    forall|j: int| 0 <= j < stroke.len() ==> held.contains(#[trigger] stroke[j])
}

/// Binding of an input stroke item to an input action.
#[derive(Clone, Copy, PartialEq, Eq, Structural, Debug)]
pub struct InputBinding {
    pub action: InputActionID,
    pub trigger: InputStrokeItem,
}

/// A layer groups input bindings by common key modifiers.
#[derive(Debug)]
pub struct InputLayer {
    pub modifiers: InputStroke,
    pub bindings: Vec<InputBinding>,
}

/// The first layer, from index `i` on, whose modifiers are all held.
pub open spec fn pick_layer(layers: Seq<InputLayer>, held: Seq<InputStrokeItem>, i: int) -> Option<int>
    decreases layers.len() - i,
{
    if i < 0 || i >= layers.len() {
        None
    } else if held_all(layers[i].modifiers.input@, held) {
        Some(i)
    } else {
        pick_layer(layers, held, i + 1)
    }
}

proof fn lemma_pick_layer_range(layers: Seq<InputLayer>, held: Seq<InputStrokeItem>, i: int)
    requires
        0 <= i,
    ensures
        pick_layer(layers, held, i) matches Some(k) ==> i <= k < layers.len()
            && held_all(layers[k].modifiers.input@, held)
            && forall|j: int| i <= j < k ==> !held_all(#[trigger] layers[j].modifiers.input@, held),
        pick_layer(layers, held, i) is None ==> forall|j: int| i <= j < layers.len() ==> !held_all(#[trigger] layers[j].modifiers.input@, held),
    decreases layers.len() - i,
{
    if i < layers.len() && !held_all(layers[i].modifiers.input@, held) {
        lemma_pick_layer_range(layers, held, i + 1);
    }
}

/// The action of the first binding, from index `i` on, triggered by `item`.
pub open spec fn pick_binding(bindings: Seq<InputBinding>, item: InputStrokeItem, i: int) -> Option<InputActionID>
    decreases bindings.len() - i,
{
    if i < 0 || i >= bindings.len() {
        None
    } else if bindings[i].trigger == item {
        Some(bindings[i].action)
    } else {
        pick_binding(bindings, item, i + 1)
    }
}

/// The action that `item` triggers while `held` is held: the most specific layer whose
/// modifiers are all held is chosen, and the item is looked up among its bindings, unless it is
/// one of that layer's modifiers.
pub open spec fn match_stroke_spec(layers: Seq<InputLayer>, held: Seq<InputStrokeItem>, item: InputStrokeItem) -> Option<InputActionID> {
    match pick_layer(layers, held, 0) {
        Some(l) => if layers[l].modifiers.input@.contains(item) {
            None
        } else {
            pick_binding(layers[l].bindings@, item, 0)
        },
        None => None,
    }
}

/// An action matched for an input event, and whether the event was active.
#[derive(Clone, Copy, PartialEq, Eq, Structural, Debug)]
pub struct ActionMatch {
    pub action: InputActionID,
    pub is_active: bool,
}

/// Input layers, most specific first: layers are kept in descending order of modifier count.
pub struct InputLayers {
    layers: Vec<InputLayer>,
}

impl InputLayers {
    /// Layers are sorted by descending modifier count, and no layer repeats a modifier.
    pub closed spec fn wf(&self) -> bool {
        layers_sorted(self.layers@)
    }

    /// The layers, in the order they are consulted.
    pub closed spec fn view(&self) -> Seq<InputLayer> {
        self.layers@
    }

    /// No layers.
    pub fn new() -> (r: Self)
        ensures
            r.wf(),
            r@ == Seq::<InputLayer>::empty(),
            layers_sorted(r@),
    {
        InputLayers { layers: Vec::new() }
    }

    /// The layers, most specific first.
    pub fn layers(&self) -> (r: &Vec<InputLayer>)
        ensures
            r@ == self@,
            self.wf() ==> layers_sorted(r@),
    {
        &self.layers
    }

    /// Register a layer. It is placed after every layer with at least as many modifiers, and
    /// before those with fewer. A layer that repeats a modifier is refused, and `false` is returned.
    pub fn add_layer(&mut self, layer: InputLayer) -> (r: bool)
        requires
            old(self).wf(),
        ensures
            final(self).wf(),
            r == layer.modifiers.input@.no_duplicates(),
            !r ==> final(self)@ == old(self)@,
            r ==> final(self)@ == old(self)@.insert(insert_position(old(self)@, layer.modifiers.input@.len(), 0), layer),
            layers_sorted(final(self)@),
    {
        if !no_repeats(&layer.modifiers.input) {
            return false;
        }
        let n = layer.modifiers.len();
        let mut p: usize = 0;
        while p < self.layers.len() && self.layers[p].modifiers.len() >= n
            invariant
                p <= self.layers@.len(),
                forall|j: int| 0 <= j < p ==> self.layers@[j].modifiers.input@.len() >= n,
                insert_position(self.layers@, n as nat, 0) == insert_position(self.layers@, n as nat, p as int),
            decreases self.layers@.len() - p,
        {
            p = p + 1;
        }
        let ghost before = self.layers@;
        assert(insert_position(before, n as nat, p as int) == p);
        self.layers.insert(p, layer);
        proof {
            let s = self.layers@;
            assert(s == before.insert(p as int, layer));
            assert forall|i: int, j: int| 0 <= i < j < s.len() implies
                #[trigger] s[i].modifiers.input@.len() >= #[trigger] s[j].modifiers.input@.len() by {
                if i < p && j == p {
                } else if i == p {
                    assert(s[j] == before[j - 1]);
                    if p < j - 1 {
                        assert(before[p as int].modifiers.input@.len() >= before[j - 1].modifiers.input@.len());
                    }
                } else if i > p {
                    assert(s[i] == before[i - 1] && s[j] == before[j - 1]);
                } else if j > p {
                    assert(s[j] == before[j - 1]);
                    assert(before[i].modifiers.input@.len() >= before[j - 1].modifiers.input@.len());
                }
            }
            assert forall|i: int| 0 <= i < s.len() implies (#[trigger] s[i]).modifiers.input@.no_duplicates() by {
                if i > p {
                    assert(s[i] == before[i - 1]);
                }
            }
        }
        assert(self@ == old(self)@.insert(p as int, layer));
        true
    }

    /// A well-formed table is sorted by descending modifier count, and no layer repeats a
    /// modifier.
    pub proof fn lemma_sorted(&self)
        requires
            self.wf(),
        ensures
            layers_sorted(self@),
    {
    }

    /// Index of the most specific layer whose modifiers are all held, if any.
    pub fn resolve_layer(&self, held: &Vec<InputStrokeItem>) -> (r: Option<usize>)
        ensures
            r matches Some(i) ==> pick_layer(self@, held@, 0) == Some(i as int),
            r is None ==> pick_layer(self@, held@, 0) is None,
    {
        let mut i: usize = 0;
        while i < self.layers.len()
            invariant
                i <= self.layers@.len(),
                pick_layer(self@, held@, 0) == pick_layer(self@, held@, i as int),
            decreases self.layers@.len() - i,
        {
            if self.layers[i].modifiers.is_held(held) {
                return Some(i);
            }
            i = i + 1;
        }
        None
    }

    /// The action that `item` triggers while the items in `held` are down, if any.
    ///
    /// The most specific layer whose modifiers are all held wins; `item` is looked up among its
    /// bindings, but never as one of that layer's own modifiers. Less specific layers are not
    /// consulted, so their bindings are shadowed.
    pub fn match_stroke(&self, held: &Vec<InputStrokeItem>, item: InputStrokeItem) -> (r: Option<InputActionID>)
        ensures
            r == match_stroke_spec(self@, held@, item),
    {
        proof { lemma_pick_layer_range(self@, held@, 0); }
        match self.resolve_layer(held) {
            Some(l) => {
                let layer = &self.layers[l];
                if layer.modifiers.contains(item) {
                    None
                } else {
                    find_binding(&layer.bindings, item)
                }
            }
            None => None,
        }
    }

    /// Match an input event's item: the action it triggers, and whether the event was active.
    /// Only an active match should reach a handler.
    pub fn match_event(&self, held: &Vec<InputStrokeItem>, item: InputStrokeItem, is_active: bool) -> (r: Option<ActionMatch>)
        ensures
            r == match match_stroke_spec(self@, held@, item) {
                Some(a) => Some(ActionMatch { action: a, is_active }),
                None => None::<ActionMatch>,
            },
    {
        match self.match_stroke(held, item) {
            Some(action) => Some(ActionMatch { action, is_active }),
            None => None,
        }
    }
}

/// Where a layer with `n` modifiers goes: before the first layer, from index `i` on, with fewer
/// modifiers, or at the end if there is none.
pub open spec fn insert_position(layers: Seq<InputLayer>, n: nat, i: int) -> int
    decreases layers.len() - i,
{
    if i < 0 || i >= layers.len() {
        layers.len() as int
    } else if layers[i].modifiers.input@.len() < n {
        i
    } else {
        insert_position(layers, n, i + 1)
    }
}

/// Layers sorted by descending modifier count, none repeating a modifier.
pub open spec fn layers_sorted(layers: Seq<InputLayer>) -> bool {
    &&& forall|i: int, j: int| 0 <= i < j < layers.len() ==>
        #[trigger] layers[i].modifiers.input@.len() >= #[trigger] layers[j].modifiers.input@.len()
    &&& forall|i: int| 0 <= i < layers.len() ==> (#[trigger] layers[i]).modifiers.input@.no_duplicates()
}

/// The most specific held layer wins: when every modifier of layer `i` is held, the layer that
/// is chosen is never a layer `j` whose modifiers form a strict subset of layer `i`'s.
pub proof fn lemma_specific_layer_preferred(layers: &InputLayers, held: Seq<InputStrokeItem>, i: int, j: int)
    requires
        layers.wf(),
        0 <= i < layers@.len(),
        0 <= j < layers@.len(),
        held_all(layers@[i].modifiers.input@, held),
        layers@[j].modifiers.input@.to_set().subset_of(layers@[i].modifiers.input@.to_set()),
        layers@[j].modifiers.input@.to_set() != layers@[i].modifiers.input@.to_set(),
    ensures
        pick_layer(layers@, held, 0) != Some(j),
        pick_layer(layers@, held, 0) matches Some(k) && k <= i,
{
    let mi = layers@[i].modifiers.input@;
    let mj = layers@[j].modifiers.input@;
    mi.unique_seq_to_set();
    mj.unique_seq_to_set();
    vstd::seq_lib::seq_to_set_is_finite(mi);
    vstd::seq_lib::seq_to_set_is_finite(mj);
    vstd::set_lib::lemma_len_subset(mj.to_set(), mi.to_set());
    if mj.to_set().len() == mi.to_set().len() {
        vstd::set_lib::lemma_subset_equality(mj.to_set(), mi.to_set());
    }
    assert(mj.len() < mi.len());
    if j <= i {
        assert(j != i);
        assert(layers@[j].modifiers.input@.len() >= layers@[i].modifiers.input@.len());
    }
    lemma_pick_layer_range(layers@, held, 0);
}

/// True if no item occurs twice.
pub fn no_repeats(items: &Vec<InputStrokeItem>) -> (r: bool)
    ensures
        r == items@.no_duplicates(),
{
    let mut i: usize = 0;
    while i < items.len()
        invariant
            i <= items@.len(),
            forall|a: int, b: int| 0 <= a < b < items@.len() && a < i ==> items@[a] != items@[b],
        decreases items@.len() - i,
    {
        let mut j: usize = i + 1;
        while j < items.len()
            invariant
                i < items@.len(),
                i + 1 <= j <= items@.len(),
                forall|a: int, b: int| 0 <= a < b < items@.len() && a < i ==> items@[a] != items@[b],
                forall|b: int| i < b < j ==> items@[i as int] != items@[b],
            decreases items@.len() - j,
        {
            if items[i] == items[j] {
                return false;
            }
            j = j + 1;
        }
        i = i + 1;
    }
    true
}

/// The action of the first binding triggered by `item`.
pub fn find_binding(bindings: &Vec<InputBinding>, item: InputStrokeItem) -> (r: Option<InputActionID>)
    ensures
        r == pick_binding(bindings@, item, 0),
{
    let mut i: usize = 0;
    while i < bindings.len()
        invariant
            i <= bindings@.len(),
            pick_binding(bindings@, item, 0) == pick_binding(bindings@, item, i as int),
        decreases bindings@.len() - i,
    {
        if bindings[i].trigger == item {
            return Some(bindings[i].action);
        }
        i = i + 1;
    }
    None
}

impl PartialEq for InputStroke {
    /// Strokes are equal when they hold the same items, whatever the order.
    fn eq(&self, other: &InputStroke) -> (r: bool) {
        self.same_items(other)
    }
}

impl vstd::std_specs::cmp::PartialEqSpecImpl for InputStroke {
    open spec fn obeys_eq_spec() -> bool {
        true
    }

    open spec fn eq_spec(&self, other: &InputStroke) -> bool {
        self.input@.to_set() == other.input@.to_set()
    }
}

/// True if both lists hold the same bindings in the same order.
pub fn same_bindings(a: &Vec<InputBinding>, b: &Vec<InputBinding>) -> (r: bool)
    ensures
        r == (a@ == b@),
{
    if a.len() != b.len() {
        return false;
    }
    let mut i: usize = 0;
    while i < a.len()
        invariant
            a@.len() == b@.len(),
            i <= a@.len(),
            forall|j: int| 0 <= j < i ==> a@[j] == b@[j],
        decreases a@.len() - i,
    {
        if a[i] != b[i] {
            return false;
        }
        i = i + 1;
    }
    assert(a@ =~= b@);
    true
}

impl PartialEq for InputLayer {
    /// Layers are equal when their modifiers hold the same items and their bindings are the
    /// same, in the same order.
    fn eq(&self, other: &InputLayer) -> (r: bool) {
        self.modifiers.same_items(&other.modifiers) && same_bindings(&self.bindings, &other.bindings)
    }
}

impl vstd::std_specs::cmp::PartialEqSpecImpl for InputLayer {
    open spec fn obeys_eq_spec() -> bool {
        true
    }

    open spec fn eq_spec(&self, other: &InputLayer) -> bool {
        self.modifiers.input@.to_set() == other.modifiers.input@.to_set() && self.bindings@ == other.bindings@
    }
}

} // verus!
