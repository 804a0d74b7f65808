//! Input events, and the buffer that turns a frame's events into input actions.
use vstd::prelude::*;
use crate::context::{IO, IOID};
use crate::input::{InputActionID, InputLayers, InputStrokeItem, match_stroke_spec};

verus! {

/// Uniquely codes a pressed key, button or gesture by the I/O interface that reports it and
/// the code that interface gives it.
#[derive(Clone, Copy, PartialEq, Eq, Structural, Debug)]
pub struct InputEventCode {
    /// ID of the I/O interface representing the input device.
    pub io_id: IOID,
    /// Code of the key or button, as defined by the I/O interface.
    pub event: i32,
}

/// An event from an input device: a key, button or gesture that is active this frame.
#[derive(Clone, Copy, PartialEq, Eq, Structural, Debug)]
pub struct InputEvent {
    /// Code uniquely identifying the source of the event.
    pub code: InputEventCode,
    /// True on the one frame of a hold that should trigger input actions.
    pub is_active: bool,
}

/// When a held source triggers its actions.
#[derive(Clone, Copy, PartialEq, Eq, Structural, Debug)]
pub enum Activation {
    /// On the first frame it is held, as keyboard keys do.
    Press,
    /// On the frame it is let go, as mouse buttons do.
    Release,
}

/// Whether a frame of a source emits an event, and whether that event is active.
pub open spec fn frame_emits(kind: Activation, was_down: bool, is_down: bool) -> bool {
    match kind {
        Activation::Press => is_down,
        Activation::Release => is_down || was_down,
    }
}

/// Whether the event of a frame is the active one of its hold.
pub open spec fn frame_active(kind: Activation, was_down: bool, is_down: bool) -> bool {
    match kind {
        Activation::Press => is_down && !was_down,
        Activation::Release => was_down && !is_down,
    }
}

/// The event a source emits for one frame, given whether it was down the frame before and
/// whether it is down now. A source emits an event on every frame of its hold (for
/// release-activated sources, also on the frame it is let go); exactly one of them is active.
pub fn frame_event(code: InputEventCode, kind: Activation, was_down: bool, is_down: bool) -> (r: Option<InputEvent>)
    ensures
        r is Some == frame_emits(kind, was_down, is_down),
        r matches Some(e) ==> e.code == code && e.is_active == frame_active(kind, was_down, is_down),
{
    let emits = match kind {
        Activation::Press => is_down,
        Activation::Release => is_down || was_down,
    };
    let active = match kind {
        Activation::Press => is_down && !was_down,
        Activation::Release => was_down && !is_down,
    };
    if emits {
        Some(InputEvent { code, is_active: active })
    } else {
        None
    }
}

/// Down state of a source on the frame before frame `i`; it is up before the first frame.
pub open spec fn down_before(frames: Seq<bool>, i: int) -> bool {
    if i <= 0 { false } else { frames[i - 1] }
}

/// Number of active events emitted over frames `lo .. hi`.
pub open spec fn active_count(kind: Activation, frames: Seq<bool>, lo: int, hi: int) -> nat
    decreases hi - lo,
{
    if hi <= lo {
        0
    } else {
        active_count(kind, frames, lo, hi - 1) + if frame_active(kind, down_before(frames, hi - 1), frames[hi - 1]) { 1nat } else { 0nat }
    }
}

/// Frames `a .. b` are one hold: the source is down on each of them, and up just before and
/// just after.
pub open spec fn is_hold(frames: Seq<bool>, a: int, b: int) -> bool {
    &&& 0 <= a < b <= frames.len()
    &&& forall|i: int| a <= i < b ==> #[trigger] frames[i]
    &&& !down_before(frames, a)
    &&& b == frames.len() || !frames[b]
}

/// One physical activation gives one active event: the frames of a hold, with the frame it is
/// let go for release-activated sources, carry exactly one active event (none yet for a
/// release-activated source still held at the end), and every one of them emits an event.
pub proof fn lemma_one_active_per_hold(kind: Activation, frames: Seq<bool>, a: int, b: int)
    requires
        is_hold(frames, a, b),
    ensures
        forall|i: int| a <= i < b ==> frame_emits(kind, down_before(frames, i), #[trigger] frames[i]),
        kind == Activation::Press ==> active_count(kind, frames, a, b) == 1,
        kind == Activation::Release && b < frames.len() ==> active_count(kind, frames, a, b + 1) == 1
            && frame_emits(kind, down_before(frames, b), frames[b]),
        kind == Activation::Release && b == frames.len() ==> active_count(kind, frames, a, b) == 0,
{
    lemma_active_count_in_hold(kind, frames, a, b, b);
    if kind == Activation::Release && b < frames.len() {
        assert(active_count(kind, frames, a, b + 1) == active_count(kind, frames, a, b) + 1);
    }
}

proof fn lemma_active_count_in_hold(kind: Activation, frames: Seq<bool>, a: int, b: int, hi: int)
    requires
        is_hold(frames, a, b),
        a <= hi <= b,
    ensures
        kind == Activation::Press ==> active_count(kind, frames, a, hi) == if hi > a { 1nat } else { 0nat },
        kind == Activation::Release ==> active_count(kind, frames, a, hi) == 0,
    decreases hi - a,
{
    if hi > a {
        lemma_active_count_in_hold(kind, frames, a, b, hi - 1);
        if hi - 1 > a {
            assert(frames[hi - 2]);
        }
    }
}

/// Maps event codes of the registered input devices to stroke items.
#[derive(Clone, Copy, PartialEq, Eq, Structural, Debug)]
pub struct InputDevices {
    pub keyboard: IOID,
    pub mouse: IOID,
    pub gamepad: IOID,
}

impl InputDevices {
    /// The stroke item an event code stands for; `None` for a device that is not registered.
    pub open spec fn item_spec(self, code: InputEventCode) -> Option<InputStrokeItem> {
        if code.io_id == self.keyboard {
            Some(InputStrokeItem::KeyboardKey(code.event))
        } else if code.io_id == self.mouse {
            Some(InputStrokeItem::MouseButton(code.event))
        } else if code.io_id == self.gamepad {
            Some(InputStrokeItem::GamepadButton(code.event))
        } else {
            None
        }
    }

    /// The stroke item an event code stands for; `None` for a device that is not registered.
    pub fn item(&self, code: InputEventCode) -> (r: Option<InputStrokeItem>)
        ensures
            r == self.item_spec(code),
    {
        if code.io_id == self.keyboard {
            Some(InputStrokeItem::KeyboardKey(code.event))
        } else if code.io_id == self.mouse {
            Some(InputStrokeItem::MouseButton(code.event))
        } else if code.io_id == self.gamepad {
            Some(InputStrokeItem::GamepadButton(code.event))
        } else {
            None
        }
    }
}

/// An event waiting in the buffer, with the number to hand to its handler.
#[derive(Clone, Copy, PartialEq, Eq, Structural, Debug)]
pub struct PendingEvent {
    pub event: InputEvent,
    pub number: i32,
}

/// A call to make once the frame is resolved: handle `action`, with the submitted number.
#[derive(Clone, Copy, PartialEq, Eq, Structural, Debug)]
pub struct ActionCall {
    pub action: InputActionID,
    pub number: i32,
    pub is_active: bool,
}

/// Items held down this frame: those of every submitted event from a registered device.
pub open spec fn held_items(devices: InputDevices, events: Seq<PendingEvent>) -> Seq<InputStrokeItem>
    decreases events.len(),
{
    if events.len() == 0 {
        Seq::empty()
    } else {
        let rest = held_items(devices, events.drop_last());
        match devices.item_spec(events.last().event.code) {
            Some(item) => rest.push(item),
            None => rest,
        }
    }
}

/// The calls made for `events`, in submission order, while `held` is held: one for each active
/// event whose item triggers an action.
pub open spec fn calls_for(devices: InputDevices, layers: Seq<crate::input::InputLayer>, held: Seq<InputStrokeItem>, events: Seq<PendingEvent>) -> Seq<ActionCall>
    decreases events.len(),
{
    if events.len() == 0 {
        Seq::empty()
    } else {
        let rest = calls_for(devices, layers, held, events.drop_last());
        let p = events.last();
        match devices.item_spec(p.event.code) {
            Some(item) => if p.event.is_active {
                match match_stroke_spec(layers, held, item) {
                    Some(action) => rest.push(ActionCall { action, number: p.number, is_active: true }),
                    None => rest,
                }
            } else {
                rest
            },
            None => rest,
        }
    }
}

/// Holds a frame's input events until the frame's tree has been walked, then resolves them
/// all at once into action calls.
pub struct ActionBuffer {
    pending: Vec<PendingEvent>,
}

impl ActionBuffer {
    /// The events waiting, in submission order.
    pub closed spec fn view(&self) -> Seq<PendingEvent> {
        self.pending@
    }

    /// An empty buffer.
    pub fn new() -> (r: Self)
        ensures
            r@ == Seq::<PendingEvent>::empty(),
    {
        ActionBuffer { pending: Vec::new() }
    }

    /// Number of events waiting.
    pub fn len(&self) -> (r: usize)
        ensures
            r == self@.len(),
    {
        self.pending.len()
    }

    /// Store an event, with the number its handler will get. Nothing is resolved yet.
    pub fn submit(&mut self, event: InputEvent, number: i32)
        ensures
            final(self)@ == old(self)@.push(PendingEvent { event, number }),
    {
        self.pending.push(PendingEvent { event, number });
    }

    /// Resolve the frame: every item with an event this frame counts as held; each active event,
    /// in submission order, gives a call for the action it triggers, if any. Passive events
    /// only count as held. Afterwards the buffer is empty: no event carries over to the next
    /// frame.
    pub fn resolve(&mut self, devices: &InputDevices, layers: &InputLayers) -> (r: Vec<ActionCall>)
        ensures
            final(self)@ == Seq::<PendingEvent>::empty(),
            r@ == calls_for(*devices, layers@, held_items(*devices, old(self)@), old(self)@),
    {
        let mut held: Vec<InputStrokeItem> = Vec::new();
        let mut i: usize = 0;
        while i < self.pending.len()
            invariant
                i <= self.pending@.len(),
                held@ == held_items(*devices, self.pending@.take(i as int)),
            decreases self.pending@.len() - i,
        {
            assert(self.pending@.take(i + 1).drop_last() == self.pending@.take(i as int));
            match devices.item(self.pending[i].event.code) {
                Some(item) => held.push(item),
                None => {},
            }
            i = i + 1;
        }
        assert(self.pending@.take(i as int) == self.pending@);
        let mut calls: Vec<ActionCall> = Vec::new();
        let mut i: usize = 0;
        while i < self.pending.len()
            invariant
                i <= self.pending@.len(),
                held@ == held_items(*devices, self.pending@),
                calls@ == calls_for(*devices, layers@, held@, self.pending@.take(i as int)),
            decreases self.pending@.len() - i,
        {
            assert(self.pending@.take(i + 1).drop_last() == self.pending@.take(i as int));
            let p = self.pending[i];
            match devices.item(p.event.code) {
                Some(item) => {
                    if p.event.is_active {
                        match layers.match_stroke(&held, item) {
                            Some(action) => calls.push(ActionCall { action, number: p.number, is_active: true }),
                            None => {},
                        }
                    }
                },
                None => {},
            }
            i = i + 1;
        }
        assert(self.pending@.take(i as int) == self.pending@);
        self.pending.clear();
        calls
    }
}

/// A node that responds to input actions.
pub trait Actionable {
    /// True while the node blocks input: it accepts no input actions and cannot take focus.
    spec fn blocked(&self) -> bool;

    /// Whether the node currently blocks input.
    fn blocks_input(&self) -> (r: bool)
        ensures
            r == self.blocked();

    /// Whether the node, in this state, handles the action it is given with this number and
    /// activity.
    spec fn handles(&self, number: i32, action: InputActionID, is_active: bool) -> bool;

    /// Handle an input action. Never called on a node that blocks input. `number` is the one
    /// given when the event was submitted. Returns true if the action was handled.
    fn action_impl(&mut self, number: i32, action: InputActionID, is_active: bool) -> (handled: bool)
        requires
            !old(self).blocked(),
        ensures
            handled == old(self).handles(number, action, is_active);
}

/// Hand a resolved call to a node. A node that blocks input is not called, and `None` is
/// returned; otherwise the node is given the call's number, action and activity, and its
/// answer, whether it handled the action, is returned.
pub fn deliver<A: Actionable>(node: &mut A, call: ActionCall) -> (r: Option<bool>)
    ensures
        r == if old(node).blocked() {
            None
        } else {
            Some(old(node).handles(call.number, call.action, call.is_active))
        },
        old(node).blocked() ==> *final(node) == *old(node),
{
    if node.blocks_input() {
        None
    } else {
        Some(node.action_impl(call.number, call.action, call.is_active))
    }
}

/// An I/O system that maps input events to input actions. Events are held until the frame's
/// tree has been walked, then resolved together.
pub trait ActionIO: IO {
    /// The events waiting to be resolved, in the order they were passed.
    spec fn queued(&self) -> Seq<PendingEvent>;

    /// Pass an input event to be resolved at the end of the frame, with a number that is
    /// handed as-is to the handler of the action it triggers. Nothing is resolved yet.
    fn emit_event(&mut self, event: InputEvent, number: i32)
        ensures
            final(self).queued() == old(self).queued().push(PendingEvent { event, number });
}

impl IO for ActionBuffer {}

impl ActionIO for ActionBuffer {
    open spec fn queued(&self) -> Seq<PendingEvent> {
        self@
    }

    fn emit_event(&mut self, event: InputEvent, number: i32) {
        self.submit(event, number);
    }
}

} // verus!
