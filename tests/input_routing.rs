use fluid::action::{frame_event, Activation, ActionBuffer, ActionCall, InputDevices, InputEvent, InputEventCode};
use fluid::context::IOID;
use fluid::input::{FluidInputAction, InputActionID, InputBinding, InputLayer, InputLayers, InputStroke, InputStrokeItem};

const CTRL: i32 = 341;
const SHIFT: i32 = 340;
const KEY_A: i32 = 65;
const KEY_X: i32 = 88;

fn devices() -> InputDevices {
    InputDevices { keyboard: IOID::new(1), mouse: IOID::new(2), gamepad: IOID::new(3) }
}

fn key(code: i32) -> InputStrokeItem {
    InputStrokeItem::KeyboardKey(code)
}

fn layer(modifiers: Vec<i32>, bindings: Vec<(i32, FluidInputAction)>) -> InputLayer {
    InputLayer {
        modifiers: InputStroke::new(modifiers.into_iter().map(key).collect()),
        bindings: bindings
            .into_iter()
            .map(|(k, a)| InputBinding { action: a.id(), trigger: key(k) })
            .collect(),
    }
}

fn key_event(code: i32, is_active: bool) -> InputEvent {
    InputEvent { code: InputEventCode { io_id: IOID::new(1), event: code }, is_active }
}

fn cancel_and_menu_layers() -> InputLayers {
    let mut layers = InputLayers::new();
    assert!(layers.add_layer(layer(vec![], vec![(KEY_A, FluidInputAction::Cancel)])));
    assert!(layers.add_layer(layer(vec![CTRL], vec![(KEY_A, FluidInputAction::ContextMenu)])));
    layers
}

fn resolve(layers: &InputLayers, events: Vec<InputEvent>) -> Vec<ActionCall> {
    let mut buffer = ActionBuffer::new();
    for (i, e) in events.into_iter().enumerate() {
        buffer.submit(e, i as i32);
    }
    let calls = buffer.resolve(&devices(), layers);
    assert_eq!(buffer.len(), 0);
    calls
}

#[test]
fn ctrl_a_resolves_to_context_menu() {
    let layers = cancel_and_menu_layers();
    let calls = resolve(&layers, vec![key_event(CTRL, false), key_event(KEY_A, true)]);
    assert_eq!(calls, vec![ActionCall { action: FluidInputAction::ContextMenu.id(), number: 1, is_active: true }]);
}

#[test]
fn a_alone_resolves_to_cancel() {
    let layers = cancel_and_menu_layers();
    let calls = resolve(&layers, vec![key_event(KEY_A, true)]);
    assert_eq!(calls, vec![ActionCall { action: FluidInputAction::Cancel.id(), number: 0, is_active: true }]);
}

#[test]
fn ctrl_alone_resolves_to_nothing() {
    let layers = cancel_and_menu_layers();
    assert!(resolve(&layers, vec![key_event(CTRL, true)]).is_empty());
    assert!(resolve(&layers, vec![key_event(CTRL, false)]).is_empty());
}

#[test]
fn most_specific_layer_wins_over_subsets() {
    let mut layers = InputLayers::new();
    assert!(layers.add_layer(layer(vec![], vec![(KEY_X, FluidInputAction::Cancel)])));
    assert!(layers.add_layer(layer(vec![CTRL], vec![(KEY_X, FluidInputAction::Cut)])));
    assert!(layers.add_layer(layer(vec![CTRL, SHIFT], vec![(KEY_X, FluidInputAction::Redo)])));
    // Sorted by descending modifier count regardless of registration order.
    let counts: Vec<usize> = layers.layers().iter().map(|l| l.modifiers.len()).collect();
    assert_eq!(counts, vec![2, 1, 0]);
    let held = vec![key(CTRL), key(SHIFT), key(KEY_X)];
    assert_eq!(layers.resolve_layer(&held), Some(0));
    assert_eq!(layers.match_stroke(&held, key(KEY_X)), Some(FluidInputAction::Redo.id()));
    let held = vec![key(CTRL), key(KEY_X)];
    assert_eq!(layers.match_stroke(&held, key(KEY_X)), Some(FluidInputAction::Cut.id()));
    let held = vec![key(KEY_X)];
    assert_eq!(layers.match_stroke(&held, key(KEY_X)), Some(FluidInputAction::Cancel.id()));
}

#[test]
fn shadowed_binding_in_less_specific_layer() {
    let mut layers = InputLayers::new();
    assert!(layers.add_layer(layer(vec![], vec![(KEY_X, FluidInputAction::Cancel)])));
    assert!(layers.add_layer(layer(vec![CTRL], vec![(KEY_A, FluidInputAction::SelectAll)])));
    // Ctrl is held, so the Ctrl layer is chosen, and it does not bind X.
    assert_eq!(layers.match_stroke(&vec![key(CTRL), key(KEY_X)], key(KEY_X)), None);
}

#[test]
fn modifier_is_never_its_layers_trigger() {
    let mut layers = InputLayers::new();
    assert!(layers.add_layer(layer(vec![CTRL], vec![(CTRL, FluidInputAction::Press)])));
    assert_eq!(layers.match_stroke(&vec![key(CTRL)], key(CTRL)), None);
}

#[test]
fn layer_with_repeated_modifier_is_refused() {
    let mut layers = InputLayers::new();
    assert!(!layers.add_layer(layer(vec![CTRL, CTRL], vec![(KEY_A, FluidInputAction::Press)])));
    assert_eq!(layers.layers().len(), 0);
}

#[test]
fn match_event_reports_activity() {
    let layers = cancel_and_menu_layers();
    let m = layers.match_event(&vec![key(KEY_A)], key(KEY_A), false).unwrap();
    assert_eq!(m.action, FluidInputAction::Cancel.id());
    assert!(!m.is_active);
    assert!(layers.match_event(&vec![key(KEY_A)], key(KEY_A), true).unwrap().is_active);
}

#[test]
fn passive_events_only_count_as_held() {
    let layers = cancel_and_menu_layers();
    assert!(resolve(&layers, vec![key_event(KEY_A, false)]).is_empty());
}

#[test]
fn unregistered_device_is_ignored() {
    let layers = cancel_and_menu_layers();
    let stray = InputEvent { code: InputEventCode { io_id: IOID::new(99), event: KEY_A }, is_active: true };
    assert!(resolve(&layers, vec![stray]).is_empty());
    assert_eq!(devices().item(stray.code), None);
    let mouse = InputEventCode { io_id: IOID::new(2), event: 0 };
    assert_eq!(devices().item(mouse), Some(InputStrokeItem::MouseButton(0)));
}

#[test]
fn calls_keep_submission_order() {
    let mut layers = InputLayers::new();
    assert!(layers.add_layer(layer(vec![], vec![(KEY_A, FluidInputAction::Cancel), (KEY_X, FluidInputAction::Press)])));
    let calls = resolve(&layers, vec![key_event(KEY_X, true), key_event(KEY_A, true)]);
    let actions: Vec<InputActionID> = calls.iter().map(|c| c.action).collect();
    assert_eq!(actions, vec![FluidInputAction::Press.id(), FluidInputAction::Cancel.id()]);
    assert_eq!(calls[0].number, 0);
    assert_eq!(calls[1].number, 1);
}

#[test]
fn action_ids_are_distinct() {
    assert_eq!(FluidInputAction::Press.id().id, 0);
    assert_eq!(FluidInputAction::PageDown.id().id, 54);
    assert_ne!(FluidInputAction::Cancel.id(), FluidInputAction::ContextMenu.id());
}

fn run_source(kind: Activation, frames: &[bool]) -> Vec<Option<bool>> {
    let code = InputEventCode { io_id: IOID::new(1), event: KEY_A };
    let mut was = false;
    let mut out = Vec::new();
    for &is in frames {
        out.push(frame_event(code, kind, was, is).map(|e| e.is_active));
        was = is;
    }
    out
}

#[test]
fn key_is_active_on_press_only() {
    let frames = [false, true, true, true, false, true, false];
    assert_eq!(
        run_source(Activation::Press, &frames),
        vec![None, Some(true), Some(false), Some(false), None, Some(true), None]
    );
}

#[test]
fn button_is_active_on_release_only() {
    let frames = [true, true, false, false, true, false];
    assert_eq!(
        run_source(Activation::Release, &frames),
        vec![Some(false), Some(false), Some(true), None, Some(false), Some(true)]
    );
}

#[test]
fn button_still_held_has_no_active_event() {
    let out = run_source(Activation::Release, &[true, true, true]);
    assert!(out.iter().all(|e| *e == Some(false)));
}

struct Recorder {
    blocked: bool,
    seen: Vec<(i32, InputActionID, bool)>,
}

impl fluid::action::Actionable for Recorder {
    fn blocked(&self) -> bool {
        self.blocked
    }

    fn blocks_input(&self) -> bool {
        self.blocked
    }

    fn handles(&self, _number: i32, action: InputActionID, _is_active: bool) -> bool {
        action != FluidInputAction::Cancel.id()
    }

    fn action_impl(&mut self, number: i32, action: InputActionID, is_active: bool) -> bool {
        self.seen.push((number, action, is_active));
        action != FluidInputAction::Cancel.id()
    }
}

#[test]
fn blocked_node_gets_no_action() {
    let call = ActionCall { action: FluidInputAction::Press.id(), number: 7, is_active: true };
    let mut open = Recorder { blocked: false, seen: Vec::new() };
    assert_eq!(fluid::action::deliver(&mut open, call), Some(true));
    assert_eq!(open.seen, vec![(7, FluidInputAction::Press.id(), true)]);
    let mut blocked = Recorder { blocked: true, seen: Vec::new() };
    assert_eq!(fluid::action::deliver(&mut blocked, call), None);
    assert!(blocked.seen.is_empty());
}

#[test]
fn strokes_compare_as_sets() {
    let a = InputStroke::new(vec![key(CTRL), key(SHIFT), key(KEY_X)]);
    let b = InputStroke::new(vec![key(KEY_X), key(CTRL), key(SHIFT), key(CTRL)]);
    let c = InputStroke::new(vec![key(CTRL), key(KEY_X)]);
    assert!(a.same_items(&b));
    assert!(b.same_items(&a));
    assert!(!a.same_items(&c));
    assert!(!c.same_items(&a));
    assert!(a.contains(key(SHIFT)));
    assert!(!c.contains(key(SHIFT)));
}

#[test]
fn deliver_passes_call_and_answer_through() {
    let mut node = Recorder { blocked: false, seen: Vec::new() };
    let call = ActionCall { action: FluidInputAction::Cancel.id(), number: -3, is_active: false };
    assert_eq!(fluid::action::deliver(&mut node, call), Some(false));
    assert_eq!(node.seen, vec![(-3, FluidInputAction::Cancel.id(), false)]);
}

#[test]
fn emit_event_queues_without_resolving() {
    use_action_io();
}

fn use_action_io() {
    let mut buffer = ActionBuffer::new();
    fluid::action::ActionIO::emit_event(&mut buffer, key_event(KEY_A, true), 4);
    assert_eq!(buffer.len(), 1);
    let calls = buffer.resolve(&devices(), &cancel_and_menu_layers());
    assert_eq!(calls, vec![ActionCall { action: FluidInputAction::Cancel.id(), number: 4, is_active: true }]);
}

#[test]
fn equal_size_layers_keep_registration_order() {
    let mut layers = InputLayers::new();
    assert!(layers.add_layer(layer(vec![CTRL], vec![(KEY_A, FluidInputAction::Copy)])));
    assert!(layers.add_layer(layer(vec![], vec![(KEY_A, FluidInputAction::Cancel)])));
    assert!(layers.add_layer(layer(vec![SHIFT], vec![(KEY_A, FluidInputAction::Paste)])));
    let firsts: Vec<InputActionID> = layers.layers().iter().map(|l| l.bindings[0].action).collect();
    assert_eq!(firsts, vec![FluidInputAction::Copy.id(), FluidInputAction::Paste.id(), FluidInputAction::Cancel.id()]);
}

#[test]
fn layers_compare_structurally() {
    let a = layer(vec![CTRL, SHIFT], vec![(KEY_A, FluidInputAction::Copy)]);
    let b = layer(vec![SHIFT, CTRL], vec![(KEY_A, FluidInputAction::Copy)]);
    let c = layer(vec![SHIFT, CTRL], vec![(KEY_A, FluidInputAction::Paste)]);
    let d = layer(vec![CTRL], vec![(KEY_A, FluidInputAction::Copy)]);
    assert!(a == b);
    assert!(a != c);
    assert!(a != d);
    assert!(a.modifiers == b.modifiers);
}
