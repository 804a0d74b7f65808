use fluid::backend::Rectangle;
use fluid::style::Side;
use fluid::tree::{focus_pass, FocusDirection, FocusVisit, WithPriority};

fn visit(node: usize, depth: u32, x: i32, y: i32, focused: bool) -> FocusVisit {
    FocusVisit { node, depth, layout_box: Rectangle::new(x, y, 10, 10), focused }
}

#[test]
fn next_of_last_wraps_to_first() {
    let visits = vec![visit(1, 1, 0, 0, false), visit(2, 1, 0, 20, false), visit(3, 1, 0, 40, true)];
    let t = focus_pass(Rectangle::new(0, 40, 10, 10), &visits);
    assert_eq!(t.first, Some(1));
    assert_eq!(t.last, Some(3));
    assert_eq!(t.next, Some(1));
    assert_eq!(t.prev, Some(2));
    assert_eq!(t.focus_next(), t.first);
}

#[test]
fn prev_of_first_wraps_to_last() {
    let visits = vec![visit(1, 1, 0, 0, true), visit(2, 1, 0, 20, false), visit(3, 1, 0, 40, false)];
    let t = focus_pass(Rectangle::new(0, 0, 10, 10), &visits);
    assert_eq!(t.prev, Some(3));
    assert_eq!(t.next, Some(2));
    assert_eq!(t.focus_previous(), t.last);
}

#[test]
fn single_focusable_node_is_all_four() {
    for focused in [false, true] {
        let t = focus_pass(Rectangle::new(0, 0, 10, 10), &vec![visit(7, 2, 0, 0, focused)]);
        assert_eq!(t.first, Some(7));
        assert_eq!(t.last, Some(7));
        assert_eq!(t.prev, Some(7));
        assert_eq!(t.next, Some(7));
    }
}

#[test]
fn no_focusable_node_leaves_everything_absent() {
    let t = focus_pass(Rectangle::new(0, 0, 10, 10), &vec![]);
    assert_eq!(t.first, None);
    assert_eq!(t.last, None);
    assert_eq!(t.prev, None);
    assert_eq!(t.next, None);
    for side in [Side::Left, Side::Right, Side::Top, Side::Bottom] {
        assert_eq!(t.focus_direction(side), None);
    }
}

#[test]
fn equal_priority_prefers_nearer_candidate() {
    // Focus box centred at (5, 5); both candidates below it at the same depth.
    let focus = Rectangle::new(0, 0, 10, 10);
    let mut t = FocusDirection::new(focus);
    t.visit(1, 1, Rectangle::new(0, 20, 10, 10), false); // centre distance 20
    t.visit(2, 1, Rectangle::new(0, 10, 10, 10), false); // centre distance 10
    assert_eq!(t.focus_direction(Side::Bottom), Some(2));
    let mut t = FocusDirection::new(focus);
    t.visit(2, 1, Rectangle::new(0, 10, 10, 10), false);
    t.visit(1, 1, Rectangle::new(0, 20, 10, 10), false);
    assert_eq!(t.focus_direction(Side::Bottom), Some(2));
}

#[test]
fn higher_priority_wins_regardless_of_distance() {
    let focus = Rectangle::new(0, 0, 10, 10);
    let mut t = FocusDirection::new(focus);
    t.step_depth(5);
    assert_eq!(t.priority, 5);
    t.visit(1, 5, Rectangle::new(0, 200, 10, 10), false); // far, priority 5
    t.visit(2, 3, Rectangle::new(0, 10, 10, 10), false); // near, priority 7
    assert_eq!(t.priority, 7);
    assert_eq!(t.focus_direction(Side::Bottom), Some(2));

    let mut t = FocusDirection::new(focus);
    t.visit(1, 5, Rectangle::new(0, 200, 10, 10), true); // focused: priority 5, then falls
    t.visit(2, 3, Rectangle::new(0, 10, 10, 10), false); // priority 3
    t.visit(3, 5, Rectangle::new(0, 300, 10, 10), false); // priority 1
    assert_eq!(t.focus_direction(Side::Bottom), Some(2));
}

#[test]
fn priority_rises_before_focus_and_falls_after() {
    let mut t = FocusDirection::new(Rectangle::new(0, 0, 10, 10));
    t.visit(1, 2, Rectangle::new(0, 20, 10, 10), false);
    assert_eq!(t.priority, 2);
    t.visit(2, 4, Rectangle::new(0, 40, 10, 10), true);
    assert_eq!(t.priority, 4);
    assert!(t.is_focus_found());
    t.visit(3, 1, Rectangle::new(0, 60, 10, 10), false);
    assert_eq!(t.priority, 1);
}

#[test]
fn priority_saturates() {
    let mut t = FocusDirection::new(Rectangle::new(0, 0, 10, 10));
    t.step_depth(u32::MAX);
    assert_eq!(t.priority, i32::MAX);
}

#[test]
fn candidates_go_to_the_side_they_lie_on() {
    let focus = Rectangle::new(100, 100, 10, 10);
    let visits = vec![
        visit(1, 1, 50, 100, false),
        visit(2, 1, 150, 100, false),
        visit(3, 1, 100, 50, false),
        visit(4, 1, 100, 150, false),
        visit(5, 1, 100, 100, true),
    ];
    let t = focus_pass(focus, &visits);
    assert_eq!(t.focus_direction(Side::Left), Some(1));
    assert_eq!(t.focus_direction(Side::Right), Some(2));
    assert_eq!(t.focus_direction(Side::Top), Some(3));
    assert_eq!(t.focus_direction(Side::Bottom), Some(4));
}

#[test]
fn focus_box_moves_to_newly_focused_node() {
    let visits = vec![visit(1, 1, 0, 0, false), visit(2, 1, 30, 40, true)];
    let t = focus_pass(Rectangle::new(0, 0, 10, 10), &visits);
    assert_eq!(t.last_focus_box, Rectangle::new(30, 40, 10, 10));
    let t = focus_pass(Rectangle::new(5, 5, 1, 1), &vec![visit(1, 1, 0, 0, false)]);
    assert_eq!(t.last_focus_box, Rectangle::new(5, 5, 1, 1));
}

#[test]
fn squared_distance_between_centres_in_half_pixels() {
    let a = Rectangle::new(0, 0, 10, 10);
    assert_eq!(Rectangle::new(0, 10, 10, 10).distance2(&a), 4 * 100);
    assert_eq!(Rectangle::new(0, 20, 10, 10).distance2(&a), 4 * 400);
    assert_eq!(Rectangle::new(3, 4, 10, 10).distance2(&a), 4 * 25);
    assert_eq!(Rectangle::new(0, 0, 1, 0).distance2(&a), 9 * 9 + 10 * 10);
}

#[test]
fn with_priority_fields() {
    let w = WithPriority { priority: 5, distance2: 100, node: 3 };
    assert_eq!(w.priority, 5);
}

#[test]
fn layout_tree_moves_focus() {
    use_layout_tree();
}

fn use_layout_tree() {
    let devices = fluid::action::InputDevices {
        keyboard: fluid::context::IOID::new(1),
        mouse: fluid::context::IOID::new(2),
        gamepad: fluid::context::IOID::new(3),
    };
    let mut tree = fluid::tree::LayoutTree::new(0, devices);
    assert_eq!(tree.focus_next(), None);
    assert_eq!(tree.focus, None);
    let visits = vec![visit(1, 1, 0, 0, false), visit(2, 1, 0, 20, true), visit(3, 1, 0, 40, false)];
    tree.update_focus_direction(&visits);
    assert_eq!(tree.focus_next(), Some(3));
    assert_eq!(tree.focus, Some(3));
    assert_eq!(tree.focus_previous(), Some(1));
    assert_eq!(tree.focus, Some(1));
    // The focus box is now the one of node 2; node 3 lies below it.
    tree.update_focus_direction(&visits);
    assert_eq!(tree.focus_direction(Side::Bottom), Some(3));
    assert_eq!(tree.focus_direction(Side::Left), None);
    assert_eq!(tree.focus, Some(3));
}

#[test]
fn layout_tree_routes_input_and_io() {
    let devices = fluid::action::InputDevices {
        keyboard: fluid::context::IOID::new(1),
        mouse: fluid::context::IOID::new(2),
        gamepad: fluid::context::IOID::new(3),
    };
    let mut tree = fluid::tree::LayoutTree::new(0, devices);
    let press = fluid::input::FluidInputAction::Press.id();
    let layer = fluid::input::InputLayer {
        modifiers: fluid::input::InputStroke::new(vec![]),
        bindings: vec![fluid::input::InputBinding { action: press, trigger: fluid::input::InputStrokeItem::MouseButton(0) }],
    };
    assert!(tree.bound_inputs.add_layer(layer));
    let code = fluid::action::InputEventCode { io_id: fluid::context::IOID::new(2), event: 0 };
    tree.submit_event(fluid::action::InputEvent { code, is_active: true }, 9);
    let calls = tree.resolve_input();
    assert_eq!(calls.len(), 1);
    assert_eq!(calls[0].action, press);
    assert_eq!(calls[0].number, 9);
    assert!(tree.resolve_input().is_empty());

    let id = fluid::context::IOID::new(5);
    let scope = tree.with_io(id, 50);
    assert_eq!(tree.io.current(id), Some(50));
    tree.end_io(scope);
    assert_eq!(tree.io.current(id), None);

    let run = tree.start_action(None);
    assert!(tree.actions.is_current(run));
    tree.stop_action(run.handle);
    assert!(!tree.actions.is_current(run));
}
