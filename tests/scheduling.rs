use fluid::context::{IOInstance, IOID, TreeActionContext, TreeIOContext};
use fluid::tree::{walk_order, TreeNode, WalkStep};

#[test]
fn restart_bumps_generation_twice_and_invalidates_old_run() {
    let mut ctx = TreeActionContext::new();
    let h = ctx.add_action(None);
    let first = ctx.start_action(h);
    let g = ctx.action(h).generation;
    assert!(ctx.is_current(first));
    let second = ctx.start_action(h);
    assert_eq!(ctx.action(h).generation, g + 2);
    assert!(!ctx.is_current(first));
    assert!(ctx.is_current(second));
    // Only the new run gets callbacks.
    assert_eq!(ctx.before_descend(0), vec![h]);
}

#[test]
fn stop_bumps_generation_and_silences_action() {
    let mut ctx = TreeActionContext::new();
    let h = ctx.add_action(None);
    let run = ctx.start_action(h);
    let g = ctx.action(h).generation;
    ctx.stop_action(h);
    assert_eq!(ctx.action(h).generation, g + 1);
    assert!(ctx.action(h).to_stop);
    assert!(!ctx.is_current(run));
    assert!(ctx.before_descend(0).is_empty());
}

#[test]
fn removal_waits_for_nested_walk() {
    let mut ctx = TreeActionContext::new();
    let outer = ctx.add_action(None);
    ctx.start_action(outer);
    ctx.begin_iteration();
    // A node visited by the outer walk starts another action and a nested walk.
    let inner = ctx.add_action(None);
    ctx.start_action(inner);
    ctx.begin_iteration();
    assert_eq!(ctx.run_count(), 2);
    ctx.stop_action(outer);
    ctx.remove_finished();
    assert_eq!(ctx.run_count(), 2);
    assert_eq!(ctx.run_at(0).handle, outer);
    ctx.end_iteration();
    ctx.remove_finished();
    assert_eq!(ctx.run_count(), 1);
    assert_eq!(ctx.run_at(0).handle, inner);
    ctx.end_iteration();
    assert_eq!(ctx.iterator_count(), 0);
}

#[test]
fn subtree_action_only_sees_its_subtree() {
    // Tree: 0 -> (1 -> 2), 3
    let mut ctx = TreeActionContext::new();
    let h = ctx.add_action(Some(1));
    ctx.start_action(h);
    assert!(ctx.before_descend(0).is_empty());
    assert_eq!(ctx.before_descend(1), vec![h]);
    assert_eq!(ctx.before_descend(2), vec![h]);
    assert_eq!(ctx.after_descend(2), vec![h]);
    assert_eq!(ctx.after_descend(1), vec![h]);
    assert!(ctx.action(h).to_stop);
    assert!(ctx.before_descend(3).is_empty());
    assert!(ctx.after_descend(3).is_empty());
    assert!(ctx.after_descend(0).is_empty());
}

#[test]
fn missing_start_node_completes_with_the_tree() {
    let mut ctx = TreeActionContext::new();
    let h = ctx.add_action(Some(42));
    let run = ctx.start_action(h);
    assert!(ctx.before_descend(0).is_empty());
    assert!(ctx.after_descend(0).is_empty());
    ctx.after_tree();
    assert!(!ctx.is_current(run));
    ctx.remove_finished();
    assert_eq!(ctx.run_count(), 0);
}

#[test]
fn whole_tree_action_sees_every_node() {
    let mut ctx = TreeActionContext::new();
    let a = ctx.add_action(None);
    let b = ctx.add_action(None);
    ctx.start_action(b);
    ctx.start_action(a);
    assert_eq!(ctx.before_descend(5), vec![b, a]);
    assert_eq!(ctx.after_descend(5), vec![b, a]);
    assert_eq!(ctx.action_count(), 2);
}

#[test]
fn replace_then_restore_is_a_no_op() {
    let mut io = TreeIOContext::new();
    let id = IOID::new(4);
    assert_eq!(io.replace(IOID::new(2), Some(20)), None);
    assert_eq!(io.replace(id, Some(40)), None);
    let before = io.current(id);
    let old = io.replace(id, Some(99));
    assert_eq!(io.current(id), Some(99));
    io.replace(id, old);
    assert_eq!(io.current(id), before);
    assert_eq!(io.current(IOID::new(2)), Some(20));
}

#[test]
fn restore_of_absent_override_clears_it() {
    let mut io = TreeIOContext::new();
    let id = IOID::new(7);
    let old = io.replace(id, Some(1));
    assert_eq!(old, None);
    io.replace(id, old);
    assert_eq!(io.current(id), None);
}

#[test]
fn each_interface_has_its_own_implementation() {
    let mut io = TreeIOContext::new();
    for k in [5usize, 1, 3, 9, 0] {
        io.replace(IOID::new(k), Some(k * 10));
    }
    for k in [5usize, 1, 3, 9, 0] {
        assert_eq!(io.current(IOID::new(k)), Some(k * 10));
    }
    assert_eq!(io.current(IOID::new(2)), None);
    assert_eq!(io.replace(IOID::new(3), None), Some(30));
    assert_eq!(io.current(IOID::new(3)), None);
    assert_eq!(io.current(IOID::new(5)), Some(50));
}

#[test]
fn io_scope_restores_previous_implementation() {
    let mut io = TreeIOContext::new();
    let id = IOID::new(1);
    let outer = io.push_io(id, 10);
    let inner = io.push_io(id, 20);
    assert_eq!(io.current(id), Some(20));
    io.pop_io(inner);
    assert_eq!(io.current(id), Some(10));
    io.pop_io(outer);
    assert_eq!(io.current(id), None);
}

#[test]
fn io_instances_compare_by_interface() {
    let a = IOInstance { id: IOID::new(1), io: 10 };
    let b = IOInstance { id: IOID::new(1), io: 20 };
    let c = IOInstance { id: IOID::new(2), io: 10 };
    assert!(a == b);
    assert!(a != c);
}

#[test]
fn iteration_count_never_goes_below_zero() {
    let mut ctx = TreeActionContext::new();
    ctx.end_iteration();
    assert_eq!(ctx.iterator_count(), 0);
    ctx.begin_iteration();
    ctx.begin_iteration();
    assert_eq!(ctx.iterator_count(), 2);
}

#[test]
fn walk_order_is_depth_first() {
    use_walk_order();
}

fn use_walk_order() {

    let n = |node: usize, depth: u32| TreeNode { node, depth };
    let steps = walk_order(&vec![n(0, 0), n(1, 1), n(2, 2), n(3, 1)]);
    assert_eq!(
        steps,
        vec![
            WalkStep::Enter(0),
            WalkStep::Enter(1),
            WalkStep::Enter(2),
            WalkStep::Leave(2),
            WalkStep::Leave(1),
            WalkStep::Enter(3),
            WalkStep::Leave(3),
            WalkStep::Leave(0),
        ]
    );
    assert!(walk_order(&vec![]).is_empty());

    // Drive a subtree action with the walk: it sees node 1 and its child only.
    let mut ctx = TreeActionContext::new();
    let h = ctx.add_action(Some(1));
    ctx.start_action(h);
    let mut seen = Vec::new();
    for step in steps {
        match step {
            WalkStep::Enter(node) => {
                if !ctx.before_descend(node).is_empty() {
                    seen.push(step);
                }
            }
            WalkStep::Leave(node) => {
                if !ctx.after_descend(node).is_empty() {
                    seen.push(step);
                }
            }
        }
    }
    assert_eq!(seen, vec![WalkStep::Enter(1), WalkStep::Enter(2), WalkStep::Leave(2), WalkStep::Leave(1)]);
}

#[test]
fn stale_continuation_is_abandoned() {
    let mut ctx = TreeActionContext::new();
    let h = ctx.add_action(None);
    let first = ctx.start_action(h);
    let cont = fluid::event::Event::new(|| 1);
    assert_eq!(ctx.resume(first, &cont), Some(1));
    let second = ctx.start_action(h);
    assert_eq!(ctx.resume(first, &cont), None);
    assert_eq!(ctx.resume(second, &cont), Some(1));
}
