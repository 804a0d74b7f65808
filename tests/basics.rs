use fluid::backend::Color;
use fluid::event::Event;
use fluid::node::{HitPassthrough, NodeData, NodeVariant};
use fluid::theme::Theme;
use fluid::style::{Side, SideArray};
use fluid::tag_list::{TagID, TagList};
use fluid::theme::{Rule, Selector};

#[test]
fn hit_passthrough_masks() {
    let opaque = HitPassthrough::opaque();
    let pass = HitPassthrough::passthrough();
    let children = HitPassthrough::passthrough_children();
    let branch = HitPassthrough::passthrough_branch();
    assert_eq!(HitPassthrough::default(), opaque);
    assert!(!pass.in_self());
    assert!(pass.in_children());
    assert!(opaque.in_self());
    assert!(opaque.in_children());
    assert!(!branch.in_self());
    assert!(!branch.in_children());
    assert!(children.in_self());
    assert!(!children.in_children());
    assert_eq!(opaque.filter(pass), pass);
    assert_eq!(pass.filter(children), branch);
    assert_eq!(children.filter(opaque).bits(), 2);
}

#[test]
fn side_array_indexing() {
    let mut a = SideArray([1, 2, 3, 4]);
    assert_eq!(*a.side(Side::Left), 1);
    assert_eq!(*a.side(Side::Right), 2);
    assert_eq!(*a.side(Side::Top), 3);
    assert_eq!(*a.side(Side::Bottom), 4);
    *a.side_mut(Side::Top) = 30;
    assert_eq!(a.0, [1, 2, 30, 4]);
}

#[test]
fn color_channels() {
    let c = Color::new(1, 2, 3, 4);
    assert_eq!((c.r, c.g, c.b, c.a), (1, 2, 3, 4));
}

#[test]
fn event_dispatch_returns_handler_result() {
    let base = 40;
    let e = Event::new(move || base + 2);
    assert_eq!(e.dispatch(), 42);
    assert_eq!(e.dispatch(), 42);
}

#[test]
fn node_types_tell_variants_apart() {
    assert_eq!(NodeVariant::Label.node_type(), NodeVariant::Label.node_type());
    assert_ne!(NodeVariant::Label.node_type(), NodeVariant::Button.node_type());
}

#[test]
fn tag_id_is_never_zero() {
    assert!(TagID::new(0).is_none());
    assert_eq!(TagID::new(-3).unwrap().get(), -3);
}

#[test]
fn node_data_flags() {
    let mut n = NodeData::new();
    assert!(n.is_resize_pending);
    n.is_resize_pending = false;
    assert!(!n.is_hidden());
    n.set_hidden(false);
    assert!(!n.is_resize_pending);
    n.set_hidden(true);
    assert!(n.is_resize_pending);
    assert!(n.is_hidden());
    n.is_resize_pending = false;
    n.inherit_theme(Theme::new());
    assert!(n.is_resize_pending);
    n.set_theme(Theme::new());
    assert!(n.is_theme_explicit);
    n.is_resize_pending = false;
    n.inherit_theme(Theme::new());
    assert!(!n.is_resize_pending);
    n.reset_theme();
    assert!(!n.is_theme_explicit);
    assert_eq!(n.theme().rules.len(), 0);
    HitPassthrough::passthrough_branch().apply(&mut n);
    assert_eq!(n.hit_passthrough, HitPassthrough::passthrough_branch());
    n.is_hidden = false;
    n.to_remove = true;
    assert!(n.is_hidden());
}

#[test]
fn new_node_keeps_its_kind() {
    let n = fluid::node::Node::new(NodeVariant::Button);
    assert_eq!(n.variant, NodeVariant::Button);
    assert!(n.data.is_resize_pending);
}

#[test]
fn tag_list_holds_each_tag_once() {
    let mut tags = TagList::new();
    let a = TagID::new(5).unwrap();
    let b = TagID::new(6).unwrap();
    assert!(tags.insert(a));
    assert!(!tags.insert(a));
    assert!(tags.insert(b));
    assert_eq!(tags.len(), 2);
    assert!(tags.contains(a));
    assert!(!tags.contains(TagID::new(7).unwrap()));
}

#[test]
fn theme_finds_rules_by_node_type() {
    let rule = |v: NodeVariant| Rule { selector: Selector { node_type: v.node_type(), tags: TagList::new(), reject_all: false } };
    let mut theme = Theme::new();
    theme.rules.push(rule(NodeVariant::Button));
    theme.rules.push(rule(NodeVariant::Label));
    theme.rules.push(rule(NodeVariant::Button));
    assert_eq!(theme.rules_for(NodeVariant::Button.node_type()), vec![0, 2]);
    assert_eq!(theme.rules_for(NodeVariant::Frame.node_type()), Vec::<usize>::new());
}
