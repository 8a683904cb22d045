use tracking::sample::classify;
use tracking::snapshot::{get_focused_window, WindowNode, WindowProps};

fn leaf(focused: bool, class: &str, title: &str) -> WindowNode {
    WindowNode {
        focused,
        props: Some(WindowProps { class: class.to_string(), title: title.to_string() }),
        nodes: vec![],
    }
}

fn container(nodes: Vec<WindowNode>) -> WindowNode {
    WindowNode { focused: false, props: None, nodes }
}

fn class_of(n: Option<&WindowNode>) -> Option<String> {
    n.and_then(|n| n.props.as_ref().map(|p| p.class.clone()))
}

#[test]
fn no_focused_node_gives_no_focus() {
    let tree = container(vec![
        container(vec![leaf(false, "a", "x"), leaf(false, "b", "y")]),
        leaf(false, "c", "z"),
    ]);
    assert!(get_focused_window(&tree).is_none());
    assert!(get_focused_window(&WindowNode::empty()).is_none());
}

#[test]
fn nested_focused_leaf_is_found_whatever_the_sibling_order() {
    let deep = |first: bool| {
        let target = leaf(true, "terminal", "bash");
        let other = leaf(false, "browser", "news");
        let inner = if first { vec![target, other] } else { vec![other, target] };
        container(vec![leaf(false, "side", "s"), container(vec![container(inner)])])
    };
    assert_eq!(class_of(get_focused_window(&deep(true))), Some("terminal".to_string()));
    assert_eq!(class_of(get_focused_window(&deep(false))), Some("terminal".to_string()));
}

#[test]
fn two_focused_nodes_give_the_first_in_preorder() {
    let tree = container(vec![
        container(vec![leaf(false, "a", "x"), leaf(true, "first", "1")]),
        leaf(true, "second", "2"),
    ]);
    assert_eq!(class_of(get_focused_window(&tree)), Some("first".to_string()));
}

#[test]
fn focused_root_is_returned_itself() {
    let mut tree = container(vec![leaf(true, "child", "c")]);
    tree.focused = true;
    let f = get_focused_window(&tree).unwrap();
    assert_eq!(f.nodes.len(), 1);
    assert!(f.props.is_none());
}

#[test]
fn idle_class_is_idle() {
    let n = leaf(true, "idle", "t");
    assert!(classify(Some(&n), false, 5).idle);
}

#[test]
fn viewer_class_is_idle() {
    let n = leaf(true, "feh", "picture.png");
    let s = classify(Some(&n), false, 5);
    assert!(s.idle);
    assert_eq!(s.class, "feh");
    assert_eq!(s.title, "picture.png");
}

#[test]
fn marker_makes_any_class_idle() {
    let n = leaf(true, "some-app", "t");
    assert!(classify(Some(&n), true, 5).idle);
}

#[test]
fn no_marker_and_ordinary_class_is_active() {
    let n = leaf(true, "some-app", "t");
    let s = classify(Some(&n), false, 5);
    assert!(!s.idle);
    assert_eq!(s.class, "some-app");
}

#[test]
fn no_focus_is_classified_idle() {
    let s = classify(None, false, 42);
    assert_eq!(s.class, "idle");
    assert_eq!(s.title, "idle");
    assert!(s.idle);
    assert_eq!(s.timestamp, 42);
}

#[test]
fn focus_without_metadata_is_classified_idle() {
    let mut n = container(vec![]);
    n.focused = true;
    let s = classify(Some(&n), false, 7);
    assert_eq!(s.class, "idle");
    assert_eq!(s.title, "idle");
    assert!(s.idle);
}

#[test]
fn similar_class_names_are_not_idle() {
    let n = leaf(true, "idler", "t");
    assert!(!classify(Some(&n), false, 1).idle);
    let n = leaf(true, "Feh", "t");
    assert!(!classify(Some(&n), false, 1).idle);
}
