use koke::event::Event;
use koke::node::{dispatch_event, find_node, render_node, ChangeReaction, Node, RenderedElement};
use koke::state::{StateStore, StateValue};

fn is_uuid_text(s: &str) -> bool {
    s.len() == 36
        && s.chars().enumerate().all(|(i, c)| {
            if i == 8 || i == 13 || i == 18 || i == 23 {
                c == '-'
            } else {
                c.is_ascii_hexdigit() && !c.is_ascii_uppercase()
            }
        })
}

#[test]
fn render_node_tree_to_element() {
    let node_ref = Node::new("div")
        .child(
            Node::new("ul")
                .child(Node::new("li").text("item1").into_ref())
                .child(Node::new("li").text("item2").into_ref())
                .into_ref(),
        )
        .into_ref();

    let rendered = render_node(&node_ref);
    assert_eq!(rendered.tag, "div");
    assert_eq!(rendered.children.len(), 1);
    let ul = &rendered.children[0];
    assert_eq!(ul.tag, "ul");
    assert_eq!(ul.children.len(), 2);
    assert_eq!(ul.children[0].tag, "li");
    assert_eq!(ul.children[0].inner_html.as_deref(), Some("item1"));
    assert_eq!(ul.children[1].inner_html.as_deref(), Some("item2"));
    assert!(is_uuid_text(&rendered.uuid_attr));
    assert!(is_uuid_text(&ul.uuid_attr));
}

#[test]
fn render_shape_of_list() {
    let tree = Node::new("div")
        .child(Node::new("li").text("item1"))
        .child(Node::new("li").text("item2"))
        .into_ref();
    let out = render_node(&tree);
    assert_eq!(out.tag, "div");
    assert_eq!(out.uuid_attr, tree.key_text());
    assert!(out.inner_html.is_none());
    assert_eq!(out.children.len(), 2);
    let first: &RenderedElement = &out.children[0];
    let second: &RenderedElement = &out.children[1];
    assert_eq!(first.tag, "li");
    assert_eq!(second.tag, "li");
    assert_eq!(first.inner_html.as_deref(), Some("item1"));
    assert_eq!(second.inner_html.as_deref(), Some("item2"));
    assert_ne!(first.uuid_attr, second.uuid_attr);
    assert_ne!(first.uuid_attr, out.uuid_attr);
    assert_eq!(first.uuid_attr, tree.children[0].key_text());
    assert_eq!(second.uuid_attr, tree.children[1].key_text());
}

#[test]
fn text_takes_the_place_of_children() {
    let tree = Node::new("p").child(Node::new("span")).text("hello");
    let out = render_node(&tree);
    assert_eq!(out.inner_html.as_deref(), Some("hello"));
    assert!(out.children.is_empty());
}

#[test]
fn key_text_is_hyphenated_lower_hex() {
    let n = Node::new("div");
    let t = n.key_text();
    assert!(is_uuid_text(&t));
    assert_eq!(t, uuid_of(n.event_key));
    assert_ne!(t, format!("{}", n.event_key));
}

fn uuid_of(v: u128) -> String {
    let h = format!("{:032x}", v);
    format!("{}-{}-{}-{}-{}", &h[0..8], &h[8..12], &h[12..16], &h[16..20], &h[20..32])
}

#[test]
fn dispatch_event_to_node() {
    let node_ref = Node::new("div")
        .child(Node::new("button").on_click("button_click").into_ref())
        .child(Node::new("button").into_ref())
        .into_ref();
    let mut store = StateStore::new();

    let button_uuid1 = node_ref.children[0].key_text();
    let button_uuid2 = node_ref.children[1].key_text();

    let dispatched = dispatch_event(&node_ref, &button_uuid1, &Event::Click, &mut store);
    assert_eq!(dispatched.message, Some("button_click".to_string()));
    assert!(dispatched.needs_rerender);

    let dispatched = dispatch_event(&node_ref, &button_uuid2, &Event::Click, &mut store);
    assert!(dispatched.message.is_none());
    assert!(!dispatched.needs_rerender);

    let fake_uuid = Node::new("x").key_text();
    let dispatched = dispatch_event(&node_ref, &fake_uuid, &Event::Click, &mut store);
    assert!(dispatched.message.is_none());
    assert!(!dispatched.needs_rerender);
}

#[test]
fn dispatch_correctness_two_buttons() {
    let tree = Node::new("div")
        .child(Node::new("button"))
        .child(Node::new("button").on_click("clicked"))
        .into_ref();
    let mut store = StateStore::new();
    let b1 = tree.children[0].key_text();
    let b2 = tree.children[1].key_text();

    let r1 = dispatch_event(&tree, &b1, &Event::Click, &mut store);
    assert!(r1.message.is_none());
    assert!(!r1.needs_rerender);

    let r2 = dispatch_event(&tree, &b2, &Event::Click, &mut store);
    assert_eq!(r2.message.as_deref(), Some("clicked"));
    assert!(r2.needs_rerender);

    // the click reaction is not consumed by firing
    let r3 = dispatch_event(&tree, &b2, &Event::Click, &mut store);
    assert_eq!(r3.message.as_deref(), Some("clicked"));

    let unused = "00000000-0000-4000-8000-000000000000";
    let r4 = dispatch_event(&tree, unused, &Event::Click, &mut store);
    assert!(r4.message.is_none());
    assert!(!r4.needs_rerender);
}

#[test]
fn change_binding_uppercases() {
    let input = Node::new("input").on_change(ChangeReaction::Uppercase).into_ref();
    let mut store = StateStore::new();
    let id = input.key_text();
    let r = dispatch_event(&input, &id, &Event::Change(Some("abc".to_string())), &mut store);
    assert_eq!(r.message.as_deref(), Some("ABC"));
    assert!(!r.needs_rerender);
}

#[test]
fn change_verbatim_and_absent_payload() {
    let input = Node::new("input").on_change(ChangeReaction::Verbatim);
    let mut store = StateStore::new();
    let id = input.key_text();
    let r = dispatch_event(&input, &id, &Event::Change(Some("aBc".to_string())), &mut store);
    assert_eq!(r.message.as_deref(), Some("aBc"));
    assert!(!r.needs_rerender);
    let r = dispatch_event(&input, &id, &Event::Change(None), &mut store);
    assert!(r.message.is_none());
    assert!(!r.needs_rerender);
}

#[test]
fn dispatch_change_event_updates_bound_value() {
    let mut store = StateStore::new();
    let cell: u128 = 99;
    store.use_state(cell, StateValue::Text(String::new()));
    let node_ref = Node::new("input").bind(cell).into_ref();

    let input_uuid = node_ref.key_text();
    let new_value = "New input value".to_string();
    let dispatched =
        dispatch_event(&node_ref, &input_uuid, &Event::Change(Some(new_value.clone())), &mut store);
    assert!(!dispatched.needs_rerender, "Change event should not trigger re-rendering");
    match store.get_state(cell) {
        Some(StateValue::Text(s)) => assert_eq!(s, new_value),
        other => panic!("Bound value should be updated, got {:?}", other),
    }
}

#[test]
fn keydown_and_render_request_yield_nothing() {
    let tree = Node::new("button").on_click("go");
    let mut store = StateStore::new();
    let id = tree.key_text();
    let r = dispatch_event(&tree, &id, &Event::KeyDown, &mut store);
    assert!(r.message.is_none() && !r.needs_rerender);
    let r = dispatch_event(&tree, &id, &Event::RustRender, &mut store);
    assert!(r.message.is_none() && !r.needs_rerender);
}

#[test]
fn search_is_pre_order_and_stops_at_match() {
    let tree = Node::new("div")
        .child(Node::new("section").child(Node::new("em").on_click("deep")))
        .child(Node::new("b").on_click("second"));
    let deep = tree.children[0].children[0].key_text();
    let found = find_node(&tree, &deep).expect("node should be found");
    assert_eq!(found.tag, "em");
    let second = tree.children[1].key_text();
    assert_eq!(find_node(&tree, &second).unwrap().tag, "b");
    assert_eq!(find_node(&tree, &tree.key_text()).unwrap().tag, "div");
    assert!(find_node(&tree, &"not an identity".to_string()).is_none());
}

#[test]
fn key_text_of_known_token() {
    let n = Node {
        event_key: 0x0123_4567_89ab_cdef_0011_2233_4455_6677,
        tag: "div".to_string(),
        inner_html: None,
        on_click: None,
        on_change: None,
        children: Vec::new(),
    };
    assert_eq!(n.key_text(), "01234567-89ab-cdef-0011-223344556677");
    let out = render_node(&n);
    assert_eq!(out.uuid_attr, "01234567-89ab-cdef-0011-223344556677");
}
