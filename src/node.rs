use vstd::prelude::*;
use crate::event::Event;
use crate::state::{StateStore, StateValue};
use crate::token::{fresh_token, token_text, uppercase, upper_of, uuid_text};

verus! {

broadcast use {
    vstd::std_specs::vec::group_vec_axioms,
    vstd::seq::axiom_seq_index_decreases,
    vstd::seq::axiom_seq_subrange_decreases,
};

/// The name of the attribute that carries an element's identity token.
pub const EVENT_CUSTOM_DATA_KEY: &'static str = "data-uuid";

/// What a change of an input's value produces from its payload.
#[derive(Debug, Clone, Copy)]
pub enum ChangeReaction {
    /// The payload itself.
    Verbatim,
    /// The payload in upper case.
    Uppercase,
    /// The payload, which is also written as text to the state cell of the
    /// given token.
    Bind(u128),
}

/// One UI element description: its identity token, tag, either literal
/// text or children, and its reactions.
pub struct Node {
    pub event_key: u128,
    pub tag: String,
    pub inner_html: Option<String>,
    pub on_click: Option<String>,
    pub on_change: Option<ChangeReaction>,
    pub children: Vec<Node>,
}

/// One rendered host element: tag, identity attribute, and either text or
/// child elements.
#[derive(Debug, PartialEq, Eq)]
pub struct RenderedElement {
    pub tag: String,
    pub uuid_attr: String,
    pub inner_html: Option<String>,
    pub children: Vec<RenderedElement>,
}

/// What dispatching an interaction produced.
pub struct Dispatched {
    pub message: Option<String>,
    pub needs_rerender: bool,
}

/// An optional string as an optional sequence.
pub open spec fn opt_view(o: Option<String>) -> Option<Seq<char>> {
    match o {
        Some(s) => Some(s@),
        None => None,
    }
}

/// `e` is the rendering of `n`: one element per node with the node's tag and
/// identity attribute, holding the node's text if it has some, else the
/// renderings of its children in order.
pub open spec fn renders(n: Node, e: RenderedElement) -> bool
    decreases n,
{
    &&& e.tag@ == n.tag@
    &&& e.uuid_attr@ == uuid_text(n.event_key)
    &&& opt_view(e.inner_html) == opt_view(n.inner_html)
    &&& match n.inner_html {
        Some(_) => e.children@.len() == 0,
        None => {
            &&& e.children@.len() == n.children@.len()
            &&& forall|i: int|
                0 <= i < n.children@.len() ==> renders(
                    #[trigger] n.children@[i],
                    e.children@[i],
                )
        },
    }
}

/// The first node of the forest `ns`, in depth-first pre-order, whose
/// identity reads `t`; the children of a node are searched only when the
/// node itself does not match.
pub open spec fn find_in(ns: Seq<Node>, t: Seq<char>) -> Option<Node>
    decreases ns,
{
    if ns.len() == 0 {
        None
    } else if uuid_text(ns[0].event_key) == t {
        Some(ns[0])
    } else {
        match find_in(ns[0].children@, t) {
            Some(n) => Some(n),
            None => find_in(ns.drop_first(), t),
        }
    }
}

/// The first node of the tree `n` whose identity reads `t`.
pub open spec fn find(n: Node, t: Seq<char>) -> Option<Node> {
    find_in(seq![n], t)
}

/// The message that a change reaction makes of a payload.
pub open spec fn change_message(r: ChangeReaction, payload: Seq<char>) -> Seq<char> {
    match r {
        ChangeReaction::Verbatim => payload,
        ChangeReaction::Uppercase => upper_of(payload),
        ChangeReaction::Bind(_) => payload,
    }
}

/// The message and the re-render flag that interaction `e` yields on the
/// node `hit` that it was routed to.
pub open spec fn dispatch_spec(hit: Option<Node>, e: Event) -> (Option<Seq<char>>, bool) {
    match hit {
        None => (None, false),
        Some(n) => match e {
            Event::Click => match n.on_click {
                Some(m) => (Some(m@), true),
                None => (None, false),
            },
            Event::Change(Some(p)) => match n.on_change {
                Some(r) => (Some(change_message(r, p@)), false),
                None => (None, false),
            },
            _ => (None, false),
        },
    }
}

/// The state store after interaction `e` reached `hit`: a bound node's cell
/// takes the change payload as text.
pub open spec fn store_after(m: Map<u128, StateValue>, hit: Option<Node>, e: Event) -> Map<
    u128,
    StateValue,
> {
    match (hit, e) {
        (Some(n), Event::Change(Some(p))) => match n.on_change {
            Some(ChangeReaction::Bind(id)) => m.insert(id, StateValue::Text(p)),
            _ => m,
        },
        _ => m,
    }
}

impl Node {
    /// A node of tag `tag` with a fresh identity, no text, no children and
    /// no reactions.
    pub fn new(tag: &str) -> (r: Node)
        ensures
            r.tag@ == tag@,
            r.inner_html.is_none(),
            r.on_click.is_none(),
            r.on_change.is_none(),
            r.children@.len() == 0,
    {
        Node {
            event_key: fresh_token(),
            tag: tag.to_owned(),
            inner_html: None,
            on_click: None,
            on_change: None,
            children: Vec::new(),
        }
    }

    /// Sets the literal text, which takes the place of the children.
    pub fn text(self, text: &str) -> (r: Node)
        ensures
            r == (Node { inner_html: r.inner_html, ..self }),
            opt_view(r.inner_html) == Some(text@),
    {
        let mut n = self;
        n.inner_html = Some(text.to_owned());
        n
    }

    /// Appends a child after the existing ones.
    pub fn child(self, child: Node) -> (r: Node)
        ensures
            r == (Node { children: r.children, ..self }),
            r.children@ == self.children@.push(child),
    {
        let mut n = self;
        n.children.push(child);
        n
    }

    /// Sets the click reaction: a click yields `message_id`.
    pub fn on_click(self, message_id: &str) -> (r: Node)
        ensures
            r == (Node { on_click: r.on_click, ..self }),
            opt_view(r.on_click) == Some(message_id@),
    {
        let mut n = self;
        n.on_click = Some(message_id.to_owned());
        n
    }

    /// Sets the change reaction.
    pub fn on_change(self, reaction: ChangeReaction) -> (r: Node)
        ensures
            r == (Node { on_change: Some(reaction), ..self }),
    {
        let mut n = self;
        n.on_change = Some(reaction);
        n
    }

    /// Binds the node's changes to the state cell of `state`.
    pub fn bind(self, state: u128) -> (r: Node)
        ensures
            r == (Node { on_change: Some(ChangeReaction::Bind(state)), ..self }),
    {
        self.on_change(ChangeReaction::Bind(state))
    }

    /// Finishes the node as the root of a tree.
    pub fn into_ref(self) -> (r: Node)
        ensures
            r == self,
    {
        self
    }

    /// The string form of this node's identity token.
    pub fn key_text(&self) -> (r: String)
        ensures
            r@ == uuid_text(self.event_key),
    {
        token_text(self.event_key)
    }
}

/// Renders the tree `node` to host elements.
pub fn render_node(node: &Node) -> (r: RenderedElement)
    ensures
        renders(*node, r),
    decreases node,
{
    let tag = node.tag.clone();
    let uuid_attr = token_text(node.event_key);
    let r = match &node.inner_html {
        Some(html) => RenderedElement {
            tag,
            uuid_attr,
            inner_html: Some(html.clone()),
            children: Vec::new(),
        },
        None => {
            let mut children: Vec<RenderedElement> = Vec::new();
            let mut i: usize = 0;
            while i < node.children.len()
                invariant
                    i <= node.children.len(),
                    children@.len() == i,
                    forall|j: int|
                        0 <= j < i ==> #[trigger] renders(node.children@[j], children@[j]),
                decreases node.children.len() - i,
            {
                let c = render_node(&node.children[i]);
                children.push(c);
                i = i + 1;
            }
            let e = RenderedElement { tag, uuid_attr, inner_html: None, children };
            assert(forall|j: int|
                0 <= j < node.children@.len() ==> renders(
                    #[trigger] node.children@[j],
                    e.children@[j],
                ));
            e
        },
    };
    r
}

/// The first node of the tree `node`, in depth-first pre-order, whose
/// identity reads `target`.
pub fn find_node<'a>(node: &'a Node, target: &String) -> (r: Option<&'a Node>)
    ensures
        r.is_none() ==> find(*node, target@) == None::<Node>,
        r.is_some() ==> find(*node, target@) == Some(*r.unwrap()),
    decreases node,
{
    let ghost t = target@;
    let ghost top = seq![*node];
    proof {
        assert(top[0] == *node);
        assert(top.drop_first() =~= Seq::<Node>::empty());
    }
    let key = token_text(node.event_key);
    if key == *target {
        return Some(node);
    }
    let ghost cs = node.children@;
    let n = node.children.len();
    proof {
        assert(find_in(Seq::<Node>::empty(), t) == None::<Node>);
        assert(find(*node, t) == find_in(cs, t));
        assert(cs.subrange(0, n as int) =~= cs);
    }
    let mut i: usize = 0;
    while i < n
        invariant
            t == target@,
            find(*node, t) == find_in(cs, t),
            n == cs.len(),
            cs == node.children@,
            i <= n,
            find_in(cs, t) == find_in(cs.subrange(i as int, n as int), t),
        decreases n - i,
    {
        let ghost rest = cs.subrange(i as int, n as int);
        proof {
            assert(rest[0] == cs[i as int]);
            assert(rest.drop_first() =~= cs.subrange(i as int + 1, n as int));
            lemma_find_in_step(rest, t);
        }
        match find_node(&node.children[i], target) {
            Some(found) => {
                return Some(found);
            },
            None => {},
        }
        i = i + 1;
    }
    proof {
        assert(cs.subrange(n as int, n as int) =~= Seq::<Node>::empty());
    }
    None
}

/// Routes `event`, raised on the element whose identity reads `uuid_str`, to
/// the node of the tree `node` that it came from, and applies its reaction.
pub fn dispatch_event(node: &Node, uuid_str: &str, event: &Event, store: &mut StateStore) -> (r:
    Dispatched)
    ensures
        (opt_view(r.message), r.needs_rerender) == dispatch_spec(find(*node, uuid_str@), *event),
        final(store)@ == store_after(old(store)@, find(*node, uuid_str@), *event),
{
    let target = uuid_str.to_owned();
    let none = Dispatched { message: None, needs_rerender: false };
    let hit = match find_node(node, &target) {
        Some(h) => h,
        None => {
            return none;
        },
    };
    match event {
        Event::Click => match &hit.on_click {
            Some(m) => Dispatched { message: Some(m.clone()), needs_rerender: true },
            None => none,
        },
        Event::Change(Some(p)) => match hit.on_change {
            Some(ChangeReaction::Verbatim) => Dispatched {
                message: Some(p.clone()),
                needs_rerender: false,
            },
            Some(ChangeReaction::Uppercase) => Dispatched {
                message: Some(uppercase(p.as_str())),
                needs_rerender: false,
            },
            Some(ChangeReaction::Bind(id)) => {
                store.set_state(id, StateValue::Text(p.clone()));
                Dispatched { message: Some(p.clone()), needs_rerender: false }
            },
            None => none,
        },
        _ => none,
    }
}

/// Searching a forest searches its first tree, then the rest.
proof fn lemma_find_in_step(ns: Seq<Node>, t: Seq<char>)
    requires
        ns.len() > 0,
    ensures
        find_in(ns, t) == match find(ns[0], t) {
            Some(x) => Some(x),
            None => find_in(ns.drop_first(), t),
        },
{
    let one = seq![ns[0]];
    assert(one[0] == ns[0]);
    assert(one.drop_first() =~= Seq::<Node>::empty());
    assert(find_in(Seq::<Node>::empty(), t) == None::<Node>);
    assert(find_in(one.drop_first(), t) == None::<Node>);
}

} // verus!
