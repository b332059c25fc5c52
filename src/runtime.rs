use vstd::prelude::*;
use crate::context::{Context, sweep_spec};
use crate::event::Event;
use crate::node::{
    Dispatched, Node, RenderedElement, dispatch_event, dispatch_spec, find, opt_view, render_node,
    renders, store_after,
};

verus! {

/// Where the cycle stands between two calls. Dispatching happens inside
/// `handle_event` and committing inside `commit`, so neither is ever
/// observed between calls.
#[derive(Debug, PartialEq, Eq, Structural)]
pub enum Phase {
    /// Waiting for the next interaction.
    Idle,
    /// An interaction asked for a new tree; the view function is to build it
    /// and `commit` to take it.
    Rebuilding,
}

/// The cycle controller of one mounted instance: the committed tree, the
/// identity registry with its state store, and the phase of the cycle.
pub struct Runtime {
    pub root_node: Node,
    pub ctx: Context,
    pub phase: Phase,
}

/// Whether interaction `e`, on the element whose identity reads `target`,
/// makes `tree` be rebuilt, and the message it yields.
pub open spec fn step_spec(tree: Node, e: Event, target: Option<Seq<char>>) -> (
    Option<Seq<char>>,
    bool,
) {
    match e {
        Event::RustRender => (None, true),
        _ => match target {
            Some(t) => dispatch_spec(find(tree, t), e),
            None => (None, false),
        },
    }
}

/// The state cells after interaction `e` on the element whose identity
/// reads `target`.
pub open spec fn step_store(
    m: Map<u128, crate::state::StateValue>,
    tree: Node,
    e: Event,
    target: Option<Seq<char>>,
) -> Map<u128, crate::state::StateValue> {
    match e {
        Event::RustRender => m,
        _ => match target {
            Some(t) => store_after(m, find(tree, t), e),
            None => m,
        },
    }
}

/// An optional string slice as an optional sequence.
pub open spec fn opt_str_view(o: Option<&str>) -> Option<Seq<char>> {
    match o {
        Some(s) => Some(s@),
        None => None,
    }
}

/// A cycle rebuilds exactly on the render request and on a click that
/// reaches a node with a click reaction; an interaction whose target no node
/// of the tree carries yields nothing.
pub proof fn lemma_rebuild_iff(tree: Node, e: Event, target: Option<Seq<char>>)
    ensures
        step_spec(tree, e, target).1 <==> (e is RustRender || (e is Click && target.is_some()
            && find(tree, target.unwrap()).is_some() && find(
            tree,
            target.unwrap(),
        ).unwrap().on_click.is_some())),
        e !is RustRender && target.is_some() && find(tree, target.unwrap()).is_none() ==> step_spec(
            tree,
            e,
            target,
        ) == (None::<Seq<char>>, false),
{
}

impl Runtime {
    /// A runtime that has committed nothing yet: its tree is an empty `div`.
    pub fn new() -> (r: Runtime)
        ensures
            r.phase == Phase::Idle,
            r.ctx.wf(),
            r.ctx.registry() == Seq::<(Seq<char>, u128)>::empty(),
            r.ctx.touched() == Seq::<Seq<char>>::empty(),
            r.ctx.state@ == Map::<u128, crate::state::StateValue>::empty(),
            r.root_node.inner_html.is_none(),
            r.root_node.children@.len() == 0,
    {
        Runtime { root_node: Node::new("div").into_ref(), ctx: Context::new(), phase: Phase::Idle }
    }

    /// Takes one interaction, raised on the element whose identity reads
    /// `target`. The render request always asks for a rebuild; any other
    /// interaction is routed through the committed tree. When a rebuild is
    /// asked for the phase becomes `Rebuilding`.
    pub fn handle_event(&mut self, event: &Event, target: Option<&str>) -> (r: Dispatched)
        requires
            old(self).phase == Phase::Idle,
        ensures
            (opt_view(r.message), r.needs_rerender) == step_spec(
                old(self).root_node,
                *event,
                opt_str_view(target),
            ),
            final(self).ctx.state@ == step_store(
                old(self).ctx.state@,
                old(self).root_node,
                *event,
                opt_str_view(target),
            ),
            final(self).phase == (if r.needs_rerender {
                Phase::Rebuilding
            } else {
                Phase::Idle
            }),
            final(self).root_node == old(self).root_node,
            final(self).ctx.registry() == old(self).ctx.registry(),
            final(self).ctx.touched() == old(self).ctx.touched(),
    {
        let r = match event {
            Event::RustRender => Dispatched { message: None, needs_rerender: true },
            _ => match target {
                Some(t) => dispatch_event(&self.root_node, t, event, &mut self.ctx.state),
                None => Dispatched { message: None, needs_rerender: false },
            },
        };
        if r.needs_rerender {
            self.phase = Phase::Rebuilding;
        }
        r
    }

    /// Ends a cycle that asked for a rebuild: `tree` becomes the committed
    /// tree, is rendered in full, and the registry is swept.
    pub fn commit(&mut self, tree: Node) -> (r: RenderedElement)
        requires
            old(self).phase == Phase::Rebuilding,
        ensures
            final(self).root_node == tree,
            renders(tree, r),
            final(self).ctx.registry() == sweep_spec(
                old(self).ctx.registry(),
                old(self).ctx.touched(),
            ),
            final(self).ctx.touched() == Seq::<Seq<char>>::empty(),
            final(self).ctx.state@ == old(self).ctx.state@,
            old(self).ctx.wf() ==> final(self).ctx.wf(),
            final(self).phase == Phase::Idle,
    {
        self.root_node = tree;
        let content = render_node(&self.root_node);
        self.ctx.remove_unused_keys();
        self.phase = Phase::Idle;
        content
    }
}

} // verus!
