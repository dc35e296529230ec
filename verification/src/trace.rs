//! A pass that keeps a record of the hooks it is called on. It shows in what
//! order an engine runs its passes, and serves as a model for passes that
//! gather something as they go.

use crate::error::NodeKind;
use crate::pass::{CoreTransformPass, HookNode, Phase, Target};
use crate::text::push_char;
use vstd::prelude::*;

verus! {

/// One call of a hook: when, and on what kind of node.
#[derive(Clone, Copy, Debug, PartialEq, Eq, Structural)]
pub struct HookEvent {
    pub phase: Phase,
    pub kind: NodeKind,
}

/// Records every hook call in `log`, and writes its mark at the end of every
/// text and comment at every hook, so that the node itself tells in what
/// order the passes came by.
#[derive(Debug, PartialEq, Eq)]
pub struct TracePass {
    pub mark: char,
    pub log: Vec<HookEvent>,
}

pub struct TraceView {
    pub mark: char,
    pub log: Seq<HookEvent>,
}

impl View for TracePass {
    type V = TraceView;

    open spec fn view(&self) -> TraceView {
        TraceView { mark: self.mark, log: self.log@ }
    }
}

impl TracePass {
    pub fn new(mark: char) -> (p: TracePass)
        ensures
            p@ == (TraceView { mark, log: Seq::empty() }),
    {
        TracePass { mark, log: Vec::new() }
    }

    fn record(&mut self, phase: Phase, kind: NodeKind)
        ensures
            final(self)@ == (TraceView { mark: old(self).mark, log: old(self).log@.push(HookEvent { phase, kind }) }),
    {
        self.log.push(HookEvent { phase, kind });
    }
}

impl CoreTransformPass for TracePass {
    open spec fn on_hook(state: TraceView, phase: Phase, node: Target) -> (TraceView, Target) {
        (
            TraceView { mark: state.mark, log: state.log.push(HookEvent { phase, kind: node.kind() }) },
            match node {
                Target::Text(t) => Target::Text(t.push(state.mark)),
                Target::Comment(c) => Target::Comment(c.push(state.mark)),
                _ => node,
            },
        )
    }

    fn hook(&mut self, phase: Phase, node: HookNode<'_>) {
        match node {
            HookNode::Root(_) => self.record(phase, NodeKind::Root),
            HookNode::Text(t) => {
                self.record(phase, NodeKind::Text);
                push_char(&mut t.content, self.mark);
            },
            HookNode::If(_) => self.record(phase, NodeKind::If),
            HookNode::For(_) => self.record(phase, NodeKind::For),
            HookNode::VNode(_) => self.record(phase, NodeKind::VNode),
            HookNode::SlotOutlet(_) => self.record(phase, NodeKind::SlotOutlet),
            HookNode::VSlot(_) => self.record(phase, NodeKind::VSlot),
            HookNode::SlotFn(_) => self.record(phase, NodeKind::SlotFn),
            HookNode::JsExpr(_) => self.record(phase, NodeKind::JsExpr),
            HookNode::Comment(c) => {
                self.record(phase, NodeKind::Comment);
                push_char(&mut c.content, self.mark);
            },
        }
    }
}

} // verus!
