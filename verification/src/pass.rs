use crate::error::NodeKind;
use crate::ir::{
    CommentIR, ForNodeIR, ForNodeView, IRRoot, IRRootView, IfNodeIR, IfNodeView, JsExpr, JsExprView,
    RenderSlotIR, RenderSlotView, Slot, SlotView, TextIR, VNodeIR, VNodeView, VSlotIR, VSlotView,
};
use vstd::prelude::*;

verus! {

/// The two moments at which a pass sees a node.
#[derive(Clone, Copy, Debug, PartialEq, Eq, Structural)]
pub enum Phase {
    /// Before anything below the node is visited.
    Enter,
    /// After everything below the node has been visited.
    Exit,
}

/// What a hook is handed: the value of the node it is called on.
pub enum Target {
    Root(IRRootView),
    Text(Seq<char>),
    If(IfNodeView),
    For(ForNodeView),
    VNode(VNodeView),
    SlotOutlet(RenderSlotView),
    VSlot(VSlotView),
    SlotFn(SlotView),
    JsExpr(JsExprView),
    Comment(Seq<char>),
}

impl Target {
    pub open spec fn kind(self) -> NodeKind {
        match self {
            Target::Root(_) => NodeKind::Root,
            Target::Text(_) => NodeKind::Text,
            Target::If(_) => NodeKind::If,
            Target::For(_) => NodeKind::For,
            Target::VNode(_) => NodeKind::VNode,
            Target::SlotOutlet(_) => NodeKind::SlotOutlet,
            Target::VSlot(_) => NodeKind::VSlot,
            Target::SlotFn(_) => NodeKind::SlotFn,
            Target::JsExpr(_) => NodeKind::JsExpr,
            Target::Comment(_) => NodeKind::Comment,
        }
    }

    pub open spec fn height(self) -> nat {
        match self {
            Target::Root(r) => r.height(),
            Target::Text(_) => 0,
            Target::If(i) => i.height(),
            Target::For(f) => f.height(),
            Target::VNode(v) => v.height(),
            Target::SlotOutlet(r) => r.height(),
            Target::VSlot(s) => s.height(),
            Target::SlotFn(s) => s.height(),
            Target::JsExpr(e) => e.height(),
            Target::Comment(_) => 0,
        }
    }
}

/// The node that a hook is called on, for the pass to change where it stands.
pub enum HookNode<'a> {
    Root(&'a mut IRRoot),
    Text(&'a mut TextIR),
    If(&'a mut IfNodeIR),
    For(&'a mut ForNodeIR),
    VNode(&'a mut VNodeIR),
    SlotOutlet(&'a mut RenderSlotIR),
    VSlot(&'a mut VSlotIR),
    SlotFn(&'a mut Slot),
    JsExpr(&'a mut JsExpr),
    Comment(&'a mut CommentIR),
}

/// What a hook owes: the pass and the node come out as `expected`, which is
/// what `on_hook` says of them, and an enter hook leaves the node no deeper
/// than it found it.
pub open spec fn hook_result<S>(phase: Phase, node: Target, out: (S, Target), expected: (S, Target)) -> bool {
    &&& out == expected
    &&& phase == Phase::Enter ==> out.1.height() <= node.height()
}

/// What every hook owes, said of a pass.
pub open spec fn hooked<P: CoreTransformPass>(
    before: P::V,
    phase: Phase,
    node: Target,
    after: P::V,
    out: Target,
) -> bool {
    hook_result(phase, node, (after, out), P::on_hook(before, phase, node))
}

/// One transformation pass. A pass has a hook pair for each kind of node and
/// one for expressions; the engine calls the enter hook on the way down and
/// the exit hook on the way up. A hook may change the pass and the node it is
/// handed, and nothing else.
///
/// A pass gives `hook`: what it does for each phase and node, which is
/// nothing for those it has no interest in. The hooks by name call `hook` and
/// need not be written.
///
/// What the hooks do is a function of the pass's own state and the node:
/// `on_hook` is that function, and every hook answers to it. A pass states in
/// `on_hook` what its `hook` does.
///
/// An enter hook leaves the node no deeper than it found it. The walk
/// descends into what the enter hooks hand back, so a pass that deepened the
/// node there could keep the walk from ever ending. Exit hooks are free to
/// replace the node by anything. Whether a pass keeps what is below a node in
/// place is its own affair: the engine walks what it finds.
pub trait CoreTransformPass: View + Sized {
    /// The state of the pass and the value of the node after the hook for
    /// `phase` has run on `node` in state `state`.
    spec fn on_hook(state: Self::V, phase: Phase, node: Target) -> (Self::V, Target);

    /// What the pass does at the hook for `phase` on `node`.
    fn hook(&mut self, phase: Phase, node: HookNode<'_>)
        ensures
            match node {
                HookNode::Root(n) => hook_result(
                    phase,
                    Target::Root(n@),
                    (final(self)@, Target::Root(final(n)@)),
                    Self::on_hook(old(self)@, phase, Target::Root(n@)),
                ),
                HookNode::Text(n) => hook_result(
                    phase,
                    Target::Text(n@),
                    (final(self)@, Target::Text(final(n)@)),
                    Self::on_hook(old(self)@, phase, Target::Text(n@)),
                ),
                HookNode::If(n) => hook_result(
                    phase,
                    Target::If(n@),
                    (final(self)@, Target::If(final(n)@)),
                    Self::on_hook(old(self)@, phase, Target::If(n@)),
                ),
                HookNode::For(n) => hook_result(
                    phase,
                    Target::For(n@),
                    (final(self)@, Target::For(final(n)@)),
                    Self::on_hook(old(self)@, phase, Target::For(n@)),
                ),
                HookNode::VNode(n) => hook_result(
                    phase,
                    Target::VNode(n@),
                    (final(self)@, Target::VNode(final(n)@)),
                    Self::on_hook(old(self)@, phase, Target::VNode(n@)),
                ),
                HookNode::SlotOutlet(n) => hook_result(
                    phase,
                    Target::SlotOutlet(n@),
                    (final(self)@, Target::SlotOutlet(final(n)@)),
                    Self::on_hook(old(self)@, phase, Target::SlotOutlet(n@)),
                ),
                HookNode::VSlot(n) => hook_result(
                    phase,
                    Target::VSlot(n@),
                    (final(self)@, Target::VSlot(final(n)@)),
                    Self::on_hook(old(self)@, phase, Target::VSlot(n@)),
                ),
                HookNode::SlotFn(n) => hook_result(
                    phase,
                    Target::SlotFn(n@),
                    (final(self)@, Target::SlotFn(final(n)@)),
                    Self::on_hook(old(self)@, phase, Target::SlotFn(n@)),
                ),
                HookNode::JsExpr(n) => hook_result(
                    phase,
                    Target::JsExpr(n@),
                    (final(self)@, Target::JsExpr(final(n)@)),
                    Self::on_hook(old(self)@, phase, Target::JsExpr(n@)),
                ),
                HookNode::Comment(n) => hook_result(
                    phase,
                    Target::Comment(n@),
                    (final(self)@, Target::Comment(final(n)@)),
                    Self::on_hook(old(self)@, phase, Target::Comment(n@)),
                ),
            },
    ;

    fn enter_root(&mut self, r: &mut IRRoot)
        ensures
            hook_result(
                Phase::Enter,
                Target::Root(old(r)@),
                (final(self)@, Target::Root(final(r)@)),
                Self::on_hook(old(self)@, Phase::Enter, Target::Root(old(r)@)),
            ),
    {
        self.hook(Phase::Enter, HookNode::Root(r))
    }

    fn exit_root(&mut self, r: &mut IRRoot)
        ensures
            hook_result(
                Phase::Exit,
                Target::Root(old(r)@),
                (final(self)@, Target::Root(final(r)@)),
                Self::on_hook(old(self)@, Phase::Exit, Target::Root(old(r)@)),
            ),
    {
        self.hook(Phase::Exit, HookNode::Root(r))
    }

    fn enter_text(&mut self, t: &mut TextIR)
        ensures
            hook_result(
                Phase::Enter,
                Target::Text(old(t)@),
                (final(self)@, Target::Text(final(t)@)),
                Self::on_hook(old(self)@, Phase::Enter, Target::Text(old(t)@)),
            ),
    {
        self.hook(Phase::Enter, HookNode::Text(t))
    }

    fn exit_text(&mut self, t: &mut TextIR)
        ensures
            hook_result(
                Phase::Exit,
                Target::Text(old(t)@),
                (final(self)@, Target::Text(final(t)@)),
                Self::on_hook(old(self)@, Phase::Exit, Target::Text(old(t)@)),
            ),
    {
        self.hook(Phase::Exit, HookNode::Text(t))
    }

    fn enter_if(&mut self, i: &mut IfNodeIR)
        ensures
            hook_result(
                Phase::Enter,
                Target::If(old(i)@),
                (final(self)@, Target::If(final(i)@)),
                Self::on_hook(old(self)@, Phase::Enter, Target::If(old(i)@)),
            ),
    {
        self.hook(Phase::Enter, HookNode::If(i))
    }

    fn exit_if(&mut self, i: &mut IfNodeIR)
        ensures
            hook_result(
                Phase::Exit,
                Target::If(old(i)@),
                (final(self)@, Target::If(final(i)@)),
                Self::on_hook(old(self)@, Phase::Exit, Target::If(old(i)@)),
            ),
    {
        self.hook(Phase::Exit, HookNode::If(i))
    }

    fn enter_for(&mut self, f: &mut ForNodeIR)
        ensures
            hook_result(
                Phase::Enter,
                Target::For(old(f)@),
                (final(self)@, Target::For(final(f)@)),
                Self::on_hook(old(self)@, Phase::Enter, Target::For(old(f)@)),
            ),
    {
        self.hook(Phase::Enter, HookNode::For(f))
    }

    fn exit_for(&mut self, f: &mut ForNodeIR)
        ensures
            hook_result(
                Phase::Exit,
                Target::For(old(f)@),
                (final(self)@, Target::For(final(f)@)),
                Self::on_hook(old(self)@, Phase::Exit, Target::For(old(f)@)),
            ),
    {
        self.hook(Phase::Exit, HookNode::For(f))
    }

    fn enter_vnode(&mut self, v: &mut VNodeIR)
        ensures
            hook_result(
                Phase::Enter,
                Target::VNode(old(v)@),
                (final(self)@, Target::VNode(final(v)@)),
                Self::on_hook(old(self)@, Phase::Enter, Target::VNode(old(v)@)),
            ),
    {
        self.hook(Phase::Enter, HookNode::VNode(v))
    }

    fn exit_vnode(&mut self, v: &mut VNodeIR)
        ensures
            hook_result(
                Phase::Exit,
                Target::VNode(old(v)@),
                (final(self)@, Target::VNode(final(v)@)),
                Self::on_hook(old(self)@, Phase::Exit, Target::VNode(old(v)@)),
            ),
    {
        self.hook(Phase::Exit, HookNode::VNode(v))
    }

    fn enter_slot_outlet(&mut self, r: &mut RenderSlotIR)
        ensures
            hook_result(
                Phase::Enter,
                Target::SlotOutlet(old(r)@),
                (final(self)@, Target::SlotOutlet(final(r)@)),
                Self::on_hook(old(self)@, Phase::Enter, Target::SlotOutlet(old(r)@)),
            ),
    {
        self.hook(Phase::Enter, HookNode::SlotOutlet(r))
    }

    fn exit_slot_outlet(&mut self, r: &mut RenderSlotIR)
        ensures
            hook_result(
                Phase::Exit,
                Target::SlotOutlet(old(r)@),
                (final(self)@, Target::SlotOutlet(final(r)@)),
                Self::on_hook(old(self)@, Phase::Exit, Target::SlotOutlet(old(r)@)),
            ),
    {
        self.hook(Phase::Exit, HookNode::SlotOutlet(r))
    }

    fn enter_v_slot(&mut self, s: &mut VSlotIR)
        ensures
            hook_result(
                Phase::Enter,
                Target::VSlot(old(s)@),
                (final(self)@, Target::VSlot(final(s)@)),
                Self::on_hook(old(self)@, Phase::Enter, Target::VSlot(old(s)@)),
            ),
    {
        self.hook(Phase::Enter, HookNode::VSlot(s))
    }

    fn exit_v_slot(&mut self, s: &mut VSlotIR)
        ensures
            hook_result(
                Phase::Exit,
                Target::VSlot(old(s)@),
                (final(self)@, Target::VSlot(final(s)@)),
                Self::on_hook(old(self)@, Phase::Exit, Target::VSlot(old(s)@)),
            ),
    {
        self.hook(Phase::Exit, HookNode::VSlot(s))
    }

    fn enter_slot_fn(&mut self, s: &mut Slot)
        ensures
            hook_result(
                Phase::Enter,
                Target::SlotFn(old(s)@),
                (final(self)@, Target::SlotFn(final(s)@)),
                Self::on_hook(old(self)@, Phase::Enter, Target::SlotFn(old(s)@)),
            ),
    {
        self.hook(Phase::Enter, HookNode::SlotFn(s))
    }

    fn exit_slot_fn(&mut self, s: &mut Slot)
        ensures
            hook_result(
                Phase::Exit,
                Target::SlotFn(old(s)@),
                (final(self)@, Target::SlotFn(final(s)@)),
                Self::on_hook(old(self)@, Phase::Exit, Target::SlotFn(old(s)@)),
            ),
    {
        self.hook(Phase::Exit, HookNode::SlotFn(s))
    }

    fn enter_js_expr(&mut self, e: &mut JsExpr)
        ensures
            hook_result(
                Phase::Enter,
                Target::JsExpr(old(e)@),
                (final(self)@, Target::JsExpr(final(e)@)),
                Self::on_hook(old(self)@, Phase::Enter, Target::JsExpr(old(e)@)),
            ),
    {
        self.hook(Phase::Enter, HookNode::JsExpr(e))
    }

    fn exit_js_expr(&mut self, e: &mut JsExpr)
        ensures
            hook_result(
                Phase::Exit,
                Target::JsExpr(old(e)@),
                (final(self)@, Target::JsExpr(final(e)@)),
                Self::on_hook(old(self)@, Phase::Exit, Target::JsExpr(old(e)@)),
            ),
    {
        self.hook(Phase::Exit, HookNode::JsExpr(e))
    }

    fn enter_comment(&mut self, c: &mut CommentIR)
        ensures
            hook_result(
                Phase::Enter,
                Target::Comment(old(c)@),
                (final(self)@, Target::Comment(final(c)@)),
                Self::on_hook(old(self)@, Phase::Enter, Target::Comment(old(c)@)),
            ),
    {
        self.hook(Phase::Enter, HookNode::Comment(c))
    }

    fn exit_comment(&mut self, c: &mut CommentIR)
        ensures
            hook_result(
                Phase::Exit,
                Target::Comment(old(c)@),
                (final(self)@, Target::Comment(final(c)@)),
                Self::on_hook(old(self)@, Phase::Exit, Target::Comment(old(c)@)),
            ),
    {
        self.hook(Phase::Exit, HookNode::Comment(c))
    }
}

/// The states of a list of passes, one for one.
pub open spec fn states<P: CoreTransformPass>(ps: Seq<P>) -> Seq<P::V> {
    Seq::new(ps.len(), |i: int| ps[i]@)
}

/// The enter hooks of passes `from`, `from + 1`, ... up to the last, run in
/// that order on `node`, each on what the one before handed back.
pub open spec fn enter_from<P: CoreTransformPass>(ss: Seq<P::V>, node: Target, from: int) -> (Seq<P::V>, Target)
    decreases ss.len() - from,
{
    if 0 <= from < ss.len() {
        let (s, t) = P::on_hook(ss[from], Phase::Enter, node);
        enter_from::<P>(ss.update(from, s), t, from + 1)
    } else {
        (ss, node)
    }
}

/// The exit hooks of passes `until - 1`, `until - 2`, ... down to the first,
/// run in that order on `node`.
pub open spec fn exit_until<P: CoreTransformPass>(ss: Seq<P::V>, node: Target, until: int) -> (Seq<P::V>, Target)
    decreases until,
{
    if 0 < until <= ss.len() {
        let (s, t) = P::on_hook(ss[until - 1], Phase::Exit, node);
        exit_until::<P>(ss.update(until - 1, s), t, until - 1)
    } else {
        (ss, node)
    }
}

/// Every pass's enter hook, first pass first.
pub open spec fn enter_all<P: CoreTransformPass>(ss: Seq<P::V>, node: Target) -> (Seq<P::V>, Target) {
    enter_from::<P>(ss, node, 0)
}

/// Every pass's exit hook, last pass first.
pub open spec fn exit_all<P: CoreTransformPass>(ss: Seq<P::V>, node: Target) -> (Seq<P::V>, Target) {
    exit_until::<P>(ss, node, ss.len() as int)
}

/// A node that hooks can be called on: it knows its own pair of hooks.
pub trait Hooked {
    spec fn target(&self) -> Target;

    fn enter_with<P: CoreTransformPass>(&mut self, pass: &mut P)
        ensures
            hooked::<P>(old(pass)@, Phase::Enter, old(self).target(), final(pass)@, final(self).target()),
    ;

    fn exit_with<P: CoreTransformPass>(&mut self, pass: &mut P)
        ensures
            hooked::<P>(old(pass)@, Phase::Exit, old(self).target(), final(pass)@, final(self).target()),
    ;
}

impl Hooked for IRRoot {
    open spec fn target(&self) -> Target {
        Target::Root(self@)
    }

    fn enter_with<P: CoreTransformPass>(&mut self, pass: &mut P) {
        pass.enter_root(self)
    }

    fn exit_with<P: CoreTransformPass>(&mut self, pass: &mut P) {
        pass.exit_root(self)
    }
}

impl Hooked for TextIR {
    open spec fn target(&self) -> Target {
        Target::Text(self@)
    }

    fn enter_with<P: CoreTransformPass>(&mut self, pass: &mut P) {
        pass.enter_text(self)
    }

    fn exit_with<P: CoreTransformPass>(&mut self, pass: &mut P) {
        pass.exit_text(self)
    }
}

impl Hooked for IfNodeIR {
    open spec fn target(&self) -> Target {
        Target::If(self@)
    }

    fn enter_with<P: CoreTransformPass>(&mut self, pass: &mut P) {
        pass.enter_if(self)
    }

    fn exit_with<P: CoreTransformPass>(&mut self, pass: &mut P) {
        pass.exit_if(self)
    }
}

impl Hooked for ForNodeIR {
    open spec fn target(&self) -> Target {
        Target::For(self@)
    }

    fn enter_with<P: CoreTransformPass>(&mut self, pass: &mut P) {
        pass.enter_for(self)
    }

    fn exit_with<P: CoreTransformPass>(&mut self, pass: &mut P) {
        pass.exit_for(self)
    }
}

impl Hooked for VNodeIR {
    open spec fn target(&self) -> Target {
        Target::VNode(self@)
    }

    fn enter_with<P: CoreTransformPass>(&mut self, pass: &mut P) {
        pass.enter_vnode(self)
    }

    fn exit_with<P: CoreTransformPass>(&mut self, pass: &mut P) {
        pass.exit_vnode(self)
    }
}

impl Hooked for RenderSlotIR {
    open spec fn target(&self) -> Target {
        Target::SlotOutlet(self@)
    }

    fn enter_with<P: CoreTransformPass>(&mut self, pass: &mut P) {
        pass.enter_slot_outlet(self)
    }

    fn exit_with<P: CoreTransformPass>(&mut self, pass: &mut P) {
        pass.exit_slot_outlet(self)
    }
}

impl Hooked for VSlotIR {
    open spec fn target(&self) -> Target {
        Target::VSlot(self@)
    }

    fn enter_with<P: CoreTransformPass>(&mut self, pass: &mut P) {
        pass.enter_v_slot(self)
    }

    fn exit_with<P: CoreTransformPass>(&mut self, pass: &mut P) {
        pass.exit_v_slot(self)
    }
}

impl Hooked for Slot {
    open spec fn target(&self) -> Target {
        Target::SlotFn(self@)
    }

    fn enter_with<P: CoreTransformPass>(&mut self, pass: &mut P) {
        pass.enter_slot_fn(self)
    }

    fn exit_with<P: CoreTransformPass>(&mut self, pass: &mut P) {
        pass.exit_slot_fn(self)
    }
}

impl Hooked for JsExpr {
    open spec fn target(&self) -> Target {
        Target::JsExpr(self@)
    }

    fn enter_with<P: CoreTransformPass>(&mut self, pass: &mut P) {
        pass.enter_js_expr(self)
    }

    fn exit_with<P: CoreTransformPass>(&mut self, pass: &mut P) {
        pass.exit_js_expr(self)
    }
}

impl Hooked for CommentIR {
    open spec fn target(&self) -> Target {
        Target::Comment(self@)
    }

    fn enter_with<P: CoreTransformPass>(&mut self, pass: &mut P) {
        pass.enter_comment(self)
    }

    fn exit_with<P: CoreTransformPass>(&mut self, pass: &mut P) {
        pass.exit_comment(self)
    }
}

/// Calls the enter hook of every pass on `node`, in list order.
pub fn enter<P: CoreTransformPass, T: Hooked, const N: usize>(node: &mut T, ps: &mut [P; N])
    ensures
        (states(final(ps)@), final(node).target()) == enter_all::<P>(states(old(ps)@), old(node).target()),
        final(node).target().height() <= old(node).target().height(),
{
    let ghost goal = enter_all::<P>(states(ps@), node.target());
    let ghost h = node.target().height();
    let mut i: usize = 0;
    while i < N
        invariant
            i <= N,
            enter_from::<P>(states(ps@), node.target(), i as int) == goal,
            node.target().height() <= h,
        decreases N - i,
    {
        let ghost before = ps@;
        node.enter_with(&mut ps[i]);
        assert(states(ps@) =~= states(before).update(i as int, ps@[i as int]@));
        i += 1;
    }
}

/// Calls the exit hook of every pass on `node`, in reverse list order.
pub fn exit<P: CoreTransformPass, T: Hooked, const N: usize>(node: &mut T, ps: &mut [P; N])
    ensures
        (states(final(ps)@), final(node).target()) == exit_all::<P>(states(old(ps)@), old(node).target()),
{
    let ghost goal = exit_all::<P>(states(ps@), node.target());
    let mut i: usize = N;
    while i > 0
        invariant
            i <= N,
            exit_until::<P>(states(ps@), node.target(), i as int) == goal,
        decreases i,
    {
        let ghost before = ps@;
        i -= 1;
        node.exit_with(&mut ps[i]);
        assert(states(ps@) =~= states(before).update(i as int, ps@[i as int]@));
    }
}

/// The pass that does nothing: every hook leaves the node as it found it.
#[derive(Clone, Copy, Debug, PartialEq, Eq, Structural)]
pub struct NoopPass;

impl View for NoopPass {
    type V = ();

    open spec fn view(&self) -> () {
        ()
    }
}

impl CoreTransformPass for NoopPass {
    open spec fn on_hook(state: (), phase: Phase, node: Target) -> ((), Target) {
        (state, node)
    }

    fn hook(&mut self, phase: Phase, node: HookNode<'_>) {
    }
}

} // verus!
