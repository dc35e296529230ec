//! What holds of every walk, whatever the passes and the tree.

use crate::ir::{
    ForNodeView, IRNodeView, IRRootView, IfBranchView, IfNodeView, JsExprView, RenderSlotView,
    RuntimeDirView, SlotView, VNodeView, VSlotView,
};
use crate::pass::{enter_all, enter_from, exit_all, exit_until, CoreTransformPass, NoopPass, Phase, Target};
use crate::walk::{
    branch_seq_valid, ir_seq_valid, ir_valid, slot_seq_valid, walk_branch, walk_branch_seq, walk_dir,
    walk_dir_seq, walk_for, walk_if, walk_ir, walk_ir_seq, walk_js, walk_js_seq, walk_opt_js,
    walk_pair_seq, walk_root, walk_slot_fn, walk_slot_outlet, walk_slot_seq, walk_v_slot, walk_vnode,
};
use vstd::prelude::*;

verus! {

// ---------------------------------------------------------------------------
// The order of hooks
// ---------------------------------------------------------------------------

proof fn lemma_enter_from_push<P: CoreTransformPass>(ss: Seq<P::V>, last: P::V, node: Target, from: int)
    requires
        0 <= from <= ss.len(),
    ensures
        enter_from::<P>(ss.push(last), node, from) == ({
            let (ss1, t1) = enter_from::<P>(ss, node, from);
            let (s, t2) = P::on_hook(last, Phase::Enter, t1);
            (ss1.push(s), t2)
        }),
    decreases ss.len() - from,
{
    if from == ss.len() {
        let (s, t2) = P::on_hook(last, Phase::Enter, node);
        assert(ss.push(last).update(from, s) =~= ss.push(s));
        assert(enter_from::<P>(ss.push(s), t2, from + 1) == (ss.push(s), t2));
    } else {
        let (s, t) = P::on_hook(ss[from], Phase::Enter, node);
        assert(ss.push(last).update(from, s) =~= ss.update(from, s).push(last));
        lemma_enter_from_push::<P>(ss.update(from, s), last, t, from + 1);
    }
}

proof fn lemma_exit_until_push<P: CoreTransformPass>(ss: Seq<P::V>, last: P::V, node: Target, until: int)
    requires
        0 <= until <= ss.len(),
    ensures
        exit_until::<P>(ss.push(last), node, until) == ({
            let (ss1, t1) = exit_until::<P>(ss, node, until);
            (ss1.push(last), t1)
        }),
    decreases until,
{
    if until > 0 {
        let (s, t) = P::on_hook(ss[until - 1], Phase::Exit, node);
        assert(ss.push(last).update(until - 1, s) =~= ss.update(until - 1, s).push(last));
        lemma_exit_until_push::<P>(ss.update(until - 1, s), last, t, until - 1);
    }
}

/// Enter hooks run first pass first, exit hooks last pass first. With one
/// more pass at the end of the list, entering a node is entering it with the
/// passes before and then with the new one; leaving it is leaving it with the
/// new one and then with the passes before.
pub proof fn lemma_enter_exit_symmetry<P: CoreTransformPass>(ss: Seq<P::V>, last: P::V, node: Target)
    ensures
        enter_all::<P>(ss.push(last), node) == ({
            let (ss1, t1) = enter_all::<P>(ss, node);
            let (s, t2) = P::on_hook(last, Phase::Enter, t1);
            (ss1.push(s), t2)
        }),
        exit_all::<P>(ss.push(last), node) == ({
            let (s, t1) = P::on_hook(last, Phase::Exit, node);
            let (ss1, t2) = exit_all::<P>(ss, t1);
            (ss1.push(s), t2)
        }),
        enter_all::<P>(Seq::empty(), node) == (Seq::<P::V>::empty(), node),
        exit_all::<P>(Seq::empty(), node) == (Seq::<P::V>::empty(), node),
{
    lemma_enter_from_push::<P>(ss, last, node, 0);
    let (s, t1) = P::on_hook(last, Phase::Exit, node);
    assert(ss.push(last).update(ss.len() as int, s) =~= ss.push(s));
    lemma_exit_until_push::<P>(ss, s, t1, ss.len() as int);
}

// ---------------------------------------------------------------------------
// Passes that do nothing
// ---------------------------------------------------------------------------

/// No pass of the list changes itself or any node, at any hook.
pub open spec fn inert<P: CoreTransformPass>(ss: Seq<P::V>) -> bool {
    forall|i: int, phase: Phase, node: Target|
        0 <= i < ss.len() ==> #[trigger] P::on_hook(ss[i], phase, node) == (ss[i], node)
}

proof fn lemma_inert_enter<P: CoreTransformPass>(ss: Seq<P::V>, node: Target, from: int)
    requires
        inert::<P>(ss),
    ensures
        enter_from::<P>(ss, node, from) == (ss, node),
    decreases ss.len() - from,
{
    if 0 <= from < ss.len() {
        assert(P::on_hook(ss[from], Phase::Enter, node) == (ss[from], node));
        assert(ss.update(from, ss[from]) =~= ss);
        lemma_inert_enter::<P>(ss, node, from + 1);
    }
}

proof fn lemma_inert_exit<P: CoreTransformPass>(ss: Seq<P::V>, node: Target, until: int)
    requires
        inert::<P>(ss),
    ensures
        exit_until::<P>(ss, node, until) == (ss, node),
    decreases until,
{
    if 0 < until <= ss.len() {
        assert(P::on_hook(ss[until - 1], Phase::Exit, node) == (ss[until - 1], node));
        assert(ss.update(until - 1, ss[until - 1]) =~= ss);
        lemma_inert_exit::<P>(ss, node, until - 1);
    }
}

proof fn lemma_inert_hooks<P: CoreTransformPass>(ss: Seq<P::V>, node: Target)
    requires
        inert::<P>(ss),
    ensures
        enter_all::<P>(ss, node) == (ss, node),
        exit_all::<P>(ss, node) == (ss, node),
{
    lemma_inert_enter::<P>(ss, node, 0);
    lemma_inert_exit::<P>(ss, node, ss.len() as int);
}

proof fn lemma_inert_js<P: CoreTransformPass>(ss: Seq<P::V>, e: JsExprView, depth: nat)
    requires
        inert::<P>(ss),
    ensures
        walk_js::<P>(ss, e, depth) == (ss, e),
    decreases depth, 0int,
{
    if depth > 0 {
        lemma_inert_hooks::<P>(ss, Target::JsExpr(e));
        match e {
            JsExprView::Call(_, v) => lemma_inert_js_seq::<P>(ss, v, (depth - 1) as nat, 0),
            JsExprView::Compound(v) => lemma_inert_js_seq::<P>(ss, v, (depth - 1) as nat, 0),
            JsExprView::Array(v) => lemma_inert_js_seq::<P>(ss, v, (depth - 1) as nat, 0),
            JsExprView::Props(v) => lemma_inert_pair_seq::<P>(ss, v, (depth - 1) as nat, 0),
            _ => {},
        }
    }
}

proof fn lemma_inert_js_seq<P: CoreTransformPass>(ss: Seq<P::V>, v: Seq<JsExprView>, depth: nat, from: int)
    requires
        inert::<P>(ss),
    ensures
        walk_js_seq::<P>(ss, v, depth, from) == (ss, v),
    decreases depth, v.len() - from + 1,
{
    if 0 <= from < v.len() {
        lemma_inert_js::<P>(ss, v[from], depth);
        assert(v.update(from, v[from]) =~= v);
        lemma_inert_js_seq::<P>(ss, v, depth, from + 1);
    }
}

proof fn lemma_inert_pair_seq<P: CoreTransformPass>(
    ss: Seq<P::V>,
    v: Seq<(JsExprView, JsExprView)>,
    depth: nat,
    from: int,
)
    requires
        inert::<P>(ss),
    ensures
        walk_pair_seq::<P>(ss, v, depth, from) == (ss, v),
    decreases depth, v.len() - from + 1,
{
    if 0 <= from < v.len() {
        lemma_inert_js::<P>(ss, v[from].0, depth);
        lemma_inert_js::<P>(ss, v[from].1, depth);
        assert(v.update(from, (v[from].0, v[from].1)) =~= v);
        lemma_inert_pair_seq::<P>(ss, v, depth, from + 1);
    }
}

proof fn lemma_inert_opt_js<P: CoreTransformPass>(ss: Seq<P::V>, o: Option<JsExprView>, depth: nat)
    requires
        inert::<P>(ss),
    ensures
        walk_opt_js::<P>(ss, o, depth) == (ss, o),
{
    match o {
        Some(e) => lemma_inert_js::<P>(ss, e, depth),
        None => {},
    }
}

proof fn lemma_inert_dir<P: CoreTransformPass>(ss: Seq<P::V>, d: RuntimeDirView, depth: nat)
    requires
        inert::<P>(ss),
    ensures
        walk_dir::<P>(ss, d, depth) == (ss, d),
{
    lemma_inert_js::<P>(ss, d.name, depth);
    lemma_inert_opt_js::<P>(ss, d.expr, depth);
    lemma_inert_opt_js::<P>(ss, d.arg, depth);
    lemma_inert_opt_js::<P>(ss, d.mods, depth);
}

proof fn lemma_inert_dir_seq<P: CoreTransformPass>(ss: Seq<P::V>, v: Seq<RuntimeDirView>, depth: nat, from: int)
    requires
        inert::<P>(ss),
    ensures
        walk_dir_seq::<P>(ss, v, depth, from) == (ss, v),
    decreases v.len() - from,
{
    if 0 <= from < v.len() {
        lemma_inert_dir::<P>(ss, v[from], depth);
        assert(v.update(from, v[from]) =~= v);
        lemma_inert_dir_seq::<P>(ss, v, depth, from + 1);
    }
}

/// Where the walk of a node succeeds, it has changed nothing.
pub open spec fn unchanged<S, T>(walk: Option<(Seq<S>, T)>, ss: Seq<S>, node: T) -> bool {
    walk matches Some(x) ==> x == (ss, node)
}

proof fn lemma_inert_ir<P: CoreTransformPass>(ss: Seq<P::V>, n: IRNodeView, depth: nat)
    requires
        inert::<P>(ss),
    ensures
        unchanged(walk_ir::<P>(ss, n, depth), ss, n),
    decreases depth, 1int,
{
    match n {
        IRNodeView::TextCall(t) => {
            lemma_inert_hooks::<P>(ss, Target::Text(t));
        },
        IRNodeView::If(i) => lemma_inert_if::<P>(ss, i, depth),
        IRNodeView::For(f) => lemma_inert_for::<P>(ss, f, depth),
        IRNodeView::VNodeCall(v) => lemma_inert_vnode::<P>(ss, v, depth),
        IRNodeView::RenderSlotCall(r) => lemma_inert_slot_outlet::<P>(ss, r, depth),
        IRNodeView::CommentCall(c) => {
            lemma_inert_hooks::<P>(ss, Target::Comment(c));
        },
        IRNodeView::VSlotUse(s) => lemma_inert_v_slot::<P>(ss, s, depth),
        IRNodeView::AlterableSlot(s) => lemma_inert_slot_fn::<P>(ss, s, depth),
    }
}

proof fn lemma_inert_ir_seq<P: CoreTransformPass>(ss: Seq<P::V>, v: Seq<IRNodeView>, depth: nat, from: int)
    requires
        inert::<P>(ss),
    ensures
        unchanged(walk_ir_seq::<P>(ss, v, depth, from), ss, v),
    decreases depth, v.len() - from + 3,
{
    if 0 <= from < v.len() {
        lemma_inert_ir::<P>(ss, v[from], depth);
        assert(v.update(from, v[from]) =~= v);
        lemma_inert_ir_seq::<P>(ss, v, depth, from + 1);
    }
}

proof fn lemma_inert_if<P: CoreTransformPass>(ss: Seq<P::V>, i: IfNodeView, depth: nat)
    requires
        inert::<P>(ss),
    ensures
        unchanged(walk_if::<P>(ss, i, depth), ss, i),
    decreases depth, 0int,
{
    if depth > 0 {
        lemma_inert_hooks::<P>(ss, Target::If(i));
        lemma_inert_branch_seq::<P>(ss, i.branches, (depth - 1) as nat, 0);
    }
}

proof fn lemma_inert_branch<P: CoreTransformPass>(ss: Seq<P::V>, b: IfBranchView, depth: nat)
    requires
        inert::<P>(ss),
    ensures
        unchanged(walk_branch::<P>(ss, b, depth), ss, b),
    decreases depth, 2int,
{
    lemma_inert_opt_js::<P>(ss, b.condition, depth);
    lemma_inert_ir::<P>(ss, b.child, depth);
}

proof fn lemma_inert_branch_seq<P: CoreTransformPass>(
    ss: Seq<P::V>,
    v: Seq<IfBranchView>,
    depth: nat,
    from: int,
)
    requires
        inert::<P>(ss),
    ensures
        unchanged(walk_branch_seq::<P>(ss, v, depth, from), ss, v),
    decreases depth, v.len() - from + 3,
{
    if 0 <= from < v.len() {
        lemma_inert_branch::<P>(ss, v[from], depth);
        assert(v.update(from, v[from]) =~= v);
        lemma_inert_branch_seq::<P>(ss, v, depth, from + 1);
    }
}

proof fn lemma_inert_for<P: CoreTransformPass>(ss: Seq<P::V>, f: ForNodeView, depth: nat)
    requires
        inert::<P>(ss),
    ensures
        unchanged(walk_for::<P>(ss, f, depth), ss, f),
    decreases depth, 0int,
{
    if depth > 0 {
        lemma_inert_hooks::<P>(ss, Target::For(f));
        lemma_inert_js::<P>(ss, f.source, (depth - 1) as nat);
        lemma_inert_ir::<P>(ss, *f.child, (depth - 1) as nat);
    }
}

proof fn lemma_inert_vnode<P: CoreTransformPass>(ss: Seq<P::V>, v: VNodeView, depth: nat)
    requires
        inert::<P>(ss),
    ensures
        unchanged(walk_vnode::<P>(ss, v, depth), ss, v),
    decreases depth, 0int,
{
    if depth > 0 {
        lemma_inert_hooks::<P>(ss, Target::VNode(v));
        lemma_inert_js::<P>(ss, v.tag, (depth - 1) as nat);
        lemma_inert_opt_js::<P>(ss, v.props, (depth - 1) as nat);
        lemma_inert_ir_seq::<P>(ss, v.children, (depth - 1) as nat, 0);
        lemma_inert_dir_seq::<P>(ss, v.directives, (depth - 1) as nat, 0);
    }
}

proof fn lemma_inert_slot_outlet<P: CoreTransformPass>(ss: Seq<P::V>, r: RenderSlotView, depth: nat)
    requires
        inert::<P>(ss),
    ensures
        unchanged(walk_slot_outlet::<P>(ss, r, depth), ss, r),
    decreases depth, 0int,
{
    if depth > 0 {
        lemma_inert_hooks::<P>(ss, Target::SlotOutlet(r));
        lemma_inert_js::<P>(ss, r.slot_name, (depth - 1) as nat);
        lemma_inert_opt_js::<P>(ss, r.slot_props, (depth - 1) as nat);
        lemma_inert_ir_seq::<P>(ss, r.fallbacks, (depth - 1) as nat, 0);
    }
}

proof fn lemma_inert_v_slot<P: CoreTransformPass>(ss: Seq<P::V>, s: VSlotView, depth: nat)
    requires
        inert::<P>(ss),
    ensures
        unchanged(walk_v_slot::<P>(ss, s, depth), ss, s),
    decreases depth, 0int,
{
    if depth > 0 {
        lemma_inert_hooks::<P>(ss, Target::VSlot(s));
        lemma_inert_slot_seq::<P>(ss, s.stable_slots, (depth - 1) as nat, 0);
        lemma_inert_ir_seq::<P>(ss, s.alterable_slots, (depth - 1) as nat, 0);
    }
}

proof fn lemma_inert_slot_fn<P: CoreTransformPass>(ss: Seq<P::V>, s: SlotView, depth: nat)
    requires
        inert::<P>(ss),
    ensures
        unchanged(walk_slot_fn::<P>(ss, s, depth), ss, s),
    decreases depth, 0int,
{
    if depth > 0 {
        lemma_inert_hooks::<P>(ss, Target::SlotFn(s));
        lemma_inert_js::<P>(ss, s.name, (depth - 1) as nat);
        lemma_inert_ir_seq::<P>(ss, s.body, (depth - 1) as nat, 0);
    }
}

proof fn lemma_inert_slot_seq<P: CoreTransformPass>(ss: Seq<P::V>, v: Seq<SlotView>, depth: nat, from: int)
    requires
        inert::<P>(ss),
    ensures
        unchanged(walk_slot_seq::<P>(ss, v, depth, from), ss, v),
    decreases depth, v.len() - from + 3,
{
    if 0 <= from < v.len() {
        lemma_inert_slot_fn::<P>(ss, v[from], depth);
        assert(v.update(from, v[from]) =~= v);
        lemma_inert_slot_seq::<P>(ss, v, depth, from + 1);
    }
}

proof fn lemma_inert_ir_succeeds<P: CoreTransformPass>(ss: Seq<P::V>, n: IRNodeView, depth: nat)
    requires
        inert::<P>(ss),
        ir_valid(n),
    ensures
        walk_ir::<P>(ss, n, depth) is Some,
    decreases depth, 1int,
{
    if depth > 0 {
        match n {
            IRNodeView::If(i) => {
                lemma_inert_hooks::<P>(ss, Target::If(i));
                lemma_inert_branches_succeed::<P>(ss, i.branches, (depth - 1) as nat, 0);
            },
            IRNodeView::For(f) => {
                lemma_inert_hooks::<P>(ss, Target::For(f));
                lemma_inert_js::<P>(ss, f.source, (depth - 1) as nat);
                lemma_inert_ir_succeeds::<P>(ss, *f.child, (depth - 1) as nat);
            },
            IRNodeView::VNodeCall(v) => {
                lemma_inert_hooks::<P>(ss, Target::VNode(v));
                lemma_inert_js::<P>(ss, v.tag, (depth - 1) as nat);
                lemma_inert_opt_js::<P>(ss, v.props, (depth - 1) as nat);
                lemma_inert_seq_succeeds::<P>(ss, v.children, (depth - 1) as nat, 0);
            },
            IRNodeView::RenderSlotCall(r) => {
                lemma_inert_hooks::<P>(ss, Target::SlotOutlet(r));
                lemma_inert_js::<P>(ss, r.slot_name, (depth - 1) as nat);
                lemma_inert_opt_js::<P>(ss, r.slot_props, (depth - 1) as nat);
                lemma_inert_seq_succeeds::<P>(ss, r.fallbacks, (depth - 1) as nat, 0);
            },
            IRNodeView::VSlotUse(s) => {
                lemma_inert_hooks::<P>(ss, Target::VSlot(s));
                lemma_inert_slots_succeed::<P>(ss, s.stable_slots, (depth - 1) as nat, 0);
                lemma_inert_slot_seq::<P>(ss, s.stable_slots, (depth - 1) as nat, 0);
                lemma_inert_seq_succeeds::<P>(ss, s.alterable_slots, (depth - 1) as nat, 0);
            },
            IRNodeView::AlterableSlot(s) => lemma_inert_slot_succeeds::<P>(ss, s, depth),
            _ => {},
        }
    }
}

proof fn lemma_inert_slot_succeeds<P: CoreTransformPass>(ss: Seq<P::V>, s: SlotView, depth: nat)
    requires
        inert::<P>(ss),
        ir_seq_valid(s.body),
    ensures
        walk_slot_fn::<P>(ss, s, depth) is Some,
    decreases depth, 0int,
{
    if depth > 0 {
        lemma_inert_hooks::<P>(ss, Target::SlotFn(s));
        lemma_inert_js::<P>(ss, s.name, (depth - 1) as nat);
        lemma_inert_seq_succeeds::<P>(ss, s.body, (depth - 1) as nat, 0);
    }
}

proof fn lemma_inert_seq_succeeds<P: CoreTransformPass>(ss: Seq<P::V>, v: Seq<IRNodeView>, depth: nat, from: int)
    requires
        inert::<P>(ss),
        ir_seq_valid(v),
    ensures
        walk_ir_seq::<P>(ss, v, depth, from) is Some,
    decreases depth, v.len() - from + 3,
{
    if 0 <= from < v.len() {
        lemma_inert_ir_succeeds::<P>(ss, v[from], depth);
        lemma_inert_ir::<P>(ss, v[from], depth);
        assert(v.update(from, v[from]) =~= v);
        lemma_inert_seq_succeeds::<P>(ss, v, depth, from + 1);
    }
}

proof fn lemma_inert_branches_succeed<P: CoreTransformPass>(
    ss: Seq<P::V>,
    v: Seq<IfBranchView>,
    depth: nat,
    from: int,
)
    requires
        inert::<P>(ss),
        branch_seq_valid(v),
    ensures
        walk_branch_seq::<P>(ss, v, depth, from) is Some,
    decreases depth, v.len() - from + 3,
{
    if 0 <= from < v.len() {
        lemma_inert_opt_js::<P>(ss, v[from].condition, depth);
        lemma_inert_ir_succeeds::<P>(ss, v[from].child, depth);
        lemma_inert_branch::<P>(ss, v[from], depth);
        assert(v.update(from, v[from]) =~= v);
        lemma_inert_branches_succeed::<P>(ss, v, depth, from + 1);
    }
}

proof fn lemma_inert_slots_succeed<P: CoreTransformPass>(ss: Seq<P::V>, v: Seq<SlotView>, depth: nat, from: int)
    requires
        inert::<P>(ss),
        slot_seq_valid(v),
    ensures
        walk_slot_seq::<P>(ss, v, depth, from) is Some,
    decreases depth, v.len() - from + 3,
{
    if 0 <= from < v.len() {
        lemma_inert_slot_succeeds::<P>(ss, v[from], depth);
        lemma_inert_slot_fn::<P>(ss, v[from], depth);
        assert(v.update(from, v[from]) =~= v);
        lemma_inert_slots_succeed::<P>(ss, v, depth, from + 1);
    }
}

/// A walk with passes that do nothing succeeds on every tree whose
/// conditionals are well formed, and leaves passes and tree as they were.
pub proof fn lemma_inert_walk_of_valid_tree<P: CoreTransformPass>(ss: Seq<P::V>, root: IRRootView)
    requires
        inert::<P>(ss),
        root.valid(),
    ensures
        walk_root::<P>(ss, root) == Some((ss, root)),
{
    lemma_inert_hooks::<P>(ss, Target::Root(root));
    lemma_inert_seq_succeeds::<P>(ss, root.body, root.height(), 0);
    lemma_inert_ir_seq::<P>(ss, root.body, root.height(), 0);
}

/// A walk with passes that do nothing leaves the passes and the tree as they
/// were. This holds of the empty list of passes too: to walk with passes that
/// do nothing is to walk with none.
pub proof fn lemma_inert_walk_is_identity<P: CoreTransformPass>(ss: Seq<P::V>, root: IRRootView)
    requires
        inert::<P>(ss),
    ensures
        unchanged(walk_root::<P>(ss, root), ss, root),
{
    lemma_inert_hooks::<P>(ss, Target::Root(root));
    lemma_inert_ir_seq::<P>(ss, root.body, root.height(), 0);
}

/// The pass with empty hooks does nothing.
pub proof fn lemma_noop_pass_is_inert(ss: Seq<()>)
    ensures
        inert::<NoopPass>(ss),
{
}

} // verus!
