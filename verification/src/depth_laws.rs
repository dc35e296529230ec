//! The depth that a walk is handed does not matter once it exceeds the height
//! of the node: the walk never runs out of it.

use crate::ir::{
    lemma_branch_seq_bound, lemma_dir_seq_bound, lemma_ir_seq_bound, lemma_js_seq_bound,
    lemma_pair_seq_bound, lemma_slot_seq_bound, opt_js_height, ForNodeView, IRNodeView, IfBranchView,
    IfNodeView, JsExprView, RenderSlotView, RuntimeDirView, SlotView, VNodeView, VSlotView,
};
use crate::pass::{enter_all, enter_from, CoreTransformPass, Phase, Target};
use crate::walk::{
    walk_branch, walk_branch_seq, walk_dir, walk_dir_seq, walk_for, walk_if, walk_ir, walk_ir_seq,
    walk_js, walk_js_seq, walk_opt_js, walk_pair_seq, walk_slot_fn, walk_slot_outlet, walk_slot_seq,
    walk_v_slot, walk_vnode,
};
use vstd::prelude::*;

verus! {

/// No enter hook of the pass deepens a node, in whatever state the pass is.
pub open spec fn never_deepens<P: CoreTransformPass>() -> bool {
    forall|state: P::V, node: Target|
        (#[trigger] P::on_hook(state, Phase::Enter, node)).1.height() <= node.height()
}

proof fn lemma_entered_no_deeper<P: CoreTransformPass>(ss: Seq<P::V>, node: Target, from: int)
    requires
        never_deepens::<P>(),
    ensures
        enter_from::<P>(ss, node, from).1.height() <= node.height(),
    decreases ss.len() - from,
{
    if 0 <= from < ss.len() {
        let (s, t) = P::on_hook(ss[from], Phase::Enter, node);
        lemma_entered_no_deeper::<P>(ss.update(from, s), t, from + 1);
    }
}

proof fn lemma_depth_js<P: CoreTransformPass>(ss: Seq<P::V>, e: JsExprView, d1: nat, d2: nat)
    requires
        never_deepens::<P>(),
        e.height() < d1,
        e.height() < d2,
    ensures
        walk_js::<P>(ss, e, d1) == walk_js::<P>(ss, e, d2),
    decreases d1, 0int,
{
    lemma_entered_no_deeper::<P>(ss, Target::JsExpr(e), 0);
    let (ss1, t1) = enter_all::<P>(ss, Target::JsExpr(e));
    let e1 = t1.js_or(e);
    assert(e1.height() <= e.height());
    match e1 {
        JsExprView::Call(_, v) => {
            lemma_js_seq_bound(v);
            lemma_depth_js_seq::<P>(ss1, v, (d1 - 1) as nat, (d2 - 1) as nat, 0);
        },
        JsExprView::Compound(v) => {
            lemma_js_seq_bound(v);
            lemma_depth_js_seq::<P>(ss1, v, (d1 - 1) as nat, (d2 - 1) as nat, 0);
        },
        JsExprView::Array(v) => {
            lemma_js_seq_bound(v);
            lemma_depth_js_seq::<P>(ss1, v, (d1 - 1) as nat, (d2 - 1) as nat, 0);
        },
        JsExprView::Props(v) => {
            lemma_pair_seq_bound(v);
            lemma_depth_pair_seq::<P>(ss1, v, (d1 - 1) as nat, (d2 - 1) as nat, 0);
        },
        _ => {},
    }
}

proof fn lemma_depth_js_seq<P: CoreTransformPass>(
    ss: Seq<P::V>,
    v: Seq<JsExprView>,
    d1: nat,
    d2: nat,
    from: int,
)
    requires
        never_deepens::<P>(),
        forall|k: int| from <= k < v.len() ==> (#[trigger] v[k]).height() < d1 && v[k].height() < d2,
    ensures
        walk_js_seq::<P>(ss, v, d1, from) == walk_js_seq::<P>(ss, v, d2, from),
    decreases d1, v.len() - from + 1,
{
    if 0 <= from < v.len() {
        lemma_depth_js::<P>(ss, v[from], d1, d2);
        let (ss1, e) = walk_js::<P>(ss, v[from], d1);
        lemma_depth_js_seq::<P>(ss1, v.update(from, e), d1, d2, from + 1);
    }
}

proof fn lemma_depth_pair_seq<P: CoreTransformPass>(
    ss: Seq<P::V>,
    v: Seq<(JsExprView, JsExprView)>,
    d1: nat,
    d2: nat,
    from: int,
)
    requires
        never_deepens::<P>(),
        forall|k: int|
            from <= k < v.len() ==> {
                &&& (#[trigger] v[k]).0.height() < d1
                &&& v[k].0.height() < d2
                &&& v[k].1.height() < d1
                &&& v[k].1.height() < d2
            },
    ensures
        walk_pair_seq::<P>(ss, v, d1, from) == walk_pair_seq::<P>(ss, v, d2, from),
    decreases d1, v.len() - from + 1,
{
    if 0 <= from < v.len() {
        lemma_depth_js::<P>(ss, v[from].0, d1, d2);
        let (ss1, key) = walk_js::<P>(ss, v[from].0, d1);
        lemma_depth_js::<P>(ss1, v[from].1, d1, d2);
        let (ss2, value) = walk_js::<P>(ss1, v[from].1, d1);
        lemma_depth_pair_seq::<P>(ss2, v.update(from, (key, value)), d1, d2, from + 1);
    }
}

proof fn lemma_depth_opt_js<P: CoreTransformPass>(ss: Seq<P::V>, o: Option<JsExprView>, d1: nat, d2: nat)
    requires
        never_deepens::<P>(),
        opt_js_height(o) < d1,
        opt_js_height(o) < d2,
    ensures
        walk_opt_js::<P>(ss, o, d1) == walk_opt_js::<P>(ss, o, d2),
{
    match o {
        Some(e) => lemma_depth_js::<P>(ss, e, d1, d2),
        None => {},
    }
}

proof fn lemma_depth_dir<P: CoreTransformPass>(ss: Seq<P::V>, d: RuntimeDirView, d1: nat, d2: nat)
    requires
        never_deepens::<P>(),
        d.height() < d1,
        d.height() < d2,
    ensures
        walk_dir::<P>(ss, d, d1) == walk_dir::<P>(ss, d, d2),
{
    lemma_depth_js::<P>(ss, d.name, d1, d2);
    let (ss1, name) = walk_js::<P>(ss, d.name, d1);
    lemma_depth_opt_js::<P>(ss1, d.expr, d1, d2);
    let (ss2, expr) = walk_opt_js::<P>(ss1, d.expr, d1);
    lemma_depth_opt_js::<P>(ss2, d.arg, d1, d2);
    let (ss3, arg) = walk_opt_js::<P>(ss2, d.arg, d1);
    lemma_depth_opt_js::<P>(ss3, d.mods, d1, d2);
}

proof fn lemma_depth_dir_seq<P: CoreTransformPass>(
    ss: Seq<P::V>,
    v: Seq<RuntimeDirView>,
    d1: nat,
    d2: nat,
    from: int,
)
    requires
        never_deepens::<P>(),
        forall|k: int| from <= k < v.len() ==> (#[trigger] v[k]).height() < d1 && v[k].height() < d2,
    ensures
        walk_dir_seq::<P>(ss, v, d1, from) == walk_dir_seq::<P>(ss, v, d2, from),
    decreases v.len() - from,
{
    if 0 <= from < v.len() {
        lemma_depth_dir::<P>(ss, v[from], d1, d2);
        let (ss1, d) = walk_dir::<P>(ss, v[from], d1);
        lemma_depth_dir_seq::<P>(ss1, v.update(from, d), d1, d2, from + 1);
    }
}

/// A walk of a node comes to the same, whatever depth above the node's
/// height it is handed.
pub proof fn lemma_depth_ir<P: CoreTransformPass>(ss: Seq<P::V>, n: IRNodeView, d1: nat, d2: nat)
    requires
        never_deepens::<P>(),
        n.height() < d1,
        n.height() < d2,
    ensures
        walk_ir::<P>(ss, n, d1) == walk_ir::<P>(ss, n, d2),
    decreases d1, 1int,
{
    match n {
        IRNodeView::If(i) => lemma_depth_if::<P>(ss, i, d1, d2),
        IRNodeView::For(f) => lemma_depth_for::<P>(ss, f, d1, d2),
        IRNodeView::VNodeCall(v) => lemma_depth_vnode::<P>(ss, v, d1, d2),
        IRNodeView::RenderSlotCall(r) => lemma_depth_slot_outlet::<P>(ss, r, d1, d2),
        IRNodeView::VSlotUse(s) => lemma_depth_v_slot::<P>(ss, s, d1, d2),
        IRNodeView::AlterableSlot(s) => lemma_depth_slot_fn::<P>(ss, s, d1, d2),
        _ => {},
    }
}

/// A walk of a list of nodes comes to the same, whatever depth above the
/// height of every node it is handed.
pub proof fn lemma_depth_ir_seq<P: CoreTransformPass>(
    ss: Seq<P::V>,
    v: Seq<IRNodeView>,
    d1: nat,
    d2: nat,
    from: int,
)
    requires
        never_deepens::<P>(),
        forall|k: int| from <= k < v.len() ==> (#[trigger] v[k]).height() < d1 && v[k].height() < d2,
    ensures
        walk_ir_seq::<P>(ss, v, d1, from) == walk_ir_seq::<P>(ss, v, d2, from),
    decreases d1, v.len() - from + 3,
{
    if 0 <= from < v.len() {
        lemma_depth_ir::<P>(ss, v[from], d1, d2);
        match walk_ir::<P>(ss, v[from], d1) {
            Some((ss1, n)) => lemma_depth_ir_seq::<P>(ss1, v.update(from, n), d1, d2, from + 1),
            None => {},
        }
    }
}

proof fn lemma_depth_if<P: CoreTransformPass>(ss: Seq<P::V>, i: IfNodeView, d1: nat, d2: nat)
    requires
        never_deepens::<P>(),
        i.height() < d1,
        i.height() < d2,
    ensures
        walk_if::<P>(ss, i, d1) == walk_if::<P>(ss, i, d2),
    decreases d1, 0int,
{
    lemma_entered_no_deeper::<P>(ss, Target::If(i), 0);
    let (ss1, t1) = enter_all::<P>(ss, Target::If(i));
    let i1 = t1.if_or(i);
    assert(i1.height() <= i.height());
    lemma_branch_seq_bound(i1.branches);
    lemma_depth_branch_seq::<P>(ss1, i1.branches, (d1 - 1) as nat, (d2 - 1) as nat, 0);
}

proof fn lemma_depth_branch<P: CoreTransformPass>(ss: Seq<P::V>, b: IfBranchView, d1: nat, d2: nat)
    requires
        never_deepens::<P>(),
        b.height() < d1,
        b.height() < d2,
    ensures
        walk_branch::<P>(ss, b, d1) == walk_branch::<P>(ss, b, d2),
    decreases d1, 2int,
{
    lemma_depth_opt_js::<P>(ss, b.condition, d1, d2);
    let (ss1, condition) = walk_opt_js::<P>(ss, b.condition, d1);
    lemma_depth_ir::<P>(ss1, b.child, d1, d2);
}

proof fn lemma_depth_branch_seq<P: CoreTransformPass>(
    ss: Seq<P::V>,
    v: Seq<IfBranchView>,
    d1: nat,
    d2: nat,
    from: int,
)
    requires
        never_deepens::<P>(),
        forall|k: int| from <= k < v.len() ==> (#[trigger] v[k]).height() < d1 && v[k].height() < d2,
    ensures
        walk_branch_seq::<P>(ss, v, d1, from) == walk_branch_seq::<P>(ss, v, d2, from),
    decreases d1, v.len() - from + 3,
{
    if 0 <= from < v.len() {
        lemma_depth_branch::<P>(ss, v[from], d1, d2);
        match walk_branch::<P>(ss, v[from], d1) {
            Some((ss1, b)) => lemma_depth_branch_seq::<P>(ss1, v.update(from, b), d1, d2, from + 1),
            None => {},
        }
    }
}

proof fn lemma_depth_for<P: CoreTransformPass>(ss: Seq<P::V>, f: ForNodeView, d1: nat, d2: nat)
    requires
        never_deepens::<P>(),
        f.height() < d1,
        f.height() < d2,
    ensures
        walk_for::<P>(ss, f, d1) == walk_for::<P>(ss, f, d2),
    decreases d1, 0int,
{
    lemma_entered_no_deeper::<P>(ss, Target::For(f), 0);
    let (ss1, t1) = enter_all::<P>(ss, Target::For(f));
    let f1 = t1.for_or(f);
    assert(f1.height() <= f.height());
    lemma_depth_js::<P>(ss1, f1.source, (d1 - 1) as nat, (d2 - 1) as nat);
    let (ss2, source) = walk_js::<P>(ss1, f1.source, (d1 - 1) as nat);
    lemma_depth_ir::<P>(ss2, *f1.child, (d1 - 1) as nat, (d2 - 1) as nat);
}

proof fn lemma_depth_children<P: CoreTransformPass>(ss: Seq<P::V>, v: Seq<IRNodeView>, d1: nat, d2: nat)
    requires
        never_deepens::<P>(),
        crate::ir::ir_seq_height(v) < d1,
        crate::ir::ir_seq_height(v) < d2,
    ensures
        walk_ir_seq::<P>(ss, v, d1, 0) == walk_ir_seq::<P>(ss, v, d2, 0),
    decreases d1, v.len() + 4,
{
    lemma_ir_seq_bound(v);
    lemma_depth_ir_seq::<P>(ss, v, d1, d2, 0);
}

proof fn lemma_depth_vnode<P: CoreTransformPass>(ss: Seq<P::V>, v: VNodeView, d1: nat, d2: nat)
    requires
        never_deepens::<P>(),
        v.height() < d1,
        v.height() < d2,
    ensures
        walk_vnode::<P>(ss, v, d1) == walk_vnode::<P>(ss, v, d2),
    decreases d1, 0int,
{
    let e1 = (d1 - 1) as nat;
    let e2 = (d2 - 1) as nat;
    lemma_entered_no_deeper::<P>(ss, Target::VNode(v), 0);
    let (ss1, t1) = enter_all::<P>(ss, Target::VNode(v));
    let v1 = t1.vnode_or(v);
    assert(v1.height() <= v.height());
    lemma_depth_js::<P>(ss1, v1.tag, e1, e2);
    let (ss2, tag) = walk_js::<P>(ss1, v1.tag, e1);
    lemma_depth_opt_js::<P>(ss2, v1.props, e1, e2);
    let (ss3, props) = walk_opt_js::<P>(ss2, v1.props, e1);
    lemma_depth_children::<P>(ss3, v1.children, e1, e2);
    match walk_ir_seq::<P>(ss3, v1.children, e1, 0) {
        Some((ss4, children)) => {
            lemma_dir_seq_bound(v1.directives);
            lemma_depth_dir_seq::<P>(ss4, v1.directives, e1, e2, 0);
        },
        None => {},
    }
}

proof fn lemma_depth_slot_outlet<P: CoreTransformPass>(ss: Seq<P::V>, r: RenderSlotView, d1: nat, d2: nat)
    requires
        never_deepens::<P>(),
        r.height() < d1,
        r.height() < d2,
    ensures
        walk_slot_outlet::<P>(ss, r, d1) == walk_slot_outlet::<P>(ss, r, d2),
    decreases d1, 0int,
{
    let e1 = (d1 - 1) as nat;
    let e2 = (d2 - 1) as nat;
    lemma_entered_no_deeper::<P>(ss, Target::SlotOutlet(r), 0);
    let (ss1, t1) = enter_all::<P>(ss, Target::SlotOutlet(r));
    let r1 = t1.slot_outlet_or(r);
    assert(r1.height() <= r.height());
    lemma_depth_js::<P>(ss1, r1.slot_name, e1, e2);
    let (ss2, slot_name) = walk_js::<P>(ss1, r1.slot_name, e1);
    lemma_depth_opt_js::<P>(ss2, r1.slot_props, e1, e2);
    let (ss3, slot_props) = walk_opt_js::<P>(ss2, r1.slot_props, e1);
    lemma_depth_children::<P>(ss3, r1.fallbacks, e1, e2);
}

proof fn lemma_depth_v_slot<P: CoreTransformPass>(ss: Seq<P::V>, s: VSlotView, d1: nat, d2: nat)
    requires
        never_deepens::<P>(),
        s.height() < d1,
        s.height() < d2,
    ensures
        walk_v_slot::<P>(ss, s, d1) == walk_v_slot::<P>(ss, s, d2),
    decreases d1, 0int,
{
    let e1 = (d1 - 1) as nat;
    let e2 = (d2 - 1) as nat;
    lemma_entered_no_deeper::<P>(ss, Target::VSlot(s), 0);
    let (ss1, t1) = enter_all::<P>(ss, Target::VSlot(s));
    let s1 = t1.v_slot_or(s);
    assert(s1.height() <= s.height());
    lemma_slot_seq_bound(s1.stable_slots);
    lemma_depth_slot_seq::<P>(ss1, s1.stable_slots, e1, e2, 0);
    match walk_slot_seq::<P>(ss1, s1.stable_slots, e1, 0) {
        Some((ss2, stable_slots)) => lemma_depth_children::<P>(ss2, s1.alterable_slots, e1, e2),
        None => {},
    }
}

proof fn lemma_depth_slot_fn<P: CoreTransformPass>(ss: Seq<P::V>, s: SlotView, d1: nat, d2: nat)
    requires
        never_deepens::<P>(),
        s.height() < d1,
        s.height() < d2,
    ensures
        walk_slot_fn::<P>(ss, s, d1) == walk_slot_fn::<P>(ss, s, d2),
    decreases d1, 0int,
{
    let e1 = (d1 - 1) as nat;
    let e2 = (d2 - 1) as nat;
    lemma_entered_no_deeper::<P>(ss, Target::SlotFn(s), 0);
    let (ss1, t1) = enter_all::<P>(ss, Target::SlotFn(s));
    let s1 = t1.slot_fn_or(s);
    assert(s1.height() <= s.height());
    lemma_depth_js::<P>(ss1, s1.name, e1, e2);
    let (ss2, name) = walk_js::<P>(ss1, s1.name, e1);
    lemma_depth_children::<P>(ss2, s1.body, e1, e2);
}

proof fn lemma_depth_slot_seq<P: CoreTransformPass>(
    ss: Seq<P::V>,
    v: Seq<SlotView>,
    d1: nat,
    d2: nat,
    from: int,
)
    requires
        never_deepens::<P>(),
        forall|k: int| from <= k < v.len() ==> (#[trigger] v[k]).height() < d1 && v[k].height() < d2,
    ensures
        walk_slot_seq::<P>(ss, v, d1, from) == walk_slot_seq::<P>(ss, v, d2, from),
    decreases d1, v.len() - from + 3,
{
    if 0 <= from < v.len() {
        lemma_depth_slot_fn::<P>(ss, v[from], d1, d2);
        match walk_slot_fn::<P>(ss, v[from], d1) {
            Some((ss1, s)) => lemma_depth_slot_seq::<P>(ss1, v.update(from, s), d1, d2, from + 1),
            None => {},
        }
    }
}

} // verus!
