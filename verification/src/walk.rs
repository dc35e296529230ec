//! What one walk over the tree comes to, as a function of the passes and the
//! tree before it.
//!
//! At every node the enter hooks of all passes run first, first pass first;
//! then whatever the node holds is walked, in a fixed order; then the exit hooks
//! run, last pass first. Expressions are walked where they stand, with the same
//! passes, so that the whole is a single descent.
//!
//! Every function here takes the depth that is left. A walk that is handed a
//! depth greater than the height of its node never runs out of it, because
//! enter hooks do not deepen a node.

use crate::ir::{
    ForNodeView, IRNodeView, IRRootView, IfBranchView, IfNodeView, JsExprView, RenderSlotView,
    RuntimeDirView, SlotView, VNodeView, VSlotView,
};
use crate::pass::{enter_all, exit_all, CoreTransformPass, Target};
use vstd::prelude::*;

verus! {

impl Target {
    pub open spec fn js_or(self, e: JsExprView) -> JsExprView {
        match self {
            Target::JsExpr(x) => x,
            _ => e,
        }
    }

    pub open spec fn text_or(self, t: Seq<char>) -> Seq<char> {
        match self {
            Target::Text(x) => x,
            _ => t,
        }
    }

    pub open spec fn comment_or(self, c: Seq<char>) -> Seq<char> {
        match self {
            Target::Comment(x) => x,
            _ => c,
        }
    }

    pub open spec fn if_or(self, i: IfNodeView) -> IfNodeView {
        match self {
            Target::If(x) => x,
            _ => i,
        }
    }

    pub open spec fn for_or(self, f: ForNodeView) -> ForNodeView {
        match self {
            Target::For(x) => x,
            _ => f,
        }
    }

    pub open spec fn vnode_or(self, v: VNodeView) -> VNodeView {
        match self {
            Target::VNode(x) => x,
            _ => v,
        }
    }

    pub open spec fn slot_outlet_or(self, r: RenderSlotView) -> RenderSlotView {
        match self {
            Target::SlotOutlet(x) => x,
            _ => r,
        }
    }

    pub open spec fn v_slot_or(self, s: VSlotView) -> VSlotView {
        match self {
            Target::VSlot(x) => x,
            _ => s,
        }
    }

    pub open spec fn slot_fn_or(self, s: SlotView) -> SlotView {
        match self {
            Target::SlotFn(x) => x,
            _ => s,
        }
    }

    pub open spec fn root_or(self, r: IRRootView) -> IRRootView {
        match self {
            Target::Root(x) => x,
            _ => r,
        }
    }
}

// ---------------------------------------------------------------------------
// Expressions
// ---------------------------------------------------------------------------

/// The walk of one expression: enter hooks, then the expressions it holds (the
/// arguments of a call, the parts of a compound, the items of an array, each
/// key and then its value of an object literal), then exit hooks. A leaf gets
/// its hooks and nothing else.
pub open spec fn walk_js<P: CoreTransformPass>(ss: Seq<P::V>, e: JsExprView, depth: nat) -> (
    Seq<P::V>,
    JsExprView,
)
    decreases depth, 0int,
{
    if depth == 0 {
        (ss, e)
    } else {
        let (ss1, t1) = enter_all::<P>(ss, Target::JsExpr(e));
        let e1 = t1.js_or(e);
        let (ss2, e2) = match e1 {
            JsExprView::Call(h, v) => {
                let (s, w) = walk_js_seq::<P>(ss1, v, (depth - 1) as nat, 0);
                (s, JsExprView::Call(h, w))
            },
            JsExprView::Compound(v) => {
                let (s, w) = walk_js_seq::<P>(ss1, v, (depth - 1) as nat, 0);
                (s, JsExprView::Compound(w))
            },
            JsExprView::Array(v) => {
                let (s, w) = walk_js_seq::<P>(ss1, v, (depth - 1) as nat, 0);
                (s, JsExprView::Array(w))
            },
            JsExprView::Props(v) => {
                let (s, w) = walk_pair_seq::<P>(ss1, v, (depth - 1) as nat, 0);
                (s, JsExprView::Props(w))
            },
            _ => (ss1, e1),
        };
        let (ss3, t3) = exit_all::<P>(ss2, Target::JsExpr(e2));
        (ss3, t3.js_or(e2))
    }
}

/// The walk of the expressions of `v` from index `from` on, in order.
pub open spec fn walk_js_seq<P: CoreTransformPass>(
    ss: Seq<P::V>,
    v: Seq<JsExprView>,
    depth: nat,
    from: int,
) -> (Seq<P::V>, Seq<JsExprView>)
    decreases depth, v.len() - from + 1,
{
    if 0 <= from < v.len() {
        let (ss1, e) = walk_js::<P>(ss, v[from], depth);
        walk_js_seq::<P>(ss1, v.update(from, e), depth, from + 1)
    } else {
        (ss, v)
    }
}

/// The walk of the pairs of `v` from index `from` on: of each pair the key,
/// then the value.
pub open spec fn walk_pair_seq<P: CoreTransformPass>(
    ss: Seq<P::V>,
    v: Seq<(JsExprView, JsExprView)>,
    depth: nat,
    from: int,
) -> (Seq<P::V>, Seq<(JsExprView, JsExprView)>)
    decreases depth, v.len() - from + 1,
{
    if 0 <= from < v.len() {
        let (ss1, key) = walk_js::<P>(ss, v[from].0, depth);
        let (ss2, value) = walk_js::<P>(ss1, v[from].1, depth);
        walk_pair_seq::<P>(ss2, v.update(from, (key, value)), depth, from + 1)
    } else {
        (ss, v)
    }
}

/// The walk of an expression that may be absent.
pub open spec fn walk_opt_js<P: CoreTransformPass>(ss: Seq<P::V>, o: Option<JsExprView>, depth: nat) -> (
    Seq<P::V>,
    Option<JsExprView>,
) {
    match o {
        Some(e) => {
            let (ss1, e1) = walk_js::<P>(ss, e, depth);
            (ss1, Some(e1))
        },
        None => (ss, None),
    }
}

/// The walk of a runtime directive: its name, then its expression, its
/// argument and its modifiers, where it has them. A directive has no hooks of
/// its own.
pub open spec fn walk_dir<P: CoreTransformPass>(ss: Seq<P::V>, d: RuntimeDirView, depth: nat) -> (
    Seq<P::V>,
    RuntimeDirView,
) {
    let (ss1, name) = walk_js::<P>(ss, d.name, depth);
    let (ss2, expr) = walk_opt_js::<P>(ss1, d.expr, depth);
    let (ss3, arg) = walk_opt_js::<P>(ss2, d.arg, depth);
    let (ss4, mods) = walk_opt_js::<P>(ss3, d.mods, depth);
    (ss4, RuntimeDirView { name, expr, arg, mods })
}

pub open spec fn walk_dir_seq<P: CoreTransformPass>(
    ss: Seq<P::V>,
    v: Seq<RuntimeDirView>,
    depth: nat,
    from: int,
) -> (Seq<P::V>, Seq<RuntimeDirView>)
    decreases v.len() - from,
{
    if 0 <= from < v.len() {
        let (ss1, d) = walk_dir::<P>(ss, v[from], depth);
        walk_dir_seq::<P>(ss1, v.update(from, d), depth, from + 1)
    } else {
        (ss, v)
    }
}

// ---------------------------------------------------------------------------
// Nodes
// ---------------------------------------------------------------------------

impl IfNodeView {
    /// A conditional has a branch, and only its last branch may lack a
    /// condition.
    pub open spec fn well_formed(self) -> bool {
        &&& self.branches.len() > 0
        &&& forall|i: int| 0 <= i < self.branches.len() - 1 ==> (#[trigger] self.branches[i]).condition is Some
    }
}

pub open spec fn walk_text<P: CoreTransformPass>(ss: Seq<P::V>, t: Seq<char>) -> (Seq<P::V>, Seq<char>) {
    let (ss1, t1) = enter_all::<P>(ss, Target::Text(t));
    let (ss2, t2) = exit_all::<P>(ss1, t1);
    (ss2, t2.text_or(t))
}

pub open spec fn walk_comment<P: CoreTransformPass>(ss: Seq<P::V>, c: Seq<char>) -> (Seq<P::V>, Seq<char>) {
    let (ss1, t1) = enter_all::<P>(ss, Target::Comment(c));
    let (ss2, t2) = exit_all::<P>(ss1, t1);
    (ss2, t2.comment_or(c))
}

/// The walk of one node, by its kind. `None` where the walk meets a
/// conditional that is not well formed.
pub open spec fn walk_ir<P: CoreTransformPass>(ss: Seq<P::V>, n: IRNodeView, depth: nat) -> Option<
    (Seq<P::V>, IRNodeView),
>
    decreases depth, 1int,
{
    match n {
        IRNodeView::TextCall(t) => {
            let (s, t1) = walk_text::<P>(ss, t);
            Some((s, IRNodeView::TextCall(t1)))
        },
        IRNodeView::If(i) => match walk_if::<P>(ss, i, depth) {
            Some((s, x)) => Some((s, IRNodeView::If(x))),
            None => None,
        },
        IRNodeView::For(f) => match walk_for::<P>(ss, f, depth) {
            Some((s, x)) => Some((s, IRNodeView::For(x))),
            None => None,
        },
        IRNodeView::VNodeCall(v) => match walk_vnode::<P>(ss, v, depth) {
            Some((s, x)) => Some((s, IRNodeView::VNodeCall(x))),
            None => None,
        },
        IRNodeView::RenderSlotCall(r) => match walk_slot_outlet::<P>(ss, r, depth) {
            Some((s, x)) => Some((s, IRNodeView::RenderSlotCall(x))),
            None => None,
        },
        IRNodeView::CommentCall(c) => {
            let (s, c1) = walk_comment::<P>(ss, c);
            Some((s, IRNodeView::CommentCall(c1)))
        },
        IRNodeView::VSlotUse(v) => match walk_v_slot::<P>(ss, v, depth) {
            Some((s, x)) => Some((s, IRNodeView::VSlotUse(x))),
            None => None,
        },
        IRNodeView::AlterableSlot(a) => match walk_slot_fn::<P>(ss, a, depth) {
            Some((s, x)) => Some((s, IRNodeView::AlterableSlot(x))),
            None => None,
        },
    }
}

/// The walk of the nodes of `v` from index `from` on, in order.
pub open spec fn walk_ir_seq<P: CoreTransformPass>(
    ss: Seq<P::V>,
    v: Seq<IRNodeView>,
    depth: nat,
    from: int,
) -> Option<(Seq<P::V>, Seq<IRNodeView>)>
    decreases depth, v.len() - from + 3,
{
    if 0 <= from < v.len() {
        match walk_ir::<P>(ss, v[from], depth) {
            Some((ss1, n)) => walk_ir_seq::<P>(ss1, v.update(from, n), depth, from + 1),
            None => None,
        }
    } else {
        Some((ss, v))
    }
}

/// The walk of a conditional: of each branch, in order, the condition where
/// there is one, then the child.
pub open spec fn walk_if<P: CoreTransformPass>(ss: Seq<P::V>, i: IfNodeView, depth: nat) -> Option<
    (Seq<P::V>, IfNodeView),
>
    decreases depth, 0int,
{
    if !i.well_formed() {
        None
    } else if depth == 0 {
        Some((ss, i))
    } else {
        let (ss1, t1) = enter_all::<P>(ss, Target::If(i));
        let i1 = t1.if_or(i);
        match walk_branch_seq::<P>(ss1, i1.branches, (depth - 1) as nat, 0) {
            Some((ss2, branches)) => {
                let i2 = IfNodeView { branches };
                let (ss3, t3) = exit_all::<P>(ss2, Target::If(i2));
                Some((ss3, t3.if_or(i2)))
            },
            None => None,
        }
    }
}

/// The walk of one branch: its condition where there is one, then its child.
pub open spec fn walk_branch<P: CoreTransformPass>(ss: Seq<P::V>, b: IfBranchView, depth: nat) -> Option<
    (Seq<P::V>, IfBranchView),
>
    decreases depth, 2int,
{
    let (ss1, condition) = walk_opt_js::<P>(ss, b.condition, depth);
    match walk_ir::<P>(ss1, b.child, depth) {
        Some((ss2, child)) => Some((ss2, IfBranchView { condition, child })),
        None => None,
    }
}

pub open spec fn walk_branch_seq<P: CoreTransformPass>(
    ss: Seq<P::V>,
    v: Seq<IfBranchView>,
    depth: nat,
    from: int,
) -> Option<(Seq<P::V>, Seq<IfBranchView>)>
    decreases depth, v.len() - from + 3,
{
    if 0 <= from < v.len() {
        match walk_branch::<P>(ss, v[from], depth) {
            Some((ss1, b)) => walk_branch_seq::<P>(ss1, v.update(from, b), depth, from + 1),
            None => None,
        }
    } else {
        Some((ss, v))
    }
}

/// The walk of a loop: its source, then its child.
pub open spec fn walk_for<P: CoreTransformPass>(ss: Seq<P::V>, f: ForNodeView, depth: nat) -> Option<
    (Seq<P::V>, ForNodeView),
>
    decreases depth, 0int,
{
    if depth == 0 {
        Some((ss, f))
    } else {
        let (ss1, t1) = enter_all::<P>(ss, Target::For(f));
        let f1 = t1.for_or(f);
        let (ss2, source) = walk_js::<P>(ss1, f1.source, (depth - 1) as nat);
        match walk_ir::<P>(ss2, *f1.child, (depth - 1) as nat) {
            Some((ss3, child)) => {
                let f2 = ForNodeView {
                    source,
                    value: f1.value,
                    key: f1.key,
                    index: f1.index,
                    child: Box::new(child),
                };
                let (ss4, t4) = exit_all::<P>(ss3, Target::For(f2));
                Some((ss4, t4.for_or(f2)))
            },
            None => None,
        }
    }
}

/// The walk of an element: its tag, its properties, its children, then its
/// runtime directives.
pub open spec fn walk_vnode<P: CoreTransformPass>(ss: Seq<P::V>, v: VNodeView, depth: nat) -> Option<
    (Seq<P::V>, VNodeView),
>
    decreases depth, 0int,
{
    if depth == 0 {
        Some((ss, v))
    } else {
        let (ss1, t1) = enter_all::<P>(ss, Target::VNode(v));
        let v1 = t1.vnode_or(v);
        let (ss2, tag) = walk_js::<P>(ss1, v1.tag, (depth - 1) as nat);
        let (ss3, props) = walk_opt_js::<P>(ss2, v1.props, (depth - 1) as nat);
        match walk_ir_seq::<P>(ss3, v1.children, (depth - 1) as nat, 0) {
            Some((ss4, children)) => {
                let (ss5, directives) = walk_dir_seq::<P>(ss4, v1.directives, (depth - 1) as nat, 0);
                let v2 = VNodeView { tag, props, children, directives };
                let (ss6, t6) = exit_all::<P>(ss5, Target::VNode(v2));
                Some((ss6, t6.vnode_or(v2)))
            },
            None => None,
        }
    }
}

/// The walk of a slot outlet: its name, its properties, then its fallback
/// nodes.
pub open spec fn walk_slot_outlet<P: CoreTransformPass>(
    ss: Seq<P::V>,
    r: RenderSlotView,
    depth: nat,
) -> Option<(Seq<P::V>, RenderSlotView)>
    decreases depth, 0int,
{
    if depth == 0 {
        Some((ss, r))
    } else {
        let (ss1, t1) = enter_all::<P>(ss, Target::SlotOutlet(r));
        let r1 = t1.slot_outlet_or(r);
        let (ss2, slot_name) = walk_js::<P>(ss1, r1.slot_name, (depth - 1) as nat);
        let (ss3, slot_props) = walk_opt_js::<P>(ss2, r1.slot_props, (depth - 1) as nat);
        match walk_ir_seq::<P>(ss3, r1.fallbacks, (depth - 1) as nat, 0) {
            Some((ss4, fallbacks)) => {
                let r2 = RenderSlotView { slot_name, slot_props, fallbacks };
                let (ss5, t5) = exit_all::<P>(ss4, Target::SlotOutlet(r2));
                Some((ss5, t5.slot_outlet_or(r2)))
            },
            None => None,
        }
    }
}

/// The walk of the slots handed to a component: the stable slots, then the
/// alterable ones.
pub open spec fn walk_v_slot<P: CoreTransformPass>(ss: Seq<P::V>, s: VSlotView, depth: nat) -> Option<
    (Seq<P::V>, VSlotView),
>
    decreases depth, 0int,
{
    if depth == 0 {
        Some((ss, s))
    } else {
        let (ss1, t1) = enter_all::<P>(ss, Target::VSlot(s));
        let s1 = t1.v_slot_or(s);
        match walk_slot_seq::<P>(ss1, s1.stable_slots, (depth - 1) as nat, 0) {
            Some((ss2, stable_slots)) => match walk_ir_seq::<P>(
                ss2,
                s1.alterable_slots,
                (depth - 1) as nat,
                0,
            ) {
                Some((ss3, alterable_slots)) => {
                    let s2 = VSlotView { stable_slots, alterable_slots };
                    let (ss4, t4) = exit_all::<P>(ss3, Target::VSlot(s2));
                    Some((ss4, t4.v_slot_or(s2)))
                },
                None => None,
            },
            None => None,
        }
    }
}

/// The walk of one slot: its name, then its body.
pub open spec fn walk_slot_fn<P: CoreTransformPass>(ss: Seq<P::V>, s: SlotView, depth: nat) -> Option<
    (Seq<P::V>, SlotView),
>
    decreases depth, 0int,
{
    if depth == 0 {
        Some((ss, s))
    } else {
        let (ss1, t1) = enter_all::<P>(ss, Target::SlotFn(s));
        let s1 = t1.slot_fn_or(s);
        let (ss2, name) = walk_js::<P>(ss1, s1.name, (depth - 1) as nat);
        match walk_ir_seq::<P>(ss2, s1.body, (depth - 1) as nat, 0) {
            Some((ss3, body)) => {
                let s2 = SlotView { name, body };
                let (ss4, t4) = exit_all::<P>(ss3, Target::SlotFn(s2));
                Some((ss4, t4.slot_fn_or(s2)))
            },
            None => None,
        }
    }
}

pub open spec fn walk_slot_seq<P: CoreTransformPass>(
    ss: Seq<P::V>,
    v: Seq<SlotView>,
    depth: nat,
    from: int,
) -> Option<(Seq<P::V>, Seq<SlotView>)>
    decreases depth, v.len() - from + 3,
{
    if 0 <= from < v.len() {
        match walk_slot_fn::<P>(ss, v[from], depth) {
            Some((ss1, s)) => walk_slot_seq::<P>(ss1, v.update(from, s), depth, from + 1),
            None => None,
        }
    } else {
        Some((ss, v))
    }
}

/// The walk of a whole tree: the root's enter hooks, the nodes of its body in
/// order, the root's exit hooks.
pub open spec fn walk_root<P: CoreTransformPass>(ss: Seq<P::V>, r: IRRootView) -> Option<
    (Seq<P::V>, IRRootView),
> {
    let (ss1, t1) = enter_all::<P>(ss, Target::Root(r));
    let r1 = t1.root_or(r);
    match walk_ir_seq::<P>(ss1, r1.body, r.height(), 0) {
        Some((ss2, body)) => {
            let r2 = IRRootView { body };
            let (ss3, t3) = exit_all::<P>(ss2, Target::Root(r2));
            Some((ss3, t3.root_or(r2)))
        },
        None => None,
    }
}

// ---------------------------------------------------------------------------
// Trees on which no walk fails
// ---------------------------------------------------------------------------

/// Every conditional in and below the node is well formed.
pub open spec fn ir_valid(n: IRNodeView) -> bool
    decreases n,
{
    match n {
        IRNodeView::TextCall(_) => true,
        IRNodeView::If(i) => i.well_formed() && branch_seq_valid(i.branches),
        IRNodeView::For(f) => ir_valid(*f.child),
        IRNodeView::VNodeCall(v) => ir_seq_valid(v.children),
        IRNodeView::RenderSlotCall(r) => ir_seq_valid(r.fallbacks),
        IRNodeView::CommentCall(_) => true,
        IRNodeView::VSlotUse(s) => slot_seq_valid(s.stable_slots) && ir_seq_valid(s.alterable_slots),
        IRNodeView::AlterableSlot(s) => ir_seq_valid(s.body),
    }
}

pub open spec fn ir_seq_valid(v: Seq<IRNodeView>) -> bool
    decreases v,
{
    forall|i: int| 0 <= i < v.len() ==> ir_valid(#[trigger] v[i])
}

pub open spec fn branch_seq_valid(v: Seq<IfBranchView>) -> bool
    decreases v,
{
    forall|i: int| 0 <= i < v.len() ==> ir_valid((#[trigger] v[i]).child)
}

pub open spec fn slot_seq_valid(v: Seq<SlotView>) -> bool
    decreases v,
{
    forall|i: int| 0 <= i < v.len() ==> ir_seq_valid((#[trigger] v[i]).body)
}

impl IRRootView {
    /// Every conditional in the tree is well formed.
    pub open spec fn valid(self) -> bool {
        ir_seq_valid(self.body)
    }
}

} // verus!
