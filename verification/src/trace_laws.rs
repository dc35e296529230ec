//! What recording passes record: the hooks of one walk, in the order in
//! which the engine calls them.

use crate::error::NodeKind;
use crate::ir::{
    lemma_branch_seq_bound, lemma_dir_seq_bound, lemma_ir_seq_bound, lemma_js_seq_bound,
    lemma_pair_seq_bound, lemma_slot_seq_bound, ForNodeView, IRNodeView, IRRootView, IfBranchView,
    IfNodeView, JsExprView, RenderSlotView, RuntimeDirView, SlotView, VNodeView, VSlotView,
};
use crate::pass::{enter_all, enter_from, exit_all, exit_until, CoreTransformPass, Phase, Target};
use crate::trace::{HookEvent, TracePass, TraceView};
use crate::walk::{
    branch_seq_valid, ir_seq_valid, ir_valid, slot_seq_valid, walk_branch, walk_branch_seq,
    walk_dir, walk_dir_seq, walk_for, walk_if, walk_ir, walk_ir_seq, walk_js, walk_js_seq,
    walk_opt_js, walk_pair_seq, walk_root, walk_slot_fn, walk_slot_outlet, walk_slot_seq, walk_v_slot,
    walk_vnode,
};
use vstd::prelude::*;

verus! {

// ---------------------------------------------------------------------------
// The hooks of a walk
// ---------------------------------------------------------------------------

pub open spec fn entered(kind: NodeKind) -> Seq<HookEvent> {
    seq![HookEvent { phase: Phase::Enter, kind }]
}

pub open spec fn exited(kind: NodeKind) -> Seq<HookEvent> {
    seq![HookEvent { phase: Phase::Exit, kind }]
}

/// The hooks that the walk of an expression calls on a pass: enter, then the
/// hooks of what the expression holds, in order, then exit.
pub open spec fn js_trace(e: JsExprView) -> Seq<HookEvent>
    decreases e,
{
    entered(NodeKind::JsExpr) + (match e {
        JsExprView::Call(_, v) => js_seq_trace(v),
        JsExprView::Compound(v) => js_seq_trace(v),
        JsExprView::Array(v) => js_seq_trace(v),
        JsExprView::Props(v) => pair_seq_trace(v),
        _ => Seq::empty(),
    }) + exited(NodeKind::JsExpr)
}

pub open spec fn js_seq_trace(v: Seq<JsExprView>) -> Seq<HookEvent>
    decreases v,
{
    if v.len() == 0 {
        Seq::empty()
    } else {
        js_trace(v[0]) + js_seq_trace(v.skip(1))
    }
}

pub open spec fn pair_seq_trace(v: Seq<(JsExprView, JsExprView)>) -> Seq<HookEvent>
    decreases v,
{
    if v.len() == 0 {
        Seq::empty()
    } else {
        js_trace(v[0].0) + js_trace(v[0].1) + pair_seq_trace(v.skip(1))
    }
}

pub open spec fn opt_js_trace(o: Option<JsExprView>) -> Seq<HookEvent> {
    match o {
        Some(e) => js_trace(e),
        None => Seq::empty(),
    }
}

pub open spec fn dir_trace(d: RuntimeDirView) -> Seq<HookEvent> {
    js_trace(d.name) + opt_js_trace(d.expr) + opt_js_trace(d.arg) + opt_js_trace(d.mods)
}

pub open spec fn dir_seq_trace(v: Seq<RuntimeDirView>) -> Seq<HookEvent>
    decreases v.len(),
{
    if v.len() == 0 {
        Seq::empty()
    } else {
        dir_trace(v[0]) + dir_seq_trace(v.skip(1))
    }
}

/// The hooks that the walk of a node calls on a pass: the node's enter hook,
/// the hooks of every thing below it in the order in which the node is
/// walked, the node's exit hook.
pub open spec fn ir_trace(n: IRNodeView) -> Seq<HookEvent>
    decreases n,
{
    match n {
        IRNodeView::TextCall(_) => entered(NodeKind::Text) + exited(NodeKind::Text),
        IRNodeView::If(i) => entered(NodeKind::If) + branch_seq_trace(i.branches) + exited(NodeKind::If),
        IRNodeView::For(f) => entered(NodeKind::For) + js_trace(f.source) + ir_trace(*f.child) + exited(
            NodeKind::For,
        ),
        IRNodeView::VNodeCall(v) => entered(NodeKind::VNode) + js_trace(v.tag) + opt_js_trace(v.props)
            + ir_seq_trace(v.children) + dir_seq_trace(v.directives) + exited(NodeKind::VNode),
        IRNodeView::RenderSlotCall(r) => entered(NodeKind::SlotOutlet) + js_trace(r.slot_name)
            + opt_js_trace(r.slot_props) + ir_seq_trace(r.fallbacks) + exited(NodeKind::SlotOutlet),
        IRNodeView::CommentCall(_) => entered(NodeKind::Comment) + exited(NodeKind::Comment),
        IRNodeView::VSlotUse(s) => entered(NodeKind::VSlot) + slot_seq_trace(s.stable_slots) + ir_seq_trace(
            s.alterable_slots,
        ) + exited(NodeKind::VSlot),
        IRNodeView::AlterableSlot(s) => slot_trace(s),
    }
}

pub open spec fn ir_seq_trace(v: Seq<IRNodeView>) -> Seq<HookEvent>
    decreases v,
{
    if v.len() == 0 {
        Seq::empty()
    } else {
        ir_trace(v[0]) + ir_seq_trace(v.skip(1))
    }
}

pub open spec fn branch_trace(b: IfBranchView) -> Seq<HookEvent>
    decreases b,
{
    opt_js_trace(b.condition) + ir_trace(b.child)
}

pub open spec fn branch_seq_trace(v: Seq<IfBranchView>) -> Seq<HookEvent>
    decreases v,
{
    if v.len() == 0 {
        Seq::empty()
    } else {
        branch_trace(v[0]) + branch_seq_trace(v.skip(1))
    }
}

pub open spec fn slot_trace(s: SlotView) -> Seq<HookEvent>
    decreases s,
{
    entered(NodeKind::SlotFn) + js_trace(s.name) + ir_seq_trace(s.body) + exited(NodeKind::SlotFn)
}

pub open spec fn slot_seq_trace(v: Seq<SlotView>) -> Seq<HookEvent>
    decreases v,
{
    if v.len() == 0 {
        Seq::empty()
    } else {
        slot_trace(v[0]) + slot_seq_trace(v.skip(1))
    }
}

pub open spec fn root_trace(r: IRRootView) -> Seq<HookEvent> {
    entered(NodeKind::Root) + ir_seq_trace(r.body) + exited(NodeKind::Root)
}

// ---------------------------------------------------------------------------
// What recording passes leave behind
// ---------------------------------------------------------------------------

/// The marks of a list of recording passes, first pass first.
pub open spec fn marks(ss: Seq<TraceView>) -> Seq<char> {
    Seq::new(ss.len(), |i: int| ss[i].mark)
}

/// The marks first to last, as the enter hooks write them, and then last to
/// first, as the exit hooks do.
pub open spec fn there_and_back(ss: Seq<TraceView>) -> Seq<char> {
    marks(ss) + marks(ss).reverse()
}

/// The passes of `ss` with `events` at the end of the log of each pass from
/// index `from` up to, and not including, index `until`.
pub open spec fn logged_between(ss: Seq<TraceView>, events: Seq<HookEvent>, from: int, until: int) -> Seq<
    TraceView,
> {
    Seq::new(
        ss.len(),
        |i: int|
            if from <= i < until {
                TraceView { mark: ss[i].mark, log: ss[i].log + events }
            } else {
                ss[i]
            },
    )
}

/// The passes of `ss` with `events` at the end of every log.
pub open spec fn logged(ss: Seq<TraceView>, events: Seq<HookEvent>) -> Seq<TraceView> {
    logged_between(ss, events, 0, ss.len() as int)
}

/// A text or a comment with `m` at its end; any other node as it is.
pub open spec fn signed(node: Target, m: Seq<char>) -> Target {
    match node {
        Target::Text(t) => Target::Text(t + m),
        Target::Comment(c) => Target::Comment(c + m),
        _ => node,
    }
}

/// The node with `m` at the end of every text and comment in and below it.
pub open spec fn stamped(n: IRNodeView, m: Seq<char>) -> IRNodeView
    decreases n,
{
    match n {
        IRNodeView::TextCall(t) => IRNodeView::TextCall(t + m),
        IRNodeView::If(i) => IRNodeView::If(IfNodeView { branches: stamped_branches(i.branches, m) }),
        IRNodeView::For(f) => IRNodeView::For(
            ForNodeView {
                source: f.source,
                value: f.value,
                key: f.key,
                index: f.index,
                child: Box::new(stamped(*f.child, m)),
            },
        ),
        IRNodeView::VNodeCall(v) => IRNodeView::VNodeCall(
            VNodeView {
                tag: v.tag,
                props: v.props,
                children: stamped_seq(v.children, m),
                directives: v.directives,
            },
        ),
        IRNodeView::RenderSlotCall(r) => IRNodeView::RenderSlotCall(
            RenderSlotView {
                slot_name: r.slot_name,
                slot_props: r.slot_props,
                fallbacks: stamped_seq(r.fallbacks, m),
            },
        ),
        IRNodeView::CommentCall(c) => IRNodeView::CommentCall(c + m),
        IRNodeView::VSlotUse(s) => IRNodeView::VSlotUse(
            VSlotView {
                stable_slots: stamped_slots(s.stable_slots, m),
                alterable_slots: stamped_seq(s.alterable_slots, m),
            },
        ),
        IRNodeView::AlterableSlot(s) => IRNodeView::AlterableSlot(stamped_slot(s, m)),
    }
}

pub open spec fn stamped_seq(v: Seq<IRNodeView>, m: Seq<char>) -> Seq<IRNodeView>
    decreases v,
{
    Seq::new(v.len(), |i: int| if 0 <= i < v.len() { stamped(v[i], m) } else { v[i] })
}

pub open spec fn stamped_branch(b: IfBranchView, m: Seq<char>) -> IfBranchView
    decreases b,
{
    IfBranchView { condition: b.condition, child: stamped(b.child, m) }
}

pub open spec fn stamped_branches(v: Seq<IfBranchView>, m: Seq<char>) -> Seq<IfBranchView>
    decreases v,
{
    Seq::new(v.len(), |i: int| if 0 <= i < v.len() { stamped_branch(v[i], m) } else { v[i] })
}

pub open spec fn stamped_slot(s: SlotView, m: Seq<char>) -> SlotView
    decreases s,
{
    SlotView { name: s.name, body: stamped_seq(s.body, m) }
}

pub open spec fn stamped_slots(v: Seq<SlotView>, m: Seq<char>) -> Seq<SlotView>
    decreases v,
{
    Seq::new(v.len(), |i: int| if 0 <= i < v.len() { stamped_slot(v[i], m) } else { v[i] })
}

// ---------------------------------------------------------------------------
// Hooks
// ---------------------------------------------------------------------------

proof fn lemma_logged(ss: Seq<TraceView>, a: Seq<HookEvent>, b: Seq<HookEvent>)
    ensures
        logged(logged(ss, a), b) == logged(ss, a + b),
        marks(logged(ss, a)) == marks(ss),
        there_and_back(logged(ss, a)) == there_and_back(ss),
        logged(ss, Seq::empty()) == ss,
        logged(ss, a).len() == ss.len(),
{
    assert forall|i: int| 0 <= i < ss.len() implies (#[trigger] logged(logged(ss, a), b)[i]) == logged(
        ss,
        a + b,
    )[i] by {
        assert((ss[i].log + a) + b =~= ss[i].log + (a + b));
    }
    assert(logged(logged(ss, a), b) =~= logged(ss, a + b));
    assert(marks(logged(ss, a)) =~= marks(ss));
    assert forall|i: int| 0 <= i < ss.len() implies (#[trigger] logged(ss, Seq::empty())[i]) == ss[i] by {
        assert(ss[i].log + Seq::<HookEvent>::empty() =~= ss[i].log);
    }
    assert(logged(ss, Seq::empty()) =~= ss);
}

proof fn lemma_signed(node: Target, a: Seq<char>, b: Seq<char>)
    ensures
        signed(signed(node, a), b) == signed(node, a + b),
        signed(node, Seq::empty()) == node,
        signed(node, a).kind() == node.kind(),
{
    match node {
        Target::Text(t) => {
            assert((t + a) + b =~= t + (a + b));
            assert(t + Seq::<char>::empty() =~= t);
        },
        Target::Comment(c) => {
            assert((c + a) + b =~= c + (a + b));
            assert(c + Seq::<char>::empty() =~= c);
        },
        _ => {},
    }
}

proof fn lemma_entered_from(ss: Seq<TraceView>, node: Target, from: int)
    requires
        0 <= from <= ss.len(),
    ensures
        enter_from::<TracePass>(ss, node, from) == (
            logged_between(ss, entered(node.kind()), from, ss.len() as int),
            signed(node, marks(ss).skip(from)),
        ),
    decreases ss.len() - from,
{
    let event = entered(node.kind());
    if from < ss.len() {
        let (s, out) = TracePass::on_hook(ss[from], Phase::Enter, node);
        let next = ss.update(from, s);
        let mark = seq![ss[from].mark];
        assert(out == signed(node, mark)) by {
            match node {
                Target::Text(t) => assert(t.push(ss[from].mark) =~= t + mark),
                Target::Comment(c) => assert(c.push(ss[from].mark) =~= c + mark),
                _ => {},
            }
        }
        lemma_signed(node, mark, marks(next).skip(from + 1));
        lemma_entered_from(next, out, from + 1);
        assert(s.log =~= ss[from].log + event);
        assert(logged_between(next, event, from + 1, ss.len() as int) =~= logged_between(
            ss,
            event,
            from,
            ss.len() as int,
        ));
        assert(marks(next) =~= marks(ss));
        assert(mark + marks(ss).skip(from + 1) =~= marks(ss).skip(from));
    } else {
        assert(logged_between(ss, event, from, ss.len() as int) =~= ss);
        assert(marks(ss).skip(from) =~= Seq::<char>::empty());
        lemma_signed(node, Seq::empty(), Seq::empty());
    }
}

proof fn lemma_exited_until(ss: Seq<TraceView>, node: Target, until: int)
    requires
        0 <= until <= ss.len(),
    ensures
        exit_until::<TracePass>(ss, node, until) == (
            logged_between(ss, exited(node.kind()), 0, until),
            signed(node, marks(ss).take(until).reverse()),
        ),
    decreases until,
{
    let event = exited(node.kind());
    if until > 0 {
        let (s, out) = TracePass::on_hook(ss[until - 1], Phase::Exit, node);
        let next = ss.update(until - 1, s);
        let mark = seq![ss[until - 1].mark];
        assert(out == signed(node, mark)) by {
            match node {
                Target::Text(t) => assert(t.push(ss[until - 1].mark) =~= t + mark),
                Target::Comment(c) => assert(c.push(ss[until - 1].mark) =~= c + mark),
                _ => {},
            }
        }
        lemma_signed(node, mark, marks(next).take(until - 1).reverse());
        lemma_exited_until(next, out, until - 1);
        assert(s.log =~= ss[until - 1].log + event);
        assert(logged_between(next, event, 0, until - 1) =~= logged_between(ss, event, 0, until));
        assert(marks(next) =~= marks(ss));
        assert(mark + marks(ss).take(until - 1).reverse() =~= marks(ss).take(until).reverse());
    } else {
        assert(logged_between(ss, event, 0, until) =~= ss);
        assert(marks(ss).take(until).reverse() =~= Seq::<char>::empty());
        lemma_signed(node, Seq::empty(), Seq::empty());
    }
}

/// What the hooks of recording passes make of one node: every pass records
/// the hook; a text or a comment gains the marks first to last on entering
/// and last to first on leaving; any other node stays as it is.
pub proof fn lemma_hooks_recorded(ss: Seq<TraceView>, node: Target)
    ensures
        enter_all::<TracePass>(ss, node) == (logged(ss, entered(node.kind())), signed(node, marks(ss))),
        exit_all::<TracePass>(ss, node) == (
            logged(ss, exited(node.kind())),
            signed(node, marks(ss).reverse()),
        ),
{
    lemma_entered_from(ss, node, 0);
    lemma_exited_until(ss, node, ss.len() as int);
    assert(marks(ss).skip(0) =~= marks(ss));
    assert(marks(ss).take(ss.len() as int) =~= marks(ss));
}

// ---------------------------------------------------------------------------
// Expressions
// ---------------------------------------------------------------------------

proof fn lemma_recorded_js(ss: Seq<TraceView>, e: JsExprView, depth: nat)
    requires
        e.height() < depth,
    ensures
        walk_js::<TracePass>(ss, e, depth) == (logged(ss, js_trace(e)), e),
    decreases depth, 0int,
{
    let enter = entered(NodeKind::JsExpr);
    let exit = exited(NodeKind::JsExpr);
    let ss1 = logged(ss, enter);
    lemma_hooks_recorded(ss, Target::JsExpr(e));
    let ss2 = match e {
        JsExprView::Call(_, v) => logged(ss1, js_seq_trace(v)),
        JsExprView::Compound(v) => logged(ss1, js_seq_trace(v)),
        JsExprView::Array(v) => logged(ss1, js_seq_trace(v)),
        JsExprView::Props(v) => logged(ss1, pair_seq_trace(v)),
        _ => ss1,
    };
    match e {
        JsExprView::Call(_, v) => {
            lemma_js_seq_bound(v);
            lemma_recorded_js_seq(ss1, v, (depth - 1) as nat, 0);
            assert(v.skip(0) =~= v);
            lemma_logged(ss, enter, js_seq_trace(v));
            lemma_logged(ss, enter + js_seq_trace(v), exit);
        },
        JsExprView::Compound(v) => {
            lemma_js_seq_bound(v);
            lemma_recorded_js_seq(ss1, v, (depth - 1) as nat, 0);
            assert(v.skip(0) =~= v);
            lemma_logged(ss, enter, js_seq_trace(v));
            lemma_logged(ss, enter + js_seq_trace(v), exit);
        },
        JsExprView::Array(v) => {
            lemma_js_seq_bound(v);
            lemma_recorded_js_seq(ss1, v, (depth - 1) as nat, 0);
            assert(v.skip(0) =~= v);
            lemma_logged(ss, enter, js_seq_trace(v));
            lemma_logged(ss, enter + js_seq_trace(v), exit);
        },
        JsExprView::Props(v) => {
            lemma_pair_seq_bound(v);
            lemma_recorded_pair_seq(ss1, v, (depth - 1) as nat, 0);
            assert(v.skip(0) =~= v);
            lemma_logged(ss, enter, pair_seq_trace(v));
            lemma_logged(ss, enter + pair_seq_trace(v), exit);
        },
        _ => {
            assert(enter + Seq::<HookEvent>::empty() =~= enter);
            lemma_logged(ss, enter, exit);
        },
    }
    lemma_hooks_recorded(ss2, Target::JsExpr(e));
}

proof fn lemma_recorded_js_seq(ss: Seq<TraceView>, v: Seq<JsExprView>, depth: nat, from: int)
    requires
        0 <= from <= v.len(),
        forall|k: int| from <= k < v.len() ==> (#[trigger] v[k]).height() < depth,
    ensures
        walk_js_seq::<TracePass>(ss, v, depth, from) == (logged(ss, js_seq_trace(v.skip(from))), v),
    decreases depth, v.len() - from + 1,
{
    if from < v.len() {
        lemma_recorded_js(ss, v[from], depth);
        assert(v.update(from, v[from]) =~= v);
        lemma_recorded_js_seq(logged(ss, js_trace(v[from])), v, depth, from + 1);
        assert(v.skip(from).skip(1) =~= v.skip(from + 1));
        lemma_logged(ss, js_trace(v[from]), js_seq_trace(v.skip(from + 1)));
    } else {
        assert(v.skip(from) =~= Seq::<JsExprView>::empty());
        lemma_logged(ss, Seq::empty(), Seq::empty());
    }
}

proof fn lemma_recorded_pair_seq(ss: Seq<TraceView>, v: Seq<(JsExprView, JsExprView)>, depth: nat, from: int)
    requires
        0 <= from <= v.len(),
        forall|k: int|
            from <= k < v.len() ==> (#[trigger] v[k]).0.height() < depth && v[k].1.height() < depth,
    ensures
        walk_pair_seq::<TracePass>(ss, v, depth, from) == (logged(ss, pair_seq_trace(v.skip(from))), v),
    decreases depth, v.len() - from + 1,
{
    if from < v.len() {
        let key = js_trace(v[from].0);
        let value = js_trace(v[from].1);
        lemma_recorded_js(ss, v[from].0, depth);
        lemma_recorded_js(logged(ss, key), v[from].1, depth);
        lemma_logged(ss, key, value);
        assert(v.update(from, (v[from].0, v[from].1)) =~= v);
        lemma_recorded_pair_seq(logged(ss, key + value), v, depth, from + 1);
        assert(v.skip(from).skip(1) =~= v.skip(from + 1));
        lemma_logged(ss, key + value, pair_seq_trace(v.skip(from + 1)));
    } else {
        assert(v.skip(from) =~= Seq::<(JsExprView, JsExprView)>::empty());
        lemma_logged(ss, Seq::empty(), Seq::empty());
    }
}

proof fn lemma_recorded_opt_js(ss: Seq<TraceView>, o: Option<JsExprView>, depth: nat)
    requires
        crate::ir::opt_js_height(o) < depth,
    ensures
        walk_opt_js::<TracePass>(ss, o, depth) == (logged(ss, opt_js_trace(o)), o),
{
    match o {
        Some(e) => lemma_recorded_js(ss, e, depth),
        None => lemma_logged(ss, Seq::empty(), Seq::empty()),
    }
}

proof fn lemma_recorded_dir(ss: Seq<TraceView>, d: RuntimeDirView, depth: nat)
    requires
        d.height() < depth,
    ensures
        walk_dir::<TracePass>(ss, d, depth) == (logged(ss, dir_trace(d)), d),
{
    let a = js_trace(d.name);
    let b = opt_js_trace(d.expr);
    let c = opt_js_trace(d.arg);
    let e = opt_js_trace(d.mods);
    lemma_recorded_js(ss, d.name, depth);
    lemma_recorded_opt_js(logged(ss, a), d.expr, depth);
    lemma_logged(ss, a, b);
    lemma_recorded_opt_js(logged(ss, a + b), d.arg, depth);
    lemma_logged(ss, a + b, c);
    lemma_recorded_opt_js(logged(ss, a + b + c), d.mods, depth);
    lemma_logged(ss, a + b + c, e);
}

proof fn lemma_recorded_dir_seq(ss: Seq<TraceView>, v: Seq<RuntimeDirView>, depth: nat, from: int)
    requires
        0 <= from <= v.len(),
        forall|k: int| from <= k < v.len() ==> (#[trigger] v[k]).height() < depth,
    ensures
        walk_dir_seq::<TracePass>(ss, v, depth, from) == (logged(ss, dir_seq_trace(v.skip(from))), v),
    decreases v.len() - from,
{
    if from < v.len() {
        lemma_recorded_dir(ss, v[from], depth);
        assert(v.update(from, v[from]) =~= v);
        lemma_recorded_dir_seq(logged(ss, dir_trace(v[from])), v, depth, from + 1);
        assert(v.skip(from).skip(1) =~= v.skip(from + 1));
        lemma_logged(ss, dir_trace(v[from]), dir_seq_trace(v.skip(from + 1)));
    } else {
        assert(v.skip(from) =~= Seq::<RuntimeDirView>::empty());
        lemma_logged(ss, Seq::empty(), Seq::empty());
    }
}

// ---------------------------------------------------------------------------
// Nodes
// ---------------------------------------------------------------------------

/// `v` with every node from index `from` on stamped.
pub open spec fn stamped_seq_from(v: Seq<IRNodeView>, m: Seq<char>, from: int) -> Seq<IRNodeView> {
    Seq::new(v.len(), |i: int| if from <= i < v.len() { stamped(v[i], m) } else { v[i] })
}

pub open spec fn stamped_branches_from(v: Seq<IfBranchView>, m: Seq<char>, from: int) -> Seq<IfBranchView> {
    Seq::new(v.len(), |i: int| if from <= i < v.len() { stamped_branch(v[i], m) } else { v[i] })
}

pub open spec fn stamped_slots_from(v: Seq<SlotView>, m: Seq<char>, from: int) -> Seq<SlotView> {
    Seq::new(v.len(), |i: int| if from <= i < v.len() { stamped_slot(v[i], m) } else { v[i] })
}

proof fn lemma_recorded_leaf(ss: Seq<TraceView>, node: Target)
    requires
        node is Text || node is Comment,
    ensures
        exit_all::<TracePass>(enter_all::<TracePass>(ss, node).0, enter_all::<TracePass>(ss, node).1) == (
            logged(ss, entered(node.kind()) + exited(node.kind())),
            signed(node, there_and_back(ss)),
        ),
{
    lemma_hooks_recorded(ss, node);
    let ss1 = logged(ss, entered(node.kind()));
    let n1 = signed(node, marks(ss));
    lemma_hooks_recorded(ss1, n1);
    lemma_logged(ss, entered(node.kind()), exited(node.kind()));
    lemma_signed(node, marks(ss), marks(ss).reverse());
}

proof fn lemma_recorded_ir(ss: Seq<TraceView>, n: IRNodeView, depth: nat)
    requires
        ir_valid(n),
        n.height() < depth,
    ensures
        walk_ir::<TracePass>(ss, n, depth) == Some((logged(ss, ir_trace(n)), stamped(n, there_and_back(ss)))),
    decreases depth, 1int,
{
    match n {
        IRNodeView::TextCall(t) => lemma_recorded_leaf(ss, Target::Text(t)),
        IRNodeView::If(i) => lemma_recorded_if(ss, i, depth),
        IRNodeView::For(f) => lemma_recorded_for(ss, f, depth),
        IRNodeView::VNodeCall(v) => lemma_recorded_vnode(ss, v, depth),
        IRNodeView::RenderSlotCall(r) => lemma_recorded_slot_outlet(ss, r, depth),
        IRNodeView::CommentCall(c) => lemma_recorded_leaf(ss, Target::Comment(c)),
        IRNodeView::VSlotUse(s) => lemma_recorded_v_slot(ss, s, depth),
        IRNodeView::AlterableSlot(s) => lemma_recorded_slot_fn(ss, s, depth),
    }
}

proof fn lemma_recorded_ir_seq(ss: Seq<TraceView>, v: Seq<IRNodeView>, depth: nat, from: int)
    requires
        0 <= from <= v.len(),
        forall|k: int| from <= k < v.len() ==> ir_valid(#[trigger] v[k]) && v[k].height() < depth,
    ensures
        walk_ir_seq::<TracePass>(ss, v, depth, from) == Some(
            (logged(ss, ir_seq_trace(v.skip(from))), stamped_seq_from(v, there_and_back(ss), from)),
        ),
    decreases depth, v.len() - from + 3,
{
    let m = there_and_back(ss);
    if from < v.len() {
        lemma_recorded_ir(ss, v[from], depth);
        let ss1 = logged(ss, ir_trace(v[from]));
        let next = v.update(from, stamped(v[from], m));
        lemma_logged(ss, ir_trace(v[from]), ir_seq_trace(v.skip(from + 1)));
        lemma_recorded_ir_seq(ss1, next, depth, from + 1);
        assert(next.skip(from + 1) =~= v.skip(from + 1));
        assert(v.skip(from).skip(1) =~= v.skip(from + 1));
        assert(stamped_seq_from(next, m, from + 1) =~= stamped_seq_from(v, m, from));
    } else {
        assert(v.skip(from) =~= Seq::<IRNodeView>::empty());
        lemma_logged(ss, Seq::empty(), Seq::empty());
        assert(stamped_seq_from(v, m, from) =~= v);
    }
}

proof fn lemma_recorded_children(ss: Seq<TraceView>, v: Seq<IRNodeView>, depth: nat)
    requires
        ir_seq_valid(v),
        crate::ir::ir_seq_height(v) < depth,
    ensures
        walk_ir_seq::<TracePass>(ss, v, depth, 0) == Some(
            (logged(ss, ir_seq_trace(v)), stamped_seq(v, there_and_back(ss))),
        ),
    decreases depth, v.len() + 4,
{
    lemma_ir_seq_bound(v);
    lemma_recorded_ir_seq(ss, v, depth, 0);
    assert(v.skip(0) =~= v);
    assert(stamped_seq_from(v, there_and_back(ss), 0) =~= stamped_seq(v, there_and_back(ss)));
}

proof fn lemma_recorded_if(ss: Seq<TraceView>, i: IfNodeView, depth: nat)
    requires
        i.well_formed(),
        branch_seq_valid(i.branches),
        i.height() < depth,
    ensures
        walk_if::<TracePass>(ss, i, depth) == Some(
            (
                logged(ss, entered(NodeKind::If) + branch_seq_trace(i.branches) + exited(NodeKind::If)),
                IfNodeView { branches: stamped_branches(i.branches, there_and_back(ss)) },
            ),
        ),
    decreases depth, 0int,
{
    let m = there_and_back(ss);
    let enter = entered(NodeKind::If);
    let inner = branch_seq_trace(i.branches);
    lemma_hooks_recorded(ss, Target::If(i));
    let ss1 = logged(ss, enter);
    lemma_logged(ss, enter, inner);
    lemma_branch_seq_bound(i.branches);
    lemma_recorded_branch_seq(ss1, i.branches, (depth - 1) as nat, 0);
    assert(i.branches.skip(0) =~= i.branches);
    assert(stamped_branches_from(i.branches, m, 0) =~= stamped_branches(i.branches, m));
    let i2 = IfNodeView { branches: stamped_branches(i.branches, m) };
    lemma_hooks_recorded(logged(ss, enter + inner), Target::If(i2));
    lemma_logged(ss, enter + inner, exited(NodeKind::If));
}

proof fn lemma_recorded_branch(ss: Seq<TraceView>, b: IfBranchView, depth: nat)
    requires
        ir_valid(b.child),
        b.height() < depth,
    ensures
        walk_branch::<TracePass>(ss, b, depth) == Some(
            (logged(ss, branch_trace(b)), stamped_branch(b, there_and_back(ss))),
        ),
    decreases depth, 2int,
{
    lemma_recorded_opt_js(ss, b.condition, depth);
    let ss1 = logged(ss, opt_js_trace(b.condition));
    lemma_logged(ss, opt_js_trace(b.condition), ir_trace(b.child));
    lemma_recorded_ir(ss1, b.child, depth);
}

proof fn lemma_recorded_branch_seq(ss: Seq<TraceView>, v: Seq<IfBranchView>, depth: nat, from: int)
    requires
        0 <= from <= v.len(),
        forall|k: int| from <= k < v.len() ==> ir_valid((#[trigger] v[k]).child) && v[k].height() < depth,
    ensures
        walk_branch_seq::<TracePass>(ss, v, depth, from) == Some(
            (logged(ss, branch_seq_trace(v.skip(from))), stamped_branches_from(v, there_and_back(ss), from)),
        ),
    decreases depth, v.len() - from + 3,
{
    let m = there_and_back(ss);
    if from < v.len() {
        lemma_recorded_branch(ss, v[from], depth);
        let ss1 = logged(ss, branch_trace(v[from]));
        let next = v.update(from, stamped_branch(v[from], m));
        lemma_logged(ss, branch_trace(v[from]), branch_seq_trace(v.skip(from + 1)));
        lemma_recorded_branch_seq(ss1, next, depth, from + 1);
        assert(next.skip(from + 1) =~= v.skip(from + 1));
        assert(v.skip(from).skip(1) =~= v.skip(from + 1));
        assert(stamped_branches_from(next, m, from + 1) =~= stamped_branches_from(v, m, from));
    } else {
        assert(v.skip(from) =~= Seq::<IfBranchView>::empty());
        lemma_logged(ss, Seq::empty(), Seq::empty());
        assert(stamped_branches_from(v, m, from) =~= v);
    }
}

proof fn lemma_recorded_for(ss: Seq<TraceView>, f: ForNodeView, depth: nat)
    requires
        ir_valid(*f.child),
        f.height() < depth,
    ensures
        walk_for::<TracePass>(ss, f, depth) == Some(
            (
                logged(ss, ir_trace(IRNodeView::For(f))),
                ForNodeView {
                    source: f.source,
                    value: f.value,
                    key: f.key,
                    index: f.index,
                    child: Box::new(stamped(*f.child, there_and_back(ss))),
                },
            ),
        ),
    decreases depth, 0int,
{
    let m = there_and_back(ss);
    let a = entered(NodeKind::For);
    let b = js_trace(f.source);
    let c = ir_trace(*f.child);
    lemma_hooks_recorded(ss, Target::For(f));
    lemma_recorded_js(logged(ss, a), f.source, (depth - 1) as nat);
    lemma_logged(ss, a, b);
    lemma_recorded_ir(logged(ss, a + b), *f.child, (depth - 1) as nat);
    lemma_logged(ss, a + b, c);
    let f2 = ForNodeView {
        source: f.source,
        value: f.value,
        key: f.key,
        index: f.index,
        child: Box::new(stamped(*f.child, m)),
    };
    lemma_hooks_recorded(logged(ss, a + b + c), Target::For(f2));
    lemma_logged(ss, a + b + c, exited(NodeKind::For));
}

proof fn lemma_recorded_vnode(ss: Seq<TraceView>, v: VNodeView, depth: nat)
    requires
        ir_seq_valid(v.children),
        v.height() < depth,
    ensures
        walk_vnode::<TracePass>(ss, v, depth) == Some(
            (
                logged(ss, ir_trace(IRNodeView::VNodeCall(v))),
                VNodeView {
                    tag: v.tag,
                    props: v.props,
                    children: stamped_seq(v.children, there_and_back(ss)),
                    directives: v.directives,
                },
            ),
        ),
    decreases depth, 0int,
{
    let m = there_and_back(ss);
    let d = (depth - 1) as nat;
    let a = entered(NodeKind::VNode);
    let b = js_trace(v.tag);
    let c = opt_js_trace(v.props);
    let e = ir_seq_trace(v.children);
    let g = dir_seq_trace(v.directives);
    lemma_hooks_recorded(ss, Target::VNode(v));
    lemma_recorded_js(logged(ss, a), v.tag, d);
    lemma_logged(ss, a, b);
    lemma_recorded_opt_js(logged(ss, a + b), v.props, d);
    lemma_logged(ss, a + b, c);
    lemma_recorded_children(logged(ss, a + b + c), v.children, d);
    lemma_logged(ss, a + b + c, e);
    lemma_dir_seq_bound(v.directives);
    lemma_recorded_dir_seq(logged(ss, a + b + c + e), v.directives, d, 0);
    assert(v.directives.skip(0) =~= v.directives);
    lemma_logged(ss, a + b + c + e, g);
    let v2 = VNodeView {
        tag: v.tag,
        props: v.props,
        children: stamped_seq(v.children, m),
        directives: v.directives,
    };
    lemma_hooks_recorded(logged(ss, a + b + c + e + g), Target::VNode(v2));
    lemma_logged(ss, a + b + c + e + g, exited(NodeKind::VNode));
}

proof fn lemma_recorded_slot_outlet(ss: Seq<TraceView>, r: RenderSlotView, depth: nat)
    requires
        ir_seq_valid(r.fallbacks),
        r.height() < depth,
    ensures
        walk_slot_outlet::<TracePass>(ss, r, depth) == Some(
            (
                logged(ss, ir_trace(IRNodeView::RenderSlotCall(r))),
                RenderSlotView {
                    slot_name: r.slot_name,
                    slot_props: r.slot_props,
                    fallbacks: stamped_seq(r.fallbacks, there_and_back(ss)),
                },
            ),
        ),
    decreases depth, 0int,
{
    let m = there_and_back(ss);
    let d = (depth - 1) as nat;
    let a = entered(NodeKind::SlotOutlet);
    let b = js_trace(r.slot_name);
    let c = opt_js_trace(r.slot_props);
    let e = ir_seq_trace(r.fallbacks);
    lemma_hooks_recorded(ss, Target::SlotOutlet(r));
    lemma_recorded_js(logged(ss, a), r.slot_name, d);
    lemma_logged(ss, a, b);
    lemma_recorded_opt_js(logged(ss, a + b), r.slot_props, d);
    lemma_logged(ss, a + b, c);
    lemma_recorded_children(logged(ss, a + b + c), r.fallbacks, d);
    lemma_logged(ss, a + b + c, e);
    let r2 = RenderSlotView {
        slot_name: r.slot_name,
        slot_props: r.slot_props,
        fallbacks: stamped_seq(r.fallbacks, m),
    };
    lemma_hooks_recorded(logged(ss, a + b + c + e), Target::SlotOutlet(r2));
    lemma_logged(ss, a + b + c + e, exited(NodeKind::SlotOutlet));
}

proof fn lemma_recorded_v_slot(ss: Seq<TraceView>, s: VSlotView, depth: nat)
    requires
        slot_seq_valid(s.stable_slots),
        ir_seq_valid(s.alterable_slots),
        s.height() < depth,
    ensures
        walk_v_slot::<TracePass>(ss, s, depth) == Some(
            (
                logged(ss, ir_trace(IRNodeView::VSlotUse(s))),
                VSlotView {
                    stable_slots: stamped_slots(s.stable_slots, there_and_back(ss)),
                    alterable_slots: stamped_seq(s.alterable_slots, there_and_back(ss)),
                },
            ),
        ),
    decreases depth, 0int,
{
    let m = there_and_back(ss);
    let d = (depth - 1) as nat;
    let a = entered(NodeKind::VSlot);
    let b = slot_seq_trace(s.stable_slots);
    let c = ir_seq_trace(s.alterable_slots);
    lemma_hooks_recorded(ss, Target::VSlot(s));
    lemma_slot_seq_bound(s.stable_slots);
    lemma_recorded_slot_seq(logged(ss, a), s.stable_slots, d, 0);
    assert(s.stable_slots.skip(0) =~= s.stable_slots);
    assert(stamped_slots_from(s.stable_slots, m, 0) =~= stamped_slots(s.stable_slots, m));
    lemma_logged(ss, a, b);
    lemma_recorded_children(logged(ss, a + b), s.alterable_slots, d);
    lemma_logged(ss, a + b, c);
    let s2 = VSlotView {
        stable_slots: stamped_slots(s.stable_slots, m),
        alterable_slots: stamped_seq(s.alterable_slots, m),
    };
    lemma_hooks_recorded(logged(ss, a + b + c), Target::VSlot(s2));
    lemma_logged(ss, a + b + c, exited(NodeKind::VSlot));
}

proof fn lemma_recorded_slot_fn(ss: Seq<TraceView>, s: SlotView, depth: nat)
    requires
        ir_seq_valid(s.body),
        s.height() < depth,
    ensures
        walk_slot_fn::<TracePass>(ss, s, depth) == Some(
            (logged(ss, slot_trace(s)), stamped_slot(s, there_and_back(ss))),
        ),
    decreases depth, 0int,
{
    let m = there_and_back(ss);
    let d = (depth - 1) as nat;
    let a = entered(NodeKind::SlotFn);
    let b = js_trace(s.name);
    let c = ir_seq_trace(s.body);
    lemma_hooks_recorded(ss, Target::SlotFn(s));
    lemma_recorded_js(logged(ss, a), s.name, d);
    lemma_logged(ss, a, b);
    lemma_recorded_children(logged(ss, a + b), s.body, d);
    lemma_logged(ss, a + b, c);
    let s2 = stamped_slot(s, m);
    lemma_hooks_recorded(logged(ss, a + b + c), Target::SlotFn(s2));
    lemma_logged(ss, a + b + c, exited(NodeKind::SlotFn));
}

proof fn lemma_recorded_slot_seq(ss: Seq<TraceView>, v: Seq<SlotView>, depth: nat, from: int)
    requires
        0 <= from <= v.len(),
        forall|k: int| from <= k < v.len() ==> ir_seq_valid((#[trigger] v[k]).body) && v[k].height() < depth,
    ensures
        walk_slot_seq::<TracePass>(ss, v, depth, from) == Some(
            (logged(ss, slot_seq_trace(v.skip(from))), stamped_slots_from(v, there_and_back(ss), from)),
        ),
    decreases depth, v.len() - from + 3,
{
    let m = there_and_back(ss);
    if from < v.len() {
        lemma_recorded_slot_fn(ss, v[from], depth);
        let ss1 = logged(ss, slot_trace(v[from]));
        let next = v.update(from, stamped_slot(v[from], m));
        lemma_logged(ss, slot_trace(v[from]), slot_seq_trace(v.skip(from + 1)));
        lemma_recorded_slot_seq(ss1, next, depth, from + 1);
        assert(next.skip(from + 1) =~= v.skip(from + 1));
        assert(v.skip(from).skip(1) =~= v.skip(from + 1));
        assert(stamped_slots_from(next, m, from + 1) =~= stamped_slots_from(v, m, from));
    } else {
        assert(v.skip(from) =~= Seq::<SlotView>::empty());
        lemma_logged(ss, Seq::empty(), Seq::empty());
        assert(stamped_slots_from(v, m, from) =~= v);
    }
}

/// What a walk with recording passes comes to, whatever their number and
/// whatever the tree, as long as its conditionals are well formed: the walk
/// succeeds; every pass has recorded the hooks of the tree, each node's
/// enter, then what is below the node in the order in which the node is
/// walked, then the node's exit; and every text and comment carries the
/// marks of the passes first to last and then last to first.
pub proof fn lemma_recorded_hooks(ss: Seq<TraceView>, root: IRRootView)
    requires
        root.valid(),
    ensures
        walk_root::<TracePass>(ss, root) == Some(
            (
                logged(ss, root_trace(root)),
                IRRootView { body: stamped_seq(root.body, there_and_back(ss)) },
            ),
        ),
{
    let a = entered(NodeKind::Root);
    let b = ir_seq_trace(root.body);
    lemma_hooks_recorded(ss, Target::Root(root));
    lemma_recorded_children(logged(ss, a), root.body, root.height());
    lemma_logged(ss, a, b);
    let r2 = IRRootView { body: stamped_seq(root.body, there_and_back(ss)) };
    lemma_hooks_recorded(logged(ss, a + b), Target::Root(r2));
    lemma_logged(ss, a + b, exited(NodeKind::Root));
}

} // verus!
