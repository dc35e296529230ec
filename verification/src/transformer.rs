//! The engine: one walk over the tree, with every pass's hooks called at
//! every node.

use crate::error::{CompileError, CompileErrorView, NodeKind};
use crate::ir::{
    branch_seq_height, branch_views, dir_seq_height, dir_views, ir_seq_height, ir_views, js_seq_height,
    js_views, lemma_branch_seq_bound, lemma_dir_seq_bound, lemma_ir_seq_bound, lemma_js_seq_bound,
    lemma_pair_seq_bound, lemma_slot_seq_bound, opt_js_height, opt_js_view, pair_seq_height, pair_views,
    slot_seq_height, slot_views, CommentIR, ForNodeIR, IRNode, IRRoot, IfBranch, IfNodeIR, JsExpr,
    RenderSlotIR, RuntimeDir, Slot, TextIR, VNodeIR, VSlotIR,
};
use crate::pass::{enter, exit, states, CoreTransformPass};
use crate::walk::{
    walk_branch, walk_branch_seq, walk_comment, walk_dir, walk_dir_seq, walk_for, walk_if, walk_ir,
    walk_ir_seq, walk_js, walk_js_seq, walk_opt_js, walk_pair_seq, walk_root, walk_slot_fn,
    walk_slot_outlet, walk_slot_seq, walk_text, walk_v_slot, walk_vnode,
};
use std::marker::PhantomData;
use vstd::prelude::*;

verus! {

/// How a walk that can fail ended, against what the walk comes to: on success
/// the passes and the node are what it says; it fails exactly where it is
/// `None`, and then with `MalformedIr` for the conditional.
pub open spec fn walk_outcome<S, T>(
    r: Result<(), CompileError>,
    ss: Seq<S>,
    node: T,
    walk: Option<(Seq<S>, T)>,
) -> bool {
    match r {
        Ok(_) => walk == Some((ss, node)),
        Err(e) => walk is None && e@ == CompileErrorView::MalformedIr(NodeKind::If),
    }
}

/// Walks one expression.
pub(crate) fn transform_js_expr<P: CoreTransformPass, const N: usize>(
    e: &mut JsExpr,
    ps: &mut [P; N],
    Ghost(depth): Ghost<nat>,
)
    requires
        old(e)@.height() < depth,
    ensures
        (states(final(ps)@), final(e)@) == walk_js::<P>(states(old(ps)@), old(e)@, depth),
    decreases depth, 0int,
{
    enter(e, ps);
    match e {
        JsExpr::Call(_, args) => {
            proof {
                lemma_js_seq_bound(js_views(args@));
            }
            transform_js_list(args, ps, Ghost((depth - 1) as nat));
        },
        JsExpr::Compound(parts) => {
            proof {
                lemma_js_seq_bound(js_views(parts@));
            }
            transform_js_list(parts, ps, Ghost((depth - 1) as nat));
        },
        JsExpr::Array(items) => {
            proof {
                lemma_js_seq_bound(js_views(items@));
            }
            transform_js_list(items, ps, Ghost((depth - 1) as nat));
        },
        JsExpr::Props(pairs) => {
            proof {
                lemma_pair_seq_bound(pair_views(pairs@));
            }
            transform_js_pairs(pairs, ps, Ghost((depth - 1) as nat));
        },
        JsExpr::Src(_) | JsExpr::Simple(_) | JsExpr::StrLit(_) | JsExpr::Symbol(_) => {},
    }
    exit(e, ps);
}

/// Walks a list of expressions, in order.
pub(crate) fn transform_js_list<P: CoreTransformPass, const N: usize>(
    v: &mut Vec<JsExpr>,
    ps: &mut [P; N],
    Ghost(depth): Ghost<nat>,
)
    requires
        js_seq_height(js_views(old(v)@)) < depth,
    ensures
        (states(final(ps)@), js_views(final(v)@)) == walk_js_seq::<P>(
            states(old(ps)@),
            js_views(old(v)@),
            depth,
            0,
        ),
    decreases depth, 1int,
{
    let ghost goal = walk_js_seq::<P>(states(ps@), js_views(v@), depth, 0);
    proof {
        lemma_js_seq_bound(js_views(v@));
    }
    let mut i: usize = 0;
    while i < v.len()
        invariant
            i <= v.len(),
            walk_js_seq::<P>(states(ps@), js_views(v@), depth, i as int) == goal,
            forall|k: int| i <= k < v.len() ==> (#[trigger] js_views(v@)[k]).height() < depth,
        decreases v.len() - i,
    {
        let ghost before = v@;
        transform_js_expr(&mut v[i], ps, Ghost(depth));
        assert(js_views(v@) =~= js_views(before).update(i as int, v@[i as int]@));
        i += 1;
    }
}

/// Walks a list of pairs, in order: of each pair the key, then the value.
pub(crate) fn transform_js_pairs<P: CoreTransformPass, const N: usize>(
    v: &mut Vec<(JsExpr, JsExpr)>,
    ps: &mut [P; N],
    Ghost(depth): Ghost<nat>,
)
    requires
        pair_seq_height(pair_views(old(v)@)) < depth,
    ensures
        (states(final(ps)@), pair_views(final(v)@)) == walk_pair_seq::<P>(
            states(old(ps)@),
            pair_views(old(v)@),
            depth,
            0,
        ),
    decreases depth, 1int,
{
    let ghost goal = walk_pair_seq::<P>(states(ps@), pair_views(v@), depth, 0);
    proof {
        lemma_pair_seq_bound(pair_views(v@));
    }
    let mut i: usize = 0;
    while i < v.len()
        invariant
            i <= v.len(),
            walk_pair_seq::<P>(states(ps@), pair_views(v@), depth, i as int) == goal,
            forall|k: int|
                i <= k < v.len() ==> {
                    &&& (#[trigger] pair_views(v@)[k]).0.height() < depth
                    &&& pair_views(v@)[k].1.height() < depth
                },
        decreases v.len() - i,
    {
        let ghost before = v@;
        let pair = &mut v[i];
        transform_js_expr(&mut pair.0, ps, Ghost(depth));
        transform_js_expr(&mut pair.1, ps, Ghost(depth));
        assert(pair_views(v@) =~= pair_views(before).update(i as int, (v@[i as int].0@, v@[i as int].1@)));
        i += 1;
    }
}

/// Walks an expression that may be absent.
pub(crate) fn transform_opt_js<P: CoreTransformPass, const N: usize>(
    o: &mut Option<JsExpr>,
    ps: &mut [P; N],
    Ghost(depth): Ghost<nat>,
)
    requires
        opt_js_height(opt_js_view(*old(o))) < depth,
    ensures
        (states(final(ps)@), opt_js_view(*final(o))) == walk_opt_js::<P>(
            states(old(ps)@),
            opt_js_view(*old(o)),
            depth,
        ),
{
    match o {
        Some(e) => transform_js_expr(e, ps, Ghost(depth)),
        None => {},
    }
}

/// Walks the expressions of a runtime directive.
pub(crate) fn transform_runtime_dir<P: CoreTransformPass, const N: usize>(
    dir: &mut RuntimeDir,
    ps: &mut [P; N],
    Ghost(depth): Ghost<nat>,
)
    requires
        old(dir)@.height() < depth,
    ensures
        (states(final(ps)@), final(dir)@) == walk_dir::<P>(states(old(ps)@), old(dir)@, depth),
{
    transform_js_expr(&mut dir.name, ps, Ghost(depth));
    transform_opt_js(&mut dir.expr, ps, Ghost(depth));
    transform_opt_js(&mut dir.arg, ps, Ghost(depth));
    transform_opt_js(&mut dir.mods, ps, Ghost(depth));
}

/// Walks the runtime directives of an element, in order.
pub(crate) fn transform_runtime_dirs<P: CoreTransformPass, const N: usize>(
    v: &mut Vec<RuntimeDir>,
    ps: &mut [P; N],
    Ghost(depth): Ghost<nat>,
)
    requires
        dir_seq_height(dir_views(old(v)@)) < depth,
    ensures
        (states(final(ps)@), dir_views(final(v)@)) == walk_dir_seq::<P>(
            states(old(ps)@),
            dir_views(old(v)@),
            depth,
            0,
        ),
{
    let ghost goal = walk_dir_seq::<P>(states(ps@), dir_views(v@), depth, 0);
    proof {
        lemma_dir_seq_bound(dir_views(v@));
    }
    let mut i: usize = 0;
    while i < v.len()
        invariant
            i <= v.len(),
            walk_dir_seq::<P>(states(ps@), dir_views(v@), depth, i as int) == goal,
            forall|k: int| i <= k < v.len() ==> (#[trigger] dir_views(v@)[k]).height() < depth,
        decreases v.len() - i,
    {
        let ghost before = v@;
        transform_runtime_dir(&mut v[i], ps, Ghost(depth));
        assert(dir_views(v@) =~= dir_views(before).update(i as int, v@[i as int]@));
        i += 1;
    }
}

/// Walks a text node: it has hooks and nothing below it.
pub fn transform_text<P: CoreTransformPass, const N: usize>(t: &mut TextIR, ps: &mut [P; N])
    ensures
        (states(final(ps)@), final(t)@) == walk_text::<P>(states(old(ps)@), old(t)@),
{
    enter(t, ps);
    exit(t, ps);
}

/// Walks a comment node: it has hooks and nothing below it.
pub fn transform_comment<P: CoreTransformPass, const N: usize>(c: &mut CommentIR, ps: &mut [P; N])
    ensures
        (states(final(ps)@), final(c)@) == walk_comment::<P>(states(old(ps)@), old(c)@),
{
    enter(c, ps);
    exit(c, ps);
}

/// Walks one node, by its kind.
pub(crate) fn transform_ir<P: CoreTransformPass, const N: usize>(
    ir: &mut IRNode,
    ps: &mut [P; N],
    Ghost(depth): Ghost<nat>,
) -> (r: Result<(), CompileError>)
    requires
        old(ir)@.height() < depth,
    ensures
        walk_outcome(r, states(final(ps)@), final(ir)@, walk_ir::<P>(states(old(ps)@), old(ir)@, depth)),
    decreases depth, 1int,
{
    match ir {
        IRNode::TextCall(t) => {
            transform_text(t, ps);
            Ok(())
        },
        IRNode::If(i) => transform_if(i, ps, Ghost(depth)),
        IRNode::For(f) => transform_for(f, ps, Ghost(depth)),
        IRNode::VNodeCall(v) => transform_vnode(v, ps, Ghost(depth)),
        IRNode::RenderSlotCall(r) => transform_slot_outlet(r, ps, Ghost(depth)),
        IRNode::CommentCall(c) => {
            transform_comment(c, ps);
            Ok(())
        },
        IRNode::VSlotUse(s) => transform_v_slot(s, ps, Ghost(depth)),
        IRNode::AlterableSlot(a) => transform_slot_fn(a, ps, Ghost(depth)),
    }
}

/// Walks a list of nodes, in order, and stops at the first that fails.
pub(crate) fn transform_children<P: CoreTransformPass, const N: usize>(
    children: &mut Vec<IRNode>,
    ps: &mut [P; N],
    Ghost(depth): Ghost<nat>,
) -> (r: Result<(), CompileError>)
    requires
        ir_seq_height(ir_views(old(children)@)) < depth,
    ensures
        walk_outcome(
            r,
            states(final(ps)@),
            ir_views(final(children)@),
            walk_ir_seq::<P>(states(old(ps)@), ir_views(old(children)@), depth, 0),
        ),
    decreases depth, 2int,
{
    let ghost goal = walk_ir_seq::<P>(states(ps@), ir_views(children@), depth, 0);
    proof {
        lemma_ir_seq_bound(ir_views(children@));
    }
    let mut i: usize = 0;
    while i < children.len()
        invariant
            i <= children.len(),
            walk_ir_seq::<P>(states(ps@), ir_views(children@), depth, i as int) == goal,
            goal == walk_ir_seq::<P>(states(old(ps)@), ir_views(old(children)@), depth, 0),
            forall|k: int| i <= k < children.len() ==> (#[trigger] ir_views(children@)[k]).height() < depth,
        decreases children.len() - i,
    {
        let ghost before = children@;
        let ghost ss = states(ps@);
        let r = transform_ir(&mut children[i], ps, Ghost(depth));
        if let Err(e) = r {
            assert(walk_ir_seq::<P>(ss, ir_views(before), depth, i as int) is None);
            return Err(e);
        }
        assert(ir_views(children@) =~= ir_views(before).update(i as int, children@[i as int]@));
        i += 1;
    }
    Ok(())
}

/// Whether a conditional has a branch and only its last branch may lack a
/// condition.
pub fn if_is_well_formed(i: &IfNodeIR) -> (b: bool)
    ensures
        b == i@.well_formed(),
{
    let n = i.branches.len();
    if n == 0 {
        return false;
    }
    let mut k: usize = 0;
    while k < n - 1
        invariant
            n == i.branches.len(),
            n > 0,
            k <= n - 1,
            forall|j: int| 0 <= j < k ==> (#[trigger] i@.branches[j]).condition is Some,
        decreases n - k,
    {
        if i.branches[k].condition.is_none() {
            assert(i@.branches[k as int].condition is None);
            return false;
        }
        k += 1;
    }
    true
}

/// Walks a conditional. One that is not well formed is refused before any
/// hook runs on it.
pub(crate) fn transform_if<P: CoreTransformPass, const N: usize>(
    i: &mut IfNodeIR,
    ps: &mut [P; N],
    Ghost(depth): Ghost<nat>,
) -> (r: Result<(), CompileError>)
    requires
        old(i)@.height() < depth,
    ensures
        walk_outcome(r, states(final(ps)@), final(i)@, walk_if::<P>(states(old(ps)@), old(i)@, depth)),
    decreases depth, 0int,
{
    if !if_is_well_formed(i) {
        return Err(CompileError::MalformedIr(NodeKind::If));
    }
    enter(i, ps);
    let r = transform_branches(&mut i.branches, ps, Ghost((depth - 1) as nat));
    if let Err(e) = r {
        return Err(e);
    }
    exit(i, ps);
    Ok(())
}

/// Walks one branch of a conditional: the condition, then the child.
pub(crate) fn transform_branch<P: CoreTransformPass, const N: usize>(
    b: &mut IfBranch,
    ps: &mut [P; N],
    Ghost(depth): Ghost<nat>,
) -> (r: Result<(), CompileError>)
    requires
        old(b)@.height() < depth,
    ensures
        walk_outcome(r, states(final(ps)@), final(b)@, walk_branch::<P>(states(old(ps)@), old(b)@, depth)),
    decreases depth, 2int,
{
    transform_opt_js(&mut b.condition, ps, Ghost(depth));
    transform_ir(&mut b.child, ps, Ghost(depth))
}

/// Walks the branches of a conditional, in order.
pub(crate) fn transform_branches<P: CoreTransformPass, const N: usize>(
    v: &mut Vec<IfBranch>,
    ps: &mut [P; N],
    Ghost(depth): Ghost<nat>,
) -> (r: Result<(), CompileError>)
    requires
        branch_seq_height(branch_views(old(v)@)) < depth,
    ensures
        walk_outcome(
            r,
            states(final(ps)@),
            branch_views(final(v)@),
            walk_branch_seq::<P>(states(old(ps)@), branch_views(old(v)@), depth, 0),
        ),
    decreases depth, 3int,
{
    let ghost goal = walk_branch_seq::<P>(states(ps@), branch_views(v@), depth, 0);
    proof {
        lemma_branch_seq_bound(branch_views(v@));
    }
    let mut i: usize = 0;
    while i < v.len()
        invariant
            i <= v.len(),
            walk_branch_seq::<P>(states(ps@), branch_views(v@), depth, i as int) == goal,
            goal == walk_branch_seq::<P>(states(old(ps)@), branch_views(old(v)@), depth, 0),
            forall|k: int| i <= k < v.len() ==> (#[trigger] branch_views(v@)[k]).height() < depth,
        decreases v.len() - i,
    {
        let ghost before = v@;
        let ghost ss = states(ps@);
        let r = transform_branch(&mut v[i], ps, Ghost(depth));
        if let Err(e) = r {
            assert(walk_branch_seq::<P>(ss, branch_views(before), depth, i as int) is None);
            return Err(e);
        }
        assert(branch_views(v@) =~= branch_views(before).update(i as int, v@[i as int]@));
        i += 1;
    }
    Ok(())
}

/// Walks a loop: the source, then the child.
pub(crate) fn transform_for<P: CoreTransformPass, const N: usize>(
    f: &mut ForNodeIR,
    ps: &mut [P; N],
    Ghost(depth): Ghost<nat>,
) -> (r: Result<(), CompileError>)
    requires
        old(f)@.height() < depth,
    ensures
        walk_outcome(r, states(final(ps)@), final(f)@, walk_for::<P>(states(old(ps)@), old(f)@, depth)),
    decreases depth, 0int,
{
    enter(f, ps);
    transform_js_expr(&mut f.source, ps, Ghost((depth - 1) as nat));
    let r = transform_ir(&mut *f.child, ps, Ghost((depth - 1) as nat));
    if let Err(e) = r {
        return Err(e);
    }
    exit(f, ps);
    Ok(())
}

/// Walks an element: tag, properties, children, runtime directives.
pub(crate) fn transform_vnode<P: CoreTransformPass, const N: usize>(
    v: &mut VNodeIR,
    ps: &mut [P; N],
    Ghost(depth): Ghost<nat>,
) -> (r: Result<(), CompileError>)
    requires
        old(v)@.height() < depth,
    ensures
        walk_outcome(r, states(final(ps)@), final(v)@, walk_vnode::<P>(states(old(ps)@), old(v)@, depth)),
    decreases depth, 0int,
{
    enter(v, ps);
    transform_js_expr(&mut v.tag, ps, Ghost((depth - 1) as nat));
    transform_opt_js(&mut v.props, ps, Ghost((depth - 1) as nat));
    let r = transform_children(&mut v.children, ps, Ghost((depth - 1) as nat));
    if let Err(e) = r {
        return Err(e);
    }
    transform_runtime_dirs(&mut v.directives, ps, Ghost((depth - 1) as nat));
    exit(v, ps);
    Ok(())
}

/// Walks a slot outlet: name, properties, fallback nodes.
pub(crate) fn transform_slot_outlet<P: CoreTransformPass, const N: usize>(
    o: &mut RenderSlotIR,
    ps: &mut [P; N],
    Ghost(depth): Ghost<nat>,
) -> (r: Result<(), CompileError>)
    requires
        old(o)@.height() < depth,
    ensures
        walk_outcome(
            r,
            states(final(ps)@),
            final(o)@,
            walk_slot_outlet::<P>(states(old(ps)@), old(o)@, depth),
        ),
    decreases depth, 0int,
{
    enter(o, ps);
    transform_js_expr(&mut o.slot_name, ps, Ghost((depth - 1) as nat));
    transform_opt_js(&mut o.slot_props, ps, Ghost((depth - 1) as nat));
    let r = transform_children(&mut o.fallbacks, ps, Ghost((depth - 1) as nat));
    if let Err(e) = r {
        return Err(e);
    }
    exit(o, ps);
    Ok(())
}

/// Walks the slots handed to a component: the stable ones, then the
/// alterable ones.
pub(crate) fn transform_v_slot<P: CoreTransformPass, const N: usize>(
    s: &mut VSlotIR,
    ps: &mut [P; N],
    Ghost(depth): Ghost<nat>,
) -> (r: Result<(), CompileError>)
    requires
        old(s)@.height() < depth,
    ensures
        walk_outcome(r, states(final(ps)@), final(s)@, walk_v_slot::<P>(states(old(ps)@), old(s)@, depth)),
    decreases depth, 0int,
{
    enter(s, ps);
    let r = transform_slots(&mut s.stable_slots, ps, Ghost((depth - 1) as nat));
    if let Err(e) = r {
        return Err(e);
    }
    let r = transform_children(&mut s.alterable_slots, ps, Ghost((depth - 1) as nat));
    if let Err(e) = r {
        return Err(e);
    }
    exit(s, ps);
    Ok(())
}

/// Walks a list of slots, in order.
pub(crate) fn transform_slots<P: CoreTransformPass, const N: usize>(
    v: &mut Vec<Slot>,
    ps: &mut [P; N],
    Ghost(depth): Ghost<nat>,
) -> (r: Result<(), CompileError>)
    requires
        slot_seq_height(slot_views(old(v)@)) < depth,
    ensures
        walk_outcome(
            r,
            states(final(ps)@),
            slot_views(final(v)@),
            walk_slot_seq::<P>(states(old(ps)@), slot_views(old(v)@), depth, 0),
        ),
    decreases depth, 3int,
{
    let ghost goal = walk_slot_seq::<P>(states(ps@), slot_views(v@), depth, 0);
    proof {
        lemma_slot_seq_bound(slot_views(v@));
    }
    let mut i: usize = 0;
    while i < v.len()
        invariant
            i <= v.len(),
            walk_slot_seq::<P>(states(ps@), slot_views(v@), depth, i as int) == goal,
            goal == walk_slot_seq::<P>(states(old(ps)@), slot_views(old(v)@), depth, 0),
            forall|k: int| i <= k < v.len() ==> (#[trigger] slot_views(v@)[k]).height() < depth,
        decreases v.len() - i,
    {
        let ghost before = v@;
        let ghost ss = states(ps@);
        let r = transform_slot_fn(&mut v[i], ps, Ghost(depth));
        if let Err(e) = r {
            assert(walk_slot_seq::<P>(ss, slot_views(before), depth, i as int) is None);
            return Err(e);
        }
        assert(slot_views(v@) =~= slot_views(before).update(i as int, v@[i as int]@));
        i += 1;
    }
    Ok(())
}

/// Walks one slot: its name, then its body.
pub(crate) fn transform_slot_fn<P: CoreTransformPass, const N: usize>(
    slot: &mut Slot,
    ps: &mut [P; N],
    Ghost(depth): Ghost<nat>,
) -> (r: Result<(), CompileError>)
    requires
        old(slot)@.height() < depth,
    ensures
        walk_outcome(
            r,
            states(final(ps)@),
            final(slot)@,
            walk_slot_fn::<P>(states(old(ps)@), old(slot)@, depth),
        ),
    decreases depth, 0int,
{
    enter(slot, ps);
    transform_js_expr(&mut slot.name, ps, Ghost((depth - 1) as nat));
    let r = transform_children(&mut slot.body, ps, Ghost((depth - 1) as nat));
    if let Err(e) = r {
        return Err(e);
    }
    exit(slot, ps);
    Ok(())
}

/// Walks a whole tree.
pub fn transform_root<P: CoreTransformPass, const N: usize>(root: &mut IRRoot, ps: &mut [P; N]) -> (r:
    Result<(), CompileError>)
    ensures
        walk_outcome(r, states(final(ps)@), final(root)@, walk_root::<P>(states(old(ps)@), old(root)@)),
{
    let ghost depth = root@.height();
    enter(root, ps);
    let r = transform_children(&mut root.body, ps, Ghost(depth));
    if let Err(e) = r {
        return Err(e);
    }
    exit(root, ps);
    Ok(())
}

/// Something that rewrites a tree in place, usually in several passes.
pub trait Transformer {
    type IR;

    fn transform(&mut self, root: &mut Self::IR) -> Result<(), CompileError>;
}

/// The transformer that leaves every tree as it is.
pub struct NoopTransformer<T> {
    marker: PhantomData<T>,
}

impl<T> NoopTransformer<T> {
    pub fn new() -> Self {
        NoopTransformer { marker: PhantomData }
    }
}

impl<T> Transformer for NoopTransformer<T> {
    type IR = T;

    fn transform(&mut self, root: &mut T) -> (r: Result<(), CompileError>)
        ensures
            r is Ok,
            *final(root) == *old(root),
    {
        Ok(())
    }
}

/// The engine with its passes, in the order in which they are to run.
pub struct BaseTransformer<P, const N: usize> {
    pub passes: [P; N],
}

impl<P: CoreTransformPass, const N: usize> BaseTransformer<P, N> {
    pub fn new(passes: [P; N]) -> (t: Self)
        ensures
            t.passes == passes,
    {
        BaseTransformer { passes }
    }
}

impl<P: CoreTransformPass, const N: usize> Transformer for BaseTransformer<P, N> {
    type IR = IRRoot;

    /// Walks the tree once. Succeeds unless the walk meets a conditional that
    /// is not well formed; after a failure nothing is promised of the tree.
    fn transform(&mut self, root: &mut IRRoot) -> (r: Result<(), CompileError>)
        ensures
            walk_outcome(
                r,
                states(final(self).passes@),
                final(root)@,
                walk_root::<P>(states(old(self).passes@), old(root)@),
            ),
    {
        transform_root(root, &mut self.passes)
    }
}

/// The step that follows the lowering of a loop's child. This stage has
/// nothing to add to the child, so the step is empty.
pub fn post_process_v_for_child() {
}

} // verus!
