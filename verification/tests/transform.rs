use vue_ir::error::{CompileError, NodeKind};
use vue_ir::ir::{
    CommentIR, ForNodeIR, IRNode, IRRoot, IfBranch, IfNodeIR, JsExpr, RenderSlotIR, RuntimeDir,
    RuntimeHelper, Slot, TextIR, VNodeIR, VSlotIR,
};
use vue_ir::pass::{NoopPass, Phase};
use vue_ir::trace::{HookEvent, TracePass};
use vue_ir::transformer::{post_process_v_for_child, BaseTransformer, Transformer};

fn src(s: &str) -> JsExpr {
    JsExpr::Src(s.to_string())
}

fn lit(s: &str) -> JsExpr {
    JsExpr::StrLit(s.to_string())
}

fn simple(s: &str) -> JsExpr {
    JsExpr::Simple(s.to_string())
}

fn text(s: &str) -> IRNode {
    IRNode::TextCall(TextIR { content: s.to_string() })
}

fn comment(s: &str) -> IRNode {
    IRNode::CommentCall(CommentIR { content: s.to_string() })
}

fn enter(kind: NodeKind) -> HookEvent {
    HookEvent { phase: Phase::Enter, kind }
}

fn exit(kind: NodeKind) -> HookEvent {
    HookEvent { phase: Phase::Exit, kind }
}

fn element(children: Vec<IRNode>) -> VNodeIR {
    VNodeIR { tag: lit("div"), props: None, children, directives: vec![] }
}

/// A tree with every kind of node in it.
fn full_tree() -> IRRoot {
    let conditional = IRNode::If(IfNodeIR {
        branches: vec![
            IfBranch { condition: Some(simple("ok")), child: text("yes") },
            IfBranch { condition: None, child: comment("no") },
        ],
    });
    let looped = IRNode::For(ForNodeIR {
        source: simple("items"),
        value: Some("item".to_string()),
        key: None,
        index: Some("i".to_string()),
        child: Box::new(text("row")),
    });
    let outlet = IRNode::RenderSlotCall(RenderSlotIR {
        slot_name: lit("default"),
        slot_props: Some(JsExpr::Props(vec![(lit("a"), simple("b"))])),
        fallbacks: vec![text("fallback")],
    });
    let slots = IRNode::VSlotUse(VSlotIR {
        stable_slots: vec![Slot { name: lit("header"), body: vec![text("h")] }],
        alterable_slots: vec![IRNode::AlterableSlot(Slot { name: simple("dyn"), body: vec![] })],
    });
    let vnode = IRNode::VNodeCall(VNodeIR {
        tag: JsExpr::Symbol(RuntimeHelper::MergeProps),
        props: Some(JsExpr::Call(
            RuntimeHelper::MergeProps,
            vec![JsExpr::Array(vec![src("x")]), JsExpr::Compound(vec![src("y"), simple("z")])],
        )),
        children: vec![conditional, looped, outlet, slots],
        directives: vec![RuntimeDir { name: simple("vShow"), expr: Some(simple("open")), arg: None, mods: None }],
    });
    IRRoot { body: vec![vnode, text("tail")] }
}

#[test]
fn noop_pass_leaves_the_tree_as_it_was() {
    let mut root = full_tree();
    let mut engine = BaseTransformer::new([NoopPass]);
    assert_eq!(engine.transform(&mut root), Ok(()));
    assert_eq!(root, full_tree());
}

#[test]
fn several_noop_passes_leave_the_tree_as_it_was() {
    let mut root = full_tree();
    let mut engine = BaseTransformer::new([NoopPass, NoopPass, NoopPass]);
    assert_eq!(engine.transform(&mut root), Ok(()));
    assert_eq!(root, full_tree());
}

#[test]
fn no_pass_at_all_leaves_the_tree_as_it_was() {
    let mut root = full_tree();
    let passes: [NoopPass; 0] = [];
    let mut engine = BaseTransformer::new(passes);
    assert_eq!(engine.transform(&mut root), Ok(()));
    assert_eq!(root, full_tree());
}

#[test]
fn enter_runs_first_to_last_and_exit_last_to_first() {
    let mut root = IRRoot { body: vec![text("t"), comment("c")] };
    let mut engine = BaseTransformer::new([TracePass::new('a'), TracePass::new('b'), TracePass::new('c')]);
    assert_eq!(engine.transform(&mut root), Ok(()));
    assert_eq!(root, IRRoot { body: vec![text("tabccba"), comment("cabccba")] });
}

#[test]
fn one_pass_enters_then_exits() {
    let mut root = IRRoot { body: vec![text("t")] };
    let mut engine = BaseTransformer::new([TracePass::new('x')]);
    assert_eq!(engine.transform(&mut root), Ok(()));
    assert_eq!(root, IRRoot { body: vec![text("txx")] });
    assert_eq!(
        engine.passes[0].log,
        vec![enter(NodeKind::Root), enter(NodeKind::Text), exit(NodeKind::Text), exit(NodeKind::Root)]
    );
}

#[test]
fn every_pass_sees_the_same_hooks() {
    let mut root = full_tree();
    let mut engine = BaseTransformer::new([TracePass::new('a'), TracePass::new('b')]);
    assert_eq!(engine.transform(&mut root), Ok(()));
    assert_eq!(engine.passes[0].log, engine.passes[1].log);
    assert_eq!(engine.passes[0].log.len(), 62);
}

#[test]
fn element_is_walked_tag_props_children_directives() {
    let vnode = IRNode::VNodeCall(VNodeIR {
        tag: src("div"),
        props: Some(JsExpr::Props(vec![(lit("k"), lit("v"))])),
        children: vec![text("t")],
        directives: vec![RuntimeDir {
            name: simple("vFocus"),
            expr: Some(simple("e")),
            arg: None,
            mods: Some(simple("m")),
        }],
    });
    let mut root = IRRoot { body: vec![vnode] };
    let mut engine = BaseTransformer::new([TracePass::new('x')]);
    assert_eq!(engine.transform(&mut root), Ok(()));
    let js = NodeKind::JsExpr;
    assert_eq!(
        engine.passes[0].log,
        vec![
            enter(NodeKind::Root),
            enter(NodeKind::VNode),
            // tag
            enter(js),
            exit(js),
            // props: the object, its key, its value
            enter(js),
            enter(js),
            exit(js),
            enter(js),
            exit(js),
            exit(js),
            // children
            enter(NodeKind::Text),
            exit(NodeKind::Text),
            // directive: name, expression, modifiers
            enter(js),
            exit(js),
            enter(js),
            exit(js),
            enter(js),
            exit(js),
            exit(NodeKind::VNode),
            exit(NodeKind::Root),
        ]
    );
}

#[test]
fn conditional_is_walked_condition_then_child_branch_by_branch() {
    let conditional = IRNode::If(IfNodeIR {
        branches: vec![
            IfBranch { condition: Some(simple("a")), child: text("1") },
            IfBranch { condition: Some(simple("b")), child: comment("2") },
            IfBranch { condition: None, child: text("3") },
        ],
    });
    let mut root = IRRoot { body: vec![conditional] };
    let mut engine = BaseTransformer::new([TracePass::new('x')]);
    assert_eq!(engine.transform(&mut root), Ok(()));
    let js = NodeKind::JsExpr;
    assert_eq!(
        engine.passes[0].log,
        vec![
            enter(NodeKind::Root),
            enter(NodeKind::If),
            enter(js),
            exit(js),
            enter(NodeKind::Text),
            exit(NodeKind::Text),
            enter(js),
            exit(js),
            enter(NodeKind::Comment),
            exit(NodeKind::Comment),
            enter(NodeKind::Text),
            exit(NodeKind::Text),
            exit(NodeKind::If),
            exit(NodeKind::Root),
        ]
    );
}

#[test]
fn loop_is_walked_source_then_child() {
    let looped = IRNode::For(ForNodeIR {
        source: simple("items"),
        value: Some("item".to_string()),
        key: None,
        index: None,
        child: Box::new(comment("c")),
    });
    let mut root = IRRoot { body: vec![looped] };
    let mut engine = BaseTransformer::new([TracePass::new('x')]);
    assert_eq!(engine.transform(&mut root), Ok(()));
    assert_eq!(
        engine.passes[0].log,
        vec![
            enter(NodeKind::Root),
            enter(NodeKind::For),
            enter(NodeKind::JsExpr),
            exit(NodeKind::JsExpr),
            enter(NodeKind::Comment),
            exit(NodeKind::Comment),
            exit(NodeKind::For),
            exit(NodeKind::Root),
        ]
    );
}

#[test]
fn slot_outlet_is_walked_name_props_fallbacks() {
    let outlet = IRNode::RenderSlotCall(RenderSlotIR {
        slot_name: lit("default"),
        slot_props: Some(simple("p")),
        fallbacks: vec![text("f")],
    });
    let mut root = IRRoot { body: vec![outlet] };
    let mut engine = BaseTransformer::new([TracePass::new('x')]);
    assert_eq!(engine.transform(&mut root), Ok(()));
    let js = NodeKind::JsExpr;
    assert_eq!(
        engine.passes[0].log,
        vec![
            enter(NodeKind::Root),
            enter(NodeKind::SlotOutlet),
            enter(js),
            exit(js),
            enter(js),
            exit(js),
            enter(NodeKind::Text),
            exit(NodeKind::Text),
            exit(NodeKind::SlotOutlet),
            exit(NodeKind::Root),
        ]
    );
}

#[test]
fn slots_are_walked_stable_then_alterable() {
    let slots = IRNode::VSlotUse(VSlotIR {
        stable_slots: vec![Slot { name: lit("header"), body: vec![text("h")] }],
        alterable_slots: vec![IRNode::AlterableSlot(Slot { name: simple("dyn"), body: vec![comment("c")] })],
    });
    let mut root = IRRoot { body: vec![slots] };
    let mut engine = BaseTransformer::new([TracePass::new('x')]);
    assert_eq!(engine.transform(&mut root), Ok(()));
    let js = NodeKind::JsExpr;
    assert_eq!(
        engine.passes[0].log,
        vec![
            enter(NodeKind::Root),
            enter(NodeKind::VSlot),
            enter(NodeKind::SlotFn),
            enter(js),
            exit(js),
            enter(NodeKind::Text),
            exit(NodeKind::Text),
            exit(NodeKind::SlotFn),
            enter(NodeKind::SlotFn),
            enter(js),
            exit(js),
            enter(NodeKind::Comment),
            exit(NodeKind::Comment),
            exit(NodeKind::SlotFn),
            exit(NodeKind::VSlot),
            exit(NodeKind::Root),
        ]
    );
}

#[test]
fn expressions_are_walked_into_calls_compounds_arrays_and_objects() {
    let tag = JsExpr::Call(
        RuntimeHelper::MergeProps,
        vec![
            JsExpr::Compound(vec![src("a"), simple("b")]),
            JsExpr::Array(vec![lit("c")]),
            JsExpr::Props(vec![(lit("k"), JsExpr::Symbol(RuntimeHelper::ToHandlers))]),
        ],
    );
    let mut root = IRRoot {
        body: vec![IRNode::VNodeCall(VNodeIR { tag, props: None, children: vec![], directives: vec![] })],
    };
    let mut engine = BaseTransformer::new([TracePass::new('x')]);
    assert_eq!(engine.transform(&mut root), Ok(()));
    // root, element, and nine expressions: the call, the compound and its two
    // parts, the array and its item, the object, its key and its value
    assert_eq!(engine.passes[0].log.len(), 2 * (2 + 9));
    let js = NodeKind::JsExpr;
    assert_eq!(
        engine.passes[0].log[2..12].to_vec(),
        vec![enter(js), enter(js), enter(js), exit(js), enter(js), exit(js), exit(js), enter(js), enter(js), exit(js)]
    );
}

#[test]
fn conditional_without_branches_is_malformed() {
    let mut root = IRRoot { body: vec![IRNode::If(IfNodeIR { branches: vec![] })] };
    let mut engine = BaseTransformer::new([NoopPass]);
    assert_eq!(engine.transform(&mut root), Err(CompileError::MalformedIr(NodeKind::If)));
}

#[test]
fn fallback_branch_that_is_not_last_is_malformed() {
    let conditional = IRNode::If(IfNodeIR {
        branches: vec![
            IfBranch { condition: None, child: text("else") },
            IfBranch { condition: Some(simple("a")), child: text("then") },
        ],
    });
    let mut root = IRRoot { body: vec![conditional] };
    let mut engine = BaseTransformer::new([NoopPass]);
    assert_eq!(engine.transform(&mut root), Err(CompileError::MalformedIr(NodeKind::If)));
}

#[test]
fn malformed_conditional_deep_in_the_tree_fails_the_walk() {
    let inner = IRNode::If(IfNodeIR { branches: vec![] });
    let looped = IRNode::For(ForNodeIR {
        source: simple("items"),
        value: None,
        key: None,
        index: None,
        child: Box::new(IRNode::VNodeCall(element(vec![text("a"), inner]))),
    });
    let mut root = IRRoot { body: vec![IRNode::VNodeCall(element(vec![looped]))] };
    let mut engine = BaseTransformer::new([TracePass::new('x')]);
    assert_eq!(engine.transform(&mut root), Err(CompileError::MalformedIr(NodeKind::If)));
    // the walk stopped at the conditional: no hook ran on it
    assert!(!engine.passes[0].log.contains(&enter(NodeKind::If)));
}

#[test]
fn conditional_with_a_single_fallback_is_well_formed() {
    let conditional = IRNode::If(IfNodeIR { branches: vec![IfBranch { condition: None, child: text("t") }] });
    let mut root = IRRoot { body: vec![conditional] };
    let mut engine = BaseTransformer::new([NoopPass]);
    assert_eq!(engine.transform(&mut root), Ok(()));
}

#[test]
fn empty_tree_gets_the_root_hooks_only() {
    let mut root = IRRoot { body: vec![] };
    let mut engine = BaseTransformer::new([TracePass::new('x')]);
    assert_eq!(engine.transform(&mut root), Ok(()));
    assert_eq!(engine.passes[0].log, vec![enter(NodeKind::Root), exit(NodeKind::Root)]);
}

#[test]
fn post_processing_of_a_loop_child_does_nothing() {
    post_process_v_for_child();
}
