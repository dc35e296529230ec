use vstd::prelude::*;

verus! {

/// A helper that the runtime injects and generated code calls by name.
#[derive(Clone, Copy, Debug, PartialEq, Eq, Structural)]
pub enum RuntimeHelper {
    MergeProps,
    ToHandlers,
    ToHandlerKey,
    NormalizeClass,
    NormalizeStyle,
    NormalizeProps,
    GuardReactiveProps,
}

/// An expression embedded in the tree. Only `Call`, `Compound`, `Array` and
/// `Props` hold further expressions.
#[derive(Debug, PartialEq, Eq)]
pub enum JsExpr {
    /// A slice of source text, emitted as it stands.
    Src(String),
    /// A simple expression such as an identifier.
    Simple(String),
    /// A string literal, emitted quoted.
    StrLit(String),
    /// A reference to a runtime helper.
    Symbol(RuntimeHelper),
    /// A call of a runtime helper.
    Call(RuntimeHelper, Vec<JsExpr>),
    /// Parts joined into one expression.
    Compound(Vec<JsExpr>),
    Array(Vec<JsExpr>),
    /// An object literal: key and value pairs in source order.
    Props(Vec<(JsExpr, JsExpr)>),
}

pub type Prop = (JsExpr, JsExpr);

/// A directive that survives into the node because it is resolved at run time.
#[derive(Debug, PartialEq, Eq)]
pub struct RuntimeDir {
    pub name: JsExpr,
    pub expr: Option<JsExpr>,
    pub arg: Option<JsExpr>,
    pub mods: Option<JsExpr>,
}

#[derive(Debug, PartialEq, Eq)]
pub struct TextIR {
    pub content: String,
}

#[derive(Debug, PartialEq, Eq)]
pub struct CommentIR {
    pub content: String,
}

/// One arm of a conditional. A branch without a condition is the fallback.
#[derive(Debug, PartialEq, Eq)]
pub struct IfBranch {
    pub condition: Option<JsExpr>,
    pub child: IRNode,
}

#[derive(Debug, PartialEq, Eq)]
pub struct IfNodeIR {
    pub branches: Vec<IfBranch>,
}

#[derive(Debug, PartialEq, Eq)]
pub struct ForNodeIR {
    pub source: JsExpr,
    pub value: Option<String>,
    pub key: Option<String>,
    pub index: Option<String>,
    pub child: Box<IRNode>,
}

#[derive(Debug, PartialEq, Eq)]
pub struct VNodeIR {
    pub tag: JsExpr,
    pub props: Option<JsExpr>,
    pub children: Vec<IRNode>,
    pub directives: Vec<RuntimeDir>,
}

#[derive(Debug, PartialEq, Eq)]
pub struct RenderSlotIR {
    pub slot_name: JsExpr,
    pub slot_props: Option<JsExpr>,
    pub fallbacks: Vec<IRNode>,
}

#[derive(Debug, PartialEq, Eq)]
pub struct Slot {
    pub name: JsExpr,
    pub body: Vec<IRNode>,
}

/// Slots handed to a component: those known at compile time, and those that
/// sit under a condition or a loop and are therefore nodes themselves.
#[derive(Debug, PartialEq, Eq)]
pub struct VSlotIR {
    pub stable_slots: Vec<Slot>,
    pub alterable_slots: Vec<IRNode>,
}

/// A node of the tree. Each node owns its children.
#[derive(Debug, PartialEq, Eq)]
pub enum IRNode {
    TextCall(TextIR),
    If(IfNodeIR),
    For(ForNodeIR),
    VNodeCall(VNodeIR),
    RenderSlotCall(RenderSlotIR),
    CommentCall(CommentIR),
    VSlotUse(VSlotIR),
    AlterableSlot(Slot),
}

#[derive(Debug, PartialEq, Eq)]
pub struct IRRoot {
    pub body: Vec<IRNode>,
}

// ---------------------------------------------------------------------------
// Mathematical values of the tree
// ---------------------------------------------------------------------------

pub enum JsExprView {
    Src(Seq<char>),
    Simple(Seq<char>),
    StrLit(Seq<char>),
    Symbol(RuntimeHelper),
    Call(RuntimeHelper, Seq<JsExprView>),
    Compound(Seq<JsExprView>),
    Array(Seq<JsExprView>),
    Props(Seq<(JsExprView, JsExprView)>),
}

pub struct RuntimeDirView {
    pub name: JsExprView,
    pub expr: Option<JsExprView>,
    pub arg: Option<JsExprView>,
    pub mods: Option<JsExprView>,
}

pub struct IfBranchView {
    pub condition: Option<JsExprView>,
    pub child: IRNodeView,
}

pub struct IfNodeView {
    pub branches: Seq<IfBranchView>,
}

pub struct ForNodeView {
    pub source: JsExprView,
    pub value: Option<Seq<char>>,
    pub key: Option<Seq<char>>,
    pub index: Option<Seq<char>>,
    pub child: Box<IRNodeView>,
}

pub struct VNodeView {
    pub tag: JsExprView,
    pub props: Option<JsExprView>,
    pub children: Seq<IRNodeView>,
    pub directives: Seq<RuntimeDirView>,
}

pub struct RenderSlotView {
    pub slot_name: JsExprView,
    pub slot_props: Option<JsExprView>,
    pub fallbacks: Seq<IRNodeView>,
}

pub struct SlotView {
    pub name: JsExprView,
    pub body: Seq<IRNodeView>,
}

pub struct VSlotView {
    pub stable_slots: Seq<SlotView>,
    pub alterable_slots: Seq<IRNodeView>,
}

pub enum IRNodeView {
    TextCall(Seq<char>),
    If(IfNodeView),
    For(ForNodeView),
    VNodeCall(VNodeView),
    RenderSlotCall(RenderSlotView),
    CommentCall(Seq<char>),
    VSlotUse(VSlotView),
    AlterableSlot(SlotView),
}

pub struct IRRootView {
    pub body: Seq<IRNodeView>,
}

pub open spec fn opt_str_view(o: Option<String>) -> Option<Seq<char>> {
    match o {
        Some(s) => Some(s@),
        None => None,
    }
}

/// The value of an expression.
pub open spec fn js_view(e: JsExpr) -> JsExprView
    decreases e,
{
    match e {
        JsExpr::Src(s) => JsExprView::Src(s@),
        JsExpr::Simple(s) => JsExprView::Simple(s@),
        JsExpr::StrLit(s) => JsExprView::StrLit(s@),
        JsExpr::Symbol(h) => JsExprView::Symbol(h),
        JsExpr::Call(h, v) => JsExprView::Call(h, js_views(v@)),
        JsExpr::Compound(v) => JsExprView::Compound(js_views(v@)),
        JsExpr::Array(v) => JsExprView::Array(js_views(v@)),
        JsExpr::Props(v) => JsExprView::Props(pair_views(v@)),
    }
}

/// The values of a list of expressions, one for one.
pub open spec fn js_views(v: Seq<JsExpr>) -> Seq<JsExprView>
    decreases v,
{
    Seq::new(
        v.len(),
        |i: int|
            if 0 <= i < v.len() {
                js_view(v[i])
            } else {
                JsExprView::Array(seq![])
            },
    )
}

/// The values of a list of key and value pairs, one for one.
pub open spec fn pair_views(v: Seq<(JsExpr, JsExpr)>) -> Seq<(JsExprView, JsExprView)>
    decreases v,
{
    Seq::new(
        v.len(),
        |i: int|
            if 0 <= i < v.len() {
                (js_view(v[i].0), js_view(v[i].1))
            } else {
                (JsExprView::Array(seq![]), JsExprView::Array(seq![]))
            },
    )
}

impl View for JsExpr {
    type V = JsExprView;

    open spec fn view(&self) -> JsExprView {
        js_view(*self)
    }
}

pub open spec fn opt_js_view(o: Option<JsExpr>) -> Option<JsExprView> {
    match o {
        Some(e) => Some(e@),
        None => None,
    }
}

impl View for RuntimeDir {
    type V = RuntimeDirView;

    open spec fn view(&self) -> RuntimeDirView {
        RuntimeDirView {
            name: self.name@,
            expr: opt_js_view(self.expr),
            arg: opt_js_view(self.arg),
            mods: opt_js_view(self.mods),
        }
    }
}

pub open spec fn dir_views(v: Seq<RuntimeDir>) -> Seq<RuntimeDirView> {
    Seq::new(v.len(), |i: int| v[i]@)
}

impl View for TextIR {
    type V = Seq<char>;

    open spec fn view(&self) -> Seq<char> {
        self.content@
    }
}

impl View for CommentIR {
    type V = Seq<char>;

    open spec fn view(&self) -> Seq<char> {
        self.content@
    }
}

/// The value of a node.
pub open spec fn ir_view(n: IRNode) -> IRNodeView
    decreases n,
{
    match n {
        IRNode::TextCall(t) => IRNodeView::TextCall(t@),
        IRNode::If(i) => IRNodeView::If(if_view(i)),
        IRNode::For(f) => IRNodeView::For(for_view(f)),
        IRNode::VNodeCall(v) => IRNodeView::VNodeCall(vnode_view(v)),
        IRNode::RenderSlotCall(r) => IRNodeView::RenderSlotCall(slot_outlet_view(r)),
        IRNode::CommentCall(c) => IRNodeView::CommentCall(c@),
        IRNode::VSlotUse(s) => IRNodeView::VSlotUse(v_slot_view(s)),
        IRNode::AlterableSlot(s) => IRNodeView::AlterableSlot(slot_view(s)),
    }
}

/// The values of a list of nodes, one for one.
pub open spec fn ir_views(v: Seq<IRNode>) -> Seq<IRNodeView>
    decreases v,
{
    Seq::new(
        v.len(),
        |i: int|
            if 0 <= i < v.len() {
                ir_view(v[i])
            } else {
                IRNodeView::TextCall(seq![])
            },
    )
}

pub open spec fn branch_view(b: IfBranch) -> IfBranchView
    decreases b,
{
    IfBranchView { condition: opt_js_view(b.condition), child: ir_view(b.child) }
}

pub open spec fn branch_views(v: Seq<IfBranch>) -> Seq<IfBranchView>
    decreases v,
{
    Seq::new(
        v.len(),
        |i: int|
            if 0 <= i < v.len() {
                branch_view(v[i])
            } else {
                IfBranchView { condition: None, child: IRNodeView::TextCall(seq![]) }
            },
    )
}

pub open spec fn if_view(i: IfNodeIR) -> IfNodeView
    decreases i,
{
    IfNodeView { branches: branch_views(i.branches@) }
}

pub open spec fn for_view(f: ForNodeIR) -> ForNodeView
    decreases f,
{
    ForNodeView {
        source: f.source@,
        value: opt_str_view(f.value),
        key: opt_str_view(f.key),
        index: opt_str_view(f.index),
        child: Box::new(ir_view(*f.child)),
    }
}

pub open spec fn vnode_view(v: VNodeIR) -> VNodeView
    decreases v,
{
    VNodeView {
        tag: v.tag@,
        props: opt_js_view(v.props),
        children: ir_views(v.children@),
        directives: dir_views(v.directives@),
    }
}

pub open spec fn slot_outlet_view(r: RenderSlotIR) -> RenderSlotView
    decreases r,
{
    RenderSlotView {
        slot_name: r.slot_name@,
        slot_props: opt_js_view(r.slot_props),
        fallbacks: ir_views(r.fallbacks@),
    }
}

pub open spec fn slot_view(s: Slot) -> SlotView
    decreases s,
{
    SlotView { name: s.name@, body: ir_views(s.body@) }
}

pub open spec fn slot_views(v: Seq<Slot>) -> Seq<SlotView>
    decreases v,
{
    Seq::new(
        v.len(),
        |i: int|
            if 0 <= i < v.len() {
                slot_view(v[i])
            } else {
                SlotView { name: JsExprView::Array(seq![]), body: seq![] }
            },
    )
}

pub open spec fn v_slot_view(s: VSlotIR) -> VSlotView
    decreases s,
{
    VSlotView { stable_slots: slot_views(s.stable_slots@), alterable_slots: ir_views(s.alterable_slots@) }
}

impl View for IRNode {
    type V = IRNodeView;

    open spec fn view(&self) -> IRNodeView {
        ir_view(*self)
    }
}

impl View for IfBranch {
    type V = IfBranchView;

    open spec fn view(&self) -> IfBranchView {
        branch_view(*self)
    }
}

impl View for IfNodeIR {
    type V = IfNodeView;

    open spec fn view(&self) -> IfNodeView {
        if_view(*self)
    }
}

impl View for ForNodeIR {
    type V = ForNodeView;

    open spec fn view(&self) -> ForNodeView {
        for_view(*self)
    }
}

impl View for VNodeIR {
    type V = VNodeView;

    open spec fn view(&self) -> VNodeView {
        vnode_view(*self)
    }
}

impl View for RenderSlotIR {
    type V = RenderSlotView;

    open spec fn view(&self) -> RenderSlotView {
        slot_outlet_view(*self)
    }
}

impl View for Slot {
    type V = SlotView;

    open spec fn view(&self) -> SlotView {
        slot_view(*self)
    }
}

impl View for VSlotIR {
    type V = VSlotView;

    open spec fn view(&self) -> VSlotView {
        v_slot_view(*self)
    }
}

impl View for IRRoot {
    type V = IRRootView;

    open spec fn view(&self) -> IRRootView {
        IRRootView { body: ir_views(self.body@) }
    }
}

// ---------------------------------------------------------------------------
// Nesting depth
// ---------------------------------------------------------------------------

pub open spec fn max2(a: nat, b: nat) -> nat {
    if a >= b {
        a
    } else {
        b
    }
}

pub open spec fn opt_js_height(o: Option<JsExprView>) -> nat {
    match o {
        Some(e) => e.height(),
        None => 0,
    }
}

/// The greatest height among `s`, and 0 where `s` is empty.
pub open spec fn js_seq_height(s: Seq<JsExprView>) -> nat
    decreases s,
{
    if s.len() == 0 {
        0
    } else {
        max2(s.last().height(), js_seq_height(s.drop_last()))
    }
}

pub open spec fn pair_seq_height(s: Seq<(JsExprView, JsExprView)>) -> nat
    decreases s,
{
    if s.len() == 0 {
        0
    } else {
        max2(max2(s.last().0.height(), s.last().1.height()), pair_seq_height(s.drop_last()))
    }
}

impl JsExprView {
    /// How deeply expressions nest below this one: 0 for a leaf.
    pub open spec fn height(self) -> nat
        decreases self,
    {
        match self {
            JsExprView::Call(_, v) => 1 + js_seq_height(v),
            JsExprView::Compound(v) => 1 + js_seq_height(v),
            JsExprView::Array(v) => 1 + js_seq_height(v),
            JsExprView::Props(v) => 1 + pair_seq_height(v),
            _ => 0,
        }
    }
}

pub proof fn lemma_js_seq_height(s: Seq<JsExprView>, i: int)
    requires
        0 <= i < s.len(),
    ensures
        s[i].height() <= js_seq_height(s),
    decreases s.len(),
{
    if i < s.len() - 1 {
        lemma_js_seq_height(s.drop_last(), i);
    }
}

pub proof fn lemma_pair_seq_height(s: Seq<(JsExprView, JsExprView)>, i: int)
    requires
        0 <= i < s.len(),
    ensures
        s[i].0.height() <= pair_seq_height(s),
        s[i].1.height() <= pair_seq_height(s),
    decreases s.len(),
{
    if i < s.len() - 1 {
        lemma_pair_seq_height(s.drop_last(), i);
    }
}

impl RuntimeDirView {
    pub open spec fn height(self) -> nat {
        max2(
            self.name.height(),
            max2(opt_js_height(self.expr), max2(opt_js_height(self.arg), opt_js_height(self.mods))),
        )
    }
}

pub open spec fn dir_seq_height(s: Seq<RuntimeDirView>) -> nat
    decreases s.len(),
{
    if s.len() == 0 {
        0
    } else {
        max2(s.last().height(), dir_seq_height(s.drop_last()))
    }
}

pub proof fn lemma_dir_seq_height(s: Seq<RuntimeDirView>, i: int)
    requires
        0 <= i < s.len(),
    ensures
        s[i].height() <= dir_seq_height(s),
    decreases s.len(),
{
    if i < s.len() - 1 {
        lemma_dir_seq_height(s.drop_last(), i);
    }
}

pub open spec fn ir_seq_height(s: Seq<IRNodeView>) -> nat
    decreases s,
{
    if s.len() == 0 {
        0
    } else {
        max2(s.last().height(), ir_seq_height(s.drop_last()))
    }
}

pub open spec fn slot_seq_height(s: Seq<SlotView>) -> nat
    decreases s,
{
    if s.len() == 0 {
        0
    } else {
        max2(s.last().height(), slot_seq_height(s.drop_last()))
    }
}

pub open spec fn branch_seq_height(s: Seq<IfBranchView>) -> nat
    decreases s,
{
    if s.len() == 0 {
        0
    } else {
        max2(s.last().height(), branch_seq_height(s.drop_last()))
    }
}

impl IRNodeView {
    /// How deeply nodes and expressions nest below this node.
    pub open spec fn height(self) -> nat
        decreases self,
    {
        match self {
            IRNodeView::TextCall(_) => 0,
            IRNodeView::If(i) => i.height(),
            IRNodeView::For(f) => f.height(),
            IRNodeView::VNodeCall(v) => v.height(),
            IRNodeView::RenderSlotCall(r) => r.height(),
            IRNodeView::CommentCall(_) => 0,
            IRNodeView::VSlotUse(s) => s.height(),
            IRNodeView::AlterableSlot(s) => s.height(),
        }
    }
}

impl IfBranchView {
    pub open spec fn height(self) -> nat
        decreases self,
    {
        max2(opt_js_height(self.condition), self.child.height())
    }
}

impl IfNodeView {
    pub open spec fn height(self) -> nat
        decreases self,
    {
        1 + branch_seq_height(self.branches)
    }
}

impl ForNodeView {
    pub open spec fn height(self) -> nat
        decreases self,
    {
        1 + max2(self.source.height(), (*self.child).height())
    }
}

impl VNodeView {
    pub open spec fn height(self) -> nat
        decreases self,
    {
        1 + max2(
            max2(self.tag.height(), opt_js_height(self.props)),
            max2(ir_seq_height(self.children), dir_seq_height(self.directives)),
        )
    }
}

impl RenderSlotView {
    pub open spec fn height(self) -> nat
        decreases self,
    {
        1 + max2(max2(self.slot_name.height(), opt_js_height(self.slot_props)), ir_seq_height(self.fallbacks))
    }
}

impl SlotView {
    pub open spec fn height(self) -> nat
        decreases self,
    {
        1 + max2(self.name.height(), ir_seq_height(self.body))
    }
}

impl VSlotView {
    pub open spec fn height(self) -> nat
        decreases self,
    {
        1 + max2(slot_seq_height(self.stable_slots), ir_seq_height(self.alterable_slots))
    }
}

impl IRRootView {
    pub open spec fn height(self) -> nat {
        1 + ir_seq_height(self.body)
    }
}

pub proof fn lemma_ir_seq_height(s: Seq<IRNodeView>, i: int)
    requires
        0 <= i < s.len(),
    ensures
        s[i].height() <= ir_seq_height(s),
    decreases s.len(),
{
    if i < s.len() - 1 {
        lemma_ir_seq_height(s.drop_last(), i);
    }
}

pub proof fn lemma_slot_seq_height(s: Seq<SlotView>, i: int)
    requires
        0 <= i < s.len(),
    ensures
        s[i].height() <= slot_seq_height(s),
    decreases s.len(),
{
    if i < s.len() - 1 {
        lemma_slot_seq_height(s.drop_last(), i);
    }
}

pub proof fn lemma_branch_seq_height(s: Seq<IfBranchView>, i: int)
    requires
        0 <= i < s.len(),
    ensures
        s[i].height() <= branch_seq_height(s),
    decreases s.len(),
{
    if i < s.len() - 1 {
        lemma_branch_seq_height(s.drop_last(), i);
    }
}

/// Every member of a list is at most as high as the list.
pub proof fn lemma_js_seq_bound(s: Seq<JsExprView>)
    ensures
        forall|i: int| 0 <= i < s.len() ==> (#[trigger] s[i]).height() <= js_seq_height(s),
{
    assert forall|i: int| 0 <= i < s.len() implies (#[trigger] s[i]).height() <= js_seq_height(s) by {
        lemma_js_seq_height(s, i);
    }
}

pub proof fn lemma_pair_seq_bound(s: Seq<(JsExprView, JsExprView)>)
    ensures
        forall|i: int|
            0 <= i < s.len() ==> {
                &&& (#[trigger] s[i]).0.height() <= pair_seq_height(s)
                &&& s[i].1.height() <= pair_seq_height(s)
            },
{
    assert forall|i: int| 0 <= i < s.len() implies {
        &&& (#[trigger] s[i]).0.height() <= pair_seq_height(s)
        &&& s[i].1.height() <= pair_seq_height(s)
    } by {
        lemma_pair_seq_height(s, i);
    }
}

pub proof fn lemma_dir_seq_bound(s: Seq<RuntimeDirView>)
    ensures
        forall|i: int| 0 <= i < s.len() ==> (#[trigger] s[i]).height() <= dir_seq_height(s),
{
    assert forall|i: int| 0 <= i < s.len() implies (#[trigger] s[i]).height() <= dir_seq_height(s) by {
        lemma_dir_seq_height(s, i);
    }
}

pub proof fn lemma_ir_seq_bound(s: Seq<IRNodeView>)
    ensures
        forall|i: int| 0 <= i < s.len() ==> (#[trigger] s[i]).height() <= ir_seq_height(s),
{
    assert forall|i: int| 0 <= i < s.len() implies (#[trigger] s[i]).height() <= ir_seq_height(s) by {
        lemma_ir_seq_height(s, i);
    }
}

pub proof fn lemma_slot_seq_bound(s: Seq<SlotView>)
    ensures
        forall|i: int| 0 <= i < s.len() ==> (#[trigger] s[i]).height() <= slot_seq_height(s),
{
    assert forall|i: int| 0 <= i < s.len() implies (#[trigger] s[i]).height() <= slot_seq_height(s) by {
        lemma_slot_seq_height(s, i);
    }
}

pub proof fn lemma_branch_seq_bound(s: Seq<IfBranchView>)
    ensures
        forall|i: int| 0 <= i < s.len() ==> (#[trigger] s[i]).height() <= branch_seq_height(s),
{
    assert forall|i: int| 0 <= i < s.len() implies (#[trigger] s[i]).height() <= branch_seq_height(s) by {
        lemma_branch_seq_height(s, i);
    }
}

} // verus!
