use vstd::prelude::*;

verus! {

/// A half-open span of byte offsets into the template source.
#[derive(Clone, Copy, Debug, PartialEq, Eq, Structural)]
pub struct SourceLocation {
    pub start: usize,
    pub end: usize,
}

/// The kinds of node that hooks are dispatched on.
#[derive(Clone, Copy, Debug, PartialEq, Eq, Structural)]
pub enum NodeKind {
    Root,
    Text,
    If,
    For,
    VNode,
    SlotOutlet,
    VSlot,
    SlotFn,
    JsExpr,
    Comment,
}

/// Why a compilation was abandoned. Every variant is fatal.
#[derive(Clone, Debug, PartialEq, Eq)]
pub enum CompileError {
    /// A node of the given kind breaks a structural rule of the tree.
    MalformedIr(NodeKind),
    /// The directive at this location cannot stand beside an earlier one on
    /// the same element.
    UnsupportedDirectiveCombination(SourceLocation),
    /// Inline mode asked for the binding behind this `ref` name and the
    /// binding analysis knows none.
    UnresolvedInlineBinding(String),
}

/// The mathematical value of a [`CompileError`].
pub enum CompileErrorView {
    MalformedIr(NodeKind),
    UnsupportedDirectiveCombination(SourceLocation),
    UnresolvedInlineBinding(Seq<char>),
}

impl View for CompileError {
    type V = CompileErrorView;

    open spec fn view(&self) -> CompileErrorView {
        match self {
            CompileError::MalformedIr(k) => CompileErrorView::MalformedIr(*k),
            CompileError::UnsupportedDirectiveCombination(l) => {
                CompileErrorView::UnsupportedDirectiveCombination(*l)
            },
            CompileError::UnresolvedInlineBinding(s) => CompileErrorView::UnresolvedInlineBinding(s@),
        }
    }
}

} // verus!
