//! What the builder is handed: an element's attributes and directives as
//! they stand in the template, and what is known of the script's bindings.

use crate::error::SourceLocation;
use crate::ir::opt_str_view;
use crate::text::str_is;
use vstd::prelude::*;

verus! {

/// A plain attribute: `name="value"`, or `name` alone.
#[derive(Clone, Debug, PartialEq, Eq)]
pub struct Attribute {
    pub name: String,
    pub value: Option<String>,
    pub location: SourceLocation,
}

/// The argument of a directive: fixed in the template, or an expression in
/// square brackets.
#[derive(Clone, Debug, PartialEq, Eq)]
pub enum DirectiveArg {
    Static(String),
    Dynamic(String),
}

/// A directive: `v-name:argument.modifiers="expression"`. The name stands
/// without its prefix: `bind`, `on`, `if`.
#[derive(Clone, Debug, PartialEq, Eq)]
pub struct Directive {
    pub name: String,
    pub argument: Option<DirectiveArg>,
    pub modifiers: Vec<String>,
    pub expression: Option<String>,
    pub location: SourceLocation,
}

#[derive(Clone, Debug, PartialEq, Eq)]
pub enum ElemProp {
    Attr(Attribute),
    Dir(Directive),
}

#[derive(Clone, Debug, PartialEq, Eq)]
pub struct Element {
    pub tag_name: String,
}

/// How the script analysis classifies a name.
#[derive(Clone, Copy, Debug, PartialEq, Eq, Structural)]
pub enum BindingTypes {
    Data,
    Props,
    SetupLet,
    SetupConst,
    SetupMaybeRef,
    SetupRef,
    Options,
}

/// The names that the script analysis has classified. Where a name stands
/// twice, the first entry counts.
#[derive(Clone, Debug, PartialEq, Eq)]
pub struct BindingMetadata {
    pub bindings: Vec<(String, BindingTypes)>,
}

/// What the conversion of one template goes by.
#[derive(Clone, Debug, PartialEq, Eq)]
pub struct BaseConverter {
    /// The render function is emitted inside the script's setup scope.
    pub inline: bool,
    /// The output is for rendering on the server.
    pub ssr: bool,
    pub binding_metadata: BindingMetadata,
}

pub struct AttributeView {
    pub name: Seq<char>,
    pub value: Option<Seq<char>>,
    pub location: SourceLocation,
}

pub enum DirectiveArgView {
    Static(Seq<char>),
    Dynamic(Seq<char>),
}

pub struct DirectiveView {
    pub name: Seq<char>,
    pub argument: Option<DirectiveArgView>,
    pub modifiers: Seq<Seq<char>>,
    pub expression: Option<Seq<char>>,
    pub location: SourceLocation,
}

pub enum ElemPropView {
    Attr(AttributeView),
    Dir(DirectiveView),
}

pub struct BaseConverterView {
    pub inline: bool,
    pub ssr: bool,
    pub bindings: Seq<(Seq<char>, BindingTypes)>,
}

pub open spec fn str_views(v: Seq<String>) -> Seq<Seq<char>> {
    Seq::new(v.len(), |i: int| v[i]@)
}

impl View for Attribute {
    type V = AttributeView;

    open spec fn view(&self) -> AttributeView {
        AttributeView { name: self.name@, value: opt_str_view(self.value), location: self.location }
    }
}

impl View for DirectiveArg {
    type V = DirectiveArgView;

    open spec fn view(&self) -> DirectiveArgView {
        match self {
            DirectiveArg::Static(s) => DirectiveArgView::Static(s@),
            DirectiveArg::Dynamic(s) => DirectiveArgView::Dynamic(s@),
        }
    }
}

pub open spec fn opt_arg_view(o: Option<DirectiveArg>) -> Option<DirectiveArgView> {
    match o {
        Some(a) => Some(a@),
        None => None,
    }
}

impl View for Directive {
    type V = DirectiveView;

    open spec fn view(&self) -> DirectiveView {
        DirectiveView {
            name: self.name@,
            argument: opt_arg_view(self.argument),
            modifiers: str_views(self.modifiers@),
            expression: opt_str_view(self.expression),
            location: self.location,
        }
    }
}

pub open spec fn directive_views(v: Seq<Directive>) -> Seq<DirectiveView> {
    Seq::new(v.len(), |i: int| v[i]@)
}

impl View for ElemProp {
    type V = ElemPropView;

    open spec fn view(&self) -> ElemPropView {
        match self {
            ElemProp::Attr(a) => ElemPropView::Attr(a@),
            ElemProp::Dir(d) => ElemPropView::Dir(d@),
        }
    }
}

pub open spec fn elem_prop_views(v: Seq<ElemProp>) -> Seq<ElemPropView> {
    Seq::new(v.len(), |i: int| v[i]@)
}

impl View for BindingMetadata {
    type V = Seq<(Seq<char>, BindingTypes)>;

    open spec fn view(&self) -> Seq<(Seq<char>, BindingTypes)> {
        Seq::new(self.bindings.len() as nat, |i: int| (self.bindings[i].0@, self.bindings[i].1))
    }
}

impl View for BaseConverter {
    type V = BaseConverterView;

    open spec fn view(&self) -> BaseConverterView {
        BaseConverterView { inline: self.inline, ssr: self.ssr, bindings: self.binding_metadata@ }
    }
}

/// The class of the first entry for `name` at index `from` or after it.
pub open spec fn binding_from(bindings: Seq<(Seq<char>, BindingTypes)>, name: Seq<char>, from: int) -> Option<
    BindingTypes,
>
    decreases bindings.len() - from,
{
    if 0 <= from < bindings.len() {
        if bindings[from].0 == name {
            Some(bindings[from].1)
        } else {
            binding_from(bindings, name, from + 1)
        }
    } else {
        None
    }
}

/// The class of `name`, where the analysis knows the name.
pub open spec fn binding_of(bindings: Seq<(Seq<char>, BindingTypes)>, name: Seq<char>) -> Option<BindingTypes> {
    binding_from(bindings, name, 0)
}

impl BindingMetadata {
    /// The class of `name`, where the analysis knows the name.
    pub fn lookup(&self, name: &str) -> (r: Option<BindingTypes>)
        ensures
            r == binding_of(self@, name@),
    {
        let mut i: usize = 0;
        while i < self.bindings.len()
            invariant
                i <= self.bindings.len(),
                binding_from(self@, name@, i as int) == binding_of(self@, name@),
            decreases self.bindings.len() - i,
        {
            if str_is(self.bindings[i].0.as_str(), name) {
                return Some(self.bindings[i].1);
            }
            i += 1;
        }
        None
    }
}

/// Whether a tag names the dynamic component.
pub open spec fn names_component(tag: Seq<char>) -> bool {
    tag == "component"@ || tag == "Component"@
}

/// Whether a tag names the dynamic component.
pub fn is_component_tag(tag: &str) -> (b: bool)
    ensures
        b == names_component(tag@),
{
    str_is(tag, "component") || str_is(tag, "Component")
}

/// A copy of a string.
pub fn copy_str(s: &String) -> (r: String)
    ensures
        r@ == s@,
{
    s.clone()
}

pub fn copy_opt_str(o: &Option<String>) -> (r: Option<String>)
    ensures
        opt_str_view(r) == opt_str_view(*o),
{
    match o {
        Some(s) => Some(copy_str(s)),
        None => None,
    }
}

/// A copy of a directive, field for field.
pub fn copy_directive(d: &Directive) -> (r: Directive)
    ensures
        r@ == d@,
{
    let mut modifiers: Vec<String> = Vec::new();
    let mut i: usize = 0;
    while i < d.modifiers.len()
        invariant
            i <= d.modifiers.len(),
            str_views(modifiers@) == str_views(d.modifiers@).take(i as int),
        decreases d.modifiers.len() - i,
    {
        let ghost before = modifiers@;
        modifiers.push(copy_str(&d.modifiers[i]));
        assert(str_views(modifiers@) =~= str_views(before).push(d.modifiers[i as int]@));
        assert(str_views(d.modifiers@).take(i + 1) =~= str_views(d.modifiers@).take(i as int).push(
            d.modifiers[i as int]@,
        ));
        i += 1;
    }
    assert(str_views(d.modifiers@).take(d.modifiers.len() as int) =~= str_views(d.modifiers@));
    let argument = match &d.argument {
        Some(DirectiveArg::Static(s)) => Some(DirectiveArg::Static(copy_str(s))),
        Some(DirectiveArg::Dynamic(s)) => Some(DirectiveArg::Dynamic(copy_str(s))),
        None => None,
    };
    Directive {
        name: copy_str(&d.name),
        argument,
        modifiers,
        expression: copy_opt_str(&d.expression),
        location: d.location,
    }
}

} // verus!
