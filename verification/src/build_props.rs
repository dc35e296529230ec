//! From an element's attributes and directives to the properties of its node:
//! one expression for the properties, the directives left for the runtime, the
//! patch flag, and the names of the properties that can change.

use crate::error::{CompileError, CompileErrorView};
use crate::flags::{bit_if, PatchFlag, CLASS, FULL_PROPS, HYDRATE_EVENTS, NEED_PATCH, PROPS, STYLE};
use crate::ir::{js_views, opt_js_view, pair_views, JsExpr, JsExprView, Prop, RuntimeHelper};
use crate::props::{
    binding_of, copy_directive, copy_str, directive_views, elem_prop_views, is_component_tag,
    names_component, str_views, Attribute, AttributeView, BaseConverter, BaseConverterView, Directive,
    DirectiveArg, DirectiveArgView, DirectiveView, ElemProp, ElemPropView, Element,
};
use crate::text::{handler_key, handler_key_of, has_prefix, starts_with, str_is};
use vstd::prelude::*;

verus! {

/// What the builder hands back.
#[derive(Debug, PartialEq, Eq)]
pub struct BuildProps {
    pub props: Option<JsExpr>,
    pub directives: Vec<Directive>,
    pub patch_flag: PatchFlag,
    pub dynamic_prop_names: Vec<String>,
}

pub struct BuildPropsView {
    pub props: Option<JsExprView>,
    pub directives: Seq<DirectiveView>,
    pub patch_flag: PatchFlag,
    pub dynamic_prop_names: Seq<Seq<char>>,
}

impl View for BuildProps {
    type V = BuildPropsView;

    open spec fn view(&self) -> BuildPropsView {
        BuildPropsView {
            props: opt_js_view(self.props),
            directives: directive_views(self.directives@),
            patch_flag: self.patch_flag,
            dynamic_prop_names: str_views(self.dynamic_prop_names@),
        }
    }
}

/// What has been noticed of the properties so far.
#[derive(Clone, Copy, Debug, PartialEq, Eq, Structural)]
pub struct PropFlags {
    pub has_ref: bool,
    pub has_class_binding: bool,
    pub has_style_binding: bool,
    pub has_hydration_event_binding: bool,
    pub has_dynamic_keys: bool,
    pub has_vnode_hook: bool,
}

/// What has been gathered from the attributes and directives read so far.
#[derive(Debug, PartialEq, Eq)]
pub struct CollectProps {
    pub props: Vec<Prop>,
    pub merge_args: Vec<JsExpr>,
    pub runtime_dirs: Vec<Directive>,
    pub dynamic_prop_names: Vec<String>,
    pub prop_flags: PropFlags,
    /// A conditional directive has been read.
    pub conditional: bool,
}

pub struct Collected {
    pub props: Seq<(JsExprView, JsExprView)>,
    pub merge_args: Seq<JsExprView>,
    pub runtime_dirs: Seq<DirectiveView>,
    pub dynamic_prop_names: Seq<Seq<char>>,
    pub prop_flags: PropFlags,
    pub conditional: bool,
}

impl View for CollectProps {
    type V = Collected;

    open spec fn view(&self) -> Collected {
        Collected {
            props: pair_views(self.props@),
            merge_args: js_views(self.merge_args@),
            runtime_dirs: directive_views(self.runtime_dirs@),
            dynamic_prop_names: str_views(self.dynamic_prop_names@),
            prop_flags: self.prop_flags,
            conditional: self.conditional,
        }
    }
}

// ---------------------------------------------------------------------------
// What the builder computes
// ---------------------------------------------------------------------------

pub open spec fn no_flags() -> PropFlags {
    PropFlags {
        has_ref: false,
        has_class_binding: false,
        has_style_binding: false,
        has_hydration_event_binding: false,
        has_dynamic_keys: false,
        has_vnode_hook: false,
    }
}

pub open spec fn nothing_collected() -> Collected {
    Collected {
        props: Seq::empty(),
        merge_args: Seq::empty(),
        runtime_dirs: Seq::empty(),
        dynamic_prop_names: Seq::empty(),
        prop_flags: no_flags(),
        conditional: false,
    }
}

impl Collected {
    pub open spec fn with_dynamic_keys(self) -> Collected {
        Collected {
            props: self.props,
            merge_args: self.merge_args,
            runtime_dirs: self.runtime_dirs,
            dynamic_prop_names: self.dynamic_prop_names,
            prop_flags: PropFlags {
                has_ref: self.prop_flags.has_ref,
                has_class_binding: self.prop_flags.has_class_binding,
                has_style_binding: self.prop_flags.has_style_binding,
                has_hydration_event_binding: self.prop_flags.has_hydration_event_binding,
                has_dynamic_keys: true,
                has_vnode_hook: self.prop_flags.has_vnode_hook,
            },
            conditional: self.conditional,
        }
    }

    /// What one more property means for the flags and the names: a key that is
    /// no literal makes the keys dynamic; `ref` is noted; a literal key with a
    /// value that is no literal is a class binding, a style binding, or is
    /// named among the dynamic properties, once.
    pub open spec fn analyzed(self, key: JsExprView, value: JsExprView) -> Collected {
        match key {
            JsExprView::StrLit(name) => {
                let dynamic = !(value is StrLit);
                let is_class = name == "class"@;
                let is_style = name == "style"@;
                let named = dynamic && !is_class && !is_style && !self.dynamic_prop_names.contains(name);
                Collected {
                    props: self.props,
                    merge_args: self.merge_args,
                    runtime_dirs: self.runtime_dirs,
                    dynamic_prop_names: if named {
                        self.dynamic_prop_names.push(name)
                    } else {
                        self.dynamic_prop_names
                    },
                    prop_flags: PropFlags {
                        has_ref: self.prop_flags.has_ref || name == "ref"@,
                        has_class_binding: self.prop_flags.has_class_binding || (dynamic && is_class),
                        has_style_binding: self.prop_flags.has_style_binding || (dynamic && is_style),
                        has_hydration_event_binding: self.prop_flags.has_hydration_event_binding,
                        has_dynamic_keys: self.prop_flags.has_dynamic_keys,
                        has_vnode_hook: self.prop_flags.has_vnode_hook,
                    },
                    conditional: self.conditional,
                }
            },
            _ => self.with_dynamic_keys(),
        }
    }

    /// One more property, at the end.
    pub open spec fn with_prop(self, key: JsExprView, value: JsExprView) -> Collected {
        Collected {
            props: self.props.push((key, value)),
            merge_args: self.merge_args,
            runtime_dirs: self.runtime_dirs,
            dynamic_prop_names: self.dynamic_prop_names,
            prop_flags: self.prop_flags,
            conditional: self.conditional,
        }.analyzed(key, value)
    }

    /// An object spread into the properties: the keys are dynamic from here
    /// on, and the object, where there is one, is merged in.
    pub open spec fn with_spread(self, arg: Option<JsExprView>) -> Collected {
        Collected {
            props: self.props,
            merge_args: match arg {
                Some(a) => self.merge_args.push(a),
                None => self.merge_args,
            },
            runtime_dirs: self.runtime_dirs,
            dynamic_prop_names: self.dynamic_prop_names,
            prop_flags: self.prop_flags,
            conditional: self.conditional,
        }.with_dynamic_keys()
    }

    /// A listener for `event`: a node hook where the event's name begins with
    /// `vnode`; else, unless the event is `click` or the update of a model
    /// value, a binding that hydration has to attach.
    pub open spec fn with_event(self, event: Seq<char>) -> Collected {
        let hook = has_prefix(event, "vnode"@);
        let hydrated = !hook && event != "click"@ && event != "update:modelValue"@;
        Collected {
            props: self.props,
            merge_args: self.merge_args,
            runtime_dirs: self.runtime_dirs,
            dynamic_prop_names: self.dynamic_prop_names,
            prop_flags: PropFlags {
                has_ref: self.prop_flags.has_ref,
                has_class_binding: self.prop_flags.has_class_binding,
                has_style_binding: self.prop_flags.has_style_binding,
                has_hydration_event_binding: self.prop_flags.has_hydration_event_binding || hydrated,
                has_dynamic_keys: self.prop_flags.has_dynamic_keys,
                has_vnode_hook: self.prop_flags.has_vnode_hook || hook,
            },
            conditional: self.conditional,
        }
    }

    /// A structural directive: it makes the keys dynamic.
    pub open spec fn with_structural(self, conditional: bool) -> Collected {
        Collected {
            props: self.props,
            merge_args: self.merge_args,
            runtime_dirs: self.runtime_dirs,
            dynamic_prop_names: self.dynamic_prop_names,
            prop_flags: self.prop_flags,
            conditional: self.conditional || conditional,
        }.with_dynamic_keys()
    }

    /// A directive left for the runtime, as it stands.
    pub open spec fn with_runtime_dir(self, dir: DirectiveView) -> Collected {
        Collected {
            props: self.props,
            merge_args: self.merge_args,
            runtime_dirs: self.runtime_dirs.push(dir),
            dynamic_prop_names: self.dynamic_prop_names,
            prop_flags: self.prop_flags,
            conditional: self.conditional,
        }
    }
}

pub open spec fn opt_str_or_empty(o: Option<Seq<char>>) -> Seq<char> {
    match o {
        Some(s) => s,
        None => Seq::empty(),
    }
}

/// The value of `ref="name"` in inline mode: a reference to the binding of
/// that name, where the analysis knows one.
pub open spec fn inline_ref(bc: BaseConverterView, name: Seq<char>) -> Result<JsExprView, CompileErrorView> {
    if binding_of(bc.bindings, name) is Some {
        Ok(JsExprView::Simple(name))
    } else {
        Err(CompileErrorView::UnresolvedInlineBinding(name))
    }
}

/// What one attribute adds. `is` is left out on the dynamic component and
/// where its value begins with `vue:`; every other attribute becomes a
/// property with a literal key and a literal value, but for a non-empty `ref`
/// in inline mode, whose value is the binding.
pub open spec fn attr_collected(bc: BaseConverterView, tag: Seq<char>, attr: AttributeView, st: Collected) -> Result<
    Collected,
    CompileErrorView,
> {
    let val = opt_str_or_empty(attr.value);
    if attr.name == "is"@ && (names_component(tag) || has_prefix(val, "vue:"@)) {
        Ok(st)
    } else if attr.name == "ref"@ && bc.inline && val.len() > 0 {
        match inline_ref(bc, val) {
            Ok(e) => Ok(st.with_prop(JsExprView::StrLit(attr.name), e)),
            Err(e) => Err(e),
        }
    } else {
        Ok(st.with_prop(JsExprView::StrLit(attr.name), JsExprView::StrLit(val)))
    }
}

/// The directives that shape the tree rather than the element's properties.
pub open spec fn is_structural(name: Seq<char>) -> bool {
    is_conditional(name) || name == "for"@ || name == "slot"@
}

/// The directives of which an element can carry one only.
pub open spec fn is_conditional(name: Seq<char>) -> bool {
    name == "if"@ || name == "else-if"@ || name == "else"@
}

/// A directive that makes the keys of the properties dynamic by what it is: a
/// `bind` or an `on` without an argument, which spreads an object.
pub open spec fn is_spread(dir: DirectiveView) -> bool {
    (dir.name == "bind"@ || dir.name == "on"@) && dir.argument is None
}

/// What one directive adds.
pub open spec fn dir_collected(dir: DirectiveView, st: Collected) -> Result<Collected, CompileErrorView> {
    let exp = JsExprView::Simple(opt_str_or_empty(dir.expression));
    if dir.name == "bind"@ {
        match dir.argument {
            None => Ok(
                st.with_spread(
                    match dir.expression {
                        Some(x) => Some(JsExprView::Simple(x)),
                        None => None,
                    },
                ),
            ),
            Some(DirectiveArgView::Static(a)) => Ok(st.with_prop(JsExprView::StrLit(a), exp)),
            Some(DirectiveArgView::Dynamic(a)) => Ok(st.with_prop(JsExprView::Simple(a), exp)),
        }
    } else if dir.name == "on"@ {
        match dir.argument {
            None => Ok(
                st.with_spread(
                    match dir.expression {
                        Some(x) => Some(
                            JsExprView::Call(RuntimeHelper::ToHandlers, seq![JsExprView::Simple(x)]),
                        ),
                        None => None,
                    },
                ),
            ),
            Some(DirectiveArgView::Static(a)) => Ok(
                st.with_event(a).with_prop(JsExprView::StrLit(handler_key_of(a)), exp),
            ),
            Some(DirectiveArgView::Dynamic(a)) => Ok(
                st.with_prop(
                    JsExprView::Call(RuntimeHelper::ToHandlerKey, seq![JsExprView::Simple(a)]),
                    exp,
                ),
            ),
        }
    } else if is_structural(dir.name) {
        if is_conditional(dir.name) && st.conditional {
            Err(CompileErrorView::UnsupportedDirectiveCombination(dir.location))
        } else {
            Ok(st.with_structural(is_conditional(dir.name)))
        }
    } else {
        Ok(st.with_runtime_dir(dir))
    }
}

pub open spec fn item_collected(bc: BaseConverterView, tag: Seq<char>, item: ElemPropView, st: Collected) -> Result<
    Collected,
    CompileErrorView,
> {
    match item {
        ElemPropView::Attr(a) => attr_collected(bc, tag, a, st),
        ElemPropView::Dir(d) => dir_collected(d, st),
    }
}

/// What the items from index `from` on add to `st`, read in order, up to the
/// first that is refused.
pub open spec fn collected_from(
    bc: BaseConverterView,
    tag: Seq<char>,
    items: Seq<ElemPropView>,
    st: Collected,
    from: int,
) -> Result<Collected, CompileErrorView>
    decreases items.len() - from,
{
    if 0 <= from < items.len() {
        match item_collected(bc, tag, items[from], st) {
            Ok(next) => collected_from(bc, tag, items, next, from + 1),
            Err(e) => Err(e),
        }
    } else {
        Ok(st)
    }
}

/// The one expression for the properties: none where there is nothing; the
/// object of the pairs where nothing is spread; else a call that merges the
/// object of the pairs, where there are pairs, with what is spread, in source
/// order.
pub open spec fn prop_expr(props: Seq<(JsExprView, JsExprView)>, merge_args: Seq<JsExprView>) -> Option<
    JsExprView,
> {
    if merge_args.len() == 0 {
        if props.len() == 0 {
            None
        } else {
            Some(JsExprView::Props(props))
        }
    } else if props.len() == 0 {
        Some(JsExprView::Call(RuntimeHelper::MergeProps, merge_args))
    } else {
        Some(JsExprView::Call(RuntimeHelper::MergeProps, seq![JsExprView::Props(props)] + merge_args))
    }
}

/// The patch flag: the full-properties bit alone where the keys are dynamic;
/// else a bit for each thing noticed.
pub open spec fn patch_flag_of(info: PropFlags, has_dynamic_props: bool) -> PatchFlag {
    if info.has_dynamic_keys {
        PatchFlag { bits: FULL_PROPS }
    } else {
        PatchFlag {
            bits: bit_if(info.has_class_binding, CLASS) | bit_if(info.has_style_binding, STYLE) | bit_if(
                has_dynamic_props,
                PROPS,
            ) | bit_if(info.has_hydration_event_binding, HYDRATE_EVENTS) | bit_if(
                info.has_ref || info.has_vnode_hook,
                NEED_PATCH,
            ),
        }
    }
}

pub open spec fn has_dynamic_key(pairs: Seq<(JsExprView, JsExprView)>) -> bool {
    exists|i: int| 0 <= i < pairs.len() && !((#[trigger] pairs[i]).0 is StrLit)
}

/// A class or style whose value is no literal is normalised when it is read.
pub open spec fn normalized_pair(pair: (JsExprView, JsExprView)) -> (JsExprView, JsExprView) {
    if pair.1 is StrLit {
        pair
    } else if pair.0 == JsExprView::StrLit("class"@) {
        (pair.0, JsExprView::Call(RuntimeHelper::NormalizeClass, seq![pair.1]))
    } else if pair.0 == JsExprView::StrLit("style"@) {
        (pair.0, JsExprView::Call(RuntimeHelper::NormalizeStyle, seq![pair.1]))
    } else {
        pair
    }
}

/// The expression made ready for the runtime. Only an object of pairs is
/// touched: with a key that is no literal the whole object is normalised;
/// else each class and style binding is. Nothing is done for the server.
pub open spec fn pre_normalized(e: Option<JsExprView>, ssr: bool) -> Option<JsExprView> {
    match e {
        Some(JsExprView::Props(pairs)) => if ssr {
            e
        } else if has_dynamic_key(pairs) {
            Some(JsExprView::Call(RuntimeHelper::NormalizeProps, seq![JsExprView::Props(pairs)]))
        } else {
            Some(JsExprView::Props(Seq::new(pairs.len(), |i: int| normalized_pair(pairs[i]))))
        },
        _ => e,
    }
}

/// What is handed back for what was gathered.
pub open spec fn finished(bc: BaseConverterView, st: Collected) -> BuildPropsView {
    BuildPropsView {
        props: pre_normalized(prop_expr(st.props, st.merge_args), bc.ssr),
        directives: st.runtime_dirs,
        patch_flag: patch_flag_of(st.prop_flags, st.dynamic_prop_names.len() > 0),
        dynamic_prop_names: if st.prop_flags.has_dynamic_keys {
            Seq::empty()
        } else {
            st.dynamic_prop_names
        },
    }
}

/// What the builder makes of an element's attributes and directives.
pub open spec fn built(bc: BaseConverterView, tag: Seq<char>, items: Seq<ElemPropView>) -> Result<
    BuildPropsView,
    CompileErrorView,
> {
    match collected_from(bc, tag, items, nothing_collected(), 0) {
        Ok(st) => Ok(finished(bc, st)),
        Err(e) => Err(e),
    }
}

/// An outcome against what it should be: the same value on success, the same
/// error on failure.
pub open spec fn same_outcome<T: View, V>(r: Result<T, CompileError>, expected: Result<V, CompileErrorView>) -> bool
    where T: View<V = V>
{
    match r {
        Ok(x) => expected == Ok::<V, CompileErrorView>(x@),
        Err(e) => expected == Err::<V, CompileErrorView>(e@),
    }
}

// ---------------------------------------------------------------------------
// The builder
// ---------------------------------------------------------------------------

impl CollectProps {
    pub fn new() -> (cp: CollectProps)
        ensures
            cp@ == nothing_collected(),
    {
        let cp = CollectProps {
            props: Vec::new(),
            merge_args: Vec::new(),
            runtime_dirs: Vec::new(),
            dynamic_prop_names: Vec::new(),
            prop_flags: PropFlags {
                has_ref: false,
                has_class_binding: false,
                has_style_binding: false,
                has_hydration_event_binding: false,
                has_dynamic_keys: false,
                has_vnode_hook: false,
            },
            conditional: false,
        };
        assert(cp@.props =~= Seq::empty());
        assert(cp@.merge_args =~= Seq::empty());
        assert(cp@.runtime_dirs =~= Seq::empty());
        assert(cp@.dynamic_prop_names =~= Seq::empty());
        cp
    }
}

pub fn contains_name(names: &Vec<String>, name: &str) -> (b: bool)
    ensures
        b == str_views(names@).contains(name@),
{
    let mut i: usize = 0;
    while i < names.len()
        invariant
            i <= names.len(),
            forall|k: int| 0 <= k < i ==> str_views(names@)[k] != name@,
        decreases names.len() - i,
    {
        if str_is(names[i].as_str(), name) {
            assert(str_views(names@)[i as int] == name@);
            return true;
        }
        i += 1;
    }
    false
}

/// Notes what the property `key: value` means for the flags and the names.
pub fn analyze_patch_flag(cp: &mut CollectProps, key: &JsExpr, value: &JsExpr)
    ensures
        final(cp)@ == old(cp)@.analyzed(key@, value@),
{
    match key {
        JsExpr::StrLit(name) => {
            let dynamic = match value {
                JsExpr::StrLit(_) => false,
                _ => true,
            };
            let is_class = str_is(name.as_str(), "class");
            let is_style = str_is(name.as_str(), "style");
            if str_is(name.as_str(), "ref") {
                cp.prop_flags.has_ref = true;
            }
            if dynamic && is_class {
                cp.prop_flags.has_class_binding = true;
            }
            if dynamic && is_style {
                cp.prop_flags.has_style_binding = true;
            }
            if dynamic && !is_class && !is_style && !contains_name(&cp.dynamic_prop_names, name.as_str()) {
                let ghost before = cp.dynamic_prop_names@;
                cp.dynamic_prop_names.push(copy_str(name));
                assert(str_views(cp.dynamic_prop_names@) =~= str_views(before).push(name@));
            }
        },
        _ => {
            cp.prop_flags.has_dynamic_keys = true;
        },
    }
}

/// Adds the property `key: value` at the end.
pub fn push_prop(cp: &mut CollectProps, key: JsExpr, value: JsExpr)
    ensures
        final(cp)@ == old(cp)@.with_prop(key@, value@),
{
    analyze_patch_flag(cp, &key, &value);
    let ghost before = cp.props@;
    cp.props.push((key, value));
    assert(pair_views(cp.props@) =~= pair_views(before).push((key@, value@)));
}

/// The value of `ref="val"` in inline mode.
pub fn process_inline_ref(bc: &BaseConverter, val: &str) -> (r: Result<JsExpr, CompileError>)
    ensures
        same_outcome(r, inline_ref(bc@, val@)),
{
    match bc.binding_metadata.lookup(val) {
        Some(_) => Ok(JsExpr::Simple(String::from_str(val))),
        None => Err(CompileError::UnresolvedInlineBinding(String::from_str(val))),
    }
}

/// Reads one attribute.
pub fn collect_attr(bc: &BaseConverter, e: &Element, attr: &Attribute, cp: &mut CollectProps) -> (r: Result<
    (),
    CompileError,
>)
    ensures
        match r {
            Ok(_) => attr_collected(bc@, e.tag_name@, attr@, old(cp)@) == Ok::<Collected, CompileErrorView>(
                final(cp)@,
            ),
            Err(err) => attr_collected(bc@, e.tag_name@, attr@, old(cp)@) == Err::<Collected, CompileErrorView>(
                err@,
            ),
        },
{
    let val = match &attr.value {
        Some(v) => copy_str(v),
        None => String::new(),
    };
    // the dynamic component reads `is` itself
    if str_is(attr.name.as_str(), "is") && (is_component_tag(e.tag_name.as_str()) || starts_with(
        val.as_str(),
        "vue:",
    )) {
        return Ok(());
    }
    if str_is(attr.name.as_str(), "ref") && bc.inline && val.as_str().unicode_len() > 0 {
        match process_inline_ref(bc, val.as_str()) {
            Ok(value_expr) => {
                push_prop(cp, JsExpr::StrLit(copy_str(&attr.name)), value_expr);
                Ok(())
            },
            Err(err) => Err(err),
        }
    } else {
        push_prop(cp, JsExpr::StrLit(copy_str(&attr.name)), JsExpr::StrLit(val));
        Ok(())
    }
}

/// Notes an object spread into the properties.
pub fn push_spread(cp: &mut CollectProps, arg: Option<JsExpr>)
    ensures
        final(cp)@ == old(cp)@.with_spread(opt_js_view(arg)),
{
    cp.prop_flags.has_dynamic_keys = true;
    match arg {
        Some(a) => {
            let ghost before = cp.merge_args@;
            let ghost av = a@;
            cp.merge_args.push(a);
            assert(js_views(cp.merge_args@) =~= js_views(before).push(av));
        },
        None => {},
    }
}

/// Notes a listener for `event`.
pub fn note_event(cp: &mut CollectProps, event: &str)
    ensures
        final(cp)@ == old(cp)@.with_event(event@),
{
    let hook = starts_with(event, "vnode");
    let hydrated = !hook && !str_is(event, "click") && !str_is(event, "update:modelValue");
    if hydrated {
        cp.prop_flags.has_hydration_event_binding = true;
    }
    if hook {
        cp.prop_flags.has_vnode_hook = true;
    }
}

/// A call of `helper` on the simple expression `source`.
pub fn call_on_simple(helper: RuntimeHelper, source: &String) -> (e: JsExpr)
    ensures
        e@ == JsExprView::Call(helper, seq![JsExprView::Simple(source@)]),
{
    let mut args: Vec<JsExpr> = Vec::new();
    args.push(JsExpr::Simple(copy_str(source)));
    assert(js_views(args@) =~= seq![JsExprView::Simple(source@)]);
    JsExpr::Call(helper, args)
}

/// Reads one directive.
pub fn collect_dir(bc: &BaseConverter, dir: &Directive, cp: &mut CollectProps) -> (r: Result<(), CompileError>)
    ensures
        match r {
            Ok(_) => dir_collected(dir@, old(cp)@) == Ok::<Collected, CompileErrorView>(final(cp)@),
            Err(err) => dir_collected(dir@, old(cp)@) == Err::<Collected, CompileErrorView>(err@),
        },
{
    let exp = JsExpr::Simple(
        match &dir.expression {
            Some(x) => copy_str(x),
            None => String::new(),
        },
    );
    if str_is(dir.name.as_str(), "bind") {
        match &dir.argument {
            None => {
                let arg = match &dir.expression {
                    Some(x) => Some(JsExpr::Simple(copy_str(x))),
                    None => None,
                };
                push_spread(cp, arg);
            },
            Some(DirectiveArg::Static(a)) => push_prop(cp, JsExpr::StrLit(copy_str(a)), exp),
            Some(DirectiveArg::Dynamic(a)) => push_prop(cp, JsExpr::Simple(copy_str(a)), exp),
        }
        Ok(())
    } else if str_is(dir.name.as_str(), "on") {
        match &dir.argument {
            None => {
                let arg = match &dir.expression {
                    Some(x) => Some(call_on_simple(RuntimeHelper::ToHandlers, x)),
                    None => None,
                };
                push_spread(cp, arg);
            },
            Some(DirectiveArg::Static(a)) => {
                note_event(cp, a.as_str());
                push_prop(cp, JsExpr::StrLit(handler_key(a.as_str())), exp);
            },
            Some(DirectiveArg::Dynamic(a)) => {
                push_prop(cp, call_on_simple(RuntimeHelper::ToHandlerKey, a), exp);
            },
        }
        Ok(())
    } else {
        let name = dir.name.as_str();
        let conditional = str_is(name, "if") || str_is(name, "else-if") || str_is(name, "else");
        if conditional || str_is(name, "for") || str_is(name, "slot") {
            if conditional && cp.conditional {
                return Err(CompileError::UnsupportedDirectiveCombination(dir.location));
            }
            cp.prop_flags.has_dynamic_keys = true;
            if conditional {
                cp.conditional = true;
            }
            Ok(())
        } else {
            // not ours to resolve: the runtime gets it as it stands
            let ghost before = cp.runtime_dirs@;
            cp.runtime_dirs.push(copy_directive(dir));
            assert(directive_views(cp.runtime_dirs@) =~= directive_views(before).push(dir@));
            Ok(())
        }
    }
}

/// The one expression for the properties.
pub fn compute_prop_expr(props: Vec<Prop>, args: Vec<JsExpr>) -> (r: Option<JsExpr>)
    ensures
        opt_js_view(r) == prop_expr(pair_views(props@), js_views(args@)),
{
    if args.len() == 0 {
        if props.len() == 0 {
            None
        } else {
            Some(JsExpr::Props(props))
        }
    } else if props.len() == 0 {
        Some(JsExpr::Call(RuntimeHelper::MergeProps, args))
    } else {
        let ghost pairs = pair_views(props@);
        let ghost spread = js_views(args@);
        let mut args = args;
        let mut all: Vec<JsExpr> = Vec::new();
        all.push(JsExpr::Props(props));
        all.append(&mut args);
        assert(js_views(all@) =~= seq![JsExprView::Props(pairs)] + spread);
        Some(JsExpr::Call(RuntimeHelper::MergeProps, all))
    }
}

/// The patch flag for what was noticed.
pub fn build_patch_flag(info: &PropFlags, has_dynamic_props: bool) -> (flag: PatchFlag)
    ensures
        flag == patch_flag_of(*info, has_dynamic_props),
{
    if info.has_dynamic_keys {
        PatchFlag { bits: FULL_PROPS }
    } else {
        let class: u32 = if info.has_class_binding { CLASS } else { 0 };
        let style: u32 = if info.has_style_binding { STYLE } else { 0 };
        let props: u32 = if has_dynamic_props { PROPS } else { 0 };
        let events: u32 = if info.has_hydration_event_binding { HYDRATE_EVENTS } else { 0 };
        let patch: u32 = if info.has_ref || info.has_vnode_hook { NEED_PATCH } else { 0 };
        PatchFlag { bits: class | style | props | events | patch }
    }
}

/// Whether a pair has a literal key.
fn has_literal_key(pair: &Prop) -> (b: bool)
    ensures
        b == (pair.0@ is StrLit),
{
    match &pair.0 {
        JsExpr::StrLit(_) => true,
        _ => false,
    }
}

/// Normalises one pair where it stands.
fn normalize_pair(pair: &mut Prop)
    ensures
        (final(pair).0@, final(pair).1@) == normalized_pair((old(pair).0@, old(pair).1@)),
{
    let literal = match &pair.1 {
        JsExpr::StrLit(_) => true,
        _ => false,
    };
    if literal {
        return;
    }
    let helper = match &pair.0 {
        JsExpr::StrLit(name) => {
            if str_is(name.as_str(), "class") {
                Some(RuntimeHelper::NormalizeClass)
            } else if str_is(name.as_str(), "style") {
                Some(RuntimeHelper::NormalizeStyle)
            } else {
                None
            }
        },
        _ => None,
    };
    match helper {
        Some(h) => {
            let ghost value = pair.1@;
            let mut taken = JsExpr::Array(Vec::new());
            std::mem::swap(&mut pair.1, &mut taken);
            let mut args: Vec<JsExpr> = Vec::new();
            args.push(taken);
            assert(js_views(args@) =~= seq![value]);
            pair.1 = JsExpr::Call(h, args);
        },
        None => {},
    }
}

/// Makes the expression ready for the runtime.
pub fn pre_normalize_prop(prop_expr: Option<JsExpr>, ssr: bool) -> (r: Option<JsExpr>)
    ensures
        opt_js_view(r) == pre_normalized(opt_js_view(prop_expr), ssr),
{
    if ssr {
        return prop_expr;
    }
    match prop_expr {
        Some(JsExpr::Props(pairs)) => {
            let mut pairs = pairs;
            let ghost given = pair_views(pairs@);
            let mut dynamic = false;
            let mut i: usize = 0;
            while i < pairs.len()
                invariant
                    i <= pairs.len(),
                    pair_views(pairs@) == given,
                    dynamic == exists|k: int| 0 <= k < i && !((#[trigger] given[k]).0 is StrLit),
                decreases pairs.len() - i,
            {
                if !has_literal_key(&pairs[i]) {
                    assert(!(given[i as int].0 is StrLit));
                    dynamic = true;
                }
                i += 1;
            }
            if dynamic {
                let mut args: Vec<JsExpr> = Vec::new();
                args.push(JsExpr::Props(pairs));
                assert(js_views(args@) =~= seq![JsExprView::Props(given)]);
                Some(JsExpr::Call(RuntimeHelper::NormalizeProps, args))
            } else {
                let mut j: usize = 0;
                while j < pairs.len()
                    invariant
                        j <= pairs.len(),
                        pairs.len() == given.len(),
                        forall|k: int| 0 <= k < j ==> pair_views(pairs@)[k] == normalized_pair(given[k]),
                        forall|k: int| j <= k < pairs.len() ==> pair_views(pairs@)[k] == given[k],
                    decreases pairs.len() - j,
                {
                    let ghost before = pairs@;
                    assert(pair_views(before)[j as int] == given[j as int]);
                    normalize_pair(&mut pairs[j]);
                    assert(pair_views(pairs@) =~= pair_views(before).update(
                        j as int,
                        normalized_pair(given[j as int]),
                    ));
                    j += 1;
                }
                assert(pair_views(pairs@) =~= Seq::new(given.len(), |i: int| normalized_pair(given[i])));
                Some(JsExpr::Props(pairs))
            }
        },
        other => other,
    }
}

/// Builds the properties of an element from its attributes and directives,
/// read in source order.
pub fn build_props(bc: &BaseConverter, e: &Element, elm_props: Vec<ElemProp>) -> (r: Result<
    BuildProps,
    CompileError,
>)
    ensures
        same_outcome(r, built(bc@, e.tag_name@, elem_prop_views(elm_props@))),
{
    let mut cp = CollectProps::new();
    let ghost items = elem_prop_views(elm_props@);
    let ghost goal = collected_from(bc@, e.tag_name@, items, nothing_collected(), 0);
    let mut i: usize = 0;
    while i < elm_props.len()
        invariant
            i <= elm_props.len(),
            items == elem_prop_views(elm_props@),
            goal == collected_from(bc@, e.tag_name@, items, nothing_collected(), 0),
            collected_from(bc@, e.tag_name@, items, cp@, i as int) == goal,
        decreases elm_props.len() - i,
    {
        let r = match &elm_props[i] {
            ElemProp::Dir(dir) => collect_dir(bc, dir, &mut cp),
            ElemProp::Attr(attr) => collect_attr(bc, e, attr, &mut cp),
        };
        if let Err(err) = r {
            return Err(err);
        }
        i += 1;
    }
    let CollectProps { props, merge_args, runtime_dirs, dynamic_prop_names, prop_flags, conditional: _ } = cp;
    let prop_expr = compute_prop_expr(props, merge_args);
    let patch_flag = build_patch_flag(&prop_flags, dynamic_prop_names.len() > 0);
    let prop_expr = pre_normalize_prop(prop_expr, bc.ssr);
    let names = if prop_flags.has_dynamic_keys {
        Vec::new()
    } else {
        dynamic_prop_names
    };
    let built = BuildProps { props: prop_expr, directives: runtime_dirs, patch_flag, dynamic_prop_names: names };
    assert(built@.dynamic_prop_names =~= finished(bc@, cp@).dynamic_prop_names);
    Ok(built)
}

} // verus!
