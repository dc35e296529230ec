//! What holds of everything the builder hands back.

use crate::build_props::{
    built, collected_from, finished, has_dynamic_key, is_spread, item_collected, normalized_pair,
    nothing_collected, opt_str_or_empty, patch_flag_of, Collected, PropFlags,
};
use crate::ir::JsExprView;
use crate::flags::{bit_if, CLASS, FULL_PROPS, HYDRATE_EVENTS, NEED_PATCH, PROPS, STYLE};
use crate::props::{names_component, BaseConverterView, ElemPropView};
use crate::text::has_prefix;
use vstd::prelude::*;

verus! {

proof fn lemma_dynamic_keys_stay(
    bc: BaseConverterView,
    tag: Seq<char>,
    items: Seq<ElemPropView>,
    st: Collected,
    from: int,
)
    requires
        st.prop_flags.has_dynamic_keys,
    ensures
        collected_from(bc, tag, items, st, from) matches Ok(end) ==> end.prop_flags.has_dynamic_keys,
    decreases items.len() - from,
{
    if 0 <= from < items.len() {
        match item_collected(bc, tag, items[from], st) {
            Ok(next) => lemma_dynamic_keys_stay(bc, tag, items, next, from + 1),
            Err(_) => {},
        }
    }
}

proof fn lemma_spread_reached(
    bc: BaseConverterView,
    tag: Seq<char>,
    items: Seq<ElemPropView>,
    st: Collected,
    from: int,
    at: int,
)
    requires
        0 <= from <= at < items.len(),
        items[at] matches ElemPropView::Dir(d) && is_spread(d),
    ensures
        collected_from(bc, tag, items, st, from) matches Ok(end) ==> end.prop_flags.has_dynamic_keys,
    decreases at - from,
{
    match item_collected(bc, tag, items[from], st) {
        Ok(next) => {
            if from == at {
                lemma_dynamic_keys_stay(bc, tag, items, next, from + 1);
            } else {
                lemma_spread_reached(bc, tag, items, next, from + 1, at);
            }
        },
        Err(_) => {},
    }
}

/// Where any of the items spreads an object into the properties, the patch
/// flag is the full-properties bit and no other, and no property is named as
/// dynamic.
pub proof fn lemma_spread_bails_out(bc: BaseConverterView, tag: Seq<char>, items: Seq<ElemPropView>, at: int)
    requires
        0 <= at < items.len(),
        items[at] matches ElemPropView::Dir(d) && is_spread(d),
    ensures
        built(bc, tag, items) matches Ok(b) ==> b.patch_flag.bits == FULL_PROPS && b.dynamic_prop_names.len()
            == 0,
{
    lemma_spread_reached(bc, tag, items, nothing_collected(), 0, at);
}

/// The names are the names of dynamic properties: none stands twice, and
/// neither `class` nor `style` is among them.
pub open spec fn names_in_order(names: Seq<Seq<char>>) -> bool {
    &&& names.no_duplicates()
    &&& !names.contains("class"@)
    &&& !names.contains("style"@)
}

proof fn lemma_named_once(names: Seq<Seq<char>>, name: Seq<char>)
    requires
        names_in_order(names),
        !names.contains(name),
        name != "class"@,
        name != "style"@,
    ensures
        names_in_order(names.push(name)),
{
    let next = names.push(name);
    assert forall|i: int, j: int| 0 <= i < next.len() && 0 <= j < next.len() && i != j implies next[i]
        != next[j] by {
        if i < names.len() {
            assert(names.contains(names[i]));
        }
        if j < names.len() {
            assert(names.contains(names[j]));
        }
    }
    assert forall|i: int| 0 <= i < next.len() implies next[i] != "class"@ && next[i] != "style"@ by {
        if i < names.len() {
            assert(names.contains(names[i]));
        }
    }
}

proof fn lemma_names_step(bc: BaseConverterView, tag: Seq<char>, item: ElemPropView, st: Collected)
    requires
        names_in_order(st.dynamic_prop_names),
    ensures
        item_collected(bc, tag, item, st) matches Ok(next) ==> names_in_order(next.dynamic_prop_names),
{
    match item_collected(bc, tag, item, st) {
        Ok(next) => {
            if next.dynamic_prop_names != st.dynamic_prop_names {
                let name = next.dynamic_prop_names.last();
                assert(next.dynamic_prop_names == st.dynamic_prop_names.push(name));
                lemma_named_once(st.dynamic_prop_names, name);
            }
        },
        Err(_) => {},
    }
}

proof fn lemma_names_stay(
    bc: BaseConverterView,
    tag: Seq<char>,
    items: Seq<ElemPropView>,
    st: Collected,
    from: int,
)
    requires
        names_in_order(st.dynamic_prop_names),
    ensures
        collected_from(bc, tag, items, st, from) matches Ok(end) ==> names_in_order(end.dynamic_prop_names),
    decreases items.len() - from,
{
    if 0 <= from < items.len() {
        lemma_names_step(bc, tag, items[from], st);
        match item_collected(bc, tag, items[from], st) {
            Ok(next) => lemma_names_stay(bc, tag, items, next, from + 1),
            Err(_) => {},
        }
    }
}

/// Whatever the builder is handed: no name of a dynamic property stands
/// twice; `class` and `style`, which have bits of their own, are never among
/// the names; the full-properties bit excludes every name; and without that
/// bit the properties bit is set exactly where a property is named.
pub proof fn lemma_names_and_flag(bc: BaseConverterView, tag: Seq<char>, items: Seq<ElemPropView>)
    ensures
        built(bc, tag, items) matches Ok(b) ==> {
            &&& names_in_order(b.dynamic_prop_names)
            &&& b.patch_flag.has(FULL_PROPS) ==> b.dynamic_prop_names.len() == 0
            &&& !b.patch_flag.has(FULL_PROPS) ==> (b.patch_flag.has(PROPS) <==> b.dynamic_prop_names.len() > 0)
        },
{
    let start = nothing_collected();
    assert(names_in_order(start.dynamic_prop_names));
    lemma_names_stay(bc, tag, items, start, 0);
    match collected_from(bc, tag, items, start, 0) {
        Ok(st) => {
            let b = finished(bc, st);
            lemma_flag_bits(st.prop_flags, st.dynamic_prop_names.len() > 0);
            assert(names_in_order(Seq::<Seq<char>>::empty()));
        },
        Err(_) => {},
    }
}

/// The bits of a patch flag, read back.
pub proof fn lemma_flag_bits(info: PropFlags, has_dynamic_props: bool)
    ensures
        patch_flag_of(info, has_dynamic_props).has(FULL_PROPS) <==> info.has_dynamic_keys,
        !info.has_dynamic_keys ==> {
            let flag = patch_flag_of(info, has_dynamic_props);
            &&& flag.has(CLASS) <==> info.has_class_binding
            &&& flag.has(STYLE) <==> info.has_style_binding
            &&& flag.has(PROPS) <==> has_dynamic_props
            &&& flag.has(HYDRATE_EVENTS) <==> info.has_hydration_event_binding
            &&& flag.has(NEED_PATCH) <==> (info.has_ref || info.has_vnode_hook)
            &&& flag.bits == bit_if(info.has_class_binding, CLASS) + bit_if(info.has_style_binding, STYLE)
                + bit_if(has_dynamic_props, PROPS) + bit_if(info.has_hydration_event_binding, HYDRATE_EVENTS)
                + bit_if(info.has_ref || info.has_vnode_hook, NEED_PATCH)
        },
{
    let c: u32 = if info.has_class_binding { 2 } else { 0 };
    let s: u32 = if info.has_style_binding { 4 } else { 0 };
    let p: u32 = if has_dynamic_props { 8 } else { 0 };
    let h: u32 = if info.has_hydration_event_binding { 32 } else { 0 };
    let n: u32 = if info.has_ref || info.has_vnode_hook { 512 } else { 0 };
    assert(16u32 & 16u32 == 16u32) by (bit_vector);
    assert({
        let all = c | s | p | h | n;
        &&& all & 16u32 != 16u32
        &&& (all & 2u32 == 2u32) == (c == 2u32)
        &&& (all & 4u32 == 4u32) == (s == 4u32)
        &&& (all & 8u32 == 8u32) == (p == 8u32)
        &&& (all & 32u32 == 32u32) == (h == 32u32)
        &&& (all & 512u32 == 512u32) == (n == 512u32)
        &&& all == c + s + p + h + n
    }) by (bit_vector)
        requires
            c == 0u32 || c == 2u32,
            s == 0u32 || s == 4u32,
            p == 0u32 || p == 8u32,
            h == 0u32 || h == 32u32,
            n == 0u32 || n == 512u32,
    ;
}

/// An attribute that becomes a property with a literal value: any attribute
/// but an `is` that is left out and a `ref` that inline mode resolves.
pub open spec fn is_plain_attribute(bc: BaseConverterView, tag: Seq<char>, item: ElemPropView) -> bool {
    item matches ElemPropView::Attr(a) && {
        let val = opt_str_or_empty(a.value);
        &&& !(a.name == "is"@ && (names_component(tag) || has_prefix(val, "vue:"@)))
        &&& !(a.name == "ref"@ && bc.inline && val.len() > 0)
    }
}

/// The property that a plain attribute becomes.
pub open spec fn attribute_pair(item: ElemPropView) -> (JsExprView, JsExprView) {
    match item {
        ElemPropView::Attr(a) => (JsExprView::StrLit(a.name), JsExprView::StrLit(opt_str_or_empty(a.value))),
        ElemPropView::Dir(d) => (JsExprView::StrLit(d.name), JsExprView::StrLit(opt_str_or_empty(d.expression))),
    }
}

/// The properties of the plain attributes of `items`, in source order.
pub open spec fn attribute_pairs(items: Seq<ElemPropView>) -> Seq<(JsExprView, JsExprView)> {
    Seq::new(items.len(), |i: int| attribute_pair(items[i]))
}

/// Nothing but properties with literal values has been gathered.
pub open spec fn only_literals(st: Collected) -> bool {
    &&& st.merge_args.len() == 0
    &&& st.runtime_dirs.len() == 0
    &&& st.dynamic_prop_names.len() == 0
    &&& !st.prop_flags.has_dynamic_keys
    &&& !st.prop_flags.has_class_binding
    &&& !st.prop_flags.has_style_binding
    &&& !st.prop_flags.has_hydration_event_binding
    &&& !st.prop_flags.has_vnode_hook
}

proof fn lemma_attributes_collected(
    bc: BaseConverterView,
    tag: Seq<char>,
    items: Seq<ElemPropView>,
    st: Collected,
    from: int,
)
    requires
        0 <= from <= items.len(),
        forall|i: int| 0 <= i < items.len() ==> is_plain_attribute(bc, tag, #[trigger] items[i]),
        only_literals(st),
        st.props == attribute_pairs(items).take(from),
    ensures
        collected_from(bc, tag, items, st, from) matches Ok(end) && only_literals(end) && end.props
            == attribute_pairs(items),
    decreases items.len() - from,
{
    if from < items.len() {
        assert(is_plain_attribute(bc, tag, items[from]));
        let next = item_collected(bc, tag, items[from], st)->Ok_0;
        assert(next.props =~= attribute_pairs(items).take(from + 1));
        lemma_attributes_collected(bc, tag, items, next, from + 1);
    } else {
        assert(attribute_pairs(items).take(from) =~= attribute_pairs(items));
    }
}

/// Plain attributes come out as one object of literal pairs, a pair for each
/// attribute, in the order in which the attributes stand. No property is named
/// as dynamic, nothing is left for the runtime, and the patch flag asks for a
/// patch only where there is a `ref`.
pub proof fn lemma_attributes_keep_their_order(bc: BaseConverterView, tag: Seq<char>, items: Seq<ElemPropView>)
    requires
        items.len() > 0,
        forall|i: int| 0 <= i < items.len() ==> is_plain_attribute(bc, tag, #[trigger] items[i]),
    ensures
        built(bc, tag, items) matches Ok(b) && {
            &&& b.props == Some(JsExprView::Props(attribute_pairs(items)))
            &&& b.dynamic_prop_names.len() == 0
            &&& b.directives.len() == 0
            &&& b.patch_flag.bits == 0 || b.patch_flag.bits == NEED_PATCH
        },
{
    let start = nothing_collected();
    assert(start.props =~= attribute_pairs(items).take(0));
    lemma_attributes_collected(bc, tag, items, start, 0);
    let end = collected_from(bc, tag, items, start, 0)->Ok_0;
    let pairs = attribute_pairs(items);
    assert(pairs[0].0 is StrLit);
    assert(!has_dynamic_key(pairs));
    assert(Seq::new(pairs.len(), |i: int| normalized_pair(pairs[i])) =~= pairs);
    lemma_flag_bits(end.prop_flags, false);
}

} // verus!
