use vue_ir::build_props::{
    build_patch_flag, build_props, collect_attr, collect_dir, compute_prop_expr, pre_normalize_prop,
    process_inline_ref, BuildProps, CollectProps, PropFlags,
};
use vue_ir::error::{CompileError, SourceLocation};
use vue_ir::flags::{
    PatchFlag, BAIL, CLASS, DEV_ROOT_FRAGMENT, DYNAMIC_SLOTS, FULL_PROPS, HOISTED, HYDRATE_EVENTS,
    KEYED_FRAGMENT, NEED_PATCH, PROPS, STABLE_FRAGMENT, STYLE, TEXT, UNKEYED_FRAGMENT,
};
use vue_ir::ir::{JsExpr, RuntimeHelper};
use vue_ir::props::{
    copy_directive, is_component_tag, Attribute, BaseConverter, BindingMetadata, BindingTypes,
    Directive, DirectiveArg, ElemProp, Element,
};
use vue_ir::text::{handler_key, starts_with, str_is, to_upper};

fn at(start: usize) -> SourceLocation {
    SourceLocation { start, end: start + 1 }
}

fn lit(s: &str) -> JsExpr {
    JsExpr::StrLit(s.to_string())
}

fn simple(s: &str) -> JsExpr {
    JsExpr::Simple(s.to_string())
}

fn attr(name: &str, value: &str) -> ElemProp {
    ElemProp::Attr(Attribute { name: name.to_string(), value: Some(value.to_string()), location: at(0) })
}

fn directive(name: &str, argument: Option<DirectiveArg>, expression: Option<&str>, start: usize) -> Directive {
    Directive {
        name: name.to_string(),
        argument,
        modifiers: vec![],
        expression: expression.map(|e| e.to_string()),
        location: at(start),
    }
}

fn bind(arg: &str, expr: &str) -> ElemProp {
    ElemProp::Dir(directive("bind", Some(DirectiveArg::Static(arg.to_string())), Some(expr), 0))
}

fn on(arg: &str, expr: &str) -> ElemProp {
    ElemProp::Dir(directive("on", Some(DirectiveArg::Static(arg.to_string())), Some(expr), 0))
}

fn plain(name: &str, expr: Option<&str>, start: usize) -> ElemProp {
    ElemProp::Dir(directive(name, None, expr, start))
}

fn converter(inline: bool, names: &[&str]) -> BaseConverter {
    BaseConverter {
        inline,
        ssr: false,
        binding_metadata: BindingMetadata {
            bindings: names.iter().map(|n| (n.to_string(), BindingTypes::SetupRef)).collect(),
        },
    }
}

fn div() -> Element {
    Element { tag_name: "div".to_string() }
}

fn build(items: Vec<ElemProp>) -> BuildProps {
    build_props(&converter(false, &[]), &div(), items).unwrap()
}

fn no_flags() -> PropFlags {
    PropFlags {
        has_ref: false,
        has_class_binding: false,
        has_style_binding: false,
        has_hydration_event_binding: false,
        has_dynamic_keys: false,
        has_vnode_hook: false,
    }
}

#[test]
fn attributes_keep_their_order() {
    let built = build(vec![attr("id", "a"), attr("class", "b"), attr("data-x", "c")]);
    assert_eq!(
        built.props,
        Some(JsExpr::Props(vec![(lit("id"), lit("a")), (lit("class"), lit("b")), (lit("data-x"), lit("c"))]))
    );
    assert_eq!(built.patch_flag, PatchFlag { bits: 0 });
    assert!(built.dynamic_prop_names.is_empty());
    assert!(built.directives.is_empty());
}

#[test]
fn attributes_and_bindings_keep_their_order() {
    let built = build(vec![bind("title", "t"), attr("id", "a"), on("click", "go")]);
    assert_eq!(
        built.props,
        Some(JsExpr::Props(vec![
            (lit("title"), simple("t")),
            (lit("id"), lit("a")),
            (lit("onClick"), simple("go")),
        ]))
    );
    assert_eq!(built.dynamic_prop_names, vec!["title".to_string(), "onClick".to_string()]);
}

#[test]
fn no_attribute_gives_no_expression() {
    let built = build(vec![]);
    assert_eq!(built.props, None);
    assert_eq!(built.patch_flag, PatchFlag { bits: 0 });
    assert!(built.dynamic_prop_names.is_empty());
}

#[test]
fn attribute_without_value_has_the_empty_string() {
    let item = ElemProp::Attr(Attribute { name: "disabled".to_string(), value: None, location: at(0) });
    let built = build(vec![item]);
    assert_eq!(built.props, Some(JsExpr::Props(vec![(lit("disabled"), lit(""))])));
}

#[test]
fn dynamic_class_sets_the_class_bit_alone() {
    let built = build(vec![bind("class", "cls"), attr("style", "color: red"), attr("id", "foo")]);
    assert_eq!(built.patch_flag.bits, CLASS);
    assert!(built.patch_flag.contains(CLASS));
    assert!(!built.patch_flag.contains(STYLE));
    assert!(!built.patch_flag.contains(PROPS));
    // the class bit stands for the class: it is not named a second time
    assert!(built.dynamic_prop_names.is_empty());
    assert_eq!(
        built.props,
        Some(JsExpr::Props(vec![
            (lit("class"), JsExpr::Call(RuntimeHelper::NormalizeClass, vec![simple("cls")])),
            (lit("style"), lit("color: red")),
            (lit("id"), lit("foo")),
        ]))
    );
}

#[test]
fn dynamic_style_sets_the_style_bit() {
    let built = build(vec![bind("style", "st")]);
    assert_eq!(built.patch_flag.bits, STYLE);
    assert!(built.dynamic_prop_names.is_empty());
    assert_eq!(
        built.props,
        Some(JsExpr::Props(vec![(
            lit("style"),
            JsExpr::Call(RuntimeHelper::NormalizeStyle, vec![simple("st")])
        )]))
    );
}

#[test]
fn class_style_and_a_property_combine_their_bits() {
    let built = build(vec![bind("class", "c"), bind("style", "s"), bind("id", "i")]);
    assert_eq!(built.patch_flag.bits, CLASS | STYLE | PROPS);
    assert_eq!(built.patch_flag.bits, 14);
    assert_eq!(built.dynamic_prop_names, vec!["id".to_string()]);
}

#[test]
fn dynamic_properties_are_named_once_in_order_of_appearance() {
    let built = build(vec![bind("title", "a"), bind("id", "b"), bind("title", "c"), attr("lang", "en")]);
    assert_eq!(built.dynamic_prop_names, vec!["title".to_string(), "id".to_string()]);
    assert_eq!(built.patch_flag.bits, PROPS);
}

#[test]
fn spread_bails_out_to_full_props() {
    let built = build(vec![attr("id", "a"), bind("title", "t"), plain("bind", Some("obj"), 0), bind("class", "c")]);
    assert_eq!(built.patch_flag.bits, FULL_PROPS);
    assert!(built.patch_flag.is_bailout());
    assert!(!built.patch_flag.contains(CLASS));
    assert!(!built.patch_flag.contains(PROPS));
    assert!(built.dynamic_prop_names.is_empty());
    assert_eq!(
        built.props,
        Some(JsExpr::Call(
            RuntimeHelper::MergeProps,
            vec![
                JsExpr::Props(vec![(lit("id"), lit("a")), (lit("title"), simple("t")), (lit("class"), simple("c"))]),
                simple("obj"),
            ]
        ))
    );
}

#[test]
fn spread_alone_is_merged_without_an_object() {
    let built = build(vec![plain("bind", Some("obj"), 0)]);
    assert_eq!(built.patch_flag.bits, FULL_PROPS);
    assert_eq!(built.props, Some(JsExpr::Call(RuntimeHelper::MergeProps, vec![simple("obj")])));
}

#[test]
fn spreads_are_merged_in_source_order() {
    let built = build(vec![plain("on", Some("handlers"), 0), attr("id", "a"), plain("bind", Some("obj"), 0)]);
    assert_eq!(built.patch_flag.bits, FULL_PROPS);
    assert!(built.dynamic_prop_names.is_empty());
    assert_eq!(
        built.props,
        Some(JsExpr::Call(
            RuntimeHelper::MergeProps,
            vec![
                JsExpr::Props(vec![(lit("id"), lit("a"))]),
                JsExpr::Call(RuntimeHelper::ToHandlers, vec![simple("handlers")]),
                simple("obj"),
            ]
        ))
    );
}

#[test]
fn spread_with_a_ref_still_has_the_bailout_bit_alone() {
    let built = build(vec![attr("ref", "el"), on("input", "go"), plain("bind", Some("obj"), 0)]);
    assert_eq!(built.patch_flag.bits, FULL_PROPS);
    assert!(built.dynamic_prop_names.is_empty());
}

#[test]
fn dynamic_argument_makes_the_keys_dynamic() {
    let item = ElemProp::Dir(directive("bind", Some(DirectiveArg::Dynamic("key".to_string())), Some("v"), 0));
    let built = build(vec![item, bind("id", "i")]);
    assert_eq!(built.patch_flag.bits, FULL_PROPS);
    assert!(built.dynamic_prop_names.is_empty());
    assert_eq!(
        built.props,
        Some(JsExpr::Call(
            RuntimeHelper::NormalizeProps,
            vec![JsExpr::Props(vec![(simple("key"), simple("v")), (lit("id"), simple("i"))])]
        ))
    );
}

#[test]
fn dynamic_event_gets_its_key_at_run_time() {
    let item = ElemProp::Dir(directive("on", Some(DirectiveArg::Dynamic("evt".to_string())), Some("h"), 0));
    let built = build(vec![item]);
    assert_eq!(built.patch_flag.bits, FULL_PROPS);
    assert_eq!(
        built.props,
        Some(JsExpr::Call(
            RuntimeHelper::NormalizeProps,
            vec![JsExpr::Props(vec![(
                JsExpr::Call(RuntimeHelper::ToHandlerKey, vec![simple("evt")]),
                simple("h")
            )])]
        ))
    );
}

#[test]
fn is_attribute_is_left_out_on_the_dynamic_component() {
    let component = Element { tag_name: "component".to_string() };
    let built = build_props(&converter(false, &[]), &component, vec![attr("is", "Foo"), attr("id", "a")]).unwrap();
    assert_eq!(built.props, Some(JsExpr::Props(vec![(lit("id"), lit("a"))])));
    let upper = Element { tag_name: "Component".to_string() };
    let built = build_props(&converter(false, &[]), &upper, vec![attr("is", "Foo")]).unwrap();
    assert_eq!(built.props, None);
}

#[test]
fn is_attribute_with_the_reserved_prefix_is_left_out() {
    let built = build(vec![attr("is", "vue:my-button")]);
    assert_eq!(built.props, None);
}

#[test]
fn is_attribute_on_a_plain_element_is_a_property() {
    let built = build(vec![attr("is", "my-button")]);
    assert_eq!(built.props, Some(JsExpr::Props(vec![(lit("is"), lit("my-button"))])));
    let built = build(vec![attr("is", "vue")]);
    assert_eq!(built.props, Some(JsExpr::Props(vec![(lit("is"), lit("vue"))])));
}

#[test]
fn ref_is_a_string_outside_inline_mode() {
    let built = build_props(&converter(false, &["foo"]), &div(), vec![attr("ref", "foo")]).unwrap();
    assert_eq!(built.props, Some(JsExpr::Props(vec![(lit("ref"), lit("foo"))])));
    assert_eq!(built.patch_flag.bits, NEED_PATCH);
    assert!(built.dynamic_prop_names.is_empty());
}

#[test]
fn ref_is_the_binding_in_inline_mode() {
    let built = build_props(&converter(true, &["bar", "foo"]), &div(), vec![attr("ref", "foo")]).unwrap();
    assert_eq!(built.props, Some(JsExpr::Props(vec![(lit("ref"), simple("foo"))])));
    assert!(built.patch_flag.contains(NEED_PATCH));
}

#[test]
fn ref_without_a_binding_fails_in_inline_mode() {
    let r = build_props(&converter(true, &["bar"]), &div(), vec![attr("id", "a"), attr("ref", "foo")]);
    assert_eq!(r, Err(CompileError::UnresolvedInlineBinding("foo".to_string())));
}

#[test]
fn empty_ref_stays_a_string_in_inline_mode() {
    let built = build_props(&converter(true, &[]), &div(), vec![attr("ref", "")]).unwrap();
    assert_eq!(built.props, Some(JsExpr::Props(vec![(lit("ref"), lit(""))])));
}

#[test]
fn inline_ref_is_resolved_by_name() {
    assert_eq!(process_inline_ref(&converter(true, &["foo"]), "foo"), Ok(simple("foo")));
    assert_eq!(
        process_inline_ref(&converter(true, &["foo"]), "fo"),
        Err(CompileError::UnresolvedInlineBinding("fo".to_string()))
    );
}

#[test]
fn click_listener_needs_no_hydration() {
    let built = build(vec![on("click", "go")]);
    assert_eq!(built.props, Some(JsExpr::Props(vec![(lit("onClick"), simple("go"))])));
    assert_eq!(built.patch_flag.bits, PROPS);
    assert_eq!(built.dynamic_prop_names, vec!["onClick".to_string()]);
}

#[test]
fn other_listeners_are_attached_at_hydration() {
    let built = build(vec![on("input", "go")]);
    assert_eq!(built.props, Some(JsExpr::Props(vec![(lit("onInput"), simple("go"))])));
    assert_eq!(built.patch_flag.bits, PROPS | HYDRATE_EVENTS);
    assert_eq!(built.patch_flag.bits, 40);
}

#[test]
fn model_update_listener_needs_no_hydration() {
    let built = build(vec![on("update:modelValue", "set")]);
    assert_eq!(built.props, Some(JsExpr::Props(vec![(lit("onUpdate:modelValue"), simple("set"))])));
    assert_eq!(built.patch_flag.bits, PROPS);
}

#[test]
fn node_hook_needs_a_patch() {
    let built = build(vec![on("vnodeMounted", "hook")]);
    assert_eq!(built.props, Some(JsExpr::Props(vec![(lit("onVnodeMounted"), simple("hook"))])));
    assert_eq!(built.patch_flag.bits, PROPS | NEED_PATCH);
    assert_eq!(built.patch_flag.bits, 520);
}

#[test]
fn unknown_directive_goes_to_the_runtime_as_it_stands() {
    let focus = Directive {
        name: "focus".to_string(),
        argument: Some(DirectiveArg::Static("now".to_string())),
        modifiers: vec!["lazy".to_string(), "once".to_string()],
        expression: Some("ready".to_string()),
        location: SourceLocation { start: 7, end: 31 },
    };
    let built = build(vec![attr("id", "a"), ElemProp::Dir(copy_directive(&focus)), plain("show", Some("open"), 40)]);
    assert_eq!(built.directives, vec![focus, directive("show", None, Some("open"), 40)]);
    assert_eq!(built.props, Some(JsExpr::Props(vec![(lit("id"), lit("a"))])));
    assert_eq!(built.patch_flag.bits, 0);
}

#[test]
fn structural_directive_makes_the_keys_dynamic() {
    let built = build(vec![plain("for", Some("x in xs"), 0), bind("id", "i")]);
    assert_eq!(built.patch_flag.bits, FULL_PROPS);
    assert!(built.dynamic_prop_names.is_empty());
    assert!(built.directives.is_empty());
    assert_eq!(built.props, Some(JsExpr::Props(vec![(lit("id"), simple("i"))])));
}

#[test]
fn two_conditionals_on_one_element_are_refused() {
    let r = build_props(
        &converter(false, &[]),
        &div(),
        vec![plain("if", Some("a"), 5), attr("id", "x"), plain("else", None, 17)],
    );
    assert_eq!(r, Err(CompileError::UnsupportedDirectiveCombination(at(17))));
    let r = build_props(
        &converter(false, &[]),
        &div(),
        vec![plain("else-if", Some("a"), 5), plain("if", Some("b"), 9)],
    );
    assert_eq!(r, Err(CompileError::UnsupportedDirectiveCombination(at(9))));
}

#[test]
fn conditional_beside_a_loop_is_accepted() {
    let built = build(vec![plain("if", Some("a"), 0), plain("for", Some("x in xs"), 9), plain("slot", None, 20)]);
    assert_eq!(built.patch_flag.bits, FULL_PROPS);
    assert_eq!(built.props, None);
}

#[test]
fn first_error_in_source_order_wins() {
    let r = build_props(
        &converter(true, &[]),
        &div(),
        vec![plain("if", None, 1), attr("ref", "gone"), plain("else", None, 30)],
    );
    assert_eq!(r, Err(CompileError::UnresolvedInlineBinding("gone".to_string())));
}

#[test]
fn nothing_is_normalised_for_the_server() {
    let mut bc = converter(false, &[]);
    bc.ssr = true;
    let built = build_props(&bc, &div(), vec![bind("class", "cls")]).unwrap();
    assert_eq!(built.props, Some(JsExpr::Props(vec![(lit("class"), simple("cls"))])));
    assert_eq!(built.patch_flag.bits, CLASS);
}

#[test]
fn collecting_one_attribute_adds_one_pair() {
    let mut cp = CollectProps::new();
    let a = Attribute { name: "id".to_string(), value: Some("a".to_string()), location: at(0) };
    assert_eq!(collect_attr(&converter(false, &[]), &div(), &a, &mut cp), Ok(()));
    assert_eq!(cp.props, vec![(lit("id"), lit("a"))]);
    assert_eq!(cp.prop_flags, no_flags());
    let r = Attribute { name: "ref".to_string(), value: Some("el".to_string()), location: at(0) };
    assert_eq!(collect_attr(&converter(false, &[]), &div(), &r, &mut cp), Ok(()));
    assert_eq!(cp.props, vec![(lit("id"), lit("a")), (lit("ref"), lit("el"))]);
    assert!(cp.prop_flags.has_ref);
    assert!(cp.dynamic_prop_names.is_empty());
}

#[test]
fn collecting_a_directive_notes_what_it_binds() {
    let mut cp = CollectProps::new();
    let bc = converter(false, &[]);
    let d = directive("bind", Some(DirectiveArg::Static("class".to_string())), Some("c"), 0);
    assert_eq!(collect_dir(&bc, &d, &mut cp), Ok(()));
    assert!(cp.prop_flags.has_class_binding);
    assert!(!cp.prop_flags.has_style_binding);
    let d = directive("bind", Some(DirectiveArg::Static("ref".to_string())), Some("r"), 0);
    assert_eq!(collect_dir(&bc, &d, &mut cp), Ok(()));
    assert!(cp.prop_flags.has_ref);
    assert_eq!(cp.dynamic_prop_names, vec!["ref".to_string()]);
    let d = directive("bind", None, None, 0);
    assert_eq!(collect_dir(&bc, &d, &mut cp), Ok(()));
    assert!(cp.prop_flags.has_dynamic_keys);
    assert!(cp.merge_args.is_empty());
    assert_eq!(cp.props.len(), 2);
}

#[test]
fn prop_expression_by_what_there_is() {
    assert_eq!(compute_prop_expr(vec![], vec![]), None);
    assert_eq!(compute_prop_expr(vec![(lit("a"), lit("b"))], vec![]), Some(JsExpr::Props(vec![(lit("a"), lit("b"))])));
    assert_eq!(
        compute_prop_expr(vec![], vec![simple("x"), simple("y")]),
        Some(JsExpr::Call(RuntimeHelper::MergeProps, vec![simple("x"), simple("y")]))
    );
    assert_eq!(
        compute_prop_expr(vec![(lit("a"), lit("b"))], vec![simple("x"), simple("y")]),
        Some(JsExpr::Call(
            RuntimeHelper::MergeProps,
            vec![JsExpr::Props(vec![(lit("a"), lit("b"))]), simple("x"), simple("y")]
        ))
    );
}

#[test]
fn patch_flag_by_what_was_noticed() {
    assert_eq!(build_patch_flag(&no_flags(), false).bits, 0);
    assert_eq!(build_patch_flag(&no_flags(), true).bits, 8);
    let mut f = no_flags();
    f.has_ref = true;
    assert_eq!(build_patch_flag(&f, false).bits, 512);
    f.has_vnode_hook = true;
    f.has_class_binding = true;
    f.has_style_binding = true;
    f.has_hydration_event_binding = true;
    assert_eq!(build_patch_flag(&f, true).bits, 2 + 4 + 8 + 32 + 512);
    f.has_dynamic_keys = true;
    assert_eq!(build_patch_flag(&f, true).bits, 16);
}

#[test]
fn normalising_leaves_literals_and_merges_alone() {
    assert_eq!(pre_normalize_prop(None, false), None);
    let literal = || Some(JsExpr::Props(vec![(lit("class"), lit("a")), (lit("style"), lit("b"))]));
    assert_eq!(pre_normalize_prop(literal(), false), literal());
    let merged = || Some(JsExpr::Call(RuntimeHelper::MergeProps, vec![simple("x")]));
    assert_eq!(pre_normalize_prop(merged(), false), merged());
    let bound = || Some(JsExpr::Props(vec![(lit("id"), simple("i")), (lit("class"), simple("c"))]));
    assert_eq!(pre_normalize_prop(bound(), true), bound());
    assert_eq!(
        pre_normalize_prop(bound(), false),
        Some(JsExpr::Props(vec![
            (lit("id"), simple("i")),
            (lit("class"), JsExpr::Call(RuntimeHelper::NormalizeClass, vec![simple("c")])),
        ]))
    );
}

#[test]
fn patch_flag_numbers_are_fixed() {
    assert_eq!(
        [
            TEXT,
            CLASS,
            STYLE,
            PROPS,
            FULL_PROPS,
            HYDRATE_EVENTS,
            STABLE_FRAGMENT,
            KEYED_FRAGMENT,
            UNKEYED_FRAGMENT,
            NEED_PATCH,
            DYNAMIC_SLOTS,
            DEV_ROOT_FRAGMENT,
            HOISTED,
            BAIL
        ],
        [1, 2, 4, 8, 16, 32, 64, 128, 256, 512, 1024, 2048, 4096, 8192]
    );
    assert_eq!(PatchFlag::empty().bits, 0);
    let f = PatchFlag { bits: CLASS | NEED_PATCH };
    assert!(f.contains(CLASS));
    assert!(f.contains(NEED_PATCH));
    assert!(f.contains(CLASS | NEED_PATCH));
    assert!(!f.contains(CLASS | STYLE));
    assert!(!f.is_bailout());
}

#[test]
fn first_binding_of_a_name_counts() {
    let meta = BindingMetadata {
        bindings: vec![
            ("a".to_string(), BindingTypes::Props),
            ("b".to_string(), BindingTypes::SetupLet),
            ("a".to_string(), BindingTypes::Data),
        ],
    };
    assert_eq!(meta.lookup("a"), Some(BindingTypes::Props));
    assert_eq!(meta.lookup("b"), Some(BindingTypes::SetupLet));
    assert_eq!(meta.lookup("c"), None);
    assert_eq!(meta.lookup(""), None);
}

#[test]
fn handler_key_is_on_and_the_capitalised_event() {
    assert_eq!(handler_key("click"), "onClick");
    assert_eq!(handler_key("update:modelValue"), "onUpdate:modelValue");
    assert_eq!(handler_key("Click"), "onClick");
    assert_eq!(handler_key("1st"), "on1st");
    assert_eq!(handler_key(""), "on");
    assert_eq!(handler_key("émoi"), "onémoi");
}

#[test]
fn text_helpers() {
    assert!(starts_with("vue:x", "vue:"));
    assert!(starts_with("vue:", "vue:"));
    assert!(starts_with("anything", ""));
    assert!(!starts_with("vue", "vue:"));
    assert!(!starts_with("Vue:x", "vue:"));
    assert!(str_is("ref", "ref"));
    assert!(!str_is("ref", "refs"));
    assert!(!str_is("ref", "reF"));
    assert!(str_is("", ""));
    assert_eq!(to_upper('a'), 'A');
    assert_eq!(to_upper('z'), 'Z');
    assert_eq!(to_upper('A'), 'A');
    assert_eq!(to_upper('-'), '-');
    assert_eq!(to_upper('é'), 'é');
    assert!(is_component_tag("component"));
    assert!(is_component_tag("Component"));
    assert!(!is_component_tag("components"));
    assert!(!is_component_tag("div"));
}
