use vue_ir::ir::{IRNode, IRRoot, TextIR};
use vue_ir::setup_script::{split_script, ScriptBlocks, SfcScriptBlock};
use vue_ir::transformer::{NoopTransformer, Transformer};

fn block(source: &str, setup: bool) -> SfcScriptBlock {
    SfcScriptBlock { source: source.to_string(), setup }
}

#[test]
fn plain_and_setup_script_are_told_apart() {
    let scripts = ScriptBlocks::from_vec(&vec![block("export default {}", false), block("const a = 1", true)]);
    let (normal, setup) = split_script(&scripts);
    assert_eq!(normal, Some(&block("export default {}", false)));
    assert_eq!(setup, Some(&block("const a = 1", true)));
}

#[test]
fn setup_script_may_come_first() {
    let scripts = ScriptBlocks::from_vec(&vec![block("s", true), block("n", false)]);
    let (normal, setup) = split_script(&scripts);
    assert_eq!(normal, Some(&block("n", false)));
    assert_eq!(setup, Some(&block("s", true)));
}

#[test]
fn a_missing_kind_of_script_is_none() {
    let only_setup = ScriptBlocks::from_vec(&vec![block("s", true)]);
    assert_eq!(split_script(&only_setup), (None, Some(&block("s", true))));
    let only_normal = ScriptBlocks::from_vec(&vec![block("n", false)]);
    assert_eq!(split_script(&only_normal), (Some(&block("n", false)), None));
    let none = ScriptBlocks::from_vec(&vec![]);
    assert_eq!(split_script(&none), (None, None));
}

#[test]
fn the_first_script_of_a_kind_is_taken() {
    let scripts = ScriptBlocks::from_vec(&vec![
        block("s1", true),
        block("n1", false),
        block("n2", false),
        block("s2", true),
    ]);
    let (normal, setup) = split_script(&scripts);
    assert_eq!(normal.map(|b| b.source.as_str()), Some("n1"));
    assert_eq!(setup.map(|b| b.source.as_str()), Some("s1"));
    assert!(setup.unwrap().is_setup());
    assert!(!normal.unwrap().is_setup());
}

#[test]
fn noop_transformer_changes_nothing() {
    let tree = || IRRoot { body: vec![IRNode::TextCall(TextIR { content: "t".to_string() })] };
    let mut root = tree();
    let mut t: NoopTransformer<IRRoot> = NoopTransformer::new();
    assert_eq!(t.transform(&mut root), Ok(()));
    assert_eq!(root, tree());
    let mut n: u32 = 7;
    let mut t: NoopTransformer<u32> = NoopTransformer::new();
    assert_eq!(t.transform(&mut n), Ok(()));
    assert_eq!(n, 7);
}
