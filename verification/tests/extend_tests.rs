use rust_less::ast::selectors::Selector;
use rust_less::ast::Position;
use rust_less::extend::{
    compound_contains_simple, replace_parent_refs, replace_selector_target, selector_contains_target,
    split_by_combinators, ExtendCollector, ExtendRegistry,
};

#[test]
fn replaces_plain_parent_refs() {
    assert_eq!(replace_parent_refs("&:hover", ".a"), ".a:hover");
    assert_eq!(replace_parent_refs(".a & .b", ".p"), ".a .p .b");
    assert_eq!(replace_parent_refs("a&", ".p"), "a.p");
    assert_eq!(replace_parent_refs("&#id", ".p"), ".p#id");
}

#[test]
fn skips_ampersand_in_double_quoted_string() {
    assert_eq!(replace_parent_refs("[data-x=\"a&b\"]", ".p"), "[data-x=\"a&b\"]");
    assert_eq!(replace_parent_refs("\"a&b\" &", ".p"), "\"a&b\" .p");
}

#[test]
fn skips_ampersand_in_single_quoted_string() {
    assert_eq!(replace_parent_refs("'a&b'&:hover", ".p"), "'a&b'.p:hover");
}

#[test]
fn skips_ampersand_in_attribute_selector() {
    assert_eq!(
        replace_parent_refs("&[data-x=\"a&b\"]", ".p"),
        ".p[data-x=\"a&b\"]"
    );
    assert_eq!(
        replace_parent_refs("&[title='c&d']", ".p"),
        ".p[title='c&d']"
    );
}

#[test]
fn escaped_ampersand_is_literal() {
    assert_eq!(replace_parent_refs("\\& &", ".p"), "\\& .p");
}

#[test]
fn string_escape_handling() {
    assert_eq!(
        replace_parent_refs("\"a\\\"&b\" &", ".p"),
        "\"a\\\"&b\" .p"
    );
}

#[test]
fn without_ampersand_the_selector_is_kept() {
    assert_eq!(replace_parent_refs(".child", ".p"), ".child");
    assert_eq!(replace_parent_refs("&-suffix &", "#n"), "#n-suffix #n");
}

#[test]
fn split_on_combinators() {
    assert_eq!(split_by_combinators(".a > .b + .c"), vec![".a", ".b", ".c"]);
    assert_eq!(split_by_combinators(".a .b"), vec![".a", ".b"]);
    assert_eq!(split_by_combinators(".a"), vec![".a"]);
}

#[test]
fn compound_matching() {
    assert!(compound_contains_simple(".a.b", ".a"));
    assert!(compound_contains_simple(".a:hover", ".a"));
    assert!(!compound_contains_simple(".ab", ".a"));
    assert!(selector_contains_target(".x > .a.b", ".a"));
    assert!(!selector_contains_target(".x > .ab", ".a"));
}

#[test]
fn target_replacement() {
    assert_eq!(replace_selector_target(".a.b", ".a", ".c"), ".c.b");
}

#[test]
fn registry_add_then_find_exact() {
    let mut reg = ExtendRegistry::new();
    let target = Selector::simple(".a".to_string(), Position::new(1, 1));
    reg.add_extend(&target, vec![".b".to_string()], false);
    assert_eq!(reg.find_exact_matches(".a"), vec![".b".to_string()]);
    assert_eq!(reg.find_exact_matches("  .a "), vec![".b".to_string()]);
    assert!(reg.find_exact_matches(".c").is_empty());
}

#[test]
fn registry_partial_matches_need_all() {
    let mut reg = ExtendRegistry::new();
    let target = Selector::simple(".a".to_string(), Position::new(1, 1));
    reg.add_extend(&target, vec![".b".to_string()], true);
    let target2 = Selector::simple(".x".to_string(), Position::new(1, 1));
    reg.add_extend(&target2, vec![".y".to_string()], false);
    assert_eq!(reg.find_partial_matches(".a.z"), vec![".b.z".to_string()]);
    assert!(reg.find_partial_matches(".x.z").is_empty());
}

#[test]
fn registry_merge_combines() {
    let mut a = ExtendRegistry::new();
    let t = Selector::simple(".a".to_string(), Position::new(1, 1));
    a.add_extend(&t, vec![".b".to_string()], false);
    let mut b = ExtendRegistry::new();
    b.add_extend(&t, vec![".c".to_string()], false);
    a.merge(b);
    assert_eq!(
        a.find_exact_matches(".a"),
        vec![".b".to_string(), ".c".to_string()]
    );
}

#[test]
fn collector_resolves_nested_selectors() {
    let c = ExtendCollector::new();
    let sels = vec![Selector::simple("&:hover".to_string(), Position::new(1, 1))];
    let parents = vec![".p".to_string(), ".q".to_string()];
    assert_eq!(
        c.resolve_selectors(&sels, &parents),
        vec![".p:hover".to_string(), ".q:hover".to_string()]
    );
    assert_eq!(c.resolve_selectors(&sels, &[]), vec!["&:hover".to_string()]);
}
