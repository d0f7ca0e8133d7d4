use rust_less::ast::selectors::{Combinator, Selector, SelectorPart, SimpleSelector};
use rust_less::ast::Position;
use rust_less::error::Error;
use rust_less::extend::{rule_selectors, ExtendRegistry};
use rust_less::media::{merge_media_conditions, merged_media_query};
use rust_less::mixin::{
    bind_mixin_arguments, mixin_trials, BindingSource, GuardKind, MixinCandidate, MixinParam, MixinTrial,
};
use rust_less::nesting::{compile_selector, compiled_selector_text, nest_selector};

fn param(name: &str, has_default: bool, variadic: bool, is_pattern: bool) -> MixinParam {
    MixinParam { name: name.to_string(), has_default, variadic, is_pattern }
}

#[test]
fn media_conditions_accumulate() {
    let stack = vec!["screen".to_string()];
    let c = merge_media_conditions(&stack, "  (min-width: 10px) ");
    assert_eq!(c, vec!["screen".to_string(), "(min-width: 10px)".to_string()]);
    let c2 = merge_media_conditions(&stack, "   ");
    assert_eq!(c2, vec!["screen".to_string()]);
}

#[test]
fn merged_media_headers() {
    assert_eq!(merged_media_query(&[]), "@media");
    assert_eq!(
        merged_media_query(&["screen".to_string(), "((min-width: 10px))".to_string()]),
        "@media (screen) and (min-width: 10px)"
    );
    assert_eq!(
        merged_media_query(&["".to_string(), " (print) ".to_string()]),
        "@media (print)"
    );
}

#[test]
fn rule_selectors_add_extenders_once() {
    let mut reg = ExtendRegistry::new();
    let a = Selector::simple(".a".to_string(), Position::new(1, 1));
    reg.add_extend(&a, vec![".b".to_string(), ".a".to_string()], false);
    let sels = vec![".a".to_string(), ".c".to_string()];
    assert_eq!(
        rule_selectors(&sels, &reg),
        vec![".a".to_string(), ".b".to_string(), ".c".to_string()]
    );
    let mut reg2 = ExtendRegistry::new();
    reg2.add_extend(&a, vec![".x".to_string()], true);
    assert_eq!(
        rule_selectors(&[".a:hover".to_string()], &reg2),
        vec![".a:hover".to_string(), ".x:hover".to_string()]
    );
}

#[test]
fn merged_registry_partial_matches() {
    let a = Selector::simple(".a".to_string(), Position::new(1, 1));
    let mut r1 = ExtendRegistry::new();
    r1.add_extend(&a, vec![".b".to_string()], true);
    let mut r2 = ExtendRegistry::new();
    r2.add_extend(&a, vec![".c".to_string()], true);
    r1.merge(r2);
    assert_eq!(
        r1.find_partial_matches(".a.z"),
        vec![".b.z".to_string(), ".c.z".to_string()]
    );
}

#[test]
fn mixin_binding_with_defaults_and_rest() {
    let params = vec![
        param("a", false, false, false),
        param("b", true, false, false),
        param("rest", false, true, false),
    ];
    let b = bind_mixin_arguments("m", &params, 1, 3, 4).unwrap();
    let names: Vec<(String, BindingSource)> = b.bindings;
    assert_eq!(
        names,
        vec![
            ("a".to_string(), BindingSource::Argument(0)),
            ("b".to_string(), BindingSource::Default(1)),
            ("rest".to_string(), BindingSource::Rest(1)),
        ]
    );
    assert_eq!(b.all_arguments, vec![BindingSource::Argument(0), BindingSource::Default(1)]);

    let b = bind_mixin_arguments("m", &params, 4, 3, 4).unwrap();
    assert_eq!(
        b.all_arguments,
        vec![
            BindingSource::Argument(0),
            BindingSource::Argument(1),
            BindingSource::Argument(2),
            BindingSource::Argument(3)
        ]
    );
}

#[test]
fn mixin_binding_errors() {
    let params = vec![param("a", false, false, false), param("b", true, false, false)];
    let e = bind_mixin_arguments("box", &params, 0, 7, 9).unwrap_err();
    assert_eq!(
        e.message(),
        "Semantic error: Mixin 'box' expects at least 1 arguments, got 0"
    );
    assert_eq!((e.line(), e.column()), (Some(7), Some(9)));
    let e = bind_mixin_arguments("box", &params, 3, 7, 9).unwrap_err();
    assert!(matches!(e, Error::SemanticError { .. }));
    assert_eq!(
        e.message(),
        "Semantic error: Mixin 'box' expects at most 2 arguments, got 3"
    );
}

#[test]
fn pattern_parameters_bind_only_real_names() {
    let params = vec![param("__pattern_0", false, false, true), param("_", false, false, true)];
    let b = bind_mixin_arguments("m", &params, 2, 1, 1).unwrap();
    assert_eq!(b.bindings, vec![("_".to_string(), BindingSource::Argument(1))]);
}

#[test]
fn hex_colors() {
    use_parse_hex();
}

fn use_parse_hex() {
    use_hex("#ff0000", Ok((255, 0, 0, None)));
    use_hex("#abc", Ok((0xaa, 0xbb, 0xcc, None)));
    use_hex("#abcd", Ok((0xaa, 0xbb, 0xcc, Some(0xdd))));
    use_hex("##11223344", Ok((0x11, 0x22, 0x33, Some(0x44))));
    use_hex("+f+f+f", Ok((15, 15, 15, None)));
    use_hex("#12", Err("Invalid hex color length"));
    use_hex("#ggg", Err("Invalid hex color"));
    use_hex("#éabcd", Err("Invalid hex color"));
}

fn use_hex(s: &str, expected: Result<(u8, u8, u8, Option<u8>), &'static str>) {
    assert_eq!(rust_less::color::parse_hex_color(s), expected);
}

#[test]
fn nested_selectors_follow_their_parents() {
    let parents = vec![".a".to_string(), ".b".to_string()];
    assert_eq!(nest_selector("&:hover", true, &parents).unwrap(), ".a:hover, .b:hover");
    assert_eq!(nest_selector(".x &", true, &parents).unwrap(), ".x .a, .x .b");
    assert_eq!(nest_selector("&-&", true, &[".p".to_string()]).unwrap(), ".p-&");
    assert_eq!(nest_selector("span", false, &parents).unwrap(), ".a span, .b span");
    assert_eq!(nest_selector("span", false, &[]).unwrap(), "span");
    match nest_selector("&.c", true, &[]) {
        Err(Error::CompilationError { message }) => {
            assert_eq!(message, "Parent selector (&) used without parent context")
        }
        other => panic!("unexpected {:?}", other),
    }
}

#[test]
fn compiled_selector_text_drops_extend_and_joins_parts() {
    let p = Position::new(1, 1);
    let class = |n: &str| SimpleSelector::Class { name: n.to_string(), position: p.clone() };
    let extend = SimpleSelector::PseudoClass {
        name: "extend".to_string(),
        argument: Some(".b".to_string()),
        position: p.clone(),
    };
    let hover = SimpleSelector::PseudoClass { name: "hover".to_string(), argument: None, position: p.clone() };
    let sel = Selector::new(
        vec![
            SelectorPart::new(vec![class("a"), extend.clone()], p.clone()).with_combinator(Combinator::Descendant),
            SelectorPart::new(vec![extend.clone()], p.clone()).with_combinator(Combinator::Child),
            SelectorPart::new(vec![class("c"), hover], p.clone()).with_combinator(Combinator::Child),
            SelectorPart::new(
                vec![SimpleSelector::Interpolation { variable: "x".to_string(), position: p.clone() }],
                p.clone(),
            ),
        ],
        p.clone(),
    );
    assert_eq!(compiled_selector_text(&sel, &["li".to_string()]), ".a .c:hover > li");
    assert_eq!(compiled_selector_text(&sel, &[]), ".a .c:hover > ");
    let only_extend = Selector::new(vec![SelectorPart::new(vec![extend], p.clone())], p.clone());
    assert_eq!(compiled_selector_text(&only_extend, &[]), "");
    assert_eq!(compile_selector(&only_extend, &[], &[]).unwrap(), "");
    assert_eq!(compile_selector(&sel, &["li".to_string()], &[".x".to_string()]).unwrap(), ".x .a .c:hover > li");
    let hover = Selector::simple("&:hover".to_string(), p);
    let parents = vec![".a".to_string(), ".b".to_string()];
    assert_eq!(compile_selector(&hover, &[], &parents).unwrap(), ".a:hover, .b:hover");
    assert!(compile_selector(&hover, &[], &[]).is_err());
}

#[test]
fn mixin_trials_follow_default_last() {
    let c = |patterns_match: bool, guard: GuardKind| MixinCandidate { patterns_match, guard };
    let t = |index: usize, guarded: bool| MixinTrial { index, guarded };
    let cands = vec![
        c(true, GuardKind::UsesDefault),
        c(false, GuardKind::Plain),
        c(true, GuardKind::Plain),
        c(false, GuardKind::UsesDefault),
    ];
    assert_eq!(mixin_trials(&cands), vec![t(2, true), t(0, true), t(3, true)]);
    let with_plain = vec![
        c(true, GuardKind::Plain),
        c(false, GuardKind::Unguarded),
        c(true, GuardKind::Unguarded),
        c(true, GuardKind::Plain),
        c(true, GuardKind::UsesDefault),
    ];
    assert_eq!(mixin_trials(&with_plain), vec![t(0, true), t(2, false)]);
    assert_eq!(mixin_trials(&[]), Vec::<MixinTrial>::new());
}

#[test]
fn test_color_hex_parsing() {
    let (red, green, blue, alpha) = rust_less::color::parse_hex_color("#ff0000").unwrap();
    assert_eq!(red, 255);
    assert_eq!(green, 0);
    assert_eq!(blue, 0);
    assert_eq!(alpha, None);
    assert_eq!(rust_less::color::try_parse_hex_color("#éab"), None);
    assert_eq!(rust_less::color::try_parse_hex_color("#ff0000"), Some(Ok((255, 0, 0, None))));
}
