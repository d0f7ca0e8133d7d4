use rust_less::ast::selectors::{Combinator, Selector, SelectorPart, SimpleSelector};
use rust_less::ast::Position;
use rust_less::lsp::{
    line_text, namespace_name, offset_to_pos, params_to_string, selector_to_string, word_at,
    ParamLabel,
};
use rust_less::map_keys::{canonical_map_key, map_keys_equal, unquote_map_key};
use rust_less::units::{merge_units, units_compatible};

#[test]
fn unit_merging() {
    let px = Some("px".to_string());
    let em = Some("em".to_string());
    assert_eq!(merge_units(&px, &em), px);
    assert_eq!(merge_units(&None, &em), em);
    assert_eq!(merge_units(&None, &None), None);
}

#[test]
fn unit_groups_compatibility() {
    assert!(units_compatible("px", "em"));
    assert!(units_compatible("deg", "turn"));
    assert!(!units_compatible("px", "deg"));
    assert!(units_compatible("foo", "foo"));
    assert!(!units_compatible("foo", "bar"));
    assert_eq!(units_compatible("s", "ms"), units_compatible("ms", "s"));
}

#[test]
fn quoted_and_bare_keys() {
    assert_eq!(unquote_map_key("\"a\""), Some("a".to_string()));
    assert_eq!(unquote_map_key("a"), None);
    assert_eq!(unquote_map_key("\""), None);
    assert_eq!(canonical_map_key("\"\""), "");
    assert!(map_keys_equal("\"primary\"", "primary"));
    assert!(map_keys_equal("primary", "primary"));
    assert!(!map_keys_equal("primary", "secondary"));
}

#[test]
fn lines_of_a_document() {
    let text = "a\r\nb\n\nc\r";
    assert_eq!(line_text(text, 0), Some("a".to_string()));
    assert_eq!(line_text(text, 1), Some("b".to_string()));
    assert_eq!(line_text(text, 2), Some("".to_string()));
    assert_eq!(line_text(text, 3), Some("c\r".to_string()));
    assert_eq!(line_text(text, 4), None);
    assert_eq!(line_text("x\n", 1), None);
    assert_eq!(line_text("", 0), None);
}

#[test]
fn positions_from_byte_offsets() {
    assert_eq!(offset_to_pos("ab\ncd", 0), (1, 1));
    assert_eq!(offset_to_pos("ab\ncd", 4), (2, 2));
    assert_eq!(offset_to_pos("ab\ncd", 100), (2, 3));
    assert_eq!(offset_to_pos("é\nx", 2), (1, 2));
    assert_eq!(offset_to_pos("é\nx", 1), (1, 2));
}

#[test]
fn word_under_cursor() {
    let text = ".btn { color: @main-color; }";
    assert_eq!(word_at(text, 0, 2), Some(".btn".to_string()));
    assert_eq!(word_at(text, 0, 16), Some("@main-color".to_string()));
    assert_eq!(word_at(text, 0, 4), Some(".btn".to_string()));
    assert_eq!(word_at(text, 0, 6), None);
    assert_eq!(word_at(text, 3, 0), None);
}

#[test]
fn namespace_and_selector_names() {
    let pos = Position::new(1, 1);
    let ns = Selector::simple("#ns".to_string(), pos);
    assert_eq!(namespace_name(&[ns.clone()]), Some("ns".to_string()));
    let cls = Selector::simple(".c".to_string(), pos);
    assert_eq!(namespace_name(&[cls]), None);
    assert_eq!(namespace_name(&[ns.clone(), ns]), None);

    let part1 = SelectorPart::new(
        vec![SimpleSelector::Class { name: "a".to_string(), position: pos }],
        pos,
    )
    .with_combinator(Combinator::Child);
    let part2 = SelectorPart::new(
        vec![
            SimpleSelector::Type { name: "li".to_string(), position: pos },
            SimpleSelector::PseudoClass {
                name: "nth-child".to_string(),
                argument: Some("2".to_string()),
                position: pos,
            },
        ],
        pos,
    );
    let sel = Selector::new(vec![part1, part2], pos);
    assert_eq!(selector_to_string(&sel), ".a > li:nth-child(2)");
}

#[test]
fn mixin_parameter_lists() {
    assert_eq!(params_to_string(&[]), "");
    let params = vec![
        ParamLabel { name: "a".to_string(), variadic: false, default_text: Some("1".to_string()) },
        ParamLabel { name: "b".to_string(), variadic: false, default_text: None },
        ParamLabel { name: "rest".to_string(), variadic: true, default_text: None },
    ];
    assert_eq!(params_to_string(&params), "(@a: 1; @b; @rest...)");
}
