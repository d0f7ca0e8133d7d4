use rust_less::media::{
    at_rule_mapping_name,
    find_top_level_separator, is_identifier_char, media_feature_mappings,
    media_feature_mappings_resolved, should_bubble_conditional_at_rule,
};

#[test]
fn separators_at_top_level_only() {
    let cs: Vec<char> = "(a, b), c".chars().collect();
    assert_eq!(find_top_level_separator(&cs, 0), Some(6));
    let cs: Vec<char> = "screen and (x)".chars().collect();
    assert_eq!(find_top_level_separator(&cs, 0), Some(7));
    let cs: Vec<char> = "band (x)".chars().collect();
    assert_eq!(find_top_level_separator(&cs, 0), None);
    let cs: Vec<char> = "a))), b".chars().collect();
    assert_eq!(find_top_level_separator(&cs, 0), Some(4));
}

#[test]
fn media_header_pairs() {
    assert_eq!(media_feature_mappings("   "), vec![]);
    assert_eq!(media_feature_mappings("(min-width: 10px)"), vec![(8, 25)]);
    assert_eq!(
        media_feature_mappings("(a), (b)"),
        vec![(8, 10), (13, 16)]
    );
    assert_eq!(
        media_feature_mappings("(width: calc(1px))"),
        vec![(8, 26), (15, 15)]
    );
    assert_eq!(
        media_feature_mappings("(x: URL(a))"),
        vec![(8, 19), (15, 15)]
    );
}

#[test]
fn resolved_pairs_take_source_columns() {
    assert_eq!(
        media_feature_mappings_resolved("(a)", "(a)"),
        media_feature_mappings("(a)")
    );
    assert_eq!(
        media_feature_mappings_resolved("(width: 10px)", "(width: @w)"),
        vec![(8, 19)]
    );
}

#[test]
fn identifier_chars_and_bubbling() {
    assert!(is_identifier_char('a'));
    assert!(is_identifier_char('-'));
    assert!(!is_identifier_char('('));
    assert!(!is_identifier_char('é'));
    assert!(should_bubble_conditional_at_rule("supports"));
    assert!(!should_bubble_conditional_at_rule("media"));
}

#[test]
fn at_rule_names_for_source_maps() {
    assert_eq!(at_rule_mapping_name("media", Some("  (x)  ")), "@media (x)");
    assert_eq!(at_rule_mapping_name("media", Some("   ")), "@media");
    assert_eq!(at_rule_mapping_name("font-face", None), "@font-face");
}
