use rust_less::ast::Position;
use rust_less::output::{
    nested_media_header, regroup_media_block, regroup_merged_media_block, rule_output, write_queued_media, write_rule_block,
    MediaItemKind, MediaStep, RuleBodyItem,
};

fn decl(p: &str, v: &str, important: bool) -> RuleBodyItem {
    RuleBodyItem::Declaration { property: p.to_string(), value: v.to_string(), important }
}

#[test]
fn rule_blocks_pretty_and_compressed() {
    let sels = vec![".a".to_string(), ".b".to_string()];
    let items = vec![
        (Position::new(3, 5), decl("color", "red", false)),
        (Position::new(2, 5), decl("width", "10px", true)),
        (Position::new(3, 5), RuleBodyItem::Comment { content: " c ".to_string(), block: true }),
        (Position::new(4, 1), RuleBodyItem::Comment { content: " gone".to_string(), block: false }),
    ];
    assert_eq!(
        write_rule_block(&sels, &items, &[], 0, false),
        ".a, .b {\n  width: 10px !important;\n  color: red;\n  /* c */\n}\n"
    );
    assert_eq!(
        write_rule_block(&sels, &items, &[], 0, true),
        ".a, .b{width:10px!important;color:red;/* c */}"
    );
    let merged = vec![decl("margin", "1px 2px", false)];
    assert_eq!(
        write_rule_block(&[".x".to_string()], &[], &merged, 1, false),
        "  .x {\n    margin: 1px 2px;\n  }\n"
    );
    assert_eq!(write_rule_block(&sels, &[], &[], 0, false), "");
}

#[test]
fn a_line_comment_alone_still_opens_a_block() {
    let items = vec![(Position::new(1, 1), RuleBodyItem::Comment { content: "x".to_string(), block: false })];
    assert_eq!(write_rule_block(&[".a".to_string()], &items, &[], 0, false), ".a {\n}\n");
    let mixin = vec![(Position::new(1, 1), RuleBodyItem::MixinOutput("  color: blue;\n".to_string()))];
    assert_eq!(write_rule_block(&[".m".to_string()], &mixin, &[], 0, false), ".m {\n  color: blue;\n}\n");
}

#[test]
fn queued_media_follows_the_rule() {
    let media = write_queued_media("@media screen", "  .a {\n    color: red;\n  }\n", 0, false);
    assert_eq!(media, "@media screen {\n  .a {\n    color: red;\n  }\n}\n");
    assert_eq!(write_queued_media("@media print", ".a{color:red;}", 0, true), "@media print{.a{color:red;}}");
    let out = rule_output(".a {\n}\n", &[".a .b {\n}\n".to_string()], &[media.clone()]);
    assert_eq!(out, format!(".a {{\n}}\n.a .b {{\n}}\n{}", media));
    assert_eq!(nested_media_header(Some("(min-width: 1px)")), "@media (min-width: 1px)");
    assert_eq!(nested_media_header(None), "@media");
}

#[test]
fn media_blocks_wrap_loose_declarations() {
    let kinds = [
        MediaItemKind::Declaration,
        MediaItemKind::Variable,
        MediaItemKind::Declaration,
        MediaItemKind::Rule,
        MediaItemKind::Other,
        MediaItemKind::Declaration,
        MediaItemKind::BubblingAtRule,
        MediaItemKind::Declaration,
    ];
    assert_eq!(
        regroup_media_block(&kinds),
        vec![
            MediaStep::WrapDeclarations(vec![0, 2]),
            MediaStep::Keep(3),
            MediaStep::Keep(4),
            MediaStep::WrapDeclarations(vec![5]),
            MediaStep::Keep(6),
            MediaStep::WrapDeclarations(vec![7]),
        ]
    );
    assert_eq!(regroup_media_block(&[MediaItemKind::Rule]), vec![MediaStep::Keep(0)]);
}

#[test]
fn merged_media_blocks_wrap_each_declaration() {
    let kinds = [MediaItemKind::Declaration, MediaItemKind::Variable, MediaItemKind::Declaration, MediaItemKind::Rule];
    assert_eq!(
        regroup_merged_media_block(&kinds),
        vec![
            MediaStep::WrapDeclarations(vec![0]),
            MediaStep::Keep(1),
            MediaStep::WrapDeclarations(vec![2]),
            MediaStep::Keep(3),
        ]
    );
}
