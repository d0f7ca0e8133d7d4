use rust_less::ast::Position;
use rust_less::source_map::{lessjs_source_from, normalize_path_slashes, SourceMapGenerator};

#[test]
fn disabled_generator_records_nothing() {
    let mut g = SourceMapGenerator::new(false);
    assert!(!g.is_enabled());
    g.add_mapping("a.less", &Position::new(1, 1), 0, 0, None);
    assert!(g.generate().is_none());
    assert!(g.generate_json().is_none());
    let d = SourceMapGenerator::default();
    assert!(!d.is_enabled());
}

#[test]
fn mappings_are_zero_based_and_sources_shared() {
    let mut g = SourceMapGenerator::new(true);
    g.set_file(Some("out.css"));
    g.add_mapping("a.less", &Position::new(3, 5), 0, 2, Some("color"));
    g.add_mapping("b.less", &Position::new(1, 1), 1, 0, None);
    g.add_mapping("a.less", &Position::new(4, 1), 2, 0, Some("color"));
    let sm = g.generate().unwrap();
    assert_eq!(sm.get_file(), Some("out.css"));
    assert_eq!(sm.get_source_count(), 2);
    assert_eq!(sm.get_source(0), Some("a.less"));
    assert_eq!(sm.get_source(1), Some("b.less"));
    assert_eq!(sm.get_name_count(), 1);
    assert_eq!(sm.get_token_count(), 3);
    let t = sm.get_token(0).unwrap();
    assert_eq!((t.get_dst_line(), t.get_dst_col()), (0, 2));
    assert_eq!((t.get_src_line(), t.get_src_col()), (2, 4));
    assert_eq!(t.get_source(), Some("a.less"));
    assert_eq!(t.get_name(), Some("color"));
    let t2 = sm.get_token(2).unwrap();
    assert_eq!(t2.get_source(), Some("a.less"));
    assert_eq!((t2.get_src_line(), t2.get_src_col()), (3, 0));
}

#[test]
fn generate_starts_afresh_with_the_same_configuration() {
    let mut g = SourceMapGenerator::new(true);
    g.set_file(Some("out.css"));
    g.set_source_root(Some("src"));
    g.add_mapping("a.less", &Position::new(1, 1), 0, 0, None);
    let first = g.generate().unwrap();
    assert_eq!(first.get_source_root(), Some("src"));
    let second = g.generate().unwrap();
    assert_eq!(second.get_source_count(), 0);
    assert_eq!(second.get_token_count(), 0);
    assert_eq!(second.get_file(), Some("out.css"));
    assert_eq!(second.get_source_root(), Some("src"));
}

#[test]
fn reset_forgets_mappings() {
    let mut g = SourceMapGenerator::new(true);
    g.add_mapping("a.less", &Position::new(1, 1), 0, 0, None);
    g.reset();
    let sm = g.generate().unwrap();
    assert_eq!(sm.get_token_count(), 0);
    assert_eq!(sm.get_source_count(), 0);
}

#[test]
fn json_output_lists_sources() {
    let mut g = SourceMapGenerator::new(true);
    g.set_file(Some("out.css"));
    g.add_mapping("a.less", &Position::new(1, 1), 0, 0, None);
    let json = g.generate_json().unwrap();
    assert!(json.contains("\"sources\":[\"a.less\"]"));
    assert!(json.contains("\"file\":\"out.css\""));
}

#[test]
fn lessjs_json_puts_the_root_into_sources() {
    let mut g = SourceMapGenerator::new(true);
    g.set_lessjs_compat_mode(true);
    g.set_source_root(Some("/root/"));
    g.set_source_base_path(Some(std::path::PathBuf::from("/proj")));
    g.add_mapping("/proj/styles/a.less", &Position::new(1, 1), 0, 0, Some("x"));
    let json = g.generate_json().unwrap();
    assert!(json.contains("\"sources\":[\"/root/styles/a.less\"]"));
    assert!(!json.contains("sourceRoot"));
    assert!(json.contains("\"names\":[]"));
}

#[test]
fn slashes_are_normalized() {
    assert_eq!(normalize_path_slashes("a\\b\\c.less"), "a/b/c.less");
    assert_eq!(normalize_path_slashes("a/b"), "a/b");
}

#[test]
fn lessjs_source_choice() {
    assert_eq!(
        lessjs_source_from("/p/a.less", true, Some("a.less".to_string()), Some("a.less".to_string())),
        "a.less"
    );
    assert_eq!(
        lessjs_source_from("/p/x\\a.less", true, Some("".to_string()), Some("a.less".to_string())),
        "a.less"
    );
    assert_eq!(lessjs_source_from("x\\a.less", false, None, None), "x/a.less");
}
