use rust_less::cli::{default_source_map_url, source_map_url_from};

#[test]
fn test_default_source_map_url_uses_file_name() {
    let url = default_source_map_url("/tmp/dist/styles.css.map");
    assert_eq!(url, "styles.css.map");
}

#[test]
fn test_default_source_map_url_plain_path() {
    let url = default_source_map_url("styles.css.map");
    assert_eq!(url, "styles.css.map");
}

#[test]
fn source_map_url_falls_back_to_the_path() {
    assert_eq!(source_map_url_from("dir/..", None), "dir/..");
    assert_eq!(source_map_url_from("a/b.map", Some("b.map".to_string())), "b.map");
    assert_eq!(default_source_map_url("dir/.."), "dir/..");
}
