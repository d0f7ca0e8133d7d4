use rust_less::import::{import_file_name, import_once};

#[test]
fn import_paths_name_less_files() {
    assert_eq!(import_file_name("\"foo\""), "foo.less");
    assert_eq!(import_file_name("'bar.css'"), "bar.css");
    assert_eq!(import_file_name("a/b.less"), "a/b.less");
    assert_eq!(import_file_name("\"'x'\""), "x.less");
    assert_eq!(import_file_name("'\"y\"'"), "\"y\".less");
}

#[test]
fn imports_compile_once_unless_multiple() {
    let mut seen: Vec<String> = Vec::new();
    assert!(import_once(&mut seen, "/p/a.less", false));
    assert!(!import_once(&mut seen, "/p/a.less", false));
    assert!(import_once(&mut seen, "/p/a.less", true));
    assert_eq!(seen, vec!["/p/a.less".to_string()]);
    assert!(import_once(&mut seen, "/p/b.less", false));
    assert_eq!(seen.len(), 2);
}
