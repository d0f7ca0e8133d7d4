use rust_less::error::Error;

#[test]
fn test_error_creation() {
    let err = Error::undefined_variable("color", 10, 5);
    assert_eq!(err.line(), Some(10));
    assert_eq!(err.column(), Some(5));
    assert!(err.message().contains("@color"));
}

#[test]
fn test_error_display() {
    let err = Error::parse_error("Expected semicolon", 5, 10);
    let display = err.to_string();
    assert!(display.contains("Parse error"));
    assert!(display.contains("line 5"));
    assert!(display.contains("column 10"));
}

#[test]
fn test_io_error_conversion() {
    let io_err = std::io::Error::new(std::io::ErrorKind::NotFound, "File not found");
    let err: Error = io_err.into();
    assert!(matches!(err, Error::IoError { .. }));
}

#[test]
fn test_error_without_position() {
    let err = Error::compilation_error("General error");
    assert_eq!(err.line(), None);
    assert_eq!(err.column(), None);
}

#[test]
fn test_function_error() {
    let err = Error::function_error("lighten", "Invalid color value", 20, 15);
    assert_eq!(err.line(), Some(20));
    assert_eq!(err.column(), Some(15));
    assert!(err.message().contains("lighten"));
    assert!(err.message().contains("Invalid color value"));
}

#[test]
fn test_mixin_parameter_error() {
    let err = Error::mixin_parameter_error("border-radius", 2, 1, 8, 12);
    assert!(err.message().contains("border-radius"));
    assert!(err.message().contains("expects 2"));
    assert!(err.message().contains("found 1"));
}

#[test]
fn test_type_mismatch_error() {
    let err = Error::type_mismatch("number", "string", 15, 8);
    assert!(err.message().contains("expected number"));
    assert!(err.message().contains("found string"));
}

#[test]
fn test_circular_dependency_error() {
    let err = Error::circular_dependency("styles.less", 1, 1);
    assert!(err.message().contains("Circular dependency"));
    assert!(err.message().contains("styles.less"));
}

#[test]
fn io_error_keeps_the_error_text_and_has_no_path() {
    let io_err = std::io::Error::new(std::io::ErrorKind::NotFound, "File not found");
    let err: Error = io_err.into();
    match err {
        Error::IoError { message, path } => {
            assert_eq!(message, "File not found");
            assert_eq!(path, None);
        }
        _ => panic!("expected an I/O error"),
    }
}

#[test]
fn every_positioned_variant_reports_line_and_column() {
    let errors = vec![
        Error::lex_error("bad", 1, 2),
        Error::parse_error("bad", 1, 2),
        Error::semantic_error("bad", 1, 2),
        Error::undefined_variable("v", 1, 2),
        Error::undefined_mixin(".m", 1, 2),
        Error::undefined_function("f", 1, 2),
        Error::type_mismatch("a", "b", 1, 2),
        Error::division_by_zero(1, 2),
        Error::import_error("a.less", "missing", 1, 2),
        Error::circular_dependency("a.less", 1, 2),
        Error::function_error("f", "bad", 1, 2),
        Error::mixin_parameter_error(".m", 1, 2, 1, 2),
        Error::guard_error("bad", 1, 2),
        Error::infinite_recursion(".m", 1, 2),
        Error::invalid_selector("..", 1, 2),
        Error::invalid_property("p", "v", 1, 2),
    ];
    for err in errors {
        assert_eq!(err.line(), Some(1));
        assert_eq!(err.column(), Some(2));
        assert!(err.to_string().ends_with(" at line 1, column 2"));
    }
}

#[test]
fn unpositioned_variants_report_no_position() {
    let errors = vec![
        Error::io_error("disk", Some("a.less".to_string())),
        Error::compilation_error("general"),
        Error::internal_error("bug"),
    ];
    for err in errors {
        assert_eq!(err.line(), None);
        assert_eq!(err.column(), None);
        assert_eq!(err.to_string(), err.message());
    }
}

#[test]
fn error_messages_exact() {
    assert_eq!(Error::lex_error("oops", 1, 1).message(), "Lexical error: oops");
    assert_eq!(Error::parse_error("oops", 1, 1).message(), "Parse error: oops");
    assert_eq!(Error::division_by_zero(3, 4).message(), "Division by zero");
    assert_eq!(
        Error::parse_error("Expected semicolon", 5, 10).to_string(),
        "Parse error: Expected semicolon at line 5, column 10"
    );
}
