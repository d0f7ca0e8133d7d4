use rust_less::at_rule::{prelude_pieces, MapKey, PreludePiece};

fn text(s: &str) -> PreludePiece {
    PreludePiece::Text(s.to_string())
}

fn var(name: &str, keys: Vec<MapKey>) -> PreludePiece {
    PreludePiece::Variable { name: name.to_string(), keys }
}

#[test]
fn prelude_without_variables_is_one_text() {
    assert_eq!(prelude_pieces("screen and (min-width: 768px)"), vec![text("screen and (min-width: 768px)")]);
    assert_eq!(prelude_pieces(""), vec![text("")]);
}

#[test]
fn prelude_variables_and_interpolations() {
    assert_eq!(
        prelude_pieces("(min-width: @bp)"),
        vec![text("(min-width: "), var("bp", vec![]), text(")")]
    );
    assert_eq!(
        prelude_pieces("@{ sel } x"),
        vec![PreludePiece::Interpolation("sel".to_string()), text(" x")]
    );
    assert_eq!(prelude_pieces("a @ b"), vec![text("a @ b")]);
    assert_eq!(prelude_pieces("@{x"), vec![text("@{x")]);
}

#[test]
fn prelude_map_key_chains() {
    assert_eq!(
        prelude_pieces("@map[ key ][\"a]b\"] y"),
        vec![
            var(
                "map",
                vec![MapKey::Ident("key".to_string()), MapKey::Quoted("a]b".to_string())]
            ),
            text(" y"),
        ]
    );
    assert_eq!(
        prelude_pieces("@m['q'][open"),
        vec![var("m", vec![MapKey::Quoted("q".to_string())]), text("[open")]
    );
}
