use rust_less::ast::expressions::{BinaryOperator, ListSeparator, UnaryOperator};
use rust_less::ast::selectors::{AttributeOperator, Combinator, Selector, SimpleSelector};
use rust_less::ast::{Import, ImportType, Position};

#[test]
fn test_operator_precedence() {
    assert!(BinaryOperator::Multiply.precedence() > BinaryOperator::Add.precedence());
    assert!(BinaryOperator::Add.precedence() > BinaryOperator::Equal.precedence());
    assert!(BinaryOperator::Equal.precedence() > BinaryOperator::And.precedence());
    assert!(BinaryOperator::And.precedence() > BinaryOperator::Or.precedence());
}

#[test]
fn test_operator_display() {
    assert_eq!(BinaryOperator::Add.to_display_string(), "+");
    assert_eq!(BinaryOperator::Equal.to_display_string(), "=");
    assert_eq!(UnaryOperator::Minus.to_display_string(), "-");
    assert_eq!(UnaryOperator::Not.to_display_string(), "not");
}

#[test]
fn test_list_separator_display() {
    assert_eq!(ListSeparator::Space.to_display_string(), "space");
    assert_eq!(ListSeparator::Comma.to_display_string(), "comma");
    assert_eq!(ListSeparator::Semicolon.to_display_string(), "semicolon");
}

#[test]
fn test_position_creation() {
    let pos = Position::new(10, 5);
    assert_eq!(pos.line, 10);
    assert_eq!(pos.column, 5);
}

#[test]
fn test_import_creation() {
    let pos = Position::new(1, 1);
    let import = Import::new("variables.less".to_string(), ImportType::Less, pos);

    assert_eq!(import.path, "variables.less");
    assert_eq!(import.import_type, ImportType::Less);
    assert!(import.media.is_none());
}

#[test]
fn test_simple_class_selector() {
    let pos = Position::new(1, 1);
    let selector = Selector::simple(".test".to_string(), pos);

    assert_eq!(selector.to_css(), ".test");
    assert_eq!(selector.specificity(), (0, 1, 0));
}

#[test]
fn test_simple_id_selector() {
    let pos = Position::new(1, 1);
    let selector = Selector::simple("#header".to_string(), pos);

    assert_eq!(selector.to_css(), "#header");
    assert_eq!(selector.specificity(), (1, 0, 0));
}

#[test]
fn test_simple_type_selector() {
    let pos = Position::new(1, 1);
    let selector = Selector::simple("div".to_string(), pos);

    assert_eq!(selector.to_css(), "div");
    assert_eq!(selector.specificity(), (0, 0, 1));
}

#[test]
fn test_universal_selector() {
    let pos = Position::new(1, 1);
    let selector = Selector::simple("*".to_string(), pos);

    assert_eq!(selector.to_css(), "*");
    assert_eq!(selector.specificity(), (0, 0, 0));
}

#[test]
fn test_parent_selector() {
    let pos = Position::new(1, 1);
    let selector = Selector::simple("&".to_string(), pos.clone());

    assert_eq!(selector.to_css(), "&");
    assert!(selector.has_parent_reference());
}

#[test]
fn test_attribute_selector() {
    let pos = Position::new(1, 1);
    let attr = SimpleSelector::Attribute {
        name: "href".to_string(),
        operator: Some(AttributeOperator::Equal),
        value: Some("test".to_string()),
        case_insensitive: false,
        position: pos,
    };

    assert_eq!(attr.to_css(), "[href=\"test\"]");
}

#[test]
fn test_attribute_selector_case_insensitive() {
    let pos = Position::new(1, 1);
    let attr = SimpleSelector::Attribute {
        name: "href".to_string(),
        operator: Some(AttributeOperator::Equal),
        value: Some("test".to_string()),
        case_insensitive: true,
        position: pos,
    };

    assert_eq!(attr.to_css(), "[href=\"test\" i]");
}

#[test]
fn test_pseudo_class() {
    let pos = Position::new(1, 1);
    let pseudo = SimpleSelector::PseudoClass {
        name: "hover".to_string(),
        argument: None,
        position: pos,
    };

    assert_eq!(pseudo.to_css(), ":hover");
}

#[test]
fn test_pseudo_class_with_argument() {
    let pos = Position::new(1, 1);
    let pseudo = SimpleSelector::PseudoClass {
        name: "nth-child".to_string(),
        argument: Some("2n+1".to_string()),
        position: pos,
    };

    assert_eq!(pseudo.to_css(), ":nth-child(2n+1)");
}

#[test]
fn test_pseudo_element() {
    let pos = Position::new(1, 1);
    let pseudo = SimpleSelector::PseudoElement {
        name: "before".to_string(),
        position: pos,
    };

    assert_eq!(pseudo.to_css(), "::before");
}

#[test]
fn test_combinator_css() {
    assert_eq!(Combinator::Child.to_css(), ">");
    assert_eq!(Combinator::AdjacentSibling.to_css(), "+");
    assert_eq!(Combinator::GeneralSibling.to_css(), "~");
}

#[test]
fn test_attribute_operator_css() {
    assert_eq!(AttributeOperator::Equal.to_css(), "=");
    assert_eq!(AttributeOperator::Includes.to_css(), "~=");
    assert_eq!(AttributeOperator::Prefix.to_css(), "^=");
    assert_eq!(AttributeOperator::Suffix.to_css(), "$=");
    assert_eq!(AttributeOperator::Substring.to_css(), "*=");
}

#[test]
fn test_structural_pseudo_classes() {
    let pos = Position::new(1, 1);
    let first_child = SimpleSelector::PseudoClass {
        name: "first-child".to_string(),
        argument: None,
        position: pos.clone(),
    };

    let hover = SimpleSelector::PseudoClass {
        name: "hover".to_string(),
        argument: None,
        position: pos,
    };

    assert!(first_child.is_structural());
    assert!(!hover.is_structural());
}

#[test]
fn test_interpolation() {
    let pos = Position::new(1, 1);
    let interpolation = SimpleSelector::Interpolation {
        variable: "selector".to_string(),
        position: pos,
    };

    assert_eq!(interpolation.to_css(), "@{selector}");
}

#[test]
fn test_combinator_precedence() {
    assert!(Combinator::AdjacentSibling.precedence() > Combinator::Child.precedence());
    assert!(Combinator::Child.precedence() > Combinator::Descendant.precedence());
}
