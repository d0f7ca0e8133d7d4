use rust_less::ast::values::{NamedColor, StringType, Unit};

#[test]
fn test_unit_parsing() {
    assert_eq!(Unit::from_str("px"), Some(Unit::Px));
    assert_eq!(Unit::from_str("em"), Some(Unit::Em));
    assert_eq!(Unit::from_str("%"), Some(Unit::Percent));
    assert_eq!(Unit::from_str("invalid"), None);
}

#[test]
fn test_unit_compatibility() {
    assert!(Unit::Px.is_compatible(&Unit::Em));
    assert!(Unit::Deg.is_compatible(&Unit::Rad));
    assert!(!Unit::Px.is_compatible(&Unit::Deg));
    assert!(Unit::Dimensionless.is_compatible(&Unit::Px));
}

#[test]
fn unit_names_round_trip_and_ignore_case() {
    assert_eq!(Unit::from_str("PX"), Some(Unit::Px));
    assert_eq!(Unit::from_str("KHz"), Some(Unit::Khz));
    for u in [Unit::Px, Unit::Em, Unit::Deg, Unit::Ms, Unit::Dpi, Unit::Percent] {
        assert_eq!(Unit::from_str(u.to_string()), Some(u));
    }
    assert_eq!(Unit::Dimensionless.to_string(), "");
}

#[test]
fn unit_groups() {
    assert!(Unit::Rem.is_length());
    assert!(Unit::Turn.is_angle());
    assert!(Unit::S.is_time());
    assert!(Unit::Hz.is_frequency());
    assert!(Unit::Dppx.is_resolution());
    assert!(!Unit::Px.is_angle());
    assert!(Unit::Em.is_compatible(&Unit::Px) == Unit::Px.is_compatible(&Unit::Em));
}

#[test]
fn named_color_values() {
    assert_eq!(NamedColor::Red.to_rgb(), (255, 0, 0));
    assert_eq!(NamedColor::White.to_rgb(), (255, 255, 255));
    assert_eq!(NamedColor::Black.to_rgb(), (0, 0, 0));
    assert_eq!(NamedColor::RebeccaPurple.to_rgb(), (102, 51, 153));
}

#[test]
fn string_value_display() {
    assert_eq!(StringType::Quoted("a b".to_string()).to_display_string(), "\"a b\"");
    assert_eq!(StringType::Unquoted("bold".to_string()).to_display_string(), "bold");
    assert_eq!(StringType::Url("x.png".to_string()).to_display_string(), "url(x.png)");
}
