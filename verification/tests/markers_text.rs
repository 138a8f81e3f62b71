use std::collections::HashMap;

use restyle::markers::{init_upper_roman, ListStyleType, Numbers, Roman};

#[test]
fn separators() {
    let n = Numbers::new();
    assert_eq!(n.space(), "\u{2009}");
    assert_eq!(n.dot_space(), ".\u{2009}");
}

#[test]
fn upper_roman_small_values() {
    let n = Numbers::new();
    assert_eq!(n.to_upper_roman(1), "\u{2160}");
    // 3 has a dedicated character; the greedy pass takes it in one step
    assert_eq!(n.to_upper_roman(3), "\u{2162}");
    assert_eq!(n.to_upper_roman(9), "\u{2168}");
    assert_eq!(n.to_upper_roman(10), "\u{2169}");
}

#[test]
fn upper_roman_composite_values() {
    let n = Numbers::new();
    // 48 = 40 + 8
    assert_eq!(n.to_upper_roman(48), "\u{2169}\u{216C}\u{2167}");
    // 2014 = 1000 + 1000 + 10 + 4
    assert_eq!(n.to_upper_roman(2014), "\u{216F}\u{216F}\u{2169}\u{2163}");
    // 1990 = 1000 + 900 + 90
    assert_eq!(n.to_upper_roman(1990), "\u{216F}\u{216D}\u{216F}\u{2169}\u{216D}");
}

#[test]
fn lower_roman_values() {
    let n = Numbers::new();
    assert_eq!(n.to_lower_roman(1), "\u{2170}");
    assert_eq!(n.to_lower_roman(12), "\u{2179}\u{2171}");
    assert_eq!(n.to_lower_roman(500), "\u{217E}");
}

#[test]
fn roman_of_nonpositive_is_empty() {
    let n = Numbers::new();
    assert_eq!(n.to_upper_roman(0), "");
    assert_eq!(n.to_lower_roman(-7), "");
}

#[test]
fn roman_of_nonpositive_needs_no_table() {
    let table: HashMap<i64, String> = HashMap::new();
    assert_eq!(table.to_roman(0), "");
    assert_eq!(table.to_roman(-5), "");
}

#[test]
fn zero_renders_empty_numerals() {
    let n = Numbers::new();
    assert_eq!(n.to_upper_alpha(0), "");
    assert_eq!(n.to_lower_alpha(0), "");
    assert_eq!(n.to_lower_greek(0), "");
}

#[test]
fn roman_trait_on_plain_table() {
    let table = init_upper_roman();
    // 12 = 10 + 2
    assert_eq!(table.to_roman(12), "\u{2169}\u{2161}");
}

#[test]
fn alphabetic_values() {
    let n = Numbers::new();
    assert_eq!(n.to_upper_alpha(1), "A");
    assert_eq!(n.to_upper_alpha(26), "Z");
    assert_eq!(n.to_upper_alpha(27), "AA");
    assert_eq!(n.to_upper_alpha(28), "AB");
    assert_eq!(n.to_upper_alpha(703), "AAA");
    assert_eq!(n.to_lower_alpha(2), "b");
    assert_eq!(n.to_lower_latin(27), "aa");
    assert_eq!(n.to_upper_latin(3), "C");
}

#[test]
fn greek_values() {
    let n = Numbers::new();
    assert_eq!(n.to_lower_greek(1), "\u{03B1}");
    // the final-sigma codepoint is skipped: position 18 is sigma
    assert_eq!(n.to_lower_greek(18), "\u{03C3}");
    assert_eq!(n.to_lower_greek(24), "\u{03C9}");
    assert_eq!(n.to_lower_greek(25), "\u{03B1}\u{03B1}");
}

#[test]
fn unsupported_numbering_systems() {
    let n = Numbers::new();
    assert!(n.to_decimal_leading_zero(5).is_none());
    assert!(n.to_upper_greek(5).is_none());
    assert!(n.to_armenian(5).is_none());
    assert!(n.to_georgian(5).is_none());
}

#[test]
fn list_style_ordered_markers() {
    let n = Numbers::new();
    assert_eq!(n.to_list_style_type(ListStyleType::Decimal, 5), Some("5.\u{2009}".to_owned()));
    assert_eq!(
        n.to_list_style_type(ListStyleType::UpperRoman, 4),
        Some("\u{2163}.\u{2009}".to_owned())
    );
    assert_eq!(
        n.to_list_style_type(ListStyleType::LowerGreek, 2),
        Some("\u{03B2}.\u{2009}".to_owned())
    );
    assert_eq!(n.to_list_style_type(ListStyleType::UpperLatin, 2), Some("B.\u{2009}".to_owned()));
    assert_eq!(n.to_list_style_type(ListStyleType::LowerAlpha, 1), Some("a.\u{2009}".to_owned()));
}

#[test]
fn list_style_nonpositive_sequence_is_decimal() {
    let n = Numbers::new();
    assert_eq!(n.to_list_style_type(ListStyleType::UpperRoman, 0), Some("0.\u{2009}".to_owned()));
    assert_eq!(n.to_list_style_type(ListStyleType::Circle, -3), Some("-3.\u{2009}".to_owned()));
}

#[test]
fn list_style_bullets_and_none() {
    let n = Numbers::new();
    assert_eq!(n.to_list_style_type(ListStyleType::Circle, 2), Some("\u{25CB}\u{2009}".to_owned()));
    assert_eq!(n.to_list_style_type(ListStyleType::Disc, 2), Some("\u{25CF}\u{2009}".to_owned()));
    assert_eq!(n.to_list_style_type(ListStyleType::Square, 2), Some("\u{25A0}\u{2009}".to_owned()));
    assert_eq!(n.to_list_style_type(ListStyleType::NoMarker, 2), Some("".to_owned()));
}

#[test]
fn list_style_unsupported_systems_give_nothing() {
    let n = Numbers::new();
    assert!(n.to_list_style_type(ListStyleType::DecimalLeadingZero, 2).is_none());
    assert!(n.to_list_style_type(ListStyleType::Armenian, 2).is_none());
    assert!(n.to_list_style_type(ListStyleType::Georgian, 2).is_none());
}
