use restyle::object_element::{str_eq, str_starts_with, HTMLObjectElement};

#[test]
fn prefix_checks() {
    assert!(str_starts_with("data:image/png;base64,AA", "data:image/png"));
    assert!(str_starts_with("data:image/png", "data:image/png"));
    assert!(!str_starts_with("data:image/jpg;base64,AA", "data:image/png"));
    assert!(!str_starts_with("data:image/pn", "data:image/png"));
    assert!(str_starts_with("anything", ""));
}

#[test]
fn string_equality_checks() {
    assert!(str_eq("data", "data"));
    assert!(!str_eq("data", "date"));
    assert!(!str_eq("data", "dat"));
}

#[test]
fn update_data_captures_png_data_url() {
    let mut e = HTMLObjectElement::new_inherited(
        None,
        Some("data:image/png;base64,QQ==".to_owned()),
    );
    let prefetch = e.update_data();
    assert_eq!(prefetch, Some("data:image/png;base64,QQ==".to_owned()));
    assert_eq!(e.data, Some("data:image/png;base64,QQ==".to_owned()));
}

#[test]
fn update_data_skips_when_type_attribute_present() {
    let mut e = HTMLObjectElement::new_inherited(
        Some("text/html".to_owned()),
        Some("data:image/png;base64,QQ==".to_owned()),
    );
    assert!(e.update_data().is_none());
    assert!(e.data.is_none());
}

#[test]
fn update_data_skips_other_schemes() {
    let mut e = HTMLObjectElement::new_inherited(None, Some("https://example/img".to_owned()));
    assert!(e.update_data().is_none());
    assert!(e.data.is_none());

    let mut none_set = HTMLObjectElement::new_inherited(None, None);
    assert!(none_set.update_data().is_none());
    assert!(none_set.data.is_none());
}

#[test]
fn setting_data_attribute_triggers_update() {
    let mut e = HTMLObjectElement::new_inherited(None, None);
    let prefetch = e.after_set_attr("data", "data:image/png;x".to_owned());
    assert_eq!(prefetch, Some("data:image/png;x".to_owned()));
    assert_eq!(e.data_attr, Some("data:image/png;x".to_owned()));
    // other attributes leave the binding alone
    let mut other = HTMLObjectElement::new_inherited(None, None);
    assert!(other.after_set_attr("width", "40".to_owned()).is_none());
    assert!(other.data_attr.is_none());
}

#[test]
fn setting_data_with_type_present_does_not_prefetch() {
    let mut e = HTMLObjectElement::new_inherited(Some("text/html".to_owned()), None);
    assert!(e.after_set_attr("data", "data:image/png;x".to_owned()).is_none());
    assert!(e.data.is_none());
    assert_eq!(e.data_attr, Some("data:image/png;x".to_owned()));
}

#[test]
fn removing_data_attribute_clears_it() {
    let mut e = HTMLObjectElement::new_inherited(None, Some("data:image/png;x".to_owned()));
    e.update_data();
    let prefetch = e.after_remove_attr("data");
    assert!(prefetch.is_none());
    assert!(e.data_attr.is_none());
}
