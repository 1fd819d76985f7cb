use error_proc_macros::common::{
    attrs_get_lit_str, attrs_get_value, decimal_string, display_field, get_required_format, quote_str,
    resolve_display,
    AttrsGetLitStrError, AttrsGetValueError,
};
use error_proc_macros::error::GenerateError;
use error_proc_macros::model::{AttrMeta, AttrValue, Attribute};
use error_proc_macros::render::instantiate_template;

fn attr(name: &str, meta: AttrMeta) -> Attribute {
    Attribute { name: name.to_string(), meta }
}

fn str_value(text: &str) -> AttrMeta {
    AttrMeta::NameValue(AttrValue::Str(text.to_string()))
}

#[test]
fn first_annotation_wins() {
    let attrs = vec![attr("doc", str_value("d")), attr("format", str_value("one")), attr("format", str_value("two"))];
    match attrs_get_value(&attrs, "format") {
        Ok(AttrValue::Str(v)) => assert_eq!(v, "one"),
        _ => panic!("expected the first format"),
    }
    assert_eq!(attrs_get_lit_str(&attrs, "format").ok(), Some(&"one".to_string()));
}

#[test]
fn missing_annotation_is_not_found() {
    let attrs = vec![attr("doc", str_value("d"))];
    match attrs_get_value(&attrs, "format") {
        Err(AttrsGetValueError::NotFound(name)) => assert_eq!(name, "format"),
        _ => panic!("expected not found"),
    }
    match attrs_get_lit_str(&attrs, "format") {
        Err(e) => assert_eq!(e.message(), "attribute `format` was not found"),
        Ok(_) => panic!("expected not found"),
    }
}

#[test]
fn path_annotation_is_not_name_value() {
    let attrs = vec![attr("format", AttrMeta::Path)];
    match attrs_get_value(&attrs, "format") {
        Err(e) => {
            assert!(matches!(e, AttrsGetValueError::NotNameValue(_)));
            assert_eq!(e.message(), "attribute `format` only accepts name value arguments");
        },
        Ok(_) => panic!("expected not name value"),
    }
}

#[test]
fn other_literal_is_not_string() {
    let attrs = vec![attr("format", AttrMeta::NameValue(AttrValue::Other("42".to_string())))];
    match attrs_get_lit_str(&attrs, "format") {
        Err(e) => {
            assert!(matches!(e, AttrsGetLitStrError::NotStringLiteral(_)));
            assert_eq!(e.message(), "attribute `format` only accepts string literals");
        },
        Ok(_) => panic!("expected not a string literal"),
    }
    let converted = AttrsGetLitStrError::from(AttrsGetValueError::NotFound("x".to_string()));
    assert!(matches!(converted, AttrsGetLitStrError::GetError(AttrsGetValueError::NotFound(_))));
}

#[test]
fn required_format_is_reported_for_item() {
    let attrs: Vec<Attribute> = vec![];
    match get_required_format(&attrs, &"Thing".to_string()) {
        Err(GenerateError::MissingAnnotation { annotation, item }) => {
            assert_eq!(annotation, "format");
            assert_eq!(item, "Thing");
        },
        _ => panic!("expected missing annotation"),
    }
    let attrs = vec![attr("format", str_value("{}"))];
    assert_eq!(get_required_format(&attrs, &"Thing".to_string()).ok(), Some("{}".to_string()));
}

#[test]
fn display_field_wraps_value() {
    assert_eq!(display_field(&Some("|x| x + 1".to_string()), "self.a"), "(|x| x + 1)(self.a)");
    assert_eq!(display_field(&None, "self.a"), "self.a");
}

#[test]
fn decimal_digits() {
    assert_eq!(decimal_string(0), "0");
    assert_eq!(decimal_string(7), "7");
    assert_eq!(decimal_string(1234), "1234");
    assert_eq!(decimal_string(usize::MAX), usize::MAX.to_string());
}

#[test]
fn template_escapes_and_slots() {
    let none: Vec<(String, String)> = vec![];
    let named = vec![("a".to_string(), "1".to_string()), ("a".to_string(), "2".to_string())];
    assert_eq!(instantiate_template("{{x}}", &vec![], &none), Some("{x}".to_string()));
    assert_eq!(instantiate_template("{a}-{}", &vec!["p".to_string()], &named), Some("1-p".to_string()));
    assert_eq!(instantiate_template("{}", &vec![], &none), None);
    assert_eq!(instantiate_template("oops }", &vec![], &none), None);
    assert_eq!(instantiate_template("{b}", &vec![], &named), None);
    assert_eq!(instantiate_template("{a", &vec![], &named), None);
    assert_eq!(instantiate_template("", &vec![], &none), Some(String::new()));
    assert_eq!(instantiate_template("héllo {}!", &vec!["wörld".to_string()], &none), Some("héllo wörld!".to_string()));
}

#[test]
fn string_literal_escapes() {
    assert_eq!(quote_str("plain {}"), "\"plain {}\"");
    assert_eq!(quote_str("a\\b\n\"c\"\r"), "\"a\\\\b\\n\\\"c\\\"\\r\"");
    assert_eq!(quote_str(""), "\"\"");
}

#[test]
fn resolve_display_keeps_or_rejects() {
    let item = "Item".to_string();
    assert_eq!(resolve_display(Some("|x| x".to_string()), true, &item).ok(), Some(Some("|x| x".to_string())));
    assert_eq!(resolve_display(None, false, &item).ok(), Some(None));
    match resolve_display(Some("a b".to_string()), false, &item) {
        Err(GenerateError::MalformedOverrideExpression { item, expression }) => {
            assert_eq!(item, "Item");
            assert_eq!(expression, "a b");
        },
        _ => panic!("expected a malformed override error"),
    }
}
