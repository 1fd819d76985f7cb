use error_proc_macros::enum_error::{EnumError, EnumVariant};
use error_proc_macros::error::GenerateError;
use error_proc_macros::model::{
    AttrMeta, AttrValue, Attribute, Data, DeriveInput, Fields, Generics, NamedField, UnnamedField,
    Variant,
};
use error_proc_macros::struct_error::StructError;
use error_proc_macros::{enum_error, struct_error};

fn s(text: &str) -> String {
    text.to_string()
}

fn format_attr(template: &str) -> Attribute {
    Attribute { name: s("format"), meta: AttrMeta::NameValue(AttrValue::Str(s(template))) }
}

fn display_attr(transform: &str) -> Attribute {
    Attribute { name: s("display"), meta: AttrMeta::NameValue(AttrValue::Str(s(transform))) }
}

fn no_generics() -> Generics {
    Generics { impl_generics: s(""), ty_generics: s(""), where_clause: s("") }
}

fn lifetime_generics() -> Generics {
    Generics { impl_generics: s("<'a>"), ty_generics: s("<'a>"), where_clause: s("") }
}

fn unnamed(ty: &str) -> UnnamedField {
    UnnamedField { ty: s(ty), attrs: vec![] }
}

fn named(ident: &str, ty: &str) -> NamedField {
    NamedField { ident: s(ident), ty: s(ty), attrs: vec![] }
}

fn variant(ident: &str, attrs: Vec<Attribute>, fields: Fields) -> Variant {
    Variant { ident: s(ident), attrs, fields, discriminant: None }
}

fn enum_input(attrs: Vec<Attribute>, variants: Vec<Variant>) -> DeriveInput {
    DeriveInput { ident: s("TestError"), attrs, generics: no_generics(), data: Data::Enum(variants) }
}

fn struct_input(attrs: Vec<Attribute>, fields: Fields) -> DeriveInput {
    DeriveInput { ident: s("TestError"), attrs, generics: no_generics(), data: Data::Struct(fields) }
}

fn strings(values: &[&str]) -> Vec<String> {
    values.iter().map(|v| v.to_string()).collect()
}

fn enum_ok(input: &DeriveInput) -> EnumError {
    match EnumError::from_input(input) {
        Ok(e) => e,
        Err(e) => panic!("unexpected error: {}", e.message()),
    }
}

fn struct_ok(input: &DeriveInput) -> StructError {
    match StructError::from_input(input) {
        Ok(e) => e,
        Err(e) => panic!("unexpected error: {}", e.message()),
    }
}

#[test]
fn error() {
    let input = struct_input(vec![format_attr("placeholder")], Fields::Unit);
    let out = error_proc_macros::error(&input);
    assert_eq!(out, "#[automatically_derived] impl std::error::Error for TestError  {}");
    assert!(struct_error(&input).is_ok());
}

#[test]
fn enum_lifetimes() {
    let mut input = enum_input(vec![], vec![variant("text", vec![], Fields::Unnamed(vec![unnamed("&'a str")]))]);
    input.generics = lifetime_generics();
    let out = enum_error(&input).ok().unwrap();
    assert!(out.contains("impl<'a> std::fmt::Display for TestError<'a>"));
    assert!(out.contains("impl<'a> From<&'a str> for TestError<'a>"));
    assert!(out.contains("fn from(error: &'a str) -> Self { Self::text(error) }"));
}

#[test]
fn enum_top_level_format() {
    let input = enum_input(
        vec![format_attr("an error occured: {}")],
        vec![variant("Foo", vec![], Fields::Unnamed(vec![unnamed("i8")]))],
    );
    let e = enum_ok(&input);
    assert_eq!(Some(String::from("an error occured: 10")), e.render(0, &strings(&["10"])));
}

#[test]
fn enum_discriminant() {
    let mut v = variant("NotFound", vec![], Fields::Unit);
    v.discriminant = Some(s("404"));
    let input = enum_input(vec![format_attr("returned with error: {}")], vec![v]);
    let e = enum_ok(&input);
    assert_eq!(Some(String::from("returned with error: 404")), e.render(0, &strings(&["404"])));
}

#[test]
fn enum_struct() {
    let input = enum_input(
        vec![],
        vec![variant(
            "Decoding",
            vec![format_attr("decoding error at {file} {offset}")],
            Fields::Named(vec![named("file", "&'static str"), named("offset", "usize")]),
        )],
    );
    let e = enum_ok(&input);
    assert_eq!(
        Some(String::from("decoding error at foo.mp3 10")),
        e.render(0, &strings(&["foo.mp3", "10"]))
    );
}

#[test]
fn enum_tuple() {
    let input = enum_input(
        vec![],
        vec![variant(
            "Foo",
            vec![format_attr("lorem ipsum {arg_0} {arg_1}")],
            Fields::Unnamed(vec![unnamed("i8"), unnamed("u8")]),
        )],
    );
    let e = enum_ok(&input);
    assert_eq!(Some(String::from("lorem ipsum 1 2")), e.render(0, &strings(&["1", "2"])));
}

#[test]
fn enum_unit() {
    let input = enum_input(vec![], vec![variant("NullError", vec![format_attr("unexpected null pointer")], Fields::Unit)]);
    let e = enum_ok(&input);
    assert_eq!(Some(String::from("unexpected null pointer")), e.render(0, &vec![]));
}

#[test]
fn struct_lifetimes() {
    let mut input = struct_input(vec![format_attr("placeholder")], Fields::Named(vec![named("text", "&'a str")]));
    input.ident = s("FooError");
    input.generics = lifetime_generics();
    let out = struct_error(&input).ok().unwrap();
    assert!(out.starts_with("#[automatically_derived] impl<'a> std::fmt::Display for FooError<'a> "));
    assert!(out.contains("let text = self.text; write!(f, \"placeholder\")"));
}

#[test]
fn struct_named() {
    let input = struct_input(vec![format_attr("{x} {y}")], Fields::Named(vec![named("x", "u32"), named("y", "u32")]));
    let e = struct_ok(&input);
    assert_eq!(Some(String::from("69 420")), e.render(&strings(&["69", "420"])));
}

#[test]
fn struct_single_tuple() {
    let input = struct_input(vec![format_attr("{}")], Fields::Unnamed(vec![unnamed("&'static str")]));
    let e = struct_ok(&input);
    assert_eq!(Some(String::from("foo")), e.render(&strings(&["foo"])));
}

#[test]
fn struct_tuple() {
    let input = struct_input(
        vec![format_attr("{arg_0} says {arg_1}")],
        Fields::Unnamed(vec![unnamed("&'static str"), unnamed("&'static str")]),
    );
    let e = struct_ok(&input);
    assert_eq!(Some(String::from("foo says bar")), e.render(&strings(&["foo", "bar"])));
}

#[test]
fn struct_unit() {
    let input = struct_input(vec![format_attr("an error occurred")], Fields::Unit);
    let e = struct_ok(&input);
    assert_eq!(Some(String::from("an error occurred")), e.render(&vec![]));
}

#[test]
fn single_payload_shows_its_payload() {
    let input = enum_input(vec![], vec![variant("Wrapped", vec![], Fields::Unnamed(vec![unnamed("Inner")]))]);
    let e = enum_ok(&input);
    assert_eq!(Some(String::from("boom")), e.render(0, &strings(&["boom"])));
    assert_eq!(Some(String::from("boom")), e.variants[0].render(&strings(&["boom"])));
}

#[test]
fn discriminant_fills_template() {
    let mut v = variant("NotFound", vec![format_attr("error {}")], Fields::Unit);
    v.discriminant = Some(s("404"));
    let e = enum_ok(&enum_input(vec![], vec![v]));
    assert_eq!(Some(String::from("error 404")), e.render(0, &strings(&["404"])));
    assert_eq!(
        e.variants[0].to_display_match_arm(),
        "Self::NotFound => format!(\"error {}\", 404), "
    );
}

#[test]
fn type_level_template_wraps_variant_text() {
    let input = enum_input(
        vec![format_attr("an error occurred: {}")],
        vec![variant("Foo", vec![], Fields::Unnamed(vec![unnamed("i8")]))],
    );
    let e = enum_ok(&input);
    assert_eq!(Some(String::from("an error occurred: 10")), e.render(0, &strings(&["10"])));
}

#[test]
fn duplicate_payload_names_second_variant() {
    let input = enum_input(
        vec![],
        vec![
            variant("First", vec![], Fields::Unnamed(vec![unnamed("std::io::Error")])),
            variant("Other", vec![format_attr("other")], Fields::Unit),
            variant("Second", vec![], Fields::Unnamed(vec![unnamed("std::io::Error")])),
        ],
    );
    match enum_error(&input) {
        Err(GenerateError::DuplicatePayloadType { variant }) => assert_eq!(variant, "Second"),
        _ => panic!("expected a duplicate payload error"),
    }
}

#[test]
fn explicit_format_suppresses_conversion() {
    let input = enum_input(
        vec![],
        vec![
            variant("Plain", vec![], Fields::Unnamed(vec![unnamed("u8")])),
            variant("Shaped", vec![format_attr("shaped {}")], Fields::Unnamed(vec![unnamed("u16")])),
        ],
    );
    let e = enum_ok(&input);
    let plain = e.variants[0].to_from_impl("TestError", &no_generics());
    let shaped = e.variants[1].to_from_impl("TestError", &no_generics());
    assert_eq!(
        plain,
        Some(s("#[automatically_derived] impl From<u8> for TestError  { fn from(error: u8) -> Self { Self::Plain(error) } } "))
    );
    assert_eq!(shaped, None);
    let out = enum_error(&input).ok().unwrap();
    assert!(out.contains("From<u8>"));
    assert!(!out.contains("From<u16>"));
}

#[test]
fn empty_enum_is_rejected() {
    let input = enum_input(vec![format_attr("never {}")], vec![]);
    match enum_error(&input) {
        Err(GenerateError::UnsupportedShape { item }) => assert_eq!(item, "TestError"),
        _ => panic!("expected an unsupported shape error"),
    }
}

#[test]
fn unit_variant_needs_format() {
    let input = enum_input(vec![], vec![variant("Bare", vec![], Fields::Unit)]);
    match enum_error(&input) {
        Err(GenerateError::MissingAnnotation { annotation, item }) => {
            assert_eq!(annotation, "format");
            assert_eq!(item, "Bare");
        },
        _ => panic!("expected a missing annotation error"),
    }
}

#[test]
fn tuple_and_named_variants_need_format() {
    let tuple = enum_input(vec![], vec![variant("Pair", vec![], Fields::Unnamed(vec![unnamed("u8"), unnamed("u8")]))]);
    assert!(matches!(enum_error(&tuple), Err(GenerateError::MissingAnnotation { .. })));
    let record = enum_input(vec![], vec![variant("Rec", vec![], Fields::Named(vec![named("a", "u8")]))]);
    assert!(matches!(enum_error(&record), Err(GenerateError::MissingAnnotation { .. })));
}

#[test]
fn non_string_format_is_wrong_kind() {
    let attr = Attribute { name: s("format"), meta: AttrMeta::NameValue(AttrValue::Other(s("5"))) };
    let input = enum_input(vec![], vec![variant("Bad", vec![attr], Fields::Unnamed(vec![unnamed("u8")]))]);
    match enum_error(&input) {
        Err(GenerateError::WrongAnnotationKind { annotation, item }) => {
            assert_eq!(annotation, "format");
            assert_eq!(item, "Bad");
        },
        _ => panic!("expected a wrong annotation kind error"),
    }
    let list = Attribute { name: s("format"), meta: AttrMeta::List(s("\"x\"")) };
    let input = enum_input(vec![list], vec![variant("A", vec![], Fields::Unnamed(vec![unnamed("u8")]))]);
    assert!(matches!(enum_error(&input), Err(GenerateError::WrongAnnotationKind { .. })));
}

#[test]
fn malformed_display_is_rejected() {
    let input = enum_input(
        vec![],
        vec![variant("Bad", vec![display_attr("(|x| x")], Fields::Unnamed(vec![unnamed("u8")]))],
    );
    match enum_error(&input) {
        Err(GenerateError::MalformedOverrideExpression { item, expression }) => {
            assert_eq!(item, "Bad");
            assert_eq!(expression, "(|x| x");
        },
        _ => panic!("expected a malformed override error"),
    }
}

#[test]
fn display_transform_is_applied_in_arm() {
    let input = enum_input(
        vec![],
        vec![variant(
            "NonExistant",
            vec![format_attr("path `{}` does not exist"), display_attr("|path: &Path| path.display()")],
            Fields::Unnamed(vec![unnamed("&'a Path")]),
        )],
    );
    let e = enum_ok(&input);
    assert_eq!(
        e.variants[0].to_display_match_arm(),
        "Self::NonExistant(error) => format!(\"path `{}` does not exist\", (|path: &Path| path.display())(error)), "
    );
}

#[test]
fn tuple_arm_binds_positions() {
    let mut second = unnamed("u8");
    second.attrs.push(display_attr("|v: &u8| v + 1"));
    let input = enum_input(
        vec![],
        vec![variant("Foo", vec![format_attr("{arg_0} {arg_1}")], Fields::Unnamed(vec![unnamed("i8"), second]))],
    );
    let e = enum_ok(&input);
    assert_eq!(
        e.variants[0].to_display_match_arm(),
        "Self::Foo(arg_0, arg_1, ) => { let arg_1 = (|v: &u8| v + 1)(arg_1); format!(\"{arg_0} {arg_1}\") }, "
    );
}

#[test]
fn named_arm_binds_fields() {
    let mut file = named("file", "&'static str");
    file.attrs.push(display_attr("|f: &&str| f.len()"));
    let input = enum_input(
        vec![],
        vec![variant("Decoding", vec![format_attr("{file} {offset}")], Fields::Named(vec![file, named("offset", "usize")]))],
    );
    let e = enum_ok(&input);
    assert_eq!(
        e.variants[0].to_display_match_arm(),
        "Self::Decoding { file, offset, } => { let file = (|f: &&str| f.len())(file); format!(\"{file} {offset}\") }, "
    );
}

#[test]
fn format_literal_is_escaped() {
    let input = enum_input(vec![], vec![variant("Quote", vec![format_attr("say \"hi\"")], Fields::Unit)]);
    let e = enum_ok(&input);
    assert_eq!(e.variants[0].to_display_match_arm(), "Self::Quote => format!(\"say \\\"hi\\\"\"), ");
}

#[test]
fn discriminant_with_fields_is_rejected() {
    let mut v = variant("Odd", vec![format_attr("{}")], Fields::Unnamed(vec![unnamed("u8")]));
    v.discriminant = Some(s("3"));
    let input = enum_input(vec![], vec![v]);
    assert!(matches!(enum_error(&input), Err(GenerateError::UnsupportedShape { .. })));
}

#[test]
fn wrong_data_is_rejected() {
    let union = DeriveInput { ident: s("U"), attrs: vec![format_attr("u")], generics: no_generics(), data: Data::Union };
    assert!(matches!(enum_error(&union), Err(GenerateError::UnsupportedShape { .. })));
    assert!(matches!(struct_error(&union), Err(GenerateError::UnsupportedShape { .. })));
    let an_enum = enum_input(vec![format_attr("x")], vec![variant("A", vec![format_attr("a")], Fields::Unit)]);
    assert!(matches!(struct_error(&an_enum), Err(GenerateError::UnsupportedShape { .. })));
    let a_struct = struct_input(vec![format_attr("x")], Fields::Unit);
    assert!(matches!(enum_error(&a_struct), Err(GenerateError::UnsupportedShape { .. })));
}

#[test]
fn struct_needs_format() {
    let input = struct_input(vec![], Fields::Unit);
    match struct_error(&input) {
        Err(e) => {
            assert_eq!(e.message(), "failed to get required attribute `format` for `TestError`");
            assert_eq!(e.help(), Some(s("add `#[format = \"...\"]`")));
        },
        Ok(_) => panic!("expected an error"),
    }
}

#[test]
fn struct_display_impl_text() {
    let mut y = named("y", "u32");
    y.attrs.push(display_attr("|v: u32| v * 2"));
    let input = struct_input(vec![format_attr("{x} {y}")], Fields::Named(vec![named("x", "u32"), y]));
    let out = struct_error(&input).ok().unwrap();
    assert_eq!(
        out,
        "#[automatically_derived] impl std::fmt::Display for TestError  { fn fmt(&self, f: &mut std::fmt::Formatter<'_>) -> std::fmt::Result { let x = self.x; let y = (|v: u32| v * 2)(self.y); write!(f, \"{x} {y}\") } } "
    );
    let tuple = struct_input(vec![format_attr("{arg_0}{arg_1}")], Fields::Unnamed(vec![unnamed("u8"), unnamed("u8")]));
    let out = struct_error(&tuple).ok().unwrap();
    assert!(out.contains("let arg_0 = self.0; let arg_1 = self.1; write!(f, \"{arg_0}{arg_1}\")"));
    let single = struct_input(vec![format_attr("{}")], Fields::Unnamed(vec![unnamed("u8")]));
    assert!(struct_error(&single).ok().unwrap().contains("write!(f, \"{}\", self.0)"));
}

#[test]
fn enum_display_impl_text() {
    let input = enum_input(
        vec![format_attr("oops: {}")],
        vec![
            variant("A", vec![format_attr("a")], Fields::Unit),
            variant("B", vec![], Fields::Unnamed(vec![unnamed("u8")])),
        ],
    );
    let out = enum_error(&input).ok().unwrap();
    assert_eq!(
        out,
        "#[automatically_derived] impl std::fmt::Display for TestError  { fn fmt(&self, f: &mut std::fmt::Formatter<'_>) -> std::fmt::Result { write!(f, \"oops: {}\", match self { Self::A => format!(\"a\"), Self::B(error) => format!(\"{}\", error), }) } } #[automatically_derived] impl From<u8> for TestError  { fn from(error: u8) -> Self { Self::B(error) } } "
    );
}

#[test]
fn render_out_of_range_variant_is_none() {
    let e = enum_ok(&enum_input(vec![], vec![variant("A", vec![format_attr("a")], Fields::Unit)]));
    assert_eq!(e.render(1, &vec![]), None);
    assert_eq!(e.render(0, &strings(&["extra"])), None);
}

#[test]
fn classify_single_type_keeps_type() {
    let v = variant("Io", vec![display_attr("|e| e.kind()")], Fields::Unnamed(vec![unnamed("std::io::Error")]));
    match EnumVariant::from_variant(&v) {
        Ok(EnumVariant::SingleType { ident, display, format, ty }) => {
            assert_eq!(ident, "Io");
            assert_eq!(display, Some(s("|e| e.kind()")));
            assert_eq!(format, None);
            assert_eq!(ty, "std::io::Error");
        },
        _ => panic!("expected a single payload"),
    }
}

#[test]
fn single_field_struct_applies_display() {
    let mut field = unnamed("u8");
    field.attrs.push(display_attr("|v: &u8| v + 1"));
    let input = struct_input(vec![format_attr("{}")], Fields::Unnamed(vec![field]));
    let out = struct_error(&input).ok().unwrap();
    assert!(out.contains("write!(f, \"{}\", (|v: &u8| v + 1)(self.0))"));
}

#[test]
fn single_field_struct_rejects_bad_display() {
    let mut field = unnamed("u8");
    field.attrs.push(display_attr("a b"));
    let input = struct_input(vec![format_attr("{}")], Fields::Unnamed(vec![field]));
    match struct_error(&input) {
        Err(GenerateError::MalformedOverrideExpression { item, expression }) => {
            assert_eq!(item, "TestError");
            assert_eq!(expression, "a b");
        },
        _ => panic!("expected a malformed override error"),
    }
}

#[test]
fn display_that_lexes_but_is_no_expression_is_rejected() {
    let input = enum_input(vec![], vec![variant("Bad", vec![display_attr("a b")], Fields::Unnamed(vec![unnamed("u8")]))]);
    assert!(matches!(enum_error(&input), Err(GenerateError::MalformedOverrideExpression { .. })));
}

#[test]
fn verdicts_decide_transform_acceptance() {
    let v = variant("V", vec![display_attr("|x| x")], Fields::Unnamed(vec![unnamed("u8")]));
    assert!(matches!(EnumVariant::classify_with(&v, &vec![true]), Ok(EnumVariant::SingleType { .. })));
    match EnumVariant::classify_with(&v, &vec![false]) {
        Err(GenerateError::MalformedOverrideExpression { item, expression }) => {
            assert_eq!(item, "V");
            assert_eq!(expression, "|x| x");
        },
        _ => panic!("expected a malformed override error"),
    }
    let mut second = unnamed("u8");
    second.attrs.push(display_attr("|x| x"));
    let tuple = variant("T", vec![format_attr("{arg_0}{arg_1}")], Fields::Unnamed(vec![unnamed("u8"), second]));
    assert!(EnumVariant::classify_with(&tuple, &vec![false, true]).is_ok());
    assert!(EnumVariant::classify_with(&tuple, &vec![true, false]).is_err());
    let input = enum_input(vec![], vec![v, tuple]);
    assert!(EnumError::from_input_with(&input, &vec![vec![true], vec![true, true]]).is_ok());
    assert!(EnumError::from_input_with(&input, &vec![vec![true], vec![true, false]]).is_err());
}

#[test]
fn struct_verdicts_decide_transform_acceptance() {
    let mut field = unnamed("u8");
    field.attrs.push(display_attr("|x| x"));
    let input = struct_input(vec![format_attr("{}")], Fields::Unnamed(vec![field]));
    assert!(StructError::from_input_with(&input, &vec![true]).is_ok());
    assert!(matches!(
        StructError::from_input_with(&input, &vec![false]),
        Err(GenerateError::MalformedOverrideExpression { .. })
    ));
}
