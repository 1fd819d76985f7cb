//! Annotation lookup shared by the enum and struct generators.
use crate::error::{Failure, GenerateError};
use crate::model::{AttrMeta, AttrValue, Attribute};
use vstd::prelude::*;

verus! {

/// Index of the first annotation at or after `i` whose name is `search`.
pub open spec fn attr_index_from(attrs: Seq<Attribute>, search: Seq<char>, i: int) -> Option<int>
    decreases attrs.len() - i,
{
    if i < 0 || i >= attrs.len() {
        None
    } else if attrs[i].name@ == search {
        Some(i)
    } else {
        attr_index_from(attrs, search, i + 1)
    }
}

/// Index of the first annotation whose name is `search`.
pub open spec fn attr_index(attrs: Seq<Attribute>, search: Seq<char>) -> Option<int> {
    attr_index_from(attrs, search, 0)
}

/// Errors from [attrs_get_value].
pub enum AttrsGetValueError {
    /// The annotation is not of the form `name = value`.
    NotNameValue(String),
    /// No annotation of that name is present.
    NotFound(String),
}

impl AttrsGetValueError {
    /// The message shown to the user.
    pub fn message(&self) -> (r: String)
        ensures
            r@ == match self {
                AttrsGetValueError::NotNameValue(a) => "attribute `"@ + a@
                    + "` only accepts name value arguments"@,
                AttrsGetValueError::NotFound(a) => "attribute `"@ + a@ + "` was not found"@,
            },
    {
        let mut out = String::from_str("attribute `");
        match self {
            AttrsGetValueError::NotNameValue(a) => {
                out.append(a.as_str());
                out.append("` only accepts name value arguments");
            },
            AttrsGetValueError::NotFound(a) => {
                out.append(a.as_str());
                out.append("` was not found");
            },
        }
        out
    }
}

/// Finds the value of the first annotation named `search`.
pub fn attrs_get_value<'a>(attrs: &'a [Attribute], search: &str) -> (r: Result<&'a AttrValue, AttrsGetValueError>)
    ensures
        match attr_index(attrs@, search@) {
            None => r matches Err(AttrsGetValueError::NotFound(s)) && s@ == search@,
            Some(i) => match attrs@[i].meta {
                AttrMeta::NameValue(v) => r == Ok::<&AttrValue, AttrsGetValueError>(&v),
                _ => r matches Err(AttrsGetValueError::NotNameValue(s)) && s@ == search@,
            },
        },
{
    let key = String::from_str(search);
    let mut i: usize = 0;
    while i < attrs.len()
        invariant
            0 <= i <= attrs@.len(),
            key@ == search@,
            attr_index_from(attrs@, search@, i as int) == attr_index(attrs@, search@),
        decreases attrs@.len() - i,
    {
        let attr = &attrs[i];
        if attr.name == key {
            return match &attr.meta {
                AttrMeta::NameValue(v) => Ok(v),
                _ => Err(AttrsGetValueError::NotNameValue(key)),
            };
        }
        i = i + 1;
    }
    Err(AttrsGetValueError::NotFound(key))
}


/// What an annotation lookup finds.
pub enum Annotation {
    Absent,
    NotNameValue,
    NotString,
    Str(Seq<char>),
}

/// The first annotation named `search`, classified by the form of its value.
pub open spec fn annotation(attrs: Seq<Attribute>, search: Seq<char>) -> Annotation {
    match attr_index(attrs, search) {
        None => Annotation::Absent,
        Some(i) => match attrs[i].meta {
            AttrMeta::NameValue(AttrValue::Str(s)) => Annotation::Str(s@),
            AttrMeta::NameValue(_) => Annotation::NotString,
            _ => Annotation::NotNameValue,
        },
    }
}

/// Errors from [attrs_get_lit_str].
pub enum AttrsGetLitStrError {
    GetError(AttrsGetValueError),
    NotStringLiteral(String),
}

impl AttrsGetLitStrError {
    /// The message shown to the user.
    pub fn message(&self) -> (r: String)
        ensures
            r@ == match self {
                AttrsGetLitStrError::GetError(AttrsGetValueError::NotNameValue(a)) => "attribute `"@
                    + a@ + "` only accepts name value arguments"@,
                AttrsGetLitStrError::GetError(AttrsGetValueError::NotFound(a)) => "attribute `"@ + a@
                    + "` was not found"@,
                AttrsGetLitStrError::NotStringLiteral(a) => "attribute `"@ + a@
                    + "` only accepts string literals"@,
            },
    {
        match self {
            AttrsGetLitStrError::GetError(e) => e.message(),
            AttrsGetLitStrError::NotStringLiteral(a) => {
                let mut out = String::from_str("attribute `");
                out.append(a.as_str());
                out.append("` only accepts string literals");
                out
            },
        }
    }
}

impl From<AttrsGetValueError> for AttrsGetLitStrError {
    fn from(error: AttrsGetValueError) -> (r: AttrsGetLitStrError)
        ensures
            r == AttrsGetLitStrError::GetError(error),
    {
        AttrsGetLitStrError::GetError(error)
    }
}

impl vstd::std_specs::convert::FromSpecImpl<AttrsGetValueError> for AttrsGetLitStrError {
    open spec fn obeys_from_spec() -> bool {
        true
    }

    open spec fn from_spec(error: AttrsGetValueError) -> AttrsGetLitStrError {
        AttrsGetLitStrError::GetError(error)
    }
}

/// Finds the string literal given to the first annotation named `search`.
pub fn attrs_get_lit_str<'a>(attrs: &'a [Attribute], search: &str) -> (r: Result<&'a String, AttrsGetLitStrError>)
    ensures
        match annotation(attrs@, search@) {
            Annotation::Str(s) => r matches Ok(l) && l@ == s,
            Annotation::Absent => r matches Err(AttrsGetLitStrError::GetError(AttrsGetValueError::NotFound(x)))
                && x@ == search@,
            Annotation::NotNameValue => r matches Err(
                AttrsGetLitStrError::GetError(AttrsGetValueError::NotNameValue(x)),
            ) && x@ == search@,
            Annotation::NotString => r matches Err(AttrsGetLitStrError::NotStringLiteral(x)) && x@
                == search@,
        },
{
    match attrs_get_value(attrs, search) {
        Err(e) => Err(AttrsGetLitStrError::from(e)),
        Ok(AttrValue::Str(s)) => Ok(s),
        Ok(AttrValue::Other(_)) => Err(AttrsGetLitStrError::NotStringLiteral(String::from_str(search))),
    }
}

/// The name of the annotation that holds a template.
pub open spec fn format_key() -> Seq<char> {
    "format"@
}

/// The name of the annotation that holds a value transform.
pub open spec fn display_key() -> Seq<char> {
    "display"@
}

/// An optional annotation: absent gives `None`, any form other than a string
/// literal is an error naming `item`.
pub open spec fn optional_annotation(attrs: Seq<Attribute>, key: Seq<char>, item: Seq<char>) -> Result<
    Option<Seq<char>>,
    Failure,
> {
    match annotation(attrs, key) {
        Annotation::Str(s) => Ok(Some(s)),
        Annotation::Absent => Ok(None),
        _ => Err(Failure::WrongAnnotationKind { annotation: key, item }),
    }
}

/// A required annotation: absent is an error as well.
pub open spec fn required_annotation(attrs: Seq<Attribute>, key: Seq<char>, item: Seq<char>) -> Result<
    Seq<char>,
    Failure,
> {
    match optional_annotation(attrs, key, item) {
        Ok(Some(s)) => Ok(s),
        Ok(None) => Err(Failure::MissingAnnotation { annotation: key, item }),
        Err(e) => Err(e),
    }
}

/// A found `display` transform is kept when `is_expression`, the verdict on
/// whether its text parses as an expression; otherwise it is an error naming
/// `item`.
pub open spec fn checked_display(display: Option<Seq<char>>, is_expression: bool, item: Seq<char>) -> Result<
    Option<Seq<char>>,
    Failure,
> {
    match display {
        Some(d) => if is_expression {
            Ok(Some(d))
        } else {
            Err(Failure::MalformedOverrideExpression { item, expression: d })
        },
        None => Ok(None),
    }
}

/// The optional `display` annotation of `item`, given the verdict on its text.
pub open spec fn display_annotation(attrs: Seq<Attribute>, item: Seq<char>, is_expression: bool) -> Result<
    Option<Seq<char>>,
    Failure,
> {
    match optional_annotation(attrs, display_key(), item) {
        Ok(d) => checked_display(d, is_expression, item),
        Err(e) => Err(e),
    }
}

/// The verdict at position `k`; a position without one counts as accepted.
pub open spec fn accepted(verdicts: Seq<bool>, k: int) -> bool {
    !(0 <= k < verdicts.len()) || verdicts[k]
}

/// Reads the verdict at position `k`.
pub fn accepted_at(verdicts: &Vec<bool>, k: usize) -> (r: bool)
    ensures
        r == accepted(verdicts@, k as int),
{
    k >= verdicts.len() || verdicts[k]
}

/// The characters that stand for `c` inside a string literal.
pub open spec fn escape_char(c: char) -> Seq<char> {
    if c == '\\' {
        seq!['\\', '\\']
    } else if c == '"' {
        seq!['\\', '"']
    } else if c == '\n' {
        seq!['\\', 'n']
    } else if c == '\r' {
        seq!['\\', 'r']
    } else {
        seq![c]
    }
}

/// The characters that stand for `s` inside a string literal.
pub open spec fn escaped(s: Seq<char>) -> Seq<char>
    decreases s.len(),
{
    if s.len() == 0 {
        Seq::empty()
    } else {
        escaped(s.drop_last()) + escape_char(s.last())
    }
}

/// The source text of a string literal whose value is `s`.
pub open spec fn string_literal(s: Seq<char>) -> Seq<char> {
    seq!['"'] + escaped(s) + seq!['"']
}

/// Writes `s` as a string literal.
pub fn quote_str(s: &str) -> (r: String)
    ensures
        r@ == string_literal(s@),
{
    proof {
        reveal_strlit("\"");
    }
    let n = s.unicode_len();
    let mut out = String::from_str("\"");
    let mut i: usize = 0;
    while i < n
        invariant
            n == s@.len(),
            i <= n,
            out@ == seq!['"'] + escaped(s@.subrange(0, i as int)),
        decreases n - i,
    {
        assert(s@.subrange(0, i + 1).drop_last() =~= s@.subrange(0, i as int));
        let c = s.get_char(i);
        proof {
            reveal_strlit("\\\\");
            reveal_strlit("\\\"");
            reveal_strlit("\\n");
            reveal_strlit("\\r");
        }
        assert(escaped(s@.subrange(0, i + 1)) == escaped(s@.subrange(0, i as int)) + escape_char(c));
        if c == '\\' {
            out.append("\\\\");
            assert("\\\\"@ =~= escape_char(c));
        } else if c == '"' {
            out.append("\\\"");
            assert("\\\""@ =~= escape_char(c));
        } else if c == '\n' {
            out.append("\\n");
            assert("\\n"@ =~= escape_char(c));
        } else if c == '\r' {
            out.append("\\r");
            assert("\\r"@ =~= escape_char(c));
        } else {
            assert(s@.subrange(i as int, i + 1) =~= seq![c]);
            out.append(s.substring_char(i, i + 1));
        }
        assert(out@ =~= seq!['"'] + escaped(s@.subrange(0, i + 1)));
        i = i + 1;
    }
    assert(s@.subrange(0, n as int) =~= s@);
    out.append("\"");
    out
}

/// Relies on syn's `parse_str::<Expr>`: whether `text` parses as a Rust
/// expression. Nothing is promised of the answer, which also rests on the
/// lexer that proc-macro2 picks at run time.
#[verifier::external_body]
fn parses_as_expression(text: &str) -> bool {
    syn::parse_str::<syn::Expr>(text).is_ok()
}

/// The parser's verdict on the `display` annotation among `attrs`; an absent
/// or non-string annotation needs none and counts as accepted.
pub(crate) fn display_verdict(attrs: &[Attribute]) -> bool {
    match attrs_get_lit_str(attrs, "display") {
        Ok(d) => parses_as_expression(d.as_str()),
        Err(_) => true,
    }
}

/// Keeps a found `display` transform when `is_expression` says that its text
/// parses as an expression, else fails naming `item`.
pub fn resolve_display(display: Option<String>, is_expression: bool, item: &String) -> (r: Result<
    Option<String>,
    GenerateError,
>)
    ensures
        match r {
            Ok(o) => checked_display(opt_view(display), is_expression, item@) == Ok::<
                Option<Seq<char>>,
                Failure,
            >(opt_view(o)),
            Err(e) => checked_display(opt_view(display), is_expression, item@) == Err::<
                Option<Seq<char>>,
                Failure,
            >(e@),
        },
{
    match display {
        Some(d) => {
            if is_expression {
                Ok(Some(d))
            } else {
                Err(GenerateError::MalformedOverrideExpression { item: item.clone(), expression: d })
            }
        },
        None => Ok(None),
    }
}

/// Looks up an optional string annotation.
pub(crate) fn get_optional(attrs: &[Attribute], key: &str, item: &String) -> (r: Result<
    Option<String>,
    GenerateError,
>)
    ensures
        match r {
            Ok(o) => optional_annotation(attrs@, key@, item@) == Ok::<Option<Seq<char>>, Failure>(
                opt_view(o),
            ),
            Err(e) => optional_annotation(attrs@, key@, item@) == Err::<Option<Seq<char>>, Failure>(
                e@,
            ),
        },
{
    match attrs_get_lit_str(attrs, key) {
        Ok(s) => Ok(Some(s.clone())),
        Err(AttrsGetLitStrError::GetError(AttrsGetValueError::NotFound(_))) => Ok(None),
        Err(_) => Err(
            GenerateError::WrongAnnotationKind { annotation: String::from_str(key), item: item.clone() },
        ),
    }
}

/// Looks up the `format` annotation that `ident` cannot do without.
pub fn get_required_format(attrs: &[Attribute], ident: &String) -> (r: Result<String, GenerateError>)
    ensures
        match r {
            Ok(s) => required_annotation(attrs@, format_key(), ident@) == Ok::<Seq<char>, Failure>(s@),
            Err(e) => required_annotation(attrs@, format_key(), ident@) == Err::<Seq<char>, Failure>(e@),
        },
{
    match get_optional(attrs, "format", ident) {
        Ok(Some(s)) => Ok(s),
        Ok(None) => Err(
            GenerateError::MissingAnnotation { annotation: String::from_str("format"), item: ident.clone() },
        ),
        Err(e) => Err(e),
    }
}

/// Looks up the optional `format` annotation of `item`.
pub(crate) fn get_format(attrs: &[Attribute], item: &String) -> (r: Result<Option<String>, GenerateError>)
    ensures
        match r {
            Ok(o) => optional_annotation(attrs@, format_key(), item@) == Ok::<Option<Seq<char>>, Failure>(
                opt_view(o),
            ),
            Err(e) => optional_annotation(attrs@, format_key(), item@) == Err::<Option<Seq<char>>, Failure>(
                e@,
            ),
        },
{
    get_optional(attrs, "format", item)
}

/// Looks up the optional `display` annotation of `item`, given the verdict on
/// its text.
pub(crate) fn get_display(attrs: &[Attribute], item: &String, is_expression: bool) -> (r: Result<
    Option<String>,
    GenerateError,
>)
    ensures
        match r {
            Ok(o) => display_annotation(attrs@, item@, is_expression) == Ok::<Option<Seq<char>>, Failure>(
                opt_view(o),
            ),
            Err(e) => display_annotation(attrs@, item@, is_expression) == Err::<Option<Seq<char>>, Failure>(
                e@,
            ),
        },
{
    match get_optional(attrs, "display", item) {
        Ok(d) => resolve_display(d, is_expression, item),
        Err(e) => Err(e),
    }
}

/// The view of an optional string.
pub open spec fn opt_view(o: Option<String>) -> Option<Seq<char>> {
    match o {
        Some(s) => Some(s@),
        None => None,
    }
}

/// The expression that shows `variable`: passed through the transform when
/// there is one, else `variable` itself.
pub open spec fn display_text(display: Option<Seq<char>>, variable: Seq<char>) -> Seq<char> {
    match display {
        Some(d) => "("@ + d + ")("@ + variable + ")"@,
        None => variable,
    }
}

/// Emits the expression that shows `variable`, through the `display`
/// transform if there is one.
pub fn display_field(display: &Option<String>, variable: &str) -> (r: String)
    ensures
        r@ == display_text(opt_view(*display), variable@),
{
    match display {
        Some(d) => {
            let mut out = String::from_str("(");
            out.append(d.as_str());
            out.append(")(");
            out.append(variable);
            out.append(")");
            out
        },
        None => String::from_str(variable),
    }
}

/// The character of a decimal digit.
pub open spec fn digit_char(d: nat) -> char {
    if d == 0 { '0' } else if d == 1 { '1' } else if d == 2 { '2' } else if d == 3 { '3' }
    else if d == 4 { '4' } else if d == 5 { '5' } else if d == 6 { '6' } else if d == 7 { '7' }
    else if d == 8 { '8' } else { '9' }
}

/// The decimal digits of `n`, most significant first, without leading zeros.
pub open spec fn decimal(n: nat) -> Seq<char>
    decreases n,
{
    if n < 10 {
        seq![digit_char(n)]
    } else {
        decimal(n / 10).push(digit_char(n % 10))
    }
}

fn digit_str(d: usize) -> (r: &'static str)
    requires
        d < 10,
    ensures
        r@ == seq![digit_char(d as nat)],
{
    proof {
        reveal_strlit("0");
        reveal_strlit("1");
        reveal_strlit("2");
        reveal_strlit("3");
        reveal_strlit("4");
        reveal_strlit("5");
        reveal_strlit("6");
        reveal_strlit("7");
        reveal_strlit("8");
        reveal_strlit("9");
    }
    if d == 0 { "0" } else if d == 1 { "1" } else if d == 2 { "2" } else if d == 3 { "3" }
    else if d == 4 { "4" } else if d == 5 { "5" } else if d == 6 { "6" } else if d == 7 { "7" }
    else if d == 8 { "8" } else { "9" }
}

/// Writes `n` in decimal.
pub fn decimal_string(n: usize) -> (r: String)
    ensures
        r@ == decimal(n as nat),
    decreases n,
{
    if n < 10 {
        String::from_str(digit_str(n))
    } else {
        let mut out = decimal_string(n / 10);
        out.append(digit_str(n % 10));
        out
    }
}

} // verus!
