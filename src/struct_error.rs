//! Code generation for structs: the fields are bound to names and the
//! type-level template renders them.
use crate::common::{
    accepted, accepted_at, decimal, decimal_string, display_annotation, display_field,
    display_text, display_verdict, format_key, get_display, get_required_format, opt_view,
    quote_str, required_annotation, string_literal,
};
use crate::enum_error::{
    append_impl_header, arg_name, collect_named_displays, collect_unnamed_displays, displays_view,
    fields_view, impl_header, named_displays, unnamed_displays,
};
use crate::error::{Failure, GenerateError};
use crate::model::{Data, DeriveInput, Fields, Generics};
use vstd::prelude::*;

verus! {

/// The shape of a struct's fields, with their transforms resolved.
pub enum StructErrorVariant {
    /// Named fields, each with its optional `display` transform.
    Named(Vec<(Option<String>, String)>),
    /// Exactly one unnamed field, passed to the template as `{}`, with its
    /// optional `display` transform.
    SingleUnnamed(Option<String>),
    /// No fields.
    Unit,
    /// Any other number of unnamed fields, bound to `arg_0`, `arg_1`, ...
    Unnamed(Vec<Option<String>>),
}

/// The mathematical value of a [StructErrorVariant].
pub enum StructShape {
    Named(Seq<(Option<Seq<char>>, Seq<char>)>),
    SingleUnnamed(Option<Seq<char>>),
    Unit,
    Unnamed(Seq<Option<Seq<char>>>),
}

impl View for StructErrorVariant {
    type V = StructShape;

    open spec fn view(&self) -> StructShape {
        match self {
            StructErrorVariant::Named(fs) => StructShape::Named(fields_view(fs@)),
            StructErrorVariant::SingleUnnamed(d) => StructShape::SingleUnnamed(opt_view(*d)),
            StructErrorVariant::Unit => StructShape::Unit,
            StructErrorVariant::Unnamed(ds) => StructShape::Unnamed(displays_view(ds@)),
        }
    }
}

/// How a struct's fields are classified, where `verdicts[k]` says whether
/// the transform of field `k` parses as an expression; errors on unnamed
/// fields name the struct `item`.
pub open spec fn struct_shape(fields: Fields, item: Seq<char>, verdicts: Seq<bool>) -> Result<StructShape, Failure> {
    match fields {
        Fields::Named(fs) => match named_displays(fs@, verdicts) {
            Err(e) => Err(e),
            Ok(named) => Ok(StructShape::Named(named)),
        },
        Fields::Unnamed(fs) => if fs@.len() == 1 {
            match display_annotation(fs@[0].attrs@, item, accepted(verdicts, 0)) {
                Err(e) => Err(e),
                Ok(d) => Ok(StructShape::SingleUnnamed(d)),
            }
        } else {
            match unnamed_displays(fs@, item, verdicts) {
                Err(e) => Err(e),
                Ok(ds) => Ok(StructShape::Unnamed(ds)),
            }
        },
        Fields::Unit => Ok(StructShape::Unit),
    }
}

/// What generation for a struct resolves, given the verdicts on its fields'
/// transforms: its required template and the shape of its fields.
pub open spec fn struct_resolution(input: DeriveInput, verdicts: Seq<bool>) -> Result<(Seq<char>, StructShape), Failure> {
    match input.data {
        Data::Struct(fields) => match required_annotation(input.attrs@, format_key(), input.ident@) {
            Err(e) => Err(e),
            Ok(format) => match struct_shape(fields, input.ident@, verdicts) {
                Err(e) => Err(e),
                Ok(shape) => Ok((format, shape)),
            },
        },
        _ => Err(Failure::UnsupportedShape { item: input.ident@ }),
    }
}

/// The statements that bind each named field, through its transform if any.
pub open spec fn named_bindings(fields: Seq<(Option<Seq<char>>, Seq<char>)>) -> Seq<char>
    decreases fields.len(),
{
    if fields.len() == 0 {
        Seq::empty()
    } else {
        named_bindings(fields.drop_last()) + "let "@ + fields.last().1 + " = "@ + display_text(
            fields.last().0,
            "self."@ + fields.last().1,
        ) + "; "@
    }
}

/// The statements that bind each position to `arg_<i>`, through its transform if any.
pub open spec fn positional_bindings(displays: Seq<Option<Seq<char>>>) -> Seq<char>
    decreases displays.len(),
{
    if displays.len() == 0 {
        Seq::empty()
    } else {
        let i = (displays.len() - 1) as nat;
        positional_bindings(displays.drop_last()) + "let "@ + arg_name(i) + " = "@ + display_text(
            displays.last(),
            "self."@ + decimal(i),
        ) + "; "@
    }
}

/// The body of the emitted `fmt`.
pub open spec fn struct_body_text(shape: StructShape, format: Seq<char>) -> Seq<char> {
    match shape {
        StructShape::Named(fields) => named_bindings(fields) + "write!(f, "@ + string_literal(format)
            + ")"@,
        StructShape::SingleUnnamed(d) => "write!(f, "@ + string_literal(format) + ", "@ + display_text(
            d,
            "self.0"@,
        ) + ")"@,
        StructShape::Unit => "write!(f, "@ + string_literal(format) + ")"@,
        StructShape::Unnamed(displays) => positional_bindings(displays) + "write!(f, "@
            + string_literal(format) + ")"@,
    }
}

/// The `Display` implementation of a struct.
pub open spec fn struct_display_text(ident: Seq<char>, g: Generics, format: Seq<char>, shape: StructShape) -> Seq<char> {
    impl_header("std::fmt::Display"@, ident, g)
        + " { fn fmt(&self, f: &mut std::fmt::Formatter<'_>) -> std::fmt::Result { "@
        + struct_body_text(shape, format) + " } } "@
}

impl StructErrorVariant {
    /// Classifies a struct's fields and resolves their transforms, given the
    /// verdict on each transform's text.
    pub fn from_fields_with(fields: &Fields, item: &String, verdicts: &Vec<bool>) -> (r: Result<
        StructErrorVariant,
        GenerateError,
    >)
        ensures
            match r {
                Ok(v) => struct_shape(*fields, item@, verdicts@) == Ok::<StructShape, Failure>(v@),
                Err(e) => struct_shape(*fields, item@, verdicts@) == Err::<StructShape, Failure>(e@),
            },
    {
        match fields {
            Fields::Named(fs) => match collect_named_displays(fs, verdicts) {
                Ok(named) => Ok(StructErrorVariant::Named(named)),
                Err(e) => Err(e),
            },
            Fields::Unnamed(fs) => {
                if fs.len() == 1 {
                    match get_display(fs[0].attrs.as_slice(), item, accepted_at(verdicts, 0)) {
                        Ok(d) => Ok(StructErrorVariant::SingleUnnamed(d)),
                        Err(e) => Err(e),
                    }
                } else {
                    match collect_unnamed_displays(fs, item, verdicts) {
                        Ok(ds) => Ok(StructErrorVariant::Unnamed(ds)),
                        Err(e) => Err(e),
                    }
                }
            },
            Fields::Unit => Ok(StructErrorVariant::Unit),
        }
    }

    /// Classifies a struct's fields, asking the parser whether each `display`
    /// transform is an expression. The result is [struct_shape] under the
    /// verdicts that came back, whatever they were.
    pub fn from_fields(fields: &Fields, item: &String) -> (r: Result<StructErrorVariant, GenerateError>)
        ensures
            exists|verdicts: Seq<bool>|
                match r {
                    Ok(v) => #[trigger] struct_shape(*fields, item@, verdicts) == Ok::<StructShape, Failure>(v@),
                    Err(e) => struct_shape(*fields, item@, verdicts) == Err::<StructShape, Failure>(e@),
                },
    {
        let verdicts = field_verdicts(fields);
        let r = StructErrorVariant::from_fields_with(fields, item, &verdicts);
        assert(match r {
            Ok(v) => struct_shape(*fields, item@, verdicts@) == Ok::<StructShape, Failure>(v@),
            Err(e) => struct_shape(*fields, item@, verdicts@) == Err::<StructShape, Failure>(e@),
        });
        r
    }

    /// Emits the `Display` implementation of the struct `self_ident`.
    pub fn to_display_impl(&self, self_ident: &str, self_generics: &Generics, self_format: &str) -> (r: String)
        ensures
            r@ == struct_display_text(self_ident@, *self_generics, self_format@, self@),
    {
        let mut out = String::new();
        append_impl_header(&mut out, "std::fmt::Display", self_ident, self_generics);
        out.append(" { fn fmt(&self, f: &mut std::fmt::Formatter<'_>) -> std::fmt::Result { ");
        let lit = quote_str(self_format);
        match self {
            StructErrorVariant::Named(fields) => {
                append_named_bindings(&mut out, fields);
                out.append("write!(f, ");
                out.append(lit.as_str());
                out.append(")");
            },
            StructErrorVariant::SingleUnnamed(display) => {
                out.append("write!(f, ");
                out.append(lit.as_str());
                out.append(", ");
                let shown = display_field(display, "self.0");
                out.append(shown.as_str());
                out.append(")");
            },
            StructErrorVariant::Unit => {
                out.append("write!(f, ");
                out.append(lit.as_str());
                out.append(")");
            },
            StructErrorVariant::Unnamed(displays) => {
                append_positional_bindings(&mut out, displays);
                out.append("write!(f, ");
                out.append(lit.as_str());
                out.append(")");
            },
        }
        out.append(" } } ");
        out
    }
}

fn append_named_bindings(out: &mut String, fields: &Vec<(Option<String>, String)>)
    ensures
        final(out)@ == old(out)@ + named_bindings(fields_view(fields@)),
{
    let ghost start = out@;
    let mut i: usize = 0;
    while i < fields.len()
        invariant
            i <= fields@.len(),
            out@ == start + named_bindings(fields_view(fields@.subrange(0, i as int))),
        decreases fields@.len() - i,
    {
        assert(fields_view(fields@.subrange(0, i + 1)).drop_last() =~= fields_view(fields@.subrange(0, i as int)));
        let (display, name) = &fields[i];
        let mut place = String::from_str("self.");
        place.append(name.as_str());
        out.append("let ");
        out.append(name.as_str());
        out.append(" = ");
        let shown = display_field(display, place.as_str());
        out.append(shown.as_str());
        out.append("; ");
        i = i + 1;
    }
    assert(fields@.subrange(0, fields@.len() as int) =~= fields@);
}

fn append_positional_bindings(out: &mut String, displays: &Vec<Option<String>>)
    ensures
        final(out)@ == old(out)@ + positional_bindings(displays_view(displays@)),
{
    let ghost start = out@;
    let mut i: usize = 0;
    while i < displays.len()
        invariant
            i <= displays@.len(),
            out@ == start + positional_bindings(displays_view(displays@.subrange(0, i as int))),
        decreases displays@.len() - i,
    {
        assert(displays_view(displays@.subrange(0, i + 1)).drop_last() =~= displays_view(displays@.subrange(0, i as int)));
        let digits = decimal_string(i);
        let mut place = String::from_str("self.");
        place.append(digits.as_str());
        out.append("let ");
        out.append("arg_");
        out.append(digits.as_str());
        out.append(" = ");
        let shown = display_field(&displays[i], place.as_str());
        out.append(shown.as_str());
        out.append("; ");
        i = i + 1;
    }
    assert(displays@.subrange(0, displays@.len() as int) =~= displays@);
}

/// A struct ready for code generation.
pub struct StructError {
    pub ident: String,
    pub format: String,
    pub generics: Generics,
    pub variant: StructErrorVariant,
}

/// The parser's verdicts on the transforms of a struct's fields, in the
/// positions that [struct_shape] reads them from.
fn field_verdicts(fields: &Fields) -> Vec<bool> {
    let mut out: Vec<bool> = Vec::new();
    match fields {
        Fields::Named(fs) => {
            let mut i: usize = 0;
            while i < fs.len()
                decreases fs@.len() - i,
            {
                out.push(display_verdict(fs[i].attrs.as_slice()));
                i = i + 1;
            }
        },
        Fields::Unnamed(fs) => {
            let mut i: usize = 0;
            while i < fs.len()
                decreases fs@.len() - i,
            {
                out.push(display_verdict(fs[i].attrs.as_slice()));
                i = i + 1;
            }
        },
        Fields::Unit => {},
    }
    out
}

impl StructError {
    /// Resolves and checks a struct declaration, given the verdicts on its
    /// fields' transforms.
    pub fn from_input_with(input: &DeriveInput, verdicts: &Vec<bool>) -> (r: Result<StructError, GenerateError>)
        ensures
            match r {
                Ok(s) => {
                    &&& struct_resolution(*input, verdicts@) == Ok::<_, Failure>((s.format@, s.variant@))
                    &&& s.ident@ == input.ident@
                    &&& s.generics == input.generics
                },
                Err(e) => struct_resolution(*input, verdicts@) == Err::<(Seq<char>, StructShape), _>(e@),
            },
    {
        let fields = match &input.data {
            Data::Struct(fields) => fields,
            _ => return Err(GenerateError::UnsupportedShape { item: input.ident.clone() }),
        };
        let format = match get_required_format(input.attrs.as_slice(), &input.ident) {
            Ok(f) => f,
            Err(e) => return Err(e),
        };
        let variant = match StructErrorVariant::from_fields_with(fields, &input.ident, verdicts) {
            Ok(v) => v,
            Err(e) => return Err(e),
        };
        Ok(StructError { ident: input.ident.clone(), format, generics: input.generics.duplicate(), variant })
    }

    /// Resolves and checks a struct declaration, asking the parser whether
    /// each `display` transform is an expression. The result is
    /// [struct_resolution] under the verdicts that came back, whatever they were.
    pub fn from_input(input: &DeriveInput) -> (r: Result<StructError, GenerateError>)
        ensures
            exists|verdicts: Seq<bool>|
                match r {
                    Ok(s) => {
                        &&& #[trigger] struct_resolution(*input, verdicts) == Ok::<_, Failure>(
                            (s.format@, s.variant@),
                        )
                        &&& s.ident@ == input.ident@
                        &&& s.generics == input.generics
                    },
                    Err(e) => struct_resolution(*input, verdicts) == Err::<(Seq<char>, StructShape), _>(e@),
                },
    {
        let verdicts = match &input.data {
            Data::Struct(fields) => field_verdicts(fields),
            _ => Vec::new(),
        };
        let r = StructError::from_input_with(input, &verdicts);
        assert(match r {
            Ok(s) => {
                &&& struct_resolution(*input, verdicts@) == Ok::<_, Failure>((s.format@, s.variant@))
                &&& s.ident@ == input.ident@
                &&& s.generics == input.generics
            },
            Err(e) => struct_resolution(*input, verdicts@) == Err::<(Seq<char>, StructShape), _>(e@),
        });
        r
    }

    /// Emits everything generated for the struct: its `Display` implementation.
    pub fn to_source(&self) -> (r: String)
        ensures
            r@ == struct_display_text(self.ident@, self.generics, self.format@, self.variant@),
    {
        self.variant.to_display_impl(self.ident.as_str(), &self.generics, self.format.as_str())
    }
}

} // verus!
