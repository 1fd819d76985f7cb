//! Code generation for enums: each variant is classified by its payload
//! shape, the variants are checked together, and the `Display` and `From`
//! implementations are emitted as source text.
use crate::common::{
    accepted, accepted_at, decimal, decimal_string, display_annotation, display_field,
    display_text, display_verdict, escape_char, escaped, format_key, get_display, get_format, get_required_format,
    opt_view, optional_annotation, quote_str, required_annotation, string_literal,
};
use crate::error::{Failure, GenerateError};
use crate::model::{Data, DeriveInput, Fields, Generics, NamedField, UnnamedField, Variant};
use vstd::prelude::*;

verus! {

/// A variant classified by the shape of its payload, with its annotations
/// resolved.
#[allow(inconsistent_fields)]
pub enum EnumVariant {
    /// Named fields, each with its optional `display` transform.
    AnonymousStruct { ident: String, fields: Vec<(Option<String>, String)>, format: String },
    /// No fields and an explicit discriminant, shown as the payload.
    Discriminant {
        discriminant: String,
        format: Option<String>,
        display: Option<String>,
        ident: String,
    },
    /// Exactly one unnamed field of type `ty`.
    SingleType { ident: String, display: Option<String>, format: Option<String>, ty: String },
    /// Any other number of unnamed fields, each with its optional transform.
    Tuple { ident: String, format: String, displays: Vec<Option<String>> },
    /// No fields.
    Unit { ident: String, format: String },
}

/// The mathematical value of an [EnumVariant].
#[allow(inconsistent_fields)]
pub enum VariantModel {
    AnonymousStruct {
        ident: Seq<char>,
        fields: Seq<(Option<Seq<char>>, Seq<char>)>,
        format: Seq<char>,
    },
    Discriminant {
        discriminant: Seq<char>,
        format: Option<Seq<char>>,
        display: Option<Seq<char>>,
        ident: Seq<char>,
    },
    SingleType {
        ident: Seq<char>,
        display: Option<Seq<char>>,
        format: Option<Seq<char>>,
        ty: Seq<char>,
    },
    Tuple { ident: Seq<char>, format: Seq<char>, displays: Seq<Option<Seq<char>>> },
    Unit { ident: Seq<char>, format: Seq<char> },
}

/// The view of a named field's transform and name.
pub open spec fn field_view(p: (Option<String>, String)) -> (Option<Seq<char>>, Seq<char>) {
    (opt_view(p.0), p.1@)
}

/// The views of the named fields' transforms and names.
pub open spec fn fields_view(fs: Seq<(Option<String>, String)>) -> Seq<(Option<Seq<char>>, Seq<char>)> {
    fs.map_values(|p: (Option<String>, String)| field_view(p))
}

/// The views of the positional transforms.
pub open spec fn displays_view(ds: Seq<Option<String>>) -> Seq<Option<Seq<char>>> {
    ds.map_values(|d: Option<String>| opt_view(d))
}

impl View for EnumVariant {
    type V = VariantModel;

    open spec fn view(&self) -> VariantModel {
        match self {
            EnumVariant::AnonymousStruct { ident, fields, format } => VariantModel::AnonymousStruct {
                ident: ident@,
                fields: fields_view(fields@),
                format: format@,
            },
            EnumVariant::Discriminant { discriminant, format, display, ident } =>
                VariantModel::Discriminant {
                discriminant: discriminant@,
                format: opt_view(*format),
                display: opt_view(*display),
                ident: ident@,
            },
            EnumVariant::SingleType { ident, display, format, ty } => VariantModel::SingleType {
                ident: ident@,
                display: opt_view(*display),
                format: opt_view(*format),
                ty: ty@,
            },
            EnumVariant::Tuple { ident, format, displays } => VariantModel::Tuple {
                ident: ident@,
                format: format@,
                displays: displays_view(displays@),
            },
            EnumVariant::Unit { ident, format } => VariantModel::Unit { ident: ident@, format: format@ },
        }
    }
}

/// The transforms of named fields, in order, where `verdicts[k]` says whether
/// the transform of field `k` parses; the first field whose `display`
/// annotation is wrong decides the error.
pub open spec fn named_displays(fs: Seq<NamedField>, verdicts: Seq<bool>) -> Result<
    Seq<(Option<Seq<char>>, Seq<char>)>,
    Failure,
>
    decreases fs.len(),
{
    if fs.len() == 0 {
        Ok(Seq::empty())
    } else {
        match named_displays(fs.drop_last(), verdicts) {
            Err(e) => Err(e),
            Ok(prev) => match display_annotation(
                fs.last().attrs@,
                fs.last().ident@,
                accepted(verdicts, fs.len() - 1),
            ) {
                Err(e) => Err(e),
                Ok(d) => Ok(prev.push((d, fs.last().ident@))),
            },
        }
    }
}

/// The transforms of unnamed fields, in order, with the verdict on each;
/// errors name the variant `item`.
pub open spec fn unnamed_displays(fs: Seq<UnnamedField>, item: Seq<char>, verdicts: Seq<bool>) -> Result<
    Seq<Option<Seq<char>>>,
    Failure,
>
    decreases fs.len(),
{
    if fs.len() == 0 {
        Ok(Seq::empty())
    } else {
        match unnamed_displays(fs.drop_last(), item, verdicts) {
            Err(e) => Err(e),
            Ok(prev) => match display_annotation(fs.last().attrs@, item, accepted(verdicts, fs.len() - 1)) {
                Err(e) => Err(e),
                Ok(d) => Ok(prev.push(d)),
            },
        }
    }
}

/// How a variant is classified. A discriminant with no fields comes first; a
/// discriminant beside fields is refused. Otherwise the fields decide: named
/// fields, exactly one unnamed field, other unnamed fields, or none. Only a
/// single payload or a discriminant may go without `format`. `verdicts` says,
/// for each field's transform (or the variant's own, at position 0), whether
/// its text parses as an expression.
pub open spec fn classify(v: Variant, verdicts: Seq<bool>) -> Result<VariantModel, Failure> {
    let name = v.ident@;
    match v.discriminant {
        Some(d) => if v.fields is Unit {
            match optional_annotation(v.attrs@, format_key(), name) {
                Err(e) => Err(e),
                Ok(format) => match display_annotation(v.attrs@, name, accepted(verdicts, 0)) {
                    Err(e) => Err(e),
                    Ok(display) => Ok(
                        VariantModel::Discriminant { discriminant: d@, format, display, ident: name },
                    ),
                },
            }
        } else {
            Err(Failure::UnsupportedShape { item: name })
        },
        None => match v.fields {
            Fields::Named(fs) => match required_annotation(v.attrs@, format_key(), name) {
                Err(e) => Err(e),
                Ok(format) => match named_displays(fs@, verdicts) {
                    Err(e) => Err(e),
                    Ok(fields) => Ok(VariantModel::AnonymousStruct { ident: name, fields, format }),
                },
            },
            Fields::Unnamed(fs) => if fs@.len() == 1 {
                match optional_annotation(v.attrs@, format_key(), name) {
                    Err(e) => Err(e),
                    Ok(format) => match display_annotation(v.attrs@, name, accepted(verdicts, 0)) {
                        Err(e) => Err(e),
                        Ok(display) => Ok(
                            VariantModel::SingleType { ident: name, display, format, ty: fs@[0].ty@ },
                        ),
                    },
                }
            } else {
                match required_annotation(v.attrs@, format_key(), name) {
                    Err(e) => Err(e),
                    Ok(format) => match unnamed_displays(fs@, name, verdicts) {
                        Err(e) => Err(e),
                        Ok(displays) => Ok(VariantModel::Tuple { ident: name, format, displays }),
                    },
                }
            },
            Fields::Unit => match required_annotation(v.attrs@, format_key(), name) {
                Err(e) => Err(e),
                Ok(format) => Ok(VariantModel::Unit { ident: name, format }),
            },
        },
    }
}

pub(crate) fn collect_named_displays(fs: &Vec<NamedField>, verdicts: &Vec<bool>) -> (r: Result<
    Vec<(Option<String>, String)>,
    GenerateError,
>)
    ensures
        match r {
            Ok(v) => named_displays(fs@, verdicts@) == Ok::<_, Failure>(fields_view(v@)),
            Err(e) => named_displays(fs@, verdicts@) == Err::<Seq<(Option<Seq<char>>, Seq<char>)>, _>(e@),
        },
{
    let mut out: Vec<(Option<String>, String)> = Vec::new();
    let mut i: usize = 0;
    assert(fs@.subrange(0, 0) =~= Seq::<NamedField>::empty());
    assert(fields_view(out@) =~= Seq::empty());
    while i < fs.len()
        invariant
            i <= fs@.len(),
            named_displays(fs@.subrange(0, i as int), verdicts@) == Ok::<_, Failure>(fields_view(out@)),
        decreases fs@.len() - i,
    {
        let f = &fs[i];
        assert(fs@.subrange(0, i + 1).drop_last() =~= fs@.subrange(0, i as int));
        match get_display(f.attrs.as_slice(), &f.ident, accepted_at(verdicts, i)) {
            Err(e) => {
                proof {
                    lemma_named_prefix_error(fs@, verdicts@, i + 1, fs@.len() as int);
                    assert(fs@.subrange(0, fs@.len() as int) =~= fs@);
                }
                return Err(e);
            },
            Ok(d) => {
                let ghost before = out@;
                out.push((d, f.ident.clone()));
                assert(fields_view(out@) =~= fields_view(before).push(field_view(out@.last())));
            },
        }
        i = i + 1;
    }
    assert(fs@.subrange(0, fs@.len() as int) =~= fs@);
    Ok(out)
}

proof fn lemma_named_prefix_error(fs: Seq<NamedField>, verdicts: Seq<bool>, i: int, j: int)
    requires
        0 <= i <= j <= fs.len(),
        named_displays(fs.subrange(0, i), verdicts) is Err,
    ensures
        named_displays(fs.subrange(0, j), verdicts) == named_displays(fs.subrange(0, i), verdicts),
    decreases j - i,
{
    if j > i {
        lemma_named_prefix_error(fs, verdicts, i, j - 1);
        assert(fs.subrange(0, j).drop_last() =~= fs.subrange(0, j - 1));
    }
}

pub(crate) fn collect_unnamed_displays(fs: &Vec<UnnamedField>, item: &String, verdicts: &Vec<bool>) -> (r: Result<
    Vec<Option<String>>,
    GenerateError,
>)
    ensures
        match r {
            Ok(v) => unnamed_displays(fs@, item@, verdicts@) == Ok::<_, Failure>(displays_view(v@)),
            Err(e) => unnamed_displays(fs@, item@, verdicts@) == Err::<Seq<Option<Seq<char>>>, _>(e@),
        },
{
    let mut out: Vec<Option<String>> = Vec::new();
    let mut i: usize = 0;
    assert(fs@.subrange(0, 0) =~= Seq::<UnnamedField>::empty());
    assert(displays_view(out@) =~= Seq::empty());
    while i < fs.len()
        invariant
            i <= fs@.len(),
            unnamed_displays(fs@.subrange(0, i as int), item@, verdicts@) == Ok::<_, Failure>(displays_view(out@)),
        decreases fs@.len() - i,
    {
        let f = &fs[i];
        assert(fs@.subrange(0, i + 1).drop_last() =~= fs@.subrange(0, i as int));
        match get_display(f.attrs.as_slice(), item, accepted_at(verdicts, i)) {
            Err(e) => {
                proof {
                    lemma_unnamed_prefix_error(fs@, item@, verdicts@, i + 1, fs@.len() as int);
                    assert(fs@.subrange(0, fs@.len() as int) =~= fs@);
                }
                return Err(e);
            },
            Ok(d) => {
                let ghost before = out@;
                out.push(d);
                assert(displays_view(out@) =~= displays_view(before).push(opt_view(out@.last())));
            },
        }
        i = i + 1;
    }
    assert(fs@.subrange(0, fs@.len() as int) =~= fs@);
    Ok(out)
}

proof fn lemma_unnamed_prefix_error(fs: Seq<UnnamedField>, item: Seq<char>, verdicts: Seq<bool>, i: int, j: int)
    requires
        0 <= i <= j <= fs.len(),
        unnamed_displays(fs.subrange(0, i), item, verdicts) is Err,
    ensures
        unnamed_displays(fs.subrange(0, j), item, verdicts) == unnamed_displays(fs.subrange(0, i), item, verdicts),
    decreases j - i,
{
    if j > i {
        lemma_unnamed_prefix_error(fs, item, verdicts, i, j - 1);
        assert(fs.subrange(0, j).drop_last() =~= fs.subrange(0, j - 1));
    }
}

impl EnumVariant {
    /// Classifies a variant by its payload shape and resolves its annotations,
    /// given the verdict on each transform's text (see [classify]).
    pub fn classify_with(variant: &Variant, verdicts: &Vec<bool>) -> (r: Result<EnumVariant, GenerateError>)
        ensures
            match r {
                Ok(c) => classify(*variant, verdicts@) == Ok::<VariantModel, Failure>(c@),
                Err(e) => classify(*variant, verdicts@) == Err::<VariantModel, Failure>(e@),
            },
    {
        let attrs = variant.attrs.as_slice();
        let ident = &variant.ident;
        match &variant.discriminant {
            Some(d) => {
                if let Fields::Unit = &variant.fields {
                    let format = match get_format(attrs, ident) {
                        Ok(f) => f,
                        Err(e) => return Err(e),
                    };
                    let display = match get_display(attrs, ident, accepted_at(verdicts, 0)) {
                        Ok(x) => x,
                        Err(e) => return Err(e),
                    };
                    Ok(EnumVariant::Discriminant { discriminant: d.clone(), format, display, ident: ident.clone() })
                } else {
                    Err(GenerateError::UnsupportedShape { item: ident.clone() })
                }
            },
            None => match &variant.fields {
                Fields::Named(fs) => {
                    let format = match get_required_format(attrs, ident) {
                        Ok(f) => f,
                        Err(e) => return Err(e),
                    };
                    let fields = match collect_named_displays(fs, verdicts) {
                        Ok(x) => x,
                        Err(e) => return Err(e),
                    };
                    Ok(EnumVariant::AnonymousStruct { ident: ident.clone(), fields, format })
                },
                Fields::Unnamed(fs) => {
                    if fs.len() == 1 {
                        let format = match get_format(attrs, ident) {
                            Ok(f) => f,
                            Err(e) => return Err(e),
                        };
                        let display = match get_display(attrs, ident, accepted_at(verdicts, 0)) {
                            Ok(x) => x,
                            Err(e) => return Err(e),
                        };
                        Ok(EnumVariant::SingleType { ident: ident.clone(), display, format, ty: fs[0].ty.clone() })
                    } else {
                        let format = match get_required_format(attrs, ident) {
                            Ok(f) => f,
                            Err(e) => return Err(e),
                        };
                        let displays = match collect_unnamed_displays(fs, ident, verdicts) {
                            Ok(x) => x,
                            Err(e) => return Err(e),
                        };
                        Ok(EnumVariant::Tuple { ident: ident.clone(), format, displays })
                    }
                },
                Fields::Unit => {
                    let format = match get_required_format(attrs, ident) {
                        Ok(f) => f,
                        Err(e) => return Err(e),
                    };
                    Ok(EnumVariant::Unit { ident: ident.clone(), format })
                },
            },
        }
    }
}

/// The payload type of a single-payload variant.
pub open spec fn payload_type(c: VariantModel) -> Option<Seq<char>> {
    match c {
        VariantModel::SingleType { ty, .. } => Some(ty),
        _ => None,
    }
}

/// Whether one of `cs` is a single-payload variant wrapping `ty`.
pub open spec fn wraps_type(cs: Seq<VariantModel>, ty: Seq<char>) -> bool {
    exists|k: int| 0 <= k < cs.len() && payload_type(#[trigger] cs[k]) == Some(ty)
}

/// The verdicts for variant `k`; a variant without any gets none.
pub open spec fn verdicts_for(verdicts: Seq<Seq<bool>>, k: int) -> Seq<bool> {
    if 0 <= k < verdicts.len() {
        verdicts[k]
    } else {
        Seq::empty()
    }
}

/// The views of per-variant verdicts.
pub open spec fn verdicts_view(verdicts: Seq<Vec<bool>>) -> Seq<Seq<bool>> {
    verdicts.map_values(|v: Vec<bool>| v@)
}

/// Classifies the variants in order, variant `k` with `verdicts_for(verdicts,
/// k)`, and stops at the first failure. A single-payload variant whose type
/// an earlier one already wraps fails with its own name.
pub open spec fn classify_all(vs: Seq<Variant>, verdicts: Seq<Seq<bool>>) -> Result<Seq<VariantModel>, Failure>
    decreases vs.len(),
{
    if vs.len() == 0 {
        Ok(Seq::empty())
    } else {
        match classify_all(vs.drop_last(), verdicts) {
            Err(e) => Err(e),
            Ok(cs) => match classify(vs.last(), verdicts_for(verdicts, vs.len() - 1)) {
                Err(e) => Err(e),
                Ok(c) => match payload_type(c) {
                    Some(t) => if wraps_type(cs, t) {
                        Err(Failure::DuplicatePayloadType { variant: vs.last().ident@ })
                    } else {
                        Ok(cs.push(c))
                    },
                    None => Ok(cs.push(c)),
                },
            },
        }
    }
}

/// No two single-payload variants wrap one type.
pub open spec fn distinct_payloads(cs: Seq<VariantModel>) -> bool {
    forall|i: int, j: int|
        0 <= i < j < cs.len() && (#[trigger] payload_type(cs[i])) is Some ==> payload_type(cs[i])
            != #[trigger] payload_type(cs[j])
}

proof fn lemma_classified_distinct(vs: Seq<Variant>, verdicts: Seq<Seq<bool>>)
    requires
        classify_all(vs, verdicts) is Ok,
    ensures
        classify_all(vs, verdicts)->Ok_0.len() == vs.len(),
        distinct_payloads(classify_all(vs, verdicts)->Ok_0),
    decreases vs.len(),
{
    if vs.len() > 0 {
        lemma_classified_distinct(vs.drop_last(), verdicts);
        let cs = classify_all(vs.drop_last(), verdicts)->Ok_0;
        let c = classify(vs.last(), verdicts_for(verdicts, vs.len() - 1))->Ok_0;
        let all = cs.push(c);
        assert forall|i: int, j: int|
            0 <= i < j < all.len() && (#[trigger] payload_type(all[i])) is Some implies payload_type(all[i])
                != #[trigger] payload_type(all[j]) by {
            if j == all.len() - 1 && payload_type(all[i]) == payload_type(all[j]) {
                assert(all[i] == cs[i]);
                assert(payload_type(cs[i]) == Some(payload_type(c)->Some_0));
                assert(wraps_type(cs, payload_type(c)->Some_0));
            }
            if j < all.len() - 1 {
                assert(all[i] == cs[i] && all[j] == cs[j]);
            }
        }
    }
}

/// The views of classified variants.
pub open spec fn variants_view(vs: Seq<EnumVariant>) -> Seq<VariantModel> {
    vs.map_values(|v: EnumVariant| v@)
}

fn wraps(cs: &Vec<EnumVariant>, ty: &String) -> (r: bool)
    ensures
        r == wraps_type(variants_view(cs@), ty@),
{
    let mut k: usize = 0;
    while k < cs.len()
        invariant
            k <= cs@.len(),
            forall|j: int| 0 <= j < k ==> payload_type(#[trigger] variants_view(cs@)[j]) != Some(ty@),
        decreases cs@.len() - k,
    {
        if let EnumVariant::SingleType { ty: t, .. } = &cs[k] {
            if *t == *ty {
                assert(payload_type(variants_view(cs@)[k as int]) == Some(ty@));
                return true;
            }
        }
        k = k + 1;
    }
    false
}

proof fn lemma_classify_prefix_error(vs: Seq<Variant>, verdicts: Seq<Seq<bool>>, i: int, j: int)
    requires
        0 <= i <= j <= vs.len(),
        classify_all(vs.subrange(0, i), verdicts) is Err,
    ensures
        classify_all(vs.subrange(0, j), verdicts) == classify_all(vs.subrange(0, i), verdicts),
    decreases j - i,
{
    if j > i {
        lemma_classify_prefix_error(vs, verdicts, i, j - 1);
        assert(vs.subrange(0, j).drop_last() =~= vs.subrange(0, j - 1));
    }
}

fn classify_variants(vs: &Vec<Variant>, verdicts: &Vec<Vec<bool>>) -> (r: Result<Vec<EnumVariant>, GenerateError>)
    ensures
        match r {
            Ok(cs) => classify_all(vs@, verdicts_view(verdicts@)) == Ok::<_, Failure>(variants_view(cs@)),
            Err(e) => classify_all(vs@, verdicts_view(verdicts@)) == Err::<Seq<VariantModel>, _>(e@),
        },
{
    let ghost vd = verdicts_view(verdicts@);
    let none: Vec<bool> = Vec::new();
    let mut out: Vec<EnumVariant> = Vec::new();
    let mut i: usize = 0;
    assert(vs@.subrange(0, 0) =~= Seq::<Variant>::empty());
    assert(variants_view(out@) =~= Seq::empty());
    while i < vs.len()
        invariant
            i <= vs@.len(),
            vd == verdicts_view(verdicts@),
            none@ == Seq::<bool>::empty(),
            classify_all(vs@.subrange(0, i as int), vd) == Ok::<_, Failure>(variants_view(out@)),
        decreases vs@.len() - i,
    {
        assert(vs@.subrange(0, i + 1).drop_last() =~= vs@.subrange(0, i as int));
        let mine = if i < verdicts.len() { &verdicts[i] } else { &none };
        assert(mine@ == verdicts_for(vd, i as int));
        let c = match EnumVariant::classify_with(&vs[i], mine) {
            Ok(c) => c,
            Err(e) => {
                proof {
                    lemma_classify_prefix_error(vs@, vd, i + 1, vs@.len() as int);
                    assert(vs@.subrange(0, vs@.len() as int) =~= vs@);
                }
                return Err(e);
            },
        };
        let duplicate = match &c {
            EnumVariant::SingleType { ty, .. } => wraps(&out, ty),
            _ => false,
        };
        if duplicate {
            proof {
                lemma_classify_prefix_error(vs@, vd, i + 1, vs@.len() as int);
                assert(vs@.subrange(0, vs@.len() as int) =~= vs@);
            }
            return Err(GenerateError::DuplicatePayloadType { variant: vs[i].ident.clone() });
        }
        let ghost before = out@;
        out.push(c);
        assert(variants_view(out@) =~= variants_view(before).push(out@.last()@));
        i = i + 1;
    }
    assert(vs@.subrange(0, vs@.len() as int) =~= vs@);
    Ok(out)
}

/// What generation for an enum resolves, given the verdicts on the
/// transforms of each variant: the type-level template and the classified
/// variants. Only an enum with at least one variant is accepted.
pub open spec fn enum_resolution(input: DeriveInput, verdicts: Seq<Seq<bool>>) -> Result<
    (Option<Seq<char>>, Seq<VariantModel>),
    Failure,
> {
    match input.data {
        Data::Enum(vs) => if vs@.len() == 0 {
            Err(Failure::UnsupportedShape { item: input.ident@ })
        } else {
            match optional_annotation(input.attrs@, format_key(), input.ident@) {
                Err(e) => Err(e),
                Ok(format) => match classify_all(vs@, verdicts) {
                    Err(e) => Err(e),
                    Ok(cs) => Ok((format, cs)),
                },
            }
        },
        _ => Err(Failure::UnsupportedShape { item: input.ident@ }),
    }
}

/// An enum ready for code generation.
pub struct EnumError {
    pub ident: String,
    /// The type-level template, fed the variant's rendered text.
    pub format: Option<String>,
    pub generics: Generics,
    pub variants: Vec<EnumVariant>,
}

/// The parser's verdicts on the transforms of a variant, in the positions
/// that [classify] reads them from.
fn variant_verdicts(variant: &Variant) -> Vec<bool> {
    let mut out: Vec<bool> = Vec::new();
    match &variant.fields {
        Fields::Named(fs) => {
            let mut i: usize = 0;
            while i < fs.len()
                decreases fs@.len() - i,
            {
                out.push(display_verdict(fs[i].attrs.as_slice()));
                i = i + 1;
            }
        },
        Fields::Unnamed(fs) => {
            if fs.len() == 1 {
                out.push(display_verdict(variant.attrs.as_slice()));
            } else {
                let mut i: usize = 0;
                while i < fs.len()
                    decreases fs@.len() - i,
                {
                    out.push(display_verdict(fs[i].attrs.as_slice()));
                    i = i + 1;
                }
            }
        },
        Fields::Unit => out.push(display_verdict(variant.attrs.as_slice())),
    }
    out
}

impl EnumVariant {
    /// Classifies a variant, asking the parser whether each `display`
    /// transform is an expression. The result is [classify] under the verdicts
    /// that came back, whatever they were.
    pub fn from_variant(variant: &Variant) -> (r: Result<EnumVariant, GenerateError>)
        ensures
            exists|verdicts: Seq<bool>|
                match r {
                    Ok(c) => #[trigger] classify(*variant, verdicts) == Ok::<VariantModel, Failure>(c@),
                    Err(e) => classify(*variant, verdicts) == Err::<VariantModel, Failure>(e@),
                },
    {
        let verdicts = variant_verdicts(variant);
        let r = EnumVariant::classify_with(variant, &verdicts);
        assert(match r {
            Ok(c) => classify(*variant, verdicts@) == Ok::<VariantModel, Failure>(c@),
            Err(e) => classify(*variant, verdicts@) == Err::<VariantModel, Failure>(e@),
        });
        r
    }
}

impl EnumError {
    /// Resolves and checks an enum declaration, given the verdicts on the
    /// transforms of each variant; the first problem found, in declaration
    /// order, is returned.
    pub fn from_input_with(input: &DeriveInput, verdicts: &Vec<Vec<bool>>) -> (r: Result<EnumError, GenerateError>)
        ensures
            match r {
                Ok(e) => {
                    &&& enum_resolution(*input, verdicts_view(verdicts@)) == Ok::<_, Failure>(
                        (opt_view(e.format), variants_view(e.variants@)),
                    )
                    &&& e.ident@ == input.ident@
                    &&& e.generics == input.generics
                    &&& e.variants@.len() > 0
                    &&& distinct_payloads(variants_view(e.variants@))
                },
                Err(e) => enum_resolution(*input, verdicts_view(verdicts@)) == Err::<
                    (Option<Seq<char>>, Seq<VariantModel>),
                    _,
                >(e@),
            },
            input.data matches Data::Enum(vs) && vs@.len() == 0 ==> r matches Err(
                GenerateError::UnsupportedShape { .. },
            ),
    {
        let vs = match &input.data {
            Data::Enum(vs) => vs,
            _ => return Err(GenerateError::UnsupportedShape { item: input.ident.clone() }),
        };
        if vs.len() == 0 {
            return Err(GenerateError::UnsupportedShape { item: input.ident.clone() });
        }
        let format = match get_format(input.attrs.as_slice(), &input.ident) {
            Ok(f) => f,
            Err(e) => return Err(e),
        };
        let variants = match classify_variants(vs, verdicts) {
            Ok(cs) => cs,
            Err(e) => return Err(e),
        };
        proof {
            lemma_classified_distinct(vs@, verdicts_view(verdicts@));
        }
        Ok(EnumError { ident: input.ident.clone(), format, generics: input.generics.duplicate(), variants })
    }

    /// Resolves and checks an enum declaration, asking the parser whether each
    /// `display` transform is an expression. The result is [enum_resolution]
    /// under the verdicts that came back, whatever they were.
    pub fn from_input(input: &DeriveInput) -> (r: Result<EnumError, GenerateError>)
        ensures
            exists|verdicts: Seq<Seq<bool>>|
                match r {
                    Ok(e) => {
                        &&& #[trigger] enum_resolution(*input, verdicts) == Ok::<_, Failure>(
                            (opt_view(e.format), variants_view(e.variants@)),
                        )
                        &&& e.ident@ == input.ident@
                        &&& e.generics == input.generics
                        &&& e.variants@.len() > 0
                        &&& distinct_payloads(variants_view(e.variants@))
                    },
                    Err(e) => enum_resolution(*input, verdicts) == Err::<
                        (Option<Seq<char>>, Seq<VariantModel>),
                        _,
                    >(e@),
                },
            input.data matches Data::Enum(vs) && vs@.len() == 0 ==> r matches Err(
                GenerateError::UnsupportedShape { .. },
            ),
    {
        let mut verdicts: Vec<Vec<bool>> = Vec::new();
        if let Data::Enum(vs) = &input.data {
            let mut i: usize = 0;
            while i < vs.len()
                decreases vs@.len() - i,
            {
                verdicts.push(variant_verdicts(&vs[i]));
                i = i + 1;
            }
        }
        let r = EnumError::from_input_with(input, &verdicts);
        let ghost vd = verdicts_view(verdicts@);
        assert(match r {
            Ok(e) => {
                &&& enum_resolution(*input, vd) == Ok::<_, Failure>(
                    (opt_view(e.format), variants_view(e.variants@)),
                )
                &&& e.ident@ == input.ident@
                &&& e.generics == input.generics
                &&& e.variants@.len() > 0
                &&& distinct_payloads(variants_view(e.variants@))
            },
            Err(e) => enum_resolution(*input, vd) == Err::<(Option<Seq<char>>, Seq<VariantModel>), _>(e@),
        });
        r
    }
}

/// The template used when none is given: the value itself.
pub open spec fn default_template() -> Seq<char> {
    "{}"@
}

/// A template, or the default one.
pub open spec fn template_or_default(format: Option<Seq<char>>) -> Seq<char> {
    match format {
        Some(f) => f,
        None => default_template(),
    }
}

/// The name bound to the payload at `i` of a variant with several unnamed fields.
pub open spec fn arg_name(i: nat) -> Seq<char> {
    "arg_"@ + decimal(i)
}

/// A statement that rebinds `name` through its transform, if it has one.
pub open spec fn rebinding(display: Option<Seq<char>>, name: Seq<char>) -> Seq<char> {
    match display {
        Some(d) => "let "@ + name + " = "@ + display_text(Some(d), name) + "; "@,
        None => Seq::empty(),
    }
}

/// The field names of a struct-like pattern, each followed by a comma.
pub open spec fn field_patterns(fields: Seq<(Option<Seq<char>>, Seq<char>)>) -> Seq<char>
    decreases fields.len(),
{
    if fields.len() == 0 {
        Seq::empty()
    } else {
        field_patterns(fields.drop_last()) + fields.last().1 + ", "@
    }
}

/// The rebindings of the named fields that have a transform.
pub open spec fn field_rebindings(fields: Seq<(Option<Seq<char>>, Seq<char>)>) -> Seq<char>
    decreases fields.len(),
{
    if fields.len() == 0 {
        Seq::empty()
    } else {
        field_rebindings(fields.drop_last()) + rebinding(fields.last().0, fields.last().1)
    }
}

/// The names `arg_0, arg_1, ...` of the first `n` positions, each followed by a comma.
pub open spec fn arg_patterns(n: nat) -> Seq<char>
    decreases n,
{
    if n == 0 {
        Seq::empty()
    } else {
        arg_patterns((n - 1) as nat) + arg_name((n - 1) as nat) + ", "@
    }
}

/// The rebindings of the positions that have a transform.
pub open spec fn arg_rebindings(displays: Seq<Option<Seq<char>>>) -> Seq<char>
    decreases displays.len(),
{
    if displays.len() == 0 {
        Seq::empty()
    } else {
        arg_rebindings(displays.drop_last()) + rebinding(
            displays.last(),
            arg_name((displays.len() - 1) as nat),
        )
    }
}

/// The match arm that renders one variant.
pub open spec fn arm_text(c: VariantModel) -> Seq<char> {
    match c {
        VariantModel::AnonymousStruct { ident, fields, format } => "Self::"@ + ident + " { "@
            + field_patterns(fields) + "} => { "@ + field_rebindings(fields) + "format!("@
            + string_literal(format) + ") }, "@,
        VariantModel::Discriminant { discriminant, format, display, ident } => "Self::"@ + ident
            + " => format!("@ + string_literal(template_or_default(format)) + ", "@ + display_text(
            display,
            discriminant,
        ) + "), "@,
        VariantModel::SingleType { ident, display, format, .. } => "Self::"@ + ident
            + "(error) => format!("@ + string_literal(template_or_default(format)) + ", "@
            + display_text(display, "error"@) + "), "@,
        VariantModel::Tuple { ident, format, displays } => "Self::"@ + ident + "("@ + arg_patterns(
            displays.len(),
        ) + ") => { "@ + arg_rebindings(displays) + "format!("@ + string_literal(format)
            + ") }, "@,
        VariantModel::Unit { ident, format } => "Self::"@ + ident + " => format!("@
            + string_literal(format) + "), "@,
    }
}

fn append_field_patterns(out: &mut String, fields: &Vec<(Option<String>, String)>)
    ensures
        final(out)@ == old(out)@ + field_patterns(fields_view(fields@)),
{
    let ghost start = out@;
    let mut i: usize = 0;
    while i < fields.len()
        invariant
            i <= fields@.len(),
            out@ == start + field_patterns(fields_view(fields@.subrange(0, i as int))),
        decreases fields@.len() - i,
    {
        assert(fields_view(fields@.subrange(0, i + 1)).drop_last() =~= fields_view(fields@.subrange(0, i as int)));
        out.append(fields[i].1.as_str());
        out.append(", ");
        i = i + 1;
    }
    assert(fields@.subrange(0, fields@.len() as int) =~= fields@);
}

fn append_field_rebindings(out: &mut String, fields: &Vec<(Option<String>, String)>)
    ensures
        final(out)@ == old(out)@ + field_rebindings(fields_view(fields@)),
{
    let ghost start = out@;
    let mut i: usize = 0;
    while i < fields.len()
        invariant
            i <= fields@.len(),
            out@ == start + field_rebindings(fields_view(fields@.subrange(0, i as int))),
        decreases fields@.len() - i,
    {
        assert(fields_view(fields@.subrange(0, i + 1)).drop_last() =~= fields_view(fields@.subrange(0, i as int)));
        let (display, name) = &fields[i];
        append_rebinding(out, display, name.as_str());
        i = i + 1;
    }
    assert(fields@.subrange(0, fields@.len() as int) =~= fields@);
}

pub(crate) fn append_rebinding(out: &mut String, display: &Option<String>, name: &str)
    ensures
        final(out)@ == old(out)@ + rebinding(opt_view(*display), name@),
{
    if display.is_some() {
        out.append("let ");
        out.append(name);
        out.append(" = ");
        let shown = display_field(display, name);
        out.append(shown.as_str());
        out.append("; ");
    }
}

fn append_arg_patterns(out: &mut String, n: usize)
    ensures
        final(out)@ == old(out)@ + arg_patterns(n as nat),
{
    let ghost start = out@;
    let mut i: usize = 0;
    while i < n
        invariant
            i <= n,
            out@ == start + arg_patterns(i as nat),
        decreases n - i,
    {
        out.append("arg_");
        let digits = decimal_string(i);
        out.append(digits.as_str());
        out.append(", ");
        i = i + 1;
    }
}

fn append_arg_rebindings(out: &mut String, displays: &Vec<Option<String>>)
    ensures
        final(out)@ == old(out)@ + arg_rebindings(displays_view(displays@)),
{
    let ghost start = out@;
    let mut i: usize = 0;
    while i < displays.len()
        invariant
            i <= displays@.len(),
            out@ == start + arg_rebindings(displays_view(displays@.subrange(0, i as int))),
        decreases displays@.len() - i,
    {
        assert(displays_view(displays@.subrange(0, i + 1)).drop_last() =~= displays_view(displays@.subrange(0, i as int)));
        let mut name = String::from_str("arg_");
        let digits = decimal_string(i);
        name.append(digits.as_str());
        append_rebinding(out, &displays[i], name.as_str());
        i = i + 1;
    }
    assert(displays@.subrange(0, displays@.len() as int) =~= displays@);
}

fn quote_template(format: &Option<String>) -> (r: String)
    ensures
        r@ == string_literal(template_or_default(opt_view(*format))),
{
    match format {
        Some(f) => quote_str(f.as_str()),
        None => quote_str("{}"),
    }
}

impl EnumVariant {
    /// Emits the match arm that renders this variant.
    pub fn to_display_match_arm(&self) -> (r: String)
        ensures
            r@ == arm_text(self@),
    {
        let mut out = String::from_str("Self::");
        match self {
            EnumVariant::AnonymousStruct { ident, fields, format } => {
                out.append(ident.as_str());
                out.append(" { ");
                append_field_patterns(&mut out, fields);
                out.append("} => { ");
                append_field_rebindings(&mut out, fields);
                out.append("format!(");
                let lit = quote_str(format.as_str());
                out.append(lit.as_str());
                out.append(") }, ");
            },
            EnumVariant::Discriminant { discriminant, format, display, ident } => {
                out.append(ident.as_str());
                out.append(" => format!(");
                let lit = quote_template(format);
                out.append(lit.as_str());
                out.append(", ");
                let shown = display_field(display, discriminant.as_str());
                out.append(shown.as_str());
                out.append("), ");
            },
            EnumVariant::SingleType { ident, display, format, .. } => {
                out.append(ident.as_str());
                out.append("(error) => format!(");
                let lit = quote_template(format);
                out.append(lit.as_str());
                out.append(", ");
                let shown = display_field(display, "error");
                out.append(shown.as_str());
                out.append("), ");
            },
            EnumVariant::Tuple { ident, format, displays } => {
                out.append(ident.as_str());
                out.append("(");
                append_arg_patterns(&mut out, displays.len());
                out.append(") => { ");
                append_arg_rebindings(&mut out, displays);
                out.append("format!(");
                let lit = quote_str(format.as_str());
                out.append(lit.as_str());
                out.append(") }, ");
            },
            EnumVariant::Unit { ident, format } => {
                out.append(ident.as_str());
                out.append(" => format!(");
                let lit = quote_str(format.as_str());
                out.append(lit.as_str());
                out.append("), ");
            },
        }
        out
    }
}

/// The `impl` header words between `impl` and the body: generics, the trait
/// `tr`, the type and its where clause.
pub open spec fn impl_header(tr: Seq<char>, onto: Seq<char>, g: Generics) -> Seq<char> {
    "#[automatically_derived] impl"@ + g.impl_generics@ + " "@ + tr + " for "@ + onto
        + g.ty_generics@ + " "@ + g.where_clause@
}

/// The conversion emitted for a variant: only a single payload without its
/// own template gets one.
pub open spec fn from_impl_text(c: VariantModel, onto: Seq<char>, g: Generics) -> Option<Seq<char>> {
    match c {
        VariantModel::SingleType { ident, format: None, ty, .. } => Some(
            impl_header("From<"@ + ty + ">"@, onto, g) + " { fn from(error: "@ + ty
                + ") -> Self { Self::"@ + ident + "(error) } } "@,
        ),
        _ => None,
    }
}

/// The match arms of all variants, in order.
pub open spec fn arms_text(cs: Seq<VariantModel>) -> Seq<char>
    decreases cs.len(),
{
    if cs.len() == 0 {
        Seq::empty()
    } else {
        arms_text(cs.drop_last()) + arm_text(cs.last())
    }
}

/// The conversions of all variants that get one, in order.
pub open spec fn from_impls_text(cs: Seq<VariantModel>, onto: Seq<char>, g: Generics) -> Seq<char>
    decreases cs.len(),
{
    if cs.len() == 0 {
        Seq::empty()
    } else {
        from_impls_text(cs.drop_last(), onto, g) + match from_impl_text(cs.last(), onto, g) {
            Some(t) => t,
            None => Seq::empty(),
        }
    }
}

/// The `Display` implementation of an enum: the matched variant's text is fed
/// to the type-level template, or shown as it is.
pub open spec fn enum_display_text(
    ident: Seq<char>,
    g: Generics,
    format: Option<Seq<char>>,
    cs: Seq<VariantModel>,
) -> Seq<char> {
    impl_header("std::fmt::Display"@, ident, g)
        + " { fn fmt(&self, f: &mut std::fmt::Formatter<'_>) -> std::fmt::Result { write!(f, "@
        + string_literal(template_or_default(format)) + ", match self { "@ + arms_text(cs)
        + "}) } } "@
}

pub(crate) fn append_impl_header(out: &mut String, tr: &str, onto: &str, g: &Generics)
    ensures
        final(out)@ == old(out)@ + impl_header(tr@, onto@, *g),
{
    out.append("#[automatically_derived] impl");
    out.append(g.impl_generics.as_str());
    out.append(" ");
    out.append(tr);
    out.append(" for ");
    out.append(onto);
    out.append(g.ty_generics.as_str());
    out.append(" ");
    out.append(g.where_clause.as_str());
}

impl EnumVariant {
    /// Emits `From<payload>` for a single payload without its own template;
    /// every other variant gets none.
    pub fn to_from_impl(&self, onto: &str, generics: &Generics) -> (r: Option<String>)
        ensures
            opt_view(r) == from_impl_text(self@, onto@, *generics),
            r is Some <==> (self is SingleType && self->SingleType_format is None),
    {
        match self {
            EnumVariant::SingleType { ident, format: None, ty, .. } => {
                let mut tr = String::from_str("From<");
                tr.append(ty.as_str());
                tr.append(">");
                let mut out = String::new();
                append_impl_header(&mut out, tr.as_str(), onto, generics);
                out.append(" { fn from(error: ");
                out.append(ty.as_str());
                out.append(") -> Self { Self::");
                out.append(ident.as_str());
                out.append("(error) } } ");
                Some(out)
            },
            _ => None,
        }
    }
}

impl EnumError {
    /// Emits the `Display` implementation.
    pub fn to_display_impl(&self) -> (r: String)
        ensures
            r@ == enum_display_text(self.ident@, self.generics, opt_view(self.format), variants_view(self.variants@)),
    {
        let mut out = String::new();
        append_impl_header(&mut out, "std::fmt::Display", self.ident.as_str(), &self.generics);
        out.append(" { fn fmt(&self, f: &mut std::fmt::Formatter<'_>) -> std::fmt::Result { write!(f, ");
        let lit = quote_template(&self.format);
        out.append(lit.as_str());
        out.append(", match self { ");
        let ghost start = out@;
        let mut i: usize = 0;
        while i < self.variants.len()
            invariant
                i <= self.variants@.len(),
                out@ == start + arms_text(variants_view(self.variants@.subrange(0, i as int))),
            decreases self.variants@.len() - i,
        {
            assert(variants_view(self.variants@.subrange(0, i + 1)).drop_last() =~= variants_view(self.variants@.subrange(0, i as int)));
            let arm = self.variants[i].to_display_match_arm();
            out.append(arm.as_str());
            i = i + 1;
        }
        assert(self.variants@.subrange(0, self.variants@.len() as int) =~= self.variants@);
        out.append("}) } } ");
        out
    }

    /// Emits the `From` implementations of the variants that get one.
    pub fn to_from_impls(&self) -> (r: String)
        ensures
            r@ == from_impls_text(variants_view(self.variants@), self.ident@, self.generics),
    {
        let mut out = String::new();
        let mut i: usize = 0;
        while i < self.variants.len()
            invariant
                i <= self.variants@.len(),
                out@ == from_impls_text(variants_view(self.variants@.subrange(0, i as int)), self.ident@, self.generics),
            decreases self.variants@.len() - i,
        {
            assert(variants_view(self.variants@.subrange(0, i + 1)).drop_last() =~= variants_view(self.variants@.subrange(0, i as int)));
            match self.variants[i].to_from_impl(self.ident.as_str(), &self.generics) {
                Some(t) => out.append(t.as_str()),
                None => {},
            }
            i = i + 1;
        }
        assert(self.variants@.subrange(0, self.variants@.len() as int) =~= self.variants@);
        out
    }

    /// Emits everything generated for the enum: `Display`, then the conversions.
    pub fn to_source(&self) -> (r: String)
        ensures
            r@ == enum_display_text(self.ident@, self.generics, opt_view(self.format), variants_view(self.variants@))
                + from_impls_text(variants_view(self.variants@), self.ident@, self.generics),
    {
        let display = self.to_display_impl();
        let froms = self.to_from_impls();
        display.concat(froms.as_str())
    }
}

/// The classification of variant `k` under its verdicts.
pub open spec fn classified(vs: Seq<Variant>, verdicts: Seq<Seq<bool>>, k: int) -> Result<VariantModel, Failure> {
    classify(vs[k], verdicts_for(verdicts, k))
}

/// Whether the variants at `i` and `j` are both well formed single payloads
/// of one type.
pub open spec fn same_payload(vs: Seq<Variant>, verdicts: Seq<Seq<bool>>, i: int, j: int) -> bool {
    &&& classified(vs, verdicts, i) is Ok
    &&& classified(vs, verdicts, j) is Ok
    &&& payload_type(classified(vs, verdicts, i)->Ok_0) is Some
    &&& payload_type(classified(vs, verdicts, i)->Ok_0) == payload_type(classified(vs, verdicts, j)->Ok_0)
}

proof fn lemma_distinct_payloads_classify(vs: Seq<Variant>, vd: Seq<Seq<bool>>)
    requires
        forall|k: int| 0 <= k < vs.len() ==> (#[trigger] classified(vs, vd, k)) is Ok,
        forall|i: int, j: int| 0 <= i < j < vs.len() ==> !same_payload(vs, vd, i, j),
    ensures
        classify_all(vs, vd) == Ok::<_, Failure>(Seq::new(vs.len(), |k: int| classified(vs, vd, k)->Ok_0)),
    decreases vs.len(),
{
    if vs.len() > 0 {
        let prev = vs.drop_last();
        assert forall|k: int| 0 <= k < prev.len() implies (#[trigger] classified(prev, vd, k)) is Ok by {
            assert(prev[k] == vs[k]);
            assert(classified(vs, vd, k) is Ok);
        }
        assert forall|i: int, j: int| 0 <= i < j < prev.len() implies !same_payload(prev, vd, i, j) by {
            assert(prev[i] == vs[i] && prev[j] == vs[j]);
            assert(!same_payload(vs, vd, i, j));
        }
        lemma_distinct_payloads_classify(prev, vd);
        let cs = Seq::new(prev.len(), |k: int| classified(prev, vd, k)->Ok_0);
        let last = vs.len() - 1;
        assert(classified(vs, vd, last) is Ok);
        let c = classified(vs, vd, last)->Ok_0;
        if let Some(t) = payload_type(c) {
            if wraps_type(cs, t) {
                let k = choose|k: int| 0 <= k < cs.len() && payload_type(#[trigger] cs[k]) == Some(t);
                assert(prev[k] == vs[k]);
                assert(same_payload(vs, vd, k, last));
            }
        }
        assert forall|k: int| 0 <= k < prev.len() implies classified(prev, vd, k) == classified(vs, vd, k) by {
            assert(prev[k] == vs[k]);
        }
        assert(cs.push(c) =~= Seq::new(vs.len(), |k: int| classified(vs, vd, k)->Ok_0));
    } else {
        assert(Seq::<VariantModel>::empty() =~= Seq::new(vs.len(), |k: int| classified(vs, vd, k)->Ok_0));
    }
}

proof fn lemma_repeated_payload_fails(vs: Seq<Variant>, vd: Seq<Seq<bool>>)
    requires
        forall|k: int| 0 <= k < vs.len() ==> (#[trigger] classified(vs, vd, k)) is Ok,
        exists|i: int, j: int| 0 <= i < j < vs.len() && same_payload(vs, vd, i, j),
    ensures
        exists|i: int, j: int|
            0 <= i < j < vs.len() && same_payload(vs, vd, i, j) && classify_all(vs, vd) == Err::<
                Seq<VariantModel>,
                Failure,
            >(Failure::DuplicatePayloadType { variant: vs[j].ident@ }),
    decreases vs.len(),
{
    let prev = vs.drop_last();
    let last = vs.len() - 1;
    assert forall|k: int| 0 <= k < prev.len() implies (#[trigger] classified(prev, vd, k)) is Ok by {
        assert(prev[k] == vs[k]);
        assert(classified(vs, vd, k) is Ok);
    }
    if exists|i: int, j: int| 0 <= i < j < prev.len() && same_payload(prev, vd, i, j) {
        lemma_repeated_payload_fails(prev, vd);
        let (i, j) = choose|i: int, j: int|
            0 <= i < j < prev.len() && same_payload(prev, vd, i, j) && classify_all(prev, vd) == Err::<
                Seq<VariantModel>,
                Failure,
            >(Failure::DuplicatePayloadType { variant: prev[j].ident@ });
        assert(prev[i] == vs[i] && prev[j] == vs[j]);
        assert(same_payload(vs, vd, i, j));
    } else {
        lemma_distinct_payloads_classify(prev, vd);
        let cs = Seq::new(prev.len(), |k: int| classified(prev, vd, k)->Ok_0);
        let (i, j) = choose|i: int, j: int| 0 <= i < j < vs.len() && same_payload(vs, vd, i, j);
        if j < last {
            assert(prev[i] == vs[i] && prev[j] == vs[j]);
            assert(same_payload(prev, vd, i, j));
        }
        assert(j == last);
        assert(prev[i] == vs[i]);
        let t = payload_type(classified(vs, vd, i)->Ok_0)->Some_0;
        assert(payload_type(cs[i]) == Some(t));
        assert(wraps_type(cs, t));
        assert(classified(vs, vd, last) is Ok);
        assert(same_payload(vs, vd, i, last));
    }
}

/// Two well formed single-payload variants that wrap one type make generation
/// fail, and the variant named is one whose type an earlier variant already
/// wraps: a later occurrence, never the first. This holds whatever the
/// verdicts on the transforms, as long as they leave every variant, and the
/// type-level annotation, well formed on its own.
pub proof fn lemma_duplicate_payload_names_later_variant(input: DeriveInput, verdicts: Seq<Seq<bool>>)
    requires
        input.data is Enum,
        optional_annotation(input.attrs@, format_key(), input.ident@) is Ok,
        forall|k: int|
            0 <= k < input.data->Enum_0@.len() ==> (#[trigger] classified(input.data->Enum_0@, verdicts, k)) is Ok,
        exists|i: int, j: int|
            0 <= i < j < input.data->Enum_0@.len() && same_payload(input.data->Enum_0@, verdicts, i, j),
    ensures
        exists|i: int, j: int|
            0 <= i < j < input.data->Enum_0@.len() && same_payload(input.data->Enum_0@, verdicts, i, j)
                && enum_resolution(input, verdicts) == Err::<(Option<Seq<char>>, Seq<VariantModel>), Failure>(
                Failure::DuplicatePayloadType { variant: input.data->Enum_0@[j].ident@ },
            ),
{
    let vs = input.data->Enum_0@;
    lemma_repeated_payload_fails(vs, verdicts);
    let (i, j) = choose|i: int, j: int|
        0 <= i < j < vs.len() && same_payload(vs, verdicts, i, j) && classify_all(vs, verdicts) == Err::<
            Seq<VariantModel>,
            Failure,
        >(Failure::DuplicatePayloadType { variant: vs[j].ident@ });
    assert(same_payload(vs, verdicts, i, j));
}

/// An enum without variants is refused, whatever its annotations and the
/// verdicts.
pub proof fn lemma_empty_enum_refused(input: DeriveInput, verdicts: Seq<Seq<bool>>)
    requires
        input.data matches Data::Enum(vs) && vs@.len() == 0,
    ensures
        enum_resolution(input, verdicts) == Err::<(Option<Seq<char>>, Seq<VariantModel>), Failure>(
            Failure::UnsupportedShape { item: input.ident@ },
        ),
{
}

/// The arm of a single payload with neither template nor transform is
/// `Self::V(error) => format!("{}", error)`: it shows the payload through the
/// payload's own `Display`, unchanged.
pub proof fn lemma_plain_payload_arm(c: VariantModel)
    requires
        c matches VariantModel::SingleType { format: None, display: None, .. },
    ensures
        arm_text(c) == "Self::"@ + c->SingleType_ident + "(error) => format!("@ + seq!['"', '{', '}', '"']
            + ", "@ + "error"@ + "), "@,
{
    reveal_strlit("{}");
    let t = default_template();
    assert(t =~= seq!['{', '}']);
    assert(t.drop_last() =~= seq!['{']);
    assert(t.drop_last().drop_last() =~= Seq::<char>::empty());
    assert(escaped(t.drop_last().drop_last()) == Seq::<char>::empty());
    assert(escape_char('{') =~= seq!['{']);
    assert(escape_char('}') =~= seq!['}']);
    assert(escaped(t.drop_last()) =~= seq!['{']);
    assert(escaped(t) =~= seq!['{', '}']);
    assert(string_literal(t) =~= seq!['"', '{', '}', '"']);
}

} // verus!
