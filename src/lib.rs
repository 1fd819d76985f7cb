//! Generates `Display`, `From` and `std::error::Error` implementations for
//! error types described by a plain declaration model.
pub mod common;
pub mod enum_error;
pub mod error;
pub mod model;
pub mod render;
pub mod struct_error;

use crate::common::opt_view;
use crate::enum_error::{
    append_impl_header, distinct_payloads, enum_display_text, enum_resolution, from_impls_text,
    impl_header, variants_view, EnumError, VariantModel,
};
use crate::error::{Failure, GenerateError};
use crate::model::{Data, DeriveInput};
use crate::struct_error::{struct_display_text, struct_resolution, StructError, StructShape};
use vstd::prelude::*;

verus! {

/// Emits the empty `std::error::Error` implementation of the declared type.
pub fn error(input: &DeriveInput) -> (r: String)
    ensures
        r@ == impl_header("std::error::Error"@, input.ident@, input.generics) + " {}"@,
{
    let mut out = String::new();
    append_impl_header(&mut out, "std::error::Error", input.ident.as_str(), &input.generics);
    out.append(" {}");
    out
}

/// What generation for an enum emits, given the verdicts on its transforms:
/// `Display` and the conversions, or the first problem with the declaration.
pub open spec fn enum_output(input: DeriveInput, verdicts: Seq<Seq<bool>>) -> Result<Seq<char>, Failure> {
    match enum_resolution(input, verdicts) {
        Ok((format, cs)) => Ok(
            enum_display_text(input.ident@, input.generics, format, cs) + from_impls_text(
                cs,
                input.ident@,
                input.generics,
            ),
        ),
        Err(f) => Err(f),
    }
}

/// What generation for a struct emits, given the verdicts on its transforms.
pub open spec fn struct_output(input: DeriveInput, verdicts: Seq<bool>) -> Result<Seq<char>, Failure> {
    match struct_resolution(input, verdicts) {
        Ok((format, shape)) => Ok(struct_display_text(input.ident@, input.generics, format, shape)),
        Err(f) => Err(f),
    }
}

/// The view of a generated text or its error.
pub open spec fn output_view(r: Result<String, GenerateError>) -> Result<Seq<char>, Failure> {
    match r {
        Ok(s) => Ok(s@),
        Err(e) => Err(e@),
    }
}

/// Emits `Display` and the conversions for an enum, or the first problem
/// with its declaration, under the parser's verdicts on its transforms.
pub fn enum_error(input: &DeriveInput) -> (r: Result<String, GenerateError>)
    ensures
        exists|verdicts: Seq<Seq<bool>>| #[trigger] enum_output(*input, verdicts) == output_view(r),
        input.data matches Data::Enum(vs) && vs@.len() == 0 ==> r matches Err(
            GenerateError::UnsupportedShape { .. },
        ),
{
    let r = EnumError::from_input(input);
    let ghost vd = choose|verdicts: Seq<Seq<bool>>|
        match r {
            Ok(e) => {
                &&& #[trigger] enum_resolution(*input, verdicts) == Ok::<_, Failure>(
                    (opt_view(e.format), variants_view(e.variants@)),
                )
                &&& e.ident@ == input.ident@
                &&& e.generics == input.generics
                &&& e.variants@.len() > 0
                &&& distinct_payloads(variants_view(e.variants@))
            },
            Err(e) => enum_resolution(*input, verdicts) == Err::<(Option<Seq<char>>, Seq<VariantModel>), _>(e@),
        };
    let out = match r {
        Ok(e) => Ok(e.to_source()),
        Err(e) => Err(e),
    };
    assert(enum_output(*input, vd) == output_view(out));
    out
}

/// Emits `Display` for a struct, or the first problem with its declaration,
/// under the parser's verdicts on its transforms.
pub fn struct_error(input: &DeriveInput) -> (r: Result<String, GenerateError>)
    ensures
        exists|verdicts: Seq<bool>| #[trigger] struct_output(*input, verdicts) == output_view(r),
{
    let r = StructError::from_input(input);
    let ghost vd = choose|verdicts: Seq<bool>|
        match r {
            Ok(s) => {
                &&& #[trigger] struct_resolution(*input, verdicts) == Ok::<_, Failure>((s.format@, s.variant@))
                &&& s.ident@ == input.ident@
                &&& s.generics == input.generics
            },
            Err(e) => struct_resolution(*input, verdicts) == Err::<(Seq<char>, StructShape), _>(e@),
        };
    let out = match r {
        Ok(s) => Ok(s.to_source()),
        Err(e) => Err(e),
    };
    assert(struct_output(*input, vd) == output_view(out));
    out
}

} // verus!
