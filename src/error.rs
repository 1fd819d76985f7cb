//! The errors that stop code generation.
use vstd::prelude::*;

verus! {

/// Why code generation for a declaration failed. Every error names the item
/// (type, variant or field) it was found on.
pub enum GenerateError {
    /// A required annotation is absent.
    MissingAnnotation { annotation: String, item: String },
    /// An annotation is present but is not `name = "string literal"`.
    WrongAnnotationKind { annotation: String, item: String },
    /// A second single-payload variant wraps a type that an earlier one wraps.
    DuplicatePayloadType { variant: String },
    /// The declaration's shape is not one this generator handles.
    UnsupportedShape { item: String },
    /// A `display` annotation's text does not parse as an expression.
    MalformedOverrideExpression { item: String, expression: String },
}

/// The mathematical value of a [GenerateError].
pub enum Failure {
    MissingAnnotation { annotation: Seq<char>, item: Seq<char> },
    WrongAnnotationKind { annotation: Seq<char>, item: Seq<char> },
    DuplicatePayloadType { variant: Seq<char> },
    UnsupportedShape { item: Seq<char> },
    MalformedOverrideExpression { item: Seq<char>, expression: Seq<char> },
}

impl View for GenerateError {
    type V = Failure;

    open spec fn view(&self) -> Failure {
        match self {
            GenerateError::MissingAnnotation { annotation, item } => Failure::MissingAnnotation {
                annotation: annotation@,
                item: item@,
            },
            GenerateError::WrongAnnotationKind { annotation, item } => Failure::WrongAnnotationKind {
                annotation: annotation@,
                item: item@,
            },
            GenerateError::DuplicatePayloadType { variant } => Failure::DuplicatePayloadType {
                variant: variant@,
            },
            GenerateError::UnsupportedShape { item } => Failure::UnsupportedShape { item: item@ },
            GenerateError::MalformedOverrideExpression { item, expression } =>
                Failure::MalformedOverrideExpression { item: item@, expression: expression@ },
        }
    }
}

impl GenerateError {
    /// The message shown to the user; it names the offending item.
    pub fn message(&self) -> (r: String)
        ensures
            r@ == match self {
                GenerateError::MissingAnnotation { annotation, item } =>
                    "failed to get required attribute `"@ + annotation@ + "` for `"@ + item@ + "`"@,
                GenerateError::WrongAnnotationKind { annotation, item } => "attribute `"@
                    + annotation@ + "` of `"@ + item@ + "` only accepts a string literal"@,
                GenerateError::DuplicatePayloadType { variant } => "variant `"@ + variant@
                    + "` wraps the same type as an earlier variant"@,
                GenerateError::UnsupportedShape { item } => "`"@ + item@
                    + "` has no shape that code can be generated for"@,
                GenerateError::MalformedOverrideExpression { item, expression } =>
                    "attribute `display` of `"@ + item@ + "` is not an expression: "@ + expression@,
            },
    {
        match self {
            GenerateError::MissingAnnotation { annotation, item } => {
                let mut out = String::from_str("failed to get required attribute `");
                out.append(annotation.as_str());
                out.append("` for `");
                out.append(item.as_str());
                out.append("`");
                out
            },
            GenerateError::WrongAnnotationKind { annotation, item } => {
                let mut out = String::from_str("attribute `");
                out.append(annotation.as_str());
                out.append("` of `");
                out.append(item.as_str());
                out.append("` only accepts a string literal");
                out
            },
            GenerateError::DuplicatePayloadType { variant } => {
                let mut out = String::from_str("variant `");
                out.append(variant.as_str());
                out.append("` wraps the same type as an earlier variant");
                out
            },
            GenerateError::UnsupportedShape { item } => {
                let mut out = String::from_str("`");
                out.append(item.as_str());
                out.append("` has no shape that code can be generated for");
                out
            },
            GenerateError::MalformedOverrideExpression { item, expression } => {
                let mut out = String::from_str("attribute `display` of `");
                out.append(item.as_str());
                out.append("` is not an expression: ");
                out.append(expression.as_str());
                out
            },
        }
    }

    /// A suggested fix, where there is one.
    pub fn help(&self) -> (r: Option<String>)
        ensures
            match self {
                GenerateError::MissingAnnotation { annotation, .. } => r matches Some(h) && h@
                    == "add `#["@ + annotation@ + " = \"...\"]`"@,
                GenerateError::UnsupportedShape { .. } => r matches Some(h) && h@
                    == "remove the derive"@,
                _ => r is None,
            },
    {
        match self {
            GenerateError::MissingAnnotation { annotation, .. } => {
                let mut out = String::from_str("add `#[");
                out.append(annotation.as_str());
                out.append(" = \"...\"]`");
                Some(out)
            },
            GenerateError::UnsupportedShape { .. } => Some(String::from_str("remove the derive")),
            _ => None,
        }
    }
}

} // verus!
