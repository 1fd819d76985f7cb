//! The declaration model that code generation reads: a type's name, its
//! generics, its annotations and the shape of its variants or fields.
use vstd::prelude::*;

verus! {

/// The value of a name-value annotation such as `#[format = "..."]`.
pub enum AttrValue {
    /// A string literal, with its escapes already resolved.
    Str(String),
    /// Any other expression or literal, as source text.
    Other(String),
}

/// The argument form of an annotation.
pub enum AttrMeta {
    /// A bare path: `#[name]`.
    Path,
    /// A list: `#[name(...)]`, with the source text inside the delimiters.
    List(String),
    /// A name and a value: `#[name = value]`.
    NameValue(AttrValue),
}

/// One annotation attached to a type, a variant or a field.
pub struct Attribute {
    pub name: String,
    pub meta: AttrMeta,
}

} // verus!

verus! {

/// A field with a name, as in `struct S { x: T }`.
pub struct NamedField {
    pub ident: String,
    /// The field's type, as source text.
    pub ty: String,
    pub attrs: Vec<Attribute>,
}

/// A field without a name, as in `struct S(T)`.
pub struct UnnamedField {
    /// The field's type, as source text.
    pub ty: String,
    pub attrs: Vec<Attribute>,
}

/// The fields of a struct or of an enum variant.
pub enum Fields {
    Named(Vec<NamedField>),
    Unnamed(Vec<UnnamedField>),
    Unit,
}

/// One variant of an enum.
pub struct Variant {
    pub ident: String,
    pub attrs: Vec<Attribute>,
    pub fields: Fields,
    /// The explicit discriminant (`= 404`), as source text.
    pub discriminant: Option<String>,
}

/// A type's generic parameters, already split into the three pieces that an
/// `impl` header needs. They are passed through verbatim.
pub struct Generics {
    /// The parameters after `impl`, such as `<'a, T: Clone>`, or empty.
    pub impl_generics: String,
    /// The arguments after the type's name, such as `<'a, T>`, or empty.
    pub ty_generics: String,
    /// The `where` clause, or empty.
    pub where_clause: String,
}

impl Generics {
    /// A copy of the three pieces.
    pub fn duplicate(&self) -> (r: Generics)
        ensures
            r == *self,
    {
        Generics {
            impl_generics: self.impl_generics.clone(),
            ty_generics: self.ty_generics.clone(),
            where_clause: self.where_clause.clone(),
        }
    }
}

/// The body of a type declaration.
pub enum Data {
    Struct(Fields),
    Enum(Vec<Variant>),
    Union,
}

/// A whole type declaration: the input of every generator.
pub struct DeriveInput {
    pub ident: String,
    pub attrs: Vec<Attribute>,
    pub generics: Generics,
    pub data: Data,
}

} // verus!
