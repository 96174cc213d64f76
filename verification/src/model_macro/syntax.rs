//! The parts of a model declaration that the model macros read, held as plain values.
//!
//! The input modules (`front` and `input`) fill these types from the declaration's text;
//! the rules that decide what a declaration means work on them alone.

use vstd::prelude::*;

verus! {

/// A generic argument inside angle brackets.
pub enum GenericArgSyntax {
    /// A type argument.
    Type(TypeSyntax),
    /// A lifetime, a constant, a binding or a constraint.
    Other,
}

/// The arguments written after a path segment.
pub enum PathArgsSyntax {
    /// No arguments.
    Bare,
    /// `<...>`
    AngleBracketed(Vec<GenericArgSyntax>),
    /// `(...) -> ...`
    Parenthesized,
}

/// One segment of a path, with its identifier as written (a raw identifier keeps its
/// `r#`).
pub struct SegmentSyntax {
    pub ident: String,
    pub args: PathArgsSyntax,
}

/// A type as the model rules see it.
pub enum TypeSyntax {
    /// A path type; `qualified` marks a leading `::` or a `<T as Trait>::` prefix.
    Path { qualified: bool, segments: Vec<SegmentSyntax> },
    /// Any other type: references, tuples, arrays, parenthesized types and the like.
    Other,
}

/// An expression written as an option value.
pub enum ExprSyntax {
    /// A path expression.
    Path { qualified: bool, segments: Vec<SegmentSyntax> },
    /// A string literal, by its value.
    Str(String),
    /// A boolean literal.
    Bool(bool),
    /// Any other literal.
    OtherLiteral,
    /// Any other expression.
    Other,
}

/// One option inside a field's `#[seekwel(...)]` attribute.
pub enum FieldOptionSyntax {
    /// `key = <expr>`
    Key(ExprSyntax),
    /// Any other option.
    Unsupported,
}

/// An attribute on a model field.
pub enum FieldAttrSyntax {
    /// `#[key = <expr>]`
    Key(ExprSyntax),
    /// `#[key]` or `#[key(...)]`
    KeyNotNameValue,
    /// `#[seekwel(...)]`
    Seekwel(Vec<FieldOptionSyntax>),
    /// Any other attribute.
    Other,
}

/// A named field of the model struct.
pub struct FieldSyntax {
    pub ident: String,
    pub ty: TypeSyntax,
    /// The type's tokens as written, printed.
    pub ty_text: String,
    /// For a type written `Option<T>` (see [`option_inner`]), the tokens of `T`, printed;
    /// empty for any other type.
    pub inner_ty_text: String,
    /// For a type written `BelongsTo<T>` or `Option<BelongsTo<T>>`, the tokens of `T`,
    /// printed; empty for any other type.
    pub target_ty_text: String,
    pub attrs: Vec<FieldAttrSyntax>,
}

/// One option inside the struct's `#[seekwel(...)]` attribute.
pub enum ModelOptionSyntax {
    /// `table_name = "..."`
    TableName(String),
    /// `primary_key = "..."`
    PrimaryKey(String),
    /// `auto_increment = <expr>`
    AutoIncrement(ExprSyntax),
    /// `validator = <path>`, by the path's text.
    Validator(String),
    /// Any other option.
    Unsupported,
}

/// An attribute on the model struct.
pub enum ModelAttrSyntax {
    /// `#[seekwel(...)]`
    Seekwel(Vec<ModelOptionSyntax>),
    /// `#[derive(seekwel::Model, Clone)]`, as the attribute macro adds it.
    DeriveModel,
    /// `#[derive(seekwel::Model)]`, as the plain attribute adds it.
    DerivePlainModel,
    /// Any other attribute.
    Other,
}

/// The kind of a generic parameter.
#[derive(Debug, Clone, Copy, PartialEq, Eq, Structural)]
pub enum GenericParamSyntax {
    Type,
    Lifetime,
    Const,
}

/// The body of the item a derive is applied to.
pub enum DataSyntax {
    /// A struct with named fields.
    NamedStruct(Vec<FieldSyntax>),
    /// A tuple or unit struct.
    OtherStruct,
    /// An enum or a union.
    NotStruct,
}

/// The input of the `Model` derive.
pub struct DeriveInputSyntax {
    /// The struct's visibility tokens as written, printed (empty when private).
    pub vis: String,
    pub name: String,
    pub attrs: Vec<ModelAttrSyntax>,
    pub generics: Vec<GenericParamSyntax>,
    pub data: DataSyntax,
}

/// The last segment of a path type, if the type is a path with a segment.
pub open spec fn last_segment(t: TypeSyntax) -> Option<SegmentSyntax> {
    match t {
        TypeSyntax::Path { segments, .. } => if segments@.len() > 0 {
            Some(segments@.last())
        } else {
            None
        },
        TypeSyntax::Other => None,
    }
}

/// The type written as the first generic argument of a type whose last segment is named
/// `name`, as in `Option<T>` or `BelongsTo<T>`.
pub open spec fn wrapped_type(t: TypeSyntax, name: Seq<char>) -> Option<TypeSyntax> {
    match last_segment(t) {
        Some(seg) => if seg.ident@ == name {
            match seg.args {
                PathArgsSyntax::AngleBracketed(args) => if args@.len() > 0 {
                    match args@[0] {
                        GenericArgSyntax::Type(inner) => Some(inner),
                        GenericArgSyntax::Other => None,
                    }
                } else {
                    None
                },
                _ => None,
            }
        } else {
            None
        },
        None => None,
    }
}

/// The `T` of `Option<T>`.
pub open spec fn option_inner(t: TypeSyntax) -> Option<TypeSyntax> {
    wrapped_type(t, "Option"@)
}

/// The `T` of `BelongsTo<T>`.
pub open spec fn belongs_to_target(t: TypeSyntax) -> Option<TypeSyntax> {
    wrapped_type(t, "BelongsTo"@)
}

/// Whether `ident` holds exactly the text `name`.
fn ident_is(ident: &String, name: &str) -> (r: bool)
    ensures
        r == (ident@ == name@),
{
    let a = ident.as_str();
    let n = a.unicode_len();
    if n != name.unicode_len() {
        return false;
    }
    let mut i: usize = 0;
    while i < n
        invariant
            a@ == ident@,
            n == a@.len(),
            n == name@.len(),
            i <= n,
            a@.take(i as int) == name@.take(i as int),
        decreases n - i,
    {
        if a.get_char(i) != name.get_char(i) {
            assert(a@[i as int] != name@[i as int]);
            return false;
        }
        assert(a@.take(i + 1) =~= a@.take(i as int).push(a@[i as int]));
        assert(name@.take(i + 1) =~= name@.take(i as int).push(name@[i as int]));
        i = i + 1;
    }
    assert(a@ =~= a@.take(n as int));
    assert(name@ =~= name@.take(n as int));
    true
}

/// Whether two strings hold the same text.
pub fn same_text(a: &String, b: &String) -> (r: bool)
    ensures
        r == (a@ == b@),
{
    ident_is(a, b.as_str())
}

/// Whether a string holds the given text.
pub fn text_is(a: &String, b: &str) -> (r: bool)
    ensures
        r == (a@ == b@),
{
    ident_is(a, b)
}

/// The first generic argument of a type whose last segment is named `name`, if that
/// argument is a type.
fn wrapped_type_ref<'a>(t: &'a TypeSyntax, name: &str) -> (r: Option<&'a TypeSyntax>)
    ensures
        match r {
            Some(inner) => wrapped_type(*t, name@) == Some(*inner),
            None => wrapped_type(*t, name@) is None,
        },
{
    match t {
        TypeSyntax::Path { segments, .. } => {
            if segments.len() == 0 {
                return None;
            }
            let seg = &segments[segments.len() - 1];
            if !text_is(&seg.ident, name) {
                return None;
            }
            match &seg.args {
                PathArgsSyntax::AngleBracketed(args) => {
                    if args.len() == 0 {
                        return None;
                    }
                    match &args[0] {
                        GenericArgSyntax::Type(inner) => Some(inner),
                        GenericArgSyntax::Other => None,
                    }
                },
                _ => None,
            }
        },
        TypeSyntax::Other => None,
    }
}

/// The `T` of `Option<T>`.
pub fn option_inner_type(t: &TypeSyntax) -> (r: Option<&TypeSyntax>)
    ensures
        match r {
            Some(inner) => option_inner(*t) == Some(*inner),
            None => option_inner(*t) is None,
        },
{
    wrapped_type_ref(t, "Option")
}

/// The `T` of `BelongsTo<T>`.
pub fn belongs_to_target_type(t: &TypeSyntax) -> (r: Option<&TypeSyntax>)
    ensures
        match r {
            Some(inner) => belongs_to_target(*t) == Some(*inner),
            None => belongs_to_target(*t) is None,
        },
{
    wrapped_type_ref(t, "BelongsTo")
}

} // verus!
