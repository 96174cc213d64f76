//! The macro input as `syn` parses it, one syntactic level at a time: each parse turns a
//! text into plain values, and hands on the parts below as their printed tokens, which
//! are parsed in their turn.

use vstd::prelude::*;

use quote::ToTokens;
use syn::{parse_str, Data, DeriveInput, Fields, ItemStruct};

use crate::model_macro::syntax::GenericParamSyntax;
use crate::text::strings_view;

verus! {

/// The body of a parsed struct, enum or union.
pub enum RawBody {
    /// A struct with named fields, each as its printed tokens.
    Named(Vec<String>),
    /// A tuple or unit struct.
    Unnamed,
    /// An enum or a union.
    NotStruct,
}

/// The content of a [`RawBody`].
pub ghost enum RawBodyView {
    Named(Seq<Seq<char>>),
    Unnamed,
    NotStruct,
}

/// A parsed struct (or the input of a derive), with its attributes' metas and its
/// generic parameters as their printed tokens.
pub struct RawItem {
    pub vis: String,
    pub name: String,
    pub attrs: Vec<String>,
    pub generics: Vec<String>,
    pub body: RawBody,
}

/// The content of a [`RawItem`].
pub ghost struct RawItemView {
    pub vis: Seq<char>,
    pub name: Seq<char>,
    pub attrs: Seq<Seq<char>>,
    pub generics: Seq<Seq<char>>,
    pub body: RawBodyView,
}

impl View for RawItem {
    type V = RawItemView;

    open spec fn view(&self) -> RawItemView {
        RawItemView {
            vis: self.vis@,
            name: self.name@,
            attrs: strings_view(self.attrs@),
            generics: strings_view(self.generics@),
            body: match self.body {
                RawBody::Named(fs) => RawBodyView::Named(strings_view(fs@)),
                RawBody::Unnamed => RawBodyView::Unnamed,
                RawBody::NotStruct => RawBodyView::NotStruct,
            },
        }
    }
}

/// A parsed named field, with its type and its attributes' metas as printed tokens.
pub struct RawField {
    pub ident: String,
    pub ty: String,
    pub attrs: Vec<String>,
}

/// The content of a [`RawField`].
pub ghost struct RawFieldView {
    pub ident: Seq<char>,
    pub ty: Seq<char>,
    pub attrs: Seq<Seq<char>>,
}

impl View for RawField {
    type V = RawFieldView;

    open spec fn view(&self) -> RawFieldView {
        RawFieldView { ident: self.ident@, ty: self.ty@, attrs: strings_view(self.attrs@) }
    }
}

/// A parsed attribute meta: its path, then its list's tokens or its value, printed.
pub enum RawMeta {
    Path(String),
    List(String, String),
    NameValue(String, String),
}

/// The content of a [`RawMeta`].
pub ghost enum RawMetaView {
    Path(Seq<char>),
    List(Seq<char>, Seq<char>),
    NameValue(Seq<char>, Seq<char>),
}

impl View for RawMeta {
    type V = RawMetaView;

    open spec fn view(&self) -> RawMetaView {
        match self {
            RawMeta::Path(p) => RawMetaView::Path(p@),
            RawMeta::List(p, t) => RawMetaView::List(p@, t@),
            RawMeta::NameValue(p, v) => RawMetaView::NameValue(p@, v@),
        }
    }
}

/// A parsed type: a path (qualified by a leading `::` or a `<T as Trait>::`) with its
/// segments printed, or any other type.
pub enum RawType {
    Path { qualified: bool, segments: Vec<String> },
    Other,
}

/// The content of a [`RawType`].
pub ghost enum RawTypeView {
    Path { qualified: bool, segments: Seq<Seq<char>> },
    Other,
}

impl View for RawType {
    type V = RawTypeView;

    open spec fn view(&self) -> RawTypeView {
        match self {
            RawType::Path { qualified, segments } => RawTypeView::Path {
                qualified: *qualified,
                segments: strings_view(segments@),
            },
            RawType::Other => RawTypeView::Other,
        }
    }
}

/// The arguments of a parsed path segment; a type argument is printed, any other
/// argument is `None`.
pub enum RawArgs {
    Bare,
    Angle(Vec<Option<String>>),
    Paren,
}

/// A parsed path segment.
pub struct RawSegment {
    pub ident: String,
    pub args: RawArgs,
}

/// The view of an optional printed argument.
pub open spec fn opt_text_view(o: Option<String>) -> Option<Seq<char>> {
    match o {
        Some(s) => Some(s@),
        None => None,
    }
}

/// The content of [`RawArgs`].
pub ghost enum RawArgsView {
    Bare,
    Angle(Seq<Option<Seq<char>>>),
    Paren,
}

/// The content of a [`RawSegment`].
pub ghost struct RawSegmentView {
    pub ident: Seq<char>,
    pub args: RawArgsView,
}

impl View for RawSegment {
    type V = RawSegmentView;

    open spec fn view(&self) -> RawSegmentView {
        RawSegmentView {
            ident: self.ident@,
            args: match self.args {
                RawArgs::Bare => RawArgsView::Bare,
                RawArgs::Angle(a) => RawArgsView::Angle(a@.map_values(|o: Option<String>| opt_text_view(o))),
                RawArgs::Paren => RawArgsView::Paren,
            },
        }
    }
}

/// A parsed expression: a string or boolean literal, another literal, a path with its
/// segments printed, or any other expression.
pub enum RawExpr {
    Str(String),
    Bool(bool),
    OtherLit,
    Path { qualified: bool, segments: Vec<String> },
    Other,
}

/// The content of a [`RawExpr`].
pub ghost enum RawExprView {
    Str(Seq<char>),
    Bool(bool),
    OtherLit,
    Path { qualified: bool, segments: Seq<Seq<char>> },
    Other,
}

impl View for RawExpr {
    type V = RawExprView;

    open spec fn view(&self) -> RawExprView {
        match self {
            RawExpr::Str(s) => RawExprView::Str(s@),
            RawExpr::Bool(b) => RawExprView::Bool(*b),
            RawExpr::OtherLit => RawExprView::OtherLit,
            RawExpr::Path { qualified, segments } => RawExprView::Path {
                qualified: *qualified,
                segments: strings_view(segments@),
            },
            RawExpr::Other => RawExprView::Other,
        }
    }
}

/// What `syn` parses a derive's input text into (`DeriveInput`), if it parses.
pub uninterp spec fn parsed_derive_input(text: Seq<char>) -> Option<RawItemView>;

/// What `syn` parses a struct's text into (`ItemStruct`), if it parses.
pub uninterp spec fn parsed_item_struct(text: Seq<char>) -> Option<RawItemView>;

/// What `syn` parses a generic parameter's text into, if it parses.
pub uninterp spec fn parsed_generic_param(text: Seq<char>) -> Option<GenericParamSyntax>;

/// What `syn` parses a named field's text into, if it parses.
pub uninterp spec fn parsed_field(text: Seq<char>) -> Option<RawFieldView>;

/// What `syn` parses an attribute meta's text into, if it parses.
pub uninterp spec fn parsed_meta(text: Seq<char>) -> Option<RawMetaView>;

/// What `syn` parses a type's text into, if it parses.
pub uninterp spec fn parsed_type(text: Seq<char>) -> Option<RawTypeView>;

/// What `syn` parses a path segment's text into, if it parses.
pub uninterp spec fn parsed_segment(text: Seq<char>) -> Option<RawSegmentView>;

/// What `syn` parses an expression's text into, if it parses.
pub uninterp spec fn parsed_expr(text: Seq<char>) -> Option<RawExprView>;

/// The value of a string literal's text, if it is one.
pub uninterp spec fn parsed_lit_str(text: Seq<char>) -> Option<Seq<char>>;

/// The value of a boolean literal's text, if it is one.
pub uninterp spec fn parsed_lit_bool(text: Seq<char>) -> Option<bool>;

/// A path's text as `syn` prints it back, if the text is a path.
pub uninterp spec fn parsed_path(text: Seq<char>) -> Option<Seq<char>>;

/// `syn::parse_str::<syn::DeriveInput>`: the visibility, name, attribute metas and
/// generic parameters (printed), and the struct's named fields (printed) or the kind of
/// its body.
#[verifier::external_body]
pub fn parse_derive_input(text: &str) -> (r: Option<RawItem>)
    ensures
        match r {
            Some(x) => parsed_derive_input(text@) == Some(x@),
            None => parsed_derive_input(text@) is None,
        },
{
    let d: DeriveInput = parse_str(text).ok()?;
    let body = match d.data {
        Data::Struct(s) => match s.fields {
            Fields::Named(n) => RawBody::Named(n.named.iter().map(|f| f.to_token_stream().to_string()).collect()),
            _ => RawBody::Unnamed,
        },
        _ => RawBody::NotStruct,
    };
    let attrs = d.attrs.iter().map(|a| a.meta.to_token_stream().to_string()).collect();
    let generics = d.generics.params.iter().map(|p| p.to_token_stream().to_string()).collect();
    Some(RawItem { vis: d.vis.to_token_stream().to_string(), name: d.ident.to_string(), attrs, generics, body })
}

/// `syn::parse_str::<syn::ItemStruct>`: the same parts as for a derive's input.
#[verifier::external_body]
pub fn parse_item_struct(text: &str) -> (r: Option<RawItem>)
    ensures
        match r {
            Some(x) => parsed_item_struct(text@) == Some(x@),
            None => parsed_item_struct(text@) is None,
        },
{
    let s: ItemStruct = parse_str(text).ok()?;
    let body = match s.fields {
        Fields::Named(n) => RawBody::Named(n.named.iter().map(|f| f.to_token_stream().to_string()).collect()),
        _ => RawBody::Unnamed,
    };
    let attrs = s.attrs.iter().map(|a| a.meta.to_token_stream().to_string()).collect();
    let generics = s.generics.params.iter().map(|p| p.to_token_stream().to_string()).collect();
    Some(RawItem { vis: s.vis.to_token_stream().to_string(), name: s.ident.to_string(), attrs, generics, body })
}

/// `syn::parse_str::<syn::GenericParam>`: the kind of the parameter.
#[verifier::external_body]
pub fn parse_generic_param(text: &str) -> (r: Option<GenericParamSyntax>)
    ensures
        r == parsed_generic_param(text@),
{
    match syn::parse_str::<syn::GenericParam>(text).ok()? {
        syn::GenericParam::Type(_) => Some(GenericParamSyntax::Type),
        syn::GenericParam::Lifetime(_) => Some(GenericParamSyntax::Lifetime),
        syn::GenericParam::Const(_) => Some(GenericParamSyntax::Const),
    }
}

/// `syn::Field::parse_named` on a text: the name, the type (printed) and the attribute
/// metas (printed).
#[verifier::external_body]
pub fn parse_field(text: &str) -> (r: Option<RawField>)
    ensures
        match r {
            Some(x) => parsed_field(text@) == Some(x@),
            None => parsed_field(text@) is None,
        },
{
    let f = syn::parse::Parser::parse_str(syn::Field::parse_named, text).ok()?;
    let ident = f.ident.as_ref().map_or(String::new(), |i| i.to_string());
    let attrs = f.attrs.iter().map(|a| a.meta.to_token_stream().to_string()).collect();
    Some(RawField { ident, ty: f.ty.to_token_stream().to_string(), attrs })
}

/// `syn::parse_str::<syn::Meta>`: the path (printed) and the list's tokens or the value
/// (printed).
#[verifier::external_body]
pub fn parse_meta(text: &str) -> (r: Option<RawMeta>)
    ensures
        match r {
            Some(x) => parsed_meta(text@) == Some(x@),
            None => parsed_meta(text@) is None,
        },
{
    Some(match syn::parse_str::<syn::Meta>(text).ok()? {
        syn::Meta::Path(p) => RawMeta::Path(p.to_token_stream().to_string()),
        syn::Meta::List(l) => RawMeta::List(l.path.to_token_stream().to_string(), l.tokens.to_string()),
        syn::Meta::NameValue(nv) => RawMeta::NameValue(nv.path.to_token_stream().to_string(), nv.value.to_token_stream().to_string()),
    })
}

/// `syn::parse_str::<syn::Type>`: a path type's qualification and segments (printed), or
/// any other type.
#[verifier::external_body]
pub fn parse_type(text: &str) -> (r: Option<RawType>)
    ensures
        match r {
            Some(x) => parsed_type(text@) == Some(x@),
            None => parsed_type(text@) is None,
        },
{
    Some(match syn::parse_str::<syn::Type>(text).ok()? {
        syn::Type::Path(tp) => RawType::Path {
            qualified: tp.qself.is_some() || tp.path.leading_colon.is_some(),
            segments: tp.path.segments.iter().map(|s| s.to_token_stream().to_string()).collect(),
        },
        _ => RawType::Other,
    })
}

/// `syn::parse_str::<syn::PathSegment>`: the identifier, and the arguments with each type
/// argument printed.
#[verifier::external_body]
pub fn parse_segment(text: &str) -> (r: Option<RawSegment>)
    ensures
        match r {
            Some(x) => parsed_segment(text@) == Some(x@),
            None => parsed_segment(text@) is None,
        },
{
    let s = syn::parse_str::<syn::PathSegment>(text).ok()?;
    let args = match s.arguments {
        syn::PathArguments::None => RawArgs::Bare,
        syn::PathArguments::AngleBracketed(a) => RawArgs::Angle(a.args.iter().map(|g| match g {
            syn::GenericArgument::Type(t) => Some(t.to_token_stream().to_string()),
            _ => None,
        }).collect()),
        syn::PathArguments::Parenthesized(_) => RawArgs::Paren,
    };
    Some(RawSegment { ident: s.ident.to_string(), args })
}

/// `syn::parse_str::<syn::Expr>`: a string or boolean literal's value, another literal,
/// a path's qualification and segments (printed), or any other expression.
#[verifier::external_body]
pub fn parse_expr(text: &str) -> (r: Option<RawExpr>)
    ensures
        match r {
            Some(x) => parsed_expr(text@) == Some(x@),
            None => parsed_expr(text@) is None,
        },
{
    Some(match syn::parse_str::<syn::Expr>(text).ok()? {
        syn::Expr::Lit(l) => match l.lit {
            syn::Lit::Str(s) => RawExpr::Str(s.value()),
            syn::Lit::Bool(b) => RawExpr::Bool(b.value),
            _ => RawExpr::OtherLit,
        },
        syn::Expr::Path(p) => RawExpr::Path {
            qualified: p.qself.is_some() || p.path.leading_colon.is_some(),
            segments: p.path.segments.iter().map(|s| s.to_token_stream().to_string()).collect(),
        },
        _ => RawExpr::Other,
    })
}

/// `syn::parse_str::<syn::LitStr>`: the literal's value.
#[verifier::external_body]
pub fn parse_lit_str(text: &str) -> (r: Option<String>)
    ensures
        opt_text_view(r) == parsed_lit_str(text@),
{
    syn::parse_str::<syn::LitStr>(text).ok().map(|s| s.value())
}

/// `syn::parse_str::<syn::LitBool>`: the literal's value.
#[verifier::external_body]
pub fn parse_lit_bool(text: &str) -> (r: Option<bool>)
    ensures
        r == parsed_lit_bool(text@),
{
    syn::parse_str::<syn::LitBool>(text).ok().map(|b| b.value)
}

/// `syn::parse_str::<syn::Path>`: the path, printed.
#[verifier::external_body]
pub fn parse_path(text: &str) -> (r: Option<String>)
    ensures
        opt_text_view(r) == parsed_path(text@),
{
    syn::parse_str::<syn::Path>(text).ok().map(|p| p.to_token_stream().to_string())
}

} // verus!
