//! The macro inputs from their text: a named field, a struct or a derive's input parsed
//! by `syn` and turned into the syntax that the model rules read, and the macros
//! themselves from the text of their input to the source text they generate.

use vstd::prelude::*;

use crate::model_macro::analysis::{analyze_model, model_outcome, ModelView};
use crate::model_macro::attribute::{
    attribute_error, expand_model_attribute, expand_plain_model_attribute, is_expansion_of,
    is_plain_expansion_of, model_args, parse_model_args, plain_attribute_error, ItemStructSyntax,
    ModelArgSyntax,
};
use crate::model_macro::front::{list_items, model_args_from, model_args_match, model_args_ok};
use crate::model_macro::simple_derive::{
    analyze_derive, derive_outcome, derived_source, derived_source_text, DerivedModelView,
};
use crate::model_macro::source::{model_source, model_source_text};
use crate::schema::types::{trim_chars, trimmed};
use crate::text::chars_of;
use crate::model_macro::front::{
    field_attr_from, field_attr_matches, field_attr_ok, model_attr_from, model_attr_matches,
    model_attr_ok, type_from, type_matches, type_ok,
};
use crate::model_macro::raw::{
    parse_derive_input, parse_field, parse_generic_param, parse_item_struct, parse_segment,
    parse_type, parsed_derive_input, parsed_field, parsed_generic_param, parsed_item_struct,
    parsed_segment, parsed_type, RawArgs, RawArgsView, RawBody, RawBodyView, RawField, RawItem,
    RawItemView, RawType, RawTypeView,
};
use crate::model_macro::syntax::{
    text_is, DataSyntax, DeriveInputSyntax, FieldAttrSyntax, FieldSyntax, GenericParamSyntax,
    ModelAttrSyntax,
};
use crate::text::strings_view;

verus! {

/// The text of the first type argument of a path segment named `name` (the `T` of
/// `Option<T>`), as `syn` prints it; empty for any other segment.
pub open spec fn segment_arg_text(seg: Seq<char>, name: Seq<char>) -> Seq<char> {
    match parsed_segment(seg) {
        Some(rs) => if rs.ident == name {
            match rs.args {
                RawArgsView::Angle(xs) => if xs.len() > 0 {
                    match xs[0] {
                        Some(t) => t,
                        None => Seq::empty(),
                    }
                } else {
                    Seq::empty()
                },
                _ => Seq::empty(),
            }
        } else {
            Seq::empty()
        },
        None => Seq::empty(),
    }
}

/// The text of the first type argument of a type whose last path segment is named
/// `name`; empty for any other type.
pub open spec fn wrapped_arg_text(ty: Seq<char>, name: Seq<char>) -> Seq<char> {
    match parsed_type(ty) {
        Some(RawTypeView::Path { segments, .. }) => if segments.len() > 0 {
            segment_arg_text(segments.last(), name)
        } else {
            Seq::empty()
        },
        _ => Seq::empty(),
    }
}

/// The text of `T` in a type written `BelongsTo<T>` or `Option<BelongsTo<T>>`; empty for
/// any other type.
pub open spec fn target_arg_text(ty: Seq<char>) -> Seq<char> {
    let direct = wrapped_arg_text(ty, "BelongsTo"@);
    if direct.len() > 0 {
        direct
    } else {
        wrapped_arg_text(wrapped_arg_text(ty, "Option"@), "BelongsTo"@)
    }
}

/// The first type argument's text of a path segment named `name`.
fn segment_arg(seg: &str, name: &str) -> (r: String)
    ensures
        r@ == segment_arg_text(seg@, name@),
{
    match parse_segment(seg) {
        None => String::new(),
        Some(rs) => {
            if !text_is(&rs.ident, name) {
                return String::new();
            }
            match rs.args {
                RawArgs::Angle(xs) => {
                    if xs.len() == 0 {
                        return String::new();
                    }
                    match &xs[0] {
                        Some(t) => t.clone(),
                        None => String::new(),
                    }
                },
                _ => String::new(),
            }
        },
    }
}

/// The first type argument's text of a type whose last path segment is named `name`.
fn wrapped_arg(ty: &str, name: &str) -> (r: String)
    ensures
        r@ == wrapped_arg_text(ty@, name@),
{
    match parse_type(ty) {
        Some(RawType::Path { segments, .. }) => {
            if segments.len() == 0 {
                return String::new();
            }
            let last = &segments[segments.len() - 1];
            assert(strings_view(segments@).last() == last@);
            segment_arg(last.as_str(), name)
        },
        _ => String::new(),
    }
}

/// The text of `T` in `BelongsTo<T>` or `Option<BelongsTo<T>>`.
fn target_arg(ty: &str) -> (r: String)
    ensures
        r@ == target_arg_text(ty@),
{
    let direct = wrapped_arg(ty, "BelongsTo");
    if direct.as_str().unicode_len() > 0 {
        direct
    } else {
        let inner = wrapped_arg(ty, "Option");
        wrapped_arg(inner.as_str(), "BelongsTo")
    }
}

/// Whether a named field's text converts: its type converts, and so does each of its
/// attributes when they are read.
pub open spec fn field_ok(text: Seq<char>, read_attrs: bool) -> bool {
    match parsed_field(text) {
        None => false,
        Some(rf) => type_ok(rf.ty, rf.ty.len()) && (read_attrs ==> forall|i: int|
            0 <= i < rf.attrs.len() ==> field_attr_ok(#[trigger] rf.attrs[i])),
    }
}

/// `f` is what a named field's text converts to: its name, its type (as syntax and as
/// printed text, with the texts of the `T` of `Option<T>` and of a `BelongsTo` target),
/// and its attributes when they are read (none otherwise).
pub open spec fn field_matches(f: FieldSyntax, text: Seq<char>, read_attrs: bool) -> bool {
    match parsed_field(text) {
        None => false,
        Some(rf) => {
            &&& f.ident@ == rf.ident
            &&& f.ty_text@ == rf.ty
            &&& type_matches(f.ty, rf.ty, rf.ty.len())
            &&& f.inner_ty_text@ == wrapped_arg_text(rf.ty, "Option"@)
            &&& f.target_ty_text@ == target_arg_text(rf.ty)
            &&& if read_attrs {
                &&& f.attrs@.len() == rf.attrs.len()
                &&& forall|i: int|
                    0 <= i < rf.attrs.len() ==> field_attr_matches(#[trigger] f.attrs@[i], rf.attrs[i])
            } else {
                f.attrs@.len() == 0
            }
        },
    }
}

/// Converts a named field's text.
pub fn field_from(text: &str, read_attrs: bool) -> (r: Option<FieldSyntax>)
    ensures
        r is Some <==> field_ok(text@, read_attrs),
        r matches Some(f) ==> field_matches(f, text@, read_attrs),
{
    let rf = match parse_field(text) {
        None => {
            return None;
        },
        Some(rf) => rf,
    };
    let ghost rv = rf@;
    let RawField { ident, ty: ty_text, attrs: attr_texts } = rf;
    let ty = match type_from(ty_text.as_str(), ty_text.as_str().unicode_len()) {
        None => {
            return None;
        },
        Some(t) => t,
    };
    let mut attrs: Vec<FieldAttrSyntax> = Vec::new();
    if read_attrs {
        let ghost av = strings_view(attr_texts@);
        let mut i: usize = 0;
        while i < attr_texts.len()
            invariant
                i <= attr_texts@.len(),
                av == strings_view(attr_texts@),
                av == rv.attrs,
                read_attrs,
                parsed_field(text@) == Some(rv),
                attrs@.len() == i,
                forall|j: int| 0 <= j < i ==> field_attr_ok(#[trigger] av[j]),
                forall|j: int| 0 <= j < i ==> field_attr_matches(#[trigger] attrs@[j], av[j]),
            decreases attr_texts@.len() - i,
        {
            match field_attr_from(attr_texts[i].as_str()) {
                None => {
                    assert(!field_attr_ok(av[i as int]));
                    assert(!field_ok(text@, read_attrs));
                    return None;
                },
                Some(a) => {
                    attrs.push(a);
                },
            }
            i = i + 1;
        }
    }
    let inner_ty_text = wrapped_arg(ty_text.as_str(), "Option");
    let target_ty_text = target_arg(ty_text.as_str());
    Some(FieldSyntax { ident, ty, ty_text, inner_ty_text, target_ty_text, attrs })
}

/// Whether a parsed struct converts: each of its attributes when they are read, each
/// generic parameter, and each named field.
pub open spec fn item_ok(ri: RawItemView, read_attrs: bool) -> bool {
    &&& read_attrs ==> forall|i: int| 0 <= i < ri.attrs.len() ==> model_attr_ok(#[trigger] ri.attrs[i])
    &&& forall|i: int| 0 <= i < ri.generics.len() ==> (#[trigger] parsed_generic_param(ri.generics[i])) is Some
    &&& ri.body matches RawBodyView::Named(fs) ==> forall|i: int|
        0 <= i < fs.len() ==> field_ok(#[trigger] fs[i], read_attrs)
}

/// `attrs` is what a parsed struct's attributes convert to when they are read, and empty
/// otherwise.
pub open spec fn attrs_match(attrs: Seq<ModelAttrSyntax>, texts: Seq<Seq<char>>, read_attrs: bool) -> bool {
    if read_attrs {
        &&& attrs.len() == texts.len()
        &&& forall|i: int| 0 <= i < texts.len() ==> model_attr_matches(#[trigger] attrs[i], texts[i])
    } else {
        attrs.len() == 0
    }
}

/// `gs` is what a parsed struct's generic parameters convert to.
pub open spec fn generics_match(gs: Seq<GenericParamSyntax>, texts: Seq<Seq<char>>) -> bool {
    &&& gs.len() == texts.len()
    &&& forall|i: int| 0 <= i < texts.len() ==> parsed_generic_param(#[trigger] texts[i]) == Some(gs[i])
}

/// `fs` is what a parsed struct's named fields convert to.
pub open spec fn fields_match(fs: Seq<FieldSyntax>, texts: Seq<Seq<char>>, read_attrs: bool) -> bool {
    &&& fs.len() == texts.len()
    &&& forall|i: int| 0 <= i < texts.len() ==> field_matches(#[trigger] fs[i], texts[i], read_attrs)
}

/// `d` is what a parsed struct converts to.
pub open spec fn item_matches(d: DeriveInputSyntax, ri: RawItemView, read_attrs: bool) -> bool {
    &&& d.vis@ == ri.vis
    &&& d.name@ == ri.name
    &&& attrs_match(d.attrs@, ri.attrs, read_attrs)
    &&& generics_match(d.generics@, ri.generics)
    &&& match ri.body {
        RawBodyView::Named(fs) => d.data matches DataSyntax::NamedStruct(v) && fields_match(v@, fs, read_attrs),
        RawBodyView::NotStruct => d.data is NotStruct,
        _ => d.data is OtherStruct,
    }
}

/// Converts a parsed struct.
fn convert_item(ri: &RawItem, read_attrs: bool) -> (r: Option<DeriveInputSyntax>)
    ensures
        r is Some <==> item_ok(ri@, read_attrs),
        r matches Some(d) ==> item_matches(d, ri@, read_attrs),
{
    let ghost rv = ri@;
    let attr_texts = &ri.attrs;
    let generic_texts = &ri.generics;
    let mut attrs: Vec<ModelAttrSyntax> = Vec::new();
    if read_attrs {
        let ghost av = strings_view(attr_texts@);
        let mut i: usize = 0;
        while i < attr_texts.len()
            invariant
                i <= attr_texts@.len(),
                av == strings_view(attr_texts@),
                av == rv.attrs,
                rv == ri@,
                read_attrs,
                attrs@.len() == i,
                forall|j: int| 0 <= j < i ==> model_attr_ok(#[trigger] av[j]),
                forall|j: int| 0 <= j < i ==> model_attr_matches(#[trigger] attrs@[j], av[j]),
            decreases attr_texts@.len() - i,
        {
            match model_attr_from(attr_texts[i].as_str()) {
                None => {
                    assert(!model_attr_ok(av[i as int]));
                    assert(!item_ok(rv, read_attrs));
                    return None;
                },
                Some(a) => {
                    attrs.push(a);
                },
            }
            i = i + 1;
        }
    }
    let ghost gv = strings_view(generic_texts@);
    let mut generics: Vec<GenericParamSyntax> = Vec::new();
    let mut i: usize = 0;
    while i < generic_texts.len()
        invariant
            i <= generic_texts@.len(),
            gv == strings_view(generic_texts@),
            gv == rv.generics,
            rv == ri@,
            generics@.len() == i,
            forall|j: int| 0 <= j < i ==> parsed_generic_param(#[trigger] gv[j]) == Some(generics@[j]),
        decreases generic_texts@.len() - i,
    {
        match parse_generic_param(generic_texts[i].as_str()) {
            None => {
                assert(parsed_generic_param(gv[i as int]) is None);
                assert(!item_ok(rv, read_attrs));
                return None;
            },
            Some(g) => {
                generics.push(g);
            },
        }
        i = i + 1;
    }
    let data = match &ri.body {
        RawBody::Named(field_texts) => {
            let ghost fv = strings_view(field_texts@);
            let mut fields: Vec<FieldSyntax> = Vec::new();
            let mut k: usize = 0;
            while k < field_texts.len()
                invariant
                    k <= field_texts@.len(),
                    fv == strings_view(field_texts@),
                    rv.body == RawBodyView::Named(fv),
                    rv == ri@,
                    fields@.len() == k,
                    forall|j: int| 0 <= j < k ==> field_ok(#[trigger] fv[j], read_attrs),
                    forall|j: int| 0 <= j < k ==> field_matches(#[trigger] fields@[j], fv[j], read_attrs),
                decreases field_texts@.len() - k,
            {
                match field_from(field_texts[k].as_str(), read_attrs) {
                    None => {
                        assert(!field_ok(fv[k as int], read_attrs));
                        assert(item_ok(rv, read_attrs) ==> field_ok(fv[k as int], read_attrs)) by {
                            if item_ok(rv, read_attrs) {
                                match rv.body {
                                    RawBodyView::Named(fs) => {
                                        assert(fs == fv);
                                        assert(field_ok(fs[k as int], read_attrs));
                                    },
                                    _ => {},
                                }
                            }
                        }
                        return None;
                    },
                    Some(f) => {
                        fields.push(f);
                    },
                }
                k = k + 1;
            }
            DataSyntax::NamedStruct(fields)
        },
        RawBody::NotStruct => DataSyntax::NotStruct,
        _ => DataSyntax::OtherStruct,
    };
    Some(DeriveInputSyntax { vis: ri.vis.clone(), name: ri.name.clone(), attrs, generics, data })
}

/// Whether a derive's input text parses and converts.
pub open spec fn derive_ok(text: Seq<char>, read_attrs: bool) -> bool {
    parsed_derive_input(text) matches Some(ri) && item_ok(ri, read_attrs)
}

/// `d` is what a derive's input text converts to.
pub open spec fn derive_matches(d: DeriveInputSyntax, text: Seq<char>, read_attrs: bool) -> bool {
    parsed_derive_input(text) matches Some(ri) && item_matches(d, ri, read_attrs)
}

/// Parses and converts a derive's input text; the attributes are read only when asked
/// for.
pub fn derive_input_from(text: &str, read_attrs: bool) -> (r: Option<DeriveInputSyntax>)
    ensures
        r is Some <==> derive_ok(text@, read_attrs),
        r matches Some(d) ==> derive_matches(d, text@, read_attrs),
{
    match parse_derive_input(text) {
        None => None,
        Some(ri) => convert_item(&ri, read_attrs),
    }
}

/// Whether a struct's text parses and converts.
pub open spec fn item_struct_ok(text: Seq<char>, read_attrs: bool) -> bool {
    parsed_item_struct(text) matches Some(ri) && item_ok(ri, read_attrs)
}

/// `it` is what a struct's text converts to: a struct without named fields has `None`.
pub open spec fn item_struct_matches(it: ItemStructSyntax, text: Seq<char>, read_attrs: bool) -> bool {
    parsed_item_struct(text) matches Some(ri) && {
        &&& it.vis@ == ri.vis
        &&& it.name@ == ri.name
        &&& attrs_match(it.attrs@, ri.attrs, read_attrs)
        &&& generics_match(it.generics@, ri.generics)
        &&& match ri.body {
            RawBodyView::Named(fs) => it.fields matches Some(v) && fields_match(v@, fs, read_attrs),
            _ => it.fields is None,
        }
    }
}

/// Parses and converts a struct's text; the attributes are read only when asked for.
pub fn item_struct_from(text: &str, read_attrs: bool) -> (r: Option<ItemStructSyntax>)
    ensures
        r is Some <==> item_struct_ok(text@, read_attrs),
        r matches Some(it) ==> item_struct_matches(it, text@, read_attrs),
{
    let ri = match parse_item_struct(text) {
        None => {
            return None;
        },
        Some(ri) => ri,
    };
    let d = match convert_item(&ri, read_attrs) {
        None => {
            return None;
        },
        Some(d) => d,
    };
    let DeriveInputSyntax { vis, name, attrs, generics, data } = d;
    let fields = match data {
        DataSyntax::NamedStruct(v) => Some(v),
        _ => None,
    };
    Some(ItemStructSyntax { vis, name, attrs, generics, fields })
}

/// The error for a macro input whose text does not parse or convert.
pub open spec fn unparsable_input() -> Seq<char> {
    "seekwel: the macro input does not parse as a model declaration"@
}

fn unparsable() -> (r: String)
    ensures
        r@ == unparsable_input(),
{
    String::from_str("seekwel: the macro input does not parse as a model declaration")
}

/// `r` is what the plain derive answers for the outcome `o` of its rules: the generated
/// source, or the refusal.
pub open spec fn derived_result(r: Result<String, String>, o: Result<DerivedModelView, Seq<char>>) -> bool {
    match o {
        Ok(m) => r matches Ok(s) && s@ == derived_source_text(m),
        Err(e) => r matches Err(s) && s@ == e,
    }
}

/// `r` is what the model derive answers for the outcome `o` of its rules.
pub open spec fn model_result(r: Result<String, String>, o: Result<ModelView, Seq<char>>) -> bool {
    match o {
        Ok(m) => r matches Ok(s) && s@ == model_source_text(m),
        Err(e) => r matches Err(s) && s@ == e,
    }
}

/// `#[derive(Model)]` (the plain derive, which reads no attributes) from the text of its
/// input: the source of the impls it generates, or why it refuses the input.
pub fn derive_model_source(text: &str) -> (r: Result<String, String>)
    ensures
        !derive_ok(text@, false) ==> (r matches Err(m) && m@ == unparsable_input()),
        derive_ok(text@, false) ==> exists|d: DeriveInputSyntax|
            #[trigger] derive_matches(d, text@, false) && derived_result(r, derive_outcome(d)),
{
    let d = match derive_input_from(text, false) {
        None => {
            return Err(unparsable());
        },
        Some(d) => d,
    };
    let r = match analyze_derive(&d) {
        Ok(m) => Ok(derived_source(&m)),
        Err(e) => Err(e),
    };
    assert(derive_matches(d, text@, false));
    r
}

/// The model derive (with its `#[seekwel(...)]` and `#[key = ...]` attributes) from the
/// text of its input: the source of the items it generates, or why it refuses the input.
pub fn model_derive_source(text: &str) -> (r: Result<String, String>)
    ensures
        !derive_ok(text@, true) ==> (r matches Err(m) && m@ == unparsable_input()),
        derive_ok(text@, true) ==> exists|d: DeriveInputSyntax|
            #[trigger] derive_matches(d, text@, true) && model_result(r, model_outcome(d)),
{
    let d = match derive_input_from(text, true) {
        None => {
            return Err(unparsable());
        },
        Some(d) => d,
    };
    let ghost dv = d;
    let r = match analyze_model(d) {
        Ok(m) => Ok(model_source(&m)),
        Err(e) => Err(e),
    };
    assert(derive_matches(dv, text@, true));
    r
}

/// Whether the arguments' text of `#[seekwel::model(...)]` converts.
pub open spec fn args_ok(text: Seq<char>) -> bool {
    list_items(text) matches Some(items) && model_args_ok(items)
}

/// `a` is what the arguments' text of `#[seekwel::model(...)]` converts to.
pub open spec fn args_match(a: Seq<ModelArgSyntax>, text: Seq<char>) -> bool {
    list_items(text) matches Some(items) && model_args_match(a, items)
}

/// `r` is what `#[seekwel::model(...)]` with the arguments `a` answers for the struct
/// `it`: its refusal, or the model derive's answer for the struct it makes of `it`.
pub open spec fn attribute_result(r: Result<String, String>, a: Seq<ModelArgSyntax>, it: ItemStructSyntax) -> bool {
    match attribute_error(a, it) {
        Some(e) => r matches Err(s) && s@ == e,
        None => exists|out: DeriveInputSyntax|
            #[trigger] is_expansion_of(out, model_args(a)->Ok_0, it) && model_result(r, model_outcome(out)),
    }
}

/// `#[seekwel::model(...)]` from the text of its arguments and of its struct, followed by
/// the model derive it hands the struct to: the source of the items generated, or the
/// first refusal. The arguments are read first, then the struct.
pub fn expand_model_source(args: &str, item: &str) -> (r: Result<String, String>)
    ensures
        !args_ok(args@) ==> (r matches Err(m) && m@ == unparsable_input()),
        args_ok(args@) ==> exists|a: Seq<ModelArgSyntax>|
            #[trigger] args_match(a, args@) && match model_args(a) {
                Err(e) => r matches Err(m) && m@ == e,
                Ok(_) => if item_struct_ok(item@, true) {
                    exists|it: ItemStructSyntax|
                        #[trigger] item_struct_matches(it, item@, true) && attribute_result(r, a, it)
                } else {
                    r matches Err(m) && m@ == unparsable_input()
                },
            },
{
    let a = match model_args_from(args) {
        None => {
            return Err(unparsable());
        },
        Some(a) => a,
    };
    assert(args_match(a@, args@));
    if let Err(e) = parse_model_args(&a) {
        return Err(e);
    }
    let it = match item_struct_from(item, true) {
        None => {
            return Err(unparsable());
        },
        Some(it) => it,
    };
    let ghost itv = it;
    let r = match expand_model_attribute(&a, it) {
        Err(e) => Err(e),
        Ok(out) => {
            let ghost ov = out;
            let r = match analyze_model(out) {
                Ok(m) => Ok(model_source(&m)),
                Err(e) => Err(e),
            };
            assert(is_expansion_of(ov, model_args(a@)->Ok_0, itv));
            r
        },
    };
    assert(item_struct_matches(itv, item@, true));
    r
}

/// `r` is what the plain `#[seekwel::model]` answers for the struct `it`: its refusal, or
/// the plain derive's answer for the struct it makes of `it`.
pub open spec fn plain_result(r: Result<String, String>, it: ItemStructSyntax) -> bool {
    match plain_attribute_error(false, it) {
        Some(e) => r matches Err(s) && s@ == e,
        None => exists|out: DeriveInputSyntax|
            #[trigger] is_plain_expansion_of(out, it) && derived_result(r, derive_outcome(out)),
    }
}

/// The plain `#[seekwel::model]` from the text of its arguments (it takes none) and of
/// its struct, followed by the plain derive: the source of the impls generated, or the
/// first refusal.
pub fn plain_model_source(args: &str, item: &str) -> (r: Result<String, String>)
    ensures
        trimmed(args@).len() > 0 ==> (r matches Err(m) && m@ == "seekwel::model does not take arguments"@),
        trimmed(args@).len() == 0 && !item_struct_ok(item@, false) ==> (r matches Err(m) && m@
            == unparsable_input()),
        trimmed(args@).len() == 0 && item_struct_ok(item@, false) ==> exists|it: ItemStructSyntax|
            #[trigger] item_struct_matches(it, item@, false) && plain_result(r, it),
{
    if trim_chars(&chars_of(args)).len() > 0 {
        return Err(String::from_str("seekwel::model does not take arguments"));
    }
    let it = match item_struct_from(item, false) {
        None => {
            return Err(unparsable());
        },
        Some(it) => it,
    };
    let ghost itv = it;
    let r = match expand_plain_model_attribute(false, it) {
        Err(e) => Err(e),
        Ok(out) => {
            let r = match analyze_derive(&out) {
                Ok(m) => Ok(derived_source(&m)),
                Err(e) => Err(e),
            };
            assert(is_plain_expansion_of(out, itv));
            r
        },
    };
    assert(item_struct_matches(itv, item@, false));
    r
}

} // verus!
