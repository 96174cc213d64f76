//! What `#[seekwel::model(...)]` does to a struct: it reads its options, checks that the
//! struct can carry the typestate parameter, adds that parameter and its field, and
//! hands the options on to the `Model` derive.

use vstd::prelude::*;

use crate::model_macro::analysis::{
    count_state_fields, is_state_field, model_config, no_config, state_field_count, ConfigView,
    ModelConfig, config_after, apply_model_options,
    lemma_apply_options_push, lemma_config_after_push, typestate_error,
};
use crate::model_macro::syntax::{
    DataSyntax, DeriveInputSyntax, ExprSyntax, FieldSyntax, GenericArgSyntax,
    GenericParamSyntax, ModelAttrSyntax, ModelOptionSyntax, PathArgsSyntax, SegmentSyntax,
    TypeSyntax,
};

verus! {

/// One argument of `#[seekwel::model(...)]`.
pub enum ModelArgSyntax {
    /// `table_name = "..."`
    TableName(String),
    /// `primary_key = "..."`
    PrimaryKey(String),
    /// `auto_increment = true` or `false`
    AutoIncrement(bool),
    /// `validator = <path>`, by the path's text.
    Validator(String),
    /// Any other argument.
    Unsupported,
}

/// The struct the attribute is applied to.
pub struct ItemStructSyntax {
    /// The struct's visibility tokens as written, printed (empty when private).
    pub vis: String,
    pub name: String,
    pub attrs: Vec<ModelAttrSyntax>,
    pub generics: Vec<GenericParamSyntax>,
    /// The named fields, or `None` for a tuple or unit struct.
    pub fields: Option<Vec<FieldSyntax>>,
}

/// The arguments after one more argument.
pub open spec fn apply_model_arg(c: ConfigView, a: ModelArgSyntax) -> Result<ConfigView, Seq<char>> {
    match a {
        ModelArgSyntax::TableName(v) => if c.table_name is Some {
            Err("duplicate `table_name` option"@)
        } else {
            Ok(ConfigView { table_name: Some(v@), ..c })
        },
        ModelArgSyntax::PrimaryKey(v) => if c.primary_key is Some {
            Err("duplicate `primary_key` option"@)
        } else {
            Ok(ConfigView { primary_key: Some(v@), ..c })
        },
        ModelArgSyntax::AutoIncrement(b) => if c.auto_increment is Some {
            Err("duplicate `auto_increment` option"@)
        } else {
            Ok(ConfigView { auto_increment: Some(b), ..c })
        },
        ModelArgSyntax::Validator(p) => if c.validator is Some {
            Err("duplicate `validator` option"@)
        } else {
            Ok(ConfigView { validator: Some(p@), ..c })
        },
        ModelArgSyntax::Unsupported => Err(
            "unsupported seekwel::model option; expected `table_name`, `primary_key`, `auto_increment`, or `validator`"@,
        ),
    }
}

/// The arguments read from the left; the first refused one ends the reading.
pub open spec fn model_args_after(c: ConfigView, args: Seq<ModelArgSyntax>) -> Result<
    ConfigView,
    Seq<char>,
>
    decreases args.len(),
{
    if args.len() == 0 {
        Ok(c)
    } else {
        match apply_model_arg(c, args[0]) {
            Err(e) => Err(e),
            Ok(next) => model_args_after(next, args.drop_first()),
        }
    }
}

/// The options the attribute's arguments give, or the message of the first refused one.
pub open spec fn model_args(args: Seq<ModelArgSyntax>) -> Result<ConfigView, Seq<char>> {
    model_args_after(no_config(), args)
}

/// Reads the attribute's arguments; a repeated or unknown argument is refused.
pub fn parse_model_args(args: &Vec<ModelArgSyntax>) -> (r: Result<ModelConfig, String>)
    ensures
        match r {
            Ok(c) => model_args(args@) == Ok::<ConfigView, Seq<char>>(c@),
            Err(e) => model_args(args@) == Err::<ConfigView, Seq<char>>(e@),
        },
{
    let mut c = ModelConfig {
        table_name: None,
        primary_key: None,
        auto_increment: None,
        validator: None,
    };
    let mut i: usize = 0;
    assert(args@.skip(0) =~= args@);
    while i < args.len()
        invariant
            i <= args@.len(),
            model_args_after(c@, args@.skip(i as int)) == model_args(args@),
        decreases args@.len() - i,
    {
        assert(args@.skip(i as int).drop_first() =~= args@.skip(i + 1));
        assert(args@.skip(i as int)[0] == args@[i as int]);
        match &args[i] {
            ModelArgSyntax::TableName(v) => {
                if c.table_name.is_some() {
                    return Err(String::from_str("duplicate `table_name` option"));
                }
                c = ModelConfig { table_name: Some(v.clone()), ..c };
            },
            ModelArgSyntax::PrimaryKey(v) => {
                if c.primary_key.is_some() {
                    return Err(String::from_str("duplicate `primary_key` option"));
                }
                c = ModelConfig { primary_key: Some(v.clone()), ..c };
            },
            ModelArgSyntax::AutoIncrement(b) => {
                if c.auto_increment.is_some() {
                    return Err(String::from_str("duplicate `auto_increment` option"));
                }
                c = ModelConfig { auto_increment: Some(*b), ..c };
            },
            ModelArgSyntax::Validator(p) => {
                if c.validator.is_some() {
                    return Err(String::from_str("duplicate `validator` option"));
                }
                c = ModelConfig { validator: Some(p.clone()), ..c };
            },
            ModelArgSyntax::Unsupported => {
                return Err(
                    String::from_str(
                        "unsupported seekwel::model option; expected `table_name`, `primary_key`, `auto_increment`, or `validator`",
                    ),
                );
            },
        }
        i = i + 1;
    }
    Ok(c)
}

/// A struct option by its content.
pub enum OptionView {
    TableName(Seq<char>),
    PrimaryKey(Seq<char>),
    AutoIncrement(bool),
    Validator(Seq<char>),
    Other,
}

/// The content of a struct option.
pub open spec fn option_view(o: ModelOptionSyntax) -> OptionView {
    match o {
        ModelOptionSyntax::TableName(t) => OptionView::TableName(t@),
        ModelOptionSyntax::PrimaryKey(k) => OptionView::PrimaryKey(k@),
        ModelOptionSyntax::AutoIncrement(e) => match e {
            ExprSyntax::Bool(b) => OptionView::AutoIncrement(b),
            _ => OptionView::Other,
        },
        ModelOptionSyntax::Validator(p) => OptionView::Validator(p@),
        ModelOptionSyntax::Unsupported => OptionView::Other,
    }
}

/// The options handed on to the derive for the given arguments: those that were given,
/// in the order table name, primary key, auto-increment, validator.
pub open spec fn forwarded(c: ConfigView) -> Seq<OptionView> {
    (match c.table_name {
        Some(t) => seq![OptionView::TableName(t)],
        None => Seq::empty(),
    }) + (match c.primary_key {
        Some(k) => seq![OptionView::PrimaryKey(k)],
        None => Seq::empty(),
    }) + (match c.auto_increment {
        Some(b) => seq![OptionView::AutoIncrement(b)],
        None => Seq::empty(),
    }) + (match c.validator {
        Some(v) => seq![OptionView::Validator(v)],
        None => Seq::empty(),
    })
}

/// `std::marker::PhantomData<S>`, the type of the injected typestate field.
pub open spec fn is_phantom_state(t: TypeSyntax) -> bool {
    match t {
        TypeSyntax::Path { qualified, segments } => {
            &&& !qualified
            &&& segments@.len() == 3
            &&& segments@[0].ident@ == "std"@ && segments@[0].args is Bare
            &&& segments@[1].ident@ == "marker"@ && segments@[1].args is Bare
            &&& segments@[2].ident@ == "PhantomData"@
            &&& match segments@[2].args {
                PathArgsSyntax::AngleBracketed(args) => args@.len() == 1 && match args@[0] {
                    GenericArgSyntax::Type(TypeSyntax::Path { qualified, segments }) => !qualified
                        && segments@.len() == 1 && segments@[0].ident@ == "S"@
                        && segments@[0].args is Bare,
                    _ => false,
                },
                _ => false,
            }
        },
        TypeSyntax::Other => false,
    }
}

/// Why the attribute refuses its arguments and struct, if it does.
pub open spec fn attribute_error(args: Seq<ModelArgSyntax>, item: ItemStructSyntax) -> Option<
    Seq<char>,
> {
    match model_args(args) {
        Err(e) => Some(e),
        Ok(_) => if item.generics@.len() != 0 {
            Some(
                "seekwel::model only supports non-generic structs; the macro injects the typestate generic for you"@,
            )
        } else {
            match item.fields {
                None => Some("seekwel::model only supports structs with named fields"@),
                Some(fs) => if state_field_count(fs@) != 0 {
                    Some("field name __seekwel_state is reserved by seekwel::model"@)
                } else {
                    None
                },
            }
        },
    }
}

/// `out` is what the attribute makes of `item` with the options `c`: the same name and
/// attributes, followed by `#[derive(seekwel::Model, Clone)]` and then by a
/// `#[seekwel(...)]` with the forwarded options when there are any (read in order, they
/// give `c` back); one type parameter; and the same fields
/// followed by the typestate field.
pub open spec fn is_expansion_of(out: DeriveInputSyntax, c: ConfigView, item: ItemStructSyntax) -> bool {
    &&& out.vis@ == item.vis@
    &&& out.name@ == item.name@
    &&& out.generics@ == seq![GenericParamSyntax::Type]
    &&& out.attrs@.take(item.attrs@.len() as int) == item.attrs@
    &&& out.attrs@.len() > item.attrs@.len()
    &&& out.attrs@[item.attrs@.len() as int] == ModelAttrSyntax::DeriveModel
    &&& if forwarded(c).len() == 0 {
        out.attrs@.len() == item.attrs@.len() + 1
    } else {
        &&& out.attrs@.len() == item.attrs@.len() + 2
        &&& out.attrs@.last() matches ModelAttrSyntax::Seekwel(opts)
        &&& opts@.map_values(|o: ModelOptionSyntax| option_view(o)) == forwarded(c)
        &&& apply_model_options(no_config(), opts@) == Ok::<ConfigView, Seq<char>>(c)
    }
    &&& match (out.data, item.fields) {
        (DataSyntax::NamedStruct(fs), Some(ifs)) => {
            &&& fs@.len() == ifs@.len() + 1
            &&& fs@.take(ifs@.len() as int) == ifs@
            &&& is_state_field(fs@.last())
            &&& fs@.last().attrs@.len() == 0
            &&& is_phantom_state(fs@.last().ty)
        },
        _ => false,
    }
}

/// A path segment without arguments.
fn bare_segment(ident: &str) -> (r: SegmentSyntax)
    ensures
        r.ident@ == ident@,
        r.args is Bare,
{
    SegmentSyntax { ident: String::from_str(ident), args: PathArgsSyntax::Bare }
}

/// `std::marker::PhantomData<S>`.
fn phantom_state_type() -> (r: TypeSyntax)
    ensures
        is_phantom_state(r),
{
    let s = TypeSyntax::Path { qualified: false, segments: vec![bare_segment("S")] };
    let phantom = SegmentSyntax {
        ident: String::from_str("PhantomData"),
        args: PathArgsSyntax::AngleBracketed(vec![GenericArgSyntax::Type(s)]),
    };
    TypeSyntax::Path {
        qualified: false,
        segments: vec![bare_segment("std"), bare_segment("marker"), phantom],
    }
}

/// The struct options that hand the given arguments on to the derive.
fn forwarded_options(c: ModelConfig) -> (r: Vec<ModelOptionSyntax>)
    ensures
        r@.map_values(|o: ModelOptionSyntax| option_view(o)) == forwarded(c@),
        apply_model_options(no_config(), r@) == Ok::<ConfigView, Seq<char>>(c@),
{
    let ghost cv = c@;
    let ghost mut part = no_config();
    let ModelConfig { table_name, primary_key, auto_increment, validator } = c;
    let mut out: Vec<ModelOptionSyntax> = Vec::new();
    let ghost mut want: Seq<OptionView> = Seq::empty();
    match table_name {
        Some(t) => {
            proof {
                want = want.push(OptionView::TableName(t@));
            }
            let ghost before = out@;
            out.push(ModelOptionSyntax::TableName(t));
            proof {
                lemma_apply_options_push(no_config(), before, out@.last());
                part = ConfigView { table_name: cv.table_name, ..part };
            }
        },
        None => {},
    }
    assert(out@.map_values(|o: ModelOptionSyntax| option_view(o)) =~= want);
    assert(apply_model_options(no_config(), out@) == Ok::<ConfigView, Seq<char>>(part));
    match primary_key {
        Some(k) => {
            proof {
                want = want.push(OptionView::PrimaryKey(k@));
            }
            let ghost before = out@;
            out.push(ModelOptionSyntax::PrimaryKey(k));
            proof {
                lemma_apply_options_push(no_config(), before, out@.last());
                part = ConfigView { primary_key: cv.primary_key, ..part };
            }
        },
        None => {},
    }
    assert(out@.map_values(|o: ModelOptionSyntax| option_view(o)) =~= want);
    assert(apply_model_options(no_config(), out@) == Ok::<ConfigView, Seq<char>>(part));
    match auto_increment {
        Some(b) => {
            proof {
                want = want.push(OptionView::AutoIncrement(b));
            }
            let ghost before = out@;
            out.push(ModelOptionSyntax::AutoIncrement(ExprSyntax::Bool(b)));
            proof {
                lemma_apply_options_push(no_config(), before, out@.last());
                part = ConfigView { auto_increment: cv.auto_increment, ..part };
            }
        },
        None => {},
    }
    assert(out@.map_values(|o: ModelOptionSyntax| option_view(o)) =~= want);
    assert(apply_model_options(no_config(), out@) == Ok::<ConfigView, Seq<char>>(part));
    match validator {
        Some(v) => {
            proof {
                want = want.push(OptionView::Validator(v@));
            }
            let ghost before = out@;
            out.push(ModelOptionSyntax::Validator(v));
            proof {
                lemma_apply_options_push(no_config(), before, out@.last());
                part = ConfigView { validator: cv.validator, ..part };
            }
        },
        None => {},
    }
    assert(out@.map_values(|o: ModelOptionSyntax| option_view(o)) =~= want);
    assert(want =~= forwarded(cv));
    assert(part == cv);
    out
}

/// Applies `#[seekwel::model(...)]` to a struct: refuses generic structs, structs
/// without named fields and a field named `__seekwel_state`; otherwise adds the
/// typestate parameter and field and hands the options on to the derive.
pub fn expand_model_attribute(args: &Vec<ModelArgSyntax>, item: ItemStructSyntax) -> (r: Result<
    DeriveInputSyntax,
    String,
>)
    ensures
        match r {
            Err(m) => attribute_error(args@, item) == Some(m@),
            Ok(out) => attribute_error(args@, item) is None && is_expansion_of(
                out,
                model_args(args@)->Ok_0,
                item,
            ),
        },
{
    let config = match parse_model_args(args) {
        Err(e) => {
            return Err(e);
        },
        Ok(c) => c,
    };
    let ghost cv = config@;
    let ItemStructSyntax { vis, name, attrs, generics, fields } = item;
    if generics.len() != 0 {
        return Err(
            String::from_str(
                "seekwel::model only supports non-generic structs; the macro injects the typestate generic for you",
            ),
        );
    }
    let mut fields = match fields {
        Some(f) => f,
        None => {
            return Err(String::from_str("seekwel::model only supports structs with named fields"));
        },
    };
    if count_state_fields(&fields) != 0 {
        return Err(String::from_str("field name __seekwel_state is reserved by seekwel::model"));
    }
    let ghost old_fields = fields@;
    fields.push(
        FieldSyntax {
            ident: String::from_str("__seekwel_state"),
            ty: phantom_state_type(),
            ty_text: String::from_str("std::marker::PhantomData<S>"),
            inner_ty_text: String::new(),
            target_ty_text: String::new(),
            attrs: Vec::new(),
        },
    );
    assert(fields@.take(old_fields.len() as int) =~= old_fields);
    let options = forwarded_options(config);
    let mut attrs = attrs;
    let ghost old_attrs = attrs@;
    attrs.push(ModelAttrSyntax::DeriveModel);
    assert(attrs@.take(old_attrs.len() as int) =~= old_attrs);
    if options.len() != 0 {
        let ghost with_derive = attrs@;
        attrs.push(ModelAttrSyntax::Seekwel(options));
        assert(attrs@.take(old_attrs.len() as int) =~= old_attrs);
        assert(attrs@[old_attrs.len() as int] == with_derive[old_attrs.len() as int]);
    } else {
        assert(options@.map_values(|o: ModelOptionSyntax| option_view(o)).len() == 0);
    }
    let out = DeriveInputSyntax {
        vis,
        name,
        attrs,
        generics: vec![GenericParamSyntax::Type],
        data: DataSyntax::NamedStruct(fields),
    };
    assert(out.generics@ == seq![GenericParamSyntax::Type]);
    Ok(out)
}

/// Whatever `#[seekwel::model(...)]` accepts, the `Model` derive finds in its output
/// one typestate parameter and exactly one typestate field; and when the struct carries
/// no `seekwel` options of its own, the derive reads back exactly the options that were
/// given to the attribute.
pub proof fn lemma_expansion_suits_derive(
    args: Seq<ModelArgSyntax>,
    item: ItemStructSyntax,
    out: DeriveInputSyntax,
)
    requires
        attribute_error(args, item) is None,
        is_expansion_of(out, model_args(args)->Ok_0, item),
    ensures
        typestate_error(out.generics@) is None,
        out.data matches DataSyntax::NamedStruct(fs) && state_field_count(fs@) == 1,
        model_config(item.attrs@) == Ok::<ConfigView, Seq<char>>(no_config()) ==> model_config(
            out.attrs@,
        ) == model_args(args),
{
    let c = model_args(args)->Ok_0;
    assert(out.generics@.len() == 1 && out.generics@[0] == GenericParamSyntax::Type);
    match (out.data, item.fields) {
        (DataSyntax::NamedStruct(fs), Some(ifs)) => {
            assert(fs@.drop_last() =~= fs@.take(ifs@.len() as int));
        },
        _ => {},
    }
    if model_config(item.attrs@) == Ok::<ConfigView, Seq<char>>(no_config()) {
        let n = item.attrs@.len() as int;
        let with_derive = item.attrs@.push(ModelAttrSyntax::DeriveModel);
        lemma_config_after_push(no_config(), item.attrs@, ModelAttrSyntax::DeriveModel);
        let d = seq![ModelAttrSyntax::DeriveModel];
        assert(d.drop_first() =~= Seq::<ModelAttrSyntax>::empty());
        assert(d[0] == ModelAttrSyntax::DeriveModel);
        assert(config_after(no_config(), Seq::<ModelAttrSyntax>::empty()) == Ok::<ConfigView, Seq<char>>(no_config()));
        assert(config_after(no_config(), d) == Ok::<ConfigView, Seq<char>>(no_config()));
        assert(config_after(no_config(), with_derive) == Ok::<ConfigView, Seq<char>>(no_config()));
        if forwarded(c).len() == 0 {
            assert(c == no_config());
            assert(out.attrs@ =~= with_derive);
        } else {
            let last = out.attrs@.last();
            assert(out.attrs@ =~= with_derive.push(last));
            lemma_config_after_push(no_config(), with_derive, last);
            assert(seq![last].drop_first() =~= Seq::<ModelAttrSyntax>::empty());
            assert(seq![last][0] == last);
            assert(config_after(c, Seq::<ModelAttrSyntax>::empty()) == Ok::<ConfigView, Seq<char>>(c));
            assert(config_after(no_config(), seq![last]) == Ok::<ConfigView, Seq<char>>(c));
        }
    }
}

/// Why the plain `#[seekwel::model]` attribute (which takes no arguments) refuses its
/// arguments and struct, if it does.
pub open spec fn plain_attribute_error(has_args: bool, item: ItemStructSyntax) -> Option<Seq<char>> {
    if has_args {
        Some("seekwel::model does not take arguments"@)
    } else if item.generics@.len() != 0 {
        Some(
            "seekwel::model only supports non-generic structs; the macro injects the typestate generic for you"@,
        )
    } else {
        match item.fields {
            None => Some("seekwel::model only supports structs with named fields"@),
            Some(fs) => if state_field_count(fs@) != 0 {
                Some("field name __seekwel_state is reserved by seekwel::model"@)
            } else {
                None
            },
        }
    }
}

/// `out` is what the plain attribute makes of `item`: the same visibility, name and
/// attributes followed by `#[derive(seekwel::Model)]`, one type parameter, and the same
/// fields followed by the typestate field.
pub open spec fn is_plain_expansion_of(out: DeriveInputSyntax, item: ItemStructSyntax) -> bool {
    &&& out.vis@ == item.vis@
    &&& out.name@ == item.name@
    &&& out.generics@ == seq![GenericParamSyntax::Type]
    &&& out.attrs@ == item.attrs@.push(ModelAttrSyntax::DerivePlainModel)
    &&& match (out.data, item.fields) {
        (DataSyntax::NamedStruct(fs), Some(ifs)) => {
            &&& fs@.len() == ifs@.len() + 1
            &&& fs@.take(ifs@.len() as int) == ifs@
            &&& is_state_field(fs@.last())
            &&& fs@.last().attrs@.len() == 0
            &&& is_phantom_state(fs@.last().ty)
        },
        _ => false,
    }
}

/// Applies the plain `#[seekwel::model]` (no arguments) to a struct: refuses arguments,
/// generic structs, structs without named fields and a field named `__seekwel_state`;
/// otherwise adds the typestate parameter and field and `#[derive(seekwel::Model)]`.
pub fn expand_plain_model_attribute(has_args: bool, item: ItemStructSyntax) -> (r: Result<DeriveInputSyntax, String>)
    ensures
        match r {
            Err(m) => plain_attribute_error(has_args, item) == Some(m@),
            Ok(out) => plain_attribute_error(has_args, item) is None && is_plain_expansion_of(out, item),
        },
{
    if has_args {
        return Err(String::from_str("seekwel::model does not take arguments"));
    }
    let ItemStructSyntax { vis, name, attrs, generics, fields } = item;
    if generics.len() != 0 {
        return Err(
            String::from_str(
                "seekwel::model only supports non-generic structs; the macro injects the typestate generic for you",
            ),
        );
    }
    let mut fields = match fields {
        Some(f) => f,
        None => {
            return Err(String::from_str("seekwel::model only supports structs with named fields"));
        },
    };
    if count_state_fields(&fields) != 0 {
        return Err(String::from_str("field name __seekwel_state is reserved by seekwel::model"));
    }
    let ghost old_fields = fields@;
    fields.push(
        FieldSyntax {
            ident: String::from_str("__seekwel_state"),
            ty: phantom_state_type(),
            ty_text: String::from_str("std::marker::PhantomData<S>"),
            inner_ty_text: String::new(),
            target_ty_text: String::new(),
            attrs: Vec::new(),
        },
    );
    assert(fields@.take(old_fields.len() as int) =~= old_fields);
    let mut attrs = attrs;
    attrs.push(ModelAttrSyntax::DerivePlainModel);
    let out = DeriveInputSyntax {
        vis,
        name,
        attrs,
        generics: vec![GenericParamSyntax::Type],
        data: DataSyntax::NamedStruct(fields),
    };
    assert(out.generics@ == seq![GenericParamSyntax::Type]);
    Ok(out)
}

} // verus!
