//! What `#[derive(Model)]` reads from a struct: its `#[seekwel(...)]` options, its
//! primary key, its typestate field, and for every other field the column that stores
//! it or the has-many association it declares.

use vstd::prelude::*;

use crate::model_macro::naming::{
    association_handler_name, column_variant_name, handler_name, ident_name, ident_text,
    lowercase_text, suffixed_ident, unicode_lowercase, variant_name,
};
use crate::model_macro::syntax::{
    belongs_to_target, belongs_to_target_type, last_segment, option_inner, option_inner_type,
    same_text, text_is, DataSyntax, DeriveInputSyntax, ExprSyntax, FieldAttrSyntax,
    FieldOptionSyntax, FieldSyntax, GenericArgSyntax, GenericParamSyntax, ModelAttrSyntax,
    ModelOptionSyntax, PathArgsSyntax, TypeSyntax,
};

verus! {

// ---------------------------------------------------------------------------
// Struct options
// ---------------------------------------------------------------------------

/// The struct options read so far.
pub struct ConfigView {
    pub table_name: Option<Seq<char>>,
    pub primary_key: Option<Seq<char>>,
    pub auto_increment: Option<bool>,
    pub validator: Option<Seq<char>>,
}

/// The options given in a struct's `#[seekwel(...)]` attributes.
pub struct ModelConfig {
    pub table_name: Option<String>,
    pub primary_key: Option<String>,
    pub auto_increment: Option<bool>,
    pub validator: Option<String>,
}

/// The text of an optional string.
pub open spec fn opt_text(o: Option<String>) -> Option<Seq<char>> {
    match o {
        Some(s) => Some(s@),
        None => None,
    }
}

impl View for ModelConfig {
    type V = ConfigView;

    open spec fn view(&self) -> ConfigView {
        ConfigView {
            table_name: opt_text(self.table_name),
            primary_key: opt_text(self.primary_key),
            auto_increment: self.auto_increment,
            validator: opt_text(self.validator),
        }
    }
}

/// No option given yet.
pub open spec fn no_config() -> ConfigView {
    ConfigView { table_name: None, primary_key: None, auto_increment: None, validator: None }
}

/// The options after one more struct option.
pub open spec fn apply_model_option(c: ConfigView, o: ModelOptionSyntax) -> Result<
    ConfigView,
    Seq<char>,
> {
    match o {
        ModelOptionSyntax::TableName(v) => if c.table_name is Some {
            Err("duplicate `table_name` option"@)
        } else {
            Ok(ConfigView { table_name: Some(v@), ..c })
        },
        ModelOptionSyntax::PrimaryKey(v) => if c.primary_key is Some {
            Err("duplicate `primary_key` option"@)
        } else {
            Ok(ConfigView { primary_key: Some(v@), ..c })
        },
        ModelOptionSyntax::AutoIncrement(e) => match e {
            ExprSyntax::Bool(b) => if c.auto_increment is Some {
                Err("duplicate `auto_increment` option"@)
            } else {
                Ok(ConfigView { auto_increment: Some(b), ..c })
            },
            _ => Err("`auto_increment` must be a boolean literal"@),
        },
        ModelOptionSyntax::Validator(p) => if c.validator is Some {
            Err("duplicate `validator` option"@)
        } else {
            Ok(ConfigView { validator: Some(p@), ..c })
        },
        ModelOptionSyntax::Unsupported => Err(
            "unsupported seekwel model option; expected `table_name`, `primary_key`, `auto_increment`, or `validator`"@,
        ),
    }
}

/// The options after the options of one attribute, read from the left; the first
/// refused option ends the reading.
pub open spec fn apply_model_options(c: ConfigView, opts: Seq<ModelOptionSyntax>) -> Result<
    ConfigView,
    Seq<char>,
>
    decreases opts.len(),
{
    if opts.len() == 0 {
        Ok(c)
    } else {
        match apply_model_option(c, opts[0]) {
            Err(e) => Err(e),
            Ok(next) => apply_model_options(next, opts.drop_first()),
        }
    }
}

/// The options after a list of struct attributes; attributes other than `seekwel` are
/// passed over.
pub open spec fn config_after(c: ConfigView, attrs: Seq<ModelAttrSyntax>) -> Result<
    ConfigView,
    Seq<char>,
>
    decreases attrs.len(),
{
    if attrs.len() == 0 {
        Ok(c)
    } else {
        match attrs[0] {
            ModelAttrSyntax::Seekwel(opts) => match apply_model_options(c, opts@) {
                Err(e) => Err(e),
                Ok(next) => config_after(next, attrs.drop_first()),
            },
            _ => config_after(c, attrs.drop_first()),
        }
    }
}

/// Reading one more option after a list of options.
pub proof fn lemma_apply_options_push(c: ConfigView, s: Seq<ModelOptionSyntax>, x: ModelOptionSyntax)
    ensures
        apply_model_options(c, s.push(x)) == match apply_model_options(c, s) {
            Err(e) => Err(e),
            Ok(c2) => apply_model_option(c2, x),
        },
    decreases s.len(),
{
    if s.len() == 0 {
        assert(s.push(x).drop_first() =~= Seq::<ModelOptionSyntax>::empty());
        assert(s.push(x)[0] == x);
        match apply_model_option(c, x) {
            Err(_) => {},
            Ok(n) => {
                assert(apply_model_options(n, s.push(x).drop_first()) == Ok::<ConfigView, Seq<char>>(n));
            },
        }
    } else {
        assert(s.push(x)[0] == s[0]);
        assert(s.push(x).drop_first() =~= s.drop_first().push(x));
        match apply_model_option(c, s[0]) {
            Err(_) => {},
            Ok(n) => {
                lemma_apply_options_push(n, s.drop_first(), x);
            },
        }
    }
}

/// Reading one more attribute after a list of attributes.
pub proof fn lemma_config_after_push(c: ConfigView, a: Seq<ModelAttrSyntax>, x: ModelAttrSyntax)
    ensures
        config_after(c, a.push(x)) == match config_after(c, a) {
            Err(e) => Err(e),
            Ok(c2) => config_after(c2, seq![x]),
        },
    decreases a.len(),
{
    if a.len() == 0 {
        assert(a.push(x) =~= seq![x]);
    } else {
        assert(a.push(x)[0] == a[0]);
        assert(a.push(x).drop_first() =~= a.drop_first().push(x));
        match a[0] {
            ModelAttrSyntax::Seekwel(opts) => match apply_model_options(c, opts@) {
                Err(_) => {},
                Ok(n) => {
                    lemma_config_after_push(n, a.drop_first(), x);
                },
            },
            _ => {
                lemma_config_after_push(c, a.drop_first(), x);
            },
        }
    }
}

/// The options a struct's attributes give, or the message of the first refused one.
pub open spec fn model_config(attrs: Seq<ModelAttrSyntax>) -> Result<ConfigView, Seq<char>> {
    config_after(no_config(), attrs)
}

/// Reads one struct option into `c`.
fn read_model_option(c: ModelConfig, o: &ModelOptionSyntax) -> (r: Result<ModelConfig, String>)
    ensures
        match r {
            Ok(next) => apply_model_option(c@, *o) == Ok::<ConfigView, Seq<char>>(next@),
            Err(e) => apply_model_option(c@, *o) == Err::<ConfigView, Seq<char>>(e@),
        },
{
    match o {
        ModelOptionSyntax::TableName(v) => {
            if c.table_name.is_some() {
                Err(String::from_str("duplicate `table_name` option"))
            } else {
                Ok(ModelConfig { table_name: Some(v.clone()), ..c })
            }
        },
        ModelOptionSyntax::PrimaryKey(v) => {
            if c.primary_key.is_some() {
                Err(String::from_str("duplicate `primary_key` option"))
            } else {
                Ok(ModelConfig { primary_key: Some(v.clone()), ..c })
            }
        },
        ModelOptionSyntax::AutoIncrement(e) => match e {
            ExprSyntax::Bool(b) => {
                if c.auto_increment.is_some() {
                    Err(String::from_str("duplicate `auto_increment` option"))
                } else {
                    Ok(ModelConfig { auto_increment: Some(*b), ..c })
                }
            },
            _ => Err(String::from_str("`auto_increment` must be a boolean literal")),
        },
        ModelOptionSyntax::Validator(p) => {
            if c.validator.is_some() {
                Err(String::from_str("duplicate `validator` option"))
            } else {
                Ok(ModelConfig { validator: Some(p.clone()), ..c })
            }
        },
        ModelOptionSyntax::Unsupported => Err(
            String::from_str(
                "unsupported seekwel model option; expected `table_name`, `primary_key`, `auto_increment`, or `validator`",
            ),
        ),
    }
}

/// Reads the options of a struct's `#[seekwel(...)]` attributes, in order; a repeated or
/// unknown option, or an `auto_increment` that is not a boolean literal, is refused.
pub fn parse_model_config(attrs: &Vec<ModelAttrSyntax>) -> (r: Result<ModelConfig, String>)
    ensures
        match r {
            Ok(c) => model_config(attrs@) == Ok::<ConfigView, Seq<char>>(c@),
            Err(e) => model_config(attrs@) == Err::<ConfigView, Seq<char>>(e@),
        },
{
    let mut config = ModelConfig {
        table_name: None,
        primary_key: None,
        auto_increment: None,
        validator: None,
    };
    let mut i: usize = 0;
    assert(attrs@.skip(0) =~= attrs@);
    while i < attrs.len()
        invariant
            i <= attrs@.len(),
            config_after(config@, attrs@.skip(i as int)) == model_config(attrs@),
        decreases attrs@.len() - i,
    {
        assert(attrs@.skip(i as int).drop_first() =~= attrs@.skip(i + 1));
        assert(attrs@.skip(i as int)[0] == attrs@[i as int]);
        match &attrs[i] {
            ModelAttrSyntax::Seekwel(opts) => {
                let ghost start = config@;
                let mut j: usize = 0;
                assert(opts@.skip(0) =~= opts@);
                while j < opts.len()
                    invariant
                        j <= opts@.len(),
                        i < attrs@.len(),
                        attrs@.skip(i as int)[0] == attrs@[i as int],
                        attrs@[i as int] == ModelAttrSyntax::Seekwel(*opts),
                        config_after(start, attrs@.skip(i as int)) == model_config(attrs@),
                        apply_model_options(config@, opts@.skip(j as int)) == apply_model_options(
                            start,
                            opts@,
                        ),
                    decreases opts@.len() - j,
                {
                    assert(opts@.skip(j as int).drop_first() =~= opts@.skip(j + 1));
                    assert(opts@.skip(j as int)[0] == opts@[j as int]);
                    match read_model_option(config, &opts[j]) {
                        Ok(next) => {
                            config = next;
                        },
                        Err(e) => {
                            return Err(e);
                        },
                    }
                    j = j + 1;
                }
            },
            _ => {},
        }
        i = i + 1;
    }
    Ok(config)
}

// ---------------------------------------------------------------------------
// Field keys
// ---------------------------------------------------------------------------

/// The column named by a key expression: a plain identifier or a string literal, and
/// not empty.
pub open spec fn key_name(e: ExprSyntax) -> Result<Seq<char>, Seq<char>> {
    let refused = "association keys must be column identifiers like owner_id"@;
    let key: Result<Seq<char>, Seq<char>> = match e {
        ExprSyntax::Path { qualified, segments } => if !qualified && segments@.len() == 1 {
            match segments@[0].args {
                PathArgsSyntax::Bare => Ok(ident_text(segments@[0].ident@)),
                _ => Err(refused),
            }
        } else {
            Err(refused)
        },
        ExprSyntax::Str(s) => Ok(s@),
        _ => Err(refused),
    };
    match key {
        Ok(k) => if k.len() == 0 {
            Err("association key column names cannot be empty"@)
        } else {
            Ok(k)
        },
        Err(m) => Err(m),
    }
}

/// The key after one option of a field's `#[seekwel(...)]`.
pub open spec fn apply_field_option(key: Option<Seq<char>>, o: FieldOptionSyntax) -> Result<
    Option<Seq<char>>,
    Seq<char>,
> {
    match o {
        FieldOptionSyntax::Key(e) => if key is Some {
            Err("duplicate `key` attribute"@)
        } else {
            match key_name(e) {
                Ok(k) => Ok(Some(k)),
                Err(m) => Err(m),
            }
        },
        FieldOptionSyntax::Unsupported => Err("unsupported seekwel field option; expected `key`"@),
    }
}

/// The key after the options of one `#[seekwel(...)]`, read from the left.
pub open spec fn apply_field_options(key: Option<Seq<char>>, opts: Seq<FieldOptionSyntax>) -> Result<
    Option<Seq<char>>,
    Seq<char>,
>
    decreases opts.len(),
{
    if opts.len() == 0 {
        Ok(key)
    } else {
        match apply_field_option(key, opts[0]) {
            Err(e) => Err(e),
            Ok(next) => apply_field_options(next, opts.drop_first()),
        }
    }
}

/// The key after one field attribute.
pub open spec fn apply_field_attr(key: Option<Seq<char>>, a: FieldAttrSyntax) -> Result<
    Option<Seq<char>>,
    Seq<char>,
> {
    match a {
        FieldAttrSyntax::Key(e) => if key is Some {
            Err("duplicate `key` attribute"@)
        } else {
            match key_name(e) {
                Ok(k) => Ok(Some(k)),
                Err(m) => Err(m),
            }
        },
        FieldAttrSyntax::KeyNotNameValue => if key is Some {
            Err("duplicate `key` attribute"@)
        } else {
            Err("association keys must be written as #[key = column_name]"@)
        },
        FieldAttrSyntax::Seekwel(opts) => apply_field_options(key, opts@),
        FieldAttrSyntax::Other => Ok(key),
    }
}

/// The key after a list of field attributes, read from the left.
pub open spec fn key_after(key: Option<Seq<char>>, attrs: Seq<FieldAttrSyntax>) -> Result<
    Option<Seq<char>>,
    Seq<char>,
>
    decreases attrs.len(),
{
    if attrs.len() == 0 {
        Ok(key)
    } else {
        match apply_field_attr(key, attrs[0]) {
            Err(e) => Err(e),
            Ok(next) => key_after(next, attrs.drop_first()),
        }
    }
}

/// The association key a field's attributes give, if any, or the message of the first
/// refused attribute.
pub open spec fn association_key(attrs: Seq<FieldAttrSyntax>) -> Result<
    Option<Seq<char>>,
    Seq<char>,
> {
    key_after(None, attrs)
}

/// The column a key expression names.
pub fn key_name_from_expr(e: &ExprSyntax) -> (r: Result<String, String>)
    ensures
        match r {
            Ok(k) => key_name(*e) == Ok::<Seq<char>, Seq<char>>(k@),
            Err(m) => key_name(*e) == Err::<Seq<char>, Seq<char>>(m@),
        },
{
    let key = match e {
        ExprSyntax::Path { qualified, segments } => {
            if !*qualified && segments.len() == 1 {
                match &segments[0].args {
                    PathArgsSyntax::Bare => ident_name(segments[0].ident.as_str()),
                    _ => {
                        return Err(
                            String::from_str(
                                "association keys must be column identifiers like owner_id",
                            ),
                        );
                    },
                }
            } else {
                return Err(
                    String::from_str("association keys must be column identifiers like owner_id"),
                );
            }
        },
        ExprSyntax::Str(s) => s.clone(),
        _ => {
            return Err(
                String::from_str("association keys must be column identifiers like owner_id"),
            );
        },
    };
    if key.as_str().unicode_len() == 0 {
        return Err(String::from_str("association key column names cannot be empty"));
    }
    Ok(key)
}

/// Reads the association key of a field from its `#[key = ...]` and `#[seekwel(key =
/// ...)]` attributes.
pub fn association_key_attr(attrs: &Vec<FieldAttrSyntax>) -> (r: Result<Option<String>, String>)
    ensures
        match r {
            Ok(k) => association_key(attrs@) == Ok::<Option<Seq<char>>, Seq<char>>(opt_text(k)),
            Err(m) => association_key(attrs@) == Err::<Option<Seq<char>>, Seq<char>>(m@),
        },
{
    let mut key: Option<String> = None;
    let mut i: usize = 0;
    assert(attrs@.skip(0) =~= attrs@);
    while i < attrs.len()
        invariant
            i <= attrs@.len(),
            key_after(opt_text(key), attrs@.skip(i as int)) == association_key(attrs@),
        decreases attrs@.len() - i,
    {
        assert(attrs@.skip(i as int).drop_first() =~= attrs@.skip(i + 1));
        assert(attrs@.skip(i as int)[0] == attrs@[i as int]);
        match &attrs[i] {
            FieldAttrSyntax::Key(e) => {
                if key.is_some() {
                    return Err(String::from_str("duplicate `key` attribute"));
                }
                match key_name_from_expr(e) {
                    Ok(k) => {
                        key = Some(k);
                    },
                    Err(m) => {
                        return Err(m);
                    },
                }
            },
            FieldAttrSyntax::KeyNotNameValue => {
                if key.is_some() {
                    return Err(String::from_str("duplicate `key` attribute"));
                }
                return Err(
                    String::from_str("association keys must be written as #[key = column_name]"),
                );
            },
            FieldAttrSyntax::Seekwel(opts) => {
                let ghost start = opt_text(key);
                let mut j: usize = 0;
                assert(opts@.skip(0) =~= opts@);
                while j < opts.len()
                    invariant
                        j <= opts@.len(),
                        i < attrs@.len(),
                        attrs@.skip(i as int)[0] == attrs@[i as int],
                        attrs@[i as int] == FieldAttrSyntax::Seekwel(*opts),
                        key_after(start, attrs@.skip(i as int)) == association_key(attrs@),
                        apply_field_options(opt_text(key), opts@.skip(j as int))
                            == apply_field_options(start, opts@),
                    decreases opts@.len() - j,
                {
                    assert(opts@.skip(j as int).drop_first() =~= opts@.skip(j + 1));
                    assert(opts@.skip(j as int)[0] == opts@[j as int]);
                    match &opts[j] {
                        FieldOptionSyntax::Key(e) => {
                            if key.is_some() {
                                return Err(String::from_str("duplicate `key` attribute"));
                            }
                            match key_name_from_expr(e) {
                                Ok(k) => {
                                    key = Some(k);
                                },
                                Err(m) => {
                                    return Err(m);
                                },
                            }
                        },
                        FieldOptionSyntax::Unsupported => {
                            return Err(
                                String::from_str("unsupported seekwel field option; expected `key`"),
                            );
                        },
                    }
                    j = j + 1;
                }
            },
            FieldAttrSyntax::Other => {},
        }
        i = i + 1;
    }
    Ok(key)
}

// ---------------------------------------------------------------------------
// Fields
// ---------------------------------------------------------------------------

/// The outcome of looking for `HasMany<Child>` in a type: the child type, no has-many
/// association, or the message for a malformed one.
pub open spec fn has_many_child(t: TypeSyntax) -> Result<Option<TypeSyntax>, Seq<char>> {
    match last_segment(t) {
        None => Ok(None),
        Some(seg) => if seg.ident@ != "HasMany"@ {
            Ok(None)
        } else {
            match seg.args {
                PathArgsSyntax::AngleBracketed(args) => if args@.len() != 1 {
                    Err(
                        "HasMany fields must use exactly one generic argument: `HasMany<Child>`; put the child foreign key on the field with #[key = child_id]"@,
                    )
                } else {
                    match args@[0] {
                        GenericArgSyntax::Type(c) => Ok(Some(c)),
                        GenericArgSyntax::Other => Err(
                            "The HasMany argument must be the child model type"@,
                        ),
                    }
                },
                _ => Err("HasMany fields must use `HasMany<Child>` and #[key = child_id]"@),
            }
        },
    }
}

/// The model a field points at: the `T` of `BelongsTo<T>` or of `Option<BelongsTo<T>>`.
pub open spec fn association_target_of(t: TypeSyntax) -> Option<TypeSyntax> {
    match belongs_to_target(t) {
        Some(x) => Some(x),
        None => match option_inner(t) {
            Some(i) => belongs_to_target(i),
            None => None,
        },
    }
}

/// What the rules make of a stored field.
pub struct StoredFieldView {
    pub ident: Seq<char>,
    pub ty: TypeSyntax,
    pub ty_text: Seq<char>,
    pub inner_ty_text: Seq<char>,
    pub target_ty_text: Seq<char>,
    pub field_name: Seq<char>,
    pub storage_column_name: Seq<char>,
    pub query_variant: Seq<char>,
    pub association_handler: Seq<char>,
    pub is_optional: bool,
}

/// What the rules make of a has-many field.
pub struct HasManyFieldView {
    pub ident: Seq<char>,
    pub field_name: Seq<char>,
    pub child_ty: TypeSyntax,
    pub association_handler: Seq<char>,
}

/// What the rules make of a field.
pub enum FieldView {
    Stored(StoredFieldView),
    HasMany(HasManyFieldView),
}

/// A field stored in a column of the model's table.
pub struct StoredFieldSpec {
    pub ident: String,
    pub ty: TypeSyntax,
    pub ty_text: String,
    pub inner_ty_text: String,
    pub target_ty_text: String,
    pub field_name: String,
    pub storage_column_name: String,
    pub query_variant: String,
    pub association_handler: String,
    pub is_optional: bool,
}

/// A `HasMany<Child>` field, loaded through the child's key column.
pub struct HasManyFieldSpec {
    pub ident: String,
    pub field_name: String,
    pub child_ty: TypeSyntax,
    pub association_handler: String,
}

/// A field of a model after analysis.
pub enum ModelFieldSpec {
    Stored(StoredFieldSpec),
    HasMany(HasManyFieldSpec),
}

impl View for StoredFieldSpec {
    type V = StoredFieldView;

    open spec fn view(&self) -> StoredFieldView {
        StoredFieldView {
            ident: self.ident@,
            ty: self.ty,
            ty_text: self.ty_text@,
            inner_ty_text: self.inner_ty_text@,
            target_ty_text: self.target_ty_text@,
            field_name: self.field_name@,
            storage_column_name: self.storage_column_name@,
            query_variant: self.query_variant@,
            association_handler: self.association_handler@,
            is_optional: self.is_optional,
        }
    }
}

impl View for HasManyFieldSpec {
    type V = HasManyFieldView;

    open spec fn view(&self) -> HasManyFieldView {
        HasManyFieldView {
            ident: self.ident@,
            field_name: self.field_name@,
            child_ty: self.child_ty,
            association_handler: self.association_handler@,
        }
    }
}

impl View for ModelFieldSpec {
    type V = FieldView;

    open spec fn view(&self) -> FieldView {
        match self {
            ModelFieldSpec::Stored(s) => FieldView::Stored(s@),
            ModelFieldSpec::HasMany(h) => FieldView::HasMany(h@),
        }
    }
}

impl StoredFieldSpec {
    /// The `T` of a field typed `Option<T>`.
    pub fn optional_inner_ty(&self) -> (r: Option<&TypeSyntax>)
        ensures
            match r {
                Some(inner) => option_inner(self.ty) == Some(*inner),
                None => option_inner(self.ty) is None,
            },
    {
        option_inner_type(&self.ty)
    }

    /// The model a `BelongsTo<T>` or `Option<BelongsTo<T>>` field points at.
    pub fn association_target(&self) -> (r: Option<&TypeSyntax>)
        ensures
            match r {
                Some(t) => association_target_of(self.ty) == Some(*t),
                None => association_target_of(self.ty) is None,
            },
    {
        association_target_type(&self.ty)
    }
}

/// What a stored field becomes: its column is its own name, or `<name>_id` or the
/// given key for an association.
pub open spec fn stored_outcome(f: FieldSyntax) -> Result<FieldView, Seq<char>> {
    let name = ident_text(f.ident@);
    let target = association_target_of(f.ty);
    let target_is_option = match target {
        Some(t) => option_inner(t) is Some,
        None => false,
    };
    match association_key(f.attrs@) {
        Err(e) => Err(e),
        Ok(key) => if target_is_option {
            Err("BelongsTo<Option<T>> is not supported; use Option<BelongsTo<T>> instead"@)
        } else {
            let column: Result<Seq<char>, Seq<char>> = match key {
                Some(k) => if target is Some {
                    Ok(k)
                } else {
                    Err(
                        "#[key = column_name] can only be used on BelongsTo or HasMany association fields"@,
                    )
                },
                None => if target is Some {
                    Ok(name + "_id"@)
                } else {
                    Ok(name)
                },
            };
            match column {
                Err(e) => Err(e),
                Ok(c) => Ok(
                    FieldView::Stored(
                        StoredFieldView {
                            ident: f.ident@,
                            ty: f.ty,
                            ty_text: f.ty_text@,
                            inner_ty_text: f.inner_ty_text@,
                            target_ty_text: f.target_ty_text@,
                            field_name: name,
                            storage_column_name: c,
                            query_variant: variant_name(c),
                            association_handler: handler_name(c),
                            is_optional: option_inner(f.ty) is Some,
                        },
                    ),
                ),
            }
        },
    }
}

/// What a field (other than the key and the typestate field) becomes.
pub open spec fn field_outcome(f: FieldSyntax) -> Result<FieldView, Seq<char>> {
    let optional_has_many: Result<bool, Seq<char>> = match option_inner(f.ty) {
        Some(inner) => match has_many_child(inner) {
            Err(e) => Err(e),
            Ok(c) => Ok(c is Some),
        },
        None => Ok(false),
    };
    match optional_has_many {
        Err(e) => Err(e),
        Ok(true) => Err("Option<HasMany<T>> is not supported"@),
        Ok(false) => match has_many_child(f.ty) {
            Err(e) => Err(e),
            Ok(Some(child)) => match association_key(f.attrs@) {
                Err(e) => Err(e),
                Ok(None) => Err(
                    "HasMany fields must specify the child foreign key with #[key = owner_id]"@,
                ),
                Ok(Some(k)) => Ok(
                    FieldView::HasMany(
                        HasManyFieldView {
                            ident: f.ident@,
                            field_name: ident_text(f.ident@),
                            child_ty: child,
                            association_handler: handler_name(k),
                        },
                    ),
                ),
            },
            Ok(None) => stored_outcome(f),
        },
    }
}

/// A `BelongsTo<T>` or `Option<BelongsTo<T>>` field without an explicit key is stored in
/// the column `<field>_id`, and is queried through the variant named after that column.
pub proof fn lemma_belongs_to_column(f: FieldSyntax)
    requires
        association_target_of(f.ty) matches Some(t) && option_inner(t) is None,
        association_key(f.attrs@) == Ok::<Option<Seq<char>>, Seq<char>>(None),
    ensures
        field_outcome(f) matches Ok(FieldView::Stored(v)) && v.storage_column_name == ident_text(
            f.ident@,
        ) + "_id"@ && v.query_variant == variant_name(ident_text(f.ident@) + "_id"@),
{
    reveal_strlit("HasMany");
    reveal_strlit("BelongsTo");
    reveal_strlit("Option");
    assert("BelongsTo"@.len() != "HasMany"@.len());
    assert("Option"@.len() != "HasMany"@.len());
    assert("Option"@.len() != "BelongsTo"@.len());
    if belongs_to_target(f.ty) is Some {
        assert(has_many_child(f.ty) == Ok::<Option<TypeSyntax>, Seq<char>>(None));
        assert(option_inner(f.ty) is None);
    } else {
        let i = option_inner(f.ty)->Some_0;
        assert(has_many_child(f.ty) == Ok::<Option<TypeSyntax>, Seq<char>>(None));
        assert(has_many_child(i) == Ok::<Option<TypeSyntax>, Seq<char>>(None));
    }
}

/// The model a field type points at.
fn association_target_type(t: &TypeSyntax) -> (r: Option<&TypeSyntax>)
    ensures
        match r {
            Some(x) => association_target_of(*t) == Some(*x),
            None => association_target_of(*t) is None,
        },
{
    match belongs_to_target_type(t) {
        Some(x) => Some(x),
        None => match option_inner_type(t) {
            Some(i) => belongs_to_target_type(i),
            None => None,
        },
    }
}

/// Whether a type is `HasMany<Child>`, or the message for a malformed `HasMany`.
fn has_many_type(t: &TypeSyntax) -> (r: Result<bool, String>)
    ensures
        match r {
            Ok(b) => has_many_child(*t) is Ok && b == (has_many_child(*t)->Ok_0 is Some),
            Err(m) => has_many_child(*t) == Err::<Option<TypeSyntax>, Seq<char>>(m@),
        },
{
    match t {
        TypeSyntax::Path { segments, .. } => {
            if segments.len() == 0 {
                return Ok(false);
            }
            let seg = &segments[segments.len() - 1];
            if !text_is(&seg.ident, "HasMany") {
                return Ok(false);
            }
            match &seg.args {
                PathArgsSyntax::AngleBracketed(args) => {
                    if args.len() != 1 {
                        return Err(
                            String::from_str(
                                "HasMany fields must use exactly one generic argument: `HasMany<Child>`; put the child foreign key on the field with #[key = child_id]",
                            ),
                        );
                    }
                    match &args[0] {
                        GenericArgSyntax::Type(_) => Ok(true),
                        GenericArgSyntax::Other => Err(
                            String::from_str("The HasMany argument must be the child model type"),
                        ),
                    }
                },
                _ => Err(
                    String::from_str(
                        "HasMany fields must use `HasMany<Child>` and #[key = child_id]",
                    ),
                ),
            }
        },
        TypeSyntax::Other => Ok(false),
    }
}

/// The child type of `HasMany<Child>`, taken out of the type.
fn take_has_many_child(t: TypeSyntax) -> (r: TypeSyntax)
    requires
        has_many_child(t) matches Ok(Some(_)),
    ensures
        has_many_child(t) == Ok::<Option<TypeSyntax>, Seq<char>>(Some(r)),
{
    match t {
        TypeSyntax::Path { segments, .. } => {
            let mut segments = segments;
            let seg = segments.pop().unwrap();
            match seg.args {
                PathArgsSyntax::AngleBracketed(args) => {
                    let mut args = args;
                    match args.remove(0) {
                        GenericArgSyntax::Type(c) => c,
                        GenericArgSyntax::Other => {
                            proof {
                                assert(false);
                            }
                            TypeSyntax::Other
                        },
                    }
                },
                _ => {
                    proof {
                        assert(false);
                    }
                    TypeSyntax::Other
                },
            }
        },
        TypeSyntax::Other => {
            proof {
                assert(false);
            }
            TypeSyntax::Other
        },
    }
}

/// Analyses one field: a `HasMany<Child>` association with its key, or a stored field
/// with the column that holds it.
pub fn analyze_model_field(field: FieldSyntax) -> (r: Result<ModelFieldSpec, String>)
    ensures
        match r {
            Ok(s) => field_outcome(field) == Ok::<FieldView, Seq<char>>(s@),
            Err(m) => field_outcome(field) == Err::<FieldView, Seq<char>>(m@),
        },
{
    let FieldSyntax { ident, ty, ty_text, inner_ty_text, target_ty_text, attrs } = field;
    let field_name = ident_name(ident.as_str());
    match option_inner_type(&ty) {
        Some(inner) => match has_many_type(inner) {
            Err(e) => {
                return Err(e);
            },
            Ok(true) => {
                return Err(String::from_str("Option<HasMany<T>> is not supported"));
            },
            Ok(false) => {},
        },
        None => {},
    }
    match has_many_type(&ty) {
        Err(e) => {
            return Err(e);
        },
        Ok(true) => {
            let key = match association_key_attr(&attrs) {
                Err(e) => {
                    return Err(e);
                },
                Ok(None) => {
                    return Err(
                        String::from_str(
                            "HasMany fields must specify the child foreign key with #[key = owner_id]",
                        ),
                    );
                },
                Ok(Some(k)) => k,
            };
            let association_handler = association_handler_name(key.as_str());
            let child_ty = take_has_many_child(ty);
            return Ok(
                ModelFieldSpec::HasMany(
                    HasManyFieldSpec { ident, field_name, child_ty, association_handler },
                ),
            );
        },
        Ok(false) => {},
    }
    let is_optional = option_inner_type(&ty).is_some();
    let (has_target, target_is_option) = match association_target_type(&ty) {
        Some(t) => (true, option_inner_type(t).is_some()),
        None => (false, false),
    };
    let key = match association_key_attr(&attrs) {
        Err(e) => {
            return Err(e);
        },
        Ok(k) => k,
    };
    if target_is_option {
        return Err(
            String::from_str(
                "BelongsTo<Option<T>> is not supported; use Option<BelongsTo<T>> instead",
            ),
        );
    }
    let storage_column_name = match key {
        Some(k) => {
            if has_target {
                k
            } else {
                return Err(
                    String::from_str(
                        "#[key = column_name] can only be used on BelongsTo or HasMany association fields",
                    ),
                );
            }
        },
        None => {
            if has_target {
                let mut c = field_name.clone();
                c.append("_id");
                c
            } else {
                field_name.clone()
            }
        },
    };
    let query_variant = column_variant_name(storage_column_name.as_str());
    let association_handler = association_handler_name(storage_column_name.as_str());
    Ok(
        ModelFieldSpec::Stored(
            StoredFieldSpec {
                ident,
                ty,
                ty_text,
                inner_ty_text,
                target_ty_text,
                field_name,
                storage_column_name,
                query_variant,
                association_handler,
                is_optional,
            },
        ),
    )
}

// ---------------------------------------------------------------------------
// Models
// ---------------------------------------------------------------------------

/// What the rules make of the primary key.
pub struct PrimaryKeyView {
    pub ident: Seq<char>,
    pub ty: TypeSyntax,
    pub ty_text: Seq<char>,
    pub field_name: Seq<char>,
    pub query_variant: Seq<char>,
    pub auto_increment: bool,
}

/// What the rules make of a model declaration.
pub struct ModelView {
    pub vis: Seq<char>,
    pub name: Seq<char>,
    pub table_name: Seq<char>,
    pub builder_name: Seq<char>,
    pub columns_name: Seq<char>,
    pub generics: Seq<GenericParamSyntax>,
    pub state_field_name: Seq<char>,
    pub validator: Seq<char>,
    pub primary_key: PrimaryKeyView,
    pub fields: Seq<FieldView>,
}

/// The primary key of a model after analysis.
pub struct PrimaryKeySpec {
    pub ident: String,
    pub ty: TypeSyntax,
    pub ty_text: String,
    pub field_name: String,
    pub query_variant: String,
    pub auto_increment: bool,
}

/// A model declaration after analysis: everything the derive generates code from.
pub struct ModelSpec {
    /// The struct's visibility, printed; the generated enum and structs share it.
    pub vis: String,
    pub name: String,
    pub table_name: String,
    pub builder_name: String,
    pub columns_name: String,
    pub generics: Vec<GenericParamSyntax>,
    pub state_field_name: String,
    pub validator: String,
    pub primary_key: PrimaryKeySpec,
    pub fields: Vec<ModelFieldSpec>,
}

impl View for PrimaryKeySpec {
    type V = PrimaryKeyView;

    open spec fn view(&self) -> PrimaryKeyView {
        PrimaryKeyView {
            ident: self.ident@,
            ty: self.ty,
            ty_text: self.ty_text@,
            field_name: self.field_name@,
            query_variant: self.query_variant@,
            auto_increment: self.auto_increment,
        }
    }
}

/// The views of analysed fields.
pub open spec fn field_views(fs: Seq<ModelFieldSpec>) -> Seq<FieldView> {
    fs.map_values(|f: ModelFieldSpec| f@)
}

impl View for ModelSpec {
    type V = ModelView;

    open spec fn view(&self) -> ModelView {
        ModelView {
            vis: self.vis@,
            name: self.name@,
            table_name: self.table_name@,
            builder_name: self.builder_name@,
            columns_name: self.columns_name@,
            generics: self.generics@,
            state_field_name: self.state_field_name@,
            validator: self.validator@,
            primary_key: self.primary_key@,
            fields: field_views(self.fields@),
        }
    }
}

/// The message for generics other than one type parameter, if they are.
pub open spec fn typestate_error(g: Seq<GenericParamSyntax>) -> Option<Seq<char>> {
    if g.len() != 1 {
        Some(
            "Model derives require exactly one typestate type parameter; use #[seekwel::model] to generate it automatically"@,
        )
    } else if g[0] != GenericParamSyntax::Type {
        Some("Model derives only support a single typestate type parameter"@)
    } else {
        None
    }
}

/// The integer types a primary key may have.
pub open spec fn is_key_type_name(n: Seq<char>) -> bool {
    n == "u64"@ || n == "u32"@ || n == "u16"@ || n == "u8"@ || n == "i64"@ || n == "i32"@ || n
        == "i16"@ || n == "i8"@
}

/// Whether a type is written as one of the supported integer types.
pub open spec fn is_supported_key_type(t: TypeSyntax) -> bool {
    match t {
        TypeSyntax::Path { qualified, segments } => !qualified && segments@.len() == 1
            && segments@[0].args is Bare && is_key_type_name(segments@[0].ident@),
        TypeSyntax::Other => false,
    }
}

/// The positions of the fields named `key`, in order.
pub open spec fn key_field_positions(fs: Seq<FieldSyntax>, key: Seq<char>) -> Seq<int>
    decreases fs.len(),
{
    if fs.len() == 0 {
        Seq::empty()
    } else {
        let prev = key_field_positions(fs.drop_last(), key);
        if ident_text(fs.last().ident@) == key {
            prev.push(fs.len() - 1)
        } else {
            prev
        }
    }
}

/// Whether a field is the typestate field the attribute macro injects.
pub open spec fn is_state_field(f: FieldSyntax) -> bool {
    f.ident@ == "__seekwel_state"@
}

/// How many typestate fields there are.
pub open spec fn state_field_count(fs: Seq<FieldSyntax>) -> nat
    decreases fs.len(),
{
    if fs.len() == 0 {
        0
    } else {
        state_field_count(fs.drop_last()) + if is_state_field(fs.last()) {
            1nat
        } else {
            0nat
        }
    }
}

/// The analysed fields, read from the left: the key field (by its identifier) and the
/// typestate field are left out; the first refused field ends the reading.
pub open spec fn model_fields_outcome(fs: Seq<FieldSyntax>, key_ident: Seq<char>) -> Result<
    Seq<FieldView>,
    Seq<char>,
>
    decreases fs.len(),
{
    if fs.len() == 0 {
        Ok(Seq::empty())
    } else if fs[0].ident@ == key_ident || is_state_field(fs[0]) {
        model_fields_outcome(fs.drop_first(), key_ident)
    } else {
        match field_outcome(fs[0]) {
            Err(e) => Err(e),
            Ok(v) => match model_fields_outcome(fs.drop_first(), key_ident) {
                Err(e) => Err(e),
                Ok(vs) => Ok(seq![v] + vs),
            },
        }
    }
}

/// What a whole model declaration becomes, or the message of the first rule it breaks.
pub open spec fn model_outcome(input: DeriveInputSyntax) -> Result<ModelView, Seq<char>> {
    match model_config(input.attrs@) {
        Err(e) => Err(e),
        Ok(cfg) => {
            let table_name = match cfg.table_name {
                Some(t) => t,
                None => unicode_lowercase(input.name@),
            };
            let key = match cfg.primary_key {
                Some(k) => k,
                None => "id"@,
            };
            let auto_increment = match cfg.auto_increment {
                Some(b) => b,
                None => true,
            };
            let validator = match cfg.validator {
                Some(v) => v,
                None => "seekwel::model::NoValidation"@,
            };
            match typestate_error(input.generics@) {
                Some(m) => Err(m),
                None => match input.data {
                    DataSyntax::NotStruct => Err("Model can only be derived for structs"@),
                    DataSyntax::OtherStruct => Err(
                        "Model only supports structs with named fields"@,
                    ),
                    DataSyntax::NamedStruct(fields) => {
                        let fs = fields@;
                        let keys = key_field_positions(fs, key);
                        if keys.len() != 1 {
                            Err("Model structs must contain exactly one `"@ + key + "` field"@)
                        } else if !is_supported_key_type(fs[keys[0]].ty) {
                            Err(
                                "Primary key fields must use a supported integer type: u64, u32, u16, u8, i64, i32, i16, or i8"@,
                            )
                        } else if state_field_count(fs) != 1 {
                            Err(
                                "Model structs must contain exactly one __seekwel_state typestate field; use #[seekwel::model] to have it injected automatically"@,
                            )
                        } else {
                            let kf = fs[keys[0]];
                            match model_fields_outcome(fs, kf.ident@) {
                                Err(e) => Err(e),
                                Ok(views) => Ok(
                                    ModelView {
                                        vis: input.vis@,
                                        name: input.name@,
                                        table_name,
                                        builder_name: ident_text(input.name@) + "Builder"@,
                                        columns_name: ident_text(input.name@) + "Columns"@,
                                        generics: input.generics@,
                                        state_field_name: "__seekwel_state"@,
                                        validator,
                                        primary_key: PrimaryKeyView {
                                            ident: kf.ident@,
                                            ty: kf.ty,
                                            ty_text: kf.ty_text@,
                                            field_name: key,
                                            query_variant: variant_name(key),
                                            auto_increment,
                                        },
                                        fields: views,
                                    },
                                ),
                            }
                        }
                    },
                },
            }
        },
    }
}

/// The message for generics other than one type parameter.
fn typestate_check(g: &Vec<GenericParamSyntax>) -> (r: Option<String>)
    ensures
        match r {
            Some(m) => typestate_error(g@) == Some(m@),
            None => typestate_error(g@) is None,
        },
{
    if g.len() != 1 {
        Some(
            String::from_str(
                "Model derives require exactly one typestate type parameter; use #[seekwel::model] to generate it automatically",
            ),
        )
    } else if g[0] != GenericParamSyntax::Type {
        Some(String::from_str("Model derives only support a single typestate type parameter"))
    } else {
        None
    }
}

/// Whether a type is written as one of the supported integer types.
fn supported_key_type(t: &TypeSyntax) -> (r: bool)
    ensures
        r == is_supported_key_type(*t),
{
    match t {
        TypeSyntax::Path { qualified, segments } => {
            if *qualified || segments.len() != 1 {
                return false;
            }
            match &segments[0].args {
                PathArgsSyntax::Bare => {},
                _ => {
                    return false;
                },
            }
            let n = &segments[0].ident;
            text_is(n, "u64") || text_is(n, "u32") || text_is(n, "u16") || text_is(n, "u8")
                || text_is(n, "i64") || text_is(n, "i32") || text_is(n, "i16") || text_is(n, "i8")
        },
        TypeSyntax::Other => false,
    }
}

/// How many fields are named `key`, and the position of the last of them.
fn find_key_fields(fields: &Vec<FieldSyntax>, key: &String) -> (r: (usize, usize))
    ensures
        r.0 == key_field_positions(fields@, key@).len(),
        r.0 > 0 ==> r.1 == key_field_positions(fields@, key@).last() && r.1 < fields@.len(),
{
    let mut count: usize = 0;
    let mut at: usize = 0;
    let mut i: usize = 0;
    while i < fields.len()
        invariant
            i <= fields@.len(),
            count == key_field_positions(fields@.take(i as int), key@).len(),
            count <= i,
            count > 0 ==> at == key_field_positions(fields@.take(i as int), key@).last() && at
                < i,
        decreases fields@.len() - i,
    {
        assert(fields@.take(i + 1).drop_last() =~= fields@.take(i as int));
        let name = ident_name(fields[i].ident.as_str());
        if same_text(&name, key) {
            count = count + 1;
            at = i;
        }
        i = i + 1;
    }
    assert(fields@.take(fields@.len() as int) =~= fields@);
    (count, at)
}

/// How many typestate fields there are.
pub(crate) fn count_state_fields(fields: &Vec<FieldSyntax>) -> (r: usize)
    ensures
        r == state_field_count(fields@),
{
    let mut count: usize = 0;
    let mut i: usize = 0;
    while i < fields.len()
        invariant
            i <= fields@.len(),
            count == state_field_count(fields@.take(i as int)),
            count <= i,
        decreases fields@.len() - i,
    {
        assert(fields@.take(i + 1).drop_last() =~= fields@.take(i as int));
        if text_is(&fields[i].ident, "__seekwel_state") {
            count = count + 1;
        }
        i = i + 1;
    }
    assert(fields@.take(fields@.len() as int) =~= fields@);
    count
}

/// `done` put in front of the fields still to come, or the error they end in.
pub open spec fn prepend_views(done: Seq<FieldView>, rest: Result<Seq<FieldView>, Seq<char>>) -> Result<
    Seq<FieldView>,
    Seq<char>,
> {
    match rest {
        Ok(vs) => Ok(done + vs),
        Err(e) => Err(e),
    }
}

proof fn lemma_prepend_step(done: Seq<FieldView>, v: FieldView, rest: Result<Seq<FieldView>, Seq<char>>)
    ensures
        prepend_views(
            done,
            match rest {
                Err(e) => Err(e),
                Ok(vs) => Ok(seq![v] + vs),
            },
        ) == prepend_views(done.push(v), rest),
{
    match rest {
        Ok(vs) => {
            assert(done + (seq![v] + vs) =~= done.push(v) + vs);
        },
        Err(_) => {},
    }
}

/// Analyses a model declaration: reads its options, checks its typestate parameter,
/// its primary key and its typestate field, and analyses every other field in order.
pub fn analyze_model(input: DeriveInputSyntax) -> (r: Result<ModelSpec, String>)
    ensures
        match r {
            Ok(m) => model_outcome(input) == Ok::<ModelView, Seq<char>>(m@),
            Err(e) => model_outcome(input) == Err::<ModelView, Seq<char>>(e@),
        },
{
    let DeriveInputSyntax { vis, name, attrs, generics, data } = input;
    let config = match parse_model_config(&attrs) {
        Err(e) => {
            return Err(e);
        },
        Ok(c) => c,
    };
    let ModelConfig { table_name, primary_key, auto_increment, validator } = config;
    let table_name = match table_name {
        Some(t) => t,
        None => lowercase_text(name.as_str()),
    };
    let key = match primary_key {
        Some(k) => k,
        None => String::from_str("id"),
    };
    let auto_increment = match auto_increment {
        Some(b) => b,
        None => true,
    };
    let validator = match validator {
        Some(v) => v,
        None => String::from_str("seekwel::model::NoValidation"),
    };
    let builder_name = suffixed_ident(name.as_str(), "Builder");
    let columns_name = suffixed_ident(name.as_str(), "Columns");
    match typestate_check(&generics) {
        Some(m) => {
            return Err(m);
        },
        None => {},
    }
    let fields = match data {
        DataSyntax::NamedStruct(f) => f,
        DataSyntax::OtherStruct => {
            return Err(String::from_str("Model only supports structs with named fields"));
        },
        DataSyntax::NotStruct => {
            return Err(String::from_str("Model can only be derived for structs"));
        },
    };
    let ghost fs = fields@;
    let (count, at) = find_key_fields(&fields, &key);
    if count != 1 {
        let mut m = String::from_str("Model structs must contain exactly one `");
        m.append(key.as_str());
        m.append("` field");
        return Err(m);
    }
    if !supported_key_type(&fields[at].ty) {
        return Err(
            String::from_str(
                "Primary key fields must use a supported integer type: u64, u32, u16, u8, i64, i32, i16, or i8",
            ),
        );
    }
    if count_state_fields(&fields) != 1 {
        return Err(
            String::from_str(
                "Model structs must contain exactly one __seekwel_state typestate field; use #[seekwel::model] to have it injected automatically",
            ),
        );
    }
    let key_ident = fields[at].ident.clone();
    let key_ty_text = fields[at].ty_text.clone();
    let query_variant = column_variant_name(key.as_str());
    let mut rest = fields;
    let mut out: Vec<ModelFieldSpec> = Vec::new();
    let mut key_ty: Option<TypeSyntax> = None;
    let mut i: usize = 0;
    assert(fs.skip(0) =~= fs);
    assert(fs.len() == rest.len());
    while rest.len() > 0
        invariant
            rest@ == fs.skip(i as int),
            i <= fs.len(),
            fs.len() <= usize::MAX,
            at < fs.len(),
            key_ident@ == fs[at as int].ident@,
            prepend_views(field_views(out@), model_fields_outcome(rest@, key_ident@))
                == model_fields_outcome(fs, key_ident@),
            i <= at ==> key_ty is None,
            i > at ==> key_ty == Some(fs[at as int].ty),
            (model_fields_outcome(fs, key_ident@) matches Err(e) ==> model_outcome(input) == Err::<
                ModelView,
                Seq<char>,
            >(e)),
        decreases rest@.len(),
    {
        assert(rest@.len() == fs.len() - i);
        assert(rest@[0] == fs[i as int]);
        assert(rest@.drop_first() =~= fs.skip(i + 1));
        let ghost cur = rest@;
        let f = rest.remove(0);
        if same_text(&f.ident, &key_ident) || text_is(&f.ident, "__seekwel_state") {
            if i == at {
                let FieldSyntax { ty, .. } = f;
                key_ty = Some(ty);
            }
        } else {
            let ghost before = out@;
            match analyze_model_field(f) {
                Err(e) => {
                    return Err(e);
                },
                Ok(spec) => {
                    proof {
                        lemma_prepend_step(
                            field_views(before),
                            spec@,
                            model_fields_outcome(fs.skip(i + 1), key_ident@),
                        );
                    }
                    out.push(spec);
                    assert(field_views(out@) =~= field_views(before).push(spec@));
                },
            }
        }
        i = i + 1;
    }
    let ty = match key_ty {
        Some(t) => t,
        None => {
            proof {
                assert(false);
            }
            TypeSyntax::Other
        },
    };
    Ok(
        ModelSpec {
            vis,
            name,
            table_name,
            builder_name,
            columns_name,
            generics,
            state_field_name: String::from_str("__seekwel_state"),
            validator,
            primary_key: PrimaryKeySpec {
                ident: key_ident,
                ty,
                ty_text: key_ty_text,
                field_name: key,
                query_variant,
                auto_increment,
            },
            fields: out,
        },
    )
}

} // verus!
