//! The source text of what the `Model` derive generates for an analysed model: the
//! impls, the `...Columns` enum, the builder, the params structs, the association
//! accessors and the registry entry. A proc-macro front end parses it into tokens.

use vstd::prelude::*;

use crate::model_macro::analysis::{
    association_target_of, field_views, FieldView, HasManyFieldView, ModelFieldSpec, ModelSpec, ModelView,
    PrimaryKeySpec, PrimaryKeyView, StoredFieldView,
};
use crate::model_macro::generated::{has_many_of, push_text, stored_of};
use crate::model_macro::layout::{generated_names, params_field_name};
use crate::model_macro::naming::ident_text;
use crate::schema::debug_text::{debug_str, str_debug};
use crate::text::{
    bool_text, decimal, join_strings, joined, lower_text, push_decimal, strings_view, upper_text,
};

verus! {

/// A visibility followed by a space, or nothing for a private item.
pub open spec fn vis_text(vis: Seq<char>) -> Seq<char> {
    if vis.len() == 0 {
        ""@
    } else {
        vis + " "@
    }
}

/// The `ColumnDef` of a column of the given type.
pub open spec fn column_def_text(name: Seq<char>, ty: Seq<char>) -> Seq<char> {
    "seekwel::model::column::<"@ + ty + ">("@ + str_debug(name) + ")"@
}

/// The expression that binds a field's value.
pub open spec fn param_text(ident: Seq<char>, ty: Seq<char>) -> Seq<char> {
    "<"@ + ty + " as seekwel::model::SqlField>::to_sql_value(&self."@ + ident + ")"@
}

/// A `match` arm mapping a column variant to its column name.
pub open spec fn arm_text(enum_name: Seq<char>, variant: Seq<char>, column: Seq<char>) -> Seq<char> {
    enum_name + "::"@ + variant + " => "@ + str_debug(column)
}

/// A method of the generated impl that returns a list.
pub open spec fn list_fn_text(sig: Seq<char>, open: Seq<char>, items: Seq<Seq<char>>) -> Seq<char> {
    "    fn "@ + sig + " {\n        "@ + open + joined(items, ", "@) + "]\n    }\n"@
}

/// A method of the generated impl that returns a constant list of columns.
pub open spec fn const_list_fn_text(sig: Seq<char>, name: Seq<char>, items: Seq<Seq<char>>) -> Seq<char> {
    "    fn "@ + sig + " {\n        const "@ + name + ": &[seekwel::model::ColumnDef] = &["@ + joined(
        items,
        ", "@,
    ) + "];\n        "@ + name + "\n    }\n"@
}

/// The start of the generated `Model` impl, up to the table name.
pub open spec fn header_text(m: ModelView) -> Seq<char> {
    "impl<S> seekwel::model::Model for "@ + m.name + "<S> {\n    type Column = "@ + m.columns_name
        + ";\n    fn table_name() -> &'static str {\n        "@ + str_debug(m.table_name)
        + "\n    }\n"@
}

/// The generated `primary_key()`.
pub open spec fn key_fn_text(k: PrimaryKeyView) -> Seq<char> {
    "    fn primary_key() -> seekwel::model::PrimaryKeyDef {\n        seekwel::model::PrimaryKeyDef { name: "@
        + str_debug(k.field_name) + ", sql_type: <"@ + k.ty_text
        + " as seekwel::model::SqlField>::SQL_TYPE, auto_increment: "@ + bool_text(k.auto_increment)
        + " }\n    }\n"@
}

/// The end of the `Model` impl, then the `...Columns` enum and its `Column` impl.
pub open spec fn enum_text(vis: Seq<char>, cn: Seq<char>, variants: Seq<Seq<char>>, arms: Seq<Seq<char>>) -> Seq<char> {
    "}\n\n#[derive(Debug, Clone, Copy, PartialEq, Eq)]\n"@ + vis_text(vis) + "enum "@ + cn + " {\n    "@ + joined(
        variants,
        ", "@,
    ) + "\n}\n\nimpl seekwel::model::Column for "@ + cn
        + " {\n    fn as_str(self) -> &'static str {\n        match self {\n            "@ + joined(
        arms,
        ", "@,
    ) + "\n        }\n    }\n}\n"@
}

/// The `ColumnDef` literals of the stored fields, in order.
pub open spec fn column_defs(st: Seq<StoredFieldView>) -> Seq<Seq<char>> {
    st.map_values(|s: StoredFieldView| column_def_text(s.storage_column_name, s.ty_text))
}

/// The expressions binding the stored fields' values, in order.
pub open spec fn param_values(st: Seq<StoredFieldView>) -> Seq<Seq<char>> {
    st.map_values(|s: StoredFieldView| param_text(s.ident, s.ty_text))
}

/// The column variants of the stored fields, in order.
pub open spec fn column_variants(st: Seq<StoredFieldView>) -> Seq<Seq<char>> {
    st.map_values(|s: StoredFieldView| s.query_variant)
}

/// The `match` arms of the stored fields' column variants, in order.
pub open spec fn column_arms(cn: Seq<char>, st: Seq<StoredFieldView>) -> Seq<Seq<char>> {
    st.map_values(|s: StoredFieldView| arm_text(cn, s.query_variant, s.storage_column_name))
}

/// The items of an insert list: the key's item first when SQLite does not generate it.
pub open spec fn with_key(auto_increment: bool, key_item: Seq<char>, items: Seq<Seq<char>>) -> Seq<Seq<char>> {
    if auto_increment {
        items
    } else {
        seq![key_item] + items
    }
}

/// The field initializer that reads a stored field from a row index.
pub open spec fn row_read_text(ident: Seq<char>, ty: Seq<char>, index: nat) -> Seq<char> {
    ident + ": <"@ + ty + " as seekwel::model::SqlField>::from_sql_row(row, "@ + decimal(index) + ")?"@
}

/// The row reads of the stored fields: stored field `i` from row index `i + 1`.
pub open spec fn row_reads(st: Seq<StoredFieldView>) -> Seq<Seq<char>> {
    Seq::new(st.len(), |i: int| row_read_text(st[i].ident, st[i].ty_text, (i + 1) as nat))
}

/// The field initializer that binds a has-many field to the parent's id.
pub open spec fn bound_text(ident: Seq<char>) -> Seq<char> {
    ident + ": seekwel::HasMany::new_bound(__seekwel_association_id)"@
}

/// The initializers of the has-many fields, bound to the parent's id.
pub open spec fn bound_inits(hm: Seq<HasManyFieldView>) -> Seq<Seq<char>> {
    hm.map_values(|h: HasManyFieldView| bound_text(h.ident))
}

/// A field's identifier.
pub open spec fn field_ident(f: FieldView) -> Seq<char> {
    match f {
        FieldView::Stored(s) => s.ident,
        FieldView::HasMany(h) => h.ident,
    }
}

/// The field initializer that clones a field.
pub open spec fn clone_text(ident: Seq<char>) -> Seq<char> {
    ident + ": self."@ + ident + ".clone()"@
}

/// The initializers that clone every field, in declaration order.
pub open spec fn clone_inits(fs: Seq<FieldView>) -> Seq<Seq<char>> {
    fs.map_values(|f: FieldView| clone_text(field_ident(f)))
}

/// The generated `PersistedModel` impl up to the fields that `from_row` reads.
pub open spec fn persisted_head_text(m: ModelView) -> Seq<char> {
    let k = m.primary_key;
    "impl seekwel::model::PersistedModel for "@ + m.name + "<seekwel::Persisted> {\n    fn id(&self) -> u64 {\n        <"@
        + k.ty_text + " as seekwel::model::PrimaryKeyField>::to_association_id(&self."@ + k.ident
        + ").expect(\"seekwel persisted model primary key should convert to a non-negative u64 association id\")\n    }\n    fn primary_key_value(&self) -> rusqlite::types::Value {\n        <"@
        + k.ty_text + " as seekwel::model::SqlField>::to_sql_value(&self."@ + k.ident
        + ")\n    }\n    fn from_row(row: &rusqlite::Row) -> rusqlite::Result<Self> {\n        let "@ + k.ident
        + " = <"@ + k.ty_text + " as seekwel::model::SqlField>::from_sql_row(row, 0)?;\n        let __seekwel_association_id = <"@
        + k.ty_text + " as seekwel::model::PrimaryKeyField>::to_association_id(&"@ + k.ident
        + ").map_err(|error| rusqlite::Error::ToSqlConversionFailure(Box::new(error)))?;\n        Ok(Self { "@
}

/// The generated `PersistedModel` impl from the end of `from_row` to the fields that
/// `to_invalid` clones.
pub open spec fn persisted_mid_text(m: ModelView) -> Seq<char> {
    " })\n    }\n    type Invalid = "@ + m.name + "<seekwel::Invalid<seekwel::Persisted, "@ + m.columns_name
        + ">>;\n    fn validation_errors(&self) -> seekwel::Errors<Self::Column> {\n        let mut errors = seekwel::Errors::new();\n        <"@
        + m.validator + " as seekwel::model::Validator<Self>>::validate(self, &mut errors);\n        errors\n    }\n    fn to_invalid(&self, errors: seekwel::Errors<Self::Column>) -> Self::Invalid {\n        "@
        + m.name + " { "@
}

/// The generated `PersistedModel` impl: the key is read from row index 0 and stored field
/// `i` from index `i + 1`, has-many fields are bound to the parent's id, validation goes
/// through the model's validator, and an invalid copy clones every field.
pub open spec fn persisted_text(m: ModelView) -> Seq<char> {
    let k = m.primary_key;
    persisted_head_text(m) + joined(
        seq![k.ident] + row_reads(stored_of(m.fields)) + bound_inits(has_many_of(m.fields)) + seq![
            m.state_field_name + ": seekwel::Persisted"@,
        ],
        ", "@,
    ) + persisted_mid_text(m) + joined(
        seq![clone_text(k.ident)] + clone_inits(m.fields) + seq![
            m.state_field_name + ": seekwel::Invalid::new(seekwel::Persisted, errors)"@,
        ],
        ", "@,
    ) + " }\n    }\n}\n"@
}

/// The field initializer that moves a field out of `self`.
pub open spec fn move_text(ident: Seq<char>) -> Seq<char> {
    ident + ": self."@ + ident
}

/// The initializers that move every field, in declaration order.
pub open spec fn move_inits(fs: Seq<FieldView>) -> Seq<Seq<char>> {
    fs.map_values(|f: FieldView| move_text(field_ident(f)))
}

/// The initializer of a field when a new record becomes persisted: a stored field is
/// moved, a has-many field is bound to the new id.
pub open spec fn persist_init(f: FieldView) -> Seq<char> {
    match f {
        FieldView::Stored(s) => move_text(s.ident),
        FieldView::HasMany(h) => bound_text(h.ident),
    }
}

/// The initializers of every field when a new record becomes persisted.
pub open spec fn persist_inits(fs: Seq<FieldView>) -> Seq<Seq<char>> {
    fs.map_values(|f: FieldView| persist_init(f))
}

/// The generated `NewModel` impl up to the fields that `into_invalid` moves.
pub open spec fn new_model_head_text(m: ModelView) -> Seq<char> {
    "impl seekwel::model::NewModel for "@ + m.name + "<seekwel::NewRecord> {\n    type Persisted = "@ + m.name
        + "<seekwel::Persisted>;\n    type Invalid = "@ + m.name + "<seekwel::Invalid<seekwel::NewRecord, "@
        + m.columns_name
        + ">>;\n    fn validation_errors(&self) -> seekwel::Errors<Self::Column> {\n        let mut errors = seekwel::Errors::new();\n        <"@
        + m.validator
        + " as seekwel::model::Validator<Self>>::validate(self, &mut errors);\n        errors\n    }\n    fn into_invalid(self, errors: seekwel::Errors<Self::Column>) -> Self::Invalid {\n        "@
        + m.name + " { "@
}

/// The key of a new record once it is saved: from the id SQLite generated, or the key
/// the record already holds.
pub open spec fn persisted_key_text(k: PrimaryKeyView) -> Seq<char> {
    if k.auto_increment {
        "<"@ + k.ty_text + " as seekwel::model::PrimaryKeyField>::from_generated_id(id)?"@
    } else {
        "self."@ + k.ident
    }
}

/// The generated `NewModel` impl from the end of `into_invalid` to the fields that
/// `into_persisted` sets.
pub open spec fn new_model_mid_text(m: ModelView) -> Seq<char> {
    let k = m.primary_key;
    " }\n    }\n    fn into_persisted(self, id: u64) -> Result<Self::Persisted, seekwel::error::Error> {\n        let __seekwel_primary_key: "@
        + k.ty_text + " = "@ + persisted_key_text(k) + ";\n        let __seekwel_association_id = <"@ + k.ty_text
        + " as seekwel::model::PrimaryKeyField>::to_association_id(&__seekwel_primary_key)?;\n        Ok("@ + m.name
        + " { "@
}

/// The generated `NewModel` impl: validation goes through the model's validator, an
/// invalid record moves every field, and a saved record takes its key from the generated
/// id (or keeps its own) and binds its has-many fields to it.
pub open spec fn new_model_text(m: ModelView) -> Seq<char> {
    let k = m.primary_key;
    new_model_head_text(m) + joined(
        seq![move_text(k.ident)] + move_inits(m.fields) + seq![
            m.state_field_name + ": seekwel::Invalid::new(seekwel::NewRecord, errors)"@,
        ],
        ", "@,
    ) + new_model_mid_text(m) + joined(
        seq![k.ident + ": __seekwel_primary_key"@] + persist_inits(m.fields) + seq![
            m.state_field_name + ": seekwel::Persisted"@,
        ],
        ", "@,
    ) + " })\n    }\n}\n"@
}

/// A generated `ModelRecord` impl for a state in which the record has no key yet.
pub open spec fn unsaved_record_text(name: Seq<char>, state: Seq<char>) -> Seq<char> {
    "impl seekwel::model::ModelRecord for "@ + name + "<"@ + state
        + "> {\n    fn persisted_id(&self) -> Option<u64> {\n        None\n    }\n    fn persisted_primary_key_value(&self) -> Option<rusqlite::types::Value> {\n        None\n    }\n}\n"@
}

/// A generated `ModelRecord` impl for a state in which the record has its key.
pub open spec fn saved_record_text(name: Seq<char>, state: Seq<char>, k: PrimaryKeyView, what: Seq<char>) -> Seq<char> {
    "impl seekwel::model::ModelRecord for "@ + name + "<"@ + state
        + "> {\n    fn persisted_id(&self) -> Option<u64> {\n        Some(<"@ + k.ty_text
        + " as seekwel::model::PrimaryKeyField>::to_association_id(&self."@ + k.ident + ").expect(\"seekwel "@
        + what
        + " primary key should convert to a non-negative u64 association id\"))\n    }\n    fn persisted_primary_key_value(&self) -> Option<rusqlite::types::Value> {\n        Some(<"@
        + k.ty_text + " as seekwel::model::SqlField>::to_sql_value(&self."@ + k.ident + "))\n    }\n}\n"@
}

/// The generated `ModelRecord` impls of the four states, then the `InvalidModel` impl.
pub open spec fn records_text(m: ModelView) -> Seq<char> {
    let k = m.primary_key;
    unsaved_record_text(m.name, "seekwel::NewRecord"@) + "\n"@ + saved_record_text(
        m.name,
        "seekwel::Persisted"@,
        k,
        "persisted model"@,
    ) + "\n"@ + unsaved_record_text(
        m.name,
        "seekwel::Invalid<seekwel::NewRecord, "@ + m.columns_name + ">"@,
    ) + "\n"@ + saved_record_text(
        m.name,
        "seekwel::Invalid<seekwel::Persisted, "@ + m.columns_name + ">"@,
        k,
        "invalid persisted model"@,
    ) + "\nimpl<S> seekwel::model::InvalidModel for "@ + m.name + "<seekwel::Invalid<S, "@ + m.columns_name
        + ">> {\n    type PreviousState = S;\n    fn errors(&self) -> &seekwel::Errors<Self::Column> {\n        self."@
        + m.state_field_name + ".errors()\n    }\n}\n"@
}

/// The constant that names stored field `i` as an association key: its value is `i` as
/// a `u8`.
pub open spec fn key_const_text(handler: Seq<char>, index: nat) -> Seq<char> {
    "    pub const "@ + handler + ": u8 = "@ + decimal(index % 256) + ";\n"@
}

/// The association key constants of the stored fields, in order.
pub open spec fn key_consts(st: Seq<StoredFieldView>) -> Seq<Seq<char>> {
    Seq::new(st.len(), |i: int| key_const_text(st[i].association_handler, i as nat))
}

/// The generated inherent impl of the `...Columns` enum: the association key constants,
/// then `asc` and `desc`.
pub open spec fn columns_impl_text(m: ModelView) -> Seq<char> {
    "impl "@ + m.columns_name + " {\n"@ + joined(key_consts(stored_of(m.fields)), ""@)
        + "    pub fn asc(self) -> seekwel::Order {\n        seekwel::Order::asc(self)\n    }\n    pub fn desc(self) -> seekwel::Order {\n        seekwel::Order::desc(self)\n    }\n}\n"@
}

/// The builder's field for a stored field: `Optional` of the `T` of an `Option<T>` field,
/// `Required` of the field's type otherwise.
pub open spec fn builder_field_text(s: StoredFieldView) -> Seq<char> {
    if s.is_optional {
        s.ident + ": seekwel::model::builder::Optional<"@ + s.inner_ty_text + ">"@
    } else {
        s.ident + ": seekwel::model::builder::Required<"@ + s.ty_text + ">"@
    }
}

/// The builder's setter for a stored field: an optional association takes an `Option` of
/// anything that converts into its `BelongsTo`, another optional field takes its own type,
/// and a required field takes anything that converts into its type.
pub open spec fn setter_text(s: StoredFieldView) -> Seq<char> {
    if s.is_optional {
        if association_target_of(s.ty) is Some {
            "    pub fn "@ + s.ident + "<V>(mut self, value: Option<V>) -> Self\n    where\n        V: Into<"@
                + s.inner_ty_text + ">,\n    {\n        self."@ + s.ident
                + ".set(value.map(Into::into));\n        self\n    }\n"@
        } else {
            "    pub fn "@ + s.ident + "(mut self, value: "@ + s.ty_text + ") -> Self {\n        self."@ + s.ident
                + ".set(value);\n        self\n    }\n"@
        }
    } else {
        "    pub fn "@ + s.ident + "(mut self, value: impl Into<"@ + s.ty_text + ">) -> Self {\n        self."@
            + s.ident + ".set(value);\n        self\n    }\n"@
    }
}

/// The statement of `build` that takes a stored field's value out of the builder: an
/// optional field may be unset, a required one is an error when unset.
pub open spec fn extract_text(s: StoredFieldView) -> Seq<char> {
    if s.is_optional {
        "        let "@ + s.ident + " = self."@ + s.ident + ".finish();\n"@
    } else {
        "        let "@ + s.ident + " = self."@ + s.ident + ".finish("@ + str_debug(s.field_name) + ")?;\n"@
    }
}

/// A field's initializer in a new record: a stored field takes the built value, a
/// has-many field starts unbound.
pub open spec fn new_record_init(f: FieldView) -> Seq<char> {
    match f {
        FieldView::Stored(s) => s.ident,
        FieldView::HasMany(h) => h.ident + ": seekwel::HasMany::new_unbound()"@,
    }
}

/// The key's part of a builder list: nothing when SQLite generates the key.
pub open spec fn key_part(auto_increment: bool, item: Seq<char>) -> Seq<Seq<char>> {
    if auto_increment {
        Seq::empty()
    } else {
        seq![item]
    }
}

/// The builder's fields.
pub open spec fn builder_fields(m: ModelView) -> Seq<Seq<char>> {
    let k = m.primary_key;
    key_part(k.auto_increment, k.ident + ": seekwel::model::builder::Required<"@ + k.ty_text + ">"@)
        + stored_of(m.fields).map_values(|s: StoredFieldView| builder_field_text(s))
}

/// The builder's defaults.
pub open spec fn builder_defaults(m: ModelView) -> Seq<Seq<char>> {
    let k = m.primary_key;
    key_part(k.auto_increment, k.ident + ": Default::default()"@) + stored_of(m.fields).map_values(
        |s: StoredFieldView| s.ident + ": Default::default()"@,
    )
}

/// The builder's setters.
pub open spec fn builder_setters(m: ModelView) -> Seq<Seq<char>> {
    let k = m.primary_key;
    key_part(
        k.auto_increment,
        "    pub fn "@ + k.ident + "(mut self, value: impl Into<"@ + k.ty_text + ">) -> Self {\n        self."@
            + k.ident + ".set(value);\n        self\n    }\n"@,
    ) + stored_of(m.fields).map_values(|s: StoredFieldView| setter_text(s))
}

/// The statements of `build` that take the values out of the builder.
pub open spec fn builder_extracts(m: ModelView) -> Seq<Seq<char>> {
    let k = m.primary_key;
    key_part(
        k.auto_increment,
        "        let "@ + k.ident + " = self."@ + k.ident + ".finish("@ + str_debug(k.field_name) + ")?;\n"@,
    ) + stored_of(m.fields).map_values(|s: StoredFieldView| extract_text(s))
}

/// The initializers of the record that `build` returns.
pub open spec fn new_record_inits(m: ModelView) -> Seq<Seq<char>> {
    let k = m.primary_key;
    seq![
        if k.auto_increment {
            k.ident + ": Default::default()"@
        } else {
            k.ident
        },
    ] + m.fields.map_values(|f: FieldView| new_record_init(f)) + seq![
        m.state_field_name + ": seekwel::NewRecord"@,
    ]
}

/// The generated builder: `builder()` on the persisted model, the builder struct with a
/// field, a default and a setter for the key (when it is not generated) and each stored
/// field, and `build` and `create`.
pub open spec fn builder_text(m: ModelView) -> Seq<char> {
    let n = m.name;
    let b = m.builder_name;
    "impl "@ + n + "<seekwel::Persisted> {\n    pub fn builder() -> "@ + b + " {\n        "@ + b + " { "@ + joined(
        builder_defaults(m),
        ", "@,
    ) + " }\n    }\n}\n\n"@ + vis_text(m.vis) + "struct "@ + b + " {\n    "@ + joined(builder_fields(m), ",\n    "@)
        + "\n}\n\nimpl "@ + b + " {\n"@ + joined(builder_setters(m), ""@)
        + "    pub fn build(self) -> Result<"@ + n + "<seekwel::NewRecord>, seekwel::error::Error> {\n"@
        + joined(builder_extracts(m), ""@) + "        Ok("@ + n + " { "@ + joined(new_record_inits(m), ", "@)
        + " })\n    }\n    pub fn create(self) -> Result<"@ + n
        + "<seekwel::Persisted>, seekwel::model::SaveError<<"@ + n
        + "<seekwel::NewRecord> as seekwel::model::NewModel>::Invalid>> {\n        <"@ + n
        + "<seekwel::NewRecord> as seekwel::model::NewModel>::save(self.build().map_err(seekwel::model::SaveError::Error)?)\n    }\n}\n"@
}

/// The name of a stored field in the params struct: its column for an association, its
/// own name otherwise.
pub open spec fn param_field(s: StoredFieldView) -> Seq<char> {
    if association_target_of(s.ty) is Some {
        s.storage_column_name
    } else {
        s.ident
    }
}

/// The attribute each params field carries: `#[serde(default)]` when params deserialize.
pub open spec fn serde_default_text(serde: bool) -> Seq<char> {
    if serde {
        "#[serde(default)] "@
    } else {
        ""@
    }
}

/// A field of the params struct.
pub open spec fn params_field_text(serde: bool, name: Seq<char>, ty: Seq<char>) -> Seq<char> {
    "    "@ + serde_default_text(serde) + name + ": seekwel::model::params::Param<"@ + ty + ">,\n"@
}

/// A params setter that takes anything that converts into the field's type.
pub open spec fn params_into_setter_text(name: Seq<char>, ty: Seq<char>) -> Seq<char> {
    "    pub fn "@ + name + "(mut self, value: impl Into<"@ + ty + ">) -> Self {\n        self."@ + name
        + " = seekwel::model::params::Param::provided(value.into());\n        self\n    }\n"@
}

/// The params setter of a stored field, shaped as its builder setter.
pub open spec fn params_setter_text(s: StoredFieldView) -> Seq<char> {
    let pf = param_field(s);
    if s.is_optional {
        if association_target_of(s.ty) is Some {
            "    pub fn "@ + pf + "<V>(mut self, value: Option<V>) -> Self\n    where\n        V: Into<"@ + s.inner_ty_text
                + ">,\n    {\n        self."@ + pf
                + " = seekwel::model::params::Param::provided(value.map(Into::into));\n        self\n    }\n"@
        } else {
            "    pub fn "@ + pf + "(mut self, value: "@ + s.ty_text + ") -> Self {\n        self."@ + pf
                + " = seekwel::model::params::Param::provided(value);\n        self\n    }\n"@
        }
    } else {
        params_into_setter_text(pf, s.ty_text)
    }
}

/// The statements of `build_from_params` that take a value that must be present and
/// allowed, or fail with `MissingField`.
pub open spec fn required_extract_text(cn: Seq<char>, ident: Seq<char>, variant: Seq<char>, pf: Seq<char>, column: Seq<char>) -> Seq<char> {
    "        let "@ + ident + " = if __seekwel_is_allowed("@ + cn + "::"@ + variant
        + ") {\n            __seekwel_params."@ + pf
        + ".into_value().ok_or_else(|| seekwel::error::Error::MissingField("@ + str_debug(column)
        + ".to_string()))?\n        } else {\n            return Err(seekwel::error::Error::MissingField("@
        + str_debug(column) + ".to_string()));\n        };\n"@
}

/// The statements of `build_from_params` that take a stored field's value.
pub open spec fn params_extract_text(cn: Seq<char>, s: StoredFieldView) -> Seq<char> {
    if s.is_optional {
        "        let "@ + s.ident + " = if __seekwel_is_allowed("@ + cn + "::"@ + s.query_variant
            + ") {\n            __seekwel_params."@ + param_field(s)
            + ".into_value().unwrap_or(None)\n        } else {\n            None\n        };\n"@
    } else {
        required_extract_text(cn, s.ident, s.query_variant, param_field(s), s.storage_column_name)
    }
}

/// The statements of `apply_params` that assign a stored field when its value is allowed
/// and present.
pub open spec fn params_update_text(cn: Seq<char>, s: StoredFieldView) -> Seq<char> {
    "        if __seekwel_is_allowed("@ + cn + "::"@ + s.query_variant
        + ") {\n            if let Some(__seekwel_value) = __seekwel_params."@ + param_field(s)
        + ".into_value() {\n                self."@ + s.ident + " = __seekwel_value;\n            }\n        }\n"@
}

/// The `allow_all` column list: the key's column when it is assignable, then the stored
/// fields' columns.
pub open spec fn allow_all_items(m: ModelView) -> Seq<Seq<char>> {
    let cn = m.columns_name;
    key_part(m.primary_key.auto_increment, cn + "::"@ + m.primary_key.query_variant) + stored_of(m.fields).map_values(
        |s: StoredFieldView| cn + "::"@ + s.query_variant,
    )
}

/// The opening of `build_from_params` and `apply_params`: the params and allowed columns
/// taken apart.
pub open spec fn params_unpack_text(a: Seq<char>, cn: Seq<char>) -> Seq<char> {
    "        let "@ + a + " { params: __seekwel_params, allowed: __seekwel_allowed } = __seekwel_allowed_params;\n        let __seekwel_is_allowed = |column: "@
        + cn + "| __seekwel_allowed.contains(&column);\n"@
}

/// The check that refuses a column that params may not set.
pub open spec fn refused_key_text(cn: Seq<char>, k: PrimaryKeyView, what: Seq<char>) -> Seq<char> {
    "        if __seekwel_is_allowed("@ + cn + "::"@ + k.query_variant
        + ") {\n            return Err(seekwel::error::Error::InvalidParams(format!(\"column `{}` is not assignable "@
        + what + "\", "@ + str_debug(k.field_name) + ")));\n        }\n"@
}

/// The generated params items: the params struct (with a field and a setter for the key
/// when it is assignable and for each stored field), the allowed-params struct, and the
/// `Params` and `ParamsModel` impls; `build_from_params` refuses a generated key, needs
/// each required allowed value, and `apply_params` refuses the key and assigns each
/// allowed value present.
pub open spec fn params_text(m: ModelView, serde: bool) -> Seq<char> {
    let n = m.name;
    let cn = m.columns_name;
    let k = m.primary_key;
    let st = stored_of(m.fields);
    let p = ident_text(n) + "Params"@;
    let a = "Allowed"@ + ident_text(n) + "Params"@;
    (if serde {
        "#[derive(Clone, Default, seekwel::__private::serde::Deserialize)]\n"@
    } else {
        "#[derive(Clone, Default)]\n"@
    }) + vis_text(m.vis) + "struct "@ + p + " {\n"@ + joined(
        key_part(k.auto_increment, params_field_text(serde, k.ident, k.ty_text)) + st.map_values(
            |s: StoredFieldView| params_field_text(serde, param_field(s), s.ty_text),
        ),
        ""@,
    ) + "}\n\nimpl "@ + p + " {\n    pub fn new() -> Self {\n        Self::default()\n    }\n"@ + joined(
        key_part(k.auto_increment, params_into_setter_text(k.ident, k.ty_text)) + st.map_values(
            |s: StoredFieldView| params_setter_text(s),
        ),
        ""@,
    ) + "    pub fn allow<I>(self, columns: I) -> "@ + a + "\n    where\n        I: IntoIterator<Item = "@ + cn
        + ">,\n    {\n        <Self as seekwel::model::Params>::allow(self, columns)\n    }\n    pub fn allow_all(self) -> "@
        + a + " {\n        <Self as seekwel::model::Params>::allow_all(self)\n    }\n}\n\nimpl seekwel::model::Params for "@
        + p + " {\n    type Model = "@ + n + "<seekwel::Persisted>;\n    type Allowed = "@ + a
        + ";\n    fn allow<I>(self, columns: I) -> Self::Allowed\n    where\n        I: IntoIterator<Item = <Self::Model as seekwel::model::Model>::Column>,\n    {\n        "@
        + a + " { params: self, allowed: columns.into_iter().collect() }\n    }\n    fn allow_all(self) -> Self::Allowed {\n        "@
        + a + " { params: self, allowed: vec!["@ + joined(allow_all_items(m), ", "@) + "] }\n    }\n}\n\n"@ + vis_text(m.vis) + "struct "@
        + a + " {\n    params: "@ + p + ",\n    allowed: std::vec::Vec<"@ + cn + ">,\n}\n\nimpl "@ + a
        + " {\n    pub fn allows(&self, column: "@ + cn
        + ") -> bool {\n        self.allowed.contains(&column)\n    }\n}\n\nimpl seekwel::model::params::ParamsModel for "@
        + n + "<seekwel::Persisted> {\n    type NewRecord = "@ + n + "<seekwel::NewRecord>;\n    type Params = "@ + p
        + ";\n    fn build_from_params(__seekwel_allowed_params: "@ + a
        + ") -> Result<Self::NewRecord, seekwel::error::Error> {\n"@ + params_unpack_text(a, cn) + (if k.auto_increment {
        refused_key_text(cn, k, "from params"@)
    } else {
        required_extract_text(cn, k.ident, k.query_variant, k.ident, k.field_name)
    }) + joined(st.map_values(|s: StoredFieldView| params_extract_text(cn, s)), ""@) + "        Ok("@ + n + " { "@
        + joined(new_record_inits(m), ", "@) + " })\n    }\n    fn apply_params(&mut self, __seekwel_allowed_params: "@
        + a + ") -> Result<(), seekwel::error::Error> {\n"@ + params_unpack_text(a, cn) + refused_key_text(
        cn,
        k,
        "by update params"@,
    ) + joined(st.map_values(|s: StoredFieldView| params_update_text(cn, s)), ""@) + "        Ok(())\n    }\n}\n"@
}

/// The accessor that loads the model a `BelongsTo` field points at (none for other
/// fields): an optional one gives `None` when the field is unset.
pub open spec fn association_method_text(s: StoredFieldView) -> Seq<char> {
    if association_target_of(s.ty) is Some {
        let t = s.target_ty_text;
        if s.is_optional {
            "    pub fn "@ + s.ident + "(&self) -> Result<Option<"@ + t + ">, seekwel::error::Error>\n    where\n        "@ + t
                + ": seekwel::model::PersistedModel + Clone,\n    {\n        self."@ + s.ident
                + ".as_ref().map(|association| association.load()).transpose()\n    }\n"@
        } else {
            "    pub fn "@ + s.ident + "(&self) -> Result<"@ + t + ", seekwel::error::Error>\n    where\n        "@ + t
                + ": seekwel::model::PersistedModel + Clone,\n    {\n        self."@ + s.ident + ".load()\n    }\n"@
        }
    } else {
        ""@
    }
}

/// The `HasManyAssociation` impl that a `BelongsTo` field gives the model (none for other
/// fields): children are loaded by the field's column and appended through the builder.
pub open spec fn has_many_impl_text(m: ModelView, s: StoredFieldView) -> Seq<char> {
    if association_target_of(s.ty) is Some {
        let cn = m.columns_name;
        "\nimpl seekwel::model::HasManyAssociation<{ "@ + cn + "::"@ + s.association_handler + " }> for "@ + m.name
            + "<seekwel::Persisted> {\n    type Parent = "@ + s.target_ty_text + ";\n    type Builder = "@
            + m.builder_name
            + ";\n    fn load_for_parent(parent_id: u64) -> Result<Vec<Self>, seekwel::error::Error> {\n        <seekwel::model::Query<Self> as seekwel::model::QueryDsl>::all(seekwel::model::Query::new("@
            + cn + "::"@ + s.query_variant
            + ", seekwel::Comparison::Eq(parent_id)))\n    }\n    fn append_for_parent(parent_id: u64, builder: Self::Builder) -> Result<Self, seekwel::error::Error> {\n        Ok(builder."@
            + s.ident + (if s.is_optional {
            "(Some(parent_id))"@
        } else {
            "(parent_id)"@
        }) + ".create()?)\n    }\n}\n"@
    } else {
        ""@
    }
}

/// The association accessors of the persisted model, then the `HasManyAssociation`
/// impls of its `BelongsTo` fields.
pub open spec fn associations_text(m: ModelView) -> Seq<char> {
    let st = stored_of(m.fields);
    "impl "@ + m.name + "<seekwel::Persisted> {\n"@ + joined(
        st.map_values(|s: StoredFieldView| association_method_text(s)),
        ""@,
    ) + "}\n"@ + joined(st.map_values(|s: StoredFieldView| has_many_impl_text(m, s)), ""@)
}

/// The targets on which the schema registry is collected from a linker section.
pub open spec fn registry_cfg_text() -> Seq<char> {
    "#[cfg(any(target_os = \"linux\", target_os = \"android\", target_os = \"freebsd\", target_os = \"dragonfly\", target_os = \"netbsd\", target_os = \"openbsd\"))]\n"@
}

/// The generated registry entry: a function that builds the model's table definition,
/// and the entry in the registry's linker section that points at it, named after the
/// model's name in ASCII lower case (and, for the entry, upper case).
pub open spec fn registry_text(name: Seq<char>) -> Seq<char> {
    let fn_name = "__seekwel_registry_table_for_"@ + lower_text(name);
    let entry = "__SEEKWEL_REGISTRY_ENTRY_FOR_"@ + upper_text(lower_text(name));
    registry_cfg_text() + "#[doc(hidden)]\n#[allow(non_snake_case)]\nfn "@ + fn_name
        + "() -> Option<seekwel::schema::TableDef> {\n    Some(seekwel::schema::__private::table_for_model::<"@
        + name + "<seekwel::Persisted>>())\n}\n\n"@ + registry_cfg_text()
        + "#[doc(hidden)]\n#[used]\n#[allow(non_upper_case_globals)]\n#[unsafe(link_section = \"seekwel_schema_registry\")]\nstatic "@
        + entry + ": seekwel::schema::__private::RegistryEntry =\n    seekwel::schema::__private::RegistryEntry::new("@
        + fn_name + ");\n"@
}

/// The generated `Model` impl (table name, primary key, columns, insert columns, bound
/// values and insert values, in the order of
/// [`model_items`](crate::model_macro::generated::model_items)) and the `...Columns` enum
/// with its `Column` impl (the key's variant first, then the stored fields').
pub open spec fn model_impl_text(m: ModelView) -> Seq<char> {
    let st = stored_of(m.fields);
    let k = m.primary_key;
    header_text(m) + key_fn_text(k) + const_list_fn_text(
        "columns() -> &'static [seekwel::model::ColumnDef]"@,
        "COLUMNS"@,
        column_defs(st),
    ) + const_list_fn_text(
        "insert_columns() -> &'static [seekwel::model::ColumnDef]"@,
        "INSERT_COLUMNS"@,
        with_key(k.auto_increment, column_def_text(k.field_name, k.ty_text), column_defs(st)),
    ) + list_fn_text("params(&self) -> Vec<rusqlite::types::Value>"@, "vec!["@, param_values(st))
        + list_fn_text(
        "insert_params(&self) -> Vec<rusqlite::types::Value>"@,
        "vec!["@,
        with_key(k.auto_increment, param_text(k.ident, k.ty_text), param_values(st)),
    ) + enum_text(
        m.vis,
        m.columns_name,
        seq![k.query_variant] + column_variants(st),
        seq![arm_text(m.columns_name, k.query_variant, k.field_name)] + column_arms(
            m.columns_name,
            st,
        ),
    )
}

/// The source text of what the derive generates for a model: the `Model` impl (table
/// name, primary key, columns, insert columns, bound values and insert values, in the
/// order of [`model_items`](crate::model_macro::generated::model_items)), the `...Columns`
/// enum with its `Column` impl (the key's variant first, then the stored fields') and its
/// association key constants, the
/// `ModelRecord`, `InvalidModel`, `PersistedModel` and `NewModel` impls, the builder, the
/// association accessors and `HasManyAssociation` impls, and the registry entry.
pub open spec fn model_source_text(m: ModelView) -> Seq<char> {
    model_impl_text(m) + "\n"@ + columns_impl_text(m) + "\n"@ + records_text(m) + "\n"@ + persisted_text(m)
        + "\n"@ + new_model_text(m) + "\n"@ + builder_text(m) + "\n"@ + associations_text(m) + "\n"@
        + registry_text(m.name)
}

/// A visibility followed by a space, or nothing for a private item.
pub(crate) fn vis_prefix(vis: &str) -> (r: String)
    ensures
        r@ == vis_text(vis@),
{
    if vis.unicode_len() == 0 {
        proof {
            reveal_strlit("");
        }
        String::new()
    } else {
        let mut out = String::from_str(vis);
        out.append(" ");
        out
    }
}

/// The `ColumnDef` of a column of the given type.
fn column_def(name: &str, ty: &str) -> (r: String)
    ensures
        r@ == column_def_text(name@, ty@),
{
    let mut out = String::from_str("seekwel::model::column::<");
    out.append(ty);
    out.append(">(");
    out.append(debug_str(name).as_str());
    out.append(")");
    out
}

/// The expression that binds a field's value.
fn param_expr(ident: &str, ty: &str) -> (r: String)
    ensures
        r@ == param_text(ident@, ty@),
{
    let mut out = String::from_str("<");
    out.append(ty);
    out.append(" as seekwel::model::SqlField>::to_sql_value(&self.");
    out.append(ident);
    out.append(")");
    out
}

/// A `match` arm mapping a column variant to its column name.
fn arm(enum_name: &str, variant: &str, column: &str) -> (r: String)
    ensures
        r@ == arm_text(enum_name@, variant@, column@),
{
    let mut out = String::from_str(enum_name);
    out.append("::");
    out.append(variant);
    out.append(" => ");
    out.append(debug_str(column).as_str());
    out
}

/// A method of the generated impl that returns a list.
fn list_fn(sig: &str, open: &str, items: &Vec<String>) -> (r: String)
    ensures
        r@ == list_fn_text(sig@, open@, strings_view(items@)),
{
    let mut out = String::from_str("    fn ");
    out.append(sig);
    out.append(" {\n        ");
    out.append(open);
    out.append(join_strings(items, ", ").as_str());
    out.append("]\n    }\n");
    out
}

/// A method of the generated impl that returns a constant list of columns.
fn const_list_fn(sig: &str, name: &str, items: &Vec<String>) -> (r: String)
    ensures
        r@ == const_list_fn_text(sig@, name@, strings_view(items@)),
{
    let mut out = String::from_str("    fn ");
    out.append(sig);
    out.append(" {\n        const ");
    out.append(name);
    out.append(": &[seekwel::model::ColumnDef] = &[");
    out.append(join_strings(items, ", ").as_str());
    out.append("];\n        ");
    out.append(name);
    out.append("\n    }\n");
    out
}

/// The start of the generated `Model` impl, up to the table name.
fn header(spec: &ModelSpec) -> (r: String)
    ensures
        r@ == header_text(spec@),
{
    let mut out = String::from_str("impl<S> seekwel::model::Model for ");
    out.append(spec.name.as_str());
    out.append("<S> {\n    type Column = ");
    out.append(spec.columns_name.as_str());
    out.append(";\n    fn table_name() -> &'static str {\n        ");
    out.append(debug_str(spec.table_name.as_str()).as_str());
    out.append("\n    }\n");
    out
}

/// The generated `primary_key()`.
fn key_fn(k: &PrimaryKeySpec) -> (r: String)
    ensures
        r@ == key_fn_text(k@),
{
    let mut out = String::from_str(
        "    fn primary_key() -> seekwel::model::PrimaryKeyDef {\n        seekwel::model::PrimaryKeyDef { name: ",
    );
    out.append(debug_str(k.field_name.as_str()).as_str());
    out.append(", sql_type: <");
    out.append(k.ty_text.as_str());
    out.append(" as seekwel::model::SqlField>::SQL_TYPE, auto_increment: ");
    if k.auto_increment {
        out.append("true");
    } else {
        out.append("false");
    }
    out.append(" }\n    }\n");
    out
}

/// The end of the `Model` impl, then the `...Columns` enum and its `Column` impl.
fn enum_source(vis: &str, cn: &str, variants: &Vec<String>, arms: &Vec<String>) -> (r: String)
    ensures
        r@ == enum_text(vis@, cn@, strings_view(variants@), strings_view(arms@)),
{
    let mut out = String::from_str("}\n\n#[derive(Debug, Clone, Copy, PartialEq, Eq)]\n");
    out.append(vis_prefix(vis).as_str());
    out.append("enum ");
    out.append(cn);
    out.append(" {\n    ");
    out.append(join_strings(variants, ", ").as_str());
    out.append("\n}\n\nimpl seekwel::model::Column for ");
    out.append(cn);
    out.append(" {\n    fn as_str(self) -> &'static str {\n        match self {\n            ");
    out.append(join_strings(arms, ", ").as_str());
    out.append("\n        }\n    }\n}\n");
    out
}

/// Appends a list of values to another, keeping the lists' views in step.
fn extend_texts(dst: &mut Vec<String>, src: &Vec<String>)
    ensures
        strings_view(final(dst)@) == strings_view(old(dst)@) + strings_view(src@),
{
    let ghost d0 = strings_view(dst@);
    let mut i: usize = 0;
    while i < src.len()
        invariant
            i <= src@.len(),
            strings_view(dst@) == d0 + strings_view(src@).take(i as int),
        decreases src@.len() - i,
    {
        push_text(dst, src[i].clone());
        assert(strings_view(src@).take(i + 1) =~= strings_view(src@).take(i as int).push(src@[i as int]@));
        i = i + 1;
    }
    assert(strings_view(src@).take(src@.len() as int) =~= strings_view(src@));
}

/// A field initializer: an identifier followed by the given text.
fn ident_with(ident: &str, rest: &str) -> (r: String)
    ensures
        r@ == ident@ + rest@,
{
    let mut out = String::from_str(ident);
    out.append(rest);
    out
}

/// The field initializer that clones a field.
fn clone_init(ident: &str) -> (r: String)
    ensures
        r@ == clone_text(ident@),
{
    let mut out = String::from_str(ident);
    out.append(": self.");
    out.append(ident);
    out.append(".clone()");
    out
}

/// The generated `PersistedModel` impl up to the fields that `from_row` reads.
fn persisted_head(spec: &ModelSpec) -> (r: String)
    ensures
        r@ == persisted_head_text(spec@),
{
    let k = &spec.primary_key;
    let mut out = String::from_str("impl seekwel::model::PersistedModel for ");
    out.append(spec.name.as_str());
    out.append("<seekwel::Persisted> {\n    fn id(&self) -> u64 {\n        <");
    out.append(k.ty_text.as_str());
    out.append(" as seekwel::model::PrimaryKeyField>::to_association_id(&self.");
    out.append(k.ident.as_str());
    out.append(
        ").expect(\"seekwel persisted model primary key should convert to a non-negative u64 association id\")\n    }\n    fn primary_key_value(&self) -> rusqlite::types::Value {\n        <",
    );
    out.append(k.ty_text.as_str());
    out.append(" as seekwel::model::SqlField>::to_sql_value(&self.");
    out.append(k.ident.as_str());
    out.append(")\n    }\n    fn from_row(row: &rusqlite::Row) -> rusqlite::Result<Self> {\n        let ");
    out.append(k.ident.as_str());
    out.append(" = <");
    out.append(k.ty_text.as_str());
    out.append(" as seekwel::model::SqlField>::from_sql_row(row, 0)?;\n        let __seekwel_association_id = <");
    out.append(k.ty_text.as_str());
    out.append(" as seekwel::model::PrimaryKeyField>::to_association_id(&");
    out.append(k.ident.as_str());
    out.append(").map_err(|error| rusqlite::Error::ToSqlConversionFailure(Box::new(error)))?;\n        Ok(Self { ");
    out
}

/// The generated `PersistedModel` impl from the end of `from_row` to the fields that
/// `to_invalid` clones.
fn persisted_mid(spec: &ModelSpec) -> (r: String)
    ensures
        r@ == persisted_mid_text(spec@),
{
    let mut out = String::from_str(" })\n    }\n    type Invalid = ");
    out.append(spec.name.as_str());
    out.append("<seekwel::Invalid<seekwel::Persisted, ");
    out.append(spec.columns_name.as_str());
    out.append(
        ">>;\n    fn validation_errors(&self) -> seekwel::Errors<Self::Column> {\n        let mut errors = seekwel::Errors::new();\n        <",
    );
    out.append(spec.validator.as_str());
    out.append(
        " as seekwel::model::Validator<Self>>::validate(self, &mut errors);\n        errors\n    }\n    fn to_invalid(&self, errors: seekwel::Errors<Self::Column>) -> Self::Invalid {\n        ",
    );
    out.append(spec.name.as_str());
    out.append(" { ");
    out
}

/// The source text of the generated `PersistedModel` impl.
pub fn persisted_source(spec: &ModelSpec) -> (r: String)
    ensures
        r@ == persisted_text(spec@),
{
    let ghost fv = field_views(spec.fields@);
    let mut reads: Vec<String> = Vec::new();
    let mut bounds: Vec<String> = Vec::new();
    let mut clones: Vec<String> = Vec::new();
    let mut stored: usize = 0;
    let mut i: usize = 0;
    while i < spec.fields.len()
        invariant
            i <= spec.fields@.len(),
            fv == field_views(spec.fields@),
            stored == stored_of(fv.take(i as int)).len(),
            stored <= i,
            strings_view(reads@) == row_reads(stored_of(fv.take(i as int))),
            strings_view(bounds@) == bound_inits(has_many_of(fv.take(i as int))),
            strings_view(clones@) == clone_inits(fv.take(i as int)),
        decreases spec.fields@.len() - i,
    {
        assert(fv.take(i + 1).drop_last() =~= fv.take(i as int));
        assert(fv.take(i + 1).last() == spec.fields@[i as int]@);
        assert(fv.take(i + 1) =~= fv.take(i as int).push(spec.fields@[i as int]@));
        let ghost st = stored_of(fv.take(i as int));
        let ghost hm = has_many_of(fv.take(i as int));
        match &spec.fields[i] {
            ModelFieldSpec::Stored(s) => {
                let mut r = String::from_str(s.ident.as_str());
                r.append(": <");
                r.append(s.ty_text.as_str());
                r.append(" as seekwel::model::SqlField>::from_sql_row(row, ");
                push_decimal(&mut r, (stored + 1) as u128);
                r.append(")?");
                push_text(&mut reads, r);
                push_text(&mut clones, clone_init(s.ident.as_str()));
                assert(row_reads(st.push(s@)) =~= row_reads(st).push(
                    row_read_text(s.ident@, s.ty_text@, (st.len() + 1) as nat),
                ));
                stored = stored + 1;
            },
            ModelFieldSpec::HasMany(h) => {
                push_text(
                    &mut bounds,
                    ident_with(h.ident.as_str(), ": seekwel::HasMany::new_bound(__seekwel_association_id)"),
                );
                push_text(&mut clones, clone_init(h.ident.as_str()));
                assert(bound_inits(hm.push(h@)) =~= bound_inits(hm).push(bound_text(h.ident@)));
            },
        }
        assert(clone_inits(fv.take(i + 1)) =~= clone_inits(fv.take(i as int)).push(
            clone_text(field_ident(spec.fields@[i as int]@)),
        ));
        i = i + 1;
    }
    assert(fv.take(spec.fields@.len() as int) =~= fv);
    let k = &spec.primary_key;
    let mut row_list: Vec<String> = Vec::new();
    push_text(&mut row_list, k.ident.clone());
    extend_texts(&mut row_list, &reads);
    extend_texts(&mut row_list, &bounds);
    push_text(&mut row_list, ident_with(spec.state_field_name.as_str(), ": seekwel::Persisted"));
    let mut clone_list: Vec<String> = Vec::new();
    push_text(&mut clone_list, clone_init(k.ident.as_str()));
    extend_texts(&mut clone_list, &clones);
    push_text(
        &mut clone_list,
        ident_with(spec.state_field_name.as_str(), ": seekwel::Invalid::new(seekwel::Persisted, errors)"),
    );
    let head = persisted_head(spec);
    let rows = join_strings(&row_list, ", ");
    let mid = persisted_mid(spec);
    let inits = join_strings(&clone_list, ", ");
    let mut out = head;
    out.append(rows.as_str());
    out.append(mid.as_str());
    out.append(inits.as_str());
    out.append(" }\n    }\n}\n");
    proof {
        let m = spec@;
        assert(m.fields == fv);
        assert(m.primary_key == k@);
        assert(strings_view(row_list@) =~= seq![k.ident@] + row_reads(stored_of(fv)) + bound_inits(
            has_many_of(fv),
        ) + seq![spec.state_field_name@ + ": seekwel::Persisted"@]);
        assert(strings_view(clone_list@) =~= seq![clone_text(k.ident@)] + clone_inits(fv) + seq![
            spec.state_field_name@ + ": seekwel::Invalid::new(seekwel::Persisted, errors)"@,
        ]);
        assert(out@ =~= head@ + rows@ + mid@ + inits@ + " }\n    }\n}\n"@);
    }
    out
}

/// The field initializer that moves a field out of `self`.
fn move_init(ident: &str) -> (r: String)
    ensures
        r@ == move_text(ident@),
{
    let mut out = String::from_str(ident);
    out.append(": self.");
    out.append(ident);
    out
}

/// The generated `NewModel` impl up to the fields that `into_invalid` moves.
fn new_model_head(spec: &ModelSpec) -> (r: String)
    ensures
        r@ == new_model_head_text(spec@),
{
    let mut out = String::from_str("impl seekwel::model::NewModel for ");
    out.append(spec.name.as_str());
    out.append("<seekwel::NewRecord> {\n    type Persisted = ");
    out.append(spec.name.as_str());
    out.append("<seekwel::Persisted>;\n    type Invalid = ");
    out.append(spec.name.as_str());
    out.append("<seekwel::Invalid<seekwel::NewRecord, ");
    out.append(spec.columns_name.as_str());
    out.append(
        ">>;\n    fn validation_errors(&self) -> seekwel::Errors<Self::Column> {\n        let mut errors = seekwel::Errors::new();\n        <",
    );
    out.append(spec.validator.as_str());
    out.append(
        " as seekwel::model::Validator<Self>>::validate(self, &mut errors);\n        errors\n    }\n    fn into_invalid(self, errors: seekwel::Errors<Self::Column>) -> Self::Invalid {\n        ",
    );
    out.append(spec.name.as_str());
    out.append(" { ");
    out
}

/// The generated `NewModel` impl from the end of `into_invalid` to the fields that
/// `into_persisted` sets.
fn new_model_mid(spec: &ModelSpec) -> (r: String)
    ensures
        r@ == new_model_mid_text(spec@),
{
    let k = &spec.primary_key;
    let mut out = String::from_str(
        " }\n    }\n    fn into_persisted(self, id: u64) -> Result<Self::Persisted, seekwel::error::Error> {\n        let __seekwel_primary_key: ",
    );
    out.append(k.ty_text.as_str());
    out.append(" = ");
    if k.auto_increment {
        out.append("<");
        out.append(k.ty_text.as_str());
        out.append(" as seekwel::model::PrimaryKeyField>::from_generated_id(id)?");
    } else {
        out.append("self.");
        out.append(k.ident.as_str());
    }
    out.append(";\n        let __seekwel_association_id = <");
    out.append(k.ty_text.as_str());
    out.append(" as seekwel::model::PrimaryKeyField>::to_association_id(&__seekwel_primary_key)?;\n        Ok(");
    out.append(spec.name.as_str());
    out.append(" { ");
    out
}

/// The source text of the generated `NewModel` impl.
pub fn new_model_source(spec: &ModelSpec) -> (r: String)
    ensures
        r@ == new_model_text(spec@),
{
    let ghost fv = field_views(spec.fields@);
    let mut moves: Vec<String> = Vec::new();
    let mut persists: Vec<String> = Vec::new();
    let mut i: usize = 0;
    while i < spec.fields.len()
        invariant
            i <= spec.fields@.len(),
            fv == field_views(spec.fields@),
            strings_view(moves@) == move_inits(fv.take(i as int)),
            strings_view(persists@) == persist_inits(fv.take(i as int)),
        decreases spec.fields@.len() - i,
    {
        assert(fv.take(i + 1) =~= fv.take(i as int).push(spec.fields@[i as int]@));
        match &spec.fields[i] {
            ModelFieldSpec::Stored(s) => {
                push_text(&mut moves, move_init(s.ident.as_str()));
                push_text(&mut persists, move_init(s.ident.as_str()));
            },
            ModelFieldSpec::HasMany(h) => {
                push_text(&mut moves, move_init(h.ident.as_str()));
                push_text(
                    &mut persists,
                    ident_with(h.ident.as_str(), ": seekwel::HasMany::new_bound(__seekwel_association_id)"),
                );
            },
        }
        assert(move_inits(fv.take(i + 1)) =~= move_inits(fv.take(i as int)).push(
            move_text(field_ident(spec.fields@[i as int]@)),
        ));
        assert(persist_inits(fv.take(i + 1)) =~= persist_inits(fv.take(i as int)).push(
            persist_init(spec.fields@[i as int]@),
        ));
        i = i + 1;
    }
    assert(fv.take(spec.fields@.len() as int) =~= fv);
    let k = &spec.primary_key;
    let mut move_list: Vec<String> = Vec::new();
    push_text(&mut move_list, move_init(k.ident.as_str()));
    extend_texts(&mut move_list, &moves);
    push_text(
        &mut move_list,
        ident_with(spec.state_field_name.as_str(), ": seekwel::Invalid::new(seekwel::NewRecord, errors)"),
    );
    let mut persist_list: Vec<String> = Vec::new();
    push_text(&mut persist_list, ident_with(k.ident.as_str(), ": __seekwel_primary_key"));
    extend_texts(&mut persist_list, &persists);
    push_text(&mut persist_list, ident_with(spec.state_field_name.as_str(), ": seekwel::Persisted"));
    let head = new_model_head(spec);
    let moved = join_strings(&move_list, ", ");
    let mid = new_model_mid(spec);
    let persisted = join_strings(&persist_list, ", ");
    let mut out = head;
    out.append(moved.as_str());
    out.append(mid.as_str());
    out.append(persisted.as_str());
    out.append(" })\n    }\n}\n");
    proof {
        let m = spec@;
        assert(m.fields == fv);
        assert(m.primary_key == k@);
        assert(strings_view(move_list@) =~= seq![move_text(k.ident@)] + move_inits(fv) + seq![
            spec.state_field_name@ + ": seekwel::Invalid::new(seekwel::NewRecord, errors)"@,
        ]);
        assert(strings_view(persist_list@) =~= seq![k.ident@ + ": __seekwel_primary_key"@]
            + persist_inits(fv) + seq![spec.state_field_name@ + ": seekwel::Persisted"@]);
        assert(out@ =~= head@ + moved@ + mid@ + persisted@ + " })\n    }\n}\n"@);
    }
    out
}

/// A generated `ModelRecord` impl for a state in which the record has no key yet.
fn unsaved_record(name: &str, state: &str) -> (r: String)
    ensures
        r@ == unsaved_record_text(name@, state@),
{
    let mut out = String::from_str("impl seekwel::model::ModelRecord for ");
    out.append(name);
    out.append("<");
    out.append(state);
    out.append(
        "> {\n    fn persisted_id(&self) -> Option<u64> {\n        None\n    }\n    fn persisted_primary_key_value(&self) -> Option<rusqlite::types::Value> {\n        None\n    }\n}\n",
    );
    out
}

/// A generated `ModelRecord` impl for a state in which the record has its key.
fn saved_record(name: &str, state: &str, k: &PrimaryKeySpec, what: &str) -> (r: String)
    ensures
        r@ == saved_record_text(name@, state@, k@, what@),
{
    let mut out = String::from_str("impl seekwel::model::ModelRecord for ");
    out.append(name);
    out.append("<");
    out.append(state);
    out.append("> {\n    fn persisted_id(&self) -> Option<u64> {\n        Some(<");
    out.append(k.ty_text.as_str());
    out.append(" as seekwel::model::PrimaryKeyField>::to_association_id(&self.");
    out.append(k.ident.as_str());
    out.append(").expect(\"seekwel ");
    out.append(what);
    out.append(
        " primary key should convert to a non-negative u64 association id\"))\n    }\n    fn persisted_primary_key_value(&self) -> Option<rusqlite::types::Value> {\n        Some(<",
    );
    out.append(k.ty_text.as_str());
    out.append(" as seekwel::model::SqlField>::to_sql_value(&self.");
    out.append(k.ident.as_str());
    out.append("))\n    }\n}\n");
    out
}

/// The source text of the generated `ModelRecord` impls and the `InvalidModel` impl.
pub fn records_source(spec: &ModelSpec) -> (r: String)
    ensures
        r@ == records_text(spec@),
{
    let name = spec.name.as_str();
    let cn = spec.columns_name.as_str();
    let k = &spec.primary_key;
    let mut invalid_new = String::from_str("seekwel::Invalid<seekwel::NewRecord, ");
    invalid_new.append(cn);
    invalid_new.append(">");
    let mut invalid_saved = String::from_str("seekwel::Invalid<seekwel::Persisted, ");
    invalid_saved.append(cn);
    invalid_saved.append(">");
    let a = unsaved_record(name, "seekwel::NewRecord");
    let b = saved_record(name, "seekwel::Persisted", k, "persisted model");
    let c = unsaved_record(name, invalid_new.as_str());
    let d = saved_record(name, invalid_saved.as_str(), k, "invalid persisted model");
    let mut out = a;
    out.append("\n");
    out.append(b.as_str());
    out.append("\n");
    out.append(c.as_str());
    out.append("\n");
    out.append(d.as_str());
    out.append("\nimpl<S> seekwel::model::InvalidModel for ");
    out.append(name);
    out.append("<seekwel::Invalid<S, ");
    out.append(cn);
    out.append(
        ">> {\n    type PreviousState = S;\n    fn errors(&self) -> &seekwel::Errors<Self::Column> {\n        self.",
    );
    out.append(spec.state_field_name.as_str());
    out.append(".errors()\n    }\n}\n");
    proof {
        assert(out@ =~= records_text(spec@));
    }
    out
}

/// The source text of the generated inherent impl of the `...Columns` enum.
pub fn columns_impl_source(spec: &ModelSpec) -> (r: String)
    ensures
        r@ == columns_impl_text(spec@),
{
    let ghost fv = field_views(spec.fields@);
    let mut consts: Vec<String> = Vec::new();
    let mut stored: usize = 0;
    let mut i: usize = 0;
    while i < spec.fields.len()
        invariant
            i <= spec.fields@.len(),
            fv == field_views(spec.fields@),
            stored == stored_of(fv.take(i as int)).len(),
            stored <= i,
            strings_view(consts@) == key_consts(stored_of(fv.take(i as int))),
        decreases spec.fields@.len() - i,
    {
        assert(fv.take(i + 1).drop_last() =~= fv.take(i as int));
        assert(fv.take(i + 1).last() == spec.fields@[i as int]@);
        let ghost st = stored_of(fv.take(i as int));
        match &spec.fields[i] {
            ModelFieldSpec::Stored(s) => {
                let mut c = String::from_str("    pub const ");
                c.append(s.association_handler.as_str());
                c.append(": u8 = ");
                push_decimal(&mut c, (stored % 256) as u128);
                c.append(";\n");
                push_text(&mut consts, c);
                assert(key_consts(st.push(s@)) =~= key_consts(st).push(
                    key_const_text(s.association_handler@, st.len()),
                ));
                stored = stored + 1;
            },
            ModelFieldSpec::HasMany(_) => {},
        }
        i = i + 1;
    }
    assert(fv.take(spec.fields@.len() as int) =~= fv);
    let mut out = String::from_str("impl ");
    out.append(spec.columns_name.as_str());
    out.append(" {\n");
    let body = join_strings(&consts, "");
    out.append(body.as_str());
    out.append(
        "    pub fn asc(self) -> seekwel::Order {\n        seekwel::Order::asc(self)\n    }\n    pub fn desc(self) -> seekwel::Order {\n        seekwel::Order::desc(self)\n    }\n}\n",
    );
    proof {
        assert(spec@.fields == fv);
    }
    out
}

/// Concatenates text pieces in order.
fn concat_texts(parts: &Vec<String>) -> (r: String)
    ensures
        r@ == joined(strings_view(parts@), ""@),
{
    join_strings(parts, "")
}

/// The source text of the generated builder.
pub fn builder_source(spec: &ModelSpec) -> (r: String)
    ensures
        r@ == builder_text(spec@),
{
    let ghost fv = field_views(spec.fields@);
    let k = &spec.primary_key;
    let mut fields: Vec<String> = Vec::new();
    let mut defaults: Vec<String> = Vec::new();
    let mut setters: Vec<String> = Vec::new();
    let mut extracts: Vec<String> = Vec::new();
    if !k.auto_increment {
        let mut f = String::from_str(k.ident.as_str());
        f.append(": seekwel::model::builder::Required<");
        f.append(k.ty_text.as_str());
        f.append(">");
        push_text(&mut fields, f);
        push_text(&mut defaults, ident_with(k.ident.as_str(), ": Default::default()"));
        let mut st = String::from_str("    pub fn ");
        st.append(k.ident.as_str());
        st.append("(mut self, value: impl Into<");
        st.append(k.ty_text.as_str());
        st.append(">) -> Self {\n        self.");
        st.append(k.ident.as_str());
        st.append(".set(value);\n        self\n    }\n");
        push_text(&mut setters, st);
        let mut ex = String::from_str("        let ");
        ex.append(k.ident.as_str());
        ex.append(" = self.");
        ex.append(k.ident.as_str());
        ex.append(".finish(");
        ex.append(debug_str(k.field_name.as_str()).as_str());
        ex.append(")?;\n");
        push_text(&mut extracts, ex);
    }
    let ghost f0 = strings_view(fields@);
    let ghost d0 = strings_view(defaults@);
    let ghost s0 = strings_view(setters@);
    let ghost e0 = strings_view(extracts@);
    let mut inits: Vec<String> = Vec::new();
    let mut i: usize = 0;
    while i < spec.fields.len()
        invariant
            i <= spec.fields@.len(),
            fv == field_views(spec.fields@),
            strings_view(fields@) == f0 + stored_of(fv.take(i as int)).map_values(
                |s: StoredFieldView| builder_field_text(s),
            ),
            strings_view(defaults@) == d0 + stored_of(fv.take(i as int)).map_values(
                |s: StoredFieldView| s.ident + ": Default::default()"@,
            ),
            strings_view(setters@) == s0 + stored_of(fv.take(i as int)).map_values(
                |s: StoredFieldView| setter_text(s),
            ),
            strings_view(extracts@) == e0 + stored_of(fv.take(i as int)).map_values(
                |s: StoredFieldView| extract_text(s),
            ),
            strings_view(inits@) == fv.take(i as int).map_values(|f: FieldView| new_record_init(f)),
        decreases spec.fields@.len() - i,
    {
        assert(fv.take(i + 1).drop_last() =~= fv.take(i as int));
        assert(fv.take(i + 1).last() == spec.fields@[i as int]@);
        assert(fv.take(i + 1) =~= fv.take(i as int).push(spec.fields@[i as int]@));
        let ghost st = stored_of(fv.take(i as int));
        match &spec.fields[i] {
            ModelFieldSpec::Stored(s) => {
                let id = s.ident.as_str();
                let mut f = String::from_str(id);
                let mut setter = String::from_str("    pub fn ");
                setter.append(id);
                let mut ex = String::from_str("        let ");
                ex.append(id);
                ex.append(" = self.");
                ex.append(id);
                if s.is_optional {
                    f.append(": seekwel::model::builder::Optional<");
                    f.append(s.inner_ty_text.as_str());
                    f.append(">");
                    if s.association_target().is_some() {
                        setter.append("<V>(mut self, value: Option<V>) -> Self\n    where\n        V: Into<");
                        setter.append(s.inner_ty_text.as_str());
                        setter.append(">,\n    {\n        self.");
                        setter.append(id);
                        setter.append(".set(value.map(Into::into));\n        self\n    }\n");
                    } else {
                        setter.append("(mut self, value: ");
                        setter.append(s.ty_text.as_str());
                        setter.append(") -> Self {\n        self.");
                        setter.append(id);
                        setter.append(".set(value);\n        self\n    }\n");
                    }
                    ex.append(".finish();\n");
                } else {
                    f.append(": seekwel::model::builder::Required<");
                    f.append(s.ty_text.as_str());
                    f.append(">");
                    setter.append("(mut self, value: impl Into<");
                    setter.append(s.ty_text.as_str());
                    setter.append(">) -> Self {\n        self.");
                    setter.append(id);
                    setter.append(".set(value);\n        self\n    }\n");
                    ex.append(".finish(");
                    ex.append(debug_str(s.field_name.as_str()).as_str());
                    ex.append(")?;\n");
                }
                proof {
                    assert(f@ =~= builder_field_text(s@));
                    assert(setter@ =~= setter_text(s@));
                    assert(ex@ =~= extract_text(s@));
                }
                push_text(&mut fields, f);
                push_text(&mut defaults, ident_with(id, ": Default::default()"));
                push_text(&mut setters, setter);
                push_text(&mut extracts, ex);
                push_text(&mut inits, s.ident.clone());
                assert(st.push(s@).map_values(|s: StoredFieldView| builder_field_text(s)) =~= st.map_values(
                    |s: StoredFieldView| builder_field_text(s),
                ).push(builder_field_text(s@)));
                assert(st.push(s@).map_values(|s: StoredFieldView| s.ident + ": Default::default()"@)
                    =~= st.map_values(|s: StoredFieldView| s.ident + ": Default::default()"@).push(
                    s.ident@ + ": Default::default()"@,
                ));
                assert(st.push(s@).map_values(|s: StoredFieldView| setter_text(s)) =~= st.map_values(
                    |s: StoredFieldView| setter_text(s),
                ).push(setter_text(s@)));
                assert(st.push(s@).map_values(|s: StoredFieldView| extract_text(s)) =~= st.map_values(
                    |s: StoredFieldView| extract_text(s),
                ).push(extract_text(s@)));
            },
            ModelFieldSpec::HasMany(h) => {
                push_text(&mut inits, ident_with(h.ident.as_str(), ": seekwel::HasMany::new_unbound()"));
            },
        }
        assert(fv.take(i + 1).map_values(|f: FieldView| new_record_init(f)) =~= fv.take(i as int).map_values(
            |f: FieldView| new_record_init(f),
        ).push(new_record_init(spec.fields@[i as int]@)));
        i = i + 1;
    }
    assert(fv.take(spec.fields@.len() as int) =~= fv);
    let mut init_list: Vec<String> = Vec::new();
    if k.auto_increment {
        push_text(&mut init_list, ident_with(k.ident.as_str(), ": Default::default()"));
    } else {
        push_text(&mut init_list, k.ident.clone());
    }
    extend_texts(&mut init_list, &inits);
    push_text(&mut init_list, ident_with(spec.state_field_name.as_str(), ": seekwel::NewRecord"));
    let n = spec.name.as_str();
    let b = spec.builder_name.as_str();
    let mut out = String::from_str("impl ");
    out.append(n);
    out.append("<seekwel::Persisted> {\n    pub fn builder() -> ");
    out.append(b);
    out.append(" {\n        ");
    out.append(b);
    out.append(" { ");
    let dj = join_strings(&defaults, ", ");
    out.append(dj.as_str());
    out.append(" }\n    }\n}\n\n");
    out.append(vis_prefix(spec.vis.as_str()).as_str());
    out.append("struct ");
    out.append(b);
    out.append(" {\n    ");
    let fj = join_strings(&fields, ",\n    ");
    out.append(fj.as_str());
    out.append("\n}\n\nimpl ");
    out.append(b);
    out.append(" {\n");
    let sj = concat_texts(&setters);
    out.append(sj.as_str());
    out.append("    pub fn build(self) -> Result<");
    out.append(n);
    out.append("<seekwel::NewRecord>, seekwel::error::Error> {\n");
    let ej = concat_texts(&extracts);
    out.append(ej.as_str());
    out.append("        Ok(");
    out.append(n);
    out.append(" { ");
    let ij = join_strings(&init_list, ", ");
    out.append(ij.as_str());
    out.append(" })\n    }\n    pub fn create(self) -> Result<");
    out.append(n);
    out.append("<seekwel::Persisted>, seekwel::model::SaveError<<");
    out.append(n);
    out.append("<seekwel::NewRecord> as seekwel::model::NewModel>::Invalid>> {\n        <");
    out.append(n);
    out.append(
        "<seekwel::NewRecord> as seekwel::model::NewModel>::save(self.build().map_err(seekwel::model::SaveError::Error)?)\n    }\n}\n",
    );
    proof {
        let m = spec@;
        assert(m.fields == fv);
        assert(m.primary_key == k@);
        if k.auto_increment {
            assert(f0 =~= Seq::<Seq<char>>::empty());
            assert(d0 =~= Seq::<Seq<char>>::empty());
            assert(s0 =~= Seq::<Seq<char>>::empty());
            assert(e0 =~= Seq::<Seq<char>>::empty());
        }
        assert(strings_view(fields@) =~= builder_fields(m));
        assert(strings_view(defaults@) =~= builder_defaults(m));
        assert(strings_view(setters@) =~= builder_setters(m));
        assert(strings_view(extracts@) =~= builder_extracts(m));
        assert(strings_view(init_list@) =~= new_record_inits(m));
        assert(out@ =~= builder_text(m));
    }
    out
}

/// A field of the params struct.
fn params_field_src(serde: bool, name: &str, ty: &str) -> (r: String)
    ensures
        r@ == params_field_text(serde, name@, ty@),
{
    let mut out = String::from_str("    ");
    if serde {
        out.append("#[serde(default)] ");
    } else {
        out.append("");
    }
    out.append(name);
    out.append(": seekwel::model::params::Param<");
    out.append(ty);
    out.append(">,\n");
    out
}

/// A params setter that takes anything that converts into the field's type.
fn params_into_setter(name: &str, ty: &str) -> (r: String)
    ensures
        r@ == params_into_setter_text(name@, ty@),
{
    let mut out = String::from_str("    pub fn ");
    out.append(name);
    out.append("(mut self, value: impl Into<");
    out.append(ty);
    out.append(">) -> Self {\n        self.");
    out.append(name);
    out.append(" = seekwel::model::params::Param::provided(value.into());\n        self\n    }\n");
    out
}

/// The statements of `build_from_params` that take a value that must be present and
/// allowed.
fn required_extract(cn: &str, ident: &str, variant: &str, pf: &str, column: &str) -> (r: String)
    ensures
        r@ == required_extract_text(cn@, ident@, variant@, pf@, column@),
{
    let quoted = debug_str(column);
    let mut out = String::from_str("        let ");
    out.append(ident);
    out.append(" = if __seekwel_is_allowed(");
    out.append(cn);
    out.append("::");
    out.append(variant);
    out.append(") {\n            __seekwel_params.");
    out.append(pf);
    out.append(".into_value().ok_or_else(|| seekwel::error::Error::MissingField(");
    out.append(quoted.as_str());
    out.append(".to_string()))?\n        } else {\n            return Err(seekwel::error::Error::MissingField(");
    out.append(quoted.as_str());
    out.append(".to_string()));\n        };\n");
    out
}

/// The opening of `build_from_params` and `apply_params`.
fn params_unpack(a: &str, cn: &str) -> (r: String)
    ensures
        r@ == params_unpack_text(a@, cn@),
{
    let mut out = String::from_str("        let ");
    out.append(a);
    out.append(
        " { params: __seekwel_params, allowed: __seekwel_allowed } = __seekwel_allowed_params;\n        let __seekwel_is_allowed = |column: ",
    );
    out.append(cn);
    out.append("| __seekwel_allowed.contains(&column);\n");
    out
}

/// The check that refuses a key that params may not set.
fn refused_key(cn: &str, k: &PrimaryKeySpec, what: &str) -> (r: String)
    ensures
        r@ == refused_key_text(cn@, k@, what@),
{
    let mut out = String::from_str("        if __seekwel_is_allowed(");
    out.append(cn);
    out.append("::");
    out.append(k.query_variant.as_str());
    out.append(
        ") {\n            return Err(seekwel::error::Error::InvalidParams(format!(\"column `{}` is not assignable ",
    );
    out.append(what);
    out.append("\", ");
    out.append(debug_str(k.field_name.as_str()).as_str());
    out.append(")));\n        }\n");
    out
}

/// The initializers of the record that `build` and `build_from_params` return.
fn new_record_init_list(spec: &ModelSpec) -> (r: Vec<String>)
    ensures
        strings_view(r@) == new_record_inits(spec@),
{
    let ghost fv = field_views(spec.fields@);
    let k = &spec.primary_key;
    let mut out: Vec<String> = Vec::new();
    if k.auto_increment {
        push_text(&mut out, ident_with(k.ident.as_str(), ": Default::default()"));
    } else {
        push_text(&mut out, k.ident.clone());
    }
    let ghost o0 = strings_view(out@);
    let mut i: usize = 0;
    while i < spec.fields.len()
        invariant
            i <= spec.fields@.len(),
            fv == field_views(spec.fields@),
            strings_view(out@) == o0 + fv.take(i as int).map_values(|f: FieldView| new_record_init(f)),
        decreases spec.fields@.len() - i,
    {
        assert(fv.take(i + 1) =~= fv.take(i as int).push(spec.fields@[i as int]@));
        match &spec.fields[i] {
            ModelFieldSpec::Stored(s) => {
                push_text(&mut out, s.ident.clone());
            },
            ModelFieldSpec::HasMany(h) => {
                push_text(&mut out, ident_with(h.ident.as_str(), ": seekwel::HasMany::new_unbound()"));
            },
        }
        assert(fv.take(i + 1).map_values(|f: FieldView| new_record_init(f)) =~= fv.take(i as int).map_values(
            |f: FieldView| new_record_init(f),
        ).push(new_record_init(spec.fields@[i as int]@)));
        i = i + 1;
    }
    assert(fv.take(spec.fields@.len() as int) =~= fv);
    push_text(&mut out, ident_with(spec.state_field_name.as_str(), ": seekwel::NewRecord"));
    proof {
        assert(spec@.fields == fv);
        assert(strings_view(out@) =~= new_record_inits(spec@));
    }
    out
}

/// The per-field pieces of the params items.
struct ParamsParts {
    fields: Vec<String>,
    setters: Vec<String>,
    extracts: Vec<String>,
    updates: Vec<String>,
    columns: Vec<String>,
}

/// Works out the params pieces of the stored fields, in order.
fn params_parts(spec: &ModelSpec, serde: bool) -> (r: ParamsParts)
    ensures
        strings_view(r.fields@) == stored_of(spec@.fields).map_values(
            |s: StoredFieldView| params_field_text(serde, param_field(s), s.ty_text),
        ),
        strings_view(r.setters@) == stored_of(spec@.fields).map_values(|s: StoredFieldView| params_setter_text(s)),
        strings_view(r.extracts@) == stored_of(spec@.fields).map_values(
            |s: StoredFieldView| params_extract_text(spec@.columns_name, s),
        ),
        strings_view(r.updates@) == stored_of(spec@.fields).map_values(
            |s: StoredFieldView| params_update_text(spec@.columns_name, s),
        ),
        strings_view(r.columns@) == stored_of(spec@.fields).map_values(
            |s: StoredFieldView| spec@.columns_name + "::"@ + s.query_variant,
        ),
{
    let ghost fv = field_views(spec.fields@);
    let ghost cnv = spec.columns_name@;
    let cn = spec.columns_name.as_str();
    let mut parts = ParamsParts {
        fields: Vec::new(),
        setters: Vec::new(),
        extracts: Vec::new(),
        updates: Vec::new(),
        columns: Vec::new(),
    };
    let mut i: usize = 0;
    while i < spec.fields.len()
        invariant
            i <= spec.fields@.len(),
            fv == field_views(spec.fields@),
            cn@ == cnv,
            cnv == spec.columns_name@,
            strings_view(parts.fields@) == stored_of(fv.take(i as int)).map_values(
                |s: StoredFieldView| params_field_text(serde, param_field(s), s.ty_text),
            ),
            strings_view(parts.setters@) == stored_of(fv.take(i as int)).map_values(
                |s: StoredFieldView| params_setter_text(s),
            ),
            strings_view(parts.extracts@) == stored_of(fv.take(i as int)).map_values(
                |s: StoredFieldView| params_extract_text(cnv, s),
            ),
            strings_view(parts.updates@) == stored_of(fv.take(i as int)).map_values(
                |s: StoredFieldView| params_update_text(cnv, s),
            ),
            strings_view(parts.columns@) == stored_of(fv.take(i as int)).map_values(
                |s: StoredFieldView| cnv + "::"@ + s.query_variant,
            ),
        decreases spec.fields@.len() - i,
    {
        assert(fv.take(i + 1).drop_last() =~= fv.take(i as int));
        assert(fv.take(i + 1).last() == spec.fields@[i as int]@);
        let ghost st = stored_of(fv.take(i as int));
        match &spec.fields[i] {
            ModelFieldSpec::Stored(s) => {
                let pf = params_field_name(s);
                let pfs = pf.as_str();
                let id = s.ident.as_str();
                let field = params_field_src(serde, pfs, s.ty_text.as_str());
                let setter = if s.is_optional {
                    let mut t = String::from_str("    pub fn ");
                    t.append(pfs);
                    if s.association_target().is_some() {
                        t.append("<V>(mut self, value: Option<V>) -> Self\n    where\n        V: Into<");
                        t.append(s.inner_ty_text.as_str());
                        t.append(">,\n    {\n        self.");
                        t.append(pfs);
                        t.append(" = seekwel::model::params::Param::provided(value.map(Into::into));\n        self\n    }\n");
                    } else {
                        t.append("(mut self, value: ");
                        t.append(s.ty_text.as_str());
                        t.append(") -> Self {\n        self.");
                        t.append(pfs);
                        t.append(" = seekwel::model::params::Param::provided(value);\n        self\n    }\n");
                    }
                    t
                } else {
                    params_into_setter(pfs, s.ty_text.as_str())
                };
                let extract = if s.is_optional {
                    let mut t = String::from_str("        let ");
                    t.append(id);
                    t.append(" = if __seekwel_is_allowed(");
                    t.append(cn);
                    t.append("::");
                    t.append(s.query_variant.as_str());
                    t.append(") {\n            __seekwel_params.");
                    t.append(pfs);
                    t.append(".into_value().unwrap_or(None)\n        } else {\n            None\n        };\n");
                    t
                } else {
                    required_extract(cn, id, s.query_variant.as_str(), pfs, s.storage_column_name.as_str())
                };
                let mut update = String::from_str("        if __seekwel_is_allowed(");
                update.append(cn);
                update.append("::");
                update.append(s.query_variant.as_str());
                update.append(") {\n            if let Some(__seekwel_value) = __seekwel_params.");
                update.append(pfs);
                update.append(".into_value() {\n                self.");
                update.append(id);
                update.append(" = __seekwel_value;\n            }\n        }\n");
                let mut column = String::from_str(cn);
                column.append("::");
                column.append(s.query_variant.as_str());
                proof {
                    assert(pf@ == param_field(s@));
                    assert(field@ == params_field_text(serde, param_field(s@), s@.ty_text));
                    assert(setter@ =~= params_setter_text(s@));
                    assert(extract@ =~= params_extract_text(cnv, s@));
                    assert(update@ =~= params_update_text(cnv, s@));
                }
                push_text(&mut parts.fields, field);
                push_text(&mut parts.setters, setter);
                push_text(&mut parts.extracts, extract);
                push_text(&mut parts.updates, update);
                push_text(&mut parts.columns, column);
                assert(st.push(s@).map_values(|s: StoredFieldView| params_field_text(serde, param_field(s), s.ty_text))
                    =~= st.map_values(|s: StoredFieldView| params_field_text(serde, param_field(s), s.ty_text)).push(
                    params_field_text(serde, param_field(s@), s@.ty_text),
                ));
                assert(st.push(s@).map_values(|s: StoredFieldView| params_setter_text(s)) =~= st.map_values(
                    |s: StoredFieldView| params_setter_text(s),
                ).push(params_setter_text(s@)));
                assert(st.push(s@).map_values(|s: StoredFieldView| params_extract_text(cnv, s)) =~= st.map_values(
                    |s: StoredFieldView| params_extract_text(cnv, s),
                ).push(params_extract_text(cnv, s@)));
                assert(st.push(s@).map_values(|s: StoredFieldView| params_update_text(cnv, s)) =~= st.map_values(
                    |s: StoredFieldView| params_update_text(cnv, s),
                ).push(params_update_text(cnv, s@)));
                assert(st.push(s@).map_values(|s: StoredFieldView| cnv + "::"@ + s.query_variant) =~= st.map_values(
                    |s: StoredFieldView| cnv + "::"@ + s.query_variant,
                ).push(cnv + "::"@ + s@.query_variant));
            },
            ModelFieldSpec::HasMany(_) => {},
        }
        i = i + 1;
    }
    assert(fv.take(spec.fields@.len() as int) =~= fv);
    proof {
        assert(spec@.fields == fv);
    }
    parts
}

/// The source text of the generated params items, with the params struct deserializable
/// when `serde` is set.
pub fn params_source(spec: &ModelSpec, serde: bool) -> (r: String)
    ensures
        r@ == params_text(spec@, serde),
{
    let names = generated_names(spec.name.as_str());
    let p = names.params_name.as_str();
    let a = names.allowed_params_name.as_str();
    let n = spec.name.as_str();
    let cn = spec.columns_name.as_str();
    let k = &spec.primary_key;
    let parts = params_parts(spec, serde);
    let mut fields: Vec<String> = Vec::new();
    let mut setters: Vec<String> = Vec::new();
    let mut columns: Vec<String> = Vec::new();
    if !k.auto_increment {
        push_text(&mut fields, params_field_src(serde, k.ident.as_str(), k.ty_text.as_str()));
        push_text(&mut setters, params_into_setter(k.ident.as_str(), k.ty_text.as_str()));
        let mut c = String::from_str(cn);
        c.append("::");
        c.append(k.query_variant.as_str());
        push_text(&mut columns, c);
    }
    let ghost f0 = strings_view(fields@);
    let ghost s0 = strings_view(setters@);
    let ghost c0 = strings_view(columns@);
    extend_texts(&mut fields, &parts.fields);
    extend_texts(&mut setters, &parts.setters);
    extend_texts(&mut columns, &parts.columns);
    let key_check = if k.auto_increment {
        refused_key(cn, k, "from params")
    } else {
        required_extract(cn, k.ident.as_str(), k.query_variant.as_str(), k.ident.as_str(), k.field_name.as_str())
    };
    let inits = new_record_init_list(spec);
    let unpack = params_unpack(a, cn);
    let update_check = refused_key(cn, k, "by update params");
    let fj = concat_texts(&fields);
    let sj = concat_texts(&setters);
    let cj = join_strings(&columns, ", ");
    let ej = concat_texts(&parts.extracts);
    let ij = join_strings(&inits, ", ");
    let uj = concat_texts(&parts.updates);
    let mut out = if serde {
        String::from_str("#[derive(Clone, Default, seekwel::__private::serde::Deserialize)]\n")
    } else {
        String::from_str("#[derive(Clone, Default)]\n")
    };
    out.append(vis_prefix(spec.vis.as_str()).as_str());
    out.append("struct ");
    out.append(p);
    out.append(" {\n");
    out.append(fj.as_str());
    out.append("}\n\nimpl ");
    out.append(p);
    out.append(" {\n    pub fn new() -> Self {\n        Self::default()\n    }\n");
    out.append(sj.as_str());
    out.append("    pub fn allow<I>(self, columns: I) -> ");
    out.append(a);
    out.append("\n    where\n        I: IntoIterator<Item = ");
    out.append(cn);
    out.append(">,\n    {\n        <Self as seekwel::model::Params>::allow(self, columns)\n    }\n    pub fn allow_all(self) -> ");
    out.append(a);
    out.append(" {\n        <Self as seekwel::model::Params>::allow_all(self)\n    }\n}\n\nimpl seekwel::model::Params for ");
    out.append(p);
    out.append(" {\n    type Model = ");
    out.append(n);
    out.append("<seekwel::Persisted>;\n    type Allowed = ");
    out.append(a);
    out.append(
        ";\n    fn allow<I>(self, columns: I) -> Self::Allowed\n    where\n        I: IntoIterator<Item = <Self::Model as seekwel::model::Model>::Column>,\n    {\n        ",
    );
    out.append(a);
    out.append(" { params: self, allowed: columns.into_iter().collect() }\n    }\n    fn allow_all(self) -> Self::Allowed {\n        ");
    out.append(a);
    out.append(" { params: self, allowed: vec![");
    out.append(cj.as_str());
    out.append("] }\n    }\n}\n\n");
    out.append(vis_prefix(spec.vis.as_str()).as_str());
    out.append("struct ");
    out.append(a);
    out.append(" {\n    params: ");
    out.append(p);
    out.append(",\n    allowed: std::vec::Vec<");
    out.append(cn);
    out.append(">,\n}\n\nimpl ");
    out.append(a);
    out.append(" {\n    pub fn allows(&self, column: ");
    out.append(cn);
    out.append(") -> bool {\n        self.allowed.contains(&column)\n    }\n}\n\nimpl seekwel::model::params::ParamsModel for ");
    out.append(n);
    out.append("<seekwel::Persisted> {\n    type NewRecord = ");
    out.append(n);
    out.append("<seekwel::NewRecord>;\n    type Params = ");
    out.append(p);
    out.append(";\n    fn build_from_params(__seekwel_allowed_params: ");
    out.append(a);
    out.append(") -> Result<Self::NewRecord, seekwel::error::Error> {\n");
    out.append(unpack.as_str());
    out.append(key_check.as_str());
    out.append(ej.as_str());
    out.append("        Ok(");
    out.append(n);
    out.append(" { ");
    out.append(ij.as_str());
    out.append(" })\n    }\n    fn apply_params(&mut self, __seekwel_allowed_params: ");
    out.append(a);
    out.append(") -> Result<(), seekwel::error::Error> {\n");
    out.append(unpack.as_str());
    out.append(update_check.as_str());
    out.append(uj.as_str());
    out.append("        Ok(())\n    }\n}\n");
    proof {
        let m = spec@;
        let st = stored_of(m.fields);
        assert(m.primary_key == k@);
        assert(m.columns_name == cn@);
        if k.auto_increment {
            assert(f0 =~= Seq::<Seq<char>>::empty());
            assert(s0 =~= Seq::<Seq<char>>::empty());
            assert(c0 =~= Seq::<Seq<char>>::empty());
        }
        assert(strings_view(fields@) =~= key_part(k.auto_increment, params_field_text(serde, k.ident@, k.ty_text@))
            + st.map_values(|s: StoredFieldView| params_field_text(serde, param_field(s), s.ty_text)));
        assert(strings_view(setters@) =~= key_part(k.auto_increment, params_into_setter_text(k.ident@, k.ty_text@))
            + st.map_values(|s: StoredFieldView| params_setter_text(s)));
        assert(strings_view(columns@) =~= allow_all_items(m));
        assert(out@ =~= params_text(m, serde));
    }
    out
}

/// The source text of the association accessors and `HasManyAssociation` impls.
pub fn associations_source(spec: &ModelSpec) -> (r: String)
    ensures
        r@ == associations_text(spec@),
{
    let ghost fv = field_views(spec.fields@);
    let ghost m = spec@;
    let n = spec.name.as_str();
    let cn = spec.columns_name.as_str();
    let mut methods: Vec<String> = Vec::new();
    let mut impls: Vec<String> = Vec::new();
    let mut i: usize = 0;
    while i < spec.fields.len()
        invariant
            i <= spec.fields@.len(),
            fv == field_views(spec.fields@),
            m == spec@,
            n@ == m.name,
            cn@ == m.columns_name,
            strings_view(methods@) == stored_of(fv.take(i as int)).map_values(
                |s: StoredFieldView| association_method_text(s),
            ),
            strings_view(impls@) == stored_of(fv.take(i as int)).map_values(
                |s: StoredFieldView| has_many_impl_text(m, s),
            ),
        decreases spec.fields@.len() - i,
    {
        assert(fv.take(i + 1).drop_last() =~= fv.take(i as int));
        assert(fv.take(i + 1).last() == spec.fields@[i as int]@);
        let ghost st = stored_of(fv.take(i as int));
        match &spec.fields[i] {
            ModelFieldSpec::Stored(s) => {
                let id = s.ident.as_str();
                let t = s.target_ty_text.as_str();
                let mut method = String::new();
                let mut imp = String::new();
                if s.association_target().is_some() {
                    method.append("    pub fn ");
                    method.append(id);
                    if s.is_optional {
                        method.append("(&self) -> Result<Option<");
                        method.append(t);
                        method.append(">, seekwel::error::Error>\n    where\n        ");
                        method.append(t);
                        method.append(": seekwel::model::PersistedModel + Clone,\n    {\n        self.");
                        method.append(id);
                        method.append(".as_ref().map(|association| association.load()).transpose()\n    }\n");
                    } else {
                        method.append("(&self) -> Result<");
                        method.append(t);
                        method.append(", seekwel::error::Error>\n    where\n        ");
                        method.append(t);
                        method.append(": seekwel::model::PersistedModel + Clone,\n    {\n        self.");
                        method.append(id);
                        method.append(".load()\n    }\n");
                    }
                    imp.append("\nimpl seekwel::model::HasManyAssociation<{ ");
                    imp.append(cn);
                    imp.append("::");
                    imp.append(s.association_handler.as_str());
                    imp.append(" }> for ");
                    imp.append(n);
                    imp.append("<seekwel::Persisted> {\n    type Parent = ");
                    imp.append(t);
                    imp.append(";\n    type Builder = ");
                    imp.append(spec.builder_name.as_str());
                    imp.append(
                        ";\n    fn load_for_parent(parent_id: u64) -> Result<Vec<Self>, seekwel::error::Error> {\n        <seekwel::model::Query<Self> as seekwel::model::QueryDsl>::all(seekwel::model::Query::new(",
                    );
                    imp.append(cn);
                    imp.append("::");
                    imp.append(s.query_variant.as_str());
                    imp.append(
                        ", seekwel::Comparison::Eq(parent_id)))\n    }\n    fn append_for_parent(parent_id: u64, builder: Self::Builder) -> Result<Self, seekwel::error::Error> {\n        Ok(builder.",
                    );
                    imp.append(id);
                    if s.is_optional {
                        imp.append("(Some(parent_id))");
                    } else {
                        imp.append("(parent_id)");
                    }
                    imp.append(".create()?)\n    }\n}\n");
                }
                proof {
                    reveal_strlit("");
                    assert(method@ =~= association_method_text(s@));
                    assert(imp@ =~= has_many_impl_text(m, s@));
                }
                push_text(&mut methods, method);
                push_text(&mut impls, imp);
                assert(st.push(s@).map_values(|s: StoredFieldView| association_method_text(s)) =~= st.map_values(
                    |s: StoredFieldView| association_method_text(s),
                ).push(association_method_text(s@)));
                assert(st.push(s@).map_values(|s: StoredFieldView| has_many_impl_text(m, s)) =~= st.map_values(
                    |s: StoredFieldView| has_many_impl_text(m, s),
                ).push(has_many_impl_text(m, s@)));
            },
            ModelFieldSpec::HasMany(_) => {},
        }
        i = i + 1;
    }
    assert(fv.take(spec.fields@.len() as int) =~= fv);
    let mj = concat_texts(&methods);
    let ij = concat_texts(&impls);
    let mut out = String::from_str("impl ");
    out.append(n);
    out.append("<seekwel::Persisted> {\n");
    out.append(mj.as_str());
    out.append("}\n");
    out.append(ij.as_str());
    proof {
        assert(m.fields == fv);
        assert(out@ =~= associations_text(m));
    }
    out
}

/// The source text of the generated registry entry.
pub fn registry_source(name: &str) -> (r: String)
    ensures
        r@ == registry_text(name@),
{
    let names = generated_names(name);
    let cfg = "#[cfg(any(target_os = \"linux\", target_os = \"android\", target_os = \"freebsd\", target_os = \"dragonfly\", target_os = \"netbsd\", target_os = \"openbsd\"))]\n";
    let mut out = String::from_str(cfg);
    out.append("#[doc(hidden)]\n#[allow(non_snake_case)]\nfn ");
    out.append(names.registry_fn_name.as_str());
    out.append("() -> Option<seekwel::schema::TableDef> {\n    Some(seekwel::schema::__private::table_for_model::<");
    out.append(name);
    out.append("<seekwel::Persisted>>())\n}\n\n");
    out.append(cfg);
    out.append(
        "#[doc(hidden)]\n#[used]\n#[allow(non_upper_case_globals)]\n#[unsafe(link_section = \"seekwel_schema_registry\")]\nstatic ",
    );
    out.append(names.registry_entry_name.as_str());
    out.append(": seekwel::schema::__private::RegistryEntry =\n    seekwel::schema::__private::RegistryEntry::new(");
    out.append(names.registry_fn_name.as_str());
    out.append(");\n");
    out
}

/// The source text of the generated `Model` impl and `...Columns` enum.
fn model_impl_source(spec: &ModelSpec) -> (r: String)
    ensures
        r@ == model_impl_text(spec@),
{
    let ghost fv = field_views(spec.fields@);
    let k = &spec.primary_key;
    let cn = spec.columns_name.as_str();
    let mut defs: Vec<String> = Vec::new();
    let mut vals: Vec<String> = Vec::new();
    let mut variants: Vec<String> = Vec::new();
    let mut arms: Vec<String> = Vec::new();
    let mut i: usize = 0;
    while i < spec.fields.len()
        invariant
            i <= spec.fields@.len(),
            fv == field_views(spec.fields@),
            cn@ == spec.columns_name@,
            strings_view(defs@) == column_defs(stored_of(fv.take(i as int))),
            strings_view(vals@) == param_values(stored_of(fv.take(i as int))),
            strings_view(variants@) == column_variants(stored_of(fv.take(i as int))),
            strings_view(arms@) == column_arms(spec.columns_name@, stored_of(fv.take(i as int))),
        decreases spec.fields@.len() - i,
    {
        assert(fv.take(i + 1).drop_last() =~= fv.take(i as int));
        assert(fv.take(i + 1).last() == spec.fields@[i as int]@);
        let ghost st = stored_of(fv.take(i as int));
        match &spec.fields[i] {
            ModelFieldSpec::Stored(s) => {
                push_text(&mut defs, column_def(s.storage_column_name.as_str(), s.ty_text.as_str()));
                push_text(&mut vals, param_expr(s.ident.as_str(), s.ty_text.as_str()));
                push_text(&mut variants, s.query_variant.clone());
                push_text(&mut arms, arm(cn, s.query_variant.as_str(), s.storage_column_name.as_str()));
                assert(column_defs(st.push(s@)) =~= column_defs(st).push(
                    column_def_text(s.storage_column_name@, s.ty_text@),
                ));
                assert(param_values(st.push(s@)) =~= param_values(st).push(
                    param_text(s.ident@, s.ty_text@),
                ));
                assert(column_variants(st.push(s@)) =~= column_variants(st).push(s.query_variant@));
                assert(column_arms(spec.columns_name@, st.push(s@)) =~= column_arms(
                    spec.columns_name@,
                    st,
                ).push(arm_text(spec.columns_name@, s.query_variant@, s.storage_column_name@)));
            },
            ModelFieldSpec::HasMany(_) => {},
        }
        i = i + 1;
    }
    assert(fv.take(spec.fields@.len() as int) =~= fv);
    let ghost st_all = stored_of(fv);
    let mut ins_defs: Vec<String> = Vec::new();
    let mut ins_vals: Vec<String> = Vec::new();
    if !k.auto_increment {
        push_text(&mut ins_defs, column_def(k.field_name.as_str(), k.ty_text.as_str()));
        push_text(&mut ins_vals, param_expr(k.ident.as_str(), k.ty_text.as_str()));
    }
    let ghost d0 = strings_view(ins_defs@);
    let ghost v0 = strings_view(ins_vals@);
    let mut j: usize = 0;
    while j < defs.len()
        invariant
            j <= defs@.len(),
            defs@.len() == vals@.len(),
            strings_view(ins_defs@) == d0 + strings_view(defs@).take(j as int),
            strings_view(ins_vals@) == v0 + strings_view(vals@).take(j as int),
        decreases defs@.len() - j,
    {
        push_text(&mut ins_defs, defs[j].clone());
        push_text(&mut ins_vals, vals[j].clone());
        assert(strings_view(defs@).take(j + 1) =~= strings_view(defs@).take(j as int).push(
            defs@[j as int]@,
        ));
        assert(strings_view(vals@).take(j + 1) =~= strings_view(vals@).take(j as int).push(
            vals@[j as int]@,
        ));
        j = j + 1;
    }
    assert(strings_view(defs@).take(defs@.len() as int) =~= strings_view(defs@));
    assert(strings_view(vals@).take(vals@.len() as int) =~= strings_view(vals@));
    proof {
        if k.auto_increment {
            assert(d0 =~= Seq::<Seq<char>>::empty());
            assert(v0 =~= Seq::<Seq<char>>::empty());
        }
        assert(strings_view(ins_defs@) =~= with_key(
            k.auto_increment,
            column_def_text(k.field_name@, k.ty_text@),
            column_defs(st_all),
        ));
        assert(strings_view(ins_vals@) =~= with_key(
            k.auto_increment,
            param_text(k.ident@, k.ty_text@),
            param_values(st_all),
        ));
    }
    let mut all_variants: Vec<String> = Vec::new();
    let mut all_arms: Vec<String> = Vec::new();
    push_text(&mut all_variants, k.query_variant.clone());
    push_text(&mut all_arms, arm(cn, k.query_variant.as_str(), k.field_name.as_str()));
    let ghost a0 = strings_view(all_variants@);
    let ghost r0 = strings_view(all_arms@);
    let mut n: usize = 0;
    while n < variants.len()
        invariant
            n <= variants@.len(),
            variants@.len() == arms@.len(),
            strings_view(all_variants@) == a0 + strings_view(variants@).take(n as int),
            strings_view(all_arms@) == r0 + strings_view(arms@).take(n as int),
        decreases variants@.len() - n,
    {
        push_text(&mut all_variants, variants[n].clone());
        push_text(&mut all_arms, arms[n].clone());
        assert(strings_view(variants@).take(n + 1) =~= strings_view(variants@).take(n as int).push(
            variants@[n as int]@,
        ));
        assert(strings_view(arms@).take(n + 1) =~= strings_view(arms@).take(n as int).push(
            arms@[n as int]@,
        ));
        n = n + 1;
    }
    assert(strings_view(variants@).take(variants@.len() as int) =~= strings_view(variants@));
    assert(strings_view(arms@).take(arms@.len() as int) =~= strings_view(arms@));
    let h = header(spec);
    let kf = key_fn(k);
    let c = const_list_fn("columns() -> &'static [seekwel::model::ColumnDef]", "COLUMNS", &defs);
    let ic = const_list_fn(
        "insert_columns() -> &'static [seekwel::model::ColumnDef]",
        "INSERT_COLUMNS",
        &ins_defs,
    );
    let p = list_fn("params(&self) -> Vec<rusqlite::types::Value>", "vec![", &vals);
    let ip = list_fn("insert_params(&self) -> Vec<rusqlite::types::Value>", "vec![", &ins_vals);
    let e = enum_source(spec.vis.as_str(), cn, &all_variants, &all_arms);
    let mut out = h;
    out.append(kf.as_str());
    out.append(c.as_str());
    out.append(ic.as_str());
    out.append(p.as_str());
    out.append(ip.as_str());
    out.append(e.as_str());
    proof {
        let m = spec@;
        assert(m.fields == fv);
        assert(m.primary_key == k@);
        assert(m.columns_name == cn@);
        assert(strings_view(defs@) == column_defs(st_all));
        assert(strings_view(vals@) == param_values(st_all));
        assert(strings_view(all_variants@) =~= seq![k.query_variant@] + column_variants(st_all));
        assert(strings_view(all_arms@) =~= seq![arm_text(cn@, k.query_variant@, k.field_name@)]
            + column_arms(cn@, st_all));
        assert(h@ == header_text(m));
        assert(kf@ == key_fn_text(m.primary_key));
        assert(out@ =~= h@ + kf@ + c@ + ic@ + p@ + ip@ + e@);
    }
    out
}

/// The source text of what the derive generates for a model; a macro front end turns it
/// into tokens, together with [`params_source`] for the params items.
pub fn model_source(spec: &ModelSpec) -> (r: String)
    ensures
        r@ == model_source_text(spec@),
{
    let mi = model_impl_source(spec);
    let ci = columns_impl_source(spec);
    let rc = records_source(spec);
    let ps = persisted_source(spec);
    let ns = new_model_source(spec);
    let bs = builder_source(spec);
    let asc = associations_source(spec);
    let rs = registry_source(spec.name.as_str());
    let mut out = mi;
    out.append("\n");
    out.append(ci.as_str());
    out.append("\n");
    out.append(rc.as_str());
    out.append("\n");
    out.append(ps.as_str());
    out.append("\n");
    out.append(ns.as_str());
    out.append("\n");
    out.append(bs.as_str());
    out.append("\n");
    out.append(asc.as_str());
    out.append("\n");
    out.append(rs.as_str());
    proof {
        assert(out@ =~= mi@ + "\n"@ + ci@ + "\n"@ + rc@ + "\n"@ + ps@ + "\n"@ + ns@ + "\n"@ + bs@ + "\n"@
            + asc@ + "\n"@ + rs@);
    }
    out
}

} // verus!
