//! The rules of the plain `Model` derive: a struct with an `id: u64` key, one
//! `PhantomData` typestate field, and columns typed by the field types alone; and the
//! source text of the code it generates.

use vstd::prelude::*;

use crate::model_macro::analysis::{is_state_field, typestate_error};
use crate::model_macro::attribute::{is_phantom_state, is_plain_expansion_of, ItemStructSyntax};
use crate::model_macro::generated::push_text;
use crate::model_macro::source::{vis_prefix, vis_text};
use crate::schema::debug_text::{debug_str, str_debug};
use crate::text::{bool_text, decimal, join_strings, joined, push_decimal, strings_view};
use crate::model_macro::naming::{ident_text, lowercase_text, suffixed_ident, unicode_lowercase};
use crate::model_macro::syntax::{
    last_segment, option_inner, option_inner_type, text_is, DataSyntax, DeriveInputSyntax,
    FieldSyntax, GenericArgSyntax, GenericParamSyntax, PathArgsSyntax, TypeSyntax,
};

verus! {

/// Whether a type is written as the single plain identifier `n`.
pub open spec fn is_bare_named(t: TypeSyntax, n: Seq<char>) -> bool {
    match t {
        TypeSyntax::Path { qualified, segments } => !qualified && segments@.len() == 1
            && segments@[0].args is Bare && segments@[0].ident@ == n,
        TypeSyntax::Other => false,
    }
}

/// The SQLite type of a field type that is not `Option<T>`: `TEXT` for `String`,
/// `INTEGER` for the integer types and `bool`, `REAL` for the float types, and `TEXT` for
/// anything else.
pub open spec fn base_sql_type(t: TypeSyntax) -> Seq<char> {
    if is_bare_named(t, "String"@) {
        "TEXT"@
    } else if is_bare_named(t, "u8"@) || is_bare_named(t, "u16"@) || is_bare_named(t, "u32"@)
        || is_bare_named(t, "u64"@) || is_bare_named(t, "i8"@) || is_bare_named(t, "i16"@)
        || is_bare_named(t, "i32"@) || is_bare_named(t, "i64"@) || is_bare_named(t, "bool"@) {
        "INTEGER"@
    } else if is_bare_named(t, "f32"@) || is_bare_named(t, "f64"@) {
        "REAL"@
    } else {
        "TEXT"@
    }
}

/// The SQLite type of a field type; `Option<T>` has the type of `T`.
pub open spec fn sql_type_of(t: TypeSyntax) -> Seq<char>
    decreases t,
{
    match t {
        TypeSyntax::Path { qualified, segments } => {
            if segments@.len() > 0 && segments@.last().ident@ == "Option"@ {
                match segments@.last().args {
                    PathArgsSyntax::AngleBracketed(args) => if args@.len() > 0 {
                        match args@[0] {
                            GenericArgSyntax::Type(inner) => {
                                proof {
                                    assert(decreases_to!(t => segments));
                                    assert(decreases_to!(segments => segments@));
                                    assert(decreases_to!(segments@ => segments@[segments@.len() - 1]));
                                }
                                sql_type_of(inner)
                            },
                            GenericArgSyntax::Other => base_sql_type(t),
                        }
                    } else {
                        base_sql_type(t)
                    },
                    _ => base_sql_type(t),
                }
            } else {
                base_sql_type(t)
            }
        },
        TypeSyntax::Other => base_sql_type(t),
    }
}

/// The expression that converts a value of a type that is not `Option<T>` into a SQLite
/// value.
pub open spec fn base_value_text(t: TypeSyntax, field: Seq<char>) -> Seq<char> {
    if is_bare_named(t, "String"@) {
        "rusqlite::types::Value::Text("@ + field + ".clone())"@
    } else if is_bare_named(t, "u8"@) || is_bare_named(t, "u16"@) || is_bare_named(t, "u32"@)
        || is_bare_named(t, "u64"@) || is_bare_named(t, "i8"@) || is_bare_named(t, "i16"@)
        || is_bare_named(t, "i32"@) || is_bare_named(t, "i64"@) || is_bare_named(t, "bool"@) {
        "rusqlite::types::Value::Integer("@ + field + " as i64)"@
    } else if is_bare_named(t, "f32"@) || is_bare_named(t, "f64"@) {
        "rusqlite::types::Value::Real("@ + field + " as f64)"@
    } else {
        "rusqlite::types::Value::Text("@ + field + ".to_string())"@
    }
}

/// The expression that converts the value `field` of a type into a SQLite value; an
/// `Option<T>` matches on the value, converting `Some(v)` as a `T` and `None` to `NULL`.
pub open spec fn value_expr_text(t: TypeSyntax, field: Seq<char>) -> Seq<char>
    decreases t,
{
    match t {
        TypeSyntax::Path { qualified, segments } => {
            if segments@.len() > 0 && segments@.last().ident@ == "Option"@ {
                match segments@.last().args {
                    PathArgsSyntax::AngleBracketed(args) => if args@.len() > 0 {
                        match args@[0] {
                            GenericArgSyntax::Type(inner) => {
                                proof {
                                    assert(decreases_to!(t => segments));
                                    assert(decreases_to!(segments => segments@));
                                    assert(decreases_to!(segments@ => segments@[segments@.len() - 1]));
                                }
                                "match "@ + field + " {\n    Some(v) => "@ + value_expr_text(inner, "v"@)
                                    + ",\n    None => rusqlite::types::Value::Null,\n}"@
                            },
                            GenericArgSyntax::Other => base_value_text(t, field),
                        }
                    } else {
                        base_value_text(t, field)
                    },
                    _ => base_value_text(t, field),
                }
            } else {
                base_value_text(t, field)
            }
        },
        TypeSyntax::Other => base_value_text(t, field),
    }
}

/// Whether a type's last path segment is `PhantomData`.
pub open spec fn is_phantom_data(t: TypeSyntax) -> bool {
    match last_segment(t) {
        Some(seg) => seg.ident@ == "PhantomData"@,
        None => false,
    }
}

/// Whether a field is the `id` key (by its identifier as written).
pub open spec fn is_id_field(f: FieldSyntax) -> bool {
    f.ident@ == "id"@
}

/// The positions of the `id` fields, in order.
pub open spec fn id_positions(fs: Seq<FieldSyntax>) -> Seq<int>
    decreases fs.len(),
{
    if fs.len() == 0 {
        Seq::empty()
    } else if is_id_field(fs.last()) {
        id_positions(fs.drop_last()).push(fs.len() - 1)
    } else {
        id_positions(fs.drop_last())
    }
}

/// The positions of the `PhantomData` fields, in order.
pub open spec fn phantom_positions(fs: Seq<FieldSyntax>) -> Seq<int>
    decreases fs.len(),
{
    if fs.len() == 0 {
        Seq::empty()
    } else if is_phantom_data(fs.last().ty) {
        phantom_positions(fs.drop_last()).push(fs.len() - 1)
    } else {
        phantom_positions(fs.drop_last())
    }
}

/// A column the plain derive declares.
pub struct DerivedColumnView {
    pub name: Seq<char>,
    pub ty_text: Seq<char>,
    pub value_expr: Seq<char>,
    pub sql_type: Seq<char>,
    pub nullable: bool,
    pub needs_i64_cast: bool,
}

/// The column for a field: named by its identifier as written, typed by
/// [`sql_type_of`], nullable when the field is an `Option`, and read through `i64` when
/// the field is a `u64`.
pub open spec fn derived_column(f: FieldSyntax) -> DerivedColumnView {
    DerivedColumnView {
        name: f.ident@,
        ty_text: f.ty_text@,
        value_expr: value_expr_text(f.ty, "self."@ + f.ident@),
        sql_type: sql_type_of(f.ty),
        nullable: option_inner(f.ty) is Some,
        needs_i64_cast: is_bare_named(f.ty, "u64"@),
    }
}

/// The columns: every field but the `id` fields and the `PhantomData` fields, in order.
pub open spec fn derived_columns(fs: Seq<FieldSyntax>) -> Seq<DerivedColumnView>
    decreases fs.len(),
{
    if fs.len() == 0 {
        Seq::empty()
    } else if is_id_field(fs.last()) || is_phantom_data(fs.last().ty) {
        derived_columns(fs.drop_last())
    } else {
        derived_columns(fs.drop_last()).push(derived_column(fs.last()))
    }
}

/// What the plain derive makes of a struct.
pub struct DerivedModelView {
    pub vis: Seq<char>,
    pub name: Seq<char>,
    pub table_name: Seq<char>,
    pub builder_name: Seq<char>,
    pub state_field_name: Seq<char>,
    pub columns: Seq<DerivedColumnView>,
}

/// What the plain derive makes of a struct, or the message of the first rule it breaks.
pub open spec fn derive_outcome(input: DeriveInputSyntax) -> Result<DerivedModelView, Seq<char>> {
    match typestate_error(input.generics@) {
        Some(m) => Err(m),
        None => match input.data {
            DataSyntax::NotStruct => Err("Model can only be derived for structs"@),
            DataSyntax::OtherStruct => Err("Model only supports structs with named fields"@),
            DataSyntax::NamedStruct(fields) => {
                let fs = fields@;
                let ids = id_positions(fs);
                let states = phantom_positions(fs);
                if ids.len() != 1 {
                    Err("Model structs must contain exactly one `id` field"@)
                } else if !is_bare_named(fs[ids[0]].ty, "u64"@) {
                    Err("The `id` field must have type `u64`"@)
                } else if states.len() != 1 {
                    Err(
                        "Model structs must contain exactly one PhantomData typestate field; use #[seekwel::model] to have it injected automatically"@,
                    )
                } else {
                    Ok(
                        DerivedModelView {
                            vis: input.vis@,
                            name: input.name@,
                            table_name: unicode_lowercase(input.name@),
                            builder_name: ident_text(input.name@) + "Builder"@,
                            state_field_name: fs[states[0]].ident@,
                            columns: derived_columns(fs),
                        },
                    )
                }
            },
        },
    }
}

/// A column the plain derive declares.
pub struct DerivedColumn {
    pub name: String,
    /// The field's type as written, printed.
    pub ty_text: String,
    /// The expression that converts the field's value into a SQLite value.
    pub value_expr: String,
    pub sql_type: String,
    pub nullable: bool,
    /// Whether the generated row reader reads the value as `i64` and converts it.
    pub needs_i64_cast: bool,
}

/// What the plain derive makes of a struct: everything it generates code from.
pub struct DerivedModel {
    /// The struct's visibility, printed; the builder shares it.
    pub vis: String,
    pub name: String,
    pub table_name: String,
    pub builder_name: String,
    pub state_field_name: String,
    pub columns: Vec<DerivedColumn>,
}

impl View for DerivedColumn {
    type V = DerivedColumnView;

    open spec fn view(&self) -> DerivedColumnView {
        DerivedColumnView {
            name: self.name@,
            ty_text: self.ty_text@,
            value_expr: self.value_expr@,
            sql_type: self.sql_type@,
            nullable: self.nullable,
            needs_i64_cast: self.needs_i64_cast,
        }
    }
}

/// The views of derived columns.
pub open spec fn derived_columns_view(cs: Seq<DerivedColumn>) -> Seq<DerivedColumnView> {
    cs.map_values(|c: DerivedColumn| c@)
}

impl View for DerivedModel {
    type V = DerivedModelView;

    open spec fn view(&self) -> DerivedModelView {
        DerivedModelView {
            vis: self.vis@,
            name: self.name@,
            table_name: self.table_name@,
            builder_name: self.builder_name@,
            state_field_name: self.state_field_name@,
            columns: derived_columns_view(self.columns@),
        }
    }
}

/// Whether a type is written as the single plain identifier `n`.
fn bare_named(t: &TypeSyntax, n: &str) -> (r: bool)
    ensures
        r == is_bare_named(*t, n@),
{
    match t {
        TypeSyntax::Path { qualified, segments } => {
            if *qualified || segments.len() != 1 {
                return false;
            }
            match &segments[0].args {
                PathArgsSyntax::Bare => text_is(&segments[0].ident, n),
                _ => false,
            }
        },
        TypeSyntax::Other => false,
    }
}

/// The SQLite type of a field type that is not `Option<T>`.
fn base_sql_type_name(t: &TypeSyntax) -> (r: String)
    ensures
        r@ == base_sql_type(*t),
{
    if bare_named(t, "String") {
        String::from_str("TEXT")
    } else if bare_named(t, "u8") || bare_named(t, "u16") || bare_named(t, "u32") || bare_named(
        t,
        "u64",
    ) || bare_named(t, "i8") || bare_named(t, "i16") || bare_named(t, "i32") || bare_named(t, "i64")
        || bare_named(t, "bool") {
        String::from_str("INTEGER")
    } else if bare_named(t, "f32") || bare_named(t, "f64") {
        String::from_str("REAL")
    } else {
        String::from_str("TEXT")
    }
}

/// The SQLite type of a field type; `Option<T>` has the type of `T`.
pub fn sql_type_name(t: &TypeSyntax) -> (r: String)
    ensures
        r@ == sql_type_of(*t),
    decreases t,
{
    match t {
        TypeSyntax::Path { qualified, segments } => {
            if segments.len() > 0 && text_is(&segments[segments.len() - 1].ident, "Option") {
                match &segments[segments.len() - 1].args {
                    PathArgsSyntax::AngleBracketed(args) => {
                        if args.len() > 0 {
                            match &args[0] {
                                GenericArgSyntax::Type(inner) => {
                                    proof {
                                        assert(decreases_to!(*t => *segments));
                                        assert(decreases_to!(*segments => segments@));
                                        assert(decreases_to!(segments@ => segments@[segments@.len() - 1]));
                                    }
                                    sql_type_name(inner)
                                },
                                GenericArgSyntax::Other => base_sql_type_name(t),
                            }
                        } else {
                            base_sql_type_name(t)
                        }
                    },
                    _ => base_sql_type_name(t),
                }
            } else {
                base_sql_type_name(t)
            }
        },
        TypeSyntax::Other => base_sql_type_name(t),
    }
}

/// The expression that converts a value of a type that is not `Option<T>` into a SQLite
/// value.
fn base_value(t: &TypeSyntax, field: &str) -> (r: String)
    ensures
        r@ == base_value_text(*t, field@),
{
    let mut out;
    if bare_named(t, "String") {
        out = String::from_str("rusqlite::types::Value::Text(");
        out.append(field);
        out.append(".clone())");
    } else if bare_named(t, "u8") || bare_named(t, "u16") || bare_named(t, "u32") || bare_named(
        t,
        "u64",
    ) || bare_named(t, "i8") || bare_named(t, "i16") || bare_named(t, "i32") || bare_named(t, "i64")
        || bare_named(t, "bool") {
        out = String::from_str("rusqlite::types::Value::Integer(");
        out.append(field);
        out.append(" as i64)");
    } else if bare_named(t, "f32") || bare_named(t, "f64") {
        out = String::from_str("rusqlite::types::Value::Real(");
        out.append(field);
        out.append(" as f64)");
    } else {
        out = String::from_str("rusqlite::types::Value::Text(");
        out.append(field);
        out.append(".to_string())");
    }
    out
}

/// The expression that converts the value `field` of a type into a SQLite value.
pub fn value_expr(t: &TypeSyntax, field: &str) -> (r: String)
    ensures
        r@ == value_expr_text(*t, field@),
    decreases t,
{
    match t {
        TypeSyntax::Path { qualified, segments } => {
            if segments.len() > 0 && text_is(&segments[segments.len() - 1].ident, "Option") {
                match &segments[segments.len() - 1].args {
                    PathArgsSyntax::AngleBracketed(args) => {
                        if args.len() > 0 {
                            match &args[0] {
                                GenericArgSyntax::Type(inner) => {
                                    proof {
                                        assert(decreases_to!(*t => *segments));
                                        assert(decreases_to!(*segments => segments@));
                                        assert(decreases_to!(segments@ => segments@[segments@.len() - 1]));
                                    }
                                    let inner_expr = value_expr(inner, "v");
                                    let mut out = String::from_str("match ");
                                    out.append(field);
                                    out.append(" {\n    Some(v) => ");
                                    out.append(inner_expr.as_str());
                                    out.append(",\n    None => rusqlite::types::Value::Null,\n}");
                                    out
                                },
                                GenericArgSyntax::Other => base_value(t, field),
                            }
                        } else {
                            base_value(t, field)
                        }
                    },
                    _ => base_value(t, field),
                }
            } else {
                base_value(t, field)
            }
        },
        TypeSyntax::Other => base_value(t, field),
    }
}

/// Whether a type's last path segment is `PhantomData`.
fn phantom_data(t: &TypeSyntax) -> (r: bool)
    ensures
        r == is_phantom_data(*t),
{
    match t {
        TypeSyntax::Path { segments, .. } => segments.len() > 0 && text_is(
            &segments[segments.len() - 1].ident,
            "PhantomData",
        ),
        TypeSyntax::Other => false,
    }
}

/// Applies the plain derive's rules to a struct: one type parameter, named fields,
/// exactly one `id: u64` field and one `PhantomData` field; the table is the struct's
/// name in lower case, and every other field is a column.
pub fn analyze_derive(input: &DeriveInputSyntax) -> (r: Result<DerivedModel, String>)
    ensures
        match r {
            Ok(m) => derive_outcome(*input) == Ok::<DerivedModelView, Seq<char>>(m@),
            Err(e) => derive_outcome(*input) == Err::<DerivedModelView, Seq<char>>(e@),
        },
{
    if input.generics.len() != 1 {
        return Err(
            String::from_str(
                "Model derives require exactly one typestate type parameter; use #[seekwel::model] to generate it automatically",
            ),
        );
    }
    if input.generics[0] != GenericParamSyntax::Type {
        return Err(String::from_str("Model derives only support a single typestate type parameter"));
    }
    let fields = match &input.data {
        DataSyntax::NamedStruct(f) => f,
        DataSyntax::OtherStruct => {
            return Err(String::from_str("Model only supports structs with named fields"));
        },
        DataSyntax::NotStruct => {
            return Err(String::from_str("Model can only be derived for structs"));
        },
    };
    let ghost fs = fields@;
    let mut id_count: usize = 0;
    let mut id_at: usize = 0;
    let mut state_count: usize = 0;
    let mut state_at: usize = 0;
    let mut columns: Vec<DerivedColumn> = Vec::new();
    let mut i: usize = 0;
    while i < fields.len()
        invariant
            fs == fields@,
            i <= fs.len(),
            id_count == id_positions(fs.take(i as int)).len(),
            id_count <= i,
            id_count > 0 ==> id_at == id_positions(fs.take(i as int)).last() && id_at < i,
            state_count == phantom_positions(fs.take(i as int)).len(),
            state_count <= i,
            state_count > 0 ==> state_at == phantom_positions(fs.take(i as int)).last() && state_at
                < i,
            derived_columns_view(columns@) == derived_columns(fs.take(i as int)),
        decreases fs.len() - i,
    {
        assert(fs.take(i + 1).drop_last() =~= fs.take(i as int));
        assert(fs.take(i + 1).last() == fs[i as int]);
        let f = &fields[i];
        let is_id = text_is(&f.ident, "id");
        let is_state = phantom_data(&f.ty);
        if is_id {
            id_count = id_count + 1;
            id_at = i;
        }
        if is_state {
            state_count = state_count + 1;
            state_at = i;
        }
        if !is_id && !is_state {
            let mut access = String::from_str("self.");
            access.append(f.ident.as_str());
            let column = DerivedColumn {
                name: f.ident.clone(),
                ty_text: f.ty_text.clone(),
                value_expr: value_expr(&f.ty, access.as_str()),
                sql_type: sql_type_name(&f.ty),
                nullable: option_inner_type(&f.ty).is_some(),
                needs_i64_cast: bare_named(&f.ty, "u64"),
            };
            let ghost before = columns@;
            columns.push(column);
            assert(derived_columns_view(columns@) =~= derived_columns_view(before).push(
                derived_column(fs[i as int]),
            ));
        }
        i = i + 1;
    }
    assert(fs.take(fs.len() as int) =~= fs);
    if id_count != 1 {
        return Err(String::from_str("Model structs must contain exactly one `id` field"));
    }
    if !bare_named(&fields[id_at].ty, "u64") {
        return Err(String::from_str("The `id` field must have type `u64`"));
    }
    if state_count != 1 {
        return Err(
            String::from_str(
                "Model structs must contain exactly one PhantomData typestate field; use #[seekwel::model] to have it injected automatically",
            ),
        );
    }
    Ok(
        DerivedModel {
            vis: input.vis.clone(),
            name: input.name.clone(),
            table_name: lowercase_text(input.name.as_str()),
            builder_name: suffixed_ident(input.name.as_str(), "Builder"),
            state_field_name: fields[state_at].ident.clone(),
            columns,
        },
    )
}

/// The `ColumnDef` literal of a derived column.
pub open spec fn derived_column_def_text(c: DerivedColumnView) -> Seq<char> {
    "seekwel::model::ColumnDef { name: "@ + str_debug(c.name) + ", sql_type: "@ + str_debug(c.sql_type)
        + ", nullable: "@ + bool_text(c.nullable) + " }"@
}

/// The row read of a derived column at a row index: a `u64` is read as `i64` and cast.
pub open spec fn derived_read_text(c: DerivedColumnView, index: nat) -> Seq<char> {
    if c.needs_i64_cast {
        c.name + ": row.get::<_, i64>("@ + decimal(index) + ")? as u64"@
    } else {
        c.name + ": row.get("@ + decimal(index) + ")?"@
    }
}

/// The row reads of the derived columns: column `i` from row index `i + 1`.
pub open spec fn derived_reads(cs: Seq<DerivedColumnView>) -> Seq<Seq<char>> {
    Seq::new(cs.len(), |i: int| derived_read_text(cs[i], (i + 1) as nat))
}

/// The builder setter of a derived column: an `Option` field takes its own type, another
/// field anything that converts into its type.
pub open spec fn derived_setter_text(c: DerivedColumnView) -> Seq<char> {
    if c.nullable {
        "    pub fn "@ + c.name + "(mut self, value: "@ + c.ty_text + ") -> Self {\n        self."@ + c.name
            + " = Some(value);\n        self\n    }\n"@
    } else {
        "    pub fn "@ + c.name + "(mut self, value: impl Into<"@ + c.ty_text + ">) -> Self {\n        self."@
            + c.name + " = Some(value.into());\n        self\n    }\n"@
    }
}

/// The statement of `build` that takes a derived column's value: an unset `Option` field
/// is `None`, another unset field is a `MissingField` error.
pub open spec fn derived_extract_text(c: DerivedColumnView) -> Seq<char> {
    if c.nullable {
        "        let "@ + c.name + " = self."@ + c.name + ".unwrap_or(None);\n"@
    } else {
        "        let "@ + c.name + " = self."@ + c.name
            + ".ok_or_else(|| seekwel::error::Error::MissingField("@ + str_debug(c.name) + ".to_string()))?;\n"@
    }
}

/// The source text of what the plain derive generates: the `Model` impl (table, columns
/// and values in field order), the `PersistedModel` impl (the id from row index 0 and
/// column `i` from index `i + 1`), `builder`, `create_table` and `reload` on the persisted
/// model, `save` on a new record, and the builder.
pub open spec fn derived_source_text(m: DerivedModelView) -> Seq<char> {
    let n = m.name;
    let b = m.builder_name;
    let cs = m.columns;
    let state = m.state_field_name + ": std::marker::PhantomData"@;
    "impl<S> seekwel::model::Model for "@ + n + "<S> {\n    fn table_name() -> &'static str {\n        "@
        + str_debug(m.table_name) + "\n    }\n    fn columns() -> &'static [seekwel::model::ColumnDef] {\n        &["@
        + joined(cs.map_values(|c: DerivedColumnView| derived_column_def_text(c)), ", "@)
        + "]\n    }\n    fn params(&self) -> Vec<rusqlite::types::Value> {\n        vec!["@
        + joined(cs.map_values(|c: DerivedColumnView| c.value_expr), ", "@)
        + "]\n    }\n}\n\nimpl seekwel::model::PersistedModel for "@ + n
        + "<seekwel::Persisted> {\n    fn id(&self) -> u64 {\n        self.id\n    }\n    fn from_row(row: &rusqlite::Row) -> rusqlite::Result<Self> {\n        Ok(Self { "@
        + joined(seq!["id: row.get::<_, i64>(0)? as u64"@] + derived_reads(cs) + seq![state], ", "@)
        + " })\n    }\n}\n\nimpl "@ + n + "<seekwel::Persisted> {\n    pub fn builder() -> "@ + b + " {\n        "@ + b
        + " { "@ + joined(cs.map_values(|c: DerivedColumnView| c.name + ": None"@), ", "@)
        + " }\n    }\n    pub fn create_table() -> Result<(), seekwel::error::Error> {\n        <Self as seekwel::model::Model>::create_table()\n    }\n    pub fn reload(&mut self) -> Result<(), seekwel::error::Error> {\n        <Self as seekwel::model::PersistedModel>::reload(self)\n    }\n}\n\nimpl "@
        + n + "<seekwel::NewRecord> {\n    pub fn save(self) -> Result<"@ + n
        + "<seekwel::Persisted>, seekwel::error::Error> {\n        let id = seekwel::model::insert(&self)?;\n        Ok("@
        + n + " { "@ + joined(
        seq!["id"@] + cs.map_values(|c: DerivedColumnView| c.name + ": self."@ + c.name) + seq![state],
        ", "@,
    ) + " })\n    }\n}\n\n"@ + vis_text(m.vis) + "struct "@ + b + " {\n    "@ + joined(
        cs.map_values(|c: DerivedColumnView| c.name + ": Option<"@ + c.ty_text + ">"@),
        ",\n    "@,
    ) + "\n}\n\nimpl "@ + b + " {\n"@ + joined(cs.map_values(|c: DerivedColumnView| derived_setter_text(c)), ""@)
        + "    pub fn build(self) -> Result<"@ + n + "<seekwel::NewRecord>, seekwel::error::Error> {\n"@ + joined(
        cs.map_values(|c: DerivedColumnView| derived_extract_text(c)),
        ""@,
    ) + "        Ok("@ + n + " { "@ + joined(
        seq!["id: 0"@] + cs.map_values(|c: DerivedColumnView| c.name) + seq![state],
        ", "@,
    ) + " })\n    }\n    pub fn create(self) -> Result<"@ + n
        + "<seekwel::Persisted>, seekwel::error::Error> {\n        self.build()?.save()\n    }\n}\n"@
}

/// The per-column pieces of the plain derive's source.
struct DerivedParts {
    defs: Vec<String>,
    values: Vec<String>,
    reads: Vec<String>,
    defaults: Vec<String>,
    moves: Vec<String>,
    fields: Vec<String>,
    setters: Vec<String>,
    extracts: Vec<String>,
    names: Vec<String>,
}

/// An identifier followed by the given text.
fn with_suffix(name: &str, rest: &str) -> (r: String)
    ensures
        r@ == name@ + rest@,
{
    let mut out = String::from_str(name);
    out.append(rest);
    out
}

/// Works out the per-column pieces, in field order.
fn derived_parts(m: &DerivedModel) -> (r: DerivedParts)
    ensures
        strings_view(r.defs@) == m@.columns.map_values(|c: DerivedColumnView| derived_column_def_text(c)),
        strings_view(r.values@) == m@.columns.map_values(|c: DerivedColumnView| c.value_expr),
        strings_view(r.reads@) == derived_reads(m@.columns),
        strings_view(r.defaults@) == m@.columns.map_values(|c: DerivedColumnView| c.name + ": None"@),
        strings_view(r.moves@) == m@.columns.map_values(|c: DerivedColumnView| c.name + ": self."@ + c.name),
        strings_view(r.fields@) == m@.columns.map_values(
            |c: DerivedColumnView| c.name + ": Option<"@ + c.ty_text + ">"@,
        ),
        strings_view(r.setters@) == m@.columns.map_values(|c: DerivedColumnView| derived_setter_text(c)),
        strings_view(r.extracts@) == m@.columns.map_values(|c: DerivedColumnView| derived_extract_text(c)),
        strings_view(r.names@) == m@.columns.map_values(|c: DerivedColumnView| c.name),
{
    let ghost cs = m@.columns;
    let mut p = DerivedParts {
        defs: Vec::new(),
        values: Vec::new(),
        reads: Vec::new(),
        defaults: Vec::new(),
        moves: Vec::new(),
        fields: Vec::new(),
        setters: Vec::new(),
        extracts: Vec::new(),
        names: Vec::new(),
    };
    let mut i: usize = 0;
    while i < m.columns.len()
        invariant
            i <= m.columns@.len(),
            cs == m@.columns,
            cs.len() == m.columns@.len(),
            strings_view(p.defs@) == cs.take(i as int).map_values(|c: DerivedColumnView| derived_column_def_text(c)),
            strings_view(p.values@) == cs.take(i as int).map_values(|c: DerivedColumnView| c.value_expr),
            strings_view(p.reads@) == derived_reads(cs.take(i as int)),
            strings_view(p.defaults@) == cs.take(i as int).map_values(|c: DerivedColumnView| c.name + ": None"@),
            strings_view(p.moves@) == cs.take(i as int).map_values(
                |c: DerivedColumnView| c.name + ": self."@ + c.name,
            ),
            strings_view(p.fields@) == cs.take(i as int).map_values(
                |c: DerivedColumnView| c.name + ": Option<"@ + c.ty_text + ">"@,
            ),
            strings_view(p.setters@) == cs.take(i as int).map_values(|c: DerivedColumnView| derived_setter_text(c)),
            strings_view(p.extracts@) == cs.take(i as int).map_values(
                |c: DerivedColumnView| derived_extract_text(c),
            ),
            strings_view(p.names@) == cs.take(i as int).map_values(|c: DerivedColumnView| c.name),
        decreases m.columns@.len() - i,
    {
        let c = &m.columns[i];
        let ghost cv = c@;
        assert(cs[i as int] == cv);
        assert(cs.take(i + 1) =~= cs.take(i as int).push(cv));
        let name = c.name.as_str();
        let ty = c.ty_text.as_str();
        let mut def = String::from_str("seekwel::model::ColumnDef { name: ");
        def.append(debug_str(name).as_str());
        def.append(", sql_type: ");
        def.append(debug_str(c.sql_type.as_str()).as_str());
        def.append(", nullable: ");
        if c.nullable {
            def.append("true");
        } else {
            def.append("false");
        }
        def.append(" }");
        let mut read = String::from_str(name);
        if c.needs_i64_cast {
            read.append(": row.get::<_, i64>(");
            push_decimal(&mut read, (i + 1) as u128);
            read.append(")? as u64");
        } else {
            read.append(": row.get(");
            push_decimal(&mut read, (i + 1) as u128);
            read.append(")?");
        }
        let mut mv = String::from_str(name);
        mv.append(": self.");
        mv.append(name);
        let mut field = String::from_str(name);
        field.append(": Option<");
        field.append(ty);
        field.append(">");
        let mut setter = String::from_str("    pub fn ");
        setter.append(name);
        let mut extract = String::from_str("        let ");
        extract.append(name);
        extract.append(" = self.");
        extract.append(name);
        if c.nullable {
            setter.append("(mut self, value: ");
            setter.append(ty);
            setter.append(") -> Self {\n        self.");
            setter.append(name);
            setter.append(" = Some(value);\n        self\n    }\n");
            extract.append(".unwrap_or(None);\n");
        } else {
            setter.append("(mut self, value: impl Into<");
            setter.append(ty);
            setter.append(">) -> Self {\n        self.");
            setter.append(name);
            setter.append(" = Some(value.into());\n        self\n    }\n");
            extract.append(".ok_or_else(|| seekwel::error::Error::MissingField(");
            extract.append(debug_str(name).as_str());
            extract.append(".to_string()))?;\n");
        }
        proof {
            assert(def@ =~= derived_column_def_text(cv));
            assert(read@ =~= derived_read_text(cv, (i + 1) as nat));
            assert(setter@ =~= derived_setter_text(cv));
            assert(extract@ =~= derived_extract_text(cv));
        }
        push_text(&mut p.defs, def);
        push_text(&mut p.values, c.value_expr.clone());
        push_text(&mut p.reads, read);
        push_text(&mut p.defaults, with_suffix(name, ": None"));
        push_text(&mut p.moves, mv);
        push_text(&mut p.fields, field);
        push_text(&mut p.setters, setter);
        push_text(&mut p.extracts, extract);
        push_text(&mut p.names, c.name.clone());
        let ghost pre = cs.take(i as int);
        assert(pre.push(cv).map_values(|c: DerivedColumnView| derived_column_def_text(c)) =~= pre.map_values(
            |c: DerivedColumnView| derived_column_def_text(c),
        ).push(derived_column_def_text(cv)));
        assert(pre.push(cv).map_values(|c: DerivedColumnView| c.value_expr) =~= pre.map_values(
            |c: DerivedColumnView| c.value_expr,
        ).push(cv.value_expr));
        assert(derived_reads(pre.push(cv)) =~= derived_reads(pre).push(derived_read_text(cv, (i + 1) as nat)));
        assert(pre.push(cv).map_values(|c: DerivedColumnView| c.name + ": None"@) =~= pre.map_values(
            |c: DerivedColumnView| c.name + ": None"@,
        ).push(cv.name + ": None"@));
        assert(pre.push(cv).map_values(|c: DerivedColumnView| c.name + ": self."@ + c.name) =~= pre.map_values(
            |c: DerivedColumnView| c.name + ": self."@ + c.name,
        ).push(cv.name + ": self."@ + cv.name));
        assert(pre.push(cv).map_values(|c: DerivedColumnView| c.name + ": Option<"@ + c.ty_text + ">"@)
            =~= pre.map_values(|c: DerivedColumnView| c.name + ": Option<"@ + c.ty_text + ">"@).push(
            cv.name + ": Option<"@ + cv.ty_text + ">"@,
        ));
        assert(pre.push(cv).map_values(|c: DerivedColumnView| derived_setter_text(c)) =~= pre.map_values(
            |c: DerivedColumnView| derived_setter_text(c),
        ).push(derived_setter_text(cv)));
        assert(pre.push(cv).map_values(|c: DerivedColumnView| derived_extract_text(c)) =~= pre.map_values(
            |c: DerivedColumnView| derived_extract_text(c),
        ).push(derived_extract_text(cv)));
        assert(pre.push(cv).map_values(|c: DerivedColumnView| c.name) =~= pre.map_values(
            |c: DerivedColumnView| c.name,
        ).push(cv.name));
        i = i + 1;
    }
    assert(cs.take(cs.len() as int) =~= cs);
    p
}

/// The source text of what the plain derive generates for an analysed struct.
pub fn derived_source(m: &DerivedModel) -> (r: String)
    ensures
        r@ == derived_source_text(m@),
{
    let p = derived_parts(m);
    let n = m.name.as_str();
    let b = m.builder_name.as_str();
    let state = with_suffix(m.state_field_name.as_str(), ": std::marker::PhantomData");
    let mut reads: Vec<String> = Vec::new();
    push_text(&mut reads, String::from_str("id: row.get::<_, i64>(0)? as u64"));
    let ghost r0 = strings_view(reads@);
    let mut i: usize = 0;
    while i < p.reads.len()
        invariant
            i <= p.reads@.len(),
            strings_view(reads@) == r0 + strings_view(p.reads@).take(i as int),
        decreases p.reads@.len() - i,
    {
        push_text(&mut reads, p.reads[i].clone());
        assert(strings_view(p.reads@).take(i + 1) =~= strings_view(p.reads@).take(i as int).push(p.reads@[i as int]@));
        i = i + 1;
    }
    assert(strings_view(p.reads@).take(p.reads@.len() as int) =~= strings_view(p.reads@));
    push_text(&mut reads, state.clone());
    let mut moves: Vec<String> = Vec::new();
    push_text(&mut moves, String::from_str("id"));
    let ghost m0 = strings_view(moves@);
    let mut j: usize = 0;
    while j < p.moves.len()
        invariant
            j <= p.moves@.len(),
            strings_view(moves@) == m0 + strings_view(p.moves@).take(j as int),
        decreases p.moves@.len() - j,
    {
        push_text(&mut moves, p.moves[j].clone());
        assert(strings_view(p.moves@).take(j + 1) =~= strings_view(p.moves@).take(j as int).push(p.moves@[j as int]@));
        j = j + 1;
    }
    assert(strings_view(p.moves@).take(p.moves@.len() as int) =~= strings_view(p.moves@));
    push_text(&mut moves, state.clone());
    let mut built: Vec<String> = Vec::new();
    push_text(&mut built, String::from_str("id: 0"));
    let ghost b0 = strings_view(built@);
    let mut k: usize = 0;
    while k < p.names.len()
        invariant
            k <= p.names@.len(),
            strings_view(built@) == b0 + strings_view(p.names@).take(k as int),
        decreases p.names@.len() - k,
    {
        push_text(&mut built, p.names[k].clone());
        assert(strings_view(p.names@).take(k + 1) =~= strings_view(p.names@).take(k as int).push(p.names@[k as int]@));
        k = k + 1;
    }
    assert(strings_view(p.names@).take(p.names@.len() as int) =~= strings_view(p.names@));
    push_text(&mut built, state);
    let defs = join_strings(&p.defs, ", ");
    let values = join_strings(&p.values, ", ");
    let read_list = join_strings(&reads, ", ");
    let defaults = join_strings(&p.defaults, ", ");
    let move_list = join_strings(&moves, ", ");
    let fields = join_strings(&p.fields, ",\n    ");
    let setters = join_strings(&p.setters, "");
    let extracts = join_strings(&p.extracts, "");
    let built_list = join_strings(&built, ", ");
    let mut out = String::from_str("impl<S> seekwel::model::Model for ");
    out.append(n);
    out.append("<S> {\n    fn table_name() -> &'static str {\n        ");
    out.append(debug_str(m.table_name.as_str()).as_str());
    out.append("\n    }\n    fn columns() -> &'static [seekwel::model::ColumnDef] {\n        &[");
    out.append(defs.as_str());
    out.append("]\n    }\n    fn params(&self) -> Vec<rusqlite::types::Value> {\n        vec![");
    out.append(values.as_str());
    out.append("]\n    }\n}\n\nimpl seekwel::model::PersistedModel for ");
    out.append(n);
    out.append(
        "<seekwel::Persisted> {\n    fn id(&self) -> u64 {\n        self.id\n    }\n    fn from_row(row: &rusqlite::Row) -> rusqlite::Result<Self> {\n        Ok(Self { ",
    );
    out.append(read_list.as_str());
    out.append(" })\n    }\n}\n\nimpl ");
    out.append(n);
    out.append("<seekwel::Persisted> {\n    pub fn builder() -> ");
    out.append(b);
    out.append(" {\n        ");
    out.append(b);
    out.append(" { ");
    out.append(defaults.as_str());
    out.append(
        " }\n    }\n    pub fn create_table() -> Result<(), seekwel::error::Error> {\n        <Self as seekwel::model::Model>::create_table()\n    }\n    pub fn reload(&mut self) -> Result<(), seekwel::error::Error> {\n        <Self as seekwel::model::PersistedModel>::reload(self)\n    }\n}\n\nimpl ",
    );
    out.append(n);
    out.append("<seekwel::NewRecord> {\n    pub fn save(self) -> Result<");
    out.append(n);
    out.append("<seekwel::Persisted>, seekwel::error::Error> {\n        let id = seekwel::model::insert(&self)?;\n        Ok(");
    out.append(n);
    out.append(" { ");
    out.append(move_list.as_str());
    out.append(" })\n    }\n}\n\n");
    out.append(vis_prefix(m.vis.as_str()).as_str());
    out.append("struct ");
    out.append(b);
    out.append(" {\n    ");
    out.append(fields.as_str());
    out.append("\n}\n\nimpl ");
    out.append(b);
    out.append(" {\n");
    out.append(setters.as_str());
    out.append("    pub fn build(self) -> Result<");
    out.append(n);
    out.append("<seekwel::NewRecord>, seekwel::error::Error> {\n");
    out.append(extracts.as_str());
    out.append("        Ok(");
    out.append(n);
    out.append(" { ");
    out.append(built_list.as_str());
    out.append(" })\n    }\n    pub fn create(self) -> Result<");
    out.append(n);
    out.append("<seekwel::Persisted>, seekwel::error::Error> {\n        self.build()?.save()\n    }\n}\n");
    proof {
        let mv = m@;
        let stv = m.state_field_name@ + ": std::marker::PhantomData"@;
        assert(strings_view(reads@) =~= seq!["id: row.get::<_, i64>(0)? as u64"@] + derived_reads(mv.columns) + seq![stv]);
        assert(strings_view(moves@) =~= seq!["id"@] + mv.columns.map_values(
            |c: DerivedColumnView| c.name + ": self."@ + c.name,
        ) + seq![stv]);
        assert(strings_view(built@) =~= seq!["id: 0"@] + mv.columns.map_values(|c: DerivedColumnView| c.name) + seq![stv]);
        assert(out@ =~= derived_source_text(mv));
    }
    out
}

/// What the plain `#[seekwel::model]` attribute makes of a struct with exactly one
/// `id: u64` field and no `PhantomData` field of its own, the plain derive accepts: the
/// typestate field the attribute adds is its state field, and the struct's own fields
/// but `id` are its columns.
pub proof fn lemma_plain_expansion_derives(out: DeriveInputSyntax, item: ItemStructSyntax, fields: Seq<FieldSyntax>)
    requires
        is_plain_expansion_of(out, item),
        item.fields matches Some(f) && f@ == fields,
        id_positions(fields).len() == 1,
        is_bare_named(fields[id_positions(fields)[0]].ty, "u64"@),
        phantom_positions(fields).len() == 0,
    ensures
        derive_outcome(out) matches Ok(m) && m.state_field_name == "__seekwel_state"@ && m.columns
            == derived_columns(fields) && m.name == item.name@,
{
    match out.data {
        DataSyntax::NamedStruct(fs) => {
            let all = fs@;
            let x = all.last();
            assert(all.drop_last() =~= fields);
            assert(is_state_field(x));
            assert(is_phantom_state(x.ty));
            assert(is_phantom_data(x.ty));
            assert(!is_id_field(x)) by {
                reveal_strlit("__seekwel_state");
                reveal_strlit("id");
                assert(x.ident@ == "__seekwel_state"@);
                assert(x.ident@.len() == 15);
                assert("id"@.len() == 2);
            }
            assert(id_positions(all) == id_positions(fields));
            assert(phantom_positions(all) == phantom_positions(fields).push(all.len() - 1));
            assert(derived_columns(all) == derived_columns(fields));
            let ids = id_positions(all);
            assert(0 <= ids[0] < fields.len()) by {
                lemma_id_positions_in_range(fields);
            }
            assert(all[ids[0]] == fields[ids[0]]);
        },
        _ => {},
    }
}

/// The positions of the `id` fields lie within the fields.
proof fn lemma_id_positions_in_range(fs: Seq<FieldSyntax>)
    ensures
        forall|k: int| 0 <= k < id_positions(fs).len() ==> 0 <= #[trigger] id_positions(fs)[k] < fs.len(),
    decreases fs.len(),
{
    if fs.len() > 0 {
        let p = fs.drop_last();
        lemma_id_positions_in_range(p);
        assert forall|k: int| 0 <= k < id_positions(fs).len() implies 0 <= #[trigger] id_positions(fs)[k]
            < fs.len() by {
            if k < id_positions(p).len() {
                assert(id_positions(fs)[k] == id_positions(p)[k]);
            }
        }
    }
}

} // verus!
