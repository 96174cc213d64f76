//! What the `Model` derive generates for an analysed model: which field stands behind
//! each column, each bound value and each row index.

use vstd::prelude::*;

use crate::model_macro::analysis::{
    field_views, FieldView, HasManyFieldView, ModelFieldSpec, ModelSpec, ModelView, StoredFieldView,
};
use crate::text::strings_view;

verus! {

/// The stored fields, in declaration order.
pub open spec fn stored_of(fields: Seq<FieldView>) -> Seq<StoredFieldView>
    decreases fields.len(),
{
    if fields.len() == 0 {
        Seq::empty()
    } else {
        match fields.last() {
            FieldView::Stored(s) => stored_of(fields.drop_last()).push(s),
            FieldView::HasMany(_) => stored_of(fields.drop_last()),
        }
    }
}

/// The has-many fields, in declaration order.
pub open spec fn has_many_of(fields: Seq<FieldView>) -> Seq<HasManyFieldView>
    decreases fields.len(),
{
    if fields.len() == 0 {
        Seq::empty()
    } else {
        match fields.last() {
            FieldView::Stored(_) => has_many_of(fields.drop_last()),
            FieldView::HasMany(h) => has_many_of(fields.drop_last()).push(h),
        }
    }
}

/// The generated items of a model, by the fields behind them.
pub struct GeneratedView {
    pub table_name: Seq<char>,
    pub primary_key_name: Seq<char>,
    pub auto_increment: bool,
    pub columns: Seq<Seq<char>>,
    pub insert_columns: Seq<Seq<char>>,
    pub param_fields: Seq<Seq<char>>,
    pub insert_param_fields: Seq<Seq<char>>,
    pub row_fields: Seq<Seq<char>>,
    pub bound_has_many: Seq<Seq<char>>,
}

/// What the derive generates for a model: `columns()` lists the stored fields' columns
/// and `params()` their values, in the same order; `insert_columns()` and
/// `insert_params()` put the key first when SQLite does not generate it; the row reader
/// reads the key at index 0 and stored field `i` at index `i + 1`; has-many fields are
/// neither columns nor values, and are bound to the parent's id when a row is read.
pub open spec fn model_items(m: ModelView) -> GeneratedView {
    let st = stored_of(m.fields);
    let columns = st.map_values(|s: StoredFieldView| s.storage_column_name);
    let params = st.map_values(|s: StoredFieldView| s.ident);
    GeneratedView {
        table_name: m.table_name,
        primary_key_name: m.primary_key.field_name,
        auto_increment: m.primary_key.auto_increment,
        columns,
        insert_columns: if m.primary_key.auto_increment {
            columns
        } else {
            seq![m.primary_key.field_name] + columns
        },
        param_fields: params,
        insert_param_fields: if m.primary_key.auto_increment {
            params
        } else {
            seq![m.primary_key.ident] + params
        },
        row_fields: seq![m.primary_key.ident] + params,
        bound_has_many: has_many_of(m.fields).map_values(|h: HasManyFieldView| h.ident),
    }
}

/// The generated items of a model, by the fields behind them.
pub struct GeneratedModel {
    pub table_name: String,
    pub primary_key_name: String,
    pub auto_increment: bool,
    /// The columns of `columns()`, in order.
    pub columns: Vec<String>,
    /// The columns of `insert_columns()`, in order.
    pub insert_columns: Vec<String>,
    /// The field whose value `params()` binds at each position.
    pub param_fields: Vec<String>,
    /// The field whose value `insert_params()` binds at each position.
    pub insert_param_fields: Vec<String>,
    /// The field the row reader fills from each row index.
    pub row_fields: Vec<String>,
    /// The has-many fields bound to the parent's id when a row is read.
    pub bound_has_many: Vec<String>,
}

impl View for GeneratedModel {
    type V = GeneratedView;

    open spec fn view(&self) -> GeneratedView {
        GeneratedView {
            table_name: self.table_name@,
            primary_key_name: self.primary_key_name@,
            auto_increment: self.auto_increment,
            columns: strings_view(self.columns@),
            insert_columns: strings_view(self.insert_columns@),
            param_fields: strings_view(self.param_fields@),
            insert_param_fields: strings_view(self.insert_param_fields@),
            row_fields: strings_view(self.row_fields@),
            bound_has_many: strings_view(self.bound_has_many@),
        }
    }
}

/// Column `i` of `columns()` and value `i` of `params()` belong to the same stored field,
/// which the row reader fills from index `i + 1`; the key is read from index 0; and only
/// stored fields have columns.
pub proof fn lemma_generated_alignment(m: ModelView)
    ensures
        model_items(m).columns.len() == stored_of(m.fields).len(),
        model_items(m).param_fields.len() == stored_of(m.fields).len(),
        model_items(m).row_fields.len() == stored_of(m.fields).len() + 1,
        model_items(m).row_fields[0] == m.primary_key.ident,
        forall|i: int|
            0 <= i < stored_of(m.fields).len() ==> {
                &&& model_items(m).columns[i] == (#[trigger] stored_of(m.fields)[i]).storage_column_name
                &&& model_items(m).param_fields[i] == stored_of(m.fields)[i].ident
                &&& model_items(m).row_fields[i + 1] == stored_of(m.fields)[i].ident
            },
{
}

/// Adds a value to a list, keeping the list's view in step.
pub(crate) fn push_text(v: &mut Vec<String>, s: String)
    ensures
        strings_view(final(v)@) == strings_view(old(v)@).push(s@),
{
    let ghost before = old(v)@;
    let ghost sv = s@;
    v.push(s);
    assert(strings_view(v@) =~= strings_view(before).push(sv));
}

/// Works out the generated items of a model.
pub fn generated_model(spec: &ModelSpec) -> (r: GeneratedModel)
    ensures
        r@ == model_items(spec@),
{
    let ghost fv = field_views(spec.fields@);
    let mut columns: Vec<String> = Vec::new();
    let mut params: Vec<String> = Vec::new();
    let mut has_many: Vec<String> = Vec::new();
    let mut i: usize = 0;
    while i < spec.fields.len()
        invariant
            i <= spec.fields@.len(),
            fv == field_views(spec.fields@),
            strings_view(columns@) == stored_of(fv.take(i as int)).map_values(
                |s: StoredFieldView| s.storage_column_name,
            ),
            strings_view(params@) == stored_of(fv.take(i as int)).map_values(
                |s: StoredFieldView| s.ident,
            ),
            strings_view(has_many@) == has_many_of(fv.take(i as int)).map_values(
                |h: HasManyFieldView| h.ident,
            ),
        decreases spec.fields@.len() - i,
    {
        assert(fv.take(i + 1).drop_last() =~= fv.take(i as int));
        assert(fv.take(i + 1).last() == spec.fields@[i as int]@);
        let ghost st = stored_of(fv.take(i as int));
        let ghost hm = has_many_of(fv.take(i as int));
        match &spec.fields[i] {
            ModelFieldSpec::Stored(s) => {
                push_text(&mut columns, s.storage_column_name.clone());
                push_text(&mut params, s.ident.clone());
                assert(st.push(s@).map_values(|s: StoredFieldView| s.storage_column_name)
                    =~= st.map_values(|s: StoredFieldView| s.storage_column_name).push(
                    s.storage_column_name@,
                ));
                assert(st.push(s@).map_values(|s: StoredFieldView| s.ident) =~= st.map_values(
                    |s: StoredFieldView| s.ident,
                ).push(s.ident@));
            },
            ModelFieldSpec::HasMany(h) => {
                push_text(&mut has_many, h.ident.clone());
                assert(hm.push(h@).map_values(|h: HasManyFieldView| h.ident) =~= hm.map_values(
                    |h: HasManyFieldView| h.ident,
                ).push(h.ident@));
            },
        }
        i = i + 1;
    }
    assert(fv.take(spec.fields@.len() as int) =~= fv);
    let key = &spec.primary_key;
    let mut insert_columns: Vec<String> = Vec::new();
    let mut insert_params: Vec<String> = Vec::new();
    if !key.auto_increment {
        push_text(&mut insert_columns, key.field_name.clone());
        push_text(&mut insert_params, key.ident.clone());
    }
    let mut row_fields: Vec<String> = Vec::new();
    push_text(&mut row_fields, key.ident.clone());
    let mut k: usize = 0;
    let ghost c0 = strings_view(insert_columns@);
    let ghost p0 = strings_view(insert_params@);
    let ghost r0 = strings_view(row_fields@);
    while k < columns.len()
        invariant
            k <= columns@.len(),
            columns@.len() == params@.len(),
            strings_view(insert_columns@) == c0 + strings_view(columns@).take(k as int),
            strings_view(insert_params@) == p0 + strings_view(params@).take(k as int),
            strings_view(row_fields@) == r0 + strings_view(params@).take(k as int),
        decreases columns@.len() - k,
    {
        push_text(&mut insert_columns, columns[k].clone());
        push_text(&mut insert_params, params[k].clone());
        push_text(&mut row_fields, params[k].clone());
        assert(strings_view(columns@).take(k + 1) =~= strings_view(columns@).take(k as int).push(
            columns@[k as int]@,
        ));
        assert(strings_view(params@).take(k + 1) =~= strings_view(params@).take(k as int).push(
            params@[k as int]@,
        ));
        k = k + 1;
    }
    assert(strings_view(columns@).take(columns@.len() as int) =~= strings_view(columns@));
    assert(strings_view(params@).take(params@.len() as int) =~= strings_view(params@));
    let r = GeneratedModel {
        table_name: spec.table_name.clone(),
        primary_key_name: key.field_name.clone(),
        auto_increment: key.auto_increment,
        columns,
        insert_columns,
        param_fields: params,
        insert_param_fields: insert_params,
        row_fields,
        bound_has_many: has_many,
    };
    proof {
        let m = spec@;
        let items = model_items(m);
        if key.auto_increment {
            assert(c0 =~= Seq::<Seq<char>>::empty());
            assert(p0 =~= Seq::<Seq<char>>::empty());
            assert(strings_view(r.insert_columns@) =~= items.insert_columns);
            assert(strings_view(r.insert_param_fields@) =~= items.insert_param_fields);
        } else {
            assert(strings_view(r.insert_columns@) =~= items.insert_columns);
            assert(strings_view(r.insert_param_fields@) =~= items.insert_param_fields);
        }
        assert(strings_view(r.row_fields@) =~= items.row_fields);
    }
    r
}

} // verus!
