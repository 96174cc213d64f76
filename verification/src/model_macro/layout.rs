//! What the `Model` derive generates for an analysed model, as far as names and column
//! lists go: the names of the generated items, the columns its `INSERT` writes, the
//! columns `allow_all` admits, and the names of the params fields.

use vstd::prelude::*;

use crate::model_macro::analysis::{
    field_views, FieldView, ModelFieldSpec, ModelSpec, ModelView, StoredFieldSpec,
    association_target_of,
};
use crate::model_macro::naming::{ident_text, suffixed_ident};
use crate::text::{chars_of, lower_chars, lower_text, string_of, strings_view, upper_chars, upper_text};

verus! {

/// The names of the items generated next to a model.
pub struct GeneratedNames {
    /// The params struct, `<Model>Params`.
    pub params_name: String,
    /// The filtered params struct, `Allowed<Model>Params`.
    pub allowed_params_name: String,
    /// The function that builds the model's table definition for the registry.
    pub registry_fn_name: String,
    /// The registry entry placed in the registry's linker section.
    pub registry_entry_name: String,
}

/// The names generated for a model named `name` (as written, a raw identifier keeping its
/// `r#`).
pub fn generated_names(name: &str) -> (r: GeneratedNames)
    ensures
        r.params_name@ == ident_text(name@) + "Params"@,
        r.allowed_params_name@ == "Allowed"@ + ident_text(name@) + "Params"@,
        r.registry_fn_name@ == "__seekwel_registry_table_for_"@ + lower_text(name@),
        r.registry_entry_name@ == "__SEEKWEL_REGISTRY_ENTRY_FOR_"@ + upper_text(lower_text(name@)),
{
    let params_name = suffixed_ident(name, "Params");
    let mut allowed_params_name = String::from_str("Allowed");
    allowed_params_name.append(params_name.as_str());
    let suffix = lower_chars(chars_of(name).as_slice());
    let mut registry_fn_name = String::from_str("__seekwel_registry_table_for_");
    registry_fn_name.append(string_of(suffix.as_slice()).as_str());
    let mut registry_entry_name = String::from_str("__SEEKWEL_REGISTRY_ENTRY_FOR_");
    registry_entry_name.append(string_of(upper_chars(suffix.as_slice()).as_slice()).as_str());
    GeneratedNames { params_name, allowed_params_name, registry_fn_name, registry_entry_name }
}

/// The columns of the stored fields, in declaration order.
pub open spec fn stored_columns(fields: Seq<FieldView>) -> Seq<Seq<char>>
    decreases fields.len(),
{
    if fields.len() == 0 {
        Seq::empty()
    } else {
        let prev = stored_columns(fields.drop_last());
        match fields.last() {
            FieldView::Stored(s) => prev.push(s.storage_column_name),
            FieldView::HasMany(_) => prev,
        }
    }
}

/// The column variants of the stored fields, in declaration order.
pub open spec fn stored_variants(fields: Seq<FieldView>) -> Seq<Seq<char>>
    decreases fields.len(),
{
    if fields.len() == 0 {
        Seq::empty()
    } else {
        let prev = stored_variants(fields.drop_last());
        match fields.last() {
            FieldView::Stored(s) => prev.push(s.query_variant),
            FieldView::HasMany(_) => prev,
        }
    }
}

/// The columns the generated `INSERT` writes: the key's column first when SQLite does not
/// generate the key, then the stored fields' columns.
pub open spec fn insert_columns_of(m: ModelView) -> Seq<Seq<char>> {
    if m.primary_key.auto_increment {
        stored_columns(m.fields)
    } else {
        seq![m.primary_key.field_name] + stored_columns(m.fields)
    }
}

/// The column variants `allow_all` admits: the key's first when params may set the key,
/// then the stored fields'.
pub open spec fn allow_all_of(m: ModelView) -> Seq<Seq<char>> {
    if m.primary_key.auto_increment {
        stored_variants(m.fields)
    } else {
        seq![m.primary_key.query_variant] + stored_variants(m.fields)
    }
}

/// Collects a text of each stored field, starting from `out`.
fn collect_stored(spec: &ModelSpec, out: &mut Vec<String>, variants: bool)
    ensures
        strings_view(final(out)@) == strings_view(old(out)@) + if variants {
            stored_variants(field_views(spec.fields@))
        } else {
            stored_columns(field_views(spec.fields@))
        },
{
    let ghost start = strings_view(out@);
    let ghost fv = field_views(spec.fields@);
    let mut i: usize = 0;
    while i < spec.fields.len()
        invariant
            i <= spec.fields@.len(),
            fv == field_views(spec.fields@),
            strings_view(out@) == start + if variants {
                stored_variants(fv.take(i as int))
            } else {
                stored_columns(fv.take(i as int))
            },
        decreases spec.fields@.len() - i,
    {
        assert(fv.take(i + 1).drop_last() =~= fv.take(i as int));
        assert(fv.take(i + 1).last() == spec.fields@[i as int]@);
        match &spec.fields[i] {
            ModelFieldSpec::Stored(s) => {
                let ghost before = out@;
                let t = if variants {
                    s.query_variant.clone()
                } else {
                    s.storage_column_name.clone()
                };
                out.push(t);
                assert(strings_view(out@) =~= strings_view(before).push(out@.last()@));
            },
            ModelFieldSpec::HasMany(_) => {},
        }
        i = i + 1;
    }
    assert(fv.take(spec.fields@.len() as int) =~= fv);
}

/// The columns the generated `INSERT` writes, in order.
pub fn insert_column_names(spec: &ModelSpec) -> (r: Vec<String>)
    ensures
        strings_view(r@) == insert_columns_of(spec@),
{
    let mut out: Vec<String> = Vec::new();
    if !spec.primary_key.auto_increment {
        out.push(spec.primary_key.field_name.clone());
    }
    assert(strings_view(out@) =~= if spec.primary_key.auto_increment {
        Seq::<Seq<char>>::empty()
    } else {
        seq![spec.primary_key.field_name@]
    });
    collect_stored(spec, &mut out, false);
    out
}

/// The column variants `allow_all` admits, in order.
pub fn allow_all_variants(spec: &ModelSpec) -> (r: Vec<String>)
    ensures
        strings_view(r@) == allow_all_of(spec@),
{
    let mut out: Vec<String> = Vec::new();
    if !spec.primary_key.auto_increment {
        out.push(spec.primary_key.query_variant.clone());
    }
    assert(strings_view(out@) =~= if spec.primary_key.auto_increment {
        Seq::<Seq<char>>::empty()
    } else {
        seq![spec.primary_key.query_variant@]
    });
    collect_stored(spec, &mut out, true);
    out
}

/// The name of a stored field in the generated params struct: its column for an
/// association, so that params are keyed like `owner_id`; its own name otherwise.
pub fn params_field_name(field: &StoredFieldSpec) -> (r: String)
    ensures
        r@ == if association_target_of(field.ty) is Some {
            field.storage_column_name@
        } else {
            field.ident@
        },
{
    if field.association_target().is_some() {
        field.storage_column_name.clone()
    } else {
        field.ident.clone()
    }
}

} // verus!
