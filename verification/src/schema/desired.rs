//! The desired schema, assembled from model metadata.

use vstd::prelude::*;

use crate::error::Error;
use crate::model::Model;

use super::types::{
    lemma_normalizes_to_unique, normalizes_to, ColumnDef, ColumnView, PrimaryKeyDef, PrimaryKeyView, SchemaDef, TableDef,
    TableView,
};

verus! {

/// The managed table of a model: its table name, primary key and stored columns.
pub open spec fn model_table<M: Model>() -> TableView {
    TableView {
        name: M::model_table_name(),
        primary_key: PrimaryKeyView {
            name: M::model_primary_key().name@,
            sql_type: M::model_primary_key().sql_type@,
        },
        columns: M::model_columns().map_values(
            |c: crate::model::ColumnDef|
                ColumnView { name: c.name@, sql_type: c.sql_type@, nullable: c.nullable },
        ),
    }
}

/// The managed table definition of a model.
pub fn table_for_model<M: Model>() -> (r: TableDef)
    ensures
        r@ == model_table::<M>(),
{
    let key = M::primary_key();
    let meta = M::columns();
    let mut columns: Vec<ColumnDef> = Vec::new();
    let mut i: usize = 0;
    while i < meta.len()
        invariant
            i <= meta@.len(),
            meta@ == M::model_columns(),
            super::types::columns_view(columns@) =~= M::model_columns().map_values(
                |c: crate::model::ColumnDef|
                    ColumnView { name: c.name@, sql_type: c.sql_type@, nullable: c.nullable },
            ).take(i as int),
        decreases meta@.len() - i,
    {
        let c = &meta[i];
        let d = ColumnDef {
            name: String::from_str(c.name),
            sql_type: String::from_str(c.sql_type),
            nullable: c.nullable,
        };
        let ghost before = columns@;
        let ghost dv = d@;
        columns.push(d);
        assert(super::types::columns_view(columns@) =~= super::types::columns_view(before).push(dv));
        i = i + 1;
    }
    let ghost mapped = M::model_columns().map_values(
        |c: crate::model::ColumnDef|
            ColumnView { name: c.name@, sql_type: c.sql_type@, nullable: c.nullable },
    );
    assert(mapped.take(meta@.len() as int) =~= mapped);
    TableDef {
        name: String::from_str(M::table_name()),
        primary_key: PrimaryKeyDef {
            name: String::from_str(key.name),
            sql_type: String::from_str(key.sql_type),
        },
        columns,
    }
}

/// Builds a desired managed schema from one or more models.
#[derive(Debug)]
pub struct SchemaBuilder {
    tables: Vec<TableDef>,
}

impl View for SchemaBuilder {
    type V = Seq<TableView>;

    /// The tables added so far, in order.
    closed spec fn view(&self) -> Seq<TableView> {
        super::types::tables_view(self.tables@)
    }
}

impl Default for SchemaBuilder {
    fn default() -> (r: Self)
        ensures
            r@ == Seq::<TableView>::empty(),
    {
        SchemaBuilder::new()
    }
}

impl SchemaBuilder {
    /// Creates an empty desired schema builder.
    pub fn new() -> (r: Self)
        ensures
            r@ == Seq::<TableView>::empty(),
    {
        let r = SchemaBuilder { tables: Vec::new() };
        assert(r@ =~= Seq::<TableView>::empty());
        r
    }

    /// A builder holding the given tables, such as those of every registered model.
    pub fn from_tables(tables: Vec<TableDef>) -> (r: Self)
        ensures
            r@ == super::types::tables_view(tables@),
    {
        SchemaBuilder { tables }
    }

    /// Adds a model's managed table to the desired schema.
    pub fn model<M: Model>(self) -> (r: Self)
        ensures
            r@ == self@.push(model_table::<M>()),
    {
        let mut tables = self.tables;
        let t = table_for_model::<M>();
        let ghost before = tables@;
        let ghost tv = t@;
        tables.push(t);
        let r = SchemaBuilder { tables };
        assert(r@ =~= super::types::tables_view(before).push(tv));
        r
    }

    /// Finalizes the desired schema in deterministic order, refusing repeated tables and
    /// columns.
    pub fn build(self) -> (r: Result<SchemaDef, Error>)
        ensures
            normalizes_to(self@, r),
    {
        SchemaDef { tables: self.tables }.normalized()
    }
}

/// Adding a model's table to a builder and building gives what normalizing the builder's
/// tables followed by that table gives: the same schema, or the same `InvalidSchema` error.
/// (`built` is what [`SchemaBuilder::build`] returns after [`SchemaBuilder::model`];
/// `normalized` is what [`SchemaDef::normalized`] returns for the same tables.)
pub proof fn lemma_model_then_build<M: Model>(
    tables: Seq<TableView>,
    built: Result<SchemaDef, Error>,
    normalized: Result<SchemaDef, Error>,
)
    requires
        normalizes_to(tables.push(model_table::<M>()), built),
        normalizes_to(tables.push(model_table::<M>()), normalized),
    ensures
        built is Ok <==> normalized is Ok,
        built is Ok ==> built->Ok_0@ == normalized->Ok_0@,
        built is Err ==> (built->Err_0 matches Error::InvalidSchema(m1)
            && normalized->Err_0 matches Error::InvalidSchema(m2) && m1@ == m2@),
{
    lemma_normalizes_to_unique(tables.push(model_table::<M>()), built, normalized);
}

} // verus!
