//! `SELECT` and `COUNT` statements with filtering, ordering and paging.

use vstd::prelude::*;

use crate::model::{ColumnDef, PrimaryKeyDef};
use crate::text::{decimal, joined, lemma_joined_step, lemma_take_all, push_decimal};

use super::render::{select_columns, select_columns_text};

verus! {

/// Sort direction of an `ORDER BY` term.
#[derive(Debug, Clone, Copy, PartialEq, Eq)]
pub enum OrderDirection {
    Asc,
    Desc,
}

/// `ASC` or `DESC`.
pub open spec fn direction_text(direction: OrderDirection) -> Seq<char> {
    match direction {
        OrderDirection::Asc => "ASC"@,
        OrderDirection::Desc => "DESC"@,
    }
}

impl OrderDirection {
    /// The SQL keyword for this direction.
    pub fn as_sql(self) -> (r: &'static str)
        ensures
            r@ == direction_text(self),
    {
        match self {
            OrderDirection::Asc => "ASC",
            OrderDirection::Desc => "DESC",
        }
    }
}

/// One term of an `ORDER BY` clause.
#[derive(Debug, Clone, PartialEq, Eq)]
pub enum OrderTerm {
    /// A typed column with a direction.
    Column { name: &'static str, direction: OrderDirection },
    /// A raw SQL fragment inserted as-is.
    Raw(String),
}

/// `name DIR` for a column term, the fragment itself for a raw term.
pub open spec fn order_term_text(term: OrderTerm) -> Seq<char> {
    match term {
        OrderTerm::Column { name, direction } => name@ + " "@ + direction_text(direction),
        OrderTerm::Raw(sql) => sql@,
    }
}

/// The terms of an `ORDER BY` clause separated by `, `.
pub open spec fn order_terms_text(ordering: Seq<OrderTerm>) -> Seq<char> {
    joined(ordering.map_values(|t: OrderTerm| order_term_text(t)), ", "@)
}

impl OrderTerm {
    /// Renders this term.
    pub fn to_sql(&self) -> (r: String)
        ensures
            r@ == order_term_text(*self),
    {
        match self {
            OrderTerm::Column { name, direction } => {
                let mut out = String::new();
                out.append(name);
                out.append(" ");
                out.append(direction.as_sql());
                out
            },
            OrderTerm::Raw(sql) => sql.clone(),
        }
    }
}

/// Joins ordering terms into an `ORDER BY` body, or `None` when there are no terms.
pub fn order_by_clause(ordering: &[OrderTerm]) -> (r: Option<String>)
    ensures
        ordering@.len() == 0 ==> r is None,
        ordering@.len() > 0 ==> r is Some && r->0@ == order_terms_text(ordering@),
{
    if ordering.len() == 0 {
        return None;
    }
    let ghost parts = ordering@.map_values(|t: OrderTerm| order_term_text(t));
    let mut out = String::new();
    let mut i: usize = 0;
    while i < ordering.len()
        invariant
            i <= ordering@.len(),
            parts == ordering@.map_values(|t: OrderTerm| order_term_text(t)),
            out@ == joined(parts.take(i as int), ", "@),
        decreases ordering@.len() - i,
    {
        proof {
            lemma_joined_step(parts, i as int, ", "@);
        }
        if i > 0 {
            out.append(", ");
        }
        let term = ordering[i].to_sql();
        out.append(term.as_str());
        i = i + 1;
    }
    proof {
        lemma_take_all(parts);
    }
    Some(out)
}

/// What a `SELECT` statement returns.
#[derive(Debug, Clone, Copy)]
pub enum Projection<'a> {
    /// The primary key followed by the model's columns.
    ModelColumns { primary_key_name: &'a str, columns: &'a [ColumnDef] },
    /// `COUNT(*)`.
    CountAll,
    /// The constant `1`.
    One,
}

/// The select list of a projection.
pub open spec fn projection_text(projection: Projection) -> Seq<char> {
    match projection {
        Projection::ModelColumns { primary_key_name, columns } => select_columns_text(
            primary_key_name@,
            columns@,
        ),
        Projection::CountAll => "COUNT(*)"@,
        Projection::One => "1"@,
    }
}

impl Projection<'_> {
    /// Renders the select list.
    pub fn to_sql(self) -> (r: String)
        ensures
            r@ == projection_text(self),
    {
        match self {
            Projection::ModelColumns { primary_key_name, columns } => select_columns(
                primary_key_name,
                columns,
            ),
            Projection::CountAll => String::from_str("COUNT(*)"),
            Projection::One => String::from_str("1"),
        }
    }
}

/// ` LIMIT n` and ` OFFSET m`, with `LIMIT -1` standing in for an absent limit when an
/// offset is given (SQLite only accepts `OFFSET` after a `LIMIT`).
pub open spec fn limit_offset_text(limit: Option<usize>, offset: Option<usize>) -> Seq<char> {
    (match limit {
        Some(l) => " LIMIT "@ + decimal(l as nat),
        None => Seq::empty(),
    }) + (match offset {
        Some(o) => (if limit is None {
            " LIMIT -1"@
        } else {
            Seq::empty()
        }) + " OFFSET "@ + decimal(o as nat),
        None => Seq::empty(),
    })
}

/// A `SELECT` statement over one table.
#[derive(Debug, Clone, Copy)]
pub struct Select<'a> {
    pub projection: Projection<'a>,
    pub table_name: &'a str,
    pub clause: Option<&'a str>,
    pub order_clause: Option<&'a str>,
    pub limit: Option<usize>,
    pub offset: Option<usize>,
}

/// A `SELECT` statement from its select list, table and optional clauses.
pub open spec fn statement_text(
    projection: Seq<char>,
    table_name: Seq<char>,
    clause: Option<Seq<char>>,
    order_clause: Option<Seq<char>>,
    limit: Option<usize>,
    offset: Option<usize>,
) -> Seq<char> {
    "SELECT "@ + projection + " FROM "@ + table_name + (match clause {
        Some(c) => " WHERE "@ + c,
        None => Seq::empty(),
    }) + (match order_clause {
        Some(o) => " ORDER BY "@ + o,
        None => Seq::empty(),
    }) + limit_offset_text(limit, offset)
}

/// The view of an optional string slice.
pub open spec fn opt_view(s: Option<&str>) -> Option<Seq<char>> {
    match s {
        Some(x) => Some(x@),
        None => None,
    }
}

/// The text of a `SELECT` statement.
pub open spec fn select_text(s: Select) -> Seq<char> {
    statement_text(
        projection_text(s.projection),
        s.table_name@,
        opt_view(s.clause),
        opt_view(s.order_clause),
        s.limit,
        s.offset,
    )
}

impl Select<'_> {
    /// Renders the statement.
    pub fn to_sql(self) -> (r: String)
        ensures
            r@ == select_text(self),
    {
        let mut query = String::new();
        query.append("SELECT ");
        let projection = self.projection.to_sql();
        query.append(projection.as_str());
        query.append(" FROM ");
        query.append(self.table_name);
        if let Some(clause) = self.clause {
            query.append(" WHERE ");
            query.append(clause);
        }
        if let Some(order_clause) = self.order_clause {
            query.append(" ORDER BY ");
            query.append(order_clause);
        }
        append_limit_offset(query.as_str(), self.limit, self.offset)
    }
}

/// A `COUNT(*)` over the rows of a `SELECT`.
#[derive(Debug, Clone, Copy)]
pub struct Count<'a> {
    pub select: Select<'a>,
}

/// Without paging, the count is taken directly and ordering is dropped; with paging the
/// paged `SELECT 1 ...` is wrapped in a subquery.
pub open spec fn count_statement_text(
    table_name: Seq<char>,
    clause: Option<Seq<char>>,
    order_clause: Option<Seq<char>>,
    limit: Option<usize>,
    offset: Option<usize>,
) -> Seq<char> {
    if limit is None && offset is None {
        statement_text("COUNT(*)"@, table_name, clause, None, limit, offset)
    } else {
        "SELECT COUNT(*) FROM ("@ + statement_text("1"@, table_name, clause, order_clause, limit, offset)
            + ") AS seekwel_count"@
    }
}

/// The count statement over the rows of `s` (its select list is not used).
pub open spec fn count_text(s: Select) -> Seq<char> {
    count_statement_text(s.table_name@, opt_view(s.clause), opt_view(s.order_clause), s.limit, s.offset)
}

/// Counting a paged selection counts the rows of the paged `SELECT 1` itself, taken as a
/// subquery, so the count never exceeds the limit and leaves out the offset's rows; only
/// a selection with neither limit nor offset is counted directly, without its ordering.
pub proof fn lemma_count_respects_paging(s: Select)
    ensures
        (s.limit is Some || s.offset is Some) ==> count_text(s) == "SELECT COUNT(*) FROM ("@ + select_text(
            Select {
                projection: Projection::One,
                table_name: s.table_name,
                clause: s.clause,
                order_clause: s.order_clause,
                limit: s.limit,
                offset: s.offset,
            },
        ) + ") AS seekwel_count"@,
        (s.limit is None && s.offset is None) ==> count_text(s) == select_text(
            Select {
                projection: Projection::CountAll,
                table_name: s.table_name,
                clause: s.clause,
                order_clause: None,
                limit: None,
                offset: None,
            },
        ),
{
}

impl Count<'_> {
    /// Renders the statement.
    pub fn to_sql(self) -> (r: String)
        ensures
            r@ == count_text(self.select),
    {
        if self.select.limit.is_none() && self.select.offset.is_none() {
            return Select {
                projection: Projection::CountAll,
                table_name: self.select.table_name,
                clause: self.select.clause,
                order_clause: None,
                limit: self.select.limit,
                offset: self.select.offset,
            }.to_sql();
        }
        let inner = Select {
            projection: Projection::One,
            table_name: self.select.table_name,
            clause: self.select.clause,
            order_clause: self.select.order_clause,
            limit: self.select.limit,
            offset: self.select.offset,
        }.to_sql();
        let mut out = String::new();
        out.append("SELECT COUNT(*) FROM (");
        out.append(inner.as_str());
        out.append(") AS seekwel_count");
        out
    }
}

/// The lookup by `id = ?1` over the model columns.
pub open spec fn select_by_id_text(table_name: Seq<char>, columns: Seq<ColumnDef>) -> Seq<char> {
    statement_text(select_columns_text("id"@, columns), table_name, Some("id = ?1"@), None, None, None)
}

/// Builds a `SELECT ... WHERE id = ?1` statement for a model table.
pub fn select_by_id(table_name: &str, columns: &[ColumnDef]) -> (r: String)
    ensures
        r@ == select_by_id_text(table_name@, columns@),
{
    let r = Select {
        projection: Projection::ModelColumns { primary_key_name: "id", columns },
        table_name,
        clause: Some("id = ?1"),
        order_clause: None,
        limit: None,
        offset: None,
    }.to_sql();
    assert(r@ =~= select_by_id_text(table_name@, columns@));
    r
}

/// The lookup by `<primary key> = ?1` over the model columns.
pub open spec fn select_by_primary_key_text(
    table_name: Seq<char>,
    primary_key: PrimaryKeyDef,
    columns: Seq<ColumnDef>,
) -> Seq<char> {
    statement_text(
        select_columns_text(primary_key.name@, columns),
        table_name,
        Some(primary_key.name@ + " = ?1"@),
        None,
        None,
        None,
    )
}

/// Builds a `SELECT ... WHERE <primary key> = ?1` statement for a model table.
pub fn select_by_primary_key(table_name: &str, primary_key: PrimaryKeyDef, columns: &[ColumnDef]) -> (r:
    String)
    ensures
        r@ == select_by_primary_key_text(table_name@, primary_key, columns@),
{
    let mut clause = String::from_str(primary_key.name);
    clause.append(" = ?1");
    let r = Select {
        projection: Projection::ModelColumns { primary_key_name: primary_key.name, columns },
        table_name,
        clause: Some(clause.as_str()),
        order_clause: None,
        limit: None,
        offset: None,
    }.to_sql();
    assert(r@ =~= select_by_primary_key_text(table_name@, primary_key, columns@));
    r
}

/// The model-column `SELECT` with the given optional clauses.
pub open spec fn select_with_options_text(
    table_name: Seq<char>,
    columns: Seq<ColumnDef>,
    clause: Option<Seq<char>>,
    order_clause: Option<Seq<char>>,
    limit: Option<usize>,
    offset: Option<usize>,
) -> Seq<char> {
    statement_text(select_columns_text("id"@, columns), table_name, clause, order_clause, limit, offset)
}

/// Builds a `SELECT` statement with optional `WHERE`, `ORDER BY`, `LIMIT`, and
/// `OFFSET` clauses.
pub fn select_with_options(
    table_name: &str,
    columns: &[ColumnDef],
    clause: Option<&str>,
    order_clause: Option<&str>,
    limit: Option<usize>,
    offset: Option<usize>,
) -> (r: String)
    ensures
        r@ == select_with_options_text(
            table_name@,
            columns@,
            opt_view(clause),
            opt_view(order_clause),
            limit,
            offset,
        ),
{
    Select {
        projection: Projection::ModelColumns { primary_key_name: "id", columns },
        table_name,
        clause,
        order_clause,
        limit,
        offset,
    }.to_sql()
}

/// Builds a `SELECT` statement with an optional `WHERE` clause and optional `LIMIT 1`.
pub fn select(table_name: &str, columns: &[ColumnDef], clause: Option<&str>, limit_one: bool) -> (r:
    String)
    ensures
        r@ == select_with_options_text(
            table_name@,
            columns@,
            opt_view(clause),
            None,
            if limit_one { Some(1usize) } else { None },
            None,
        ),
{
    let limit = if limit_one { Some(1usize) } else { None };
    select_with_options(table_name, columns, clause, None, limit, None)
}

/// Builds a `SELECT` statement with a required `WHERE` clause.
pub fn select_where(table_name: &str, columns: &[ColumnDef], clause: &str, limit_one: bool) -> (r:
    String)
    ensures
        r@ == select_with_options_text(
            table_name@,
            columns@,
            Some(clause@),
            None,
            if limit_one { Some(1usize) } else { None },
            None,
        ),
{
    select(table_name, columns, Some(clause), limit_one)
}

/// Appends `LIMIT` and `OFFSET` clauses to an existing `SELECT` statement.
///
/// SQLite requires a `LIMIT` when using `OFFSET`, so `LIMIT -1` is emitted for
/// offset-only queries.
pub fn append_limit_offset(query: &str, limit: Option<usize>, offset: Option<usize>) -> (r: String)
    ensures
        r@ == query@ + limit_offset_text(limit, offset),
{
    let mut out = String::from_str(query);
    if let Some(limit) = limit {
        out.append(" LIMIT ");
        push_decimal(&mut out, limit as u128);
    }
    if let Some(offset) = offset {
        if limit.is_none() {
            out.append(" LIMIT -1");
        }
        out.append(" OFFSET ");
        push_decimal(&mut out, offset as u128);
    }
    assert(out@ =~= query@ + limit_offset_text(limit, offset));
    out
}

} // verus!
