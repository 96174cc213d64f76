//! Query values: filter expressions, ordering, paging, and the statements they render.

use vstd::prelude::*;

use std::marker::PhantomData;

use crate::error::Error;
use crate::sql::render::select_columns;
use crate::sql::render::select_columns_text;
use crate::sql::select::{
    count_statement_text, order_by_clause, order_terms_text, statement_text, Count,
    OrderDirection, OrderTerm, Projection, Select,
};

use super::comparison::{comparison_outcome, ClauseOutcome, Comparison, OperandView};
use super::value::{values_view, SqlValue, SqlValueView};
use super::{Column, ColumnDef, Model, PrimaryKeyDef};

verus! {

/// An `ORDER BY` clause builder.
#[derive(Debug, Clone, PartialEq, Eq)]
pub struct Order {
    pub terms: Vec<OrderTerm>,
}

impl Default for Order {
    /// An ordering with no terms.
    fn default() -> (r: Self)
        ensures
            r.terms@.len() == 0,
    {
        Order { terms: Vec::new() }
    }
}

/// Chaining orderings with [`Order::then`] keeps every term in order: when `ab` is
/// `a.then(b)` and `bc` is `b.then(c)`, `ab.then(c)` and `a.then(bc)` hold the same terms,
/// and an ordering with no terms (such as `Order::default()`) changes nothing on either
/// side.
pub proof fn lemma_then_laws(a: Order, b: Order, c: Order, ab: Order, bc: Order, none: Order)
    requires
        ab.terms@ == a.terms@ + b.terms@,
        bc.terms@ == b.terms@ + c.terms@,
        none.terms@.len() == 0,
    ensures
        ab.terms@ + c.terms@ == a.terms@ + bc.terms@,
        a.terms@ + none.terms@ == a.terms@,
        none.terms@ + a.terms@ == a.terms@,
{
    assert(ab.terms@ + c.terms@ =~= a.terms@ + bc.terms@);
    assert(a.terms@ + none.terms@ =~= a.terms@);
    assert(none.terms@ + a.terms@ =~= a.terms@);
}

impl Order {
    /// Creates an ascending `ORDER BY` item for a typed column.
    pub fn asc<C: Column>(column: C) -> (r: Self)
        ensures
            r.terms@.len() == 1,
            r.terms@[0] matches OrderTerm::Column { name, direction } && name@ == column.column_name()
                && direction == OrderDirection::Asc,
    {
        let mut terms = Vec::new();
        terms.push(OrderTerm::Column { name: column.as_str(), direction: OrderDirection::Asc });
        Order { terms }
    }

    /// Creates a descending `ORDER BY` item for a typed column.
    pub fn desc<C: Column>(column: C) -> (r: Self)
        ensures
            r.terms@.len() == 1,
            r.terms@[0] matches OrderTerm::Column { name, direction } && name@ == column.column_name()
                && direction == OrderDirection::Desc,
    {
        let mut terms = Vec::new();
        terms.push(OrderTerm::Column { name: column.as_str(), direction: OrderDirection::Desc });
        Order { terms }
    }

    /// Creates a raw `ORDER BY` fragment, inserted into SQL as-is.
    pub fn raw(sql: String) -> (r: Self)
        ensures
            r.terms@ == seq![OrderTerm::Raw(sql)],
    {
        let mut terms = Vec::new();
        terms.push(OrderTerm::Raw(sql));
        Order { terms }
    }

    /// Appends another ordering onto this one.
    pub fn then(self, other: Order) -> (r: Self)
        ensures
            r.terms@ == self.terms@ + other.terms@,
    {
        let mut terms = self.terms;
        let mut more = other.terms;
        terms.append(&mut more);
        Order { terms }
    }

    /// The ordering terms.
    pub fn into_terms(self) -> (r: Vec<OrderTerm>)
        ensures
            r@ == self.terms@,
    {
        self.terms
    }
}

/// A boolean filter over rows.
#[derive(Debug)]
pub enum QueryExpression {
    /// No filter.
    Empty,
    /// One column comparison.
    Predicate { column: &'static str, comparison: Comparison },
    /// Both filters.
    And(Box<QueryExpression>, Box<QueryExpression>),
    /// Either filter.
    Or(Box<QueryExpression>, Box<QueryExpression>),
}

/// What rendering a filter gives: the clause (absent for no filter) with the values it
/// binds, or a query-error message with the values bound before the error.
pub ghost enum ExpressionOutcome {
    Rendered(Option<Seq<char>>, Seq<SqlValueView>),
    Rejected(Seq<char>, Seq<SqlValueView>),
}

/// How many values a filter binds at most.
pub open spec fn operand_count(e: QueryExpression) -> nat
    decreases e,
{
    match e {
        QueryExpression::Empty => 0,
        QueryExpression::Predicate { column, comparison } => match comparison.value@ {
            OperandView::Many(vs) => vs.len(),
            OperandView::Single(_) => 1,
        },
        QueryExpression::And(l, r) => operand_count(*l) + operand_count(*r),
        QueryExpression::Or(l, r) => operand_count(*l) + operand_count(*r),
    }
}

/// The number of nodes of a filter.
pub open spec fn expression_size(e: QueryExpression) -> nat
    decreases e,
{
    match e {
        QueryExpression::Empty => 1,
        QueryExpression::Predicate { .. } => 1,
        QueryExpression::And(l, r) => 1 + expression_size(*l) + expression_size(*r),
        QueryExpression::Or(l, r) => 1 + expression_size(*l) + expression_size(*r),
    }
}

/// Joins two rendered filters with `AND` or `OR`; an absent side leaves the other as is.
pub open spec fn combined_clause(
    left: Option<Seq<char>>,
    right: Option<Seq<char>>,
    connective: Seq<char>,
) -> Option<Seq<char>> {
    match (left, right) {
        (None, r) => r,
        (l, None) => l,
        (Some(l), Some(r)) => Some("("@ + l + ") "@ + connective + " ("@ + r + ")"@),
    }
}

/// Renders a filter, numbering placeholders after `bound` earlier values.
pub open spec fn expression_outcome(e: QueryExpression, bound: nat) -> ExpressionOutcome
    decreases expression_size(e),
{
    match e {
        QueryExpression::Empty => ExpressionOutcome::Rendered(None, Seq::empty()),
        QueryExpression::Predicate { column, comparison } => match comparison_outcome(
            comparison.operator,
            comparison.value@,
            column@,
            bound,
        ) {
            ClauseOutcome::Rendered(t, p) => ExpressionOutcome::Rendered(Some(t), p),
            ClauseOutcome::Rejected(m) => ExpressionOutcome::Rejected(m, Seq::empty()),
        },
        QueryExpression::And(l, r) => binary_outcome(*l, *r, "AND"@, bound),
        QueryExpression::Or(l, r) => binary_outcome(*l, *r, "OR"@, bound),
    }
}

/// Renders the left filter, then the right one after the left's values.
pub open spec fn binary_outcome(
    l: QueryExpression,
    r: QueryExpression,
    connective: Seq<char>,
    bound: nat,
) -> ExpressionOutcome
    decreases expression_size(l) + expression_size(r),
{
    match expression_outcome(l, bound) {
        ExpressionOutcome::Rejected(m, p) => ExpressionOutcome::Rejected(m, p),
        ExpressionOutcome::Rendered(lt, lp) => match expression_outcome(r, bound + lp.len()) {
            ExpressionOutcome::Rejected(m, rp) => ExpressionOutcome::Rejected(m, lp + rp),
            ExpressionOutcome::Rendered(rt, rp) => ExpressionOutcome::Rendered(
                combined_clause(lt, rt, connective),
                lp + rp,
            ),
        },
    }
}

/// Two filters that both render a clause combine into `(left) AND (right)` or
/// `(left) OR (right)`, the right one numbered after the left one's values, which come
/// first.
pub proof fn lemma_connectives_render(l: QueryExpression, r: QueryExpression, bound: nat)
    ensures
        match expression_outcome(l, bound) {
            ExpressionOutcome::Rendered(Some(lt), lp) => match expression_outcome(r, bound + lp.len()) {
                ExpressionOutcome::Rendered(Some(rt), rp) => {
                    &&& expression_outcome(QueryExpression::And(Box::new(l), Box::new(r)), bound)
                        == ExpressionOutcome::Rendered(Some("("@ + lt + ") AND ("@ + rt + ")"@), lp + rp)
                    &&& expression_outcome(QueryExpression::Or(Box::new(l), Box::new(r)), bound)
                        == ExpressionOutcome::Rendered(Some("("@ + lt + ") OR ("@ + rt + ")"@), lp + rp)
                },
                _ => true,
            },
            _ => true,
        },
{
    reveal_strlit("(");
    reveal_strlit(") ");
    reveal_strlit("AND");
    reveal_strlit("OR");
    reveal_strlit(" (");
    reveal_strlit(")");
    reveal_strlit(") AND (");
    reveal_strlit(") OR (");
    match expression_outcome(l, bound) {
        ExpressionOutcome::Rendered(Some(lt), lp) => match expression_outcome(r, bound + lp.len()) {
            ExpressionOutcome::Rendered(Some(rt), rp) => {
                assert("("@ + lt + ") "@ + "AND"@ + " ("@ + rt + ")"@ =~= "("@ + lt + ") AND ("@ + rt + ")"@);
                assert("("@ + lt + ") "@ + "OR"@ + " ("@ + rt + ")"@ =~= "("@ + lt + ") OR ("@ + rt + ")"@);
            },
            _ => {},
        },
        _ => {},
    }
}

/// A filter binds no more values than it holds operands.
pub proof fn lemma_bound_values(e: QueryExpression, bound: nat)
    ensures
        match expression_outcome(e, bound) {
            ExpressionOutcome::Rendered(_, p) => p.len() <= operand_count(e),
            ExpressionOutcome::Rejected(_, p) => p.len() <= operand_count(e),
        },
    decreases expression_size(e),
{
    match e {
        QueryExpression::Empty => {},
        QueryExpression::Predicate { column, comparison } => {},
        QueryExpression::And(l, r) => {
            lemma_bound_values(*l, bound);
            if let ExpressionOutcome::Rendered(_, lp) = expression_outcome(*l, bound) {
                lemma_bound_values(*r, bound + lp.len());
            }
        },
        QueryExpression::Or(l, r) => {
            lemma_bound_values(*l, bound);
            if let ExpressionOutcome::Rendered(_, lp) = expression_outcome(*l, bound) {
                lemma_bound_values(*r, bound + lp.len());
            }
        },
    }
}

/// An empty filter leaves the other side of `AND` or `OR` as it is: the same clause and the
/// same bound values, or the same error.
pub proof fn lemma_empty_is_neutral(e: QueryExpression, bound: nat)
    ensures
        expression_outcome(QueryExpression::And(Box::new(QueryExpression::Empty), Box::new(e)), bound)
            == expression_outcome(e, bound),
        expression_outcome(QueryExpression::And(Box::new(e), Box::new(QueryExpression::Empty)), bound)
            == expression_outcome(e, bound),
        expression_outcome(QueryExpression::Or(Box::new(QueryExpression::Empty), Box::new(e)), bound)
            == expression_outcome(e, bound),
        expression_outcome(QueryExpression::Or(Box::new(e), Box::new(QueryExpression::Empty)), bound)
            == expression_outcome(e, bound),
{
    let empty = QueryExpression::Empty;
    assert(expression_outcome(empty, bound) == ExpressionOutcome::Rendered(None, Seq::empty()));
    assert(bound + Seq::<SqlValueView>::empty().len() == bound);
    assert(expression_outcome(QueryExpression::And(Box::new(empty), Box::new(e)), bound) == binary_outcome(
        empty,
        e,
        "AND"@,
        bound,
    ));
    assert(expression_outcome(QueryExpression::Or(Box::new(empty), Box::new(e)), bound) == binary_outcome(
        empty,
        e,
        "OR"@,
        bound,
    ));
    assert(expression_outcome(QueryExpression::And(Box::new(e), Box::new(empty)), bound) == binary_outcome(
        e,
        empty,
        "AND"@,
        bound,
    ));
    assert(expression_outcome(QueryExpression::Or(Box::new(e), Box::new(empty)), bound) == binary_outcome(
        e,
        empty,
        "OR"@,
        bound,
    ));
    match expression_outcome(e, bound) {
        ExpressionOutcome::Rendered(t, p) => {
            assert(expression_outcome(empty, bound + p.len()) == ExpressionOutcome::Rendered(
                None,
                Seq::empty(),
            ));
            assert(Seq::<SqlValueView>::empty() + p =~= p);
            assert(p + Seq::<SqlValueView>::empty() =~= p);
        },
        ExpressionOutcome::Rejected(m, p) => {
            assert(Seq::<SqlValueView>::empty() + p =~= p);
        },
    }
}

/// The rendered filter and bound values meet the outcome.
pub open spec fn meets_expression_outcome(
    outcome: ExpressionOutcome,
    r: Result<Option<String>, Error>,
    before: Seq<SqlValue>,
    after: Seq<SqlValue>,
) -> bool {
    match outcome {
        ExpressionOutcome::Rendered(text, pushed) => {
            &&& r is Ok
            &&& match (r->Ok_0, text) {
                (Some(s), Some(t)) => s@ == t,
                (None, None) => true,
                _ => false,
            }
            &&& values_view(after) =~= values_view(before) + pushed
        },
        ExpressionOutcome::Rejected(message, pushed) => {
            &&& r is Err
            &&& r->Err_0 matches Error::InvalidQuery(m) && m@ == message
            &&& values_view(after) =~= values_view(before) + pushed
        },
    }
}

fn combine(left: Option<String>, right: Option<String>, connective: &str) -> (r: Option<String>)
    ensures
        match (r, combined_clause(
            match left { Some(s) => Some(s@), None => None },
            match right { Some(s) => Some(s@), None => None },
            connective@,
        )) {
            (Some(s), Some(t)) => s@ == t,
            (None, None) => true,
            _ => false,
        },
{
    match (left, right) {
        (None, r) => r,
        (l, None) => l,
        (Some(l), Some(r)) => {
            let mut out = String::from_str("(");
            out.append(l.as_str());
            out.append(") ");
            out.append(connective);
            out.append(" (");
            out.append(r.as_str());
            out.append(")");
            Some(out)
        },
    }
}

impl QueryExpression {
    /// Renders this filter, appending the values it binds to `params`.
    pub fn into_clause(self, params: &mut Vec<SqlValue>) -> (r: Result<Option<String>, Error>)
        requires
            old(params)@.len() + operand_count(self) < usize::MAX,
        ensures
            meets_expression_outcome(
                expression_outcome(self, old(params)@.len()),
                r,
                old(params)@,
                final(params)@,
            ),
        decreases expression_size(self),
    {
        let ghost before = params@;
        match self {
            QueryExpression::Empty => {
                assert(values_view(before) + Seq::<SqlValueView>::empty() =~= values_view(before));
                Ok(None)
            },
            QueryExpression::Predicate { column, comparison } => {
                let r = comparison.into_clause(column, params);
                match r {
                    Ok(t) => Ok(Some(t)),
                    Err(e) => {
                        assert(values_view(before) + Seq::<SqlValueView>::empty() =~= values_view(before));
                        Err(e)
                    },
                }
            },
            QueryExpression::And(left, right) => Self::render_binary(*left, *right, "AND", params),
            QueryExpression::Or(left, right) => Self::render_binary(*left, *right, "OR", params),
        }
    }

    fn render_binary(
        left: QueryExpression,
        right: QueryExpression,
        connective: &str,
        params: &mut Vec<SqlValue>,
    ) -> (r: Result<Option<String>, Error>)
        requires
            old(params)@.len() + operand_count(left) + operand_count(right) < usize::MAX,
        ensures
            meets_expression_outcome(
                binary_outcome(left, right, connective@, old(params)@.len()),
                r,
                old(params)@,
                final(params)@,
            ),
        decreases expression_size(left) + expression_size(right),
    {
        let ghost before = params@;
        let ghost gl = left;
        let ghost gr = right;
        let l = match left.into_clause(params) {
            Ok(l) => l,
            Err(e) => return Err(e),
        };
        let ghost mid = params@;
        proof {
            lemma_bound_values(gl, before.len());
            let lo = expression_outcome(gl, before.len());
            assert(lo matches ExpressionOutcome::Rendered(_, lp) && mid.len() == before.len() + lp.len()) by {
                if let ExpressionOutcome::Rendered(_, lp) = lo {
                    assert(values_view(mid).len() == mid.len());
                    assert(values_view(before).len() == before.len());
                }
            }
        }
        let rr = right.into_clause(params);
        match rr {
            Err(e) => Err(e),
            Ok(r) => Ok(combine(l, r, connective)),
        }
    }
}

/// The view of an optional string.
pub open spec fn opt_string_view(s: Option<String>) -> Option<Seq<char>> {
    match s {
        Some(x) => Some(x@),
        None => None,
    }
}

/// An offset of zero is left out of the statement.
pub open spec fn offset_clause(offset: usize) -> Option<usize> {
    if offset > 0 {
        Some(offset)
    } else {
        None
    }
}

/// At most one row: a limit of zero stays zero, no limit becomes one.
pub open spec fn limit_to_one(limit: Option<usize>) -> Option<usize> {
    match limit {
        Some(l) => Some(if l < 1 { l } else { 1 }),
        None => Some(1),
    }
}

/// The rows left under the limit after `consumed` rows, or no bound without a limit.
pub open spec fn remaining_after(limit: Option<usize>, consumed: usize) -> Option<usize> {
    match limit {
        Some(l) => Some(if l >= consumed { (l - consumed) as usize } else { 0 }),
        None => None,
    }
}

/// The clause and bound values of a filter, ready to execute against one table.
#[derive(Debug)]
pub struct QueryPlan {
    pub table_name: &'static str,
    pub primary_key_name: &'static str,
    pub columns: &'static [ColumnDef],
    pub clause: Option<String>,
    pub order_clause: Option<String>,
    pub params: Vec<SqlValue>,
    pub limit: Option<usize>,
    pub offset: usize,
}

/// A statement over the plan's table, filter and ordering.
pub open spec fn plan_statement(
    plan: QueryPlan,
    projection: Seq<char>,
    limit: Option<usize>,
    offset: usize,
) -> Seq<char> {
    statement_text(
        projection,
        plan.table_name@,
        opt_string_view(plan.clause),
        opt_string_view(plan.order_clause),
        limit,
        offset_clause(offset),
    )
}

/// The primary key and columns of the plan's model.
pub open spec fn model_projection(plan: QueryPlan) -> Seq<char> {
    select_columns_text(plan.primary_key_name@, plan.columns@)
}

fn as_opt_str(s: &Option<String>) -> (r: Option<&str>)
    ensures
        match (r, *s) {
            (Some(a), Some(b)) => a@ == b@,
            (None, None) => true,
            _ => false,
        },
{
    match s {
        Some(x) => Some(x.as_str()),
        None => None,
    }
}

impl QueryPlan {
    fn select<'a>(&'a self, projection: Projection<'a>, limit: Option<usize>, offset: usize) -> (r:
        Select<'a>)
        ensures
            r.projection == projection,
            r.table_name == self.table_name,
            crate::sql::select::opt_view(r.clause) == opt_string_view(self.clause),
            crate::sql::select::opt_view(r.order_clause) == opt_string_view(self.order_clause),
            r.limit == limit,
            r.offset == offset_clause(offset),
    {
        Select {
            projection,
            table_name: self.table_name,
            clause: as_opt_str(&self.clause),
            order_clause: as_opt_str(&self.order_clause),
            limit,
            offset: if offset > 0 { Some(offset) } else { None },
        }
    }

    /// The statement that fetches every matching row.
    pub fn all_query(&self) -> (r: String)
        ensures
            r@ == plan_statement(*self, model_projection(*self), self.limit, self.offset),
    {
        let projection = Projection::ModelColumns {
            primary_key_name: self.primary_key_name,
            columns: self.columns,
        };
        self.select(projection, self.limit, self.offset).to_sql()
    }

    /// The statement that fetches the first matching row.
    pub fn first_query(&self) -> (r: String)
        ensures
            r@ == plan_statement(*self, model_projection(*self), limit_to_one(self.limit), self.offset),
    {
        let limit = match self.limit {
            Some(l) => Some(if l < 1 { l } else { 1 }),
            None => Some(1),
        };
        let projection = Projection::ModelColumns {
            primary_key_name: self.primary_key_name,
            columns: self.columns,
        };
        self.select(projection, limit, self.offset).to_sql()
    }

    /// The statement that counts the matching rows.
    pub fn count_query(&self) -> (r: String)
        ensures
            r@ == count_statement_text(
                self.table_name@,
                opt_string_view(self.clause),
                opt_string_view(self.order_clause),
                self.limit,
                offset_clause(self.offset),
            ),
    {
        Count { select: self.select(Projection::One, self.limit, self.offset) }.to_sql()
    }

    /// The statement that tells whether any row matches.
    pub fn exists_query(&self) -> (r: String)
        ensures
            r@ == plan_statement(*self, "1"@, limit_to_one(self.limit), self.offset),
    {
        let limit = match self.limit {
            Some(l) => Some(if l < 1 { l } else { 1 }),
            None => Some(1),
        };
        self.select(Projection::One, limit, self.offset).to_sql()
    }

    /// How many rows the limit still allows after `consumed` rows.
    pub fn remaining_limit(&self, consumed: usize) -> (r: Option<usize>)
        ensures
            r == remaining_after(self.limit, consumed),
    {
        match self.limit {
            Some(l) => Some(l.saturating_sub(consumed)),
            None => None,
        }
    }

    /// The statement for the next page of at most `page_size` rows after `consumed` rows.
    pub fn paged_query(&self, page_size: usize, consumed: usize) -> (r: String)
        ensures
            r@ == plan_statement(
                *self,
                model_projection(*self),
                Some(
                    match remaining_after(self.limit, consumed) {
                        Some(l) => if l < page_size { l } else { page_size },
                        None => page_size,
                    },
                ),
                if self.offset + consumed <= usize::MAX {
                    (self.offset + consumed) as usize
                } else {
                    usize::MAX
                },
            ),
    {
        let limit = match self.remaining_limit(consumed) {
            Some(l) => if l < page_size { l } else { page_size },
            None => page_size,
        };
        let offset = self.offset.saturating_add(consumed);
        let projection = Projection::ModelColumns {
            primary_key_name: self.primary_key_name,
            columns: self.columns,
        };
        self.select(projection, Some(limit), offset).to_sql()
    }
}

/// The `ORDER BY` body of the ordering terms, absent without terms.
pub open spec fn ordering_clause(ordering: Seq<OrderTerm>) -> Option<Seq<char>> {
    if ordering.len() == 0 {
        None
    } else {
        Some(order_terms_text(ordering))
    }
}

/// The plan built from a filter and the table metadata, or the filter's query error.
pub open spec fn plan_matches(
    r: Result<QueryPlan, Error>,
    expression: QueryExpression,
    ordering: Seq<OrderTerm>,
    limit: Option<usize>,
    offset: usize,
) -> bool {
    match expression_outcome(expression, 0) {
        ExpressionOutcome::Rendered(text, pushed) => {
            &&& r is Ok
            &&& opt_string_view(r->Ok_0.clause) == text
            &&& values_view(r->Ok_0.params@) == pushed
            &&& opt_string_view(r->Ok_0.order_clause) == ordering_clause(ordering)
            &&& r->Ok_0.limit == limit
            &&& r->Ok_0.offset == offset
        },
        ExpressionOutcome::Rejected(message, _) => {
            &&& r is Err
            &&& r->Err_0 matches Error::InvalidQuery(m) && m@ == message
        },
    }
}

/// Renders the filter and ordering of a query against a table.
pub fn build_query_plan(
    expression: QueryExpression,
    ordering: &[OrderTerm],
    limit: Option<usize>,
    offset: usize,
    table_name: &'static str,
    primary_key: PrimaryKeyDef,
    columns: &'static [ColumnDef],
) -> (r: Result<QueryPlan, Error>)
    requires
        operand_count(expression) < usize::MAX,
    ensures
        plan_matches(r, expression, ordering@, limit, offset),
        r matches Ok(plan) ==> plan.table_name == table_name && plan.primary_key_name
            == primary_key.name && plan.columns == columns,
{
    let mut params: Vec<SqlValue> = Vec::new();
    let clause = match expression.into_clause(&mut params) {
        Ok(c) => c,
        Err(e) => return Err(e),
    };
    let order_clause = order_by_clause(ordering);
    let plan = QueryPlan {
        table_name,
        primary_key_name: primary_key.name,
        columns,
        clause,
        order_clause,
        params,
        limit,
        offset,
    };
    assert(values_view(Seq::<SqlValue>::empty()) =~= Seq::<SqlValueView>::empty());
    Ok(plan)
}

/// The plan is over the model's table, primary key and columns.
pub open spec fn plan_for_model<M: Model>(plan: QueryPlan) -> bool {
    &&& plan.table_name@ == M::model_table_name()
    &&& plan.primary_key_name == M::model_primary_key().name
    &&& plan.columns@ == M::model_columns()
}

/// A query value for a model: a filter, ordering and paging.
#[derive(Debug)]
pub struct Query<M> {
    pub expression: QueryExpression,
    pub ordering: Vec<OrderTerm>,
    pub limit: Option<usize>,
    pub offset: usize,
    pub model: PhantomData<M>,
}

impl<M: Model> Query<M> {
    /// An unfiltered, unordered, unpaged query.
    pub fn root() -> (r: Self)
        ensures
            r.expression is Empty,
            r.ordering@.len() == 0,
            r.limit is None,
            r.offset == 0,
    {
        Query {
            expression: QueryExpression::Empty,
            ordering: Vec::new(),
            limit: None,
            offset: 0,
            model: PhantomData,
        }
    }

    /// Creates a query with a single predicate.
    pub fn new(column: M::Column, comparison: Comparison) -> (r: Self)
        ensures
            r.expression matches QueryExpression::Predicate { column: name, comparison: c } && name@
                == column.column_name() && c == comparison,
            r.ordering@.len() == 0,
            r.limit is None,
            r.offset == 0,
    {
        Query {
            expression: QueryExpression::Predicate {
                column: column.as_str(),
                comparison: comparison.into_prepared(),
            },
            ordering: Vec::new(),
            limit: None,
            offset: 0,
            model: PhantomData,
        }
    }

    /// Combines this query's filter with another's using `AND`.
    pub fn and(self, other: Query<M>) -> (r: Self)
        ensures
            r.expression == QueryExpression::And(
                Box::new(self.expression),
                Box::new(other.expression),
            ),
            r.ordering@ == self.ordering@,
            r.limit == self.limit,
            r.offset == self.offset,
    {
        Query {
            expression: QueryExpression::And(Box::new(self.expression), Box::new(other.expression)),
            ordering: self.ordering,
            limit: self.limit,
            offset: self.offset,
            model: PhantomData,
        }
    }

    /// Combines this query's filter with another's using `OR`.
    pub fn or(self, other: Query<M>) -> (r: Self)
        ensures
            r.expression == QueryExpression::Or(
                Box::new(self.expression),
                Box::new(other.expression),
            ),
            r.ordering@ == self.ordering@,
            r.limit == self.limit,
            r.offset == self.offset,
    {
        Query {
            expression: QueryExpression::Or(Box::new(self.expression), Box::new(other.expression)),
            ordering: self.ordering,
            limit: self.limit,
            offset: self.offset,
            model: PhantomData,
        }
    }

    /// Adds an `AND` predicate to the current query.
    pub fn q(self, column: M::Column, comparison: Comparison) -> (r: Self)
        ensures
            r.expression matches QueryExpression::And(left, right) && *left == self.expression
                && right.is_predicate_on(column.column_name(), comparison),
            r.ordering@ == self.ordering@,
            r.limit == self.limit,
            r.offset == self.offset,
    {
        self.and(Query::new(column, comparison))
    }

    /// Adds ordering terms after the existing ones.
    pub fn order(self, order: Order) -> (r: Self)
        ensures
            r.expression == self.expression,
            r.ordering@ == self.ordering@ + order.terms@,
            r.limit == self.limit,
            r.offset == self.offset,
    {
        let mut ordering = self.ordering;
        let mut more = order.into_terms();
        ordering.append(&mut more);
        Query {
            expression: self.expression,
            ordering,
            limit: self.limit,
            offset: self.offset,
            model: PhantomData,
        }
    }

    /// Adds an ascending `ORDER BY` term for the given column.
    pub fn order_by(self, column: M::Column) -> (r: Self)
        ensures
            r.expression == self.expression,
            r.ordering@.len() == self.ordering@.len() + 1,
            r.ordering@.take(self.ordering@.len() as int) == self.ordering@,
            r.ordering@.last() matches OrderTerm::Column { name, direction } && name@
                == column.column_name() && direction == OrderDirection::Asc,
            r.limit == self.limit,
            r.offset == self.offset,
    {
        self.asc(column)
    }

    /// Adds an ascending `ORDER BY` term for the given column.
    pub fn asc(self, column: M::Column) -> (r: Self)
        ensures
            r.expression == self.expression,
            r.ordering@.len() == self.ordering@.len() + 1,
            r.ordering@.take(self.ordering@.len() as int) == self.ordering@,
            r.ordering@.last() matches OrderTerm::Column { name, direction } && name@
                == column.column_name() && direction == OrderDirection::Asc,
            r.limit == self.limit,
            r.offset == self.offset,
    {
        let o = Order::asc(column);
        let ghost before = self.ordering@;
        let r = self.order(o);
        assert(r.ordering@.take(before.len() as int) =~= before);
        r
    }

    /// Adds a descending `ORDER BY` term for the given column.
    pub fn desc(self, column: M::Column) -> (r: Self)
        ensures
            r.expression == self.expression,
            r.ordering@.len() == self.ordering@.len() + 1,
            r.ordering@.take(self.ordering@.len() as int) == self.ordering@,
            r.ordering@.last() matches OrderTerm::Column { name, direction } && name@
                == column.column_name() && direction == OrderDirection::Desc,
            r.limit == self.limit,
            r.offset == self.offset,
    {
        let o = Order::desc(column);
        let ghost before = self.ordering@;
        let r = self.order(o);
        assert(r.ordering@.take(before.len() as int) =~= before);
        r
    }

    /// Limits the number of rows returned by this query.
    pub fn limit(self, limit: usize) -> (r: Self)
        ensures
            r.expression == self.expression,
            r.ordering@ == self.ordering@,
            r.limit == Some(limit),
            r.offset == self.offset,
    {
        Query {
            expression: self.expression,
            ordering: self.ordering,
            limit: Some(limit),
            offset: self.offset,
            model: PhantomData,
        }
    }

    /// Skips the first `offset` rows returned by this query.
    pub fn offset(self, offset: usize) -> (r: Self)
        ensures
            r.expression == self.expression,
            r.ordering@ == self.ordering@,
            r.limit == self.limit,
            r.offset == offset,
    {
        Query {
            expression: self.expression,
            ordering: self.ordering,
            limit: self.limit,
            offset,
            model: PhantomData,
        }
    }

    /// Renders the query against the model's table.
    pub fn into_query_plan(self) -> (r: Result<QueryPlan, Error>)
        requires
            operand_count(self.expression) < usize::MAX,
        ensures
            plan_matches(r, self.expression, self.ordering@, self.limit, self.offset),
            r matches Ok(plan) ==> plan_for_model::<M>(plan),
    {
        let primary_key = M::primary_key();
        build_query_plan(
            self.expression,
            self.ordering.as_slice(),
            self.limit,
            self.offset,
            M::table_name(),
            primary_key,
            M::columns(),
        )
    }

    /// Switches this query to lazy row-by-row fetching.
    pub fn lazy(self) -> (r: Lazy<Self>)
        ensures
            r.inner == self,
    {
        Lazy { inner: self }
    }

    /// Switches this query to fetching chunks of `chunk_size` rows.
    pub fn chunked(self, chunk_size: usize) -> (r: Chunked<Self>)
        requires
            chunk_size > 0,
        ensures
            r.inner == self,
            r.chunk_size == chunk_size,
    {
        Chunked { inner: self, chunk_size }
    }
}

impl QueryExpression {
    /// This filter is the one predicate on `column` with `comparison`.
    pub open spec fn is_predicate_on(self, column: Seq<char>, comparison: Comparison) -> bool {
        self matches QueryExpression::Predicate { column: name, comparison: c } && name@ == column
            && c == comparison
    }
}

/// A query wrapper that fetches matching rows one at a time.
#[derive(Debug)]
pub struct Lazy<Q> {
    pub inner: Q,
}

/// A query wrapper that fetches matching rows in chunks.
#[derive(Debug)]
pub struct Chunked<Q> {
    pub inner: Q,
    pub chunk_size: usize,
}

impl<M: Model> Lazy<Query<M>> {
    /// Renders the wrapped query.
    pub fn into_query_plan(self) -> (r: Result<QueryPlan, Error>)
        requires
            operand_count(self.inner.expression) < usize::MAX,
        ensures
            plan_matches(
                r,
                self.inner.expression,
                self.inner.ordering@,
                self.inner.limit,
                self.inner.offset,
            ),
            r matches Ok(plan) ==> plan_for_model::<M>(plan),
    {
        self.inner.into_query_plan()
    }

    /// Stays lazy.
    pub fn lazy(self) -> (r: Self)
        ensures
            r == self,
    {
        self
    }

    /// Switches to chunked fetching.
    pub fn chunked(self, chunk_size: usize) -> (r: Chunked<Query<M>>)
        requires
            chunk_size > 0,
        ensures
            r.inner == self.inner,
            r.chunk_size == chunk_size,
    {
        Chunked { inner: self.inner, chunk_size }
    }

    /// Starts the row-by-row cursor over the rendered query.
    pub fn cursor(self) -> (r: Result<LazyCursor, Error>)
        requires
            operand_count(self.inner.expression) < usize::MAX,
        ensures
            match r {
                Ok(c) => c.consumed == 0 && !c.done && plan_matches(
                    Ok(c.plan),
                    self.inner.expression,
                    self.inner.ordering@,
                    self.inner.limit,
                    self.inner.offset,
                ),
                Err(e) => plan_matches(
                    Err(e),
                    self.inner.expression,
                    self.inner.ordering@,
                    self.inner.limit,
                    self.inner.offset,
                ),
            },
    {
        match self.inner.into_query_plan() {
            Ok(plan) => Ok(LazyCursor { plan, consumed: 0, done: false }),
            Err(e) => Err(e),
        }
    }
}

impl<M: Model> Chunked<Query<M>> {
    /// Renders the wrapped query.
    pub fn into_query_plan(self) -> (r: Result<QueryPlan, Error>)
        requires
            operand_count(self.inner.expression) < usize::MAX,
        ensures
            plan_matches(
                r,
                self.inner.expression,
                self.inner.ordering@,
                self.inner.limit,
                self.inner.offset,
            ),
            r matches Ok(plan) ==> plan_for_model::<M>(plan),
    {
        self.inner.into_query_plan()
    }

    /// Switches to lazy fetching.
    pub fn lazy(self) -> (r: Lazy<Query<M>>)
        ensures
            r.inner == self.inner,
    {
        Lazy { inner: self.inner }
    }

    /// Changes the chunk size.
    pub fn chunked(self, chunk_size: usize) -> (r: Self)
        requires
            chunk_size > 0,
        ensures
            r.inner == self.inner,
            r.chunk_size == chunk_size,
    {
        Chunked { inner: self.inner, chunk_size }
    }

    /// Starts the chunk cursor over the rendered query.
    pub fn cursor(self) -> (r: Result<ChunkedCursor, Error>)
        requires
            operand_count(self.inner.expression) < usize::MAX,
            self.chunk_size > 0,
        ensures
            match r {
                Ok(c) => c.consumed == 0 && !c.done && c.chunk_size == self.chunk_size
                    && plan_matches(
                    Ok(c.plan),
                    self.inner.expression,
                    self.inner.ordering@,
                    self.inner.limit,
                    self.inner.offset,
                ),
                Err(e) => plan_matches(
                    Err(e),
                    self.inner.expression,
                    self.inner.ordering@,
                    self.inner.limit,
                    self.inner.offset,
                ),
            },
    {
        let chunk_size = self.chunk_size;
        match self.inner.into_query_plan() {
            Ok(plan) => Ok(ChunkedCursor { plan, chunk_size, consumed: 0, done: false }),
            Err(e) => Err(e),
        }
    }
}

/// Row-by-row fetching state: which page to ask for next, and when to stop.
#[derive(Debug)]
pub struct LazyCursor {
    pub plan: QueryPlan,
    pub consumed: usize,
    pub done: bool,
}

impl LazyCursor {
    /// The statement for the next row, or `None` once the cursor has finished; finishes
    /// when the limit is used up.
    pub fn next_query(&mut self) -> (r: Option<String>)
        ensures
            final(self).plan == old(self).plan,
            final(self).consumed == old(self).consumed,
            old(self).done ==> r is None && final(self).done,
            !old(self).done && remaining_after(old(self).plan.limit, old(self).consumed) == Some(0usize)
                ==> r is None && final(self).done,
            !old(self).done && remaining_after(old(self).plan.limit, old(self).consumed) != Some(
                0usize,
            ) ==> !final(self).done && r is Some && r->0@ == plan_statement(
                old(self).plan,
                model_projection(old(self).plan),
                Some(1usize),
                if old(self).plan.offset + old(self).consumed <= usize::MAX {
                    (old(self).plan.offset + old(self).consumed) as usize
                } else {
                    usize::MAX
                },
            ),
    {
        if self.done {
            return None;
        }
        if let Some(0) = self.plan.remaining_limit(self.consumed) {
            self.done = true;
            return None;
        }
        let q = self.plan.paged_query(1, self.consumed);
        proof {
            match remaining_after(self.plan.limit, self.consumed) {
                Some(l) => {
                    assert(l >= 1);
                },
                None => {},
            }
        }
        Some(q)
    }

    /// Records what the statement from [`LazyCursor::next_query`] gave: a row moves the
    /// cursor on; no row or an error finishes it.
    pub fn record(&mut self, found_row: bool)
        requires
            found_row ==> old(self).consumed < usize::MAX,
        ensures
            final(self).plan == old(self).plan,
            found_row ==> final(self).consumed == old(self).consumed + 1 && final(self).done
                == old(self).done,
            !found_row ==> final(self).consumed == old(self).consumed && final(self).done,
    {
        if found_row {
            self.consumed = self.consumed + 1;
        } else {
            self.done = true;
        }
    }
}

/// Chunked fetching state: the size of the next chunk, and when to stop.
#[derive(Debug)]
pub struct ChunkedCursor {
    pub plan: QueryPlan,
    pub chunk_size: usize,
    pub consumed: usize,
    pub done: bool,
}

/// The size of the next chunk: the chunk size, cut to what the limit still allows.
pub open spec fn chunk_limit(limit: Option<usize>, consumed: usize, chunk_size: usize) -> usize {
    match remaining_after(limit, consumed) {
        Some(r) => if r < chunk_size { r } else { chunk_size },
        None => chunk_size,
    }
}

/// A chunk never reaches past the query's limit: the rows already consumed and the rows
/// the next chunk asks for stay within it.
pub proof fn lemma_chunk_within_limit(limit: usize, consumed: usize, chunk_size: usize)
    requires
        consumed <= limit,
    ensures
        consumed + chunk_limit(Some(limit), consumed, chunk_size) <= limit,
{
}

/// The rows of `rows` from `start` on, at most `count` of them.
pub open spec fn page<A>(rows: Seq<A>, start: int, count: int) -> Seq<A> {
    let s = if start < rows.len() {
        start
    } else {
        rows.len() as int
    };
    let e = if s + count < rows.len() {
        s + count
    } else {
        rows.len() as int
    };
    rows.subrange(s, e)
}

/// The rows a query gives, out of the rows `rows` that match its filter in its order: from
/// its offset on, at most its limit of them.
pub open spec fn query_rows<A>(rows: Seq<A>, limit: Option<usize>, offset: nat) -> Seq<A> {
    match limit {
        Some(l) => page(rows, offset as int, l as int),
        None => page(rows, offset as int, rows.len() as int),
    }
}

/// The chunks a cursor yields from `consumed` rows on, as [`ChunkedCursor::next_query`]
/// and [`ChunkedCursor::record`] describe each step, when the database answers each chunk
/// statement with the page of `rows` (the rows matching the filter, in order) that its
/// `LIMIT` and `OFFSET` select.
pub open spec fn chunk_run<A>(
    rows: Seq<A>,
    limit: Option<usize>,
    offset: nat,
    chunk_size: usize,
    consumed: nat,
) -> Seq<Seq<A>>
    decreases rows.len() - consumed,
{
    if remaining_after(limit, consumed as usize) == Some(0usize) {
        Seq::empty()
    } else {
        let n = chunk_limit(limit, consumed as usize, chunk_size);
        let chunk = page(rows, (offset + consumed) as int, n as int);
        if chunk.len() == 0 || consumed >= rows.len() {
            Seq::empty()
        } else if chunk.len() < n || remaining_after(limit, (consumed + chunk.len()) as usize) == Some(
            0usize,
        ) {
            seq![chunk]
        } else {
            seq![chunk] + chunk_run(rows, limit, offset, chunk_size, consumed + chunk.len())
        }
    }
}

/// Fetching a query in chunks gives its rows: the chunks a cursor yields from the start,
/// each of at least one and at most `chunk_size` rows, add up, in order, to the rows the
/// query gives, so never to more than its limit.
pub proof fn lemma_chunks_concatenate<A>(rows: Seq<A>, limit: Option<usize>, offset: nat, chunk_size: usize)
    requires
        chunk_size > 0,
        rows.len() <= usize::MAX,
    ensures
        chunk_run(rows, limit, offset, chunk_size, 0).flatten() == query_rows(rows, limit, offset),
        forall|i: int|
            0 <= i < chunk_run(rows, limit, offset, chunk_size, 0).len() ==> 1 <= (#[trigger] chunk_run(
                rows,
                limit,
                offset,
                chunk_size,
                0,
            )[i]).len() <= chunk_size,
{
    lemma_chunk_run_from(rows, limit, offset, chunk_size, 0);
    assert(query_rows(rows, limit, offset).skip(0) =~= query_rows(rows, limit, offset));
}

/// From any point that the cursor reaches, the rest of the run gives the rest of the
/// query's rows.
proof fn lemma_chunk_run_from<A>(
    rows: Seq<A>,
    limit: Option<usize>,
    offset: nat,
    chunk_size: usize,
    consumed: nat,
)
    requires
        chunk_size > 0,
        rows.len() <= usize::MAX,
        consumed <= query_rows(rows, limit, offset).len(),
    ensures
        chunk_run(rows, limit, offset, chunk_size, consumed).flatten() == query_rows(
            rows,
            limit,
            offset,
        ).skip(consumed as int),
        forall|i: int|
            0 <= i < chunk_run(rows, limit, offset, chunk_size, consumed).len() ==> 1 <= (
            #[trigger] chunk_run(rows, limit, offset, chunk_size, consumed)[i]).len() <= chunk_size,
    decreases rows.len() - consumed,
{
    let q = query_rows(rows, limit, offset);
    let run = chunk_run(rows, limit, offset, chunk_size, consumed);
    let len = rows.len() as int;
    assert(consumed <= len);
    if remaining_after(limit, consumed as usize) == Some(0usize) {
        assert(q.skip(consumed as int) =~= Seq::<A>::empty());
    } else {
        let n = chunk_limit(limit, consumed as usize, chunk_size);
        let chunk = page(rows, (offset + consumed) as int, n as int);
        assert(n >= 1);
        if chunk.len() == 0 || consumed >= rows.len() {
            assert(q.skip(consumed as int) =~= Seq::<A>::empty());
        } else {
            let next = consumed + chunk.len();
            assert(chunk =~= q.subrange(consumed as int, next as int));
            if chunk.len() < n || remaining_after(limit, next as usize) == Some(0usize) {
                assert(q.skip(consumed as int) =~= chunk);
                seq![chunk].lemma_flatten_singleton();
            } else {
                lemma_chunk_run_from(rows, limit, offset, chunk_size, next);
                let rest = chunk_run(rows, limit, offset, chunk_size, next);
                assert((seq![chunk] + rest).drop_first() =~= rest);
                assert((seq![chunk] + rest)[0] == chunk);
                assert(q.skip(consumed as int) =~= chunk + q.skip(next as int));
                assert forall|i: int| 0 <= i < run.len() implies 1 <= (#[trigger] run[i]).len()
                    <= chunk_size by {
                    if i > 0 {
                        assert(run[i] == rest[i - 1]);
                    }
                }
            }
        }
    }
}

impl ChunkedCursor {
    /// The statement for the next chunk with the number of rows it asks for, or `None`
    /// once the cursor has finished; finishes when the limit is used up.
    pub fn next_query(&mut self) -> (r: Option<(String, usize)>)
        ensures
            final(self).plan == old(self).plan,
            final(self).consumed == old(self).consumed,
            final(self).chunk_size == old(self).chunk_size,
            old(self).done ==> r is None && final(self).done,
            !old(self).done && remaining_after(old(self).plan.limit, old(self).consumed) == Some(0usize)
                ==> r is None && final(self).done,
            !old(self).done && remaining_after(old(self).plan.limit, old(self).consumed) != Some(
                0usize,
            ) ==> !final(self).done,
            !old(self).done && remaining_after(old(self).plan.limit, old(self).consumed) != Some(
                0usize,
            ) ==> (r matches Some((q, n)) && n == chunk_limit(
                old(self).plan.limit,
                old(self).consumed,
                old(self).chunk_size,
            ) && q@ == plan_statement(
                old(self).plan,
                model_projection(old(self).plan),
                Some(chunk_limit(old(self).plan.limit, old(self).consumed, old(self).chunk_size)),
                if old(self).plan.offset + old(self).consumed <= usize::MAX {
                    (old(self).plan.offset + old(self).consumed) as usize
                } else {
                    usize::MAX
                },
            )),
    {
        if self.done {
            return None;
        }
        let remaining = self.plan.remaining_limit(self.consumed);
        if let Some(0) = remaining {
            self.done = true;
            return None;
        }
        let limit = match remaining {
            Some(r) => if r < self.chunk_size { r } else { self.chunk_size },
            None => self.chunk_size,
        };
        let q = self.plan.paged_query(limit, self.consumed);
        proof {
            match remaining_after(self.plan.limit, self.consumed) {
                Some(l) => {
                    if l < self.chunk_size {
                        assert(l < limit || l == limit);
                    }
                },
                None => {},
            }
        }
        Some((q, limit))
    }

    /// Records how many rows the chunk statement gave (`rows`, out of `asked`): no rows
    /// finishes the cursor and yields nothing; otherwise the rows are yielded and the
    /// cursor finishes once a chunk comes back short or the limit is used up.
    pub fn record(&mut self, rows: usize, asked: usize) -> (yield_chunk: bool)
        requires
            old(self).consumed + rows <= usize::MAX,
        ensures
            final(self).plan == old(self).plan,
            final(self).chunk_size == old(self).chunk_size,
            yield_chunk == (rows > 0),
            rows == 0 ==> final(self).done && final(self).consumed == old(self).consumed,
            rows > 0 ==> final(self).consumed == old(self).consumed + rows && final(self).done == (
            rows < asked || remaining_after(old(self).plan.limit, (old(self).consumed + rows) as usize)
                == Some(0usize)),
    {
        if rows == 0 {
            self.done = true;
            return false;
        }
        self.consumed = self.consumed + rows;
        let left = self.plan.remaining_limit(self.consumed);
        self.done = rows < asked || match left {
            Some(0) => true,
            _ => false,
        };
        true
    }
}

} // verus!
