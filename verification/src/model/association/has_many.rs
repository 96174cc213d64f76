//! Queries scoped to a reverse association: the children of one parent record.

use vstd::prelude::*;

use crate::error::Error;
use crate::model::query::{
    expression_outcome, operand_count, plan_for_model, plan_matches, ExpressionOutcome, Order, Query, QueryExpression,
    QueryPlan,
};
use crate::model::value::SqlValueView;
use crate::model::PersistedModel;

verus! {

/// Child-side metadata shared by all reverse associations for a model.
pub trait HasManyChild: PersistedModel + Sized {
    /// The generated builder that creates a child record.
    type Builder;
}

/// A query value scoped to a reverse association.
///
/// The scope is the query that selects the parent's children (or why it could not be
/// made); filters added later are combined among themselves and then joined to the
/// scope with `AND`, so the parent constraint applies to every execution.
pub struct HasManyQuery<Child: HasManyChild> {
    pub scope: Result<Query<Child>, Error>,
    pub filters: Option<Query<Child>>,
}

/// The filter that a scoped query runs: the scope's, and the added filters when there are
/// any.
pub open spec fn scoped_expression(scope: QueryExpression, filters: Option<QueryExpression>) -> QueryExpression {
    match filters {
        Some(f) => QueryExpression::And(Box::new(scope), Box::new(f)),
        None => scope,
    }
}

/// A scoped query never drops the parent's constraint. When the scope renders the clause
/// `st` with the values `sp`, the scoped filter with added filters renders
/// `(st) AND (ft)`, binding `sp` and then the filters' values (the filters' clause `ft` is
/// numbered after the scope's values); it renders `st` alone when the added filters render
/// no clause, and the filters' refusal when they are refused. Without added filters it is
/// the scope's filter.
pub proof fn lemma_scope_always_applies(
    scope: QueryExpression,
    filters: QueryExpression,
    st: Seq<char>,
    sp: Seq<SqlValueView>,
)
    requires
        expression_outcome(scope, 0) == ExpressionOutcome::Rendered(Some(st), sp),
    ensures
        match expression_outcome(filters, sp.len()) {
            ExpressionOutcome::Rendered(Some(ft), fp) => expression_outcome(
                scoped_expression(scope, Some(filters)),
                0,
            ) == ExpressionOutcome::Rendered(Some("("@ + st + ") AND ("@ + ft + ")"@), sp + fp),
            ExpressionOutcome::Rendered(None, fp) => expression_outcome(
                scoped_expression(scope, Some(filters)),
                0,
            ) == ExpressionOutcome::Rendered(Some(st), sp + fp),
            ExpressionOutcome::Rejected(m, fp) => expression_outcome(
                scoped_expression(scope, Some(filters)),
                0,
            ) == ExpressionOutcome::Rejected(m, sp + fp),
        },
        expression_outcome(scoped_expression(scope, None), 0) == expression_outcome(scope, 0),
{
    reveal_strlit("(");
    reveal_strlit(") ");
    reveal_strlit("AND");
    reveal_strlit(" (");
    reveal_strlit(")");
    reveal_strlit(") AND (");
    match expression_outcome(filters, sp.len()) {
        ExpressionOutcome::Rendered(Some(ft), fp) => {
            assert("("@ + st + ") "@ + "AND"@ + " ("@ + ft + ")"@ =~= "("@ + st + ") AND ("@ + ft + ")"@);
        },
        _ => {},
    }
}

impl<Child: HasManyChild> HasManyQuery<Child> {
    /// A query for the children that `scope` selects, without added filters.
    pub fn new(scope: Result<Query<Child>, Error>) -> (r: Self)
        ensures
            r.scope == scope,
            r.filters is None,
    {
        HasManyQuery { scope, filters: None }
    }

    /// Adds a filter combined with the earlier ones using `AND`.
    pub fn and_query(self, other: Query<Child>) -> (r: Self)
        ensures
            r.scope == self.scope,
            match self.filters {
                Some(f) => r.filters matches Some(g) && g.expression == QueryExpression::And(
                    Box::new(f.expression),
                    Box::new(other.expression),
                ) && g.ordering@ == f.ordering@ && g.limit == f.limit && g.offset == f.offset,
                None => r.filters == Some(other),
            },
    {
        let filters = match self.filters {
            Some(f) => f.and(other),
            None => other,
        };
        HasManyQuery { scope: self.scope, filters: Some(filters) }
    }

    /// Adds a filter combined with the earlier ones using `OR`; the parent constraint
    /// still applies to the combination.
    pub fn or_query(self, other: Query<Child>) -> (r: Self)
        ensures
            r.scope == self.scope,
            match self.filters {
                Some(f) => r.filters matches Some(g) && g.expression == QueryExpression::Or(
                    Box::new(f.expression),
                    Box::new(other.expression),
                ) && g.ordering@ == f.ordering@ && g.limit == f.limit && g.offset == f.offset,
                None => r.filters == Some(other),
            },
    {
        let filters = match self.filters {
            Some(f) => f.or(other),
            None => other,
        };
        HasManyQuery { scope: self.scope, filters: Some(filters) }
    }

    /// Adds ordering terms to the scope.
    pub fn order_query(self, order: Order) -> (r: Self)
        ensures
            r.filters == self.filters,
            match self.scope {
                Ok(s) => r.scope matches Ok(t) && t.expression == s.expression && t.ordering@
                    == s.ordering@ + order.terms@ && t.limit == s.limit && t.offset == s.offset,
                Err(e) => r.scope == Err::<Query<Child>, Error>(e),
            },
    {
        let scope = match self.scope {
            Ok(s) => Ok(s.order(order)),
            Err(e) => Err(e),
        };
        HasManyQuery { scope, filters: self.filters }
    }

    /// Limits the scope to `limit` rows.
    pub fn limit_query(self, limit: usize) -> (r: Self)
        ensures
            r.filters == self.filters,
            match self.scope {
                Ok(s) => r.scope matches Ok(t) && t.expression == s.expression && t.ordering@
                    == s.ordering@ && t.limit == Some(limit) && t.offset == s.offset,
                Err(e) => r.scope == Err::<Query<Child>, Error>(e),
            },
    {
        let scope = match self.scope {
            Ok(s) => Ok(s.limit(limit)),
            Err(e) => Err(e),
        };
        HasManyQuery { scope, filters: self.filters }
    }

    /// Skips the first `offset` rows of the scope.
    pub fn offset_query(self, offset: usize) -> (r: Self)
        ensures
            r.filters == self.filters,
            match self.scope {
                Ok(s) => r.scope matches Ok(t) && t.expression == s.expression && t.ordering@
                    == s.ordering@ && t.limit == s.limit && t.offset == offset,
                Err(e) => r.scope == Err::<Query<Child>, Error>(e),
            },
    {
        let scope = match self.scope {
            Ok(s) => Ok(s.offset(offset)),
            Err(e) => Err(e),
        };
        HasManyQuery { scope, filters: self.filters }
    }

    /// The statement plan of this query: the scope's filter joined with the added filters
    /// by `AND`, with the scope's ordering and paging; a scope that could not be made is
    /// the error.
    pub fn into_query_plan(self) -> (r: Result<QueryPlan, Error>)
        requires
            self.scope is Ok ==> operand_count(
                scoped_expression(
                    self.scope->Ok_0.expression,
                    match self.filters {
                        Some(f) => Some(f.expression),
                        None => None,
                    },
                ),
            ) < usize::MAX,
        ensures
            match self.scope {
                Err(e) => r == Err::<QueryPlan, Error>(e),
                Ok(s) => plan_matches(
                    r,
                    scoped_expression(
                        s.expression,
                        match self.filters {
                            Some(f) => Some(f.expression),
                            None => None,
                        },
                    ),
                    s.ordering@,
                    s.limit,
                    s.offset,
                ) && (r matches Ok(plan) ==> plan_for_model::<Child>(plan)),
            },
    {
        let scope = match self.scope {
            Ok(s) => s,
            Err(e) => {
                return Err(e);
            },
        };
        let query = match self.filters {
            Some(f) => scope.and(f),
            None => scope,
        };
        query.into_query_plan()
    }
}

} // verus!
