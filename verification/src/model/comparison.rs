//! Predicates on one column and how they render into `WHERE` clauses.

use vstd::prelude::*;

use crate::error::Error;
use crate::sql::render::{placeholder_text, placeholders_text};
use crate::text::{decimal, push_decimal, joined, lemma_joined_step, lemma_take_all};

use super::sql_field::SqlField;
use super::value::{values_view, SqlValue, SqlValueView};

verus! {

/// A value that can appear on the right-hand side of a [`Comparison`].
pub trait ComparisonOperand: Sized {
    /// The operand this value stands for; `None` stands for SQL `NULL`.
    spec fn operand(&self) -> Option<SqlValueView>;

    /// Converts the value into an owned SQLite comparison value.
    fn into_sql_value(self) -> (r: Option<SqlValue>)
        ensures
            match r {
                Some(v) => self.operand() == Some(v@),
                None => self.operand() is None,
            },
    ;
}

impl<T: SqlField> ComparisonOperand for T {
    open spec fn operand(&self) -> Option<SqlValueView> {
        self.operand_value()
    }

    fn into_sql_value(self) -> (r: Option<SqlValue>) {
        self.into_sql_comparison_value()
    }
}

impl ComparisonOperand for &str {
    open spec fn operand(&self) -> Option<SqlValueView> {
        Some(SqlValueView::Text((*self)@))
    }

    fn into_sql_value(self) -> (r: Option<SqlValue>) {
        Some(SqlValue::Text(String::from_str(self)))
    }
}

/// The comparison operators.
#[derive(Debug, Clone, Copy, PartialEq, Eq, Structural)]
pub enum ComparisonOperator {
    Eq,
    Ne,
    Gt,
    Gte,
    Lt,
    Lte,
    In,
    IsNull,
    IsNotNull,
}

/// The operator's name as written in the query API.
pub open spec fn operator_name(op: ComparisonOperator) -> Seq<char> {
    match op {
        ComparisonOperator::Eq => "Eq"@,
        ComparisonOperator::Ne => "Ne"@,
        ComparisonOperator::Gt => "Gt"@,
        ComparisonOperator::Gte => "Gte"@,
        ComparisonOperator::Lt => "Lt"@,
        ComparisonOperator::Lte => "Lte"@,
        ComparisonOperator::In => "In"@,
        ComparisonOperator::IsNull => "IsNull"@,
        ComparisonOperator::IsNotNull => "IsNotNull"@,
    }
}

impl ComparisonOperator {
    /// The operator's name as written in the query API.
    pub fn as_str(self) -> (r: &'static str)
        ensures
            r@ == operator_name(self),
    {
        match self {
            ComparisonOperator::Eq => "Eq",
            ComparisonOperator::Ne => "Ne",
            ComparisonOperator::Gt => "Gt",
            ComparisonOperator::Gte => "Gte",
            ComparisonOperator::Lt => "Lt",
            ComparisonOperator::Lte => "Lte",
            ComparisonOperator::In => "In",
            ComparisonOperator::IsNull => "IsNull",
            ComparisonOperator::IsNotNull => "IsNotNull",
        }
    }
}

/// The right-hand side of a comparison.
#[derive(Debug, Clone)]
pub enum ComparisonValue {
    /// One operand; `None` is SQL `NULL`.
    Single(Option<SqlValue>),
    /// A list of operands, for `IN`.
    Many(Vec<SqlValue>),
}

/// The mathematical content of a [`ComparisonValue`].
pub ghost enum OperandView {
    Single(Option<SqlValueView>),
    Many(Seq<SqlValueView>),
}

/// The view of an optional value.
pub open spec fn opt_value_view(v: Option<SqlValue>) -> Option<SqlValueView> {
    match v {
        Some(x) => Some(x@),
        None => None,
    }
}

impl View for ComparisonValue {
    type V = OperandView;

    open spec fn view(&self) -> OperandView {
        match self {
            ComparisonValue::Single(v) => OperandView::Single(opt_value_view(*v)),
            ComparisonValue::Many(vs) => OperandView::Many(values_view(vs@)),
        }
    }
}

/// A comparison used in query predicates.
///
/// `Comparison::Eq(None::<T>)` becomes `IS NULL`, and `Comparison::Ne(None::<T>)`
/// becomes `IS NOT NULL`. Prefer [`Comparison::IsNull`] and [`Comparison::IsNotNull`].
#[derive(Debug, Clone)]
pub struct Comparison {
    pub operator: ComparisonOperator,
    pub value: ComparisonValue,
}

/// The operands of `values` that are not `NULL`, in order.
pub open spec fn present_operands<T: ComparisonOperand>(values: Seq<T>) -> Seq<SqlValueView>
    decreases values.len(),
{
    if values.len() == 0 {
        Seq::empty()
    } else {
        present_operands(values.drop_last()) + match values.last().operand() {
            Some(v) => seq![v],
            None => Seq::empty(),
        }
    }
}

impl Comparison {
    fn with_value<T: ComparisonOperand>(operator: ComparisonOperator, value: T) -> (r: Self)
        ensures
            r.operator == operator,
            r.value@ == OperandView::Single(value.operand()),
    {
        let v = value.into_sql_value();
        let r = Comparison { operator, value: ComparisonValue::Single(v) };
        r
    }

    /// Creates an equality comparison.
    #[allow(non_snake_case)]
    pub fn Eq<T: ComparisonOperand>(value: T) -> (r: Self)
        ensures
            r.operator == ComparisonOperator::Eq,
            r.value@ == OperandView::Single(value.operand()),
    {
        Self::with_value(ComparisonOperator::Eq, value)
    }

    /// Creates an inequality comparison.
    #[allow(non_snake_case)]
    pub fn Ne<T: ComparisonOperand>(value: T) -> (r: Self)
        ensures
            r.operator == ComparisonOperator::Ne,
            r.value@ == OperandView::Single(value.operand()),
    {
        Self::with_value(ComparisonOperator::Ne, value)
    }

    /// Creates a greater-than comparison.
    #[allow(non_snake_case)]
    pub fn Gt<T: ComparisonOperand>(value: T) -> (r: Self)
        ensures
            r.operator == ComparisonOperator::Gt,
            r.value@ == OperandView::Single(value.operand()),
    {
        Self::with_value(ComparisonOperator::Gt, value)
    }

    /// Creates a greater-than-or-equal comparison.
    #[allow(non_snake_case)]
    pub fn Gte<T: ComparisonOperand>(value: T) -> (r: Self)
        ensures
            r.operator == ComparisonOperator::Gte,
            r.value@ == OperandView::Single(value.operand()),
    {
        Self::with_value(ComparisonOperator::Gte, value)
    }

    /// Creates a less-than comparison.
    #[allow(non_snake_case)]
    pub fn Lt<T: ComparisonOperand>(value: T) -> (r: Self)
        ensures
            r.operator == ComparisonOperator::Lt,
            r.value@ == OperandView::Single(value.operand()),
    {
        Self::with_value(ComparisonOperator::Lt, value)
    }

    /// Creates a less-than-or-equal comparison.
    #[allow(non_snake_case)]
    pub fn Lte<T: ComparisonOperand>(value: T) -> (r: Self)
        ensures
            r.operator == ComparisonOperator::Lte,
            r.value@ == OperandView::Single(value.operand()),
    {
        Self::with_value(ComparisonOperator::Lte, value)
    }

    /// Creates an `IN (...)` comparison; `NULL` operands are left out.
    #[allow(non_snake_case)]
    pub fn In<T: ComparisonOperand>(values: Vec<T>) -> (r: Self)
        ensures
            r.operator == ComparisonOperator::In,
            r.value@ == OperandView::Many(present_operands(values@)),
    {
        let ghost given = values@;
        let n = values.len();
        let mut rest = values;
        let mut kept: Vec<SqlValue> = Vec::new();
        let mut k: usize = 0;
        while rest.len() > 0
            invariant
                k + rest@.len() == given.len(),
                given.len() == n,
                rest@ == given.skip(k as int),
                values_view(kept@) == present_operands(given.take(k as int)),
            decreases rest@.len(),
        {
            let v = rest.remove(0);
            assert(given.take(k + 1).drop_last() =~= given.take(k as int));
            assert(given.take(k + 1).last() == v);
            if let Some(x) = v.into_sql_value() {
                kept.push(x);
            }
            assert(values_view(kept@) =~= present_operands(given.take(k + 1)));
            assert(rest@ =~= given.skip(k + 1));
            k = k + 1;
        }
        assert(given.take(k as int) =~= given);
        Comparison { operator: ComparisonOperator::In, value: ComparisonValue::Many(kept) }
    }

    /// Tests whether a column is `NULL`.
    #[allow(non_snake_case)]
    pub fn IsNull() -> (r: Self)
        ensures
            r.operator == ComparisonOperator::IsNull,
            r.value@ == OperandView::Single(None),
    {
        Comparison { operator: ComparisonOperator::IsNull, value: ComparisonValue::Single(None) }
    }

    /// Tests whether a column is not `NULL`.
    #[allow(non_snake_case)]
    pub fn IsNotNull() -> (r: Self)
        ensures
            r.operator == ComparisonOperator::IsNotNull,
            r.value@ == OperandView::Single(None),
    {
        Comparison {
            operator: ComparisonOperator::IsNotNull,
            value: ComparisonValue::Single(None),
        }
    }

    /// The comparison ready to be rendered.
    pub fn into_prepared(self) -> (r: Self)
        ensures
            r == self,
    {
        self
    }
}

/// What rendering a predicate gives: the clause text with the values it binds, or the
/// message of the query error.
pub ghost enum ClauseOutcome {
    Rendered(Seq<char>, Seq<SqlValueView>),
    Rejected(Seq<char>),
}

/// The binary operator symbol of a single-operand comparison.
pub open spec fn operator_symbol(op: ComparisonOperator) -> Seq<char> {
    match op {
        ComparisonOperator::Eq => "="@,
        ComparisonOperator::Ne => "!="@,
        ComparisonOperator::Gt => ">"@,
        ComparisonOperator::Gte => ">="@,
        ComparisonOperator::Lt => "<"@,
        ComparisonOperator::Lte => "<="@,
        _ => Seq::empty(),
    }
}

/// A comparison with one value renders as the column, the operator's own SQL symbol and
/// the next placeholder, and binds that value: `=`, `!=`, `>`, `>=`, the strict `<`, and
/// `<=`.
pub proof fn lemma_binary_operators_render(column: Seq<char>, v: SqlValueView, bound: nat)
    ensures
        comparison_outcome(ComparisonOperator::Eq, OperandView::Single(Some(v)), column, bound)
            == ClauseOutcome::Rendered(column + " = ?"@ + decimal(bound + 1), seq![v]),
        comparison_outcome(ComparisonOperator::Ne, OperandView::Single(Some(v)), column, bound)
            == ClauseOutcome::Rendered(column + " != ?"@ + decimal(bound + 1), seq![v]),
        comparison_outcome(ComparisonOperator::Gt, OperandView::Single(Some(v)), column, bound)
            == ClauseOutcome::Rendered(column + " > ?"@ + decimal(bound + 1), seq![v]),
        comparison_outcome(ComparisonOperator::Gte, OperandView::Single(Some(v)), column, bound)
            == ClauseOutcome::Rendered(column + " >= ?"@ + decimal(bound + 1), seq![v]),
        comparison_outcome(ComparisonOperator::Lt, OperandView::Single(Some(v)), column, bound)
            == ClauseOutcome::Rendered(column + " < ?"@ + decimal(bound + 1), seq![v]),
        comparison_outcome(ComparisonOperator::Lte, OperandView::Single(Some(v)), column, bound)
            == ClauseOutcome::Rendered(column + " <= ?"@ + decimal(bound + 1), seq![v]),
{
    reveal_strlit(" ");
    reveal_strlit("?");
    reveal_strlit("=");
    reveal_strlit("!=");
    reveal_strlit(">");
    reveal_strlit(">=");
    reveal_strlit("<");
    reveal_strlit("<=");
    reveal_strlit(" = ?");
    reveal_strlit(" != ?");
    reveal_strlit(" > ?");
    reveal_strlit(" >= ?");
    reveal_strlit(" < ?");
    reveal_strlit(" <= ?");
    let d = decimal(bound + 1);
    assert(column + " "@ + "="@ + " "@ + "?"@ + d =~= column + " = ?"@ + d);
    assert(column + " "@ + "!="@ + " "@ + "?"@ + d =~= column + " != ?"@ + d);
    assert(column + " "@ + ">"@ + " "@ + "?"@ + d =~= column + " > ?"@ + d);
    assert(column + " "@ + ">="@ + " "@ + "?"@ + d =~= column + " >= ?"@ + d);
    assert(column + " "@ + "<"@ + " "@ + "?"@ + d =~= column + " < ?"@ + d);
    assert(column + " "@ + "<="@ + " "@ + "?"@ + d =~= column + " <= ?"@ + d);
}

/// `NULL` is tested with `IS NULL` (for `Eq` and `IsNull`) and `IS NOT NULL` (for `Ne` and
/// `IsNotNull`), binding nothing; an empty `IN` list matches no row.
pub proof fn lemma_null_and_empty_list_render(column: Seq<char>, bound: nat)
    ensures
        comparison_outcome(ComparisonOperator::Eq, OperandView::Single(None), column, bound)
            == ClauseOutcome::Rendered(column + " IS NULL"@, Seq::<SqlValueView>::empty()),
        comparison_outcome(ComparisonOperator::IsNull, OperandView::Single(None), column, bound)
            == ClauseOutcome::Rendered(column + " IS NULL"@, Seq::<SqlValueView>::empty()),
        comparison_outcome(ComparisonOperator::Ne, OperandView::Single(None), column, bound)
            == ClauseOutcome::Rendered(column + " IS NOT NULL"@, Seq::<SqlValueView>::empty()),
        comparison_outcome(ComparisonOperator::IsNotNull, OperandView::Single(None), column, bound)
            == ClauseOutcome::Rendered(column + " IS NOT NULL"@, Seq::<SqlValueView>::empty()),
        comparison_outcome(ComparisonOperator::In, OperandView::Many(Seq::empty()), column, bound)
            == ClauseOutcome::Rendered("0 = 1"@, Seq::<SqlValueView>::empty()),
{
}

/// Renders a comparison on `column`, numbering placeholders after `bound` earlier values.
pub open spec fn comparison_outcome(
    op: ComparisonOperator,
    value: OperandView,
    column: Seq<char>,
    bound: nat,
) -> ClauseOutcome {
    match (op, value) {
        (ComparisonOperator::Eq, OperandView::Single(None))
        | (ComparisonOperator::IsNull, OperandView::Single(_)) => ClauseOutcome::Rendered(
            column + " IS NULL"@,
            Seq::empty(),
        ),
        (ComparisonOperator::Ne, OperandView::Single(None))
        | (ComparisonOperator::IsNotNull, OperandView::Single(_)) => ClauseOutcome::Rendered(
            column + " IS NOT NULL"@,
            Seq::empty(),
        ),
        (ComparisonOperator::Eq, OperandView::Single(Some(v)))
        | (ComparisonOperator::Ne, OperandView::Single(Some(v)))
        | (ComparisonOperator::Gt, OperandView::Single(Some(v)))
        | (ComparisonOperator::Gte, OperandView::Single(Some(v)))
        | (ComparisonOperator::Lt, OperandView::Single(Some(v)))
        | (ComparisonOperator::Lte, OperandView::Single(Some(v))) => ClauseOutcome::Rendered(
            column + " "@ + operator_symbol(op) + " "@ + "?"@ + decimal(bound + 1),
            seq![v],
        ),
        (ComparisonOperator::In, OperandView::Many(vs)) => if vs.len() == 0 {
            ClauseOutcome::Rendered("0 = 1"@, Seq::empty())
        } else {
            ClauseOutcome::Rendered(
                column + " IN ("@ + placeholders_text(vs.len(), bound + 1) + ")"@,
                vs,
            )
        },
        (_, OperandView::Single(None)) => ClauseOutcome::Rejected(
            operator_name(op) + " comparisons do not support NULL"@,
        ),
        (_, OperandView::Single(Some(_))) => ClauseOutcome::Rejected(
            operator_name(op) + " comparisons do not support this value shape"@,
        ),
        (_, OperandView::Many(_)) => ClauseOutcome::Rejected(
            operator_name(op) + " comparisons do not support list values here"@,
        ),
    }
}

/// The result of rendering meets the outcome: the text and the bound values on
/// success, the query error with its message and untouched values on rejection.
pub open spec fn meets_outcome(
    outcome: ClauseOutcome,
    r: Result<String, Error>,
    before: Seq<SqlValue>,
    after: Seq<SqlValue>,
) -> bool {
    match outcome {
        ClauseOutcome::Rendered(text, pushed) => {
            &&& r is Ok
            &&& r->Ok_0@ == text
            &&& values_view(after) =~= values_view(before) + pushed
        },
        ClauseOutcome::Rejected(message) => {
            &&& r is Err
            &&& r->Err_0 matches Error::InvalidQuery(m) && m@ == message
            &&& after == before
        },
    }
}

fn push_placeholder(params: &mut Vec<SqlValue>, value: SqlValue, out: &mut String)
    requires
        old(params)@.len() < usize::MAX,
    ensures
        final(params)@ == old(params)@.push(value),
        final(out)@ == old(out)@ + "?"@ + decimal(old(params)@.len() + 1),
{
    let index = params.len() as u128 + 1;
    params.push(value);
    out.append("?");
    push_decimal(out, index);
}

fn rejection(op: ComparisonOperator, tail: &str) -> (e: Error)
    ensures
        e matches Error::InvalidQuery(m) && m@ == operator_name(op) + tail@,
{
    let mut m = String::from_str(op.as_str());
    m.append(tail);
    Error::InvalidQuery(m)
}

impl Comparison {
    /// Renders this comparison on `column`, appending the values it binds to `params`.
    pub fn into_clause(self, column: &str, params: &mut Vec<SqlValue>) -> (r: Result<
        String,
        Error,
    >)
        requires
            old(params)@.len() + (match self.value@ {
                OperandView::Many(vs) => vs.len(),
                OperandView::Single(_) => 1,
            }) < usize::MAX,
        ensures
            meets_outcome(
                comparison_outcome(self.operator, self.value@, column@, old(params)@.len()),
                r,
                old(params)@,
                final(params)@,
            ),
    {
        let ghost before = params@;
        let op = self.operator;
        match self.value {
            ComparisonValue::Single(None) => {
                match op {
                    ComparisonOperator::Eq | ComparisonOperator::IsNull => {
                        let mut out = String::from_str(column);
                        out.append(" IS NULL");
                        assert(values_view(before) + Seq::<SqlValueView>::empty() =~= values_view(before));
                        Ok(out)
                    },
                    ComparisonOperator::Ne | ComparisonOperator::IsNotNull => {
                        let mut out = String::from_str(column);
                        out.append(" IS NOT NULL");
                        assert(values_view(before) + Seq::<SqlValueView>::empty() =~= values_view(before));
                        Ok(out)
                    },
                    _ => Err(rejection(op, " comparisons do not support NULL")),
                }
            },
            ComparisonValue::Single(Some(value)) => {
                let symbol: &str = match op {
                    ComparisonOperator::IsNull => {
                        let mut out = String::from_str(column);
                        out.append(" IS NULL");
                        return Ok(out);
                    },
                    ComparisonOperator::IsNotNull => {
                        let mut out = String::from_str(column);
                        out.append(" IS NOT NULL");
                        return Ok(out);
                    },
                    ComparisonOperator::In => {
                        return Err(rejection(op, " comparisons do not support this value shape"));
                    },
                    ComparisonOperator::Eq => "=",
                    ComparisonOperator::Ne => "!=",
                    ComparisonOperator::Gt => ">",
                    ComparisonOperator::Gte => ">=",
                    ComparisonOperator::Lt => "<",
                    ComparisonOperator::Lte => "<=",
                };
                let ghost v = value@;
                let mut out = String::from_str(column);
                out.append(" ");
                out.append(symbol);
                out.append(" ");
                push_placeholder(params, value, &mut out);
                assert(values_view(params@) =~= values_view(before) + seq![v]);
                Ok(out)
            },
            ComparisonValue::Many(values) => {
                if op != ComparisonOperator::In {
                    return Err(rejection(op, " comparisons do not support list values here"));
                }
                if values.len() == 0 {
                    assert(values_view(before) + Seq::<SqlValueView>::empty() =~= values_view(before));
                    return Ok(String::from_str("0 = 1"));
                }
                let ghost vs = values_view(values@);
                let ghost start = before.len() + 1;
                let ghost parts = Seq::new(
                    values@.len(),
                    |i: int| "?"@ + decimal((start + i) as nat),
                );
                let mut marks = String::new();
                let mut rest = values;
                let mut k: usize = 0;
                let ghost all = rest@;
                while rest.len() > 0
                    invariant
                        k + rest@.len() == all.len(),
                        rest@ == all.skip(k as int),
                        parts.len() == all.len(),
                        parts == Seq::new(all.len(), |i: int| "?"@ + decimal((start + i) as nat)),
                        start == before.len() + 1,
                        params@.len() == before.len() + k,
                        values_view(params@) == values_view(before) + values_view(all.take(k as int)),
                        marks@ == joined(parts.take(k as int), ", "@),
                        before.len() + all.len() < usize::MAX,
                    decreases rest@.len(),
                {
                    proof {
                        lemma_joined_step(parts, k as int, ", "@);
                    }
                    let v = rest.remove(0);
                    let ghost gv = v;
                    let ghost prev = params@;
                    if k > 0 {
                        marks.append(", ");
                    }
                    push_placeholder(params, v, &mut marks);
                    assert(all.take(k + 1) =~= all.take(k as int).push(gv));
                    assert(values_view(all.take(k as int).push(gv)) =~= values_view(all.take(k as int)).push(gv@));
                    assert(values_view(prev.push(gv)) =~= values_view(prev).push(gv@));
                    assert(values_view(params@) =~= values_view(before) + values_view(all.take(k + 1)));
                    assert(rest@ =~= all.skip(k + 1));
                    k = k + 1;
                }
                proof {
                    lemma_take_all(parts);
                    assert(all.take(k as int) =~= all);
                    assert(parts =~= Seq::new(
                        all.len(),
                        |i: int| placeholder_text((start + i) as nat),
                    ));
                    assert(marks@ == placeholders_text(all.len(), start as nat));
                }
                let mut out = String::from_str(column);
                out.append(" IN (");
                out.append(marks.as_str());
                out.append(")");
                Ok(out)
            },
        }
    }
}

} // verus!
