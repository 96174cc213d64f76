//! Values bound to statement placeholders.

use vstd::prelude::*;

use crate::text::{hex_fixed, push_char, push_hex_fixed, push_signed_decimal, signed_decimal};

verus! {

/// A value stored in or compared against a SQLite column.
///
/// A floating-point value is carried by its IEEE-754 bit pattern.
#[derive(Debug, Clone, PartialEq, Eq)]
pub enum SqlValue {
    Null,
    Integer(i64),
    Real(u64),
    Text(String),
    Blob(Vec<u8>),
}

/// The mathematical content of a [`SqlValue`].
pub ghost enum SqlValueView {
    Null,
    Integer(i64),
    Real(u64),
    Text(Seq<char>),
    Blob(Seq<u8>),
}

impl View for SqlValue {
    type V = SqlValueView;

    open spec fn view(&self) -> SqlValueView {
        match self {
            SqlValue::Null => SqlValueView::Null,
            SqlValue::Integer(i) => SqlValueView::Integer(*i),
            SqlValue::Real(bits) => SqlValueView::Real(*bits),
            SqlValue::Text(t) => SqlValueView::Text(t@),
            SqlValue::Blob(b) => SqlValueView::Blob(b@),
        }
    }
}

/// The views of a sequence of values.
pub open spec fn values_view(values: Seq<SqlValue>) -> Seq<SqlValueView> {
    values.map_values(|v: SqlValue| v@)
}

impl SqlValue {
    /// A copy of this value.
    pub fn duplicate(&self) -> (r: SqlValue)
        ensures
            r@ == self@,
    {
        match self {
            SqlValue::Null => SqlValue::Null,
            SqlValue::Integer(i) => SqlValue::Integer(*i),
            SqlValue::Real(bits) => SqlValue::Real(*bits),
            SqlValue::Text(t) => SqlValue::Text(t.clone()),
            SqlValue::Blob(b) => {
                let c = b.clone();
                assert(c@ =~= b@);
                SqlValue::Blob(c)
            },
        }
    }
}

/// Text with each backslash doubled and each single quote doubled, inside single quotes.
pub open spec fn quoted_text(s: Seq<char>) -> Seq<char>
    decreases s.len(),
{
    if s.len() == 0 {
        Seq::empty()
    } else {
        quoted_text(s.drop_last()) + if s.last() == '\\' {
            seq!['\\', '\\']
        } else if s.last() == '\'' {
            seq!['\'', '\'']
        } else {
            seq![s.last()]
        }
    }
}

/// Each byte as two upper-case hexadecimal digits.
pub open spec fn hex_bytes(b: Seq<u8>) -> Seq<char>
    decreases b.len(),
{
    if b.len() == 0 {
        Seq::empty()
    } else {
        hex_bytes(b.drop_last()) + hex_fixed(b.last() as nat, 2, true)
    }
}

/// How a bound value is shown in the query log; `None` for a floating-point value,
/// whose decimal form the application renders.
pub open spec fn value_log_text(v: SqlValueView) -> Option<Seq<char>> {
    match v {
        SqlValueView::Null => Some("NULL"@),
        SqlValueView::Integer(i) => Some(signed_decimal(i as int)),
        SqlValueView::Real(_) => None,
        SqlValueView::Text(t) => Some(seq!['\''] + quoted_text(t) + seq!['\'']),
        SqlValueView::Blob(b) => Some(seq!['x', '\''] + hex_bytes(b) + seq!['\'']),
    }
}

/// Renders a bound value for the query log; `None` for a floating-point value.
pub fn render_value(value: &SqlValue) -> (r: Option<String>)
    ensures
        match value_log_text(value@) {
            Some(t) => r is Some && r->0@ == t,
            None => r is None,
        },
{
    match value {
        SqlValue::Null => Some(String::from_str("NULL")),
        SqlValue::Integer(i) => {
            let mut out = String::new();
            push_signed_decimal(&mut out, *i);
            assert(out@ =~= signed_decimal(*i as int));
            Some(out)
        },
        SqlValue::Real(_) => None,
        SqlValue::Text(t) => {
            let mut out = String::new();
            push_char(&mut out, '\'');
            let s = t.as_str();
            let n = s.unicode_len();
            let mut i: usize = 0;
            while i < n
                invariant
                    n == s@.len(),
                    s@ == t@,
                    i <= n,
                    out@ == seq!['\''] + quoted_text(s@.take(i as int)),
                decreases n - i,
            {
                let c = s.get_char(i);
                assert(s@.take(i + 1).drop_last() =~= s@.take(i as int));
                if c == '\\' {
                    push_char(&mut out, '\\');
                    push_char(&mut out, '\\');
                } else if c == '\'' {
                    push_char(&mut out, '\'');
                    push_char(&mut out, '\'');
                } else {
                    push_char(&mut out, c);
                }
                assert(out@ =~= seq!['\''] + quoted_text(s@.take(i + 1)));
                i = i + 1;
            }
            push_char(&mut out, '\'');
            assert(s@.take(n as int) =~= s@);
            Some(out)
        },
        SqlValue::Blob(b) => {
            let mut out = String::new();
            push_char(&mut out, 'x');
            push_char(&mut out, '\'');
            let mut i: usize = 0;
            while i < b.len()
                invariant
                    i <= b@.len(),
                    out@ == seq!['x', '\''] + hex_bytes(b@.take(i as int)),
                decreases b@.len() - i,
            {
                assert(b@.take(i + 1).drop_last() =~= b@.take(i as int));
                push_hex_fixed(&mut out, b[i] as u64, 2, true);
                assert(out@ =~= seq!['x', '\''] + hex_bytes(b@.take(i + 1)));
                i = i + 1;
            }
            push_char(&mut out, '\'');
            assert(b@.take(b@.len() as int) =~= b@);
            Some(out)
        },
    }
}

} // verus!
