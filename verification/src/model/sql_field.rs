//! How Rust field types are stored in SQLite columns.

use vstd::prelude::*;

use super::value::{SqlValue, SqlValueView};
use super::ColumnDef;

verus! {

/// Describes how a Rust type is stored in SQLite.
///
/// Implementations are provided for the integer types, `bool`, `String`,
/// [`SqlValue`] and `Option<T>`.
pub trait SqlField: Sized {
    /// The SQLite type used when creating columns of this field type.
    const SQL_TYPE: &'static str;
    /// Whether values of this type may be stored as `NULL`.
    const NULLABLE: bool;

    /// The stored value of this field. Implementations outside verified code may leave
    /// the default, which says nothing about the value.
    closed spec fn stored_value(&self) -> SqlValueView {
        vstd::pervasive::arbitrary()
    }

    /// The comparison operand of this field; `None` stands for SQL `NULL`.
    /// Implementations outside verified code may leave the default, which says nothing
    /// about the operand.
    closed spec fn operand_value(&self) -> Option<SqlValueView> {
        vstd::pervasive::arbitrary()
    }

    /// Converts the Rust value into a SQLite value for inserts and updates.
    fn to_sql_value(&self) -> (r: SqlValue)
        ensures
            r@ == self.stored_value(),
    ;

    /// Converts the value into a comparison operand.
    fn into_sql_comparison_value(self) -> (r: Option<SqlValue>)
        ensures
            match r {
                Some(v) => self.operand_value() == Some(v@),
                None => self.operand_value() is None,
            },
    ;
}

/// Column metadata for a field of type `T` stored under `name`.
pub fn column<T: SqlField>(name: &'static str) -> (c: ColumnDef)
    ensures
        c.name == name,
        c.sql_type == T::SQL_TYPE,
        c.nullable == T::NULLABLE,
{
    ColumnDef { name, sql_type: T::SQL_TYPE, nullable: T::NULLABLE }
}

impl SqlField for i64 {
    const SQL_TYPE: &'static str = "INTEGER";
    const NULLABLE: bool = false;

    open spec fn stored_value(&self) -> SqlValueView {
        SqlValueView::Integer(*self)
    }

    open spec fn operand_value(&self) -> Option<SqlValueView> {
        Some(SqlValueView::Integer(*self))
    }

    fn to_sql_value(&self) -> (r: SqlValue) {
        SqlValue::Integer(*self)
    }

    fn into_sql_comparison_value(self) -> (r: Option<SqlValue>) {
        Some(SqlValue::Integer(self))
    }
}

impl SqlField for i32 {
    const SQL_TYPE: &'static str = "INTEGER";
    const NULLABLE: bool = false;

    open spec fn stored_value(&self) -> SqlValueView {
        SqlValueView::Integer(*self as i64)
    }

    open spec fn operand_value(&self) -> Option<SqlValueView> {
        Some(SqlValueView::Integer(*self as i64))
    }

    fn to_sql_value(&self) -> (r: SqlValue) {
        SqlValue::Integer(*self as i64)
    }

    fn into_sql_comparison_value(self) -> (r: Option<SqlValue>) {
        Some(SqlValue::Integer(self as i64))
    }
}

impl SqlField for i16 {
    const SQL_TYPE: &'static str = "INTEGER";
    const NULLABLE: bool = false;

    open spec fn stored_value(&self) -> SqlValueView {
        SqlValueView::Integer(*self as i64)
    }

    open spec fn operand_value(&self) -> Option<SqlValueView> {
        Some(SqlValueView::Integer(*self as i64))
    }

    fn to_sql_value(&self) -> (r: SqlValue) {
        SqlValue::Integer(*self as i64)
    }

    fn into_sql_comparison_value(self) -> (r: Option<SqlValue>) {
        Some(SqlValue::Integer(self as i64))
    }
}

impl SqlField for i8 {
    const SQL_TYPE: &'static str = "INTEGER";
    const NULLABLE: bool = false;

    open spec fn stored_value(&self) -> SqlValueView {
        SqlValueView::Integer(*self as i64)
    }

    open spec fn operand_value(&self) -> Option<SqlValueView> {
        Some(SqlValueView::Integer(*self as i64))
    }

    fn to_sql_value(&self) -> (r: SqlValue) {
        SqlValue::Integer(*self as i64)
    }

    fn into_sql_comparison_value(self) -> (r: Option<SqlValue>) {
        Some(SqlValue::Integer(self as i64))
    }
}

impl SqlField for u32 {
    const SQL_TYPE: &'static str = "INTEGER";
    const NULLABLE: bool = false;

    open spec fn stored_value(&self) -> SqlValueView {
        SqlValueView::Integer(*self as i64)
    }

    open spec fn operand_value(&self) -> Option<SqlValueView> {
        Some(SqlValueView::Integer(*self as i64))
    }

    fn to_sql_value(&self) -> (r: SqlValue) {
        SqlValue::Integer(*self as i64)
    }

    fn into_sql_comparison_value(self) -> (r: Option<SqlValue>) {
        Some(SqlValue::Integer(self as i64))
    }
}

impl SqlField for u16 {
    const SQL_TYPE: &'static str = "INTEGER";
    const NULLABLE: bool = false;

    open spec fn stored_value(&self) -> SqlValueView {
        SqlValueView::Integer(*self as i64)
    }

    open spec fn operand_value(&self) -> Option<SqlValueView> {
        Some(SqlValueView::Integer(*self as i64))
    }

    fn to_sql_value(&self) -> (r: SqlValue) {
        SqlValue::Integer(*self as i64)
    }

    fn into_sql_comparison_value(self) -> (r: Option<SqlValue>) {
        Some(SqlValue::Integer(self as i64))
    }
}

impl SqlField for u8 {
    const SQL_TYPE: &'static str = "INTEGER";
    const NULLABLE: bool = false;

    open spec fn stored_value(&self) -> SqlValueView {
        SqlValueView::Integer(*self as i64)
    }

    open spec fn operand_value(&self) -> Option<SqlValueView> {
        Some(SqlValueView::Integer(*self as i64))
    }

    fn to_sql_value(&self) -> (r: SqlValue) {
        SqlValue::Integer(*self as i64)
    }

    fn into_sql_comparison_value(self) -> (r: Option<SqlValue>) {
        Some(SqlValue::Integer(self as i64))
    }
}

/// A `u64` is stored in SQLite's signed 64-bit integer; values above `i64::MAX`
/// wrap to negative numbers, as the two's-complement reinterpretation does.
impl SqlField for u64 {
    const SQL_TYPE: &'static str = "INTEGER";
    const NULLABLE: bool = false;

    open spec fn stored_value(&self) -> SqlValueView {
        SqlValueView::Integer(*self as i64)
    }

    open spec fn operand_value(&self) -> Option<SqlValueView> {
        Some(SqlValueView::Integer(*self as i64))
    }

    fn to_sql_value(&self) -> (r: SqlValue) {
        SqlValue::Integer(*self as i64)
    }

    fn into_sql_comparison_value(self) -> (r: Option<SqlValue>) {
        Some(SqlValue::Integer(self as i64))
    }
}

/// Booleans are stored as `0` and `1`.
impl SqlField for bool {
    const SQL_TYPE: &'static str = "INTEGER";
    const NULLABLE: bool = false;

    open spec fn stored_value(&self) -> SqlValueView {
        SqlValueView::Integer(if *self { 1 } else { 0 })
    }

    open spec fn operand_value(&self) -> Option<SqlValueView> {
        Some(SqlValueView::Integer(if *self { 1 } else { 0 }))
    }

    fn to_sql_value(&self) -> (r: SqlValue) {
        SqlValue::Integer(if *self { 1 } else { 0 })
    }

    fn into_sql_comparison_value(self) -> (r: Option<SqlValue>) {
        Some(SqlValue::Integer(if self { 1 } else { 0 }))
    }
}

impl SqlField for String {
    const SQL_TYPE: &'static str = "TEXT";
    const NULLABLE: bool = false;

    open spec fn stored_value(&self) -> SqlValueView {
        SqlValueView::Text(self@)
    }

    open spec fn operand_value(&self) -> Option<SqlValueView> {
        Some(SqlValueView::Text(self@))
    }

    fn to_sql_value(&self) -> (r: SqlValue) {
        SqlValue::Text(self.clone())
    }

    fn into_sql_comparison_value(self) -> (r: Option<SqlValue>) {
        Some(SqlValue::Text(self))
    }
}

impl SqlField for SqlValue {
    const SQL_TYPE: &'static str = "BLOB";
    const NULLABLE: bool = false;

    open spec fn stored_value(&self) -> SqlValueView {
        self@
    }

    open spec fn operand_value(&self) -> Option<SqlValueView> {
        Some(self@)
    }

    fn to_sql_value(&self) -> (r: SqlValue) {
        self.duplicate()
    }

    fn into_sql_comparison_value(self) -> (r: Option<SqlValue>) {
        Some(self)
    }
}

/// `None` is stored as `NULL` and compares as SQL `NULL`.
impl<T: SqlField> SqlField for Option<T> {
    const SQL_TYPE: &'static str = T::SQL_TYPE;
    const NULLABLE: bool = true;

    open spec fn stored_value(&self) -> SqlValueView {
        match self {
            Some(v) => v.stored_value(),
            None => SqlValueView::Null,
        }
    }

    open spec fn operand_value(&self) -> Option<SqlValueView> {
        match self {
            Some(v) => Some(v.stored_value()),
            None => None,
        }
    }

    fn to_sql_value(&self) -> (r: SqlValue) {
        match self {
            Some(v) => v.to_sql_value(),
            None => SqlValue::Null,
        }
    }

    fn into_sql_comparison_value(self) -> (r: Option<SqlValue>) {
        match self {
            Some(v) => Some(v.to_sql_value()),
            None => None,
        }
    }
}

} // verus!
