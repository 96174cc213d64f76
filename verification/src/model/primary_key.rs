//! Primary-key field types: their association ids and the rowids SQLite generates.

use vstd::prelude::*;

use crate::error::Error;
use crate::text::{decimal, push_decimal, push_signed_decimal, signed_decimal};

use super::sql_field::SqlField;
use super::value::SqlValue;

verus! {

/// A primary-key field type supported by model code generation.
pub trait PrimaryKeyField: SqlField {
    /// The association id of this key, when it is non-negative. Implementations outside
    /// verified code may leave the default, which says nothing about it.
    closed spec fn key_id(&self) -> Option<u64> {
        vstd::pervasive::arbitrary()
    }

    /// The key for a generated rowid, when it fits in this type. Implementations outside
    /// verified code may leave the default, which says nothing about it.
    closed spec fn key_for(id: u64) -> Option<Self> {
        vstd::pervasive::arbitrary()
    }

    /// Converts the field into the non-negative association id used by associations.
    fn to_association_id(&self) -> (r: Result<u64, Error>)
        ensures
            match self.key_id() {
                Some(v) => r matches Ok(x) && x == v,
                None => r matches Err(Error::InvalidModel(_)),
            },
    ;

    /// Converts a generated SQLite rowid into the Rust primary-key field type.
    fn from_generated_id(id: u64) -> (r: Result<Self, Error>)
        ensures
            match Self::key_for(id) {
                Some(v) => r matches Ok(x) && x == v,
                None => r matches Err(Error::InvalidModel(_)),
            },
    ;
}

/// The message for a generated rowid that does not fit the key type `ty`.
pub open spec fn too_large_text(id: u64, ty: Seq<char>) -> Seq<char> {
    "generated primary key "@ + decimal(id as nat) + " does not fit in "@ + ty
}

/// The message for a negative key value.
pub open spec fn negative_key_text(v: int) -> Seq<char> {
    "primary key value "@ + signed_decimal(v) + " cannot be represented as a non-negative association id"@
}

fn too_large(id: u64, ty: &str) -> (e: Error)
    ensures
        e matches Error::InvalidModel(m) && m@ == too_large_text(id, ty@),
{
    let mut m = String::from_str("generated primary key ");
    push_decimal(&mut m, id as u128);
    m.append(" does not fit in ");
    m.append(ty);
    Error::InvalidModel(m)
}

fn negative_key(v: i64) -> (e: Error)
    ensures
        e matches Error::InvalidModel(m) && m@ == negative_key_text(v as int),
{
    let mut m = String::from_str("primary key value ");
    push_signed_decimal(&mut m, v);
    m.append(" cannot be represented as a non-negative association id");
    Error::InvalidModel(m)
}

/// A value accepted by generated `find(...)` helpers for integer primary keys.
pub trait PrimaryKeyLookup {
    /// The bound parameter of this lookup value. Implementations outside verified code
    /// may leave the default, which says nothing about it.
    closed spec fn lookup_value(&self) -> super::value::SqlValueView {
        vstd::pervasive::arbitrary()
    }

    /// Converts the lookup value into a bound SQLite parameter.
    fn into_primary_key_value(self) -> (r: SqlValue)
        ensures
            r@ == self.lookup_value(),
    ;
}

impl PrimaryKeyLookup for SqlValue {
    open spec fn lookup_value(&self) -> super::value::SqlValueView {
        self@
    }

    fn into_primary_key_value(self) -> (r: SqlValue) {
        self
    }
}

impl PrimaryKeyField for u64 {
    open spec fn key_id(&self) -> Option<u64> {
        Some(*self as u64)
    }

    open spec fn key_for(id: u64) -> Option<Self> {
        if id <= u64::MAX as u64 {
            Some(id as u64)
        } else {
            None
        }
    }

    fn to_association_id(&self) -> (r: Result<u64, Error>)
    {
        Ok(*self as u64)
    }

    fn from_generated_id(id: u64) -> (r: Result<Self, Error>)
        ensures
            id > u64::MAX as u64 ==> (r matches Err(Error::InvalidModel(m)) && m@ == too_large_text(id, "u64"@)),
    {
        if id <= u64::MAX as u64 {
            Ok(id as u64)
        } else {
            Err(too_large(id, "u64"))
        }
    }
}

impl PrimaryKeyLookup for u64 {
    open spec fn lookup_value(&self) -> super::value::SqlValueView {
        self.stored_value()
    }

    fn into_primary_key_value(self) -> (r: SqlValue) {
        self.to_sql_value()
    }
}

impl PrimaryKeyField for u32 {
    open spec fn key_id(&self) -> Option<u64> {
        Some(*self as u64)
    }

    open spec fn key_for(id: u64) -> Option<Self> {
        if id <= u32::MAX as u64 {
            Some(id as u32)
        } else {
            None
        }
    }

    fn to_association_id(&self) -> (r: Result<u64, Error>)
    {
        Ok(*self as u64)
    }

    fn from_generated_id(id: u64) -> (r: Result<Self, Error>)
        ensures
            id > u32::MAX as u64 ==> (r matches Err(Error::InvalidModel(m)) && m@ == too_large_text(id, "u32"@)),
    {
        if id <= u32::MAX as u64 {
            Ok(id as u32)
        } else {
            Err(too_large(id, "u32"))
        }
    }
}

impl PrimaryKeyLookup for u32 {
    open spec fn lookup_value(&self) -> super::value::SqlValueView {
        self.stored_value()
    }

    fn into_primary_key_value(self) -> (r: SqlValue) {
        self.to_sql_value()
    }
}

impl PrimaryKeyField for u16 {
    open spec fn key_id(&self) -> Option<u64> {
        Some(*self as u64)
    }

    open spec fn key_for(id: u64) -> Option<Self> {
        if id <= u16::MAX as u64 {
            Some(id as u16)
        } else {
            None
        }
    }

    fn to_association_id(&self) -> (r: Result<u64, Error>)
    {
        Ok(*self as u64)
    }

    fn from_generated_id(id: u64) -> (r: Result<Self, Error>)
        ensures
            id > u16::MAX as u64 ==> (r matches Err(Error::InvalidModel(m)) && m@ == too_large_text(id, "u16"@)),
    {
        if id <= u16::MAX as u64 {
            Ok(id as u16)
        } else {
            Err(too_large(id, "u16"))
        }
    }
}

impl PrimaryKeyLookup for u16 {
    open spec fn lookup_value(&self) -> super::value::SqlValueView {
        self.stored_value()
    }

    fn into_primary_key_value(self) -> (r: SqlValue) {
        self.to_sql_value()
    }
}

impl PrimaryKeyField for u8 {
    open spec fn key_id(&self) -> Option<u64> {
        Some(*self as u64)
    }

    open spec fn key_for(id: u64) -> Option<Self> {
        if id <= u8::MAX as u64 {
            Some(id as u8)
        } else {
            None
        }
    }

    fn to_association_id(&self) -> (r: Result<u64, Error>)
    {
        Ok(*self as u64)
    }

    fn from_generated_id(id: u64) -> (r: Result<Self, Error>)
        ensures
            id > u8::MAX as u64 ==> (r matches Err(Error::InvalidModel(m)) && m@ == too_large_text(id, "u8"@)),
    {
        if id <= u8::MAX as u64 {
            Ok(id as u8)
        } else {
            Err(too_large(id, "u8"))
        }
    }
}

impl PrimaryKeyLookup for u8 {
    open spec fn lookup_value(&self) -> super::value::SqlValueView {
        self.stored_value()
    }

    fn into_primary_key_value(self) -> (r: SqlValue) {
        self.to_sql_value()
    }
}

impl PrimaryKeyField for i64 {
    open spec fn key_id(&self) -> Option<u64> {
        if *self >= 0 {
            Some(*self as u64)
        } else {
            None
        }
    }

    open spec fn key_for(id: u64) -> Option<Self> {
        if id <= i64::MAX as u64 {
            Some(id as i64)
        } else {
            None
        }
    }

    fn to_association_id(&self) -> (r: Result<u64, Error>)
        ensures
            *self < 0 ==> (r matches Err(Error::InvalidModel(m)) && m@ == negative_key_text(*self as int)),
    {
        if *self >= 0 {
            Ok(*self as u64)
        } else {
            Err(negative_key(*self as i64))
        }
    }

    fn from_generated_id(id: u64) -> (r: Result<Self, Error>)
        ensures
            id > i64::MAX as u64 ==> (r matches Err(Error::InvalidModel(m)) && m@ == too_large_text(id, "i64"@)),
    {
        if id <= i64::MAX as u64 {
            Ok(id as i64)
        } else {
            Err(too_large(id, "i64"))
        }
    }
}

impl PrimaryKeyLookup for i64 {
    open spec fn lookup_value(&self) -> super::value::SqlValueView {
        self.stored_value()
    }

    fn into_primary_key_value(self) -> (r: SqlValue) {
        self.to_sql_value()
    }
}

impl PrimaryKeyField for i32 {
    open spec fn key_id(&self) -> Option<u64> {
        if *self >= 0 {
            Some(*self as u64)
        } else {
            None
        }
    }

    open spec fn key_for(id: u64) -> Option<Self> {
        if id <= i32::MAX as u64 {
            Some(id as i32)
        } else {
            None
        }
    }

    fn to_association_id(&self) -> (r: Result<u64, Error>)
        ensures
            *self < 0 ==> (r matches Err(Error::InvalidModel(m)) && m@ == negative_key_text(*self as int)),
    {
        if *self >= 0 {
            Ok(*self as u64)
        } else {
            Err(negative_key(*self as i64))
        }
    }

    fn from_generated_id(id: u64) -> (r: Result<Self, Error>)
        ensures
            id > i32::MAX as u64 ==> (r matches Err(Error::InvalidModel(m)) && m@ == too_large_text(id, "i32"@)),
    {
        if id <= i32::MAX as u64 {
            Ok(id as i32)
        } else {
            Err(too_large(id, "i32"))
        }
    }
}

impl PrimaryKeyLookup for i32 {
    open spec fn lookup_value(&self) -> super::value::SqlValueView {
        self.stored_value()
    }

    fn into_primary_key_value(self) -> (r: SqlValue) {
        self.to_sql_value()
    }
}

impl PrimaryKeyField for i16 {
    open spec fn key_id(&self) -> Option<u64> {
        if *self >= 0 {
            Some(*self as u64)
        } else {
            None
        }
    }

    open spec fn key_for(id: u64) -> Option<Self> {
        if id <= i16::MAX as u64 {
            Some(id as i16)
        } else {
            None
        }
    }

    fn to_association_id(&self) -> (r: Result<u64, Error>)
        ensures
            *self < 0 ==> (r matches Err(Error::InvalidModel(m)) && m@ == negative_key_text(*self as int)),
    {
        if *self >= 0 {
            Ok(*self as u64)
        } else {
            Err(negative_key(*self as i64))
        }
    }

    fn from_generated_id(id: u64) -> (r: Result<Self, Error>)
        ensures
            id > i16::MAX as u64 ==> (r matches Err(Error::InvalidModel(m)) && m@ == too_large_text(id, "i16"@)),
    {
        if id <= i16::MAX as u64 {
            Ok(id as i16)
        } else {
            Err(too_large(id, "i16"))
        }
    }
}

impl PrimaryKeyLookup for i16 {
    open spec fn lookup_value(&self) -> super::value::SqlValueView {
        self.stored_value()
    }

    fn into_primary_key_value(self) -> (r: SqlValue) {
        self.to_sql_value()
    }
}

impl PrimaryKeyField for i8 {
    open spec fn key_id(&self) -> Option<u64> {
        if *self >= 0 {
            Some(*self as u64)
        } else {
            None
        }
    }

    open spec fn key_for(id: u64) -> Option<Self> {
        if id <= i8::MAX as u64 {
            Some(id as i8)
        } else {
            None
        }
    }

    fn to_association_id(&self) -> (r: Result<u64, Error>)
        ensures
            *self < 0 ==> (r matches Err(Error::InvalidModel(m)) && m@ == negative_key_text(*self as int)),
    {
        if *self >= 0 {
            Ok(*self as u64)
        } else {
            Err(negative_key(*self as i64))
        }
    }

    fn from_generated_id(id: u64) -> (r: Result<Self, Error>)
        ensures
            id > i8::MAX as u64 ==> (r matches Err(Error::InvalidModel(m)) && m@ == too_large_text(id, "i8"@)),
    {
        if id <= i8::MAX as u64 {
            Ok(id as i8)
        } else {
            Err(too_large(id, "i8"))
        }
    }
}

impl PrimaryKeyLookup for i8 {
    open spec fn lookup_value(&self) -> super::value::SqlValueView {
        self.stored_value()
    }

    fn into_primary_key_value(self) -> (r: SqlValue) {
        self.to_sql_value()
    }
}

} // verus!
