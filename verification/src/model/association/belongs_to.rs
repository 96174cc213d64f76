//! A typed foreign-key reference to another persisted model.

use vstd::prelude::*;

use std::marker::PhantomData;

use crate::model::sql_field::SqlField;
use crate::model::value::{SqlValue, SqlValueView};
use crate::model::PersistedModel;

verus! {

/// A typed foreign-key reference to another persisted model.
///
/// `BelongsTo<T>` stores the related model's primary key and can hold the parent record
/// once it has been loaded.
pub struct BelongsTo<T> {
    id: u64,
    cached: Option<T>,
    target: PhantomData<T>,
}

/// The content of a [`BelongsTo`]: the parent's id and the cached parent, if any.
pub ghost struct BelongsToView<T> {
    pub id: u64,
    pub cached: Option<T>,
}

impl<T> View for BelongsTo<T> {
    type V = BelongsToView<T>;

    closed spec fn view(&self) -> BelongsToView<T> {
        BelongsToView { id: self.id, cached: self.cached }
    }
}

impl<T> BelongsTo<T> {
    /// Creates an association wrapper from a persisted primary key.
    pub fn new(id: u64) -> (r: Self)
        ensures
            r@.id == id,
            r@.cached is None,
    {
        BelongsTo { id, cached: None, target: PhantomData }
    }

    /// Returns the related model's primary key.
    pub fn id(&self) -> (r: u64)
        ensures
            r == self@.id,
    {
        self.id
    }

    /// Clears any cached parent model for this association.
    pub fn clear_cache(&mut self)
        ensures
            final(self)@.id == old(self)@.id,
            final(self)@.cached is None,
    {
        self.cached = None;
    }

    /// Returns the cached parent model, if one was loaded.
    pub fn cached(&self) -> (r: Option<&T>)
        ensures
            match self@.cached {
                Some(m) => r == Some(&m),
                None => r is None,
            },
    {
        match &self.cached {
            Some(m) => Some(m),
            None => None,
        }
    }

    /// Keeps a loaded parent model for later calls.
    pub fn cache(&mut self, model: T)
        ensures
            final(self)@.id == old(self)@.id,
            final(self)@.cached == Some(model),
    {
        self.cached = Some(model);
    }

    /// Creates an association from an `i64` id, which must be non-negative.
    pub fn from_i64(id: i64) -> (r: Self)
        requires
            id >= 0,
        ensures
            r@.id == id,
            r@.cached is None,
    {
        Self::new(id as u64)
    }

    /// Creates an association from an `i32` id, which must be non-negative.
    pub fn from_i32(id: i32) -> (r: Self)
        requires
            id >= 0,
        ensures
            r@.id == id,
            r@.cached is None,
    {
        Self::new(id as u64)
    }

    /// Creates an association from an `i16` id, which must be non-negative.
    pub fn from_i16(id: i16) -> (r: Self)
        requires
            id >= 0,
        ensures
            r@.id == id,
            r@.cached is None,
    {
        Self::new(id as u64)
    }

    /// Creates an association from an `i8` id, which must be non-negative.
    pub fn from_i8(id: i8) -> (r: Self)
        requires
            id >= 0,
        ensures
            r@.id == id,
            r@.cached is None,
    {
        Self::new(id as u64)
    }
}

impl<T: PersistedModel> BelongsTo<T> {
    /// Creates an association to `model`, keeping it as the loaded parent.
    pub fn with_cached(model: T) -> (r: Self)
        ensures
            r@.id == model.association_id(),
            r@.cached == Some(model),
    {
        BelongsTo { id: model.id(), cached: Some(model), target: PhantomData }
    }

    /// Creates an association to `model` without keeping it.
    pub fn to_model(model: &T) -> (r: Self)
        ensures
            r@.id == model.association_id(),
            r@.cached is None,
    {
        Self::new(model.id())
    }
}

impl<T> Clone for BelongsTo<T> {
    /// A copy of the id; the cached parent is not copied.
    fn clone(&self) -> (r: Self)
        ensures
            r@.id == self@.id,
            r@.cached is None,
    {
        Self::new(self.id)
    }
}

impl<T> PartialEq for BelongsTo<T> {
    fn eq(&self, other: &Self) -> (r: bool) {
        self.id == other.id
    }
}

impl<T> vstd::std_specs::cmp::PartialEqSpecImpl for BelongsTo<T> {
    open spec fn obeys_eq_spec() -> bool {
        true
    }

    open spec fn eq_spec(&self, other: &Self) -> bool {
        self@.id == other@.id
    }
}

impl<T> Eq for BelongsTo<T> {
}

impl<T> From<u64> for BelongsTo<T> {
    fn from(id: u64) -> (r: Self)
        ensures
            r@.id == id,
            r@.cached is None,
    {
        Self::new(id)
    }
}

impl<T> vstd::std_specs::convert::FromSpecImpl<u64> for BelongsTo<T> {
    open spec fn obeys_from_spec() -> bool {
        true
    }

    closed spec fn from_spec(v: u64) -> Self {
        BelongsTo { id: v, cached: None, target: PhantomData }
    }
}

impl<T> From<u32> for BelongsTo<T> {
    fn from(id: u32) -> (r: Self)
        ensures
            r@.id == id,
            r@.cached is None,
    {
        Self::new(id as u64)
    }
}

impl<T> vstd::std_specs::convert::FromSpecImpl<u32> for BelongsTo<T> {
    open spec fn obeys_from_spec() -> bool {
        true
    }

    closed spec fn from_spec(v: u32) -> Self {
        BelongsTo { id: v as u64, cached: None, target: PhantomData }
    }
}

impl<T> From<u16> for BelongsTo<T> {
    fn from(id: u16) -> (r: Self)
        ensures
            r@.id == id,
            r@.cached is None,
    {
        Self::new(id as u64)
    }
}

impl<T> vstd::std_specs::convert::FromSpecImpl<u16> for BelongsTo<T> {
    open spec fn obeys_from_spec() -> bool {
        true
    }

    closed spec fn from_spec(v: u16) -> Self {
        BelongsTo { id: v as u64, cached: None, target: PhantomData }
    }
}

impl<T> From<u8> for BelongsTo<T> {
    fn from(id: u8) -> (r: Self)
        ensures
            r@.id == id,
            r@.cached is None,
    {
        Self::new(id as u64)
    }
}

impl<T> vstd::std_specs::convert::FromSpecImpl<u8> for BelongsTo<T> {
    open spec fn obeys_from_spec() -> bool {
        true
    }

    closed spec fn from_spec(v: u8) -> Self {
        BelongsTo { id: v as u64, cached: None, target: PhantomData }
    }
}

/// An association is stored as its parent's id; ids above `i64::MAX` wrap to negative
/// numbers, as the two's-complement reinterpretation does.
impl<T> SqlField for BelongsTo<T> {
    const SQL_TYPE: &'static str = "INTEGER";
    const NULLABLE: bool = false;

    open spec fn stored_value(&self) -> SqlValueView {
        SqlValueView::Integer(self@.id as i64)
    }

    open spec fn operand_value(&self) -> Option<SqlValueView> {
        Some(SqlValueView::Integer(self@.id as i64))
    }

    fn to_sql_value(&self) -> (r: SqlValue) {
        SqlValue::Integer(self.id as i64)
    }

    fn into_sql_comparison_value(self) -> (r: Option<SqlValue>) {
        Some(SqlValue::Integer(self.id as i64))
    }
}

} // verus!
