//! Support types used by generated model builders.

use vstd::prelude::*;

use crate::error::Error;

verus! {

/// Tracks whether a required builder field has been provided.
#[derive(Debug, Clone)]
pub struct Required<T>(Option<T>);

impl<T> View for Required<T> {
    type V = Option<T>;

    /// The value provided so far, if any.
    closed spec fn view(&self) -> Option<T> {
        self.0
    }
}

impl<T> Default for Required<T> {
    fn default() -> (r: Self)
        ensures
            r@ is None,
    {
        Required(None)
    }
}

impl<T> Required<T> {
    /// Stores the field value.
    pub fn set(&mut self, value: T)
        ensures
            final(self)@ == Some(value),
    {
        self.0 = Some(value);
    }

    /// Finishes the field or returns [`Error::MissingField`] if it was never set.
    pub fn finish(self, field: &'static str) -> (r: Result<T, Error>)
        ensures
            match self@ {
                Some(v) => r == Ok::<T, Error>(v),
                None => r matches Err(Error::MissingField(f)) && f@ == field@,
            },
    {
        match self.0 {
            Some(v) => Ok(v),
            None => Err(Error::MissingField(String::from_str(field))),
        }
    }
}

/// Tracks whether an optional builder field has been explicitly set.
#[derive(Debug, Clone)]
pub struct Optional<T>(Option<Option<T>>);

impl<T> View for Optional<T> {
    type V = Option<Option<T>>;

    /// The value set so far, if any (itself possibly an explicit `None`).
    closed spec fn view(&self) -> Option<Option<T>> {
        self.0
    }
}

impl<T> Default for Optional<T> {
    fn default() -> (r: Self)
        ensures
            r@ is None,
    {
        Optional(None)
    }
}

impl<T> Optional<T> {
    /// Stores the field value, including an explicit `None`.
    pub fn set(&mut self, value: Option<T>)
        ensures
            final(self)@ == Some(value),
    {
        self.0 = Some(value);
    }

    /// Finishes the field, defaulting to `None` if it was never set.
    pub fn finish(self) -> (r: Option<T>)
        ensures
            match self@ {
                Some(v) => r == v,
                None => r is None,
            },
    {
        match self.0 {
            Some(v) => v,
            None => None,
        }
    }
}

} // verus!
