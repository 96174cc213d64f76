//! Support types used by generated model params objects.

use vstd::prelude::*;

use crate::error::Error;
use crate::schema::types::{trim_chars, trimmed};
use crate::text::{chars_of, lower_chars, lower_text};

verus! {

/// Tracks whether a params field was provided.
#[derive(Debug, Clone)]
pub struct Param<T> {
    value: Option<T>,
}

impl<T> View for Param<T> {
    type V = Option<T>;

    /// The provided value, if any.
    closed spec fn view(&self) -> Option<T> {
        self.value
    }
}

impl<T> Default for Param<T> {
    fn default() -> (r: Self)
        ensures
            r@ is None,
    {
        Param { value: None }
    }
}

impl<T> Param<T> {
    /// Creates a missing params field.
    pub fn missing() -> (r: Self)
        ensures
            r@ is None,
    {
        Param { value: None }
    }

    /// Creates a provided params field.
    pub fn provided(value: T) -> (r: Self)
        ensures
            r@ == Some(value),
    {
        Param { value: Some(value) }
    }

    /// Returns whether this params field was provided.
    pub fn is_provided(&self) -> (r: bool)
        ensures
            r == (self@ is Some),
    {
        self.value.is_some()
    }

    /// Returns the provided value by reference, if any.
    pub fn as_ref(&self) -> (r: Option<&T>)
        ensures
            match self@ {
                Some(v) => r == Some(&v),
                None => r is None,
            },
    {
        match &self.value {
            Some(v) => Some(v),
            None => None,
        }
    }

    /// Consumes this field and returns the provided value, if any.
    pub fn into_value(self) -> (r: Option<T>)
        ensures
            r == self@,
    {
        self.value
    }
}

impl<T> Param<T> {
    /// The value this field gives a required field of a new record: the provided value
    /// when its column is allowed; otherwise the field is missing.
    pub fn for_new_record(self, allowed: bool, column: &str) -> (r: Result<T, Error>)
        ensures
            match (allowed, self@) {
                (true, Some(v)) => r == Ok::<T, Error>(v),
                _ => r matches Err(Error::MissingField(m)) && m@ == column@,
            },
    {
        match (allowed, self.value) {
            (true, Some(v)) => Ok(v),
            _ => Err(Error::MissingField(String::from_str(column))),
        }
    }

    /// Applies this field to a field of a persisted record: the provided value replaces it
    /// when its column is allowed; otherwise the field keeps its value.
    pub fn apply_to(self, allowed: bool, target: &mut T)
        ensures
            *final(target) == if allowed && self@ is Some {
                self@->Some_0
            } else {
                *old(target)
            },
    {
        if allowed {
            match self.value {
                Some(v) => {
                    *target = v;
                },
                None => {},
            }
        }
    }
}

impl<T> Param<Option<T>> {
    /// The value this field gives an optional field of a new record: the provided value
    /// when its column is allowed, and `None` otherwise.
    pub fn optional_for_new_record(self, allowed: bool) -> (r: Option<T>)
        ensures
            r == if allowed {
                match self@ {
                    Some(v) => v,
                    None => None,
                }
            } else {
                None
            },
    {
        if allowed {
            match self.value {
                Some(v) => v,
                None => None,
            }
        } else {
            None
        }
    }
}

/// The message refusing params that may set the primary key `key`.
pub open spec fn key_params_message(key: Seq<char>, updating: bool) -> Seq<char> {
    "column `"@ + key + if updating {
        "` is not assignable by update params"@
    } else {
        "` is not assignable from params"@
    }
}

/// Refuses params that are allowed to set the primary key where that cannot be: on a new
/// record whose key SQLite generates, and on any update.
pub fn check_key_params(key_allowed: bool, key: &str, generated: bool, updating: bool) -> (r: Result<
    (),
    Error,
>)
    ensures
        r is Err <==> key_allowed && (updating || generated),
        r matches Err(e) ==> e matches Error::InvalidParams(m) && m@ == key_params_message(
            key@,
            updating,
        ),
{
    if key_allowed && (updating || generated) {
        let mut m = String::from_str("column `");
        m.append(key);
        if updating {
            m.append("` is not assignable by update params");
        } else {
            m.append("` is not assignable from params");
        }
        Err(Error::InvalidParams(m))
    } else {
        Ok(())
    }
}

/// Raw form parameter value used when deserializing generated params.
#[derive(Debug, Clone, PartialEq)]
pub struct ParamValue {
    raw: String,
}

impl View for ParamValue {
    type V = Seq<char>;

    /// The raw text.
    closed spec fn view(&self) -> Seq<char> {
        self.raw@
    }
}

/// Whether `v` equals `word` ignoring ASCII case.
pub open spec fn same_ignoring_case(v: Seq<char>, word: Seq<char>) -> bool {
    lower_text(v) == lower_text(word)
}

/// The boolean that a form value spells, ignoring surrounding white space and ASCII case:
/// `1`, `true`, `on` or `yes`, and `0`, `false`, `off` or `no`.
pub open spec fn form_bool(raw: Seq<char>) -> Option<bool> {
    let v = trimmed(raw);
    if same_ignoring_case(v, "1"@) || same_ignoring_case(v, "true"@) || same_ignoring_case(v, "on"@)
        || same_ignoring_case(v, "yes"@) {
        Some(true)
    } else if same_ignoring_case(v, "0"@) || same_ignoring_case(v, "false"@) || same_ignoring_case(
        v,
        "off"@,
    ) || same_ignoring_case(v, "no"@) {
        Some(false)
    } else {
        None
    }
}

/// Whether two character sequences are equal.
fn chars_same(a: &Vec<char>, b: &Vec<char>) -> (r: bool)
    ensures
        r == (a@ == b@),
{
    if a.len() != b.len() {
        return false;
    }
    let mut i: usize = 0;
    while i < a.len()
        invariant
            a@.len() == b@.len(),
            i <= a@.len(),
            forall|k: int| 0 <= k < i ==> a@[k] == b@[k],
        decreases a@.len() - i,
    {
        if a[i] != b[i] {
            return false;
        }
        i = i + 1;
    }
    assert(a@ =~= b@);
    true
}

/// Whether the lowered characters `lowered` equal `word` ignoring ASCII case.
fn is_word(lowered: &Vec<char>, word: &str) -> (r: bool)
    ensures
        r == (lowered@ == lower_text(word@)),
{
    let w = lower_chars(chars_of(word).as_slice());
    chars_same(lowered, &w)
}

impl ParamValue {
    /// Wraps a raw form value.
    pub fn new(value: String) -> (r: Self)
        ensures
            r@ == value@,
    {
        ParamValue { raw: value }
    }

    /// Returns the raw text.
    pub fn as_str(&self) -> (r: &str)
        ensures
            r@ == self@,
    {
        self.raw.as_str()
    }

    /// Consumes the value and returns the raw text.
    pub fn into_string(self) -> (r: String)
        ensures
            r@ == self@,
    {
        self.raw
    }

    /// The boolean this value spells, if any.
    pub fn bool_value(&self) -> (r: Option<bool>)
        ensures
            r == form_bool(self@),
    {
        let v = lower_chars(trim_chars(&chars_of(self.raw.as_str())).as_slice());
        if is_word(&v, "1") || is_word(&v, "true") || is_word(&v, "on") || is_word(&v, "yes") {
            Some(true)
        } else if is_word(&v, "0") || is_word(&v, "false") || is_word(&v, "off") || is_word(&v, "no") {
            Some(false)
        } else {
            None
        }
    }
}

} // verus!
