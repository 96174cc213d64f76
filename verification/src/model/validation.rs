//! Validation errors collected before a model is saved.

use vstd::prelude::*;

use vstd::std_specs::cmp::PartialEqSpec;

use crate::error::{error_text, Error};

use super::{Column, Model};

verus! {

/// A single validation error attached to either a column or the model as a whole.
#[derive(Debug, Clone, PartialEq, Eq)]
pub struct ValidationError<C> {
    column: Option<C>,
    message: String,
}

/// The content of a [`ValidationError`]: its column, if any, and its message.
pub ghost struct ErrorView<C> {
    pub column: Option<C>,
    pub message: Seq<char>,
}

impl<C> View for ValidationError<C> {
    type V = ErrorView<C>;

    closed spec fn view(&self) -> ErrorView<C> {
        ErrorView { column: self.column, message: self.message@ }
    }
}

impl<C> ValidationError<C> {
    /// Creates a validation error for a column.
    pub fn on(column: C, message: &str) -> (r: Self)
        ensures
            r@ == (ErrorView { column: Some(column), message: message@ }),
    {
        ValidationError { column: Some(column), message: String::from_str(message) }
    }

    /// Creates a validation error for the model as a whole.
    pub fn base(message: &str) -> (r: Self)
        ensures
            r@ == (ErrorView::<C> { column: None, message: message@ }),
    {
        ValidationError { column: None, message: String::from_str(message) }
    }

    /// Returns the column this error belongs to, if any.
    pub fn column(&self) -> (r: Option<C>)
        where
            C: Copy,
        ensures
            r == self@.column,
    {
        self.column
    }

    /// Returns the error message.
    pub fn message(&self) -> (r: &str)
        ensures
            r@ == self@.message,
    {
        self.message.as_str()
    }
}

/// Rails-style validation errors for a model.
#[derive(Debug, Clone, PartialEq, Eq)]
pub struct Errors<C> {
    errors: Vec<ValidationError<C>>,
}

impl<C> View for Errors<C> {
    type V = Seq<ErrorView<C>>;

    closed spec fn view(&self) -> Seq<ErrorView<C>> {
        self.errors@.map_values(|e: ValidationError<C>| e@)
    }
}

impl<C> Default for Errors<C> {
    fn default() -> (r: Self)
        ensures
            r@ == Seq::<ErrorView<C>>::empty(),
    {
        Self::new()
    }
}

/// The messages of the errors attached to a column equal to `column`, in order.
pub open spec fn messages_on<C: PartialEq>(errors: Seq<ErrorView<C>>, column: C) -> Seq<Seq<char>>
    decreases errors.len(),
{
    if errors.len() == 0 {
        Seq::empty()
    } else {
        messages_on(errors.drop_last(), column) + match errors.last().column {
            Some(c) => if c.eq_spec(&column) {
                seq![errors.last().message]
            } else {
                Seq::empty()
            },
            None => Seq::empty(),
        }
    }
}

/// The messages of the errors on the model as a whole, in order.
pub open spec fn base_messages<C>(errors: Seq<ErrorView<C>>) -> Seq<Seq<char>>
    decreases errors.len(),
{
    if errors.len() == 0 {
        Seq::empty()
    } else {
        base_messages(errors.drop_last()) + if errors.last().column is None {
            seq![errors.last().message]
        } else {
            Seq::empty()
        }
    }
}

/// The columns that errors are attached to, each once, in the order they first appear.
pub open spec fn error_columns<C>(errors: Seq<ErrorView<C>>) -> Seq<C>
    decreases errors.len(),
{
    if errors.len() == 0 {
        Seq::empty()
    } else {
        let d = error_columns(errors.drop_last());
        match errors.last().column {
            Some(c) => if d.contains(c) {
                d
            } else {
                d.push(c)
            },
            None => d,
        }
    }
}

/// The numbers of messages on each of `columns`, added up.
pub open spec fn messages_on_all<C: PartialEq>(errors: Seq<ErrorView<C>>, columns: Seq<C>) -> nat
    decreases columns.len(),
{
    if columns.len() == 0 {
        0
    } else {
        messages_on_all(errors, columns.drop_last()) + messages_on(errors, columns.last()).len()
    }
}

/// Each error is either on the model as a whole or on exactly one of the distinct columns
/// that errors are attached to: the base messages and the messages on each such column add
/// up to the number of errors (for a column type whose `==` is equality).
pub proof fn lemma_messages_add_up<C: PartialEq>(errors: Seq<ErrorView<C>>)
    requires
        forall|a: C, b: C| #[trigger] a.eq_spec(&b) <==> a == b,
    ensures
        base_messages(errors).len() + messages_on_all(errors, error_columns(errors)) == errors.len(),
    decreases errors.len(),
{
    if errors.len() > 0 {
        let prev = errors.drop_last();
        let x = errors.last();
        let d = error_columns(prev);
        lemma_messages_add_up(prev);
        lemma_error_columns(prev);
        lemma_messages_on_all_step(prev, x, d);
        assert(errors =~= prev.push(x));
        match x.column {
            Some(c) => {
                if !d.contains(c) {
                    lemma_no_messages_on(prev, c);
                    let dc = d.push(c);
                    assert(dc.drop_last() =~= d);
                    assert(messages_on(errors, c) =~= messages_on(prev, c) + seq![x.message]) by {
                        assert(c.eq_spec(&c));
                    }
                    lemma_messages_on_all_step(prev, x, d);
                }
            },
            None => {},
        }
    }
}

/// The columns listed by [`error_columns`] are distinct, and they are exactly the columns
/// that some error is attached to.
proof fn lemma_error_columns<C>(errors: Seq<ErrorView<C>>)
    ensures
        error_columns(errors).no_duplicates(),
        forall|c: C|
            error_columns(errors).contains(c) <==> exists|i: int|
                0 <= i < errors.len() && #[trigger] errors[i].column == Some(c),
    decreases errors.len(),
{
    if errors.len() > 0 {
        let prev = errors.drop_last();
        lemma_error_columns(prev);
        let d = error_columns(prev);
        assert forall|c: C|
            error_columns(errors).contains(c) implies exists|i: int|
                0 <= i < errors.len() && #[trigger] errors[i].column == Some(c) by {
            if d.contains(c) {
                let i = choose|i: int| 0 <= i < prev.len() && #[trigger] prev[i].column == Some(c);
                assert(errors[i] == prev[i]);
            } else {
                assert(errors[errors.len() - 1].column == Some(c));
            }
        }
        assert forall|c: C|
            (exists|i: int| 0 <= i < errors.len() && #[trigger] errors[i].column == Some(c))
                implies error_columns(errors).contains(c) by {
            let i = choose|i: int| 0 <= i < errors.len() && #[trigger] errors[i].column == Some(c);
            if i < errors.len() - 1 {
                assert(prev[i] == errors[i]);
                assert(d.contains(c));
                match errors.last().column {
                    Some(c2) => if !d.contains(c2) {
                        let j = choose|j: int| 0 <= j < d.len() && d[j] == c;
                        assert(d.push(c2)[j] == c);
                    },
                    None => {},
                }
            } else {
                match errors.last().column {
                    Some(c2) => if !d.contains(c2) {
                        assert(d.push(c2)[d.len() as int] == c);
                    },
                    None => {},
                }
            }
        }
    }
}

/// A column that no error is attached to has no messages.
proof fn lemma_no_messages_on<C: PartialEq>(errors: Seq<ErrorView<C>>, c: C)
    requires
        forall|a: C, b: C| #[trigger] a.eq_spec(&b) <==> a == b,
        forall|i: int| 0 <= i < errors.len() ==> #[trigger] errors[i].column != Some(c),
    ensures
        messages_on(errors, c).len() == 0,
    decreases errors.len(),
{
    if errors.len() > 0 {
        let prev = errors.drop_last();
        assert forall|i: int| 0 <= i < prev.len() implies #[trigger] prev[i].column != Some(c) by {
            assert(prev[i] == errors[i]);
        }
        lemma_no_messages_on(prev, c);
        assert(errors[errors.len() - 1].column != Some(c));
    }
}

/// One more error adds one message to the column it is attached to, if that column is
/// among `columns` (which are distinct), and none to the others.
proof fn lemma_messages_on_all_step<C: PartialEq>(prev: Seq<ErrorView<C>>, x: ErrorView<C>, columns: Seq<C>)
    requires
        forall|a: C, b: C| #[trigger] a.eq_spec(&b) <==> a == b,
        columns.no_duplicates(),
    ensures
        messages_on_all(prev.push(x), columns) == messages_on_all(prev, columns) + match x.column {
            Some(c) => if columns.contains(c) {
                1int
            } else {
                0int
            },
            None => 0int,
        },
    decreases columns.len(),
{
    if columns.len() > 0 {
        let rest = columns.drop_last();
        let d = columns.last();
        assert(rest.no_duplicates());
        lemma_messages_on_all_step(prev, x, rest);
        let e = prev.push(x);
        assert(e.drop_last() =~= prev);
        match x.column {
            Some(c) => {
                assert(c.eq_spec(&d) <==> c == d);
                if c == d {
                    assert(columns[columns.len() - 1] == c);
                    if rest.contains(c) {
                        let j = choose|j: int| 0 <= j < rest.len() && rest[j] == c;
                        assert(columns[j] == c);
                    }
                } else {
                    if columns.contains(c) {
                        let j = choose|j: int| 0 <= j < columns.len() && columns[j] == c;
                        assert(rest[j] == c);
                    }
                    if rest.contains(c) {
                        let j = choose|j: int| 0 <= j < rest.len() && rest[j] == c;
                        assert(columns[j] == c);
                    }
                }
            },
            None => {},
        }
    }
}

/// A full message: the column's name, a space and the message, or the message alone.
pub open spec fn full_message<C: Column>(e: ErrorView<C>) -> Seq<char> {
    match e.column {
        Some(c) => c.column_name() + " "@ + e.message,
        None => e.message,
    }
}

/// The views of a list of string slices.
pub open spec fn strs_view(s: Seq<&str>) -> Seq<Seq<char>> {
    s.map_values(|x: &str| x@)
}

impl<C> Errors<C> {
    /// Creates an empty error collection.
    pub fn new() -> (r: Self)
        ensures
            r@ == Seq::<ErrorView<C>>::empty(),
    {
        let r = Errors { errors: Vec::new() };
        assert(r@ =~= Seq::<ErrorView<C>>::empty());
        r
    }

    /// Adds an error to a column.
    pub fn add(&mut self, column: C, message: &str)
        ensures
            final(self)@ == old(self)@.push(ErrorView { column: Some(column), message: message@ }),
    {
        let e = ValidationError::on(column, message);
        let ghost ev = e@;
        self.errors.push(e);
        assert(self@ =~= old(self)@.push(ev));
    }

    /// Adds an error to the model as a whole.
    pub fn add_base(&mut self, message: &str)
        ensures
            final(self)@ == old(self)@.push(ErrorView { column: None, message: message@ }),
    {
        let e = ValidationError::base(message);
        let ghost ev = e@;
        self.errors.push(e);
        assert(self@ =~= old(self)@.push(ev));
    }

    /// Returns all collected errors.
    pub fn all(&self) -> (r: &[ValidationError<C>])
        ensures
            r@.map_values(|e: ValidationError<C>| e@) == self@,
    {
        self.errors.as_slice()
    }

    /// Returns whether no errors were collected.
    pub fn is_empty(&self) -> (r: bool)
        ensures
            r == (self@.len() == 0),
    {
        self.errors.len() == 0
    }

    /// Returns the number of collected errors.
    pub fn len(&self) -> (r: usize)
        ensures
            r == self@.len(),
    {
        self.errors.len()
    }

    /// Returns messages attached to the given column.
    pub fn on(&self, column: C) -> (r: Vec<&str>)
        where
            C: Copy + PartialEq,
        ensures
            C::obeys_eq_spec() ==> strs_view(r@) == messages_on(self@, column),
    {
        let ghost ev = self@;
        let mut out: Vec<&str> = Vec::new();
        let mut i: usize = 0;
        while i < self.errors.len()
            invariant
                i <= self.errors@.len(),
                ev == self@,
                C::obeys_eq_spec() ==> strs_view(out@) == messages_on(ev.take(i as int), column),
            decreases self.errors@.len() - i,
        {
            let e = &self.errors[i];
            assert(ev.take(i + 1).drop_last() =~= ev.take(i as int));
            assert(ev.take(i + 1).last() == e@);
            let ghost before = out@;
            match e.column {
                Some(c) => {
                    if c == column {
                        out.push(e.message.as_str());
                    }
                },
                None => {},
            }
            assert(C::obeys_eq_spec() ==> strs_view(out@) =~= messages_on(ev.take(i + 1), column));
            i = i + 1;
        }
        assert(ev.take(self.errors@.len() as int) =~= ev);
        out
    }

    /// Returns messages attached to the model as a whole.
    pub fn base(&self) -> (r: Vec<&str>)
        ensures
            strs_view(r@) == base_messages(self@),
    {
        let ghost ev = self@;
        let mut out: Vec<&str> = Vec::new();
        let mut i: usize = 0;
        while i < self.errors.len()
            invariant
                i <= self.errors@.len(),
                ev == self@,
                strs_view(out@) == base_messages(ev.take(i as int)),
            decreases self.errors@.len() - i,
        {
            let e = &self.errors[i];
            assert(ev.take(i + 1).drop_last() =~= ev.take(i as int));
            assert(ev.take(i + 1).last() == e@);
            if e.column.is_none() {
                out.push(e.message.as_str());
            }
            assert(strs_view(out@) =~= base_messages(ev.take(i + 1)));
            i = i + 1;
        }
        assert(ev.take(self.errors@.len() as int) =~= ev);
        out
    }

    /// Returns Rails-style full messages like `name can't be blank`.
    pub fn full_messages(&self) -> (r: Vec<String>)
        where
            C: Column,
        ensures
            r@.len() == self@.len(),
            forall|i: int| 0 <= i < r@.len() ==> (#[trigger] r@[i])@ == full_message(self@[i]),
    {
        let ghost ev = self@;
        let mut out: Vec<String> = Vec::new();
        let mut i: usize = 0;
        while i < self.errors.len()
            invariant
                i <= self.errors@.len(),
                ev == self@,
                out@.len() == i,
                forall|k: int| 0 <= k < i ==> (#[trigger] out@[k])@ == full_message(ev[k]),
            decreases self.errors@.len() - i,
        {
            let e = &self.errors[i];
            assert(ev[i as int] == e@);
            let line = match e.column {
                Some(c) => {
                    let mut s = String::from_str(c.as_str());
                    s.append(" ");
                    s.append(e.message.as_str());
                    s
                },
                None => e.message.clone(),
            };
            out.push(line);
            i = i + 1;
        }
        out
    }
}

/// Typestate for a model that failed validation.
#[derive(Debug, Clone, PartialEq, Eq)]
pub struct Invalid<S, C> {
    previous: S,
    errors: Errors<C>,
}

impl<S, C> Invalid<S, C> {
    /// Creates an invalid typestate from the previous state and collected errors.
    pub fn new(previous: S, errors: Errors<C>) -> (r: Self)
        ensures
            r.previous_state() == previous,
            r.errors_view() == errors@,
    {
        Invalid { previous, errors }
    }

    /// The state the model had before validation failed.
    pub closed spec fn previous_state(&self) -> S {
        self.previous
    }

    /// The errors that validation collected.
    pub closed spec fn errors_view(&self) -> Seq<ErrorView<C>> {
        self.errors@
    }

    /// Returns the state this model had before validation failed.
    pub fn previous(&self) -> (r: &S)
        ensures
            *r == self.previous_state(),
    {
        &self.previous
    }

    /// Returns validation errors.
    pub fn errors(&self) -> (r: &Errors<C>)
        ensures
            r@ == self.errors_view(),
    {
        &self.errors
    }

    /// Consumes the typestate and returns validation errors.
    pub fn into_errors(self) -> (r: Errors<C>)
        ensures
            r@ == self.errors_view(),
    {
        self.errors
    }
}

/// Behavior exposed by generated invalid model values.
pub trait InvalidModel: Model {
    /// The model state before validation failed.
    type PreviousState;

    /// Returns validation errors.
    fn errors(&self) -> &Errors<Self::Column>;
}

/// A validation hook used by generated model implementations.
pub trait Validator<M: Model> {
    /// Adds validation errors for `model`.
    fn validate(model: &M, errors: &mut Errors<M::Column>);
}

/// The default validation hook. It accepts every model value.
pub struct NoValidation;

impl<M: Model> Validator<M> for NoValidation {
    fn validate(_model: &M, errors: &mut Errors<M::Column>)
        ensures
            final(errors)@ == old(errors)@,
    {
    }
}

/// Error returned by save operations.
pub enum SaveError<M> {
    /// The model failed validation. The invalid model carries its errors.
    Invalid(M),
    /// A non-validation error occurred while saving.
    Error(Error),
}

impl<M> SaveError<M> {
    /// Returns whether this is a validation error.
    pub fn is_invalid(&self) -> (r: bool)
        ensures
            r == (self is Invalid),
    {
        match self {
            SaveError::Invalid(_) => true,
            SaveError::Error(_) => false,
        }
    }

    /// Returns the invalid model by reference, if this is a validation error.
    pub fn invalid(&self) -> (r: Option<&M>)
        ensures
            match self {
                SaveError::Invalid(m) => r == Some(m),
                SaveError::Error(_) => r is None,
            },
    {
        match self {
            SaveError::Invalid(model) => Some(model),
            SaveError::Error(_) => None,
        }
    }

    /// Consumes this error and returns the invalid model, if this is a validation error.
    pub fn into_invalid(self) -> (r: Option<M>)
        ensures
            match self {
                SaveError::Invalid(m) => r == Some(m),
                SaveError::Error(_) => r is None,
            },
    {
        match self {
            SaveError::Invalid(model) => Some(model),
            SaveError::Error(_) => None,
        }
    }

    /// Renders the error for people: `validation failed`, or the underlying error's text.
    pub fn message(&self) -> (r: String)
        ensures
            match self {
                SaveError::Invalid(_) => r@ == "validation failed"@,
                SaveError::Error(e) => !(*e is Sqlite) ==> r@ == error_text(*e),
            },
    {
        match self {
            SaveError::Invalid(_) => String::from_str("validation failed"),
            SaveError::Error(e) => e.message(),
        }
    }

    /// The library error this save error stands for: a validation failure becomes
    /// [`Error::InvalidModel`].
    pub fn into_error(self) -> (r: Error)
        ensures
            match self {
                SaveError::Invalid(_) => r matches Error::InvalidModel(m) && m@ == "validation failed"@,
                SaveError::Error(e) => r == e,
            },
    {
        match self {
            SaveError::Invalid(_) => Error::InvalidModel(String::from_str("validation failed")),
            SaveError::Error(e) => e,
        }
    }
}

impl<M> From<Error> for SaveError<M> {
    fn from(error: Error) -> (r: Self)
        ensures
            r == SaveError::<M>::Error(error),
    {
        SaveError::Error(error)
    }
}

impl<M> vstd::std_specs::convert::FromSpecImpl<Error> for SaveError<M> {
    open spec fn obeys_from_spec() -> bool {
        true
    }

    open spec fn from_spec(v: Error) -> Self {
        SaveError::Error(v)
    }
}

} // verus!
