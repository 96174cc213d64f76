//! Error values produced by the library's planning, query and record rules.

use vstd::prelude::*;

use rusqlite::Error as DriverError;

verus! {

/// The error type of the SQLite driver, `rusqlite::Error`.
#[verifier::external_type_specification]
#[verifier::external_body]
pub struct ExDriverError(DriverError);

/// Renders a driver error with its `Display` implementation (`to_string`); nothing is
/// claimed of the text.
#[verifier::external_body]
fn driver_error_text(e: &DriverError) -> String {
    e.to_string()
}

/// Errors produced by connection, model, query and schema operations.
#[derive(Debug)]
pub enum Error {
    /// An error returned by the SQLite driver.
    Sqlite(DriverError),
    /// The global connection was initialized more than once.
    AlreadyInitialized,
    /// The global connection was used before initialization.
    NotInitialized,
    /// A required builder field was not provided.
    MissingField(String),
    /// The requested model configuration or conversion is invalid.
    InvalidModel(String),
    /// The requested query cannot be represented safely.
    InvalidQuery(String),
    /// The requested association operation is invalid for the current model state.
    InvalidAssociation(String),
    /// The requested schema operation cannot be represented safely.
    InvalidSchema(String),
    /// A schema plan exists, but cannot be applied automatically.
    SchemaBlocked(String),
    /// The live schema drifted from the source schema used to build a plan.
    SchemaDrift(String),
    /// Submitted params could not be converted into field values.
    InvalidParams(String),
    /// A transaction closure asked for its work to be rolled back.
    Rollback,
}

/// The human-readable text of an error; a driver error's text is the driver's own, and
/// the empty text stands for it here.
pub open spec fn error_text(e: Error) -> Seq<char> {
    match e {
        Error::Sqlite(_) => Seq::empty(),
        Error::AlreadyInitialized => "Connection already initialized"@,
        Error::NotInitialized => "Connection not initialized"@,
        Error::MissingField(field) => "Missing required field: "@ + field@,
        Error::InvalidModel(m) => "Invalid model: "@ + m@,
        Error::InvalidQuery(m) => "Invalid query: "@ + m@,
        Error::InvalidAssociation(m) => "Invalid association: "@ + m@,
        Error::InvalidSchema(m) => "Invalid schema: "@ + m@,
        Error::SchemaBlocked(m) => "Schema plan blocked: "@ + m@,
        Error::SchemaDrift(m) => "Schema drift detected: "@ + m@,
        Error::InvalidParams(m) => "Invalid params: "@ + m@,
        Error::Rollback => "Transaction rolled back"@,
    }
}

impl Error {
    /// Renders the error for people; a driver error is rendered by the driver.
    pub fn message(&self) -> (r: String)
        ensures
            !(*self is Sqlite) ==> r@ == error_text(*self),
    {
        let (prefix, detail): (&str, Option<&String>) = match self {
            Error::Sqlite(e) => {
                return driver_error_text(e);
            },
            Error::AlreadyInitialized => ("Connection already initialized", None),
            Error::NotInitialized => ("Connection not initialized", None),
            Error::MissingField(field) => ("Missing required field: ", Some(field)),
            Error::InvalidModel(m) => ("Invalid model: ", Some(m)),
            Error::InvalidQuery(m) => ("Invalid query: ", Some(m)),
            Error::InvalidAssociation(m) => ("Invalid association: ", Some(m)),
            Error::InvalidSchema(m) => ("Invalid schema: ", Some(m)),
            Error::SchemaBlocked(m) => ("Schema plan blocked: ", Some(m)),
            Error::SchemaDrift(m) => ("Schema drift detected: ", Some(m)),
            Error::InvalidParams(m) => ("Invalid params: ", Some(m)),
            Error::Rollback => ("Transaction rolled back", None),
        };
        let mut out = String::from_str(prefix);
        if let Some(d) = detail {
            out.append(d.as_str());
        }
        out
    }
}

impl From<DriverError> for Error {
    fn from(e: DriverError) -> (r: Self)
        ensures
            r == Error::Sqlite(e),
    {
        Error::Sqlite(e)
    }
}

impl vstd::std_specs::convert::FromSpecImpl<DriverError> for Error {
    open spec fn obeys_from_spec() -> bool {
        true
    }

    open spec fn from_spec(v: DriverError) -> Self {
        Error::Sqlite(v)
    }
}

} // verus!
