//! The closed set of conversion failures a codec operation can report.

use vstd::prelude::*;
use crate::pq::Type;

verus! {

/// One failure kind of the codec engine.  Every fallible operation of
/// the library surfaces exactly one of these; nothing is retried or
/// coerced internally.
#[derive(Debug)]
pub enum Error {
    /// A payload could not be parsed into the requested native type.
    FromSql { pg_type: Type, rust_type: String, value: String },
    /// A native value could not be rendered into the requested wire type.
    ToSql { pg_type: Type, rust_type: String, message: Option<String> },
    /// A projection field has no corresponding column in the row.
    MissingField(String),
    /// A required (non-optional) destination received an absent value.
    NotNull,
    /// A payload is not valid UTF-8 where text decoding is required.
    Utf8,
    /// A conversion failed with no further diagnostic context.
    Unknow,
}

impl Error {
    /// The human-readable description of this error.
    pub open spec fn spec_message(self) -> Seq<char> {
        match self {
            Error::FromSql { rust_type, value, .. } => "Invalid "@ + rust_type@ + " value: "@
                + value@,
            Error::ToSql { rust_type, message, .. } => {
                let detail = match message {
                    Some(m) => m@,
                    None => "unknow"@,
                };
                "Invalid "@ + rust_type@ + " value: '"@ + detail + "'"@
            },
            Error::MissingField(field) => "Missing field "@ + field@,
            Error::NotNull => "Try to retreive null field as non-option type"@,
            Error::Utf8 => "Invalid utf8 value"@,
            Error::Unknow => "Unknow error"@,
        }
    }

    pub fn message(&self) -> (r: String)
        ensures
            r@ == self.spec_message(),
    {
        match self {
            Error::FromSql { rust_type, value, .. } => {
                let mut s = String::from_str("Invalid ");
                s.append(rust_type.as_str());
                s.append(" value: ");
                s.append(value.as_str());
                s
            },
            Error::ToSql { rust_type, message, .. } => {
                let mut s = String::from_str("Invalid ");
                s.append(rust_type.as_str());
                s.append(" value: '");
                match message {
                    Some(m) => s.append(m.as_str()),
                    None => s.append("unknow"),
                }
                s.append("'");
                s
            },
            Error::MissingField(field) => {
                let mut s = String::from_str("Missing field ");
                s.append(field.as_str());
                s
            },
            Error::NotNull => String::from_str("Try to retreive null field as non-option type"),
            Error::Utf8 => String::from_str("Invalid utf8 value"),
            Error::Unknow => String::from_str("Unknow error"),
        }
    }
}

impl From<()> for Error {
    fn from(_v: ()) -> (r: Self) {
        Error::Unknow
    }
}

impl vstd::std_specs::convert::FromSpecImpl<()> for Error {
    open spec fn obeys_from_spec() -> bool {
        true
    }

    open spec fn from_spec(_v: ()) -> Self {
        Error::Unknow
    }
}


/// The mathematical shape of an [`Error`]: the same closed set of
/// kinds with every text field read as its character sequence.
/// Contracts state which error an operation reports in terms of this
/// view.
pub enum ErrorKind {
    FromSql { pg_type: Type, rust_type: Seq<char>, value: Seq<char> },
    ToSql { pg_type: Type, rust_type: Seq<char>, message: Option<Seq<char>> },
    MissingField(Seq<char>),
    NotNull,
    Utf8,
    Unknow,
}

impl View for Error {
    type V = ErrorKind;

    open spec fn view(&self) -> ErrorKind {
        match self {
            Error::FromSql { pg_type, rust_type, value } => ErrorKind::FromSql {
                pg_type: *pg_type,
                rust_type: rust_type@,
                value: value@,
            },
            Error::ToSql { pg_type, rust_type, message } => ErrorKind::ToSql {
                pg_type: *pg_type,
                rust_type: rust_type@,
                message: match message {
                    Some(m) => Some(m@),
                    None => None,
                },
            },
            Error::MissingField(f) => ErrorKind::MissingField(f@),
            Error::NotNull => ErrorKind::NotNull,
            Error::Utf8 => ErrorKind::Utf8,
            Error::Unknow => ErrorKind::Unknow,
        }
    }
}

} // verus!
