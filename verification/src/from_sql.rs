//! The decoding capability: turning a text or binary payload tagged
//! with its declared type into a native value, or the exact error the
//! payload deserves.

use vstd::prelude::*;
use crate::errors::{Error, ErrorKind};
use crate::pq::Type;
use crate::text::dec_val;

verus! {

/// The result of a decode, with the decoded value and the error both
/// read at the mathematical level.
pub open spec fn decoded<T: DeepView>(r: crate::Result<T>) -> Result<T::V, ErrorKind> {
    match r {
        Ok(v) => Ok(v.deep_view()),
        Err(e) => Err(e@),
    }
}

pub open spec fn text_view(raw: Option<&str>) -> Option<Seq<char>> {
    match raw {
        Some(s) => Some(s@),
        None => None,
    }
}

pub open spec fn bin_view(raw: Option<&[u8]>) -> Option<Seq<u8>> {
    match raw {
        Some(b) => Some(b@),
        None => None,
    }
}

/// The parse failure a decoder reports: the declared type, the native
/// type's name, and the offending payload.
pub open spec fn from_sql_error(ty: Type, rust_type: Seq<char>, value: Seq<char>) -> ErrorKind {
    ErrorKind::FromSql { pg_type: ty, rust_type: rust_type, value: value }
}

/// Builds the [`Error::FromSql`] for a text payload.
pub fn text_error(ty: &Type, rust_type: &str, raw: &str) -> (r: Error)
    ensures
        r@ == from_sql_error(*ty, rust_type@, raw@),
{
    Error::FromSql {
        pg_type: *ty,
        rust_type: String::from_str(rust_type),
        value: String::from_str(raw),
    }
}

/// Builds the [`Error::FromSql`] for a binary payload; the raw bytes
/// are not echoed, the value field names the representation instead.
pub fn binary_error(ty: &Type, rust_type: &str) -> (r: Error)
    ensures
        r@ == from_sql_error(*ty, rust_type@, "binary"@),
{
    Error::FromSql {
        pg_type: *ty,
        rust_type: String::from_str(rust_type),
        value: String::from_str("binary"),
    }
}

/// The decoding capability.  Every decodable native type implements
/// it; the two spec functions are the type's exact decoding relation,
/// and the executable methods are proved to follow them.
pub trait FromSql: Sized + DeepView {
    /// What decoding a text payload of declared type `ty` yields.
    spec fn spec_from_text(ty: Type, raw: Option<Seq<char>>) -> Result<Self::V, ErrorKind>;

    /// What decoding a binary payload of declared type `ty` yields.
    spec fn spec_from_binary(ty: Type, raw: Option<Seq<u8>>) -> Result<Self::V, ErrorKind>;

    fn from_text(ty: &Type, raw: Option<&str>) -> (r: crate::Result<Self>)
        ensures
            decoded(r) == Self::spec_from_text(*ty, text_view(raw)),
    ;

    fn from_binary(ty: &Type, raw: Option<&[u8]>) -> (r: crate::Result<Self>)
        ensures
            decoded(r) == Self::spec_from_binary(*ty, bin_view(raw)),
    ;
}

impl FromSql for i32 {
    open spec fn spec_from_text(ty: Type, raw: Option<Seq<char>>) -> Result<i32, ErrorKind> {
        match raw {
            None => Err(ErrorKind::NotNull),
            Some(s) => if ty != Type::Int4 {
                Err(from_sql_error(ty, "i32"@, s))
            } else {
                match dec_val(s) {
                    Some(v) => if -2147483648 <= v <= 2147483647 {
                        Ok(v as i32)
                    } else {
                        Err(from_sql_error(ty, "i32"@, s))
                    },
                    None => Err(from_sql_error(ty, "i32"@, s)),
                }
            },
        }
    }

    open spec fn spec_from_binary(ty: Type, raw: Option<Seq<u8>>) -> Result<i32, ErrorKind> {
        match raw {
            None => Err(ErrorKind::NotNull),
            Some(b) => if ty == Type::Int4 && b.len() == 4 {
                Ok(crate::bytes::u32_of_be(b) as i32)
            } else {
                Err(from_sql_error(ty, "i32"@, "binary"@))
            },
        }
    }

    fn from_text(ty: &Type, raw: Option<&str>) -> (r: crate::Result<Self>)
        ensures
            decoded(r) == Self::spec_from_text(*ty, text_view(raw)),
    {
        let s = match raw {
            None => { return Err(Error::NotNull) },
            Some(s) => s,
        };
        if !(*ty == Type::Int4) {
            return Err(text_error(ty, "i32", s));
        }
        match crate::text::parse_decimal(s) {
            Some((neg, mag)) => if !neg && mag <= 2147483647 {
                Ok(mag as i32)
            } else if neg && mag <= 2147483648 {
                Ok((-(mag as i64)) as i32)
            } else {
                Err(text_error(ty, "i32", s))
            },
            None => Err(text_error(ty, "i32", s)),
        }
    }

    fn from_binary(ty: &Type, raw: Option<&[u8]>) -> (r: crate::Result<Self>)
        ensures
            decoded(r) == Self::spec_from_binary(*ty, bin_view(raw)),
    {
        let b = match raw {
            None => { return Err(Error::NotNull) },
            Some(b) => b,
        };
        if *ty == Type::Int4 && b.len() == 4 {
            let v = crate::bytes::read_be_u32(b, 0);
            proof {
                assert(b@.subrange(0, 4) =~= b@);
            }
            Ok(v as i32)
        } else {
            Err(binary_error(ty, "i32"))
        }
    }
}


impl FromSql for i64 {
    open spec fn spec_from_text(ty: Type, raw: Option<Seq<char>>) -> Result<i64, ErrorKind> {
        match raw {
            None => Err(ErrorKind::NotNull),
            Some(s) => if ty != Type::Int8 {
                Err(from_sql_error(ty, "i64"@, s))
            } else {
                match dec_val(s) {
                    Some(v) => if -9223372036854775808 <= v <= 9223372036854775807 {
                        Ok(v as i64)
                    } else {
                        Err(from_sql_error(ty, "i64"@, s))
                    },
                    None => Err(from_sql_error(ty, "i64"@, s)),
                }
            },
        }
    }

    open spec fn spec_from_binary(ty: Type, raw: Option<Seq<u8>>) -> Result<i64, ErrorKind> {
        match raw {
            None => Err(ErrorKind::NotNull),
            Some(b) => if ty == Type::Int8 && b.len() == 8 {
                Ok(crate::bytes::u64_of_be(b) as i64)
            } else {
                Err(from_sql_error(ty, "i64"@, "binary"@))
            },
        }
    }

    fn from_text(ty: &Type, raw: Option<&str>) -> (r: crate::Result<Self>)
        ensures
            decoded(r) == Self::spec_from_text(*ty, text_view(raw)),
    {
        let s = match raw {
            None => { return Err(Error::NotNull) },
            Some(s) => s,
        };
        if !(*ty == Type::Int8) {
            return Err(text_error(ty, "i64", s));
        }
        match crate::text::parse_decimal(s) {
            Some((neg, mag)) => if !neg && mag <= 9223372036854775807 {
                Ok(mag as i64)
            } else if neg && mag <= 9223372036854775807 {
                Ok(-(mag as i64))
            } else if neg && mag == 9223372036854775808 {
                Ok(i64::MIN)
            } else {
                Err(text_error(ty, "i64", s))
            },
            None => Err(text_error(ty, "i64", s)),
        }
    }

    fn from_binary(ty: &Type, raw: Option<&[u8]>) -> (r: crate::Result<Self>)
        ensures
            decoded(r) == Self::spec_from_binary(*ty, bin_view(raw)),
    {
        let b = match raw {
            None => { return Err(Error::NotNull) },
            Some(b) => b,
        };
        if *ty == Type::Int8 && b.len() == 8 {
            let v = crate::bytes::read_be_u64(b, 0);
            proof {
                assert(b@.subrange(0, 8) =~= b@);
            }
            Ok(v as i64)
        } else {
            Err(binary_error(ty, "i64"))
        }
    }
}

impl FromSql for bool {
    open spec fn spec_from_text(ty: Type, raw: Option<Seq<char>>) -> Result<bool, ErrorKind> {
        match raw {
            None => Err(ErrorKind::NotNull),
            Some(s) => if ty != Type::Bool {
                Err(from_sql_error(ty, "bool"@, s))
            } else if s == seq!['t'] {
                Ok(true)
            } else if s == seq!['f'] {
                Ok(false)
            } else {
                Err(from_sql_error(ty, "bool"@, s))
            },
        }
    }

    open spec fn spec_from_binary(ty: Type, raw: Option<Seq<u8>>) -> Result<bool, ErrorKind> {
        match raw {
            None => Err(ErrorKind::NotNull),
            Some(b) => if ty == Type::Bool && b.len() == 1 && (b[0] == 0 || b[0] == 1) {
                Ok(b[0] == 1)
            } else {
                Err(from_sql_error(ty, "bool"@, "binary"@))
            },
        }
    }

    fn from_text(ty: &Type, raw: Option<&str>) -> (r: crate::Result<Self>)
        ensures
            decoded(r) == Self::spec_from_text(*ty, text_view(raw)),
    {
        let s = match raw {
            None => { return Err(Error::NotNull) },
            Some(s) => s,
        };
        if !(*ty == Type::Bool) {
            return Err(text_error(ty, "bool", s));
        }
        if s.unicode_len() == 1 {
            let c = s.get_char(0);
            if c == 't' {
                proof {
                    assert(s@ =~= seq!['t']);
                }
                return Ok(true);
            }
            if c == 'f' {
                proof {
                    assert(s@ =~= seq!['f']);
                }
                return Ok(false);
            }
        }
        Err(text_error(ty, "bool", s))
    }

    fn from_binary(ty: &Type, raw: Option<&[u8]>) -> (r: crate::Result<Self>)
        ensures
            decoded(r) == Self::spec_from_binary(*ty, bin_view(raw)),
    {
        let b = match raw {
            None => { return Err(Error::NotNull) },
            Some(b) => b,
        };
        if *ty == Type::Bool && b.len() == 1 && (b[0] == 0 || b[0] == 1) {
            Ok(b[0] == 1)
        } else {
            Err(binary_error(ty, "bool"))
        }
    }
}

/// Relies on str::from_utf8 and str::to_string: conversion succeeds
/// exactly on valid UTF-8 and preserves the characters the bytes
/// encode.
#[verifier::external_body]
fn utf8_string(b: &[u8]) -> (r: Option<String>)
    ensures
        r is Some <==> vstd::utf8::valid_utf8(b@),
        r matches Some(s) ==> s@ == vstd::utf8::decode_utf8(b@),
{
    match core::str::from_utf8(b) {
        Ok(s) => Some(s.to_string()),
        Err(_) => None,
    }
}

impl FromSql for String {
    open spec fn spec_from_text(ty: Type, raw: Option<Seq<char>>) -> Result<Seq<char>, ErrorKind> {
        match raw {
            None => Err(ErrorKind::NotNull),
            Some(s) => if ty != Type::Varchar {
                Err(from_sql_error(ty, "String"@, s))
            } else {
                Ok(s)
            },
        }
    }

    open spec fn spec_from_binary(ty: Type, raw: Option<Seq<u8>>) -> Result<Seq<char>, ErrorKind> {
        match raw {
            None => Err(ErrorKind::NotNull),
            Some(b) => if ty != Type::Varchar {
                Err(from_sql_error(ty, "String"@, "binary"@))
            } else if vstd::utf8::valid_utf8(b) {
                Ok(vstd::utf8::decode_utf8(b))
            } else {
                Err(ErrorKind::Utf8)
            },
        }
    }

    fn from_text(ty: &Type, raw: Option<&str>) -> (r: crate::Result<Self>)
        ensures
            decoded(r) == Self::spec_from_text(*ty, text_view(raw)),
    {
        let s = match raw {
            None => { return Err(Error::NotNull) },
            Some(s) => s,
        };
        if !(*ty == Type::Varchar) {
            return Err(text_error(ty, "String", s));
        }
        Ok(String::from_str(s))
    }

    fn from_binary(ty: &Type, raw: Option<&[u8]>) -> (r: crate::Result<Self>)
        ensures
            decoded(r) == Self::spec_from_binary(*ty, bin_view(raw)),
    {
        let b = match raw {
            None => { return Err(Error::NotNull) },
            Some(b) => b,
        };
        if !(*ty == Type::Varchar) {
            return Err(binary_error(ty, "String"));
        }
        match utf8_string(b) {
            Some(s) => Ok(s),
            None => Err(Error::Utf8),
        }
    }
}

/// The optional wrapper: an absent payload is a present "no value",
/// and a present payload decodes through the inner type.
impl<T: FromSql> FromSql for Option<T> {
    open spec fn spec_from_text(ty: Type, raw: Option<Seq<char>>) -> Result<
        Option<T::V>,
        ErrorKind,
    > {
        match raw {
            None => Ok(None),
            Some(s) => match T::spec_from_text(ty, Some(s)) {
                Ok(v) => Ok(Some(v)),
                Err(e) => Err(e),
            },
        }
    }

    open spec fn spec_from_binary(ty: Type, raw: Option<Seq<u8>>) -> Result<
        Option<T::V>,
        ErrorKind,
    > {
        match raw {
            None => Ok(None),
            Some(b) => match T::spec_from_binary(ty, Some(b)) {
                Ok(v) => Ok(Some(v)),
                Err(e) => Err(e),
            },
        }
    }

    fn from_text(ty: &Type, raw: Option<&str>) -> (r: crate::Result<Self>)
        ensures
            decoded(r) == Self::spec_from_text(*ty, text_view(raw)),
    {
        match raw {
            None => Ok(None),
            Some(s) => match T::from_text(ty, Some(s)) {
                Ok(v) => Ok(Some(v)),
                Err(e) => Err(e),
            },
        }
    }

    fn from_binary(ty: &Type, raw: Option<&[u8]>) -> (r: crate::Result<Self>)
        ensures
            decoded(r) == Self::spec_from_binary(*ty, bin_view(raw)),
    {
        match raw {
            None => Ok(None),
            Some(b) => match T::from_binary(ty, Some(b)) {
                Ok(v) => Ok(Some(v)),
                Err(e) => Err(e),
            },
        }
    }
}

} // verus!

