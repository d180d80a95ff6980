//! The encoding capability: rendering a native value into the text
//! and binary payloads the wire protocol carries, tagged with the
//! type it should be bound as.

use vstd::prelude::*;
use crate::errors::ErrorKind;
use crate::pq::Type;
use crate::text::sint_dec;
use crate::bytes::{be_u32, be_u64};

verus! {

/// The result of a text encode, read at the mathematical level.
pub open spec fn encoded_text(r: crate::Result<Option<String>>) -> Result<
    Option<Seq<char>>,
    ErrorKind,
> {
    match r {
        Ok(Some(s)) => Ok(Some(s@)),
        Ok(None) => Ok(None),
        Err(e) => Err(e@),
    }
}

/// The result of a binary encode, read at the mathematical level.
pub open spec fn encoded_bin(r: crate::Result<Option<Vec<u8>>>) -> Result<
    Option<Seq<u8>>,
    ErrorKind,
> {
    match r {
        Ok(Some(b)) => Ok(Some(b@)),
        Ok(None) => Ok(None),
        Err(e) => Err(e@),
    }
}

/// The encoding capability.  The spec functions are the type's exact
/// wire renderings; a present value encodes to `Some` payload and an
/// absent one (the optional wrapper's `None`) to SQL NULL.
pub trait ToSql {
    /// The catalog type a value of this implementation binds as.
    spec fn spec_type_of() -> Type;

    /// What the text encoding of `self` is.
    spec fn spec_to_text(&self) -> Result<Option<Seq<char>>, ErrorKind>;

    /// What the binary encoding of `self` is.
    spec fn spec_to_binary(&self) -> Result<Option<Seq<u8>>, ErrorKind>;

    /// The catalog type, without a value in hand.
    fn type_of() -> (r: Type)
        ensures
            r == Self::spec_type_of(),
    ;

    fn ty(&self) -> (r: Type)
        ensures
            r == Self::spec_type_of(),
    ;

    fn to_text(&self) -> (r: crate::Result<Option<String>>)
        ensures
            encoded_text(r) == self.spec_to_text(),
    ;

    fn to_binary(&self) -> (r: crate::Result<Option<Vec<u8>>>)
        ensures
            encoded_bin(r) == self.spec_to_binary(),
    ;
}

impl ToSql for i32 {
    open spec fn spec_type_of() -> Type {
        Type::Int4
    }

    open spec fn spec_to_text(&self) -> Result<Option<Seq<char>>, ErrorKind> {
        Ok(Some(sint_dec(*self as int)))
    }

    open spec fn spec_to_binary(&self) -> Result<Option<Seq<u8>>, ErrorKind> {
        Ok(Some(be_u32(*self as u32)))
    }

    fn type_of() -> (r: Type)
        ensures
            r == Self::spec_type_of(),
    {
        Type::Int4
    }

    fn ty(&self) -> (r: Type)
        ensures
            r == Self::spec_type_of(),
    {
        Type::Int4
    }

    fn to_text(&self) -> (r: crate::Result<Option<String>>)
        ensures
            encoded_text(r) == self.spec_to_text(),
    {
        Ok(Some(crate::text::i64_to_string(*self as i64)))
    }

    fn to_binary(&self) -> (r: crate::Result<Option<Vec<u8>>>)
        ensures
            encoded_bin(r) == self.spec_to_binary(),
    {
        let mut buf: Vec<u8> = Vec::new();
        crate::bytes::push_be_u32(&mut buf, *self as u32);
        proof {
            assert(buf@ =~= be_u32(*self as u32));
        }
        Ok(Some(buf))
    }
}

impl ToSql for i64 {
    open spec fn spec_type_of() -> Type {
        Type::Int8
    }

    open spec fn spec_to_text(&self) -> Result<Option<Seq<char>>, ErrorKind> {
        Ok(Some(sint_dec(*self as int)))
    }

    open spec fn spec_to_binary(&self) -> Result<Option<Seq<u8>>, ErrorKind> {
        Ok(Some(be_u64(*self as u64)))
    }

    fn type_of() -> (r: Type)
        ensures
            r == Self::spec_type_of(),
    {
        Type::Int8
    }

    fn ty(&self) -> (r: Type)
        ensures
            r == Self::spec_type_of(),
    {
        Type::Int8
    }

    fn to_text(&self) -> (r: crate::Result<Option<String>>)
        ensures
            encoded_text(r) == self.spec_to_text(),
    {
        Ok(Some(crate::text::i64_to_string(*self)))
    }

    fn to_binary(&self) -> (r: crate::Result<Option<Vec<u8>>>)
        ensures
            encoded_bin(r) == self.spec_to_binary(),
    {
        let mut buf: Vec<u8> = Vec::new();
        crate::bytes::push_be_u64(&mut buf, *self as u64);
        proof {
            assert(buf@ =~= be_u64(*self as u64));
        }
        Ok(Some(buf))
    }
}

impl ToSql for bool {
    open spec fn spec_type_of() -> Type {
        Type::Bool
    }

    open spec fn spec_to_text(&self) -> Result<Option<Seq<char>>, ErrorKind> {
        Ok(Some(if *self { seq!['t'] } else { seq!['f'] }))
    }

    open spec fn spec_to_binary(&self) -> Result<Option<Seq<u8>>, ErrorKind> {
        Ok(Some(seq![if *self { 1u8 } else { 0u8 }]))
    }

    fn type_of() -> (r: Type)
        ensures
            r == Self::spec_type_of(),
    {
        Type::Bool
    }

    fn ty(&self) -> (r: Type)
        ensures
            r == Self::spec_type_of(),
    {
        Type::Bool
    }

    fn to_text(&self) -> (r: crate::Result<Option<String>>)
        ensures
            encoded_text(r) == self.spec_to_text(),
    {
        proof {
            reveal_strlit("t");
            reveal_strlit("f");
        }
        let s = if *self {
            String::from_str("t")
        } else {
            String::from_str("f")
        };
        proof {
            if *self {
                assert(s@ =~= seq!['t']);
            } else {
                assert(s@ =~= seq!['f']);
            }
        }
        Ok(Some(s))
    }

    fn to_binary(&self) -> (r: crate::Result<Option<Vec<u8>>>)
        ensures
            encoded_bin(r) == self.spec_to_binary(),
    {
        let mut buf: Vec<u8> = Vec::new();
        buf.push(if *self {
            1
        } else {
            0
        });
        proof {
            assert(buf@ =~= seq![if *self { 1u8 } else { 0u8 }]);
        }
        Ok(Some(buf))
    }
}

impl ToSql for String {
    open spec fn spec_type_of() -> Type {
        Type::Varchar
    }

    open spec fn spec_to_text(&self) -> Result<Option<Seq<char>>, ErrorKind> {
        Ok(Some(self@))
    }

    open spec fn spec_to_binary(&self) -> Result<Option<Seq<u8>>, ErrorKind> {
        Ok(Some(vstd::utf8::encode_utf8(self@)))
    }

    fn type_of() -> (r: Type)
        ensures
            r == Self::spec_type_of(),
    {
        Type::Varchar
    }

    fn ty(&self) -> (r: Type)
        ensures
            r == Self::spec_type_of(),
    {
        Type::Varchar
    }

    fn to_text(&self) -> (r: crate::Result<Option<String>>)
        ensures
            encoded_text(r) == self.spec_to_text(),
    {
        Ok(Some(String::from_str(self.as_str())))
    }

    fn to_binary(&self) -> (r: crate::Result<Option<Vec<u8>>>)
        ensures
            encoded_bin(r) == self.spec_to_binary(),
    {
        Ok(Some(self.as_str().as_bytes_vec()))
    }
}

/// The optional wrapper: `None` encodes to SQL NULL in both formats.
impl<T: ToSql> ToSql for Option<T> {
    open spec fn spec_type_of() -> Type {
        T::spec_type_of()
    }

    open spec fn spec_to_text(&self) -> Result<Option<Seq<char>>, ErrorKind> {
        match self {
            None => Ok(None),
            Some(v) => v.spec_to_text(),
        }
    }

    open spec fn spec_to_binary(&self) -> Result<Option<Seq<u8>>, ErrorKind> {
        match self {
            None => Ok(None),
            Some(v) => v.spec_to_binary(),
        }
    }

    fn type_of() -> (r: Type)
        ensures
            r == Self::spec_type_of(),
    {
        T::type_of()
    }

    fn ty(&self) -> (r: Type)
        ensures
            r == Self::spec_type_of(),
    {
        T::type_of()
    }

    fn to_text(&self) -> (r: crate::Result<Option<String>>)
        ensures
            encoded_text(r) == self.spec_to_text(),
    {
        match self {
            None => Ok(None),
            Some(v) => v.to_text(),
        }
    }

    fn to_binary(&self) -> (r: crate::Result<Option<Vec<u8>>>)
        ensures
            encoded_bin(r) == self.spec_to_binary(),
    {
        match self {
            None => Ok(None),
            Some(v) => v.to_binary(),
        }
    }
}

} // verus!
