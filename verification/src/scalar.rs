//! The scalar coordinate values of the geometric types.
//!
//! A coordinate is held as the 64 bits of its IEEE-754 binary64
//! encoding, which is exactly the fixed-width field the binary wire
//! format carries.  The decimal text form is converted to and from
//! those bits by a software float implementation behind the two
//! trusted wrappers below; everything built on top is verified.

use vstd::prelude::*;
use crate::text::is_digit;
use crate::errors::{Error, ErrorKind};
use crate::from_sql::{FromSql, decoded, text_view, bin_view, from_sql_error, text_error,
    binary_error};
use crate::to_sql::{ToSql, encoded_text, encoded_bin};
use crate::pq::Type;
use crate::bytes::{be_u64, u64_of_be};

verus! {

/// Bit patterns whose exponent field is saturated encode an infinity
/// or a NaN; all others are finite.
pub open spec fn is_finite_bits(b: u64) -> bool {
    (b >> 52) & 0x7ff != 0x7ff
}

/// The characters the decimal rendering of a finite scalar is built
/// from, and the only ones the coordinate scanner keeps.
pub open spec fn is_num_char(c: char) -> bool {
    is_digit(c) || c == '-' || c == '+' || c == '.' || c == 'e' || c == 'E'
}

/// The IEEE-754 binary64 value a decimal text denotes, correctly
/// rounded, as its bit pattern; `None` when the text is not a decimal
/// number.  The result depends on the characters alone.
pub uninterp spec fn float_bits_of_dec(s: Seq<char>) -> Option<u64>;

/// The decimal rendering of an IEEE-754 binary64 bit pattern.  The
/// result depends on the bits alone.
pub uninterp spec fn dec_of_float_bits(b: u64) -> Seq<char>;

/// Relies on rustc_apfloat's `Double: FromStr` and `to_bits`: parsing
/// is deterministic in the characters and never panics.
#[verifier::external_body]
pub(crate) fn parse_scalar(tok: &str) -> (r: Option<u64>)
    ensures
        r == float_bits_of_dec(tok@),
{
    match tok.parse::<rustc_apfloat::ieee::Double>() {
        Ok(d) => Some(rustc_apfloat::Float::to_bits(d) as u64),
        Err(_) => None,
    }
}

/// Relies on rustc_apfloat's `Display for Double`: its source states
/// that it prints "enough digits so the number can be round-tripped
/// back", and for a finite value it writes only an optional sign,
/// digits, a decimal point, and an optional exponent part.
#[verifier::external_body]
pub(crate) fn format_scalar(bits: u64) -> (r: String)
    ensures
        r@ == dec_of_float_bits(bits),
        is_finite_bits(bits) ==> float_bits_of_dec(r@) == Some(bits),
        is_finite_bits(bits) ==> r@.len() > 0,
        is_finite_bits(bits) ==> forall|i: int|
            0 <= i < r@.len() ==> is_num_char(#[trigger] r@[i]),
{
    let v = <rustc_apfloat::ieee::Double as rustc_apfloat::Float>::from_bits(bits as u128);
    format!("{}", v)
}


/// A double-precision scalar column value, held as its IEEE-754
/// binary64 bit pattern.
#[derive(Clone, Copy, Debug, PartialEq, Eq, Structural)]
pub struct Float8(pub u64);

impl Float8 {
    pub fn new(bits: u64) -> (r: Self)
        ensures
            r == Float8(bits),
    {
        Float8(bits)
    }
}

impl DeepView for Float8 {
    type V = Float8;

    open spec fn deep_view(&self) -> Float8 {
        *self
    }
}

impl FromSql for Float8 {
    open spec fn spec_from_text(ty: Type, raw: Option<Seq<char>>) -> Result<Float8, ErrorKind> {
        match raw {
            None => Err(ErrorKind::NotNull),
            Some(s) => if ty != Type::Float8 {
                Err(from_sql_error(ty, "Float8"@, s))
            } else {
                match float_bits_of_dec(s) {
                    Some(b) => Ok(Float8(b)),
                    None => Err(from_sql_error(ty, "Float8"@, s)),
                }
            },
        }
    }

    open spec fn spec_from_binary(ty: Type, raw: Option<Seq<u8>>) -> Result<Float8, ErrorKind> {
        match raw {
            None => Err(ErrorKind::NotNull),
            Some(b) => if ty == Type::Float8 && b.len() == 8 {
                Ok(Float8(u64_of_be(b)))
            } else {
                Err(from_sql_error(ty, "Float8"@, "binary"@))
            },
        }
    }

    fn from_text(ty: &Type, raw: Option<&str>) -> (r: crate::Result<Self>)
        ensures
            decoded(r) == Self::spec_from_text(*ty, text_view(raw)),
    {
        let s = match raw {
            None => { return Err(Error::NotNull) },
            Some(s) => s,
        };
        if !(*ty == Type::Float8) {
            return Err(text_error(ty, "Float8", s));
        }
        match parse_scalar(s) {
            Some(b) => Ok(Float8(b)),
            None => Err(text_error(ty, "Float8", s)),
        }
    }

    fn from_binary(ty: &Type, raw: Option<&[u8]>) -> (r: crate::Result<Self>)
        ensures
            decoded(r) == Self::spec_from_binary(*ty, bin_view(raw)),
    {
        let b = match raw {
            None => { return Err(Error::NotNull) },
            Some(b) => b,
        };
        if *ty == Type::Float8 && b.len() == 8 {
            let v = crate::bytes::read_be_u64(b, 0);
            proof {
                assert(b@.subrange(0, 8) =~= b@);
            }
            Ok(Float8(v))
        } else {
            Err(binary_error(ty, "Float8"))
        }
    }
}

impl ToSql for Float8 {
    open spec fn spec_type_of() -> Type {
        Type::Float8
    }

    open spec fn spec_to_text(&self) -> Result<Option<Seq<char>>, ErrorKind> {
        Ok(Some(dec_of_float_bits(self.0)))
    }

    open spec fn spec_to_binary(&self) -> Result<Option<Seq<u8>>, ErrorKind> {
        Ok(Some(be_u64(self.0)))
    }

    fn type_of() -> (r: Type)
        ensures
            r == Self::spec_type_of(),
    {
        Type::Float8
    }

    fn ty(&self) -> (r: Type)
        ensures
            r == Self::spec_type_of(),
    {
        Type::Float8
    }

    fn to_text(&self) -> (r: crate::Result<Option<String>>)
        ensures
            encoded_text(r) == self.spec_to_text(),
    {
        Ok(Some(format_scalar(self.0)))
    }

    fn to_binary(&self) -> (r: crate::Result<Option<Vec<u8>>>)
        ensures
            encoded_bin(r) == self.spec_to_binary(),
    {
        let mut buf: Vec<u8> = Vec::new();
        crate::bytes::push_be_u64(&mut buf, self.0);
        proof {
            assert(buf@ =~= be_u64(self.0));
        }
        Ok(Some(buf))
    }
}

/// A `float8` decodes back from its own binary rendering.
pub proof fn lemma_float8_binary_round_trip(v: Float8)
    ensures
        v.spec_to_binary() == Ok::<_, ErrorKind>(Some(be_u64(v.0))),
        Float8::spec_from_binary(Type::Float8, Some(be_u64(v.0))) == Ok::<_, ErrorKind>(v),
{
    crate::bytes::lemma_be_u64_roundtrip(v.0);
}

/// A finite `float8` decodes back from its own text rendering.  The
/// call below brings the renderer's guarantees into scope; the body
/// then literally encodes and decodes.
pub fn float8_text_round_trip(v: &Float8) -> (r: crate::Result<Float8>)
    requires
        is_finite_bits(v.0),
    ensures
        r == Ok::<Float8, Error>(*v),
{
    let s = format_scalar(v.0);
    let t = match v.to_text() {
        Ok(Some(t)) => t,
        _ => { return Err(Error::Unknow) },
    };
    proof {
        assert(t@ == s@);
    }
    let r = Float8::from_text(&Type::Float8, Some(t.as_str()));
    proof {
        assert(decoded(r) == Ok::<Float8, ErrorKind>(*v));
    }
    match r {
        Ok(q) => Ok(q),
        Err(_) => Err(Error::Unknow),
    }
}

} // verus!

