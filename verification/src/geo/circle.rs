//! The circle value and its codecs: three scalars `(x, y, r)` as
//! `<(x,y),r>` in text and three fixed-width fields in binary.
//!
//! The line type shares this three-scalar layout; the circle decoders
//! therefore also accept a payload declared as a line, and the line
//! codec delegates here.

use vstd::prelude::*;
use crate::errors::{Error, ErrorKind};
use crate::from_sql::{FromSql, decoded, text_view, bin_view, from_sql_error, text_error,
    binary_error};
use crate::to_sql::{ToSql, encoded_text, encoded_bin};
use crate::pq::Type;
use crate::scalar::{dec_of_float_bits, float_bits_of_dec, format_scalar, parse_scalar,
    is_finite_bits, is_num_char};
use crate::geo::coordinate::{spec_tokens, tokens, lemma_tokens_sep, lemma_tokens_run};
use crate::bytes::{be_u64, u64_of_be};

verus! {

/// A circle: center coordinates and radius, each the bit pattern of
/// an IEEE-754 binary64 value.
#[derive(Clone, Copy, Debug, PartialEq, Eq, Structural)]
pub struct Circle {
    pub x: u64,
    pub y: u64,
    pub r: u64,
}

impl Circle {
    pub fn new(x: u64, y: u64, r: u64) -> (c: Self)
        ensures
            c == (Circle { x, y, r }),
    {
        Circle { x, y, r }
    }
}

impl DeepView for Circle {
    type V = Circle;

    open spec fn deep_view(&self) -> Circle {
        *self
    }
}

/// The declared types a circle payload may carry: its own, or the
/// line type, whose codec shares this layout.
pub open spec fn circle_compatible(ty: Type) -> bool {
    ty == Type::Circle || ty == Type::Line
}

/// What the three-scalar text decode yields: exactly three numeric
/// tokens, each a parsable decimal.
pub open spec fn spec_circle_from_text(ty: Type, s: Seq<char>) -> Result<Circle, ErrorKind> {
    let toks = spec_tokens(s);
    if !circle_compatible(ty) {
        Err(from_sql_error(ty, "Circle"@, s))
    } else if toks.len() == 3 && float_bits_of_dec(toks[0]) is Some && float_bits_of_dec(toks[1])
        is Some && float_bits_of_dec(toks[2]) is Some {
        Ok(
            Circle {
                x: float_bits_of_dec(toks[0]).unwrap(),
                y: float_bits_of_dec(toks[1]).unwrap(),
                r: float_bits_of_dec(toks[2]).unwrap(),
            },
        )
    } else {
        Err(from_sql_error(ty, "Circle"@, s))
    }
}

/// The text rendering `<(x,y),r>`.
pub open spec fn circle_text(c: Circle) -> Seq<char> {
    seq!['<', '('] + dec_of_float_bits(c.x) + seq![','] + dec_of_float_bits(c.y) + seq![')', ',']
        + dec_of_float_bits(c.r) + seq!['>']
}

impl FromSql for Circle {
    open spec fn spec_from_text(ty: Type, raw: Option<Seq<char>>) -> Result<Circle, ErrorKind> {
        match raw {
            None => Err(ErrorKind::NotNull),
            Some(s) => spec_circle_from_text(ty, s),
        }
    }

    open spec fn spec_from_binary(ty: Type, raw: Option<Seq<u8>>) -> Result<Circle, ErrorKind> {
        match raw {
            None => Err(ErrorKind::NotNull),
            Some(b) => if circle_compatible(ty) && b.len() == 24 {
                Ok(
                    Circle {
                        x: u64_of_be(b.subrange(0, 8)),
                        y: u64_of_be(b.subrange(8, 16)),
                        r: u64_of_be(b.subrange(16, 24)),
                    },
                )
            } else {
                Err(from_sql_error(ty, "Circle"@, "binary"@))
            },
        }
    }

    fn from_text(ty: &Type, raw: Option<&str>) -> (r: crate::Result<Self>)
        ensures
            decoded(r) == Self::spec_from_text(*ty, text_view(raw)),
    {
        let s = match raw {
            None => { return Err(Error::NotNull) },
            Some(s) => s,
        };
        if !(*ty == Type::Circle || *ty == Type::Line) {
            return Err(text_error(ty, "Circle", s));
        }
        let toks = tokens(s);
        if toks.len() != 3 {
            return Err(text_error(ty, "Circle", s));
        }
        proof {
            assert(toks.deep_view()[0] == toks@[0]@);
            assert(toks.deep_view()[1] == toks@[1]@);
            assert(toks.deep_view()[2] == toks@[2]@);
        }
        let x = match parse_scalar(toks[0].as_str()) {
            Some(v) => v,
            None => { return Err(text_error(ty, "Circle", s)) },
        };
        let y = match parse_scalar(toks[1].as_str()) {
            Some(v) => v,
            None => { return Err(text_error(ty, "Circle", s)) },
        };
        let rr = match parse_scalar(toks[2].as_str()) {
            Some(v) => v,
            None => { return Err(text_error(ty, "Circle", s)) },
        };
        Ok(Circle { x, y, r: rr })
    }

    fn from_binary(ty: &Type, raw: Option<&[u8]>) -> (r: crate::Result<Self>)
        ensures
            decoded(r) == Self::spec_from_binary(*ty, bin_view(raw)),
    {
        let b = match raw {
            None => { return Err(Error::NotNull) },
            Some(b) => b,
        };
        if (*ty == Type::Circle || *ty == Type::Line) && b.len() == 24 {
            let x = crate::bytes::read_be_u64(b, 0);
            let y = crate::bytes::read_be_u64(b, 8);
            let rr = crate::bytes::read_be_u64(b, 16);
            Ok(Circle { x, y, r: rr })
        } else {
            Err(binary_error(ty, "Circle"))
        }
    }
}

impl ToSql for Circle {
    open spec fn spec_type_of() -> Type {
        Type::Circle
    }

    open spec fn spec_to_text(&self) -> Result<Option<Seq<char>>, ErrorKind> {
        Ok(Some(circle_text(*self)))
    }

    open spec fn spec_to_binary(&self) -> Result<Option<Seq<u8>>, ErrorKind> {
        Ok(Some(be_u64(self.x) + be_u64(self.y) + be_u64(self.r)))
    }

    fn type_of() -> (r: Type)
        ensures
            r == Self::spec_type_of(),
    {
        Type::Circle
    }

    fn ty(&self) -> (r: Type)
        ensures
            r == Self::spec_type_of(),
    {
        Type::Circle
    }

    fn to_text(&self) -> (r: crate::Result<Option<String>>)
        ensures
            encoded_text(r) == self.spec_to_text(),
    {
        let sx = format_scalar(self.x);
        let sy = format_scalar(self.y);
        let sr = format_scalar(self.r);
        let mut s = String::from_str("<(");
        s.append(sx.as_str());
        s.append(",");
        s.append(sy.as_str());
        s.append("),");
        s.append(sr.as_str());
        s.append(">");
        proof {
            reveal_strlit("<(");
            reveal_strlit(",");
            reveal_strlit("),");
            reveal_strlit(">");
            assert(s@ =~= circle_text(*self));
        }
        Ok(Some(s))
    }

    fn to_binary(&self) -> (r: crate::Result<Option<Vec<u8>>>)
        ensures
            encoded_bin(r) == self.spec_to_binary(),
    {
        let mut buf: Vec<u8> = Vec::new();
        crate::bytes::push_be_u64(&mut buf, self.x);
        crate::bytes::push_be_u64(&mut buf, self.y);
        crate::bytes::push_be_u64(&mut buf, self.r);
        proof {
            assert(buf@ =~= be_u64(self.x) + be_u64(self.y) + be_u64(self.r));
        }
        Ok(Some(buf))
    }
}

/// A circle decodes back from its own binary rendering.
pub proof fn lemma_circle_binary_round_trip(c: Circle)
    ensures
        c.spec_to_binary() == Ok::<_, ErrorKind>(Some(be_u64(c.x) + be_u64(c.y) + be_u64(c.r))),
        Circle::spec_from_binary(Type::Circle, Some(be_u64(c.x) + be_u64(c.y) + be_u64(c.r)))
            == Ok::<_, ErrorKind>(c),
{
    let b = be_u64(c.x) + be_u64(c.y) + be_u64(c.r);
    assert(b.subrange(0, 8) =~= be_u64(c.x));
    assert(b.subrange(8, 16) =~= be_u64(c.y));
    assert(b.subrange(16, 24) =~= be_u64(c.r));
    crate::bytes::lemma_be_u64_roundtrip(c.x);
    crate::bytes::lemma_be_u64_roundtrip(c.y);
    crate::bytes::lemma_be_u64_roundtrip(c.r);
}


/// The tokens of `<(t1,t2),t3>` are exactly the three tokens, for
/// non-empty all-numeric tokens.
pub proof fn lemma_tokens_of_circle_text(t1: Seq<char>, t2: Seq<char>, t3: Seq<char>)
    requires
        t1.len() > 0,
        t2.len() > 0,
        t3.len() > 0,
        forall|i: int| 0 <= i < t1.len() ==> is_num_char(#[trigger] t1[i]),
        forall|i: int| 0 <= i < t2.len() ==> is_num_char(#[trigger] t2[i]),
        forall|i: int| 0 <= i < t3.len() ==> is_num_char(#[trigger] t3[i]),
    ensures
        spec_tokens(
            seq!['<', '('] + t1 + seq![','] + t2 + seq![')', ','] + t3 + seq!['>'],
        ) == seq![t1, t2, t3],
{
    let s9 = seq!['>'];
    let s8 = t3 + s9;
    let s7 = seq![','] + s8;
    let s6 = seq![')'] + s7;
    let s5 = t2 + s6;
    let s4 = seq![','] + s5;
    let s3 = t1 + s4;
    let s2 = seq!['('] + s3;
    let s1 = seq!['<'] + s2;
    assert(!is_num_char('<') && !is_num_char('(') && !is_num_char(',') && !is_num_char(')')
        && !is_num_char('>'));
    assert(s9.drop_first() =~= Seq::<char>::empty());
    assert(spec_tokens(Seq::<char>::empty()) =~= Seq::<Seq<char>>::empty());
    assert(spec_tokens(s9) =~= Seq::<Seq<char>>::empty());
    lemma_tokens_run(t3, s9);
    assert(spec_tokens(s8) =~= seq![t3]);
    lemma_tokens_sep(',', s8);
    lemma_tokens_sep(')', s7);
    assert(spec_tokens(s6) =~= seq![t3]);
    lemma_tokens_run(t2, s6);
    assert(spec_tokens(s5) =~= seq![t2, t3]);
    lemma_tokens_sep(',', s5);
    assert(spec_tokens(s4) =~= seq![t2, t3]);
    lemma_tokens_run(t1, s4);
    assert(spec_tokens(s3) =~= seq![t1, t2, t3]);
    lemma_tokens_sep('(', s3);
    lemma_tokens_sep('<', s2);
    assert(spec_tokens(s1) =~= seq![t1, t2, t3]);
    assert(seq!['<', '('] + t1 + seq![','] + t2 + seq![')', ','] + t3 + seq!['>'] =~= s1);
}

/// A finite circle decodes back from its own text rendering.  The
/// three calls below bring the renderer's guarantees into scope; the
/// body then literally encodes and decodes.
pub fn circle_text_round_trip(c: &Circle) -> (r: crate::Result<Circle>)
    requires
        is_finite_bits(c.x),
        is_finite_bits(c.y),
        is_finite_bits(c.r),
    ensures
        r == Ok::<Circle, Error>(*c),
{
    let sx = format_scalar(c.x);
    let sy = format_scalar(c.y);
    let sr = format_scalar(c.r);
    let t = match c.to_text() {
        Ok(Some(t)) => t,
        _ => { return Err(Error::Unknow) },
    };
    proof {
        lemma_tokens_of_circle_text(sx@, sy@, sr@);
        assert(t@ =~= seq!['<', '('] + sx@ + seq![','] + sy@ + seq![')', ','] + sr@ + seq!['>']);
        let toks = spec_tokens(t@);
        assert(toks[0] == sx@ && toks[1] == sy@ && toks[2] == sr@);
    }
    let r = Circle::from_text(&Type::Circle, Some(t.as_str()));
    proof {
        assert(decoded(r) == Ok::<Circle, ErrorKind>(*c));
    }
    match r {
        Ok(q) => Ok(q),
        Err(_) => Err(Error::Unknow),
    }
}

} // verus!

