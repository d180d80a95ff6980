//! The point value and its codecs: text `(x,y)` and two fixed-width
//! binary fields.

use vstd::prelude::*;
use crate::errors::{Error, ErrorKind};
use crate::from_sql::{FromSql, decoded, text_view, bin_view, from_sql_error, text_error,
    binary_error};
use crate::to_sql::{ToSql, encoded_text, encoded_bin};
use crate::pq::Type;
use crate::scalar::{dec_of_float_bits, format_scalar, is_finite_bits, is_num_char};
use crate::geo::coordinate::{spec_tokens, spec_coordinates, tokens, lemma_tokens_sep,
    lemma_tokens_run, Coordinates};
use crate::bytes::{be_u64, u64_of_be};

verus! {

/// A point: two coordinates, each the bit pattern of an IEEE-754
/// binary64 value.
#[derive(Clone, Copy, Debug, PartialEq, Eq, Structural)]
pub struct Point {
    pub x: u64,
    pub y: u64,
}

impl Point {
    pub fn new(x: u64, y: u64) -> (p: Self)
        ensures
            p == (Point { x, y }),
    {
        Point { x, y }
    }
}

impl DeepView for Point {
    type V = Point;

    open spec fn deep_view(&self) -> Point {
        *self
    }
}

/// What the point text decode yields: the scanner must recover
/// exactly one coordinate pair, with no stray numeric token beside
/// it.
pub open spec fn spec_point_from_text(ty: Type, s: Seq<char>) -> Result<Point, ErrorKind> {
    if ty != Type::Point {
        Err(from_sql_error(ty, "Point"@, s))
    } else if spec_tokens(s).len() == 2 && spec_coordinates(s).len() == 1 {
        Ok(Point { x: spec_coordinates(s)[0].x, y: spec_coordinates(s)[0].y })
    } else {
        Err(from_sql_error(ty, "Point"@, s))
    }
}

/// The text rendering `(x,y)`.
pub open spec fn point_text(p: Point) -> Seq<char> {
    seq!['('] + dec_of_float_bits(p.x) + seq![','] + dec_of_float_bits(p.y) + seq![')']
}

impl FromSql for Point {
    open spec fn spec_from_text(ty: Type, raw: Option<Seq<char>>) -> Result<Point, ErrorKind> {
        match raw {
            None => Err(ErrorKind::NotNull),
            Some(s) => spec_point_from_text(ty, s),
        }
    }

    open spec fn spec_from_binary(ty: Type, raw: Option<Seq<u8>>) -> Result<Point, ErrorKind> {
        match raw {
            None => Err(ErrorKind::NotNull),
            Some(b) => if ty == Type::Point && b.len() == 16 {
                Ok(Point { x: u64_of_be(b.subrange(0, 8)), y: u64_of_be(b.subrange(8, 16)) })
            } else {
                Err(from_sql_error(ty, "Point"@, "binary"@))
            },
        }
    }

    fn from_text(ty: &Type, raw: Option<&str>) -> (r: crate::Result<Self>)
        ensures
            decoded(r) == Self::spec_from_text(*ty, text_view(raw)),
    {
        let s = match raw {
            None => { return Err(Error::NotNull) },
            Some(s) => s,
        };
        if !(*ty == Type::Point) {
            return Err(text_error(ty, "Point", s));
        }
        let toks = tokens(s);
        let coords = match Coordinates::from_str(s) {
            Ok(c) => c,
            Err(_) => { return Err(text_error(ty, "Point", s)) },
        };
        if toks.len() == 2 && coords.0.len() == 1 {
            let c = coords.0[0];
            Ok(Point { x: c.x, y: c.y })
        } else {
            Err(text_error(ty, "Point", s))
        }
    }

    fn from_binary(ty: &Type, raw: Option<&[u8]>) -> (r: crate::Result<Self>)
        ensures
            decoded(r) == Self::spec_from_binary(*ty, bin_view(raw)),
    {
        let b = match raw {
            None => { return Err(Error::NotNull) },
            Some(b) => b,
        };
        if *ty == Type::Point && b.len() == 16 {
            let x = crate::bytes::read_be_u64(b, 0);
            let y = crate::bytes::read_be_u64(b, 8);
            Ok(Point { x, y })
        } else {
            Err(binary_error(ty, "Point"))
        }
    }
}

impl ToSql for Point {
    open spec fn spec_type_of() -> Type {
        Type::Point
    }

    open spec fn spec_to_text(&self) -> Result<Option<Seq<char>>, ErrorKind> {
        Ok(Some(point_text(*self)))
    }

    open spec fn spec_to_binary(&self) -> Result<Option<Seq<u8>>, ErrorKind> {
        Ok(Some(be_u64(self.x) + be_u64(self.y)))
    }

    fn type_of() -> (r: Type)
        ensures
            r == Self::spec_type_of(),
    {
        Type::Point
    }

    fn ty(&self) -> (r: Type)
        ensures
            r == Self::spec_type_of(),
    {
        Type::Point
    }

    fn to_text(&self) -> (r: crate::Result<Option<String>>)
        ensures
            encoded_text(r) == self.spec_to_text(),
    {
        let sx = format_scalar(self.x);
        let sy = format_scalar(self.y);
        let mut s = String::from_str("(");
        s.append(sx.as_str());
        s.append(",");
        s.append(sy.as_str());
        s.append(")");
        proof {
            reveal_strlit("(");
            reveal_strlit(",");
            reveal_strlit(")");
            assert(s@ =~= point_text(*self));
        }
        Ok(Some(s))
    }

    fn to_binary(&self) -> (r: crate::Result<Option<Vec<u8>>>)
        ensures
            encoded_bin(r) == self.spec_to_binary(),
    {
        let mut buf: Vec<u8> = Vec::new();
        crate::bytes::push_be_u64(&mut buf, self.x);
        crate::bytes::push_be_u64(&mut buf, self.y);
        proof {
            assert(buf@ =~= be_u64(self.x) + be_u64(self.y));
        }
        Ok(Some(buf))
    }
}

/// A point decodes back from its own binary rendering.
pub proof fn lemma_point_binary_round_trip(p: Point)
    ensures
        p.spec_to_binary() == Ok::<_, ErrorKind>(Some(be_u64(p.x) + be_u64(p.y))),
        Point::spec_from_binary(Type::Point, Some(be_u64(p.x) + be_u64(p.y))) == Ok::<
            _,
            ErrorKind,
        >(p),
{
    let b = be_u64(p.x) + be_u64(p.y);
    assert(b.subrange(0, 8) =~= be_u64(p.x));
    assert(b.subrange(8, 16) =~= be_u64(p.y));
    crate::bytes::lemma_be_u64_roundtrip(p.x);
    crate::bytes::lemma_be_u64_roundtrip(p.y);
}

/// The tokens of `(t1,t2)` are exactly `t1` and `t2`, for non-empty
/// all-numeric tokens.
pub proof fn lemma_tokens_of_pair_text(t1: Seq<char>, t2: Seq<char>)
    requires
        t1.len() > 0,
        t2.len() > 0,
        forall|i: int| 0 <= i < t1.len() ==> is_num_char(#[trigger] t1[i]),
        forall|i: int| 0 <= i < t2.len() ==> is_num_char(#[trigger] t2[i]),
    ensures
        spec_tokens(seq!['('] + t1 + seq![','] + t2 + seq![')']) == seq![t1, t2],
{
    let s4 = seq![')'];
    let s3 = t2 + s4;
    let s2 = seq![','] + s3;
    let s1 = t1 + s2;
    let s0 = seq!['('] + s1;
    assert(!is_num_char('(') && !is_num_char(',') && !is_num_char(')'));
    assert(spec_tokens(Seq::<char>::empty()) =~= Seq::<Seq<char>>::empty());
    assert(s4.drop_first() =~= Seq::<char>::empty());
    assert(spec_tokens(s4) =~= Seq::<Seq<char>>::empty());
    lemma_tokens_run(t2, s4);
    assert(spec_tokens(s3) =~= seq![t2]);
    lemma_tokens_sep(',', s3);
    assert(spec_tokens(s2) =~= seq![t2]);
    lemma_tokens_run(t1, s2);
    assert(spec_tokens(s1) =~= seq![t1, t2]);
    lemma_tokens_sep('(', s1);
    assert(spec_tokens(s0) =~= seq![t1, t2]);
    assert(seq!['('] + t1 + seq![','] + t2 + seq![')'] =~= s0);
}

/// A finite point decodes back from its own text rendering.  The two
/// calls below bring the renderer's guarantees into scope; the body
/// then literally encodes and decodes.
pub fn point_text_round_trip(p: &Point) -> (r: crate::Result<Point>)
    requires
        is_finite_bits(p.x),
        is_finite_bits(p.y),
    ensures
        r == Ok::<Point, Error>(*p),
{
    let sx = format_scalar(p.x);
    let sy = format_scalar(p.y);
    let t = match p.to_text() {
        Ok(Some(t)) => t,
        _ => { return Err(Error::Unknow) },
    };
    proof {
        lemma_tokens_of_pair_text(sx@, sy@);
        assert(t@ =~= seq!['('] + sx@ + seq![','] + sy@ + seq![')']);
        let toks = spec_tokens(t@);
        assert(toks == seq![sx@, sy@]);
        assert(toks.skip(2) =~= Seq::<Seq<char>>::empty());
        assert(toks[0] == sx@ && toks[1] == sy@);
        assert(crate::scalar::float_bits_of_dec(toks[0]) == Some(p.x));
        assert(crate::scalar::float_bits_of_dec(toks[1]) == Some(p.y));
        let c = crate::geo::coordinate::Coordinate { x: p.x, y: p.y };
        assert(crate::geo::coordinate::spec_pairs(toks) == seq![c] + crate::geo::coordinate::spec_pairs(
            toks.skip(2),
        ));
        assert(spec_coordinates(t@) =~= seq![c]);
    }
    let r = Point::from_text(&Type::Point, Some(t.as_str()));
    proof {
        assert(decoded(r) == Ok::<Point, ErrorKind>(*p));
    }
    match r {
        Ok(q) => Ok(q),
        Err(_) => Err(Error::Unknow),
    }
}

} // verus!
