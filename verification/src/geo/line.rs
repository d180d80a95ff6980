//! The line value `{a, b, c}` of the general equation `ax+by+c=0`.
//!
//! A line and a circle are distinct value types that happen to share
//! one three-scalar layout; the line codec deliberately delegates its
//! decoding and its binary encoding to the circle codec through that
//! shared layout, while its text rendering is its own.

use vstd::prelude::*;
use crate::errors::{Error, ErrorKind};
use crate::from_sql::{FromSql, decoded, text_view, bin_view};
use crate::to_sql::{ToSql, encoded_text, encoded_bin};
use crate::pq::Type;
use crate::scalar::{dec_of_float_bits, format_scalar, is_finite_bits, is_num_char};
use crate::geo::circle::Circle;
use crate::geo::coordinate::{spec_tokens, lemma_tokens_sep, lemma_tokens_run};
use crate::bytes::be_u64;

verus! {

/// A line's three coefficients, each the bit pattern of an IEEE-754
/// binary64 value.
#[derive(Clone, Copy, Debug, PartialEq, Eq, Structural)]
pub struct Line {
    pub a: u64,
    pub b: u64,
    pub c: u64,
}

impl Line {
    pub fn new(a: u64, b: u64, c: u64) -> (l: Self)
        ensures
            l == (Line { a, b, c }),
    {
        Line { a, b, c }
    }
}

impl DeepView for Line {
    type V = Line;

    open spec fn deep_view(&self) -> Line {
        *self
    }
}

/// The line a decoded circle stands for, field by field.
pub open spec fn line_of_circle(c: Circle) -> Line {
    Line { a: c.x, b: c.y, c: c.r }
}

/// The text rendering `{a, b, c}`.
pub open spec fn line_text(l: Line) -> Seq<char> {
    seq!['{'] + dec_of_float_bits(l.a) + seq![',', ' '] + dec_of_float_bits(l.b) + seq![',', ' ']
        + dec_of_float_bits(l.c) + seq!['}']
}

impl FromSql for Line {
    /// Decoding delegates to the circle codec, which accepts the line
    /// type, and reads its three fields as the coefficients.
    open spec fn spec_from_text(ty: Type, raw: Option<Seq<char>>) -> Result<Line, ErrorKind> {
        match Circle::spec_from_text(ty, raw) {
            Ok(c) => Ok(line_of_circle(c)),
            Err(e) => Err(e),
        }
    }

    open spec fn spec_from_binary(ty: Type, raw: Option<Seq<u8>>) -> Result<Line, ErrorKind> {
        match Circle::spec_from_binary(ty, raw) {
            Ok(c) => Ok(line_of_circle(c)),
            Err(e) => Err(e),
        }
    }

    fn from_text(ty: &Type, raw: Option<&str>) -> (r: crate::Result<Self>)
        ensures
            decoded(r) == Self::spec_from_text(*ty, text_view(raw)),
    {
        match Circle::from_text(ty, raw) {
            Ok(c) => Ok(Line::new(c.x, c.y, c.r)),
            Err(e) => Err(e),
        }
    }

    fn from_binary(ty: &Type, raw: Option<&[u8]>) -> (r: crate::Result<Self>)
        ensures
            decoded(r) == Self::spec_from_binary(*ty, bin_view(raw)),
    {
        match Circle::from_binary(ty, raw) {
            Ok(c) => Ok(Line::new(c.x, c.y, c.r)),
            Err(e) => Err(e),
        }
    }
}

impl ToSql for Line {
    open spec fn spec_type_of() -> Type {
        Type::Line
    }

    open spec fn spec_to_text(&self) -> Result<Option<Seq<char>>, ErrorKind> {
        Ok(Some(line_text(*self)))
    }

    /// The binary encoding is, byte for byte, the circle encoding of
    /// the shared layout.
    open spec fn spec_to_binary(&self) -> Result<Option<Seq<u8>>, ErrorKind> {
        (Circle { x: self.a, y: self.b, r: self.c }).spec_to_binary()
    }

    fn type_of() -> (r: Type)
        ensures
            r == Self::spec_type_of(),
    {
        Type::Line
    }

    fn ty(&self) -> (r: Type)
        ensures
            r == Self::spec_type_of(),
    {
        Type::Line
    }

    fn to_text(&self) -> (r: crate::Result<Option<String>>)
        ensures
            encoded_text(r) == self.spec_to_text(),
    {
        let sa = format_scalar(self.a);
        let sb = format_scalar(self.b);
        let sc = format_scalar(self.c);
        let mut s = String::from_str("{");
        s.append(sa.as_str());
        s.append(", ");
        s.append(sb.as_str());
        s.append(", ");
        s.append(sc.as_str());
        s.append("}");
        proof {
            reveal_strlit("{");
            reveal_strlit(", ");
            reveal_strlit("}");
            assert(s@ =~= line_text(*self));
        }
        Ok(Some(s))
    }

    fn to_binary(&self) -> (r: crate::Result<Option<Vec<u8>>>)
        ensures
            encoded_bin(r) == self.spec_to_binary(),
    {
        Circle::new(self.a, self.b, self.c).to_binary()
    }
}

/// The delegation law: a line's binary encoding equals, byte for
/// byte, the binary encoding of the circle with the same three
/// scalars, while the two remain distinct value types.
pub proof fn lemma_line_circle_binary(a: u64, b: u64, c: u64)
    ensures
        (Line { a, b, c }).spec_to_binary() == (Circle { x: a, y: b, r: c }).spec_to_binary(),
{
}

/// A line decodes back from its own binary rendering.
pub proof fn lemma_line_binary_round_trip(l: Line)
    ensures
        l.spec_to_binary() == Ok::<_, ErrorKind>(Some(be_u64(l.a) + be_u64(l.b) + be_u64(l.c))),
        Line::spec_from_binary(Type::Line, Some(be_u64(l.a) + be_u64(l.b) + be_u64(l.c))) == Ok::<
            _,
            ErrorKind,
        >(l),
{
    let bts = be_u64(l.a) + be_u64(l.b) + be_u64(l.c);
    assert(bts.subrange(0, 8) =~= be_u64(l.a));
    assert(bts.subrange(8, 16) =~= be_u64(l.b));
    assert(bts.subrange(16, 24) =~= be_u64(l.c));
    crate::bytes::lemma_be_u64_roundtrip(l.a);
    crate::bytes::lemma_be_u64_roundtrip(l.b);
    crate::bytes::lemma_be_u64_roundtrip(l.c);
}

/// The tokens of `{t1, t2, t3}` are exactly the three tokens, for
/// non-empty all-numeric tokens.
pub proof fn lemma_tokens_of_triple_text(t1: Seq<char>, t2: Seq<char>, t3: Seq<char>)
    requires
        t1.len() > 0,
        t2.len() > 0,
        t3.len() > 0,
        forall|i: int| 0 <= i < t1.len() ==> is_num_char(#[trigger] t1[i]),
        forall|i: int| 0 <= i < t2.len() ==> is_num_char(#[trigger] t2[i]),
        forall|i: int| 0 <= i < t3.len() ==> is_num_char(#[trigger] t3[i]),
    ensures
        spec_tokens(
            seq!['{'] + t1 + seq![',', ' '] + t2 + seq![',', ' '] + t3 + seq!['}'],
        ) == seq![t1, t2, t3],
{
    let s8 = seq!['}'];
    let s7 = t3 + s8;
    let s6 = seq![' '] + s7;
    let s5 = seq![','] + s6;
    let s4 = t2 + s5;
    let s3 = seq![' '] + s4;
    let s2 = seq![','] + s3;
    let s1 = t1 + s2;
    let s0 = seq!['{'] + s1;
    assert(!is_num_char('{') && !is_num_char(',') && !is_num_char(' ') && !is_num_char('}'));
    assert(s8.drop_first() =~= Seq::<char>::empty());
    assert(spec_tokens(Seq::<char>::empty()) =~= Seq::<Seq<char>>::empty());
    assert(spec_tokens(s8) =~= Seq::<Seq<char>>::empty());
    lemma_tokens_run(t3, s8);
    assert(spec_tokens(s7) =~= seq![t3]);
    lemma_tokens_sep(' ', s7);
    lemma_tokens_sep(',', s6);
    assert(spec_tokens(s5) =~= seq![t3]);
    lemma_tokens_run(t2, s5);
    assert(spec_tokens(s4) =~= seq![t2, t3]);
    lemma_tokens_sep(' ', s4);
    lemma_tokens_sep(',', s3);
    assert(spec_tokens(s2) =~= seq![t2, t3]);
    lemma_tokens_run(t1, s2);
    assert(spec_tokens(s1) =~= seq![t1, t2, t3]);
    lemma_tokens_sep('{', s1);
    assert(spec_tokens(s0) =~= seq![t1, t2, t3]);
    assert(seq!['{'] + t1 + seq![',', ' '] + t2 + seq![',', ' '] + t3 + seq!['}'] =~= s0);
}

/// A finite line decodes back from its own text rendering.  The three
/// calls below bring the renderer's guarantees into scope; the body
/// then literally encodes and decodes.
pub fn line_text_round_trip(l: &Line) -> (r: crate::Result<Line>)
    requires
        is_finite_bits(l.a),
        is_finite_bits(l.b),
        is_finite_bits(l.c),
    ensures
        r == Ok::<Line, Error>(*l),
{
    let sa = format_scalar(l.a);
    let sb = format_scalar(l.b);
    let sc = format_scalar(l.c);
    let t = match l.to_text() {
        Ok(Some(t)) => t,
        _ => { return Err(Error::Unknow) },
    };
    proof {
        lemma_tokens_of_triple_text(sa@, sb@, sc@);
        assert(t@ =~= seq!['{'] + sa@ + seq![',', ' '] + sb@ + seq![',', ' '] + sc@ + seq!['}']);
        let toks = spec_tokens(t@);
        assert(toks[0] == sa@ && toks[1] == sb@ && toks[2] == sc@);
    }
    let r = Line::from_text(&Type::Line, Some(t.as_str()));
    proof {
        assert(decoded(r) == Ok::<Line, ErrorKind>(*l));
    }
    match r {
        Ok(q) => Ok(q),
        Err(_) => Err(Error::Unknow),
    }
}

} // verus!
