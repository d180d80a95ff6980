//! The raw result row and the row decoder: looking a projection's
//! fields up by name and decoding each through the codec of its
//! declared type.  Entity assembly is all-or-nothing: the first
//! failing field aborts the row.

use vstd::prelude::*;
use crate::errors::{Error, ErrorKind};
use crate::from_sql::{FromSql, decoded, from_sql_error, text_view, bin_view};
use crate::pq::Type;
use crate::projection::{Projection, FieldsV};
use crate::geo::point::Point;
use crate::geo::line::Line;
use crate::geo::circle::Circle;
use crate::scalar::Float8;
use crate::text::str_eq;

verus! {

/// One column's payload as the row carries it: SQL NULL, a text
/// payload, or a binary payload.
#[derive(Clone, Debug)]
pub enum RawValue {
    Absent,
    Text(String),
    Binary(Vec<u8>),
}

/// The mathematical shape of a raw payload.
pub enum RawKind {
    Absent,
    Text(Seq<char>),
    Binary(Seq<u8>),
}

impl View for RawValue {
    type V = RawKind;

    open spec fn view(&self) -> RawKind {
        match self {
            RawValue::Absent => RawKind::Absent,
            RawValue::Text(s) => RawKind::Text(s@),
            RawValue::Binary(b) => RawKind::Binary(b@),
        }
    }
}

/// One raw result row: named columns in order, looked up by name.
#[derive(Clone, Debug)]
pub struct Row {
    pub columns: Vec<(String, RawValue)>,
}

pub type RowV = Seq<(Seq<char>, RawKind)>;

impl View for Row {
    type V = RowV;

    open spec fn view(&self) -> RowV {
        Seq::new(self.columns@.len(), |i: int| (self.columns@[i].0@, self.columns@[i].1@))
    }
}

/// The first column of the given name, if any.
pub open spec fn spec_row_get(row: RowV, name: Seq<char>) -> Option<RawKind>
    decreases row.len(),
{
    if row.len() == 0 {
        None
    } else if row[0].0 == name {
        Some(row[0].1)
    } else {
        spec_row_get(row.skip(1), name)
    }
}

impl Row {
    pub fn new() -> (r: Row)
        ensures
            r@ == Seq::<(Seq<char>, RawKind)>::empty(),
    {
        let r = Row { columns: Vec::new() };
        proof {
            assert(r@ =~= Seq::<(Seq<char>, RawKind)>::empty());
        }
        r
    }

    /// Appends a named column.
    pub fn push(&mut self, name: String, value: RawValue)
        ensures
            final(self)@ == old(self)@ + seq![(name@, value@)],
    {
        self.columns.push((name, value));
        proof {
            assert(self@ =~= old(self)@ + seq![(name@, value@)]);
        }
    }

    /// The first column of the given name.
    pub fn get(&self, name: &str) -> (r: Option<&RawValue>)
        ensures
            match r {
                Some(v) => spec_row_get(self@, name@) == Some(v@),
                None => spec_row_get(self@, name@) is None,
            },
    {
        let n = self.columns.len();
        let mut i: usize = 0;
        proof {
            assert(self@.skip(0) =~= self@);
        }
        while i < n
            invariant
                0 <= i <= n,
                n == self@.len(),
                spec_row_get(self@, name@) == spec_row_get(self@.skip(i as int), name@),
            decreases n - i,
        {
            proof {
                let tail = self@.skip(i as int);
                assert(tail[0] == self@[i as int]);
                assert(tail.skip(1) =~= self@.skip(i + 1));
            }
            if str_eq(self.columns[i].0.as_str(), name) {
                return Some(&self.columns[i].1);
            }
            i += 1;
        }
        proof {
            assert(self@.skip(n as int) =~= Seq::<(Seq<char>, RawKind)>::empty());
        }
        None
    }
}

/// One decoded column value: the closed set of native shapes the
/// dynamic row decoder produces.  SQL NULL decodes to `Null`; array
/// columns go through the typed generic codec instead.
#[derive(Clone, Debug, PartialEq)]
pub enum Value {
    Null,
    Bool(bool),
    Int4(i32),
    Int8(i64),
    Float8(Float8),
    Text(String),
    Point(Point),
    Line(Line),
    Circle(Circle),
}

/// The mathematical shape of a decoded value.
pub enum ValueKind {
    Null,
    Bool(bool),
    Int4(i32),
    Int8(i64),
    Float8(Float8),
    Text(Seq<char>),
    Point(Point),
    Line(Line),
    Circle(Circle),
}

impl View for Value {
    type V = ValueKind;

    open spec fn view(&self) -> ValueKind {
        match self {
            Value::Null => ValueKind::Null,
            Value::Bool(b) => ValueKind::Bool(*b),
            Value::Int4(v) => ValueKind::Int4(*v),
            Value::Int8(v) => ValueKind::Int8(*v),
            Value::Float8(v) => ValueKind::Float8(*v),
            Value::Text(s) => ValueKind::Text(s@),
            Value::Point(p) => ValueKind::Point(*p),
            Value::Line(l) => ValueKind::Line(*l),
            Value::Circle(c) => ValueKind::Circle(*c),
        }
    }
}

impl DeepView for Value {
    type V = ValueKind;

    open spec fn deep_view(&self) -> ValueKind {
        self@
    }
}

/// Lifts a typed decode result into the dynamic value.
pub open spec fn lift<V>(r: Result<V, ErrorKind>, wrap: spec_fn(V) -> ValueKind) -> Result<
    ValueKind,
    ErrorKind,
> {
    match r {
        Ok(v) => Ok(wrap(v)),
        Err(e) => Err(e),
    }
}

/// What decoding one raw payload at a declared type yields: NULL is
/// the `Null` value, a payload goes through the type's own codec in
/// the format the row carries.
pub open spec fn spec_decode_value(ty: Type, raw: RawKind) -> Result<ValueKind, ErrorKind> {
    match raw {
        RawKind::Absent => Ok(ValueKind::Null),
        RawKind::Text(s) => match ty {
            Type::Bool => lift(bool::spec_from_text(ty, Some(s)), |b: bool| ValueKind::Bool(b)),
            Type::Int4 => lift(i32::spec_from_text(ty, Some(s)), |v: i32| ValueKind::Int4(v)),
            Type::Int8 => lift(i64::spec_from_text(ty, Some(s)), |v: i64| ValueKind::Int8(v)),
            Type::Float8 => lift(
                Float8::spec_from_text(ty, Some(s)),
                |v: Float8| ValueKind::Float8(v),
            ),
            Type::Varchar => lift(
                String::spec_from_text(ty, Some(s)),
                |v: Seq<char>| ValueKind::Text(v),
            ),
            Type::Point => lift(Point::spec_from_text(ty, Some(s)), |p: Point| ValueKind::Point(p)),
            Type::Line => lift(Line::spec_from_text(ty, Some(s)), |l: Line| ValueKind::Line(l)),
            Type::Circle => lift(
                Circle::spec_from_text(ty, Some(s)),
                |c: Circle| ValueKind::Circle(c),
            ),
            _ => Err(from_sql_error(ty, "Value"@, s)),
        },
        RawKind::Binary(b) => match ty {
            Type::Bool => lift(bool::spec_from_binary(ty, Some(b)), |v: bool| ValueKind::Bool(v)),
            Type::Int4 => lift(i32::spec_from_binary(ty, Some(b)), |v: i32| ValueKind::Int4(v)),
            Type::Int8 => lift(i64::spec_from_binary(ty, Some(b)), |v: i64| ValueKind::Int8(v)),
            Type::Float8 => lift(
                Float8::spec_from_binary(ty, Some(b)),
                |v: Float8| ValueKind::Float8(v),
            ),
            Type::Varchar => lift(
                String::spec_from_binary(ty, Some(b)),
                |v: Seq<char>| ValueKind::Text(v),
            ),
            Type::Point => lift(
                Point::spec_from_binary(ty, Some(b)),
                |p: Point| ValueKind::Point(p),
            ),
            Type::Line => lift(Line::spec_from_binary(ty, Some(b)), |l: Line| ValueKind::Line(l)),
            Type::Circle => lift(
                Circle::spec_from_binary(ty, Some(b)),
                |c: Circle| ValueKind::Circle(c),
            ),
            _ => Err(from_sql_error(ty, "Value"@, "binary"@)),
        },
    }
}

/// Decodes one raw payload at a declared type.
pub fn decode_value(ty: &Type, raw: &RawValue) -> (r: crate::Result<Value>)
    ensures
        decoded(r) == spec_decode_value(*ty, raw@),
{
    match raw {
        RawValue::Absent => Ok(Value::Null),
        RawValue::Text(s) => {
            let some_s = Some(s.as_str());
            match ty {
                Type::Bool => match bool::from_text(ty, some_s) {
                    Ok(v) => Ok(Value::Bool(v)),
                    Err(e) => Err(e),
                },
                Type::Int4 => match i32::from_text(ty, some_s) {
                    Ok(v) => Ok(Value::Int4(v)),
                    Err(e) => Err(e),
                },
                Type::Int8 => match i64::from_text(ty, some_s) {
                    Ok(v) => Ok(Value::Int8(v)),
                    Err(e) => Err(e),
                },
                Type::Float8 => match Float8::from_text(ty, some_s) {
                    Ok(v) => Ok(Value::Float8(v)),
                    Err(e) => Err(e),
                },
                Type::Varchar => match String::from_text(ty, some_s) {
                    Ok(v) => Ok(Value::Text(v)),
                    Err(e) => Err(e),
                },
                Type::Point => match Point::from_text(ty, some_s) {
                    Ok(v) => Ok(Value::Point(v)),
                    Err(e) => Err(e),
                },
                Type::Line => match Line::from_text(ty, some_s) {
                    Ok(v) => Ok(Value::Line(v)),
                    Err(e) => Err(e),
                },
                Type::Circle => match Circle::from_text(ty, some_s) {
                    Ok(v) => Ok(Value::Circle(v)),
                    Err(e) => Err(e),
                },
                _ => Err(crate::from_sql::text_error(ty, "Value", s.as_str())),
            }
        },
        RawValue::Binary(b) => {
            let some_b = Some(b.as_slice());
            match ty {
                Type::Bool => match bool::from_binary(ty, some_b) {
                    Ok(v) => Ok(Value::Bool(v)),
                    Err(e) => Err(e),
                },
                Type::Int4 => match i32::from_binary(ty, some_b) {
                    Ok(v) => Ok(Value::Int4(v)),
                    Err(e) => Err(e),
                },
                Type::Int8 => match i64::from_binary(ty, some_b) {
                    Ok(v) => Ok(Value::Int8(v)),
                    Err(e) => Err(e),
                },
                Type::Float8 => match Float8::from_binary(ty, some_b) {
                    Ok(v) => Ok(Value::Float8(v)),
                    Err(e) => Err(e),
                },
                Type::Varchar => match String::from_binary(ty, some_b) {
                    Ok(v) => Ok(Value::Text(v)),
                    Err(e) => Err(e),
                },
                Type::Point => match Point::from_binary(ty, some_b) {
                    Ok(v) => Ok(Value::Point(v)),
                    Err(e) => Err(e),
                },
                Type::Line => match Line::from_binary(ty, some_b) {
                    Ok(v) => Ok(Value::Line(v)),
                    Err(e) => Err(e),
                },
                Type::Circle => match Circle::from_binary(ty, some_b) {
                    Ok(v) => Ok(Value::Circle(v)),
                    Err(e) => Err(e),
                },
                _ => Err(crate::from_sql::binary_error(ty, "Value")),
            }
        },
    }
}

/// What decoding a whole row against a projection yields: each
/// declared field looked up by name — a missing one aborts with
/// `MissingField` — and decoded at its declared type, the first
/// failure aborting the row.
pub open spec fn spec_decode_row(fields: FieldsV, row: RowV) -> Result<
    Seq<(Seq<char>, ValueKind)>,
    ErrorKind,
>
    decreases fields.len(),
{
    if fields.len() == 0 {
        Ok(Seq::empty())
    } else {
        match spec_row_get(row, fields[0].0) {
            None => Err(ErrorKind::MissingField(fields[0].0)),
            Some(raw) => match spec_decode_value(fields[0].1.1, raw) {
                Err(e) => Err(e),
                Ok(v) => match spec_decode_row(fields.skip(1), row) {
                    Err(e) => Err(e),
                    Ok(rest) => Ok(seq![(fields[0].0, v)] + rest),
                },
            },
        }
    }
}

/// Decodes a row against a projection into the named values of one
/// entity; no partial entity survives a failure.
pub fn decode_row(projection: &Projection, row: &Row) -> (r: crate::Result<Vec<(String, Value)>>)
    ensures
        (match r {
            Ok(vals) => Ok::<_, ErrorKind>(
                Seq::new(vals@.len(), |i: int| (vals@[i].0@, vals@[i].1@)),
            ),
            Err(e) => Err(e@),
        }) == spec_decode_row(projection@, row@),
{
    let n = projection.fields.len();
    let mut out: Vec<(String, Value)> = Vec::new();
    let mut i: usize = 0;
    proof {
        assert(projection@.skip(0) =~= projection@);
        assert(Seq::new(out@.len(), |k: int| (out@[k].0@, out@[k].1@)) =~= Seq::<
            (Seq<char>, ValueKind),
        >::empty());
    }
    while i < n
        invariant
            0 <= i <= n,
            n == projection@.len(),
            spec_decode_row(projection@, row@) == (match spec_decode_row(
                projection@.skip(i as int),
                row@,
            ) {
                Ok(tv) => Ok::<_, ErrorKind>(
                    Seq::new(out@.len(), |k: int| (out@[k].0@, out@[k].1@)) + tv,
                ),
                Err(e) => Err::<Seq<(Seq<char>, ValueKind)>, ErrorKind>(e),
            }),
        decreases n - i,
    {
        let ghost tail = projection@.skip(i as int);
        proof {
            assert(tail[0] == projection@[i as int]);
            assert(tail.skip(1) =~= projection@.skip(i + 1));
        }
        let name = projection.fields[i].0.as_str();
        let raw = match row.get(name) {
            None => { return Err(Error::MissingField(String::from_str(name))) },
            Some(v) => v,
        };
        let v = match decode_value(&projection.fields[i].1.ty, raw) {
            Ok(v) => v,
            Err(e) => { return Err(e) },
        };
        let ghost prev = Seq::new(out@.len(), |k: int| (out@[k].0@, out@[k].1@));
        out.push((String::from_str(name), v));
        proof {
            let now = Seq::new(out@.len(), |k: int| (out@[k].0@, out@[k].1@));
            assert(now =~= prev + seq![(tail[0].0, v@)]);
            if spec_decode_row(projection@.skip(i + 1), row@) is Ok {
                let tv = spec_decode_row(projection@.skip(i + 1), row@)->Ok_0;
                assert(prev + (seq![(tail[0].0, v@)] + tv) =~= now + tv);
            }
        }
        i += 1;
    }
    proof {
        assert(projection@.skip(n as int) =~= Seq::<(Seq<char>, (Seq<char>, Type))>::empty());
        let fin = Seq::new(out@.len(), |k: int| (out@[k].0@, out@[k].1@));
        assert(fin + Seq::<(Seq<char>, ValueKind)>::empty() =~= fin);
    }
    Ok(out)
}

/// The abort law: a projection field with no matching column in the
/// row makes the whole row decode fail with `MissingField`, and with
/// the first such field's name.
pub proof fn lemma_decode_row_missing_field(fields: FieldsV, row: RowV, i: int)
    requires
        0 <= i < fields.len(),
        spec_row_get(row, fields[i].0) is None,
        forall|k: int|
            0 <= k < i ==> spec_row_get(row, (#[trigger] fields[k]).0) is Some
                && spec_decode_value(fields[k].1.1, spec_row_get(row, fields[k].0)->Some_0) is Ok,
    ensures
        spec_decode_row(fields, row) == Err::<Seq<(Seq<char>, ValueKind)>, ErrorKind>(
            ErrorKind::MissingField(fields[i].0),
        ),
    decreases i,
{
    if i == 0 {
    } else {
        assert(fields.skip(1)[i - 1] == fields[i]);
        assert(forall|k: int|
            0 <= k < i - 1 ==> (#[trigger] fields.skip(1)[k]) == fields[k + 1]);
        lemma_decode_row_missing_field(fields.skip(1), row, i - 1);
    }
}

} // verus!
