//! The type catalog: the closed set of database types this codec
//! supports, with their identifiers, names, and the array/element
//! relation.

use vstd::prelude::*;

verus! {

/// Identifier of a database column type, as the wire protocol tags it.
#[derive(Clone, Copy, Debug, PartialEq, Eq, Structural)]
pub enum Type {
    Bool,
    Int4,
    Int8,
    Float8,
    Varchar,
    Point,
    Line,
    Circle,
    BoolArray,
    Int4Array,
    Int8Array,
    Float8Array,
    VarcharArray,
    PointArray,
    LineArray,
    CircleArray,
}

impl Type {
    /// The numeric object identifier the database protocol uses for
    /// this type.
    pub open spec fn spec_oid(self) -> u32 {
        match self {
            Type::Bool => 16,
            Type::Int4 => 23,
            Type::Int8 => 20,
            Type::Float8 => 701,
            Type::Varchar => 1043,
            Type::Point => 600,
            Type::Line => 628,
            Type::Circle => 718,
            Type::BoolArray => 1000,
            Type::Int4Array => 1007,
            Type::Int8Array => 1016,
            Type::Float8Array => 1022,
            Type::VarcharArray => 1015,
            Type::PointArray => 1017,
            Type::LineArray => 629,
            Type::CircleArray => 719,
        }
    }

    pub fn oid(&self) -> (r: u32)
        ensures
            r == self.spec_oid(),
    {
        match self {
            Type::Bool => 16,
            Type::Int4 => 23,
            Type::Int8 => 20,
            Type::Float8 => 701,
            Type::Varchar => 1043,
            Type::Point => 600,
            Type::Line => 628,
            Type::Circle => 718,
            Type::BoolArray => 1000,
            Type::Int4Array => 1007,
            Type::Int8Array => 1016,
            Type::Float8Array => 1022,
            Type::VarcharArray => 1015,
            Type::PointArray => 1017,
            Type::LineArray => 629,
            Type::CircleArray => 719,
        }
    }

    /// The element type of an array type; scalar types have none.
    pub open spec fn spec_elem(self) -> Option<Type> {
        match self {
            Type::BoolArray => Some(Type::Bool),
            Type::Int4Array => Some(Type::Int4),
            Type::Int8Array => Some(Type::Int8),
            Type::Float8Array => Some(Type::Float8),
            Type::VarcharArray => Some(Type::Varchar),
            Type::PointArray => Some(Type::Point),
            Type::LineArray => Some(Type::Line),
            Type::CircleArray => Some(Type::Circle),
            _ => None,
        }
    }

    pub fn elem(&self) -> (r: Option<Type>)
        ensures
            r == self.spec_elem(),
    {
        match self {
            Type::BoolArray => Some(Type::Bool),
            Type::Int4Array => Some(Type::Int4),
            Type::Int8Array => Some(Type::Int8),
            Type::Float8Array => Some(Type::Float8),
            Type::VarcharArray => Some(Type::Varchar),
            Type::PointArray => Some(Type::Point),
            Type::LineArray => Some(Type::Line),
            Type::CircleArray => Some(Type::Circle),
            _ => None,
        }
    }

    /// The array type whose elements this type is.  An array type has
    /// no array of its own in the protocol; the mapping keeps it in
    /// place, and the decoders' type checks reject such a nesting.
    pub open spec fn spec_array_of(self) -> Type {
        match self {
            Type::Bool => Type::BoolArray,
            Type::Int4 => Type::Int4Array,
            Type::Int8 => Type::Int8Array,
            Type::Float8 => Type::Float8Array,
            Type::Varchar => Type::VarcharArray,
            Type::Point => Type::PointArray,
            Type::Line => Type::LineArray,
            Type::Circle => Type::CircleArray,
            _ => self,
        }
    }

    pub fn array_of(&self) -> (r: Type)
        ensures
            r == self.spec_array_of(),
    {
        match self {
            Type::Bool => Type::BoolArray,
            Type::Int4 => Type::Int4Array,
            Type::Int8 => Type::Int8Array,
            Type::Float8 => Type::Float8Array,
            Type::Varchar => Type::VarcharArray,
            Type::Point => Type::PointArray,
            Type::Line => Type::LineArray,
            Type::Circle => Type::CircleArray,
            _ => *self,
        }
    }

    /// The canonical name of the type in the catalog.
    pub open spec fn spec_name(self) -> Seq<char> {
        match self {
            Type::Bool => "bool"@,
            Type::Int4 => "int4"@,
            Type::Int8 => "int8"@,
            Type::Float8 => "float8"@,
            Type::Varchar => "varchar"@,
            Type::Point => "point"@,
            Type::Line => "line"@,
            Type::Circle => "circle"@,
            Type::BoolArray => "_bool"@,
            Type::Int4Array => "_int4"@,
            Type::Int8Array => "_int8"@,
            Type::Float8Array => "_float8"@,
            Type::VarcharArray => "_varchar"@,
            Type::PointArray => "_point"@,
            Type::LineArray => "_line"@,
            Type::CircleArray => "_circle"@,
        }
    }

    pub fn name(&self) -> (r: &'static str)
        ensures
            r@ == self.spec_name(),
    {
        match self {
            Type::Bool => "bool",
            Type::Int4 => "int4",
            Type::Int8 => "int8",
            Type::Float8 => "float8",
            Type::Varchar => "varchar",
            Type::Point => "point",
            Type::Line => "line",
            Type::Circle => "circle",
            Type::BoolArray => "_bool",
            Type::Int4Array => "_int4",
            Type::Int8Array => "_int8",
            Type::Float8Array => "_float8",
            Type::VarcharArray => "_varchar",
            Type::PointArray => "_point",
            Type::LineArray => "_line",
            Type::CircleArray => "_circle",
        }
    }
}

} // verus!
