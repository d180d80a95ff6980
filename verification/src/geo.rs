//! The geometric value types and their wire codecs.

pub mod coordinate;
pub mod point;
pub mod line;
pub mod circle;
