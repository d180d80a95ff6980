use elephantry::errors::Error;
use elephantry::pq::Type;
use elephantry::projection::{Projection, SqlField};
use elephantry::row::{decode_row, decode_value, RawValue, Row, Value};
use elephantry::geo::point::Point;
use elephantry::scalar::Float8;

fn projection() -> Projection {
    Projection::default_projection(&vec![
        (String::from("name"), Type::Varchar),
        (String::from("visitor_id"), Type::Int4),
        (String::from("position"), Type::Point),
    ])
}

fn full_row() -> Row {
    let mut row = Row::new();
    row.push(String::from("name"), RawValue::Text(String::from("event")));
    row.push(String::from("visitor_id"), RawValue::Text(String::from("1234")));
    row.push(String::from("position"), RawValue::Text(String::from("(1,2)")));
    row
}

#[test]
fn row_decodes_into_named_values() {
    let vals = decode_row(&projection(), &full_row()).unwrap();
    assert_eq!(vals.len(), 3);
    assert_eq!(vals[0], (String::from("name"), Value::Text(String::from("event"))));
    assert_eq!(vals[1], (String::from("visitor_id"), Value::Int4(1234)));
    assert_eq!(
        vals[2],
        (String::from("position"), Value::Point(Point::new(1.0f64.to_bits(), 2.0f64.to_bits())))
    );
}

#[test]
fn missing_field_aborts_row_decode() {
    let mut row = Row::new();
    row.push(String::from("name"), RawValue::Text(String::from("event")));
    row.push(String::from("position"), RawValue::Text(String::from("(1,2)")));
    match decode_row(&projection(), &row) {
        Err(Error::MissingField(f)) => assert_eq!(f, "visitor_id"),
        other => panic!("expected MissingField, got {:?}", other),
    }
}

#[test]
fn field_failure_aborts_row_decode() {
    let mut row = full_row();
    row.push(String::from("ignored"), RawValue::Absent);
    let mut bad = Row::new();
    bad.push(String::from("name"), RawValue::Text(String::from("event")));
    bad.push(String::from("visitor_id"), RawValue::Text(String::from("not-a-number")));
    bad.push(String::from("position"), RawValue::Text(String::from("(1,2)")));
    assert!(matches!(decode_row(&projection(), &bad), Err(Error::FromSql { .. })));
}

#[test]
fn decode_value_dispatches_by_type() {
    assert_eq!(
        decode_value(&Type::Bool, &RawValue::Text(String::from("t"))).unwrap(),
        Value::Bool(true)
    );
    assert_eq!(
        decode_value(&Type::Int8, &RawValue::Binary(vec![0, 0, 0, 0, 0, 0, 0, 9])).unwrap(),
        Value::Int8(9)
    );
    assert_eq!(decode_value(&Type::Int4, &RawValue::Absent).unwrap(), Value::Null);
    assert!(matches!(
        decode_value(&Type::Int4Array, &RawValue::Text(String::from("{1}"))),
        Err(Error::FromSql { .. })
    ));
}

#[test]
fn row_lookup_is_by_name_not_position() {
    let mut row = Row::new();
    row.push(String::from("position"), RawValue::Text(String::from("(1,2)")));
    row.push(String::from("visitor_id"), RawValue::Text(String::from("1234")));
    row.push(String::from("name"), RawValue::Text(String::from("event")));
    let vals = decode_row(&projection(), &row).unwrap();
    assert_eq!(vals[0].0, "name");
    assert_eq!(vals[1], (String::from("visitor_id"), Value::Int4(1234)));
}

#[test]
fn decode_value_float8() {
    assert_eq!(
        decode_value(&Type::Float8, &RawValue::Text(String::from("2.5"))).unwrap(),
        Value::Float8(Float8::new(2.5f64.to_bits()))
    );
}
