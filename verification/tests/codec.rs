use elephantry::errors::Error;
use elephantry::from_sql::FromSql;
use elephantry::to_sql::ToSql;
use elephantry::pq::Type;
use elephantry::scalar::{float8_text_round_trip as float8_law, Float8};

#[test]
fn int4_text_decode() {
    assert_eq!(i32::from_text(&Type::Int4, Some("1234")).unwrap(), 1234);
    assert_eq!(i32::from_text(&Type::Int4, Some("-17")).unwrap(), -17);
    assert_eq!(i32::from_text(&Type::Int4, Some("0")).unwrap(), 0);
}

#[test]
fn int4_text_decode_rejects_garbage() {
    assert!(matches!(i32::from_text(&Type::Int4, Some("12x")), Err(Error::FromSql { .. })));
    assert!(matches!(i32::from_text(&Type::Int4, Some("")), Err(Error::FromSql { .. })));
    assert!(matches!(i32::from_text(&Type::Int4, Some("-")), Err(Error::FromSql { .. })));
    assert!(matches!(i32::from_text(&Type::Int4, Some("1 2")), Err(Error::FromSql { .. })));
}

#[test]
fn int4_text_decode_rejects_out_of_range() {
    assert_eq!(i32::from_text(&Type::Int4, Some("2147483647")).unwrap(), i32::MAX);
    assert_eq!(i32::from_text(&Type::Int4, Some("-2147483648")).unwrap(), i32::MIN);
    assert!(matches!(i32::from_text(&Type::Int4, Some("2147483648")), Err(Error::FromSql { .. })));
    assert!(matches!(
        i32::from_text(&Type::Int4, Some("99999999999999999999999")),
        Err(Error::FromSql { .. })
    ));
}

#[test]
fn int4_rejects_wrong_type_id() {
    assert!(matches!(i32::from_text(&Type::Int8, Some("1")), Err(Error::FromSql { .. })));
    assert!(matches!(i32::from_binary(&Type::Bool, Some(&[0, 0, 0, 1])), Err(Error::FromSql { .. })));
}

#[test]
fn int4_text_round_trip() {
    for v in [0i32, 7, -7, 1234, i32::MAX, i32::MIN] {
        let t = v.to_text().unwrap().unwrap();
        assert_eq!(i32::from_text(&Type::Int4, Some(&t)).unwrap(), v);
    }
}

#[test]
fn int4_binary_round_trip() {
    for v in [0i32, 7, -7, 1234, i32::MAX, i32::MIN] {
        let b = v.to_binary().unwrap().unwrap();
        assert_eq!(b.len(), 4);
        assert_eq!(i32::from_binary(&Type::Int4, Some(&b)).unwrap(), v);
    }
    assert_eq!(1i32.to_binary().unwrap().unwrap(), vec![0, 0, 0, 1]);
}

#[test]
fn int8_round_trips() {
    for v in [0i64, 42, -42, i64::MAX, i64::MIN] {
        let t = v.to_text().unwrap().unwrap();
        assert_eq!(i64::from_text(&Type::Int8, Some(&t)).unwrap(), v);
        let b = v.to_binary().unwrap().unwrap();
        assert_eq!(b.len(), 8);
        assert_eq!(i64::from_binary(&Type::Int8, Some(&b)).unwrap(), v);
    }
}

#[test]
fn bool_codec() {
    assert_eq!(bool::from_text(&Type::Bool, Some("t")).unwrap(), true);
    assert_eq!(bool::from_text(&Type::Bool, Some("f")).unwrap(), false);
    assert!(matches!(bool::from_text(&Type::Bool, Some("true")), Err(Error::FromSql { .. })));
    assert_eq!(true.to_text().unwrap().unwrap(), "t");
    assert_eq!(false.to_text().unwrap().unwrap(), "f");
    assert_eq!(bool::from_binary(&Type::Bool, Some(&[1])).unwrap(), true);
    assert_eq!(bool::from_binary(&Type::Bool, Some(&[0])).unwrap(), false);
    assert!(matches!(bool::from_binary(&Type::Bool, Some(&[2])), Err(Error::FromSql { .. })));
    assert_eq!(true.to_binary().unwrap().unwrap(), vec![1]);
}

#[test]
fn varchar_codec() {
    let s = String::from("hello world");
    assert_eq!(String::from_text(&Type::Varchar, Some("hello world")).unwrap(), s);
    assert_eq!(s.to_text().unwrap().unwrap(), s);
    let b = s.to_binary().unwrap().unwrap();
    assert_eq!(b, s.as_bytes().to_vec());
    assert_eq!(String::from_binary(&Type::Varchar, Some(&b)).unwrap(), s);
}

#[test]
fn varchar_binary_rejects_invalid_utf8() {
    assert!(matches!(
        String::from_binary(&Type::Varchar, Some(&[0xff, 0xfe])),
        Err(Error::Utf8)
    ));
}

#[test]
fn absent_into_optional_is_none() {
    assert_eq!(Option::<i32>::from_text(&Type::Int4, None).unwrap(), None);
    assert_eq!(Option::<String>::from_binary(&Type::Varchar, None).unwrap(), None);
}

#[test]
fn absent_into_required_is_not_null() {
    assert!(matches!(i32::from_text(&Type::Int4, None), Err(Error::NotNull)));
    assert!(matches!(String::from_binary(&Type::Varchar, None), Err(Error::NotNull)));
    assert!(matches!(bool::from_text(&Type::Bool, None), Err(Error::NotNull)));
}

#[test]
fn error_messages() {
    assert_eq!(Error::NotNull.message(), "Try to retreive null field as non-option type");
    assert_eq!(Error::Unknow.message(), "Unknow error");
    assert_eq!(Error::MissingField(String::from("os")).message(), "Missing field os");
    assert_eq!(Error::Utf8.message(), "Invalid utf8 value");
    let e = Error::FromSql {
        pg_type: Type::Int4,
        rust_type: String::from("i32"),
        value: String::from("12x"),
    };
    assert_eq!(e.message(), "Invalid i32 value: 12x");
    let e = Error::ToSql {
        pg_type: Type::Int4,
        rust_type: String::from("i32"),
        message: None,
    };
    assert_eq!(e.message(), "Invalid i32 value: 'unknow'");
}

#[test]
fn type_catalog() {
    assert_eq!(Type::Int4.oid(), 23);
    assert_eq!(Type::Point.oid(), 600);
    assert_eq!(Type::Int4Array.elem(), Some(Type::Int4));
    assert_eq!(Type::Int4.elem(), None);
    assert_eq!(Type::Int4.array_of(), Type::Int4Array);
    assert_eq!(Type::Varchar.name(), "varchar");
    assert_eq!(Type::Int4Array.name(), "_int4");
}

#[test]
fn float8_codec() {
    let v = Float8::new(5.1f64.to_bits());
    let t = v.to_text().unwrap().unwrap();
    assert_eq!(Float8::from_text(&Type::Float8, Some(&t)).unwrap(), v);
    let b = v.to_binary().unwrap().unwrap();
    assert_eq!(b, 5.1f64.to_be_bytes().to_vec());
    assert_eq!(Float8::from_binary(&Type::Float8, Some(&b)).unwrap(), v);
    assert!(matches!(
        Float8::from_text(&Type::Float8, Some("not a number")),
        Err(Error::FromSql { .. })
    ));
}

#[test]
fn float8_text_round_trip_law_function() {
    let v = Float8::new((-123.456f64).to_bits());
    assert_eq!(float8_law(&v).unwrap(), v);
}
