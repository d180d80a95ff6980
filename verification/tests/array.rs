use elephantry::errors::Error;
use elephantry::from_sql::FromSql;
use elephantry::to_sql::ToSql;
use elephantry::pq::Type;

#[test]
fn array_with_null_element_decodes() {
    let v = Vec::<Option<i32>>::from_text(&Type::Int4Array, Some("{1,NULL,3}")).unwrap();
    assert_eq!(v, vec![Some(1), None, Some(3)]);
}

#[test]
fn array_with_null_element_re_encodes() {
    let v = vec![Some(1), None, Some(3)];
    let t = v.to_text().unwrap().unwrap();
    assert_eq!(t, "{1,NULL,3}");
    let back = Vec::<Option<i32>>::from_text(&Type::Int4Array, Some(&t)).unwrap();
    assert_eq!(back, v);
}

#[test]
fn int_array_text_round_trip() {
    let v: Vec<i32> = vec![1, -2, 3];
    let t = v.to_text().unwrap().unwrap();
    assert_eq!(t, "{1,-2,3}");
    assert_eq!(Vec::<i32>::from_text(&Type::Int4Array, Some(&t)).unwrap(), v);
}

#[test]
fn empty_array_text() {
    let v: Vec<i32> = vec![];
    assert_eq!(v.to_text().unwrap().unwrap(), "{}");
    assert_eq!(Vec::<i32>::from_text(&Type::Int4Array, Some("{}")).unwrap(), v);
}

#[test]
fn string_array_quoting_round_trip() {
    let v = vec![
        String::from("plain"),
        String::from("with space"),
        String::from("a,b"),
        String::from("say \"hi\""),
        String::from("back\\slash"),
        String::from("NULL"),
        String::from(""),
    ];
    let t = v.to_text().unwrap().unwrap();
    let back = Vec::<String>::from_text(&Type::VarcharArray, Some(&t)).unwrap();
    assert_eq!(back, v);
}

#[test]
fn quoted_null_sentinel_stays_a_string() {
    let t = "{\"NULL\",NULL}";
    let v = Vec::<Option<String>>::from_text(&Type::VarcharArray, Some(t)).unwrap();
    assert_eq!(v, vec![Some(String::from("NULL")), None]);
}

#[test]
fn array_element_failure_aborts_decode() {
    assert!(matches!(
        Vec::<i32>::from_text(&Type::Int4Array, Some("{1,x,3}")),
        Err(Error::FromSql { .. })
    ));
    assert!(matches!(
        Vec::<i32>::from_text(&Type::Int4Array, Some("{1,NULL,3}")),
        Err(Error::NotNull)
    ));
}

#[test]
fn array_text_rejects_bad_grammar() {
    assert!(matches!(
        Vec::<i32>::from_text(&Type::Int4Array, Some("1,2,3")),
        Err(Error::FromSql { .. })
    ));
    assert!(matches!(
        Vec::<i32>::from_text(&Type::Int4Array, Some("{1,,3}")),
        Err(Error::FromSql { .. })
    ));
    assert!(matches!(
        Vec::<i32>::from_text(&Type::Int4Array, Some("{1,{2},3}")),
        Err(Error::FromSql { .. })
    ));
}

#[test]
fn array_binary_round_trip() {
    let v: Vec<Option<i32>> = vec![Some(1), None, Some(3)];
    let b = v.to_binary().unwrap().unwrap();
    assert_eq!(&b[0..4], &[0, 0, 0, 1]);
    assert_eq!(&b[4..8], &[0, 0, 0, 1]);
    assert_eq!(&b[8..12], &[0, 0, 0, 23]);
    assert_eq!(&b[12..16], &[0, 0, 0, 3]);
    let back = Vec::<Option<i32>>::from_binary(&Type::Int4Array, Some(&b)).unwrap();
    assert_eq!(back, v);
}

#[test]
fn array_binary_empty_is_zero_dimensional() {
    let v: Vec<i32> = vec![];
    let b = v.to_binary().unwrap().unwrap();
    assert_eq!(b, vec![0, 0, 0, 0, 0, 0, 0, 0, 0, 0, 0, 23]);
    assert_eq!(Vec::<i32>::from_binary(&Type::Int4Array, Some(&b)).unwrap(), v);
}

#[test]
fn array_binary_rejects_trailing_bytes() {
    let v: Vec<i32> = vec![1];
    let mut b = v.to_binary().unwrap().unwrap();
    b.push(0);
    assert!(matches!(
        Vec::<i32>::from_binary(&Type::Int4Array, Some(&b)),
        Err(Error::FromSql { .. })
    ));
}

#[test]
fn array_type_of() {
    let v: Vec<i32> = vec![];
    assert_eq!(v.ty(), Type::Int4Array);
    let v: Vec<Option<String>> = vec![];
    assert_eq!(v.ty(), Type::VarcharArray);
}

#[test]
fn array_text_tolerates_surrounding_whitespace() {
    let v = Vec::<Option<i32>>::from_text(&Type::Int4Array, Some("  {1,NULL,3} ")).unwrap();
    assert_eq!(v, vec![Some(1), None, Some(3)]);
    assert!(matches!(
        Vec::<i32>::from_text(&Type::Int4Array, Some("{1, 2}")),
        Err(Error::FromSql { .. })
    ));
}
