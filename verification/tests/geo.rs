use elephantry::errors::Error;
use elephantry::from_sql::FromSql;
use elephantry::to_sql::ToSql;
use elephantry::pq::Type;
use elephantry::geo::point::Point;
use elephantry::geo::line::Line;
use elephantry::geo::circle::Circle;
use elephantry::geo::coordinate::{Coordinate, Coordinates, tokens};
use elephantry::geo::point::point_text_round_trip as point_law;
use elephantry::geo::line::line_text_round_trip as line_law;
use elephantry::geo::circle::circle_text_round_trip as circle_law;

fn bits(v: f64) -> u64 {
    v.to_bits()
}

#[test]
fn point_text_decode_origin() {
    let p = Point::from_text(&Type::Point, Some("(0,0)")).unwrap();
    assert_eq!(p, Point::new(bits(0.0), bits(0.0)));
}

#[test]
fn point_text_decode_fractional() {
    let p = Point::from_text(&Type::Point, Some("(5.1, 10.12345)")).unwrap();
    assert_eq!(p, Point::new(bits(5.1), bits(10.12345)));
}

#[test]
fn point_text_decode_rejects_three_coordinates() {
    assert!(matches!(
        Point::from_text(&Type::Point, Some("(0,0,0)")),
        Err(Error::FromSql { .. })
    ));
}

#[test]
fn point_text_decode_rejects_single_coordinate() {
    assert!(matches!(Point::from_text(&Type::Point, Some("(1)")), Err(Error::FromSql { .. })));
    assert!(matches!(Point::from_text(&Type::Point, Some("nope")), Err(Error::FromSql { .. })));
}

#[test]
fn point_text_round_trip() {
    for (x, y) in [(0.0, 0.0), (5.1, 10.12345), (-3.25, 1e300), (-0.0, 2.5)] {
        let p = Point::new(bits(x), bits(y));
        let t = p.to_text().unwrap().unwrap();
        assert_eq!(Point::from_text(&Type::Point, Some(&t)).unwrap(), p);
    }
}

#[test]
fn point_binary_round_trip() {
    let p = Point::new(bits(5.1), bits(-2.0));
    let b = p.to_binary().unwrap().unwrap();
    assert_eq!(b.len(), 16);
    assert_eq!(&b[0..8], &5.1f64.to_be_bytes());
    assert_eq!(&b[8..16], &(-2.0f64).to_be_bytes());
    assert_eq!(Point::from_binary(&Type::Point, Some(&b)).unwrap(), p);
}

#[test]
fn line_text_decode_delegates_to_circle() {
    let l = Line::from_text(&Type::Line, Some("{1, 2, 3}")).unwrap();
    assert_eq!(l, Line::new(bits(1.0), bits(2.0), bits(3.0)));
}

#[test]
fn line_circle_binary_delegation() {
    let l = Line::new(bits(1.0), bits(2.0), bits(3.0));
    let c = Circle::new(bits(1.0), bits(2.0), bits(3.0));
    assert_eq!(l.to_binary().unwrap().unwrap(), c.to_binary().unwrap().unwrap());
}

#[test]
fn line_and_circle_stay_distinct_types() {
    let l = Line::new(bits(1.0), bits(2.0), bits(3.0));
    assert_eq!(l.ty(), Type::Line);
    let c = Circle::new(bits(1.0), bits(2.0), bits(3.0));
    assert_eq!(c.ty(), Type::Circle);
    assert!(matches!(
        Point::from_text(&Type::Line, Some("(0,0)")),
        Err(Error::FromSql { .. })
    ));
}

#[test]
fn line_text_round_trip() {
    let l = Line::new(bits(1.5), bits(-2.0), bits(0.25));
    let t = l.to_text().unwrap().unwrap();
    assert_eq!(Line::from_text(&Type::Line, Some(&t)).unwrap(), l);
}

#[test]
fn line_binary_round_trip() {
    let l = Line::new(bits(1.0), bits(2.0), bits(3.0));
    let b = l.to_binary().unwrap().unwrap();
    assert_eq!(b.len(), 24);
    assert_eq!(Line::from_binary(&Type::Line, Some(&b)).unwrap(), l);
}

#[test]
fn circle_text_round_trip() {
    let c = Circle::new(bits(1.0), bits(-2.5), bits(3.0));
    let t = c.to_text().unwrap().unwrap();
    assert_eq!(t.chars().next(), Some('<'));
    assert_eq!(Circle::from_text(&Type::Circle, Some(&t)).unwrap(), c);
}

#[test]
fn coordinate_scanner_pairs_and_discards_trailing() {
    let c = Coordinates::from_str("(1,2),(3,4)").unwrap();
    assert_eq!(
        c.0,
        vec![Coordinate::new(bits(1.0), bits(2.0)), Coordinate::new(bits(3.0), bits(4.0))]
    );
    let c = Coordinates::from_str("1 2 3").unwrap();
    assert_eq!(c.0, vec![Coordinate::new(bits(1.0), bits(2.0))]);
    let c = Coordinates::from_str("no numbers here").unwrap();
    assert_eq!(c.0, vec![]);
}

#[test]
fn coordinate_scanner_tokens() {
    let t = tokens("(5.1, -10.2)");
    assert_eq!(t, vec![String::from("5.1"), String::from("-10.2")]);
}

#[test]
fn point_decode_absent_fails_not_null() {
    assert!(matches!(Point::from_text(&Type::Point, None), Err(Error::NotNull)));
    assert!(matches!(Line::from_binary(&Type::Line, None), Err(Error::NotNull)));
}

#[test]
fn text_round_trip_law_functions() {
    let p = Point::new(bits(5.1), bits(-0.5));
    assert_eq!(point_law(&p).unwrap(), p);
    let l = Line::new(bits(1.0), bits(2.0), bits(3.0));
    assert_eq!(line_law(&l).unwrap(), l);
    let c = Circle::new(bits(0.125), bits(7.0), bits(2.5));
    assert_eq!(circle_law(&c).unwrap(), c);
}
