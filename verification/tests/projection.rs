use elephantry::pq::Type;
use elephantry::projection::{Projection, SqlField};

fn event_columns() -> Vec<(String, Type)> {
    vec![
        (String::from("uuid"), Type::Varchar),
        (String::from("name"), Type::Varchar),
        (String::from("visitor_id"), Type::Int4),
        (String::from("browser"), Type::Varchar),
    ]
}

#[test]
fn default_projection_has_placeholder_expressions() {
    let p = Projection::default_projection(&event_columns());
    assert_eq!(p.len(), 4);
    let f = p.get("visitor_id").unwrap();
    assert_eq!(f.content, "%:visitor_id:%");
    assert_eq!(f.ty, Type::Int4);
    assert!(p.get("os").is_none());
}

#[test]
fn set_field_overrides_without_touching_base() {
    let base = Projection::default_projection(&event_columns());
    let extended = base.set_field(
        "os",
        SqlField { content: String::from("%:browser:% ->> 'os'"), ty: Type::Varchar },
    );
    assert_eq!(extended.len(), 5);
    assert_eq!(extended.get("os").unwrap().content, "%:browser:% ->> 'os'");
    assert_eq!(extended.get("name").unwrap().content, "%:name:%");
    assert_eq!(base.len(), 4);
    assert!(base.get("os").is_none());
}

#[test]
fn set_field_replaces_in_place() {
    let base = Projection::default_projection(&event_columns());
    let v = base.set_field("name", SqlField { content: String::from("upper(name)"), ty: Type::Varchar });
    assert_eq!(v.len(), 4);
    assert_eq!(v.get("name").unwrap().content, "upper(name)");
    assert_eq!(base.get("name").unwrap().content, "%:name:%");
    assert_eq!(
        v.fields_name(),
        vec![
            String::from("uuid"),
            String::from("name"),
            String::from("visitor_id"),
            String::from("browser")
        ]
    );
}

#[test]
fn fields_name_keeps_insertion_order() {
    let p = Projection::default_projection(&event_columns());
    assert_eq!(
        p.fields_name(),
        vec![
            String::from("uuid"),
            String::from("name"),
            String::from("visitor_id"),
            String::from("browser")
        ]
    );
    assert_eq!(p.fields_name(), p.fields_name());
}

#[test]
fn expand_joins_expressions() {
    let mut cols = event_columns();
    cols.truncate(2);
    let p = Projection::default_projection(&cols);
    assert_eq!(p.expand(), "%:uuid:% AS uuid, %:name:% AS name");
}
