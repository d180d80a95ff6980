use elephantry::query::{build_pk_clause, insert_query, keys_match, present_fields, select_query};

#[test]
fn pk_clause_numbers_placeholders() {
    assert_eq!(build_pk_clause(&vec![String::from("uuid")]), "uuid = $1");
    assert_eq!(
        build_pk_clause(&vec![String::from("uuid"), String::from("name")]),
        "uuid = $1 AND name = $2"
    );
    assert_eq!(build_pk_clause(&vec![]), "");
}

#[test]
fn keys_match_is_exact() {
    let declared = vec![String::from("uuid")];
    assert!(keys_match(&vec![String::from("uuid")], &declared));
    assert!(!keys_match(&vec![String::from("name")], &declared));
    assert!(!keys_match(&vec![], &declared));
}

#[test]
fn select_queries() {
    assert_eq!(
        select_query("a AS a", "public.event", None),
        "SELECT a AS a FROM public.event;"
    );
    assert_eq!(
        select_query("a AS a", "public.event", Some("uuid = $1")),
        "SELECT a AS a FROM public.event WHERE uuid = $1;"
    );
}

#[test]
fn insert_queries() {
    assert_eq!(
        insert_query("public.event", &vec![String::from("uuid"), String::from("name")]),
        "INSERT INTO public.event (uuid, name) VALUES($1, $2) RETURNING *;"
    );
}

#[test]
fn present_fields_filters_in_order() {
    let names = vec![String::from("a"), String::from("b"), String::from("c")];
    let kept = present_fields(&names, &vec![true, false, true]);
    assert_eq!(kept, vec![String::from("a"), String::from("c")]);
}
