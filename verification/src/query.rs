//! The query text builders: the deterministic string construction
//! that surrounds query execution — primary-key clauses, SELECT
//! statements and INSERT statements with numbered placeholders.

use vstd::prelude::*;
use crate::text::{dec_seq, u64_to_string, str_eq};

verus! {

/// The `key = $i` clauses of a primary-key lookup, joined with
/// ` AND `, placeholders numbered from 1 in key order.
pub open spec fn spec_pk_clause(keys: Seq<Seq<char>>) -> Seq<char>
    decreases keys.len(),
{
    if keys.len() == 0 {
        Seq::empty()
    } else if keys.len() == 1 {
        keys[0] + " = $"@ + dec_seq(1)
    } else {
        spec_pk_clause(keys.drop_last()) + " AND "@ + keys.last() + " = $"@ + dec_seq(
            keys.len() as int,
        )
    }
}

/// Builds the WHERE clause of a primary-key lookup.
pub fn build_pk_clause(keys: &Vec<String>) -> (r: String)
    requires
        keys@.len() <= 0xFFFF_FFFF,
    ensures
        r@ == spec_pk_clause(keys.deep_view()),
{
    let n = keys.len();
    let mut s = String::new();
    let mut i: usize = 0;
    proof {
        assert(keys.deep_view().take(0) =~= Seq::<Seq<char>>::empty());
    }
    while i < n
        invariant
            0 <= i <= n,
            n == keys@.len(),
            n <= 0xFFFF_FFFF,
            s@ == spec_pk_clause(keys.deep_view().take(i as int)),
        decreases n - i,
    {
        if i > 0 {
            s.append(" AND ");
        }
        s.append(keys[i].as_str());
        s.append(" = $");
        s.append(u64_to_string((i + 1) as u64).as_str());
        proof {
            reveal_strlit(" AND ");
            reveal_strlit(" = $");
            let ks = keys.deep_view();
            assert(ks.take(i + 1).drop_last() =~= ks.take(i as int));
            assert(ks.take(i + 1).last() == ks[i as int]);
            assert(ks[i as int] == keys@[i as int]@);
            if i == 0 {
                assert(s@ =~= spec_pk_clause(ks.take(1)));
            } else {
                assert(s@ =~= spec_pk_clause(ks.take(i + 1)));
            }
        }
        i += 1;
    }
    proof {
        assert(keys.deep_view().take(n as int) =~= keys.deep_view());
    }
    s
}

/// Whether the given keys are exactly the declared primary key, in
/// order.  A lookup with any other key set is refused by the caller.
pub fn keys_match(given: &Vec<String>, declared: &Vec<String>) -> (r: bool)
    ensures
        r == (given.deep_view() == declared.deep_view()),
{
    let n = given.len();
    if n != declared.len() {
        proof {
            assert(given.deep_view().len() == given@.len());
            assert(declared.deep_view().len() == declared@.len());
        }
        return false;
    }
    let mut i: usize = 0;
    while i < n
        invariant
            0 <= i <= n,
            n == given@.len(),
            n == declared@.len(),
            forall|k: int| 0 <= k < i ==> given.deep_view()[k] == declared.deep_view()[k],
        decreases n - i,
    {
        if !str_eq(given[i].as_str(), declared[i].as_str()) {
            proof {
                assert(given.deep_view()[i as int] == given@[i as int]@);
                assert(declared.deep_view()[i as int] == declared@[i as int]@);
            }
            return false;
        }
        i += 1;
    }
    proof {
        assert(given.deep_view() =~= declared.deep_view());
    }
    true
}

/// The full SELECT text: the projection's column list, the relation,
/// and an optional WHERE clause.
pub open spec fn spec_select_query(
    projection: Seq<char>,
    relation: Seq<char>,
    clause: Option<Seq<char>>,
) -> Seq<char> {
    "SELECT "@ + projection + " FROM "@ + relation + (match clause {
        Some(c) => " WHERE "@ + c,
        None => Seq::empty(),
    }) + ";"@
}

pub fn select_query(projection: &str, relation: &str, clause: Option<&str>) -> (r: String)
    ensures
        r@ == spec_select_query(
            projection@,
            relation@,
            match clause {
                Some(c) => Some(c@),
                None => None,
            },
        ),
{
    let mut s = String::from_str("SELECT ");
    s.append(projection);
    s.append(" FROM ");
    s.append(relation);
    match clause {
        Some(c) => {
            s.append(" WHERE ");
            s.append(c);
        },
        None => {},
    }
    s.append(";");
    proof {
        assert(s@ =~= spec_select_query(
            projection@,
            relation@,
            match clause {
                Some(c) => Some(c@),
                None => None,
            },
        ));
    }
    s
}

/// Names joined with `, `.
pub open spec fn spec_join_names(names: Seq<Seq<char>>) -> Seq<char>
    decreases names.len(),
{
    if names.len() == 0 {
        Seq::empty()
    } else if names.len() == 1 {
        names[0]
    } else {
        spec_join_names(names.drop_last()) + ", "@ + names.last()
    }
}

/// The `$1, $2, ...` placeholder list for `n` values.
pub open spec fn spec_placeholders(n: int) -> Seq<char>
    decreases n,
{
    if n <= 0 {
        Seq::empty()
    } else if n == 1 {
        "$"@ + dec_seq(1)
    } else {
        spec_placeholders(n - 1) + ", "@ + "$"@ + dec_seq(n)
    }
}

/// The full INSERT text for the given present fields, every value a
/// numbered placeholder, returning the stored row.
pub open spec fn spec_insert_query(relation: Seq<char>, fields: Seq<Seq<char>>) -> Seq<char> {
    "INSERT INTO "@ + relation + " ("@ + spec_join_names(fields) + ") VALUES("@
        + spec_placeholders(fields.len() as int) + ") RETURNING *;"@
}

pub fn insert_query(relation: &str, fields: &Vec<String>) -> (r: String)
    requires
        fields@.len() <= 0xFFFF_FFFF,
    ensures
        r@ == spec_insert_query(relation@, fields.deep_view()),
{
    let n = fields.len();
    let mut s = String::from_str("INSERT INTO ");
    s.append(relation);
    s.append(" (");
    let ghost fs = fields.deep_view();
    let mut i: usize = 0;
    proof {
        reveal_strlit("INSERT INTO ");
        reveal_strlit(" (");
        assert(fs.take(0) =~= Seq::<Seq<char>>::empty());
        assert(s@ =~= "INSERT INTO "@ + relation@ + " ("@ + spec_join_names(fs.take(0)));
    }
    while i < n
        invariant
            0 <= i <= n,
            n == fields@.len(),
            fs == fields.deep_view(),
            s@ == "INSERT INTO "@ + relation@ + " ("@ + spec_join_names(fs.take(i as int)),
        decreases n - i,
    {
        if i > 0 {
            s.append(", ");
        }
        s.append(fields[i].as_str());
        proof {
            reveal_strlit(", ");
            assert(fs.take(i + 1).drop_last() =~= fs.take(i as int));
            assert(fs.take(i + 1).last() == fs[i as int]);
            assert(fs[i as int] == fields@[i as int]@);
            assert(s@ =~= "INSERT INTO "@ + relation@ + " ("@ + spec_join_names(fs.take(i + 1)));
        }
        i += 1;
    }
    proof {
        assert(fs.take(n as int) =~= fs);
    }
    s.append(") VALUES(");
    proof {
        reveal_strlit(") VALUES(");
    }
    let mut j: usize = 0;
    proof {
        assert(s@ =~= "INSERT INTO "@ + relation@ + " ("@ + spec_join_names(fs) + ") VALUES("@
            + spec_placeholders(0));
    }
    while j < n
        invariant
            0 <= j <= n,
            n == fields@.len(),
            n <= 0xFFFF_FFFF,
            fs == fields.deep_view(),
            s@ == "INSERT INTO "@ + relation@ + " ("@ + spec_join_names(fs) + ") VALUES("@
                + spec_placeholders(j as int),
        decreases n - j,
    {
        if j > 0 {
            s.append(", ");
        }
        s.append("$");
        s.append(u64_to_string((j + 1) as u64).as_str());
        proof {
            reveal_strlit(", ");
            reveal_strlit("$");
            assert(s@ =~= "INSERT INTO "@ + relation@ + " ("@ + spec_join_names(fs) + ") VALUES("@
                + spec_placeholders(j + 1));
        }
        j += 1;
    }
    s.append(") RETURNING *;");
    proof {
        reveal_strlit(") RETURNING *;");
        assert(s@ =~= spec_insert_query(relation@, fs));
    }
    s
}

/// The fields an insert keeps: those whose values the entity has, in
/// projection order.
pub open spec fn spec_present(names: Seq<Seq<char>>, present: Seq<bool>) -> Seq<Seq<char>>
    decreases names.len(),
{
    if names.len() == 0 || present.len() == 0 {
        Seq::empty()
    } else {
        (if present[0] {
            seq![names[0]]
        } else {
            Seq::empty()
        }) + spec_present(names.skip(1), present.skip(1))
    }
}

/// Keeps the names whose matching flag is set, in order.
pub fn present_fields(names: &Vec<String>, present: &Vec<bool>) -> (r: Vec<String>)
    requires
        names@.len() == present@.len(),
    ensures
        r.deep_view() == spec_present(names.deep_view(), present@),
{
    let n = names.len();
    let mut out: Vec<String> = Vec::new();
    let mut i: usize = 0;
    proof {
        assert(names.deep_view().skip(0) =~= names.deep_view());
        assert(out.deep_view() =~= Seq::<Seq<char>>::empty());
        assert(out.deep_view() + spec_present(names.deep_view(), present@) =~= spec_present(
            names.deep_view(),
            present@,
        ));
        assert(present@.skip(0) =~= present@);
    }
    while i < n
        invariant
            0 <= i <= n,
            n == names@.len(),
            n == present@.len(),
            spec_present(names.deep_view(), present@) == out.deep_view() + spec_present(
                names.deep_view().skip(i as int),
                present@.skip(i as int),
            ),
        decreases n - i,
    {
        let ghost nt = names.deep_view().skip(i as int);
        let ghost pt = present@.skip(i as int);
        proof {
            assert(nt[0] == names.deep_view()[i as int]);
            assert(pt[0] == present@[i as int]);
            assert(nt.skip(1) =~= names.deep_view().skip(i + 1));
            assert(pt.skip(1) =~= present@.skip(i + 1));
        }
        if present[i] {
            let ghost prev = out.deep_view();
            out.push(String::from_str(names[i].as_str()));
            proof {
                assert(out.deep_view() =~= prev + seq![names.deep_view()[i as int]]);
                assert((prev + seq![names.deep_view()[i as int]]) + spec_present(
                    names.deep_view().skip(i + 1),
                    present@.skip(i + 1),
                ) =~= prev + spec_present(nt, pt));
            }
        } else {
            proof {
                assert(out.deep_view() + spec_present(
                    names.deep_view().skip(i + 1),
                    present@.skip(i + 1),
                ) =~= out.deep_view() + spec_present(nt, pt));
            }
        }
        i += 1;
    }
    proof {
        assert(names.deep_view().skip(n as int) =~= Seq::<Seq<char>>::empty());
        assert(out.deep_view() + Seq::<Seq<char>>::empty() =~= out.deep_view());
    }
    out
}

} // verus!
