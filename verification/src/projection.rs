//! The projection: an ordered mapping from field name to source SQL
//! expression and declared type, defining a query's output shape.
//! A projection has value semantics: deriving a variant never touches
//! the base.

use vstd::prelude::*;
use crate::pq::Type;
use crate::text::str_eq;

verus! {

/// One projected field: its source expression and declared type.
#[derive(Clone, Debug)]
pub struct SqlField {
    pub content: String,
    pub ty: Type,
}

impl View for SqlField {
    type V = (Seq<char>, Type);

    open spec fn view(&self) -> (Seq<char>, Type) {
        (self.content@, self.ty)
    }
}

/// The ordered field list of a projection, read mathematically.
pub type FieldsV = Seq<(Seq<char>, (Seq<char>, Type))>;

/// The first field of the given name, if any.
pub open spec fn spec_find(fields: FieldsV, name: Seq<char>) -> Option<(Seq<char>, Type)>
    decreases fields.len(),
{
    if fields.len() == 0 {
        None
    } else if fields[0].0 == name {
        Some(fields[0].1)
    } else {
        spec_find(fields.skip(1), name)
    }
}

pub open spec fn spec_contains(fields: FieldsV, name: Seq<char>) -> bool {
    spec_find(fields, name) is Some
}

/// Replaces the named field in place, or appends it at the end.
pub open spec fn spec_set_field(fields: FieldsV, name: Seq<char>, f: (Seq<char>, Type)) -> FieldsV
    decreases fields.len(),
{
    if fields.len() == 0 {
        seq![(name, f)]
    } else if fields[0].0 == name {
        seq![(name, f)] + fields.skip(1)
    } else {
        seq![fields[0]] + spec_set_field(fields.skip(1), name, f)
    }
}

/// An ordered projection.
#[derive(Clone, Debug)]
pub struct Projection {
    pub fields: Vec<(String, SqlField)>,
}

impl View for Projection {
    type V = FieldsV;

    open spec fn view(&self) -> FieldsV {
        Seq::new(self.fields@.len(), |i: int| (self.fields@[i].0@, self.fields@[i].1@))
    }
}

/// The `expression AS name` text of one field.
pub open spec fn field_sql(name: Seq<char>, content: Seq<char>) -> Seq<char> {
    content + " AS "@ + name
}

/// The comma-joined column-expression list of a projection.
pub open spec fn spec_expand(fields: FieldsV) -> Seq<char>
    decreases fields.len(),
{
    if fields.len() == 0 {
        Seq::empty()
    } else if fields.len() == 1 {
        field_sql(fields[0].0, fields[0].1.0)
    } else {
        spec_expand(fields.drop_last()) + ", "@ + field_sql(fields.last().0, fields.last().1.0)
    }
}

impl Projection {
    /// The empty projection.
    pub fn new() -> (r: Projection)
        ensures
            r@ == Seq::<(Seq<char>, (Seq<char>, Type))>::empty(),
    {
        let r = Projection { fields: Vec::new() };
        proof {
            assert(r@ =~= Seq::<(Seq<char>, (Seq<char>, Type))>::empty());
        }
        r
    }

    /// One field per declared column, in order, each with the
    /// placeholder expression `%:name:%` the query compiler resolves
    /// later, and the column's declared type.
    pub fn default_projection(columns: &Vec<(String, Type)>) -> (r: Projection)
        ensures
            r@.len() == columns@.len(),
            forall|i: int|
                0 <= i < columns@.len() ==> (#[trigger] r@[i]) == (
                columns@[i].0@,
                ("%:"@ + columns@[i].0@ + ":%"@, columns@[i].1),
                ),
    {
        let n = columns.len();
        let mut fields: Vec<(String, SqlField)> = Vec::new();
        let mut i: usize = 0;
        while i < n
            invariant
                0 <= i <= n,
                n == columns@.len(),
                fields@.len() == i,
                forall|k: int|
                    0 <= k < i ==> (#[trigger] fields@[k].0@, (fields@[k].1@)) == (
                    columns@[k].0@,
                    ("%:"@ + columns@[k].0@ + ":%"@, columns@[k].1),
                    ),
            decreases n - i,
        {
            let name = String::from_str(columns[i].0.as_str());
            let mut content = String::from_str("%:");
            content.append(columns[i].0.as_str());
            content.append(":%");
            fields.push((name, SqlField { content, ty: columns[i].1 }));
            i += 1;
        }
        Projection { fields }
    }

    /// The number of fields.
    pub fn len(&self) -> (r: usize)
        ensures
            r == self@.len(),
    {
        self.fields.len()
    }

    /// The field of the given name, if the projection has one.
    pub fn get(&self, name: &str) -> (r: Option<&SqlField>)
        ensures
            match r {
                Some(f) => spec_find(self@, name@) == Some(f@),
                None => spec_find(self@, name@) is None,
            },
    {
        let n = self.fields.len();
        let mut i: usize = 0;
        proof {
            assert(self@.skip(0) =~= self@);
        }
        while i < n
            invariant
                0 <= i <= n,
                n == self@.len(),
                spec_find(self@, name@) == spec_find(self@.skip(i as int), name@),
            decreases n - i,
        {
            proof {
                let tail = self@.skip(i as int);
                assert(tail[0] == self@[i as int]);
                assert(tail.skip(1) =~= self@.skip(i + 1));
            }
            if str_eq(self.fields[i].0.as_str(), name) {
                return Some(&self.fields[i].1);
            }
            i += 1;
        }
        proof {
            assert(self@.skip(n as int) =~= Seq::<(Seq<char>, (Seq<char>, Type))>::empty());
        }
        None
    }

    /// A copy of this projection with one field added or overridden;
    /// the receiver itself is left untouched.
    pub fn set_field(&self, name: &str, f: SqlField) -> (r: Projection)
        ensures
            r@ == spec_set_field(self@, name@, f@),
    {
        let n = self.fields.len();
        let mut fields: Vec<(String, SqlField)> = Vec::new();
        let mut replaced = false;
        let mut i: usize = 0;
        proof {
            assert(self@.skip(0) =~= self@);
        }
        while i < n
            invariant
                0 <= i <= n,
                n == self@.len(),
                f@ == (f.content@, f.ty),
                ({
                    let done = Seq::new(
                        fields@.len(),
                        |k: int| (fields@[k].0@, fields@[k].1@),
                    );
                    if replaced {
                        spec_set_field(self@, name@, f@) == done + self@.skip(i as int)
                    } else {
                        spec_set_field(self@, name@, f@) == done + spec_set_field(
                            self@.skip(i as int),
                            name@,
                            f@,
                        ) && !spec_contains(self@.take(i as int), name@)
                    }
                }),
            decreases n - i,
        {
            let ghost done = Seq::new(fields@.len(), |k: int| (fields@[k].0@, fields@[k].1@));
            let ghost tail = self@.skip(i as int);
            proof {
                assert(tail[0] == self@[i as int]);
                assert(tail.skip(1) =~= self@.skip(i + 1));
            }
            let entry_eq = str_eq(self.fields[i].0.as_str(), name);
            if !replaced && entry_eq {
                let fname = String::from_str(name);
                fields.push((fname, SqlField { content: String::from_str(f.content.as_str()), ty: f.ty }));
                replaced = true;
                proof {
                    let done2 = Seq::new(fields@.len(), |k: int| (fields@[k].0@, fields@[k].1@));
                    assert(done2 =~= done + seq![(name@, f@)]);
                    assert(spec_set_field(tail, name@, f@) == seq![(name@, f@)] + tail.skip(1));
                    assert(done + (seq![(name@, f@)] + self@.skip(i + 1)) =~= done2 + self@.skip(
                        i + 1,
                    ));
                }
            } else {
                let ename = String::from_str(self.fields[i].0.as_str());
                let efield = SqlField {
                    content: String::from_str(self.fields[i].1.content.as_str()),
                    ty: self.fields[i].1.ty,
                };
                fields.push((ename, efield));
                proof {
                    let done2 = Seq::new(fields@.len(), |k: int| (fields@[k].0@, fields@[k].1@));
                    assert(done2 =~= done + seq![self@[i as int]]);
                    if !replaced {
                        assert(spec_set_field(tail, name@, f@) == seq![tail[0]] + spec_set_field(
                            tail.skip(1),
                            name@,
                            f@,
                        ));
                        assert(done + (seq![tail[0]] + spec_set_field(self@.skip(i + 1), name@, f@))
                            =~= done2 + spec_set_field(self@.skip(i + 1), name@, f@));
                        assert(self@.take(i + 1).drop_last() =~= self@.take(i as int));
                        assert(!spec_contains(self@.take(i + 1), name@)) by {
                            lemma_contains_take_step(self@, i as int, name@);
                        }
                    } else {
                        assert(done + (seq![tail[0]] + self@.skip(i + 1)) =~= done2 + self@.skip(
                            i + 1,
                        ));
                    }
                }
            }
            i += 1;
        }
        proof {
            assert(self@.skip(n as int) =~= Seq::<(Seq<char>, (Seq<char>, Type))>::empty());
        }
        if !replaced {
            let ghost done = Seq::new(fields@.len(), |k: int| (fields@[k].0@, fields@[k].1@));
            let fname = String::from_str(name);
            fields.push((fname, SqlField { content: String::from_str(f.content.as_str()), ty: f.ty }));
            proof {
                let done2 = Seq::new(fields@.len(), |k: int| (fields@[k].0@, fields@[k].1@));
                assert(done2 =~= done + seq![(name@, f@)]);
                assert(spec_set_field(Seq::<(Seq<char>, (Seq<char>, Type))>::empty(), name@, f@)
                    =~= seq![(name@, f@)]);
                assert(done + seq![(name@, f@)] =~= done2);
            }
            let r = Projection { fields };
            proof {
                assert(r@ =~= Seq::new(r.fields@.len(), |k: int| (r.fields@[k].0@, r.fields@[k].1@)));
            }
            r
        } else {
            let r = Projection { fields };
            proof {
                assert(r@ =~= Seq::new(r.fields@.len(), |k: int| (r.fields@[k].0@, r.fields@[k].1@)));
                assert(r@ + Seq::<(Seq<char>, (Seq<char>, Type))>::empty() =~= r@);
            }
            r
        }
    }

    /// The ordered field names, stable across calls: the insertion
    /// order of the fields.
    pub fn fields_name(&self) -> (r: Vec<String>)
        ensures
            r.deep_view() == Seq::new(self@.len(), |i: int| self@[i].0),
    {
        let n = self.fields.len();
        let mut out: Vec<String> = Vec::new();
        let mut i: usize = 0;
        while i < n
            invariant
                0 <= i <= n,
                n == self@.len(),
                out.deep_view() =~= Seq::new(i as nat, |k: int| self@[k].0),
            decreases n - i,
        {
            let ghost prev = out.deep_view();
            out.push(String::from_str(self.fields[i].0.as_str()));
            proof {
                assert(out.deep_view() =~= prev + seq![self@[i as int].0]);
                assert(out.deep_view() =~= Seq::new((i + 1) as nat, |k: int| self@[k].0));
            }
            i += 1;
        }
        proof {
            assert(out.deep_view() =~= Seq::new(self@.len(), |k: int| self@[k].0));
        }
        out
    }

    /// The comma-joined `expression AS name` list for a SELECT.
    pub fn expand(&self) -> (r: String)
        ensures
            r@ == spec_expand(self@),
    {
        let n = self.fields.len();
        let mut s = String::new();
        let mut i: usize = 0;
        proof {
            assert(self@.take(0) =~= Seq::<(Seq<char>, (Seq<char>, Type))>::empty());
        }
        while i < n
            invariant
                0 <= i <= n,
                n == self@.len(),
                s@ == spec_expand(self@.take(i as int)),
            decreases n - i,
        {
            if i > 0 {
                s.append(", ");
            }
            s.append(self.fields[i].1.content.as_str());
            s.append(" AS ");
            s.append(self.fields[i].0.as_str());
            proof {
                let p = self@.take(i + 1);
                assert(p.drop_last() =~= self@.take(i as int));
                assert(p.last() == self@[i as int]);
            }
            i += 1;
        }
        proof {
            assert(self@.take(n as int) =~= self@);
        }
        s
    }
}

proof fn lemma_contains_take_step(fields: FieldsV, i: int, name: Seq<char>)
    requires
        0 <= i < fields.len(),
        !spec_contains(fields.take(i), name),
        fields[i].0 != name,
    ensures
        !spec_contains(fields.take(i + 1), name),
    decreases i + 1,
{
    lemma_find_append_one(fields.take(i), fields[i], name);
    assert(fields.take(i + 1) =~= fields.take(i) + seq![fields[i]]);
}

proof fn lemma_find_append_one(fields: FieldsV, x: (Seq<char>, (Seq<char>, Type)), name: Seq<char>)
    requires
        spec_find(fields, name) is None,
        x.0 != name,
    ensures
        spec_find(fields + seq![x], name) is None,
    decreases fields.len(),
{
    let w = fields + seq![x];
    if fields.len() == 0 {
        assert(w.len() == 1 && w[0] == x);
        assert(w[0].0 != name);
        assert(w.skip(1) =~= Seq::<(Seq<char>, (Seq<char>, Type))>::empty());
        assert(spec_find(w, name) == spec_find(w.skip(1), name));
    } else {
        assert(w[0] == fields[0]);
        assert(w.skip(1) =~= fields.skip(1) + seq![x]);
        lemma_find_append_one(fields.skip(1), x, name);
    }
}

/// The override law: setting a field yields a projection that has
/// the new field under its name, keeps every other field as it was,
/// and keeps the field order; the base projection is a value and is
/// never mutated by derivation.
pub proof fn lemma_set_field_override(fields: FieldsV, name: Seq<char>, f: (Seq<char>, Type))
    ensures
        spec_find(spec_set_field(fields, name, f), name) == Some(f),
        forall|other: Seq<char>|
            other != name ==> #[trigger] spec_find(spec_set_field(fields, name, f), other)
                == spec_find(fields, other),
        spec_set_field(fields, name, f).len() == (if spec_contains(fields, name) {
            fields.len()
        } else {
            fields.len() + 1
        }),
    decreases fields.len(),
{
    let r = spec_set_field(fields, name, f);
    if fields.len() == 0 {
        assert(r =~= seq![(name, f)]);
        assert(r[0].0 == name);
        assert(r.skip(1) =~= Seq::<(Seq<char>, (Seq<char>, Type))>::empty());
        assert forall|other: Seq<char>| other != name implies #[trigger] spec_find(r, other)
            == spec_find(fields, other) by {
            assert(spec_find(r, other) == spec_find(r.skip(1), other));
        }
    } else if fields[0].0 == name {
        assert(r =~= seq![(name, f)] + fields.skip(1));
        assert(r[0] == (name, f));
        assert(r.skip(1) =~= fields.skip(1));
        assert(spec_find(r, name) == Some(f));
        assert forall|other: Seq<char>| other != name implies #[trigger] spec_find(r, other)
            == spec_find(fields, other) by {
            assert(spec_find(r, other) == spec_find(fields.skip(1), other));
            assert(spec_find(fields, other) == spec_find(fields.skip(1), other));
        }
    } else {
        lemma_set_field_override(fields.skip(1), name, f);
        assert(r =~= seq![fields[0]] + spec_set_field(fields.skip(1), name, f));
        assert(r[0] == fields[0]);
        assert(r.skip(1) =~= spec_set_field(fields.skip(1), name, f));
        assert(spec_find(r, name) == Some(f));
        assert forall|other: Seq<char>| other != name implies #[trigger] spec_find(r, other)
            == spec_find(fields, other) by {
            if other == fields[0].0 {
                assert(spec_find(r, other) == Some(r[0].1));
                assert(spec_find(fields, other) == Some(fields[0].1));
            } else {
                assert(spec_find(r, other) == spec_find(r.skip(1), other));
                assert(spec_find(r.skip(1), other) == spec_find(fields.skip(1), other));
                assert(spec_find(fields, other) == spec_find(fields.skip(1), other));
            }
        }
    }
}

} // verus!
