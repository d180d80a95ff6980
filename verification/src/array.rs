//! The array codec, generic over any element codec: the text grammar
//! `{e1,e2,...}` with quoting, escaping and the unquoted NULL
//! sentinel, and the binary layout with its dimension header and
//! length-prefixed elements.

use vstd::prelude::*;
use crate::errors::{Error, ErrorKind};
use crate::from_sql::{FromSql, decoded, text_view, bin_view, from_sql_error, text_error,
    binary_error};
use crate::to_sql::{ToSql, encoded_text, encoded_bin};
use crate::pq::Type;

verus! {

/// Characters that force an element's text into quotes.
pub open spec fn quote_forcing(c: char) -> bool {
    c == ',' || c == '"' || c == '\\' || c == '{' || c == '}' || c == ' '
}

/// The unquoted NULL sentinel.
pub open spec fn null_token() -> Seq<char> {
    seq!['N', 'U', 'L', 'L']
}

/// An element's text must be quoted when empty, when it is the NULL
/// sentinel itself, or when it holds a delimiter, quote, escape,
/// brace or space.
pub open spec fn needs_quote(t: Seq<char>) -> bool {
    t.len() == 0 || t == null_token() || exists|i: int| 0 <= i < t.len() && quote_forcing(t[i])
}

/// The body of a quoted element: every quote and backslash escaped.
pub open spec fn esc_seq(t: Seq<char>) -> Seq<char>
    decreases t.len(),
{
    if t.len() == 0 {
        Seq::empty()
    } else {
        esc_seq(t.drop_last()) + (if t.last() == '"' || t.last() == '\\' {
            seq!['\\', t.last()]
        } else {
            seq![t.last()]
        })
    }
}

/// The rendering of one element slot: the NULL sentinel for an absent
/// element, the element's text quoted when it must be.
pub open spec fn item_text(it: Option<Seq<char>>) -> Seq<char> {
    match it {
        None => null_token(),
        Some(t) => if needs_quote(t) {
            seq!['"'] + esc_seq(t) + seq!['"']
        } else {
            t
        },
    }
}

/// Rendered items joined with the delimiter.
pub open spec fn join_comma(items: Seq<Seq<char>>) -> Seq<char>
    decreases items.len(),
{
    if items.len() == 0 {
        Seq::empty()
    } else if items.len() == 1 {
        items[0]
    } else {
        join_comma(items.drop_last()) + seq![','] + items.last()
    }
}

/// The scanner state of the element splitter: the items finished so
/// far, the characters of the item being read, whether that item was
/// quoted, and the quote/escape flags.
pub struct SplitState {
    pub err: bool,
    pub items: Seq<Option<Seq<char>>>,
    pub cur: Seq<char>,
    pub cur_quoted: bool,
    pub in_q: bool,
    pub esc: bool,
}

pub open spec fn split_init() -> SplitState {
    SplitState {
        err: false,
        items: Seq::empty(),
        cur: Seq::empty(),
        cur_quoted: false,
        in_q: false,
        esc: false,
    }
}

/// Closes the item being read: unquoted `NULL` is an absent element,
/// an unquoted empty item is an error.
pub open spec fn split_finish_item(st: SplitState) -> SplitState {
    if !st.cur_quoted && st.cur == null_token() {
        SplitState {
            items: st.items + seq![None::<Seq<char>>],
            cur: Seq::empty(),
            cur_quoted: false,
            ..st
        }
    } else if !st.cur_quoted && st.cur.len() == 0 {
        SplitState { err: true, ..st }
    } else {
        SplitState {
            items: st.items + seq![Some(st.cur)],
            cur: Seq::empty(),
            cur_quoted: false,
            ..st
        }
    }
}

/// One character of the element splitter.
pub open spec fn split_step(st: SplitState, c: char) -> SplitState {
    if st.err {
        st
    } else if st.esc {
        SplitState { cur: st.cur + seq![c], esc: false, ..st }
    } else if st.in_q {
        if c == '\\' {
            SplitState { esc: true, ..st }
        } else if c == '"' {
            SplitState { in_q: false, ..st }
        } else {
            SplitState { cur: st.cur + seq![c], ..st }
        }
    } else if c == ',' {
        split_finish_item(st)
    } else if c == '"' {
        if st.cur.len() > 0 || st.cur_quoted {
            SplitState { err: true, ..st }
        } else {
            SplitState { in_q: true, cur_quoted: true, ..st }
        }
    } else if c == '{' || c == '}' {
        SplitState { err: true, ..st }
    } else {
        SplitState { cur: st.cur + seq![c], ..st }
    }
}

/// The splitter run over a whole text.
pub open spec fn split_scan(s: Seq<char>) -> SplitState
    decreases s.len(),
{
    if s.len() == 0 {
        split_init()
    } else {
        split_step(split_scan(s.drop_last()), s.last())
    }
}

/// The leading spaces of a text.
pub open spec fn n_lead_spaces(s: Seq<char>) -> nat
    decreases s.len(),
{
    if s.len() == 0 || s[0] != ' ' {
        0
    } else {
        1 + n_lead_spaces(s.drop_first())
    }
}

/// The trailing spaces of a text.
pub open spec fn n_trail_spaces(s: Seq<char>) -> nat
    decreases s.len(),
{
    if s.len() == 0 || s.last() != ' ' {
        0
    } else {
        1 + n_trail_spaces(s.drop_last())
    }
}

/// The text without its surrounding spaces, which the array grammar
/// tolerates.
pub open spec fn trimmed(s: Seq<char>) -> Seq<char> {
    if n_lead_spaces(s) == s.len() {
        Seq::empty()
    } else {
        s.subrange(n_lead_spaces(s) as int, s.len() - n_trail_spaces(s))
    }
}

/// A text that neither starts nor ends with a space is its own trim.
pub proof fn lemma_trimmed_id(s: Seq<char>)
    requires
        s.len() > 0,
    	s[0] != ' ',
        s.last() != ' ',
    ensures
        trimmed(s) == s,
{
    assert(n_lead_spaces(s) == 0);
    assert(n_trail_spaces(s) == 0);
    assert(s.subrange(0, s.len() as int) =~= s);
}

proof fn lemma_n_lead_spaces(s: Seq<char>, k: int)
    requires
        0 <= k <= s.len(),
        forall|i: int| 0 <= i < k ==> s[i] == ' ',
        k == s.len() || s[k] != ' ',
    ensures
        n_lead_spaces(s) == k,
    decreases k,
{
    if k > 0 {
        assert(s[0] == ' ');
        lemma_n_lead_spaces(s.drop_first(), k - 1);
    }
}

proof fn lemma_n_trail_spaces(s: Seq<char>, k: int)
    requires
        0 <= k <= s.len(),
        forall|i: int| s.len() - k <= i < s.len() ==> s[i] == ' ',
        k == s.len() || s[s.len() - k - 1] != ' ',
    ensures
        n_trail_spaces(s) == k,
    decreases k,
{
    if k > 0 {
        assert(s.last() == ' ');
        assert(forall|i: int|
            s.drop_last().len() - (k - 1) <= i < s.drop_last().len() ==> #[trigger] s.drop_last()[i]
                == s[i]);
        lemma_n_trail_spaces(s.drop_last(), k - 1);
    }
}

/// The first index that does not hold a space.
fn first_non_space(s: &str) -> (a: usize)
    ensures
        0 <= a <= s@.len(),
        forall|i: int| 0 <= i < a ==> s@[i] == ' ',
        a == s@.len() || s@[a as int] != ' ',
{
    let n = s.unicode_len();
    let mut a: usize = 0;
    while a < n
        invariant
            0 <= a <= n,
            n == s@.len(),
            forall|i: int| 0 <= i < a ==> s@[i] == ' ',
        decreases n - a,
    {
        if !(s.get_char(a) == ' ') {
            return a;
        }
        a += 1;
    }
    a
}

/// The end of the text without its trailing spaces, never before
/// `lo`.
fn last_non_space_from(s: &str, lo: usize) -> (b: usize)
    requires
        lo < s@.len(),
    ensures
        lo < b <= s@.len(),
        forall|i: int| b <= i < s@.len() ==> s@[i] == ' ',
        b == lo + 1 || s@[b - 1] != ' ',
{
    let n = s.unicode_len();
    let mut b: usize = n;
    while b > lo + 1
        invariant
            lo < b <= n,
            n == s@.len(),
            forall|i: int| b <= i < n ==> s@[i] == ' ',
        decreases b,
    {
        if !(s.get_char(b - 1) == ' ') {
            return b;
        }
        b -= 1;
    }
    b
}

/// Strips the surrounding spaces.
pub fn trim_spaces<'a>(s: &'a str) -> (r: &'a str)
    ensures
        r@ == trimmed(s@),
{
    let n = s.unicode_len();
    let a = first_non_space(s);
    if a == n {
        proof {
            lemma_n_lead_spaces(s@, n as int);
            reveal_strlit("");
            assert(""@ =~= Seq::<char>::empty());
        }
        return "";
    }
    proof {
        lemma_n_lead_spaces(s@, a as int);
    }
    let b = last_non_space_from(s, a);
    proof {
        if b == a + 1 {
            assert(s@[b - 1] != ' ');
        }
        lemma_n_trail_spaces(s@, n - b);
    }
    s.substring_char(a, b)
}

/// The element texts of an array literal: surrounding whitespace is
/// tolerated, then the braces and the items between them; `None` for
/// the grammar being violated, otherwise the items in order, an
/// absent element as `None`.
pub open spec fn spec_array_items(raw: Seq<char>) -> Option<Seq<Option<Seq<char>>>> {
    let s = trimmed(raw);
    if s.len() < 2 || s[0] != '{' || s.last() != '}' {
        None
    } else if s.len() == 2 {
        Some(Seq::empty())
    } else {
        let st = split_scan(s.subrange(1, s.len() - 1));
        if st.err || st.in_q || st.esc {
            None
        } else {
            let fin = split_finish_item(st);
            if fin.err {
                None
            } else {
                Some(fin.items)
            }
        }
    }
}

/// Every item decoded through the element codec, in order; the first
/// element failure aborts the whole decode with that failure.
pub open spec fn decode_items<T: FromSql>(ety: Type, items: Seq<Option<Seq<char>>>) -> Result<
    Seq<T::V>,
    ErrorKind,
>
    decreases items.len(),
{
    if items.len() == 0 {
        Ok(Seq::empty())
    } else {
        match T::spec_from_text(ety, items[0]) {
            Err(e) => Err(e),
            Ok(v) => match decode_items::<T>(ety, items.skip(1)) {
                Err(e) => Err(e),
                Ok(rest) => Ok(seq![v] + rest),
            },
        }
    }
}


/// A splitter error anywhere in a prefix is final.
pub proof fn lemma_split_err_sticky(s: Seq<char>, i: int)
    requires
        0 <= i <= s.len(),
        split_scan(s.take(i)).err,
    ensures
        split_scan(s).err,
    decreases s.len() - i,
{
    if i < s.len() {
        let p = s.take(i + 1);
        assert(p.drop_last() =~= s.take(i));
        assert(split_scan(p) == split_step(split_scan(s.take(i)), s[i]));
        lemma_split_err_sticky(s, i + 1);
    } else {
        assert(s.take(i) =~= s);
    }
}

/// Relies on `Iterator::collect` for `String`: collecting characters
/// builds the string of exactly those characters.
#[verifier::external_body]
fn string_of_chars(v: &Vec<char>) -> (r: String)
    ensures
        r@ == v@,
{
    v.iter().collect()
}

/// Executable twin of the NULL-sentinel comparison.
fn is_null_token(s: &str) -> (r: bool)
    ensures
        r == (s@ == null_token()),
{
    let eq = s.unicode_len() == 4 && s.get_char(0) == 'N' && s.get_char(1) == 'U' && s.get_char(2)
        == 'L' && s.get_char(3) == 'L';
    proof {
        if eq {
            assert(s@ =~= null_token());
        }
    }
    eq
}

/// Splits an array literal into its element texts, `None` when the
/// grammar is violated.
pub fn array_items(raw: &str) -> (r: Option<Vec<Option<String>>>)
    ensures
        match r {
            Some(v) => spec_array_items(raw@) == Some(v.deep_view()),
            None => spec_array_items(raw@) is None,
        },
{
    let s = trim_spaces(raw);
    let n = s.unicode_len();
    if n < 2 {
        return None;
    }
    if !(s.get_char(0) == '{') {
        return None;
    }
    if !(s.get_char(n - 1) == '}') {
        return None;
    }
    proof {
        assert(s@.last() == s@[n - 1]);
    }
    if n == 2 {
        let out: Vec<Option<String>> = Vec::new();
        proof {
            assert(out.deep_view() =~= Seq::<Option<Seq<char>>>::empty());
        }
        return Some(out);
    }
    let body = s.substring_char(1, n - 1);
    let m = body.unicode_len();
    let ghost bs = s@.subrange(1, n - 1);
    let mut items: Vec<Option<String>> = Vec::new();
    let mut cur: Vec<char> = Vec::new();
    let mut cur_quoted = false;
    let mut in_q = false;
    let mut esc = false;
    let mut i: usize = 0;
    proof {
        assert(bs.take(0) =~= Seq::<char>::empty());
        assert(items.deep_view() =~= Seq::<Option<Seq<char>>>::empty());
    }
    while i < m
        invariant
            0 <= i <= m,
            m == bs.len(),
            body@ == bs,
            bs == s@.subrange(1, s@.len() - 1),
            s@ == trimmed(raw@),
            s@.len() >= 3,
            s@[0] == '{',
            s@.last() == '}',
            ({
                let sp = split_scan(bs.take(i as int));
                !sp.err && sp.items == items.deep_view() && sp.cur == cur@ && sp.cur_quoted
                    == cur_quoted && sp.in_q == in_q && sp.esc == esc
            }),
        decreases m - i,
    {
        let c = body.get_char(i);
        let ghost sp = split_scan(bs.take(i as int));
        proof {
            assert(bs.take(i + 1).drop_last() =~= bs.take(i as int));
            assert(bs.take(i + 1).last() == bs[i as int]);
            assert(split_scan(bs.take(i + 1)) == split_step(sp, bs[i as int]));
        }
        if esc {
            let ghost pc = cur@;
            cur.push(c);
            esc = false;
            proof {
                assert(cur@ =~= pc + seq![c]);
            }
        } else if in_q {
            if c == '\\' {
                esc = true;
            } else if c == '"' {
                in_q = false;
            } else {
                let ghost pc = cur@;
                cur.push(c);
                proof {
                    assert(cur@ =~= pc + seq![c]);
                }
            }
        } else if c == ',' {
            let token = string_of_chars(&cur);
            let ghost pitems = items.deep_view();
            if !cur_quoted && is_null_token(token.as_str()) {
                items.push(None);
                proof {
                    assert(items.deep_view() =~= pitems + seq![None::<Seq<char>>]);
                }
            } else if !cur_quoted && cur.len() == 0 {
                proof {
                    assert(split_scan(bs.take(i + 1)).err);
                    lemma_split_err_sticky(bs, i + 1);
                }
                return None;
            } else {
                items.push(Some(token));
                proof {
                    assert(items.deep_view() =~= pitems + seq![Some(cur@)]);
                }
            }
            cur = Vec::new();
            cur_quoted = false;
            proof {
                assert(cur@ =~= Seq::<char>::empty());
            }
        } else if c == '"' {
            if cur.len() > 0 || cur_quoted {
                proof {
                    assert(split_scan(bs.take(i + 1)).err);
                    lemma_split_err_sticky(bs, i + 1);
                }
                return None;
            }
            in_q = true;
            cur_quoted = true;
        } else if c == '{' || c == '}' {
            proof {
                assert(split_scan(bs.take(i + 1)).err);
                lemma_split_err_sticky(bs, i + 1);
            }
            return None;
        } else {
            let ghost pc = cur@;
            cur.push(c);
            proof {
                assert(cur@ =~= pc + seq![c]);
            }
        }
        i += 1;
    }
    proof {
        assert(bs.take(m as int) =~= bs);
    }
    if in_q || esc {
        return None;
    }
    let token = string_of_chars(&cur);
    let ghost pitems = items.deep_view();
    if !cur_quoted && is_null_token(token.as_str()) {
        items.push(None);
        proof {
            assert(items.deep_view() =~= pitems + seq![None::<Seq<char>>]);
        }
        Some(items)
    } else if !cur_quoted && cur.len() == 0 {
        None
    } else {
        items.push(Some(token));
        proof {
            assert(items.deep_view() =~= pitems + seq![Some(cur@)]);
        }
        Some(items)
    }
}


/// The structural failure of an array binary decode.
pub open spec fn array_bin_err(aty: Type) -> ErrorKind {
    from_sql_error(aty, "Vec"@, "binary"@)
}

/// The elements of an array binary payload: `n` length-prefixed
/// segments, the sentinel length for an absent element, and nothing
/// left over.  The first element failure aborts the decode.
pub open spec fn decode_bin_items<T: FromSql>(aty: Type, ety: Type, b: Seq<u8>, n: int) -> Result<
    Seq<T::V>,
    ErrorKind,
>
    decreases n,
{
    if n <= 0 {
        if b.len() == 0 {
            Ok(Seq::empty())
        } else {
            Err(array_bin_err(aty))
        }
    } else if b.len() < 4 {
        Err(array_bin_err(aty))
    } else {
        let l = crate::bytes::u32_of_be(b.take(4)) as int;
        if l == 0xFFFFFFFF {
            match T::spec_from_binary(ety, None) {
                Err(e) => Err(e),
                Ok(v) => match decode_bin_items::<T>(aty, ety, b.skip(4), n - 1) {
                    Err(e) => Err(e),
                    Ok(rest) => Ok(seq![v] + rest),
                },
            }
        } else if b.len() >= 4 + l {
            match T::spec_from_binary(ety, Some(b.subrange(4, 4 + l))) {
                Err(e) => Err(e),
                Ok(v) => match decode_bin_items::<T>(aty, ety, b.skip(4 + l), n - 1) {
                    Err(e) => Err(e),
                    Ok(rest) => Ok(seq![v] + rest),
                },
            }
        } else {
            Err(array_bin_err(aty))
        }
    }
}

impl<T: FromSql> FromSql for Vec<T> {
    /// The text decode: the array grammar split into items, then each
    /// item through the element codec with the array's element type.
    open spec fn spec_from_text(ty: Type, raw: Option<Seq<char>>) -> Result<Seq<T::V>, ErrorKind> {
        match raw {
            None => Err(ErrorKind::NotNull),
            Some(s) => match ty.spec_elem() {
                None => Err(from_sql_error(ty, "Vec"@, s)),
                Some(ety) => match spec_array_items(s) {
                    None => Err(from_sql_error(ty, "Vec"@, s)),
                    Some(items) => decode_items::<T>(ety, items),
                },
            },
        }
    }

    /// The binary decode: a dimension count, flags, the element type
    /// identifier, then for one dimension its length and lower bound
    /// and the length-prefixed elements; zero dimensions are the
    /// empty array.
    open spec fn spec_from_binary(ty: Type, raw: Option<Seq<u8>>) -> Result<Seq<T::V>, ErrorKind> {
        match raw {
            None => Err(ErrorKind::NotNull),
            Some(b) => match ty.spec_elem() {
                None => Err(array_bin_err(ty)),
                Some(ety) => if b.len() < 12 || crate::bytes::u32_of_be(b.subrange(8, 12))
                    != ety.spec_oid() {
                    Err(array_bin_err(ty))
                } else {
                    let ndim = crate::bytes::u32_of_be(b.subrange(0, 4));
                    if ndim == 0 {
                        if b.len() == 12 {
                            Ok(Seq::empty())
                        } else {
                            Err(array_bin_err(ty))
                        }
                    } else if ndim == 1 && b.len() >= 20 {
                        decode_bin_items::<T>(
                            ty,
                            ety,
                            b.skip(20),
                            crate::bytes::u32_of_be(b.subrange(12, 16)) as int,
                        )
                    } else {
                        Err(array_bin_err(ty))
                    }
                },
            },
        }
    }

    fn from_text(ty: &Type, raw: Option<&str>) -> (r: crate::Result<Self>)
        ensures
            decoded(r) == Self::spec_from_text(*ty, text_view(raw)),
    {
        let s = match raw {
            None => { return Err(Error::NotNull) },
            Some(s) => s,
        };
        let ety = match ty.elem() {
            None => { return Err(text_error(ty, "Vec", s)) },
            Some(e) => e,
        };
        let items = match array_items(s) {
            None => { return Err(text_error(ty, "Vec", s)) },
            Some(v) => v,
        };
        let ghost items_s = items.deep_view();
        let n = items.len();
        let mut out: Vec<T> = Vec::new();
        let mut k: usize = 0;
        proof {
            assert(items_s.skip(0) =~= items_s);
            assert(out.deep_view() =~= Seq::<T::V>::empty());
            assert(out.deep_view() + decode_items::<T>(ety, items_s)->Ok_0 =~= decode_items::<
                T,
            >(ety, items_s)->Ok_0);
        }
        while k < n
            invariant
                0 <= k <= n,
                n == items_s.len(),
                items_s == items.deep_view(),
                text_view(raw) == Some(s@),
                (*ty).spec_elem() == Some(ety),
                spec_array_items(s@) == Some(items_s),
                decode_items::<T>(ety, items_s) == (match decode_items::<T>(
                    ety,
                    items_s.skip(k as int),
                ) {
                    Ok(tv) => Ok::<Seq<T::V>, ErrorKind>(out.deep_view() + tv),
                    Err(e) => Err::<Seq<T::V>, ErrorKind>(e),
                }),
            decreases n - k,
        {
            let ghost tail = items_s.skip(k as int);
            proof {
                assert(tail =~= items_s.subrange(k as int, n as int));
                assert(tail[0] == items_s[k as int]);
                assert(tail.skip(1) =~= items_s.skip(k + 1));
            }
            let opt: Option<&str> = match &items[k] {
                Some(st) => Some(st.as_str()),
                None => None,
            };
            proof {
                assert(text_view(opt) == items_s[k as int]);
            }
            let v = match T::from_text(&ety, opt) {
                Ok(v) => v,
                Err(e) => {
                    proof {
                        assert(T::spec_from_text(ety, tail[0]) == Err::<T::V, ErrorKind>(e@));
                        assert(decode_items::<T>(ety, tail) == Err::<Seq<T::V>, ErrorKind>(e@));
                    }
                    return Err(e)
                },
            };
            let ghost pout = out.deep_view();
            out.push(v);
            proof {
                assert(out.deep_view() =~= pout + seq![v.deep_view()]);
                if decode_items::<T>(ety, items_s.skip(k + 1)) is Ok {
                    let tv = decode_items::<T>(ety, items_s.skip(k + 1))->Ok_0;
                    assert(decode_items::<T>(ety, tail) == Ok::<Seq<T::V>, ErrorKind>(
                        seq![v.deep_view()] + tv,
                    ));
                    assert(pout + (seq![v.deep_view()] + tv) =~= (pout + seq![v.deep_view()]) + tv);
                }
            }
            k += 1;
        }
        proof {
            assert(items_s.skip(n as int) =~= Seq::<Option<Seq<char>>>::empty());
            assert(out.deep_view() + Seq::<T::V>::empty() =~= out.deep_view());
        }
        Ok(out)
    }

    fn from_binary(ty: &Type, raw: Option<&[u8]>) -> (r: crate::Result<Self>)
        ensures
            decoded(r) == Self::spec_from_binary(*ty, bin_view(raw)),
    {
        let b = match raw {
            None => { return Err(Error::NotNull) },
            Some(b) => b,
        };
        let ety = match ty.elem() {
            None => { return Err(binary_error(ty, "Vec")) },
            Some(e) => e,
        };
        if b.len() < 12 {
            return Err(binary_error(ty, "Vec"));
        }
        if !(crate::bytes::read_be_u32(b, 8) == ety.oid()) {
            return Err(binary_error(ty, "Vec"));
        }
        let ndim = crate::bytes::read_be_u32(b, 0);
        if ndim == 0 {
            if b.len() == 12 {
                let out: Vec<T> = Vec::new();
                proof {
                    assert(out.deep_view() =~= Seq::<T::V>::empty());
                }
                return Ok(out);
            } else {
                return Err(binary_error(ty, "Vec"));
            }
        }
        if !(ndim == 1 && b.len() >= 20) {
            return Err(binary_error(ty, "Vec"));
        }
        let cnt = crate::bytes::read_be_u32(b, 12);
        let ghost whole = b@.skip(20);
        let mut out: Vec<T> = Vec::new();
        let mut off: usize = 20;
        let mut k: u32 = 0;
        proof {
            assert(whole =~= b@.subrange(20, b@.len() as int));
            assert(out.deep_view() =~= Seq::<T::V>::empty());
            assert(b@.skip(off as int) =~= whole);
            if decode_bin_items::<T>(*ty, ety, whole, cnt as int) is Ok {
                assert(out.deep_view() + decode_bin_items::<T>(*ty, ety, whole, cnt as int)->Ok_0
                    =~= decode_bin_items::<T>(*ty, ety, whole, cnt as int)->Ok_0);
            }
        }
        while k < cnt
            invariant
                0 <= k <= cnt,
                20 <= off <= b@.len(),
                whole == b@.skip(20),
                bin_view(raw) == Some(b@),
                (*ty).spec_elem() == Some(ety),
                b@.len() >= 20,
                crate::bytes::u32_of_be(b@.subrange(8, 12)) == ety.spec_oid(),
                crate::bytes::u32_of_be(b@.subrange(0, 4)) == 1,
                cnt == crate::bytes::u32_of_be(b@.subrange(12, 16)),
                decode_bin_items::<T>(*ty, ety, whole, cnt as int) == (match decode_bin_items::<T>(
                    *ty,
                    ety,
                    b@.skip(off as int),
                    cnt - k,
                ) {
                    Ok(tv) => Ok::<Seq<T::V>, ErrorKind>(out.deep_view() + tv),
                    Err(e) => Err::<Seq<T::V>, ErrorKind>(e),
                }),
            decreases cnt - k,
        {
            let ghost tail = b@.skip(off as int);
            proof {
                assert(tail =~= b@.subrange(off as int, b@.len() as int));
            }
            if b.len() - off < 4 {
                proof {
                    assert(tail.len() < 4);
                    assert(decode_bin_items::<T>(*ty, ety, tail, cnt - k) == Err::<
                        Seq<T::V>,
                        ErrorKind,
                    >(array_bin_err(*ty)));
                }
                return Err(binary_error(ty, "Vec"));
            }
            let l = crate::bytes::read_be_u32(b, off);
            proof {
                assert(tail.take(4) =~= b@.subrange(off as int, off + 4));
            }
            let ghost pout = out.deep_view();
            if l == 0xFFFFFFFF {
                let v = match T::from_binary(&ety, None) {
                    Ok(v) => v,
                    Err(e) => {
                        proof {
                            assert(decode_bin_items::<T>(*ty, ety, tail, cnt - k) == Err::<
                                Seq<T::V>,
                                ErrorKind,
                            >(e@));
                        }
                        return Err(e)
                    },
                };
                out.push(v);
                proof {
                    assert(out.deep_view() =~= pout + seq![v.deep_view()]);
                    assert(tail.skip(4) =~= b@.skip(off + 4));
                    if decode_bin_items::<T>(*ty, ety, b@.skip(off + 4), cnt - k - 1) is Ok {
                        let tv = decode_bin_items::<T>(*ty, ety, b@.skip(off + 4), cnt - k
                            - 1)->Ok_0;
                        assert(pout + (seq![v.deep_view()] + tv) =~= (pout + seq![v.deep_view()])
                            + tv);
                    }
                }
                off = off + 4;
            } else {
                if (l as usize) > b.len() - off - 4 {
                    proof {
                        assert(tail.len() < 4 + l as int);
                        assert(decode_bin_items::<T>(*ty, ety, tail, cnt - k) == Err::<
                            Seq<T::V>,
                            ErrorKind,
                        >(array_bin_err(*ty)));
                    }
                    return Err(binary_error(ty, "Vec"));
                }
                let seg = vstd::slice::slice_subrange(b, off + 4, off + 4 + l as usize);
                proof {
                    assert(seg@ =~= tail.subrange(4, 4 + l as int));
                }
                let v = match T::from_binary(&ety, Some(seg)) {
                    Ok(v) => v,
                    Err(e) => {
                        proof {
                            assert(decode_bin_items::<T>(*ty, ety, tail, cnt - k) == Err::<
                                Seq<T::V>,
                                ErrorKind,
                            >(e@));
                        }
                        return Err(e)
                    },
                };
                out.push(v);
                proof {
                    assert(out.deep_view() =~= pout + seq![v.deep_view()]);
                    assert(tail.skip(4 + l as int) =~= b@.skip(off + 4 + l as int));
                    if decode_bin_items::<T>(*ty, ety, b@.skip(off + 4 + l as int), cnt - k
                        - 1) is Ok {
                        let tv = decode_bin_items::<T>(
                            *ty,
                            ety,
                            b@.skip(off + 4 + l as int),
                            cnt - k - 1,
                        )->Ok_0;
                        assert(pout + (seq![v.deep_view()] + tv) =~= (pout + seq![v.deep_view()])
                            + tv);
                    }
                }
                off = off + 4 + l as usize;
            }
            k = k + 1;
        }
        if off != b.len() {
            proof {
                assert(b@.skip(off as int).len() != 0);
                assert(decode_bin_items::<T>(*ty, ety, b@.skip(off as int), 0) == Err::<
                    Seq<T::V>,
                    ErrorKind,
                >(array_bin_err(*ty)));
            }
            return Err(binary_error(ty, "Vec"));
        }
        proof {
            assert(b@.skip(off as int).len() == 0);
            assert(out.deep_view() + Seq::<T::V>::empty() =~= out.deep_view());
        }
        Ok(out)
    }
}


/// The rendered element texts of an array encode, in order; the
/// first element failure aborts the encode with that failure.
pub open spec fn text_items<T: ToSql>(elems: Seq<T>) -> Result<Seq<Seq<char>>, ErrorKind>
    decreases elems.len(),
{
    if elems.len() == 0 {
        Ok(Seq::empty())
    } else {
        match text_items::<T>(elems.drop_last()) {
            Err(e) => Err(e),
            Ok(prev) => match elems.last().spec_to_text() {
                Err(e) => Err(e),
                Ok(None) => Ok(prev + seq![null_token()]),
                Ok(Some(tx)) => Ok(prev + seq![item_text(Some(tx))]),
            },
        }
    }
}

/// An element failure in a prefix is the whole encode's failure.
pub proof fn lemma_text_items_err<T: ToSql>(elems: Seq<T>, i: int)
    requires
        0 <= i <= elems.len(),
        text_items::<T>(elems.take(i)) is Err,
    ensures
        text_items::<T>(elems) == text_items::<T>(elems.take(i)),
    decreases elems.len() - i,
{
    if i < elems.len() {
        let p = elems.take(i + 1);
        assert(p.drop_last() =~= elems.take(i));
        lemma_text_items_err::<T>(elems, i + 1);
    } else {
        assert(elems.take(i) =~= elems);
    }
}

/// The length-prefixed element payloads of an array binary encode.
pub open spec fn bin_items<T: ToSql>(aty: Type, elems: Seq<T>) -> Result<Seq<u8>, ErrorKind>
    decreases elems.len(),
{
    if elems.len() == 0 {
        Ok(Seq::empty())
    } else {
        match bin_items::<T>(aty, elems.drop_last()) {
            Err(e) => Err(e),
            Ok(prev) => match elems.last().spec_to_binary() {
                Err(e) => Err(e),
                Ok(None) => Ok(prev + crate::bytes::be_u32(0xFFFFFFFF)),
                Ok(Some(p)) => if p.len() > 0x7FFFFFFF {
                    Err(array_to_sql_err(aty))
                } else {
                    Ok(prev + crate::bytes::be_u32(p.len() as u32) + p)
                },
            },
        }
    }
}

/// The failure of an array encode whose value cannot be laid out.
pub open spec fn array_to_sql_err(aty: Type) -> ErrorKind {
    ErrorKind::ToSql { pg_type: aty, rust_type: "Vec"@, message: None }
}

pub proof fn lemma_bin_items_err<T: ToSql>(aty: Type, elems: Seq<T>, i: int)
    requires
        0 <= i <= elems.len(),
        bin_items::<T>(aty, elems.take(i)) is Err,
    ensures
        bin_items::<T>(aty, elems) == bin_items::<T>(aty, elems.take(i)),
    decreases elems.len() - i,
{
    if i < elems.len() {
        let p = elems.take(i + 1);
        assert(p.drop_last() =~= elems.take(i));
        lemma_bin_items_err::<T>(aty, elems, i + 1);
    } else {
        assert(elems.take(i) =~= elems);
    }
}

/// Whether some element encodes to SQL NULL, which sets the header's
/// null flag.
pub open spec fn has_null_elem<T: ToSql>(elems: Seq<T>) -> bool
    decreases elems.len(),
{
    elems.len() > 0 && (has_null_elem::<T>(elems.drop_last()) || elems.last().spec_to_binary()
        == Ok::<Option<Seq<u8>>, ErrorKind>(None))
}

/// Executable twin of [`needs_quote`].
fn needs_quote_exec(t: &str) -> (r: bool)
    ensures
        r == needs_quote(t@),
{
    let n = t.unicode_len();
    if n == 0 {
        return true;
    }
    if is_null_token(t) {
        return true;
    }
    let mut i: usize = 0;
    while i < n
        invariant
            0 <= i <= n,
            n == t@.len(),
            forall|k: int| 0 <= k < i ==> !quote_forcing(#[trigger] t@[k]),
        decreases n - i,
    {
        let c = t.get_char(i);
        if c == ',' || c == '"' || c == '\\' || c == '{' || c == '}' || c == ' ' {
            return true;
        }
        i += 1;
    }
    false
}

/// Renders one present element text, quoting and escaping it when
/// the grammar demands.
fn render_item(t: &str) -> (r: String)
    ensures
        r@ == item_text(Some(t@)),
{
    if !needs_quote_exec(t) {
        return String::from_str(t);
    }
    let n = t.unicode_len();
    let mut out: Vec<char> = Vec::new();
    out.push('"');
    proof {
        assert(t@.take(0) =~= Seq::<char>::empty());
        assert(out@ =~= seq!['"'] + esc_seq(t@.take(0)));
    }
    let mut i: usize = 0;
    while i < n
        invariant
            0 <= i <= n,
            n == t@.len(),
            out@ == seq!['"'] + esc_seq(t@.take(i as int)),
        decreases n - i,
    {
        let c = t.get_char(i);
        let ghost po = out@;
        if c == '"' || c == '\\' {
            out.push('\\');
            out.push(c);
            proof {
                assert(out@ =~= po + seq!['\\', c]);
            }
        } else {
            out.push(c);
            proof {
                assert(out@ =~= po + seq![c]);
            }
        }
        proof {
            assert(t@.take(i + 1).drop_last() =~= t@.take(i as int));
            assert(t@.take(i + 1).last() == t@[i as int]);
        }
        i += 1;
    }
    out.push('"');
    proof {
        assert(t@.take(n as int) =~= t@);
        assert(out@ =~= (seq!['"'] + esc_seq(t@)) + seq!['"']);
        assert(out@ =~= seq!['"'] + esc_seq(t@) + seq!['"']);
    }
    string_of_chars(&out)
}

impl<T: ToSql> ToSql for Vec<T> {
    open spec fn spec_type_of() -> Type {
        T::spec_type_of().spec_array_of()
    }

    /// The text encoding: each element's text, quoted where the
    /// grammar demands, SQL NULL as the bare sentinel, joined with
    /// the delimiter inside braces.
    open spec fn spec_to_text(&self) -> Result<Option<Seq<char>>, ErrorKind> {
        match text_items::<T>(self@) {
            Err(e) => Err(e),
            Ok(items) => Ok(Some(seq!['{'] + join_comma(items) + seq!['}'])),
        }
    }

    /// The binary encoding: the canonical zero-dimension form for an
    /// empty array, else one dimension whose header records the null
    /// flag, the element type and the length, followed by the
    /// length-prefixed elements.
    open spec fn spec_to_binary(&self) -> Result<Option<Seq<u8>>, ErrorKind> {
        if self@.len() > 0x7FFFFFFF {
            Err(array_to_sql_err(T::spec_type_of().spec_array_of()))
        } else if self@.len() == 0 {
            Ok(
                Some(
                    crate::bytes::be_u32(0) + crate::bytes::be_u32(0) + crate::bytes::be_u32(
                        T::spec_type_of().spec_oid(),
                    ),
                ),
            )
        } else {
            match bin_items::<T>(T::spec_type_of().spec_array_of(), self@) {
                Err(e) => Err(e),
                Ok(pay) => Ok(
                    Some(
                        crate::bytes::be_u32(1) + crate::bytes::be_u32(
                            if has_null_elem::<T>(self@) {
                                1
                            } else {
                                0
                            },
                        ) + crate::bytes::be_u32(T::spec_type_of().spec_oid())
                            + crate::bytes::be_u32(self@.len() as u32) + crate::bytes::be_u32(1)
                            + pay,
                    ),
                ),
            }
        }
    }

    fn type_of() -> (r: Type)
        ensures
            r == Self::spec_type_of(),
    {
        T::type_of().array_of()
    }

    fn ty(&self) -> (r: Type)
        ensures
            r == Self::spec_type_of(),
    {
        T::type_of().array_of()
    }

    fn to_text(&self) -> (r: crate::Result<Option<String>>)
        ensures
            encoded_text(r) == self.spec_to_text(),
    {
        let n = self.len();
        let mut rendered: Vec<String> = Vec::new();
        let mut k: usize = 0;
        proof {
            assert(self@.take(0) =~= Seq::<T>::empty());
            assert(rendered.deep_view() =~= Seq::<Seq<char>>::empty());
        }
        while k < n
            invariant
                0 <= k <= n,
                n == self@.len(),
                text_items::<T>(self@.take(k as int)) == Ok::<Seq<Seq<char>>, ErrorKind>(
                    rendered.deep_view(),
                ),
            decreases n - k,
        {
            proof {
                assert(self@.take(k + 1).drop_last() =~= self@.take(k as int));
                assert(self@.take(k + 1).last() == self@[k as int]);
            }
            let item = match self[k].to_text() {
                Err(e) => {
                    proof {
                        assert(text_items::<T>(self@.take(k + 1)) == Err::<
                            Seq<Seq<char>>,
                            ErrorKind,
                        >(e@));
                        lemma_text_items_err::<T>(self@, k + 1);
                    }
                    return Err(e);
                },
                Ok(None) => {
                    let s = String::from_str("NULL");
                    proof {
                        reveal_strlit("NULL");
                        assert(s@ =~= null_token());
                    }
                    s
                },
                Ok(Some(tx)) => render_item(tx.as_str()),
            };
            let ghost pr = rendered.deep_view();
            rendered.push(item);
            proof {
                assert(rendered.deep_view() =~= pr + seq![item@]);
            }
            k += 1;
        }
        proof {
            assert(self@.take(n as int) =~= self@);
        }
        let mut s = String::from_str("{");
        proof {
            reveal_strlit("{");
            assert(rendered.deep_view().take(0) =~= Seq::<Seq<char>>::empty());
            assert(join_comma(Seq::<Seq<char>>::empty()) =~= Seq::<char>::empty());
            assert(s@ =~= seq!['{'] + join_comma(rendered.deep_view().take(0)));
        }
        let m = rendered.len();
        let mut j: usize = 0;
        while j < m
            invariant
                0 <= j <= m,
                m == rendered@.len(),
                text_items::<T>(self@) == Ok::<Seq<Seq<char>>, ErrorKind>(rendered.deep_view()),
                s@ == seq!['{'] + join_comma(rendered.deep_view().take(j as int)),
            decreases m - j,
        {
            if j > 0 {
                s.append(",");
            }
            s.append(rendered[j].as_str());
            proof {
                reveal_strlit(",");
                let items = rendered.deep_view();
                assert(items.take(j + 1).drop_last() =~= items.take(j as int));
                assert(items.take(j + 1).last() == items[j as int]);
                assert(items[j as int] == rendered@[j as int]@);
                if j == 0 {
                    assert(join_comma(items.take(1)) == items[0]);
                    assert(s@ =~= seq!['{'] + join_comma(items.take(1)));
                } else {
                    assert(join_comma(items.take(j + 1)) == join_comma(items.take(j as int))
                        + seq![','] + items[j as int]);
                    assert(s@ =~= seq!['{'] + join_comma(items.take(j + 1)));
                }
            }
            j += 1;
        }
        s.append("}");
        proof {
            reveal_strlit("}");
            assert(rendered.deep_view().take(m as int) =~= rendered.deep_view());
            assert(s@ =~= seq!['{'] + join_comma(rendered.deep_view()) + seq!['}']);
        }
        Ok(Some(s))
    }

    fn to_binary(&self) -> (r: crate::Result<Option<Vec<u8>>>)
        ensures
            encoded_bin(r) == self.spec_to_binary(),
    {
        let n = self.len();
        if n > 0x7FFFFFFF {
            return Err(
                Error::ToSql {
                    pg_type: T::type_of().array_of(),
                    rust_type: String::from_str("Vec"),
                    message: None,
                },
            );
        }
        let eoid = T::type_of().oid();
        if n == 0 {
            let mut buf: Vec<u8> = Vec::new();
            crate::bytes::push_be_u32(&mut buf, 0);
            crate::bytes::push_be_u32(&mut buf, 0);
            crate::bytes::push_be_u32(&mut buf, eoid);
            proof {
                assert(buf@ =~= crate::bytes::be_u32(0) + crate::bytes::be_u32(0)
                    + crate::bytes::be_u32(T::spec_type_of().spec_oid()));
            }
            return Ok(Some(buf));
        }
        let ghost aty = T::spec_type_of().spec_array_of();
        let mut pay: Vec<u8> = Vec::new();
        let mut has_null = false;
        let mut k: usize = 0;
        proof {
            assert(self@.take(0) =~= Seq::<T>::empty());
            assert(pay@ =~= Seq::<u8>::empty());
        }
        while k < n
            invariant
                0 <= k <= n,
                n == self@.len(),
                0 < n <= 0x7FFFFFFF,
                aty == T::spec_type_of().spec_array_of(),
                bin_items::<T>(aty, self@.take(k as int)) == Ok::<Seq<u8>, ErrorKind>(pay@),
                has_null == has_null_elem::<T>(self@.take(k as int)),
            decreases n - k,
        {
            proof {
                assert(self@.take(k + 1).drop_last() =~= self@.take(k as int));
                assert(self@.take(k + 1).last() == self@[k as int]);
            }
            match self[k].to_binary() {
                Err(e) => {
                    proof {
                        assert(bin_items::<T>(aty, self@.take(k + 1)) == Err::<Seq<u8>, ErrorKind>(
                            e@,
                        ));
                        lemma_bin_items_err::<T>(aty, self@, k + 1);
                    }
                    return Err(e);
                },
                Ok(None) => {
                    let ghost pp = pay@;
                    crate::bytes::push_be_u32(&mut pay, 0xFFFFFFFF);
                    has_null = true;
                    proof {
                        assert(pay@ =~= pp + crate::bytes::be_u32(0xFFFFFFFF));
                    }
                },
                Ok(Some(p)) => {
                    if p.len() > 0x7FFFFFFF {
                        proof {
                            assert(bin_items::<T>(aty, self@.take(k + 1)) == Err::<
                                Seq<u8>,
                                ErrorKind,
                            >(array_to_sql_err(aty)));
                            lemma_bin_items_err::<T>(aty, self@, k + 1);
                        }
                        return Err(
                            Error::ToSql {
                                pg_type: T::type_of().array_of(),
                                rust_type: String::from_str("Vec"),
                                message: None,
                            },
                        );
                    }
                    let ghost pp = pay@;
                    crate::bytes::push_be_u32(&mut pay, p.len() as u32);
                    let mut q = p;
                    pay.append(&mut q);
                    proof {
                        assert(pay@ =~= (pp + crate::bytes::be_u32(p@.len() as u32)) + p@);
                        assert(pay@ =~= pp + crate::bytes::be_u32(p@.len() as u32) + p@);
                    }
                },
            }
            k += 1;
        }
        proof {
            assert(self@.take(n as int) =~= self@);
        }
        let mut buf: Vec<u8> = Vec::new();
        crate::bytes::push_be_u32(&mut buf, 1);
        crate::bytes::push_be_u32(
            &mut buf,
            if has_null {
                1
            } else {
                0
            },
        );
        crate::bytes::push_be_u32(&mut buf, eoid);
        crate::bytes::push_be_u32(&mut buf, n as u32);
        crate::bytes::push_be_u32(&mut buf, 1);
        let mut q = pay;
        buf.append(&mut q);
        proof {
            assert(buf@ =~= crate::bytes::be_u32(1) + crate::bytes::be_u32(
                if has_null_elem::<T>(self@) {
                    1
                } else {
                    0
                },
            ) + crate::bytes::be_u32(T::spec_type_of().spec_oid()) + crate::bytes::be_u32(
                self@.len() as u32,
            ) + crate::bytes::be_u32(1) + bin_items::<T>(aty, self@)->Ok_0);
        }
        Ok(Some(buf))
    }
}


/// The splitter resumed from a state: the same fold, starting
/// anywhere.
pub open spec fn scan_from(st: SplitState, s: Seq<char>) -> SplitState
    decreases s.len(),
{
    if s.len() == 0 {
        st
    } else {
        split_step(scan_from(st, s.drop_last()), s.last())
    }
}

pub proof fn lemma_scan_is_scan_from(s: Seq<char>)
    ensures
        split_scan(s) == scan_from(split_init(), s),
    decreases s.len(),
{
    if s.len() > 0 {
        lemma_scan_is_scan_from(s.drop_last());
    }
}

pub proof fn lemma_scan_append(a: Seq<char>, b: Seq<char>)
    ensures
        split_scan(a + b) == scan_from(split_scan(a), b),
    decreases b.len(),
{
    if b.len() == 0 {
        assert(a + b =~= a);
    } else {
        assert((a + b).drop_last() =~= a + b.drop_last());
        assert((a + b).last() == b.last());
        lemma_scan_append(a, b.drop_last());
    }
}

/// A character the splitter treats as ordinary outside quotes.
pub open spec fn plain_char(c: char) -> bool {
    c != ',' && c != '"' && c != '{' && c != '}'
}

pub open spec fn plain_text(t: Seq<char>) -> bool {
    forall|i: int| 0 <= i < t.len() ==> plain_char(#[trigger] t[i])
}

/// Scanning ordinary characters from a clean state only extends the
/// item being read.
pub proof fn lemma_scan_plain(st: SplitState, t: Seq<char>)
    requires
        !st.err,
        !st.in_q,
        !st.esc,
        plain_text(t),
    ensures
        ({
            let r = scan_from(st, t);
            !r.err && !r.in_q && !r.esc && r.cur_quoted == st.cur_quoted && r.items == st.items
                && r.cur == st.cur + t
        }),
    decreases t.len(),
{
    if t.len() == 0 {
        assert(st.cur + t =~= st.cur);
    } else {
        assert(plain_text(t.drop_last())) by {
            assert(forall|i: int|
                0 <= i < t.len() - 1 ==> plain_char(#[trigger] t.drop_last()[i]) == plain_char(
                    t[i],
                ));
        }
        lemma_scan_plain(st, t.drop_last());
        assert(plain_char(t.last()));
        assert((st.cur + t.drop_last()) + seq![t.last()] =~= st.cur + t);
    }
}

/// A list of ordinary, non-empty, non-sentinel element texts joined
/// with the delimiter splits back into exactly those items.
pub proof fn lemma_array_items_of_plain(ts: Seq<Seq<char>>)
    requires
        forall|i: int|
            0 <= i < ts.len() ==> plain_text(#[trigger] ts[i]) && ts[i].len() > 0 && ts[i]
                != null_token(),
    ensures
        spec_array_items(seq!['{'] + join_comma(ts) + seq!['}']) == Some(
            Seq::new(ts.len(), |i: int| Some(ts[i])),
        ),
{
    let body = join_comma(ts);
    let s = seq!['{'] + body + seq!['}'];
    assert(s[0] == '{' && s.last() == '}');
    lemma_trimmed_id(s);
    if ts.len() == 0 {
        assert(body =~= Seq::<char>::empty());
        assert(s.len() == 2 && s[0] == '{' && s.last() == '}');
        assert(Seq::new(0, |i: int| Some(ts[i])) =~= Seq::<Option<Seq<char>>>::empty());
    } else {
        lemma_scan_of_join(ts);
        let st = split_scan(body);
        assert(st.cur.len() > 0);
        assert(s.len() >= 3);
        assert(s[0] == '{');
        assert(s.last() == '}');
        assert(s.subrange(1, s.len() - 1) =~= body);
        let fin = split_finish_item(st);
        assert(!fin.err);
        assert(fin.items =~= Seq::new(ts.len(), |i: int| Some(ts[i])));
    }
}

/// The splitter's state after the joined items: every item but the
/// last finished, the last still being read.
proof fn lemma_scan_of_join(ts: Seq<Seq<char>>)
    requires
        ts.len() > 0,
        forall|i: int|
            0 <= i < ts.len() ==> plain_text(#[trigger] ts[i]) && ts[i].len() > 0 && ts[i]
                != null_token(),
    ensures
        ({
            let st = split_scan(join_comma(ts));
            !st.err && !st.in_q && !st.esc && !st.cur_quoted && st.cur == ts.last() && st.items
                =~= Seq::new((ts.len() - 1) as nat, |i: int| Some(ts[i]))
        }),
    decreases ts.len(),
{
    if ts.len() == 1 {
        lemma_scan_is_scan_from(ts[0]);
        lemma_scan_plain(split_init(), ts[0]);
        assert(Seq::<char>::empty() + ts[0] =~= ts[0]);
        assert(split_scan(join_comma(ts)).items =~= Seq::new(0, |i: int| Some(ts[i])));
    } else {
        let prefix = ts.drop_last();
        assert(forall|i: int|
            0 <= i < prefix.len() ==> plain_text(#[trigger] prefix[i]) && prefix[i].len() > 0
                && prefix[i] != null_token());
        lemma_scan_of_join(prefix);
        let a = join_comma(prefix);
        let st0 = split_scan(a);
        let a1 = a + seq![','];
        assert(join_comma(ts) =~= a1 + ts.last());
        assert(a1.drop_last() =~= a);
        assert(a1.last() == ',');
        assert(split_scan(a1.drop_last()) == st0);
        assert(split_scan(a1) == split_step(st0, ','));
        let st1 = split_step(st0, ',');
        assert(st1 == split_finish_item(st0));
        assert(st0.cur == prefix.last());
        assert(!st1.err);
        assert(st1.items =~= Seq::new(prefix.len(), |i: int| Some(ts[i]))) by {
            assert(st1.items =~= st0.items + seq![Some(prefix.last())]);
        }
        lemma_scan_append(a1, ts.last());
        assert(split_scan(a1 + ts.last()) == scan_from(st1, ts.last()));
        lemma_scan_plain(st1, ts.last());
        let st = split_scan(join_comma(ts));
        assert(st == scan_from(st1, ts.last()));
        assert(st.cur =~= ts.last()) by {
            assert(st1.cur =~= Seq::<char>::empty());
            assert(st1.cur + ts.last() =~= ts.last());
        }
    }
}

} // verus!

