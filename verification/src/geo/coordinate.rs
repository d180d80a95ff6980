//! The coordinate scanner: one shared numeric-token extractor serves
//! every composite geometric grammar.  It collects the maximal runs
//! of numeric characters of a text in order, pairs them into
//! coordinates, and silently discards a trailing unpaired token.

use vstd::prelude::*;
use crate::scalar::{float_bits_of_dec, is_num_char, parse_scalar};

verus! {

/// One parsed coordinate, each component the bit pattern of an
/// IEEE-754 binary64 value.
#[derive(Clone, Copy, Debug, PartialEq, Eq, Structural)]
pub struct Coordinate {
    pub x: u64,
    pub y: u64,
}

impl Coordinate {
    pub fn new(x: u64, y: u64) -> (r: Self)
        ensures
            r == (Coordinate { x, y }),
    {
        Coordinate { x, y }
    }
}

/// The length of the maximal numeric-character prefix.
pub open spec fn run_len(s: Seq<char>) -> nat
    decreases s.len(),
{
    if s.len() == 0 || !is_num_char(s[0]) {
        0
    } else {
        1 + run_len(s.drop_first())
    }
}

pub proof fn lemma_run_len_le(s: Seq<char>)
    ensures
        run_len(s) <= s.len(),
    decreases s.len(),
{
    if s.len() != 0 && is_num_char(s[0]) {
        lemma_run_len_le(s.drop_first());
    }
}

pub proof fn lemma_run_len(s: Seq<char>, k: int)
    requires
        0 <= k <= s.len(),
        forall|i: int| 0 <= i < k ==> is_num_char(#[trigger] s[i]),
        k == s.len() || !is_num_char(s[k]),
    ensures
        run_len(s) == k,
    decreases k,
{
    if k == 0 {
    } else {
        assert(is_num_char(s[0]));
        lemma_run_len(s.drop_first(), k - 1);
    }
}

/// The numeric tokens of a text, in order of appearance: the maximal
/// runs of numeric characters, everything between them ignored.
pub open spec fn spec_tokens(s: Seq<char>) -> Seq<Seq<char>>
    decreases s.len(),
    via spec_tokens_decreases
{
    if s.len() == 0 {
        Seq::empty()
    } else if !is_num_char(s[0]) {
        spec_tokens(s.drop_first())
    } else {
        let k = run_len(s) as int;
        seq![s.take(k)] + spec_tokens(s.skip(k))
    }
}

#[via_fn]
proof fn spec_tokens_decreases(s: Seq<char>) {
    lemma_run_len_le(s);
}

/// A single non-numeric character in front changes nothing.
pub proof fn lemma_tokens_sep(c: char, rest: Seq<char>)
    requires
        !is_num_char(c),
    ensures
        spec_tokens(seq![c] + rest) == spec_tokens(rest),
{
    let s = seq![c] + rest;
    assert(s.len() > 0 && !is_num_char(s[0]));
    assert(s.drop_first() =~= rest);
}

/// A whole numeric run in front is extracted as one token.
pub proof fn lemma_tokens_run(t: Seq<char>, rest: Seq<char>)
    requires
        t.len() > 0,
        forall|i: int| 0 <= i < t.len() ==> is_num_char(#[trigger] t[i]),
        rest.len() == 0 || !is_num_char(rest[0]),
    ensures
        spec_tokens(t + rest) == seq![t] + spec_tokens(rest),
{
    let s = t + rest;
    assert(is_num_char(s[0]));
    assert(forall|i: int| 0 <= i < t.len() ==> is_num_char(#[trigger] s[i]));
    assert(t.len() == s.len() || !is_num_char(s[t.len() as int]));
    lemma_run_len(s, t.len() as int);
    assert(s.take(t.len() as int) =~= t);
    assert(s.skip(t.len() as int) =~= rest);
}

/// Consecutive tokens paired in order into coordinates.  A token that
/// does not parse stops the pairing; a trailing unpaired token is
/// discarded, not an error.
pub open spec fn spec_pairs(toks: Seq<Seq<char>>) -> Seq<Coordinate>
    decreases toks.len(),
{
    if toks.len() == 0 {
        Seq::empty()
    } else {
        match float_bits_of_dec(toks[0]) {
            None => Seq::empty(),
            Some(x) => if toks.len() == 1 {
                Seq::empty()
            } else {
                match float_bits_of_dec(toks[1]) {
                    None => Seq::empty(),
                    Some(y) => seq![Coordinate { x, y }] + spec_pairs(toks.skip(2)),
                }
            },
        }
    }
}

/// What the scanner recovers from a text: its numeric tokens, paired.
pub open spec fn spec_coordinates(s: Seq<char>) -> Seq<Coordinate> {
    spec_pairs(spec_tokens(s))
}

/// An ordered list of coordinates, as one text recovers it.
#[derive(Clone, Debug)]
pub struct Coordinates(pub Vec<Coordinate>);

impl View for Coordinates {
    type V = Seq<Coordinate>;

    open spec fn view(&self) -> Seq<Coordinate> {
        self.0@
    }
}

/// The end of the numeric run that starts at `i`.
fn run_end(s: &str, i: usize) -> (j: usize)
    requires
        i <= s@.len(),
    ensures
        i <= j <= s@.len(),
        forall|k: int| i <= k < j ==> is_num_char(#[trigger] s@[k]),
        j == s@.len() || !is_num_char(s@[j as int]),
{
    let n = s.unicode_len();
    let mut j: usize = i;
    while j < n
        invariant
            i <= j <= n,
            n == s@.len(),
            forall|k: int| i <= k < j ==> is_num_char(#[trigger] s@[k]),
        decreases n - j,
    {
        if !num_char(s.get_char(j)) {
            return j;
        }
        j += 1;
    }
    j
}

/// Extracts the numeric tokens of `s` in order.
pub fn tokens(s: &str) -> (r: Vec<String>)
    ensures
        r.deep_view() == spec_tokens(s@),
{
    let n = s.unicode_len();
    let mut out: Vec<String> = Vec::new();
    let mut i: usize = 0;
    proof {
        assert(s@.skip(0) =~= s@);
        assert(out.deep_view() =~= Seq::<Seq<char>>::empty());
        assert(out.deep_view() + spec_tokens(s@) =~= spec_tokens(s@));
    }
    while i < n
        invariant
            0 <= i <= n,
            n == s@.len(),
            spec_tokens(s@) == out.deep_view() + spec_tokens(s@.skip(i as int)),
            i == n || !is_num_char(s@[i as int]) || i == 0 || !is_num_char(s@[i - 1]),
        decreases n - i,
    {
        let c = s.get_char(i);
        if !num_char(c) {
            proof {
                let tail = s@.skip(i as int);
                assert(tail =~= s@.subrange(i as int, n as int));
                assert(tail[0] == s@[i as int]);
                assert(tail.drop_first() =~= s@.skip(i + 1));
                assert(spec_tokens(tail) == spec_tokens(s@.skip(i + 1)));
            }
            i += 1;
        } else {
            let j = run_end(s, i);
            proof {
                assert(is_num_char(s@[i as int]));
            }
            let tok = String::from_str(s.substring_char(i, j));
            let ghost prev = out.deep_view();
            proof {
                let tail = s@.skip(i as int);
                assert(tail =~= s@.subrange(i as int, n as int));
                assert(forall|m: int| 0 <= m < j - i ==> #[trigger] tail[m] == s@[m + i]);
                assert(j - i < tail.len() ==> tail[j - i] == s@[j as int]);
                lemma_run_len(tail, j - i);
                assert(tail.take(j - i) =~= s@.subrange(i as int, j as int));
                assert(tail.skip(j - i) =~= s@.skip(j as int));
                assert(spec_tokens(tail) == seq![s@.subrange(i as int, j as int)] + spec_tokens(
                    s@.skip(j as int),
                ));
            }
            out.push(tok);
            proof {
                assert(out.deep_view() =~= prev + seq![tok@]);
                assert((prev + seq![tok@]) + spec_tokens(s@.skip(j as int)) =~= prev + spec_tokens(
                    s@.skip(i as int),
                ));
            }
            i = j;
        }
    }
    proof {
        assert(s@.skip(n as int) =~= Seq::<char>::empty());
        assert(out.deep_view() =~= out.deep_view() + spec_tokens(s@.skip(n as int)));
    }
    out
}

/// Executable twin of [`is_num_char`].
pub fn num_char(c: char) -> (r: bool)
    ensures
        r == is_num_char(c),
{
    ('0' <= c && c <= '9') || c == '-' || c == '+' || c == '.' || c == 'e' || c == 'E'
}

impl Coordinates {
    /// One token handed to the scalar parser, as the scanner does it.
    pub fn coordinate(tok: &Option<&str>) -> (r: Option<u64>)
        ensures
            r == (match tok {
                Some(t) => float_bits_of_dec(t@),
                None => None::<u64>,
            }),
    {
        match tok {
            Some(t) => parse_scalar(t),
            None => None,
        }
    }

    /// Recovers every coordinate pair of a text.  The scanner itself
    /// never fails; any text yields the (possibly empty) list its
    /// tokens pair into.
    pub fn from_str(s: &str) -> (r: Result<Coordinates, ()>)
        ensures
            r matches Ok(c) && c@ == spec_coordinates(s@),
    {
        let toks = tokens(s);
        let n = toks.len();
        let mut out: Vec<Coordinate> = Vec::new();
        let mut i: usize = 0;
        let mut stopped = false;
        proof {
            assert(toks.deep_view().skip(0) =~= toks.deep_view());
            assert(out@ =~= Seq::<Coordinate>::empty());
            assert(out@ + spec_pairs(toks.deep_view()) =~= spec_pairs(toks.deep_view()));
        }
        while !stopped && i < n
            invariant
                0 <= i <= n,
                n == toks@.len(),
                toks.deep_view() == spec_tokens(s@),
                !stopped ==> spec_pairs(toks.deep_view()) == out@ + spec_pairs(
                    toks.deep_view().skip(i as int),
                ),
                stopped ==> spec_pairs(toks.deep_view()) == out@,
            decreases n - i, (if stopped { 0int } else { 1int }),
        {
            proof {
                assert(toks.deep_view()[i as int] == toks@[i as int]@);
            }
            let ghost tail = toks.deep_view().skip(i as int);
            proof {
                assert(tail =~= toks.deep_view().subrange(i as int, n as int));
                assert(tail[0] == toks.deep_view()[i as int]);
            }
            let x = match parse_scalar(toks[i].as_str()) {
                Some(x) => x,
                None => {
                    proof {
                        assert(spec_pairs(tail) =~= Seq::<Coordinate>::empty());
                        assert(out@ + spec_pairs(tail) =~= out@);
                    }
                    stopped = true;
                    continue ;
                },
            };
            if i + 1 >= n {
                proof {
                    assert(tail.len() == 1);
                    assert(spec_pairs(tail) =~= Seq::<Coordinate>::empty());
                    assert(out@ + spec_pairs(tail) =~= out@);
                }
                stopped = true;
                continue ;
            }
            proof {
                assert(toks.deep_view()[i + 1] == toks@[i + 1]@);
            }
            proof {
                assert(tail[1] == toks.deep_view()[i + 1]);
            }
            let y = match parse_scalar(toks[i + 1].as_str()) {
                Some(y) => y,
                None => {
                    proof {
                        assert(spec_pairs(tail) =~= Seq::<Coordinate>::empty());
                        assert(out@ + spec_pairs(tail) =~= out@);
                    }
                    stopped = true;
                    continue ;
                },
            };
            let ghost prev = out@;
            out.push(Coordinate { x, y });
            proof {
                assert(tail.skip(2) =~= toks.deep_view().skip(i + 2));
                assert(spec_pairs(tail) == seq![Coordinate { x, y }] + spec_pairs(
                    toks.deep_view().skip(i + 2),
                ));
                assert(out@ =~= prev + seq![Coordinate { x, y }]);
                assert(out@ + spec_pairs(toks.deep_view().skip(i + 2)) =~= prev + spec_pairs(tail));
            }
            i += 2;
        }
        proof {
            if !stopped {
                assert(toks.deep_view().skip(i as int) =~= Seq::<Seq<char>>::empty());
                assert(out@ =~= out@ + spec_pairs(toks.deep_view().skip(i as int)));
            }
        }
        Ok(Coordinates(out))
    }
}

impl From<Vec<Coordinate>> for Coordinates {
    fn from(v: Vec<Coordinate>) -> (r: Self) {
        Coordinates(v)
    }
}

impl vstd::std_specs::convert::FromSpecImpl<Vec<Coordinate>> for Coordinates {
    open spec fn obeys_from_spec() -> bool {
        true
    }

    open spec fn from_spec(v: Vec<Coordinate>) -> Self {
        Coordinates(v)
    }
}

} // verus!
