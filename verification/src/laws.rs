//! The cross-cutting laws of the codec: absent payloads decode as
//! the optional wrapper's "no value" and fail every required type
//! with `NotNull`, and each supported type decodes back from its own
//! encodings.

use vstd::prelude::*;
use crate::errors::ErrorKind;
use crate::from_sql::FromSql;
use crate::to_sql::ToSql;
use crate::pq::Type;
use crate::text::{sint_dec, lemma_sint_dec_val};
use crate::bytes::{be_u32, be_u64, u32_of_be, lemma_be_u32_roundtrip, lemma_be_u64_roundtrip};
use crate::array::{decode_items, decode_bin_items, bin_items, join_comma, needs_quote,
    null_token, plain_char, plain_text, quote_forcing, text_items, lemma_array_items_of_plain};
use crate::text::{dec_seq, is_digit, lemma_dec_seq_val};
use crate::geo::point::Point;
use crate::geo::line::Line;
use crate::geo::circle::Circle;

verus! {

/// An absent payload decodes into an optional-wrapped type as a
/// present "no value", in both formats, whatever the inner type.
pub proof fn lemma_absent_into_optional<T: FromSql>(ty: Type)
    ensures
        Option::<T>::spec_from_text(ty, None) == Ok::<Option<T::V>, ErrorKind>(None),
        Option::<T>::spec_from_binary(ty, None) == Ok::<Option<T::V>, ErrorKind>(None),
{
}

/// An absent payload decodes into every required (non-optional)
/// supported type as the `NotNull` failure, in both formats.
pub proof fn lemma_absent_into_required(ty: Type)
    ensures
        i32::spec_from_text(ty, None) == Err::<i32, ErrorKind>(ErrorKind::NotNull),
        i64::spec_from_text(ty, None) == Err::<i64, ErrorKind>(ErrorKind::NotNull),
        bool::spec_from_text(ty, None) == Err::<bool, ErrorKind>(ErrorKind::NotNull),
        String::spec_from_text(ty, None) == Err::<Seq<char>, ErrorKind>(ErrorKind::NotNull),
        Point::spec_from_text(ty, None) == Err::<Point, ErrorKind>(ErrorKind::NotNull),
        Line::spec_from_text(ty, None) == Err::<Line, ErrorKind>(ErrorKind::NotNull),
        Circle::spec_from_text(ty, None) == Err::<Circle, ErrorKind>(ErrorKind::NotNull),
        Vec::<i32>::spec_from_text(ty, None) == Err::<Seq<i32>, ErrorKind>(ErrorKind::NotNull),
        i32::spec_from_binary(ty, None) == Err::<i32, ErrorKind>(ErrorKind::NotNull),
        i64::spec_from_binary(ty, None) == Err::<i64, ErrorKind>(ErrorKind::NotNull),
        bool::spec_from_binary(ty, None) == Err::<bool, ErrorKind>(ErrorKind::NotNull),
        String::spec_from_binary(ty, None) == Err::<Seq<char>, ErrorKind>(ErrorKind::NotNull),
        Point::spec_from_binary(ty, None) == Err::<Point, ErrorKind>(ErrorKind::NotNull),
        Line::spec_from_binary(ty, None) == Err::<Line, ErrorKind>(ErrorKind::NotNull),
        Circle::spec_from_binary(ty, None) == Err::<Circle, ErrorKind>(ErrorKind::NotNull),
        Vec::<i32>::spec_from_binary(ty, None) == Err::<Seq<i32>, ErrorKind>(ErrorKind::NotNull),
{
}

/// An `int4` decodes back from its own text rendering.
pub proof fn lemma_int4_text_round_trip(v: i32)
    ensures
        v.spec_to_text() == Ok::<Option<Seq<char>>, ErrorKind>(Some(sint_dec(v as int))),
        i32::spec_from_text(Type::Int4, Some(sint_dec(v as int))) == Ok::<i32, ErrorKind>(v),
{
    lemma_sint_dec_val(v as int);
}

/// An `int8` decodes back from its own text rendering.
pub proof fn lemma_int8_text_round_trip(v: i64)
    ensures
        v.spec_to_text() == Ok::<Option<Seq<char>>, ErrorKind>(Some(sint_dec(v as int))),
        i64::spec_from_text(Type::Int8, Some(sint_dec(v as int))) == Ok::<i64, ErrorKind>(v),
{
    lemma_sint_dec_val(v as int);
}

/// An `int4` decodes back from its own binary rendering.
pub proof fn lemma_int4_binary_round_trip(v: i32)
    ensures
        v.spec_to_binary() == Ok::<Option<Seq<u8>>, ErrorKind>(Some(be_u32(v as u32))),
        i32::spec_from_binary(Type::Int4, Some(be_u32(v as u32))) == Ok::<i32, ErrorKind>(v),
{
    lemma_be_u32_roundtrip(v as u32);
    assert(v as u32 as i32 == v) by (bit_vector);
}

/// An `int8` decodes back from its own binary rendering.
pub proof fn lemma_int8_binary_round_trip(v: i64)
    ensures
        v.spec_to_binary() == Ok::<Option<Seq<u8>>, ErrorKind>(Some(be_u64(v as u64))),
        i64::spec_from_binary(Type::Int8, Some(be_u64(v as u64))) == Ok::<i64, ErrorKind>(v),
{
    lemma_be_u64_roundtrip(v as u64);
    assert(v as u64 as i64 == v) by (bit_vector);
}

/// A `bool` decodes back from its own renderings in both formats.
pub proof fn lemma_bool_round_trip(v: bool)
    ensures
        bool::spec_from_text(
            Type::Bool,
            match v.spec_to_text() {
                Ok(Some(s)) => Some(s),
                _ => None,
            },
        ) == Ok::<bool, ErrorKind>(v),
        bool::spec_from_binary(
            Type::Bool,
            match v.spec_to_binary() {
                Ok(Some(b)) => Some(b),
                _ => None,
            },
        ) == Ok::<bool, ErrorKind>(v),
{
    if v {
        assert(bool::spec_from_text(Type::Bool, Some(seq!['t'])) == Ok::<bool, ErrorKind>(true));
        assert(seq![1u8].len() == 1 && seq![1u8][0] == 1);
    } else {
        assert(seq!['f'] != seq!['t']) by {
            assert(seq!['f'][0] != seq!['t'][0]);
        }
        assert(bool::spec_from_text(Type::Bool, Some(seq!['f'])) == Ok::<bool, ErrorKind>(false));
        assert(seq![0u8].len() == 1 && seq![0u8][0] == 0);
    }
}

/// A text value decodes back from its own renderings: the text form
/// is the value itself, the binary form is its UTF-8 encoding.
pub proof fn lemma_varchar_round_trip(x: &String)
    ensures
        x.spec_to_text() == Ok::<Option<Seq<char>>, ErrorKind>(Some(x@)),
        String::spec_from_text(Type::Varchar, Some(x@)) == Ok::<Seq<char>, ErrorKind>(x@),
        x.spec_to_binary() == Ok::<Option<Seq<u8>>, ErrorKind>(
            Some(vstd::utf8::encode_utf8(x@)),
        ),
        String::spec_from_binary(Type::Varchar, Some(vstd::utf8::encode_utf8(x@))) == Ok::<
            Seq<char>,
            ErrorKind,
        >(x@),
{
    vstd::utf8::encode_utf8_valid_utf8(x@);
    vstd::utf8::encode_utf8_decode_utf8(x@);
}

/// An optional `int4` round-trips in text form: an absent value as
/// SQL NULL, a present one through the inner codec.
pub proof fn lemma_optional_int4_text_round_trip(v: Option<i32>)
    ensures
        Option::<i32>::spec_from_text(
            Type::Int4,
            match v.spec_to_text() {
                Ok(Some(s)) => Some(s),
                _ => None,
            },
        ) == Ok::<Option<i32>, ErrorKind>(v),
{
    match v {
        None => {},
        Some(x) => {
            lemma_int4_text_round_trip(x);
        },
    }
}

/// The canonical zero-dimension binary form decodes back to the
/// empty array.
pub proof fn lemma_empty_array_binary_round_trip()
    ensures
        Vec::<i32>::spec_from_binary(
            Type::Int4Array,
            Some(be_u32(0) + be_u32(0) + be_u32(23)),
        ) == Ok::<Seq<i32>, ErrorKind>(Seq::empty()),
{
    let b = be_u32(0) + be_u32(0) + be_u32(23);
    assert(b.len() == 12);
    assert(b.subrange(0, 4) =~= be_u32(0));
    assert(b.subrange(8, 12) =~= be_u32(23));
    lemma_be_u32_roundtrip(0);
    lemma_be_u32_roundtrip(23);
    assert(u32_of_be(b.subrange(8, 12)) == Type::Int4.spec_oid());
}


/// An optional `int4` round-trips in binary form as well.
pub proof fn lemma_optional_int4_binary_round_trip(v: Option<i32>)
    ensures
        Option::<i32>::spec_from_binary(
            Type::Int4,
            match v.spec_to_binary() {
                Ok(Some(b)) => Some(b),
                _ => None,
            },
        ) == Ok::<Option<i32>, ErrorKind>(v),
{
    match v {
        None => {},
        Some(x) => {
            lemma_int4_binary_round_trip(x);
        },
    }
}


/// The decimal text of an integer never needs quoting inside an
/// array literal, and is ordinary to its splitter.
pub proof fn lemma_sint_dec_plain(v: int)
    ensures
        !needs_quote(sint_dec(v)),
        plain_text(sint_dec(v)),
        sint_dec(v).len() > 0,
        sint_dec(v) != null_token(),
{
    let s = sint_dec(v);
    if v >= 0 {
        lemma_dec_seq_val(v);
        assert(forall|i: int| 0 <= i < s.len() ==> is_digit(#[trigger] s[i]));
    } else {
        lemma_dec_seq_val(-v);
        assert(s[0] == '-');
        assert(forall|i: int|
            1 <= i < s.len() ==> is_digit(#[trigger] s[i]) == is_digit(dec_seq(-v)[i - 1]));
        assert(forall|i: int| 1 <= i < s.len() ==> is_digit(#[trigger] s[i]));
    }
    assert(forall|i: int|
        0 <= i < s.len() ==> (is_digit(#[trigger] s[i]) || s[i] == '-') ==> !quote_forcing(s[i])
            && plain_char(s[i]));
    assert(forall|i: int| 0 <= i < s.len() ==> !quote_forcing(#[trigger] s[i]));
    assert(s[0] != 'N');
    assert(s != null_token());
}

/// The rendered items of an `int4` array encode: each element's
/// decimal text, unquoted.
proof fn lemma_int4_text_items(s: Seq<i32>)
    ensures
        text_items::<i32>(s) == Ok::<Seq<Seq<char>>, ErrorKind>(
            Seq::new(s.len(), |i: int| sint_dec(s[i] as int)),
        ),
    decreases s.len(),
{
    let items = Seq::new(s.len(), |i: int| sint_dec(s[i] as int));
    if s.len() == 0 {
        assert(items =~= Seq::<Seq<char>>::empty());
    } else {
        lemma_int4_text_items(s.drop_last());
        lemma_sint_dec_plain(s.last() as int);
        assert(s.last().spec_to_text() == Ok::<Option<Seq<char>>, ErrorKind>(
            Some(sint_dec(s.last() as int)),
        ));
        assert(Seq::new(s.drop_last().len(), |i: int| sint_dec(s.drop_last()[i] as int))
            =~= items.drop_last());
        assert(items.last() == sint_dec(s.last() as int));
        assert(text_items::<i32>(s) == Ok::<Seq<Seq<char>>, ErrorKind>(
            items.drop_last() + seq![items.last()],
        ));
        assert(items.drop_last() + seq![items.last()] =~= items);
    }
}

/// Decoding each rendered item recovers the elements themselves.
proof fn lemma_int4_decode_items(s: Seq<i32>)
    ensures
        decode_items::<i32>(
            Type::Int4,
            Seq::new(s.len(), |i: int| Some(sint_dec(s[i] as int))),
        ) == Ok::<Seq<i32>, ErrorKind>(s),
    decreases s.len(),
{
    let items = Seq::new(s.len(), |i: int| Some(sint_dec(s[i] as int)));
    if s.len() == 0 {
        assert(Ok::<Seq<i32>, ErrorKind>(Seq::empty()) == Ok::<Seq<i32>, ErrorKind>(s)) by {
            assert(s =~= Seq::<i32>::empty());
        }
    } else {
        lemma_int4_text_round_trip(s[0]);
        assert(items[0] == Some(sint_dec(s[0] as int)));
        lemma_int4_decode_items(s.skip(1));
        assert(items.skip(1) =~= Seq::new(
            s.skip(1).len(),
            |i: int| Some(sint_dec(s.skip(1)[i] as int)),
        ));
        assert(decode_items::<i32>(Type::Int4, items) == Ok::<Seq<i32>, ErrorKind>(
            seq![s[0]] + s.skip(1),
        ));
        assert(seq![s[0]] + s.skip(1) =~= s);
    }
}

/// An `int4` array decodes back from its own text rendering.
pub proof fn lemma_int4_array_text_round_trip(v: &Vec<i32>)
    ensures
        v.spec_to_text() is Ok,
        v.spec_to_text()->Ok_0 is Some,
        Vec::<i32>::spec_from_text(
            Type::Int4Array,
            Some(v.spec_to_text()->Ok_0->0),
        ) == Ok::<Seq<i32>, ErrorKind>(v.deep_view()),
{
    let items = Seq::new(v@.len(), |i: int| sint_dec(v@[i] as int));
    lemma_int4_text_items(v@);
    assert(v.spec_to_text() == Ok::<Option<Seq<char>>, ErrorKind>(
        Some(seq!['{'] + join_comma(items) + seq!['}']),
    ));
    assert(forall|i: int|
        0 <= i < items.len() ==> plain_text(#[trigger] items[i]) && items[i].len() > 0 && items[i]
            != null_token()) by {
        assert forall|i: int| 0 <= i < items.len() implies plain_text(#[trigger] items[i])
            && items[i].len() > 0 && items[i] != null_token() by {
            lemma_sint_dec_plain(v@[i] as int);
        }
    }
    lemma_array_items_of_plain(items);
    let wrapped = Seq::new(items.len(), |i: int| Some(items[i]));
    assert(wrapped =~= Seq::new(v@.len(), |i: int| Some(sint_dec(v@[i] as int))));
    lemma_int4_decode_items(v@);
    assert(v.deep_view() =~= v@);
}


/// The binary payload of an optional `int4` array: the length
/// prefix and bytes of each element, the sentinel for an absent one.
pub open spec fn int4_opt_seg(e: Option<i32>) -> Seq<u8> {
    match e {
        None => be_u32(0xFFFFFFFF),
        Some(x) => be_u32(4) + be_u32(x as u32),
    }
}

pub open spec fn int4_opt_payload(s: Seq<Option<i32>>) -> Seq<u8>
    decreases s.len(),
{
    if s.len() == 0 {
        Seq::empty()
    } else {
        int4_opt_payload(s.drop_last()) + int4_opt_seg(s.last())
    }
}

proof fn lemma_int4_opt_payload_front(s: Seq<Option<i32>>)
    requires
        s.len() > 0,
    ensures
        int4_opt_payload(s) =~= int4_opt_seg(s[0]) + int4_opt_payload(s.skip(1)),
    decreases s.len(),
{
    if s.len() == 1 {
        assert(s.drop_last() =~= Seq::<Option<i32>>::empty());
        assert(s.skip(1) =~= Seq::<Option<i32>>::empty());
        assert(int4_opt_payload(s.drop_last()) =~= Seq::<u8>::empty());
        assert(s.last() == s[0]);
        assert(int4_opt_payload(s) == int4_opt_payload(s.drop_last()) + int4_opt_seg(s.last()));
        assert(int4_opt_payload(s) =~= int4_opt_seg(s[0]));
    } else {
        lemma_int4_opt_payload_front(s.drop_last());
        assert(s.skip(1).drop_last() =~= s.drop_last().skip(1));
        assert(s.skip(1).last() == s.last());
        assert(int4_opt_payload(s.skip(1)) == int4_opt_payload(s.drop_last().skip(1))
            + int4_opt_seg(s.last()));
        assert(s.drop_last()[0] == s[0]);
    }
}

proof fn lemma_int4_opt_bin_items(aty: Type, s: Seq<Option<i32>>)
    ensures
        bin_items::<Option<i32>>(aty, s) == Ok::<Seq<u8>, ErrorKind>(int4_opt_payload(s)),
    decreases s.len(),
{
    if s.len() > 0 {
        lemma_int4_opt_bin_items(aty, s.drop_last());
        match s.last() {
            None => {},
            Some(x) => {
                assert(x.spec_to_binary() == Ok::<Option<Seq<u8>>, ErrorKind>(
                    Some(be_u32(x as u32)),
                ));
                assert(be_u32(x as u32).len() == 4);
                assert(int4_opt_payload(s.drop_last()) + be_u32(4) + be_u32(x as u32)
                    =~= int4_opt_payload(s.drop_last()) + int4_opt_seg(s.last()));
            },
        }
    }
}

proof fn lemma_int4_opt_decode_bin(aty: Type, s: Seq<Option<i32>>)
    ensures
        decode_bin_items::<Option<i32>>(aty, Type::Int4, int4_opt_payload(s), s.len() as int)
            == Ok::<Seq<Option<i32>>, ErrorKind>(s),
    decreases s.len(),
{
    let b = int4_opt_payload(s);
    if s.len() == 0 {
        assert(b.len() == 0);
        assert(s =~= Seq::<Option<i32>>::empty());
    } else {
        lemma_int4_opt_payload_front(s);
        let rest = int4_opt_payload(s.skip(1));
        lemma_int4_opt_decode_bin(aty, s.skip(1));
        match s[0] {
            None => {
                assert(b.take(4) =~= be_u32(0xFFFFFFFF));
                lemma_be_u32_roundtrip(0xFFFFFFFF);
                assert(b.skip(4) =~= rest);
                assert(decode_bin_items::<Option<i32>>(aty, Type::Int4, b, s.len() as int)
                    == Ok::<Seq<Option<i32>>, ErrorKind>(seq![None] + s.skip(1)));
                assert(seq![None::<i32>] + s.skip(1) =~= s);
            },
            Some(x) => {
                assert(b.take(4) =~= be_u32(4));
                lemma_be_u32_roundtrip(4);
                assert(b.len() >= 8);
                assert(b.subrange(4, 8) =~= be_u32(x as u32));
                lemma_int4_binary_round_trip(x);
                assert(Option::<i32>::spec_from_binary(Type::Int4, Some(be_u32(x as u32)))
                    == Ok::<Option<i32>, ErrorKind>(Some(x)));
                assert(b.skip(8) =~= rest);
                assert(decode_bin_items::<Option<i32>>(aty, Type::Int4, b, s.len() as int)
                    == Ok::<Seq<Option<i32>>, ErrorKind>(seq![Some(x)] + s.skip(1)));
                assert(seq![Some(x)] + s.skip(1) =~= s);
            },
        }
    }
}

/// An optional `int4` array decodes back from its own binary
/// rendering, for any length the layout's length field can carry.
pub proof fn lemma_int4_array_binary_round_trip(v: &Vec<Option<i32>>)
    requires
        v@.len() <= 0x7FFFFFFF,
    ensures
        v.spec_to_binary() is Ok,
        v.spec_to_binary()->Ok_0 is Some,
        Vec::<Option<i32>>::spec_from_binary(
            Type::Int4Array,
            Some(v.spec_to_binary()->Ok_0->0),
        ) == Ok::<Seq<Option<i32>>, ErrorKind>(v.deep_view()),
{
    let aty = Type::Int4Array;
    assert(Option::<i32>::spec_type_of() == Type::Int4);
    assert(v.deep_view() =~= v@);
    if v@.len() == 0 {
        let b = be_u32(0) + be_u32(0) + be_u32(23);
        assert(b.len() == 12);
        assert(b.subrange(0, 4) =~= be_u32(0));
        assert(b.subrange(8, 12) =~= be_u32(23));
        lemma_be_u32_roundtrip(0);
        lemma_be_u32_roundtrip(23);
        assert(v@ =~= Seq::<Option<i32>>::empty());
    } else {
        lemma_int4_opt_bin_items(aty, v@);
        let pay = int4_opt_payload(v@);
        let flag: u32 = if crate::array::has_null_elem::<Option<i32>>(v@) {
            1
        } else {
            0
        };
        let b = be_u32(1) + be_u32(flag) + be_u32(23) + be_u32(v@.len() as u32) + be_u32(1) + pay;
        assert(v.spec_to_binary() == Ok::<Option<Seq<u8>>, ErrorKind>(Some(b)));
        assert(b.len() >= 20);
        assert(b.subrange(0, 4) =~= be_u32(1));
        assert(b.subrange(8, 12) =~= be_u32(23));
        assert(b.subrange(12, 16) =~= be_u32(v@.len() as u32));
        lemma_be_u32_roundtrip(1);
        lemma_be_u32_roundtrip(flag);
        lemma_be_u32_roundtrip(23);
        lemma_be_u32_roundtrip(v@.len() as u32);
        assert(b.skip(20) =~= pay);
        lemma_int4_opt_decode_bin(aty, v@);
        assert(u32_of_be(b.subrange(12, 16)) as int == v@.len() as int);
    }
}

} // verus!

