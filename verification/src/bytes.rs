//! Verified big-endian byte layout helpers: the fixed-width fields of
//! the binary wire format are built from and read back into integers
//! here.

use vstd::prelude::*;

verus! {

/// The eight bytes of `v` in network byte order.
pub open spec fn be_u64(v: u64) -> Seq<u8> {
    seq![
        (v >> 56) as u8,
        (v >> 48) as u8,
        (v >> 40) as u8,
        (v >> 32) as u8,
        (v >> 24) as u8,
        (v >> 16) as u8,
        (v >> 8) as u8,
        v as u8,
    ]
}

/// The integer eight network-order bytes denote.
pub open spec fn u64_of_be(s: Seq<u8>) -> u64
    recommends
        s.len() == 8,
{
    ((s[0] as u64) << 56) | ((s[1] as u64) << 48) | ((s[2] as u64) << 40) | ((s[3] as u64) << 32)
        | ((s[4] as u64) << 24) | ((s[5] as u64) << 16) | ((s[6] as u64) << 8) | (s[7] as u64)
}

pub proof fn lemma_be_u64_roundtrip(v: u64)
    ensures
        u64_of_be(be_u64(v)) == v,
{
    assert((((v >> 56) as u8 as u64) << 56) | (((v >> 48) as u8 as u64) << 48) | (((v >> 40) as u8
        as u64) << 40) | (((v >> 32) as u8 as u64) << 32) | (((v >> 24) as u8 as u64) << 24) | (((v
        >> 16) as u8 as u64) << 16) | (((v >> 8) as u8 as u64) << 8) | (v as u8 as u64) == v)
        by (bit_vector);
}

/// The four bytes of `v` in network byte order.
pub open spec fn be_u32(v: u32) -> Seq<u8> {
    seq![(v >> 24) as u8, (v >> 16) as u8, (v >> 8) as u8, v as u8]
}

/// The integer four network-order bytes denote.
pub open spec fn u32_of_be(s: Seq<u8>) -> u32
    recommends
        s.len() == 4,
{
    ((s[0] as u32) << 24) | ((s[1] as u32) << 16) | ((s[2] as u32) << 8) | (s[3] as u32)
}

pub proof fn lemma_be_u32_roundtrip(v: u32)
    ensures
        u32_of_be(be_u32(v)) == v,
{
    assert((((v >> 24) as u8 as u32) << 24) | (((v >> 16) as u8 as u32) << 16) | (((v >> 8) as u8
        as u32) << 8) | (v as u8 as u32) == v) by (bit_vector);
}

pub fn push_be_u64(buf: &mut Vec<u8>, v: u64)
    ensures
        final(buf)@ == old(buf)@ + be_u64(v),
{
    buf.push((v >> 56) as u8);
    buf.push((v >> 48) as u8);
    buf.push((v >> 40) as u8);
    buf.push((v >> 32) as u8);
    buf.push((v >> 24) as u8);
    buf.push((v >> 16) as u8);
    buf.push((v >> 8) as u8);
    buf.push(v as u8);
    proof {
        assert(buf@ =~= old(buf)@ + be_u64(v));
    }
}

pub fn push_be_u32(buf: &mut Vec<u8>, v: u32)
    ensures
        final(buf)@ == old(buf)@ + be_u32(v),
{
    buf.push((v >> 24) as u8);
    buf.push((v >> 16) as u8);
    buf.push((v >> 8) as u8);
    buf.push(v as u8);
    proof {
        assert(buf@ =~= old(buf)@ + be_u32(v));
    }
}

/// Reads the big-endian `u64` that starts at `off`.
pub fn read_be_u64(b: &[u8], off: usize) -> (r: u64)
    requires
        off + 8 <= b@.len(),
    ensures
        r == u64_of_be(b@.subrange(off as int, off + 8)),
{
    let r = ((b[off] as u64) << 56) | ((b[off + 1] as u64) << 48) | ((b[off + 2] as u64) << 40) | ((
    b[off + 3] as u64) << 32) | ((b[off + 4] as u64) << 24) | ((b[off + 5] as u64) << 16) | ((b[off
        + 6] as u64) << 8) | (b[off + 7] as u64);
    proof {
        let s = b@.subrange(off as int, off + 8);
        assert(s[0] == b@[off as int]);
        assert(s[1] == b@[off + 1]);
        assert(s[2] == b@[off + 2]);
        assert(s[3] == b@[off + 3]);
        assert(s[4] == b@[off + 4]);
        assert(s[5] == b@[off + 5]);
        assert(s[6] == b@[off + 6]);
        assert(s[7] == b@[off + 7]);
    }
    r
}

/// Reads the big-endian `u32` that starts at `off`.
pub fn read_be_u32(b: &[u8], off: usize) -> (r: u32)
    requires
        off + 4 <= b@.len(),
    ensures
        r == u32_of_be(b@.subrange(off as int, off + 4)),
{
    let r = ((b[off] as u32) << 24) | ((b[off + 1] as u32) << 16) | ((b[off + 2] as u32) << 8) | (
    b[off + 3] as u32);
    proof {
        let s = b@.subrange(off as int, off + 4);
        assert(s[0] == b@[off as int]);
        assert(s[1] == b@[off + 1]);
        assert(s[2] == b@[off + 2]);
        assert(s[3] == b@[off + 3]);
    }
    r
}

} // verus!
