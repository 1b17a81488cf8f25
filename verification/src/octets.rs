//! Octet sequences: the big-endian words that XDR is made of, and the
//! buffers of the `bytes` crate that carry them.
//!
//! `Bytes` and `BytesMut` are opaque to the verifier. What they hold is named
//! by [`bytes_of`] and [`buffer_of`], and every contract in the crate that
//! speaks of a buffer speaks of that sequence.
use vstd::prelude::*;

use bytes::BufMut;
use bytes::Bytes;
use bytes::BytesMut;

verus! {

#[verifier::external_type_specification]
#[verifier::external_body]
pub struct ExBytes(bytes::Bytes);

#[verifier::external_type_specification]
#[verifier::external_body]
pub struct ExBytesMut(bytes::BytesMut);

/// The octets that a frozen buffer holds.
pub uninterp spec fn bytes_of(b: Bytes) -> Seq<u8>;

/// The octets written so far into a growing buffer.
pub uninterp spec fn buffer_of(b: BytesMut) -> Seq<u8>;

/// The four octets of `v`, most significant first.
pub open spec fn be32(v: u32) -> Seq<u8> {
    seq![(v >> 24) as u8, (v >> 16) as u8, (v >> 8) as u8, v as u8]
}

/// The eight octets of `v`, most significant first.
pub open spec fn be64(v: u64) -> Seq<u8> {
    be32((v >> 32) as u32) + be32(v as u32)
}

/// The word whose four octets, most significant first, start `s`.
pub open spec fn u32_of(s: Seq<u8>) -> u32 {
    ((s[0] as u32) << 24) | ((s[1] as u32) << 16) | ((s[2] as u32) << 8) | (s[3] as u32)
}

/// The double word whose eight octets, most significant first, start `s`.
pub open spec fn u64_of(s: Seq<u8>) -> u64 {
    ((u32_of(s) as u64) << 32) | (u32_of(s.skip(4)) as u64)
}

/// Reading a word back gives the word that was written.
pub proof fn lemma_u32_round_trip(v: u32)
    ensures
        u32_of(be32(v)) == v,
{
    let b0 = (v >> 24) as u8;
    let b1 = (v >> 16) as u8;
    let b2 = (v >> 8) as u8;
    let b3 = v as u8;
    assert(((b0 as u32) << 24) | ((b1 as u32) << 16) | ((b2 as u32) << 8) | (b3 as u32) == v)
        by (bit_vector)
        requires
            b0 == (v >> 24) as u8,
            b1 == (v >> 16) as u8,
            b2 == (v >> 8) as u8,
            b3 == v as u8,
    ;
}

/// Reading a double word back gives the double word that was written.
pub proof fn lemma_u64_round_trip(v: u64)
    ensures
        u64_of(be64(v)) == v,
{
    let hi = (v >> 32) as u32;
    let lo = v as u32;
    lemma_u32_round_trip(hi);
    lemma_u32_round_trip(lo);
    assert(be64(v).skip(4) =~= be32(lo));
    assert(u32_of(be64(v)) == u32_of(be32(hi)));
    assert(((hi as u64) << 32) | (lo as u64) == v) by (bit_vector)
        requires
            hi == (v >> 32) as u32,
            lo == v as u32,
    ;
}

/// Writing a word that was read gives back its octets.
pub proof fn lemma_u32_back(s: Seq<u8>)
    requires
        s.len() == 4,
    ensures
        be32(u32_of(s)) == s,
{
    let b0 = s[0];
    let b1 = s[1];
    let b2 = s[2];
    let b3 = s[3];
    let v = ((b0 as u32) << 24) | ((b1 as u32) << 16) | ((b2 as u32) << 8) | (b3 as u32);
    assert((v >> 24) as u8 == b0 && (v >> 16) as u8 == b1 && (v >> 8) as u8 == b2 && v as u8 == b3)
        by (bit_vector)
        requires
            v == ((b0 as u32) << 24) | ((b1 as u32) << 16) | ((b2 as u32) << 8) | (b3 as u32),
    ;
    assert(be32(v) =~= s);
}

/// Writing a double word that was read gives back its octets.
pub proof fn lemma_u64_back(s: Seq<u8>)
    requires
        s.len() == 8,
    ensures
        be64(u64_of(s)) == s,
{
    let hi = u32_of(s);
    let lo = u32_of(s.skip(4));
    let v = ((hi as u64) << 32) | (lo as u64);
    assert((v >> 32) as u32 == hi && v as u32 == lo) by (bit_vector)
        requires
            v == ((hi as u64) << 32) | (lo as u64),
    ;
    lemma_u32_back(s.take(4));
    lemma_u32_back(s.skip(4));
    assert(u32_of(s.take(4)) == hi);
    assert(be64(v) =~= s);
}

/// Law: a word is four octets, the most significant first.
pub proof fn a_word_is_four_octets(v: u32)
    ensures
        be32(v).len() == 4,
        v == be32(v)[0] * 0x100_0000 + be32(v)[1] * 0x1_0000 + be32(v)[2] * 0x100 + be32(v)[3],
{
    assert(((v >> 24) as u8) * 0x100_0000 + ((v >> 16) as u8) * 0x1_0000 + ((v >> 8) as u8) * 0x100
        + (v as u8) == v) by (bit_vector);
}

/// Law: a double word is two words, the most significant first.
pub proof fn a_double_word_is_two_words(v: u64)
    ensures
        be64(v) == be32((v / 0x1_0000_0000) as u32) + be32((v % 0x1_0000_0000) as u32),
{
    assert((v >> 32) as u32 == (v / 0x1_0000_0000) as u32 && v as u32 == (v % 0x1_0000_0000) as u32)
        by (bit_vector);
}

/// A fresh, empty buffer: `bytes::BytesMut::new`.
#[verifier::external_body]
pub(crate) fn buffer_new() -> (b: BytesMut)
    ensures
        buffer_of(b) == Seq::<u8>::empty(),
{
    BytesMut::new()
}

/// `bytes::BufMut::put_u32`: appends the four octets of `v`, most significant
/// first, and keeps what was there.
#[verifier::external_body]
pub(crate) fn buffer_put_u32(b: &mut BytesMut, v: u32)
    ensures
        buffer_of(*final(b)) == buffer_of(*old(b)) + be32(v),
{
    b.put_u32(v)
}

/// `bytes::BufMut::put_slice`: appends `data` and keeps what was there.
#[verifier::external_body]
pub(crate) fn buffer_put_slice(b: &mut BytesMut, data: &[u8])
    ensures
        buffer_of(*final(b)) == buffer_of(*old(b)) + data@,
{
    b.put_slice(data)
}

/// `bytes::BytesMut::freeze`: the same octets, no longer growing.
#[verifier::external_body]
pub(crate) fn buffer_freeze(b: BytesMut) -> (r: Bytes)
    ensures
        bytes_of(r) == buffer_of(b),
{
    b.freeze()
}

/// `<bytes::Bytes as AsRef<[u8]>>::as_ref`: the octets as a slice.
#[verifier::external_body]
pub(crate) fn bytes_as_slice(b: &Bytes) -> (r: &[u8])
    ensures
        r@ == bytes_of(*b),
{
    b.as_ref()
}

/// `bytes::Bytes::split_to`: cuts the first `at` octets off and returns them.
/// It panics when `at` exceeds the length, which the precondition rules out.
#[verifier::external_body]
pub(crate) fn bytes_split_to(b: &mut Bytes, at: usize) -> (r: Bytes)
    requires
        at <= bytes_of(*old(b)).len(),
    ensures
        bytes_of(r) == bytes_of(*old(b)).take(at as int),
        bytes_of(*final(b)) == bytes_of(*old(b)).skip(at as int),
{
    b.split_to(at)
}

/// Assembles the word whose octets start `s`.
pub fn u32_at(s: &[u8]) -> (v: u32)
    requires
        s@.len() >= 4,
    ensures
        v == u32_of(s@),
{
    ((s[0] as u32) << 24) | ((s[1] as u32) << 16) | ((s[2] as u32) << 8) | (s[3] as u32)
}

/// The double word at the front of `s`.
pub fn u64_at(s: &[u8]) -> (v: u64)
    requires
        s@.len() >= 8,
    ensures
        v == u64_of(s@),
{
    let hi: u32 = u32_at(s);
    let tail = vstd::slice::slice_subrange(s, 4, s.len());
    let lo: u32 = u32_at(tail);
    assert(tail@ =~= s@.skip(4));
    ((hi as u64) << 32) | (lo as u64)
}

/// Append octets to a vector.
pub fn append_octets(v: &mut Vec<u8>, s: &[u8])
    ensures
        final(v)@ == old(v)@ + s@,
{
    let ghost before = v@;
    let mut i: usize = 0;
    while i < s.len()
        invariant
            i <= s@.len(),
            v@ =~= before + s@.take(i as int),
        decreases s@.len() - i,
    {
        v.push(s[i]);
        i = i + 1;
    }
    assert(s@.take(i as int) =~= s@);
}

/// Append the four octets of `n`, most significant first.
pub fn append_be32(v: &mut Vec<u8>, n: u32)
    ensures
        final(v)@ == old(v)@ + be32(n),
{
    let ghost before = v@;
    v.push((n >> 24) as u8);
    v.push((n >> 16) as u8);
    v.push((n >> 8) as u8);
    v.push(n as u8);
    assert(v@ =~= before + be32(n));
}

/// Append the eight octets of `n`, most significant first.
pub fn append_be64(v: &mut Vec<u8>, n: u64)
    ensures
        final(v)@ == old(v)@ + be64(n),
{
    let ghost before = v@;
    append_be32(v, (n >> 32) as u32);
    append_be32(v, n as u32);
    assert(v@ =~= before + be64(n));
}

/// Whether two runs of octets are the same.
pub fn same_octets(a: &[u8], b: &[u8]) -> (same: bool)
    ensures
        same == (a@ == b@),
{
    if a.len() != b.len() {
        return false;
    }
    let mut i: usize = 0;
    while i < a.len()
        invariant
            i <= a@.len() == b@.len(),
            forall|k: int| 0 <= k < i ==> a@[k] == b@[k],
        decreases a@.len() - i,
    {
        if a[i] != b[i] {
            return false;
        }
        i = i + 1;
    }
    assert(a@ =~= b@);
    true
}

} // verus!
