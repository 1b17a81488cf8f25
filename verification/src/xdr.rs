//! XDR (RFC 4506): the wire form of the protocol's basic items, an encoder that
//! appends them and a decoder that takes them off again.
//!
//! The wire form of an item is a spec function `wire_*` from the item to its
//! octets. A reader is a spec function `parse_*` from the octets ahead of the
//! cursor to a [`Parsed`] pair: the item or the error, and the octets that are
//! then ahead. A reader that fails leaves the cursor where the failing item
//! began or, for an item with a length prefix, behind that prefix.
use vstd::prelude::*;
use vstd::utf8::*;

use bytes::Bytes;
use bytes::BytesMut;

use crate::octets;
use crate::octets::{
    buffer_freeze, buffer_new, buffer_put_slice, buffer_put_u32, bytes_as_slice, bytes_split_to,
    u32_at,
};
use crate::protocol::{
    Nfs4FileHandle, Nfs4Status, SessionId, StateId, StateIdView,
};
use crate::protocol::status;
use crate::text::str_from_utf8;

verus! {

/// Why octets could not be read as the item they should hold.
#[derive(Debug, Clone, Copy, PartialEq, Eq, Structural)]
pub enum XdrError {
    /// Fewer octets are ahead than the item takes.
    Truncated,
    /// The octets of a string are not UTF-8.
    BadUtf8,
    /// An array claims more elements than the octets ahead could hold.
    CountExceedsInput,
    /// An array claims more elements than its bound admits.
    OverBound,
    /// A union discriminant, or an enumerated word, that the protocol does not
    /// define.
    UnknownArm,
}

impl XdrError {
    pub open spec fn text(self) -> Seq<char> {
        match self {
            XdrError::Truncated => "not enough data for the item"@,
            XdrError::BadUtf8 => "string is not valid UTF-8"@,
            XdrError::CountExceedsInput => "array count exceeds the bytes that remain"@,
            XdrError::OverBound => "array count is over its bound"@,
            XdrError::UnknownArm => "unknown discriminant"@,
        }
    }

    /// A sentence for a log.
    pub fn describe(&self) -> (s: &'static str)
        ensures
            s@ == self.text(),
    {
        match self {
            XdrError::Truncated => "not enough data for the item",
            XdrError::BadUtf8 => "string is not valid UTF-8",
            XdrError::CountExceedsInput => "array count exceeds the bytes that remain",
            XdrError::OverBound => "array count is over its bound",
            XdrError::UnknownArm => "unknown discriminant",
        }
    }
}

// ---------------------------------------------------------------------------
// Wire forms
// ---------------------------------------------------------------------------

/// How many zero octets bring `n` octets to a multiple of four.
pub open spec fn pad_len(n: nat) -> nat {
    ((4 - n % 4) % 4) as nat
}

/// `n` zero octets.
pub open spec fn zeros(n: nat) -> Seq<u8> {
    Seq::new(n, |i: int| 0u8)
}

pub open spec fn wire_bool(b: bool) -> Seq<u8> {
    octets::be32(if b { 1u32 } else { 0u32 })
}

/// Octets whose number both sides know: no length prefix.
pub open spec fn wire_fixed(data: Seq<u8>) -> Seq<u8> {
    data + zeros(pad_len(data.len()))
}

/// Octets behind their length.
pub open spec fn wire_opaque(data: Seq<u8>) -> Seq<u8> {
    octets::be32(data.len() as u32) + wire_fixed(data)
}

/// Characters, as the opaque of their UTF-8.
pub open spec fn wire_string(s: Seq<char>) -> Seq<u8> {
    wire_opaque(encode_utf8(s))
}

/// Words one after the other.
pub open spec fn wire_words(w: Seq<u32>) -> Seq<u8>
    decreases w.len(),
{
    if w.len() == 0 {
        Seq::empty()
    } else {
        wire_words(w.drop_last()) + octets::be32(w.last())
    }
}

/// `bitmap4`: words behind their number.
pub open spec fn wire_bitmap(w: Seq<u32>) -> Seq<u8> {
    octets::be32(w.len() as u32) + wire_words(w)
}

pub open spec fn wire_status(s: Nfs4Status) -> Seq<u8> {
    octets::be32(status::status_code(s))
}

pub open spec fn wire_stateid(s: StateIdView) -> Seq<u8> {
    octets::be32(s.seqid) + wire_fixed(s.other)
}

// ---------------------------------------------------------------------------
// Readers
// ---------------------------------------------------------------------------

/// What a reader gives: the item or the error, and the octets then ahead.
pub type Parsed<T> = (Result<T, XdrError>, Seq<u8>);

/// One reader after another: the second starts where the first stopped, and
/// does not run when the first failed.
pub open spec fn bind<A, B>(p: Parsed<A>, f: spec_fn(A, Seq<u8>) -> Parsed<B>) -> Parsed<B> {
    match p.0 {
        Ok(a) => f(a, p.1),
        Err(e) => (Err(e), p.1),
    }
}

/// `p` with `pre` put before the elements that it read.
pub open spec fn prepend<A>(pre: Seq<A>, p: Parsed<Seq<A>>) -> Parsed<Seq<A>> {
    match p.0 {
        Ok(v) => (Ok(pre + v), p.1),
        Err(e) => (Err(e), p.1),
    }
}

pub open spec fn parse_u32(s: Seq<u8>) -> Parsed<u32> {
    if s.len() < 4 {
        (Err(XdrError::Truncated), s)
    } else {
        (Ok(octets::u32_of(s)), s.skip(4))
    }
}

pub open spec fn parse_u64(s: Seq<u8>) -> Parsed<u64> {
    if s.len() < 8 {
        (Err(XdrError::Truncated), s)
    } else {
        (Ok(octets::u64_of(s)), s.skip(8))
    }
}

/// A boolean is a word; every word but zero is true.
pub open spec fn parse_bool(s: Seq<u8>) -> Parsed<bool> {
    bind(parse_u32(s), |w: u32, s: Seq<u8>| (Ok(w != 0), s))
}

/// `n` octets and their padding.
pub open spec fn parse_fixed(s: Seq<u8>, n: nat) -> Parsed<Seq<u8>> {
    if s.len() < n + pad_len(n) {
        (Err(XdrError::Truncated), s)
    } else {
        (Ok(s.take(n as int)), s.skip((n + pad_len(n)) as int))
    }
}

pub open spec fn parse_opaque(s: Seq<u8>) -> Parsed<Seq<u8>> {
    bind(parse_u32(s), |n: u32, s: Seq<u8>| parse_fixed(s, n as nat))
}

pub open spec fn parse_string(s: Seq<u8>) -> Parsed<Seq<char>> {
    bind(
        parse_opaque(s),
        |d: Seq<u8>, s: Seq<u8>|
            if valid_utf8(d) {
                (Ok(decode_utf8(d)), s)
            } else {
                (Err(XdrError::BadUtf8), s)
            },
    )
}

/// `n` words.
pub open spec fn parse_words(s: Seq<u8>, n: nat) -> Parsed<Seq<u32>>
    decreases n,
{
    if n == 0 {
        (Ok(Seq::empty()), s)
    } else {
        let (w, t) = parse_u32(s);
        match w {
            Err(e) => (Err(e), t),
            Ok(w) => prepend(seq![w], parse_words(t, (n - 1) as nat)),
        }
    }
}

/// An array's element count, which the octets behind it must be able to hold
/// at `size` octets an element.
pub open spec fn parse_count(s: Seq<u8>, size: nat) -> Parsed<u32> {
    bind(
        parse_u32(s),
        |n: u32, s: Seq<u8>|
            if n as nat * size <= s.len() {
                (Ok(n), s)
            } else {
                (Err(XdrError::CountExceedsInput), s)
            },
    )
}

pub open spec fn parse_bitmap(s: Seq<u8>) -> Parsed<Seq<u32>> {
    bind(parse_count(s, 4), |n: u32, s: Seq<u8>| parse_words(s, n as nat))
}

pub open spec fn parse_status(s: Seq<u8>) -> Parsed<Nfs4Status> {
    bind(
        parse_u32(s),
        |code: u32, s: Seq<u8>|
            match status::status_named(code) {
                Some(st) => (Ok(st), s),
                None => (Err(XdrError::UnknownArm), s),
            },
    )
}

pub open spec fn parse_stateid(s: Seq<u8>) -> Parsed<StateIdView> {
    bind(
        parse_u32(s),
        |seqid: u32, s: Seq<u8>|
            bind(
                parse_fixed(s, 12),
                |other: Seq<u8>, s: Seq<u8>| (Ok(StateIdView { seqid, other }), s),
            ),
    )
}

/// `n` stateids.
pub open spec fn parse_stateids(s: Seq<u8>, n: nat) -> Parsed<Seq<StateIdView>>
    decreases n,
{
    if n == 0 {
        (Ok(Seq::empty()), s)
    } else {
        let (v, t) = parse_stateid(s);
        match v {
            Err(e) => (Err(e), t),
            Ok(v) => prepend(seq![v], parse_stateids(t, (n - 1) as nat)),
        }
    }
}

/// A result with its payload taken by its view.
pub open spec fn viewed<T: View>(r: Result<T, XdrError>) -> Result<T::V, XdrError> {
    match r {
        Ok(v) => Ok(v@),
        Err(e) => Err(e),
    }
}

/// The views of a sequence of items.
pub open spec fn views<T: View>(s: Seq<T>) -> Seq<T::V> {
    Seq::new(s.len(), |i: int| s[i]@)
}

// ---------------------------------------------------------------------------
// Decoder
// ---------------------------------------------------------------------------

/// The bound every element count off the wire passes before anything is
/// allocated for it: `count` elements of at least `elem` octets must fit in the
/// `remaining` ones.
pub fn checked_array_len(count: u32, remaining: usize, elem: usize) -> (r: Result<usize, XdrError>)
    ensures
        r == (if count as int * elem as int <= remaining {
            Ok::<usize, XdrError>(count as usize)
        } else {
            Err::<usize, XdrError>(XdrError::CountExceedsInput)
        }),
{
    assert(count as int * elem as int <= 0xFFFF_FFFF * 0xFFFF_FFFF_FFFF_FFFF) by (nonlinear_arith)
        requires
            0 <= count <= 0xFFFF_FFFF,
            0 <= elem <= 0xFFFF_FFFF_FFFF_FFFF,
    ;
    assert(count as int * elem as int >= 0) by (nonlinear_arith)
        requires
            0 <= count,
            0 <= elem,
    ;
    if count as u128 * elem as u128 <= remaining as u128 {
        Ok(count as usize)
    } else {
        Err(XdrError::CountExceedsInput)
    }
}

/// Takes XDR items off the front of a buffer. Its view is what is still ahead.
#[derive(Debug)]
pub struct XdrDecoder {
    buf: Bytes,
}

impl View for XdrDecoder {
    type V = Seq<u8>;

    closed spec fn view(&self) -> Seq<u8> {
        octets::bytes_of(self.buf)
    }
}

impl XdrDecoder {
    pub fn new(buf: Bytes) -> (d: XdrDecoder)
        ensures
            d@ == octets::bytes_of(buf),
    {
        XdrDecoder { buf }
    }

    /// How many octets are ahead.
    pub fn remaining(&self) -> (n: usize)
        ensures
            n == self@.len(),
    {
        bytes_as_slice(&self.buf).len()
    }

    /// The octets ahead.
    pub fn rest(&self) -> (r: &[u8])
        ensures
            r@ == self@,
    {
        bytes_as_slice(&self.buf)
    }

    pub fn decode_u32(&mut self) -> (r: Result<u32, XdrError>)
        ensures
            (r, final(self)@) == parse_u32(old(self)@),
    {
        if self.remaining() < 4 {
            return Err(XdrError::Truncated);
        }
        let head = bytes_split_to(&mut self.buf, 4);
        Ok(u32_at(bytes_as_slice(&head)))
    }

    pub fn decode_u64(&mut self) -> (r: Result<u64, XdrError>)
        ensures
            (r, final(self)@) == parse_u64(old(self)@),
    {
        if self.remaining() < 8 {
            return Err(XdrError::Truncated);
        }
        let ghost s = self@;
        let hi = bytes_split_to(&mut self.buf, 4);
        let lo = bytes_split_to(&mut self.buf, 4);
        let hi: u32 = u32_at(bytes_as_slice(&hi));
        let lo: u32 = u32_at(bytes_as_slice(&lo));
        assert(s.skip(4).skip(4) =~= s.skip(8));
        Ok(((hi as u64) << 32) | (lo as u64))
    }

    pub fn decode_bool(&mut self) -> (r: Result<bool, XdrError>)
        ensures
            (r, final(self)@) == parse_bool(old(self)@),
    {
        let w: u32 = self.decode_u32()?;
        Ok(w != 0)
    }

    pub fn decode_fixed_opaque(&mut self, n: usize) -> (r: Result<Bytes, XdrError>)
        ensures
            final(self)@ == parse_fixed(old(self)@, n as nat).1,
            match r {
                Ok(b) => parse_fixed(old(self)@, n as nat).0 == Ok::<Seq<u8>, XdrError>(
                    octets::bytes_of(b),
                ),
                Err(e) => parse_fixed(old(self)@, n as nat).0 == Err::<Seq<u8>, XdrError>(e),
            },
    {
        let ghost s = self@;
        let pad: usize = (4 - n % 4) % 4;
        let have: usize = self.remaining();
        if have < n || have - n < pad {
            return Err(XdrError::Truncated);
        }
        let data = bytes_split_to(&mut self.buf, n);
        let _pad = bytes_split_to(&mut self.buf, pad);
        assert(s.skip(n as int).skip(pad as int) =~= s.skip(n + pad));
        Ok(data)
    }

    pub fn decode_opaque(&mut self) -> (r: Result<Bytes, XdrError>)
        ensures
            final(self)@ == parse_opaque(old(self)@).1,
            match r {
                Ok(b) => parse_opaque(old(self)@).0 == Ok::<Seq<u8>, XdrError>(
                    octets::bytes_of(b),
                ),
                Err(e) => parse_opaque(old(self)@).0 == Err::<Seq<u8>, XdrError>(e),
            },
    {
        let n: u32 = self.decode_u32()?;
        self.decode_fixed_opaque(n as usize)
    }

    /// An opaque, copied out of the buffer.
    pub fn decode_octets(&mut self) -> (r: Result<Vec<u8>, XdrError>)
        ensures
            (viewed(r), final(self)@) == parse_opaque(old(self)@),
    {
        let b = self.decode_opaque()?;
        Ok(octets_to_vec(bytes_as_slice(&b)))
    }

    pub fn decode_string(&mut self) -> (r: Result<String, XdrError>)
        ensures
            (viewed(r), final(self)@) == parse_string(old(self)@),
    {
        let b = self.decode_opaque()?;
        match str_from_utf8(bytes_as_slice(&b)) {
            Ok(s) => Ok(s.to_owned()),
            Err(_) => Err(XdrError::BadUtf8),
        }
    }

    /// `n` words.
    pub fn decode_words(&mut self, n: u32) -> (r: Result<Vec<u32>, XdrError>)
        ensures
            (viewed(r), final(self)@) == parse_words(old(self)@, n as nat),
    {
        let ghost s = self@;
        let mut words: Vec<u32> = Vec::new();
        let mut i: u32 = 0;
        assert(prepend(words@, parse_words(s, n as nat)) == parse_words(s, n as nat)) by {
            assert forall|v: Seq<u32>| words@ + v =~= v by {}
        }
        while i < n
            invariant
                i <= n,
                s == old(self)@,
                parse_words(s, n as nat) == prepend(
                    words@,
                    parse_words(self@, (n - i) as nat),
                ),
            decreases n - i,
        {
            let ghost before = words@;
            let ghost tail = parse_words(self@, (n - i) as nat);
            let w: u32 = self.decode_u32()?;
            words.push(w);
            i += 1;
            proof {
                let rest = parse_words(self@, (n - i) as nat);
                assert(tail == prepend(seq![w], rest));
                if let Ok(v) = rest.0 {
                    assert(before + (seq![w] + v) =~= words@ + v);
                }
            }
        }
        assert(words@ + Seq::<u32>::empty() =~= words@);
        Ok(words)
    }

    pub fn decode_bitmap(&mut self) -> (r: Result<Vec<u32>, XdrError>)
        ensures
            (viewed(r), final(self)@) == parse_bitmap(old(self)@),
    {
        let n: u32 = self.decode_count(4)?;
        self.decode_words(n)
    }

    /// An element count, bounded by what is ahead.
    pub fn decode_count(&mut self, size: usize) -> (r: Result<u32, XdrError>)
        ensures
            (r, final(self)@) == parse_count(old(self)@, size as nat),
    {
        let n: u32 = self.decode_u32()?;
        match checked_array_len(n, self.remaining(), size) {
            Ok(_) => Ok(n),
            Err(e) => Err(e),
        }
    }

    pub fn decode_status(&mut self) -> (r: Result<Nfs4Status, XdrError>)
        ensures
            (r, final(self)@) == parse_status(old(self)@),
    {
        let code: u32 = self.decode_u32()?;
        match Nfs4Status::from_u32(code) {
            Some(st) => Ok(st),
            None => Err(XdrError::UnknownArm),
        }
    }

    pub fn decode_stateid(&mut self) -> (r: Result<StateId, XdrError>)
        ensures
            (viewed(r), final(self)@) == parse_stateid(old(self)@),
    {
        let seqid: u32 = self.decode_u32()?;
        let b = self.decode_fixed_opaque(12)?;
        let src = bytes_as_slice(&b);
        let mut other: [u8; 12] = [0; 12];
        let mut i: usize = 0;
        while i < 12
            invariant
                i <= 12,
                src@.len() == 12,
                forall|j: int| 0 <= j < i ==> other@[j] == src@[j],
            decreases 12 - i,
        {
            other[i] = src[i];
            i += 1;
        }
        assert(other@ =~= src@);
        Ok(StateId { seqid, other })
    }

    /// `n` stateids.
    pub fn decode_stateids(&mut self, n: u32) -> (r: Result<Vec<StateId>, XdrError>)
        ensures
            final(self)@ == parse_stateids(old(self)@, n as nat).1,
            match r {
                Ok(v) => parse_stateids(old(self)@, n as nat).0 == Ok::<
                    Seq<StateIdView>,
                    XdrError,
                >(views(v@)),
                Err(e) => parse_stateids(old(self)@, n as nat).0 == Err::<
                    Seq<StateIdView>,
                    XdrError,
                >(e),
            },
    {
        let ghost s = self@;
        let mut out: Vec<StateId> = Vec::new();
        let mut i: u32 = 0;
        assert(prepend(views(out@), parse_stateids(s, n as nat)) == parse_stateids(s, n as nat)) by {
            assert forall|v: Seq<StateIdView>| views(out@) + v =~= v by {}
        }
        while i < n
            invariant
                i <= n,
                s == old(self)@,
                parse_stateids(s, n as nat) == prepend(
                    views(out@),
                    parse_stateids(self@, (n - i) as nat),
                ),
            decreases n - i,
        {
            let ghost before = out@;
            let ghost tail = parse_stateids(self@, (n - i) as nat);
            let v = self.decode_stateid()?;
            out.push(v);
            i += 1;
            proof {
                let rest = parse_stateids(self@, (n - i) as nat);
                assert(tail == prepend(seq![v@], rest));
                if let Ok(t) = rest.0 {
                    assert(views(before) + (seq![v@] + t) =~= views(out@) + t);
                }
            }
        }
        assert(views(out@) + Seq::<StateIdView>::empty() =~= views(out@));
        Ok(out)
    }

    pub fn decode_sessionid(&mut self) -> (r: Result<SessionId, XdrError>)
        ensures
            (viewed(r), final(self)@) == parse_fixed(old(self)@, 16),
    {
        let b = self.decode_fixed_opaque(16)?;
        let src = bytes_as_slice(&b);
        let mut id: [u8; 16] = [0; 16];
        let mut i: usize = 0;
        while i < 16
            invariant
                i <= 16,
                src@.len() == 16,
                forall|j: int| 0 <= j < i ==> id@[j] == src@[j],
            decreases 16 - i,
        {
            id[i] = src[i];
            i += 1;
        }
        assert(id@ =~= src@);
        Ok(SessionId(id))
    }

    /// `verifier4`: eight octets.
    pub fn decode_verifier(&mut self) -> (r: Result<[u8; 8], XdrError>)
        ensures
            (viewed(r), final(self)@) == parse_fixed(old(self)@, 8),
    {
        let b = self.decode_fixed_opaque(8)?;
        let src = bytes_as_slice(&b);
        let mut v: [u8; 8] = [0; 8];
        let mut i: usize = 0;
        while i < 8
            invariant
                i <= 8,
                src@.len() == 8,
                forall|j: int| 0 <= j < i ==> v@[j] == src@[j],
            decreases 8 - i,
        {
            v[i] = src[i];
            i += 1;
        }
        assert(v@ =~= src@);
        Ok(v)
    }

    pub fn decode_filehandle(&mut self) -> (r: Result<Nfs4FileHandle, XdrError>)
        ensures
            (viewed(r), final(self)@) == parse_opaque(old(self)@),
    {
        let data = self.decode_octets()?;
        Ok(Nfs4FileHandle { data })
    }
}

/// The octets of a slice, copied.
pub fn octets_to_vec(s: &[u8]) -> (v: Vec<u8>)
    ensures
        v@ == s@,
{
    let mut v: Vec<u8> = Vec::new();
    v.extend_from_slice(s);
    assert(v@ =~= s@);
    v
}

// ---------------------------------------------------------------------------
// Encoder
// ---------------------------------------------------------------------------

/// Appends XDR items to a buffer. Its view is what has been written.
#[derive(Debug)]
pub struct XdrEncoder {
    buf: BytesMut,
}

impl View for XdrEncoder {
    type V = Seq<u8>;

    closed spec fn view(&self) -> Seq<u8> {
        octets::buffer_of(self.buf)
    }
}

impl XdrEncoder {
    pub fn new() -> (e: XdrEncoder)
        ensures
            e@ == Seq::<u8>::empty(),
    {
        XdrEncoder { buf: buffer_new() }
    }

    /// The octets written.
    pub fn finish(self) -> (b: Bytes)
        ensures
            octets::bytes_of(b) == self@,
    {
        buffer_freeze(self.buf)
    }

    pub fn encode_u32(&mut self, v: u32)
        ensures
            final(self)@ == old(self)@ + octets::be32(v),
    {
        buffer_put_u32(&mut self.buf, v);
    }

    pub fn encode_u64(&mut self, v: u64)
        ensures
            final(self)@ == old(self)@ + octets::be64(v),
    {
        broadcast use lemma_concat_assoc;

        buffer_put_u32(&mut self.buf, (v >> 32) as u32);
        buffer_put_u32(&mut self.buf, v as u32);
    }

    pub fn encode_bool(&mut self, b: bool)
        ensures
            final(self)@ == old(self)@ + wire_bool(b),
    {
        self.encode_u32(if b { 1 } else { 0 });
    }

    /// Octets that are already in wire form.
    pub fn append_raw(&mut self, data: &[u8])
        ensures
            final(self)@ == old(self)@ + data@,
    {
        buffer_put_slice(&mut self.buf, data);
    }

    pub fn encode_fixed_opaque(&mut self, data: &[u8])
        ensures
            final(self)@ == old(self)@ + wire_fixed(data@),
    {
        broadcast use lemma_concat_assoc;

        self.append_raw(data);
        let n: usize = (4 - data.len() % 4) % 4;
        self.encode_padding(n);
    }

    /// `n` zero octets.
    pub fn encode_padding(&mut self, n: usize)
        requires
            n < 4,
        ensures
            final(self)@ == old(self)@ + zeros(n as nat),
    {
        let ghost start = self@;
        let mut i: usize = 0;
        assert(start =~= start + zeros(0));
        while i < n
            invariant
                i <= n,
                self@ == start + zeros(i as nat),
            decreases n - i,
        {
            let zero: [u8; 1] = [0];
            self.append_raw(&zero);
            assert(start + zeros(i as nat) + zero@ =~= start + zeros((i + 1) as nat));
            i += 1;
        }
    }

    pub fn encode_opaque(&mut self, data: &[u8])
        ensures
            final(self)@ == old(self)@ + wire_opaque(data@),
    {
        broadcast use lemma_concat_assoc;

        self.encode_u32(data.len() as u32);
        self.encode_fixed_opaque(data);
    }

    pub fn encode_string(&mut self, s: &str)
        ensures
            final(self)@ == old(self)@ + wire_string(s@),
    {
        self.encode_opaque(s.as_bytes());
    }

    pub fn encode_bitmap(&mut self, words: &[u32])
        ensures
            final(self)@ == old(self)@ + wire_bitmap(words@),
    {
        broadcast use lemma_concat_assoc;

        self.encode_u32(words.len() as u32);
        let ghost start = self@;
        assert(start =~= start + wire_words(words@.take(0)));
        let mut i: usize = 0;
        while i < words.len()
            invariant
                i <= words@.len(),
                self@ == start + wire_words(words@.take(i as int)),
            decreases words@.len() - i,
        {
            broadcast use lemma_concat_assoc;

            self.encode_u32(words[i]);
            assert(words@.take(i + 1).drop_last() =~= words@.take(i as int));
            i += 1;
        }
        assert(words@.take(words@.len() as int) =~= words@);
    }

    pub fn encode_status(&mut self, s: Nfs4Status)
        ensures
            final(self)@ == old(self)@ + wire_status(s),
    {
        self.encode_u32(s.to_u32());
    }

    pub fn encode_stateid(&mut self, s: &StateId)
        ensures
            final(self)@ == old(self)@ + wire_stateid(s@),
    {
        broadcast use lemma_concat_assoc;

        self.encode_u32(s.seqid);
        self.encode_fixed_opaque(&s.other);
    }

    pub fn encode_sessionid(&mut self, s: &SessionId)
        ensures
            final(self)@ == old(self)@ + wire_fixed(s@),
    {
        self.encode_fixed_opaque(&s.0);
    }

    pub fn encode_filehandle(&mut self, fh: &Nfs4FileHandle)
        ensures
            final(self)@ == old(self)@ + wire_opaque(fh@),
    {
        self.encode_opaque(fh.data.as_slice());
    }
}

// ---------------------------------------------------------------------------
// Laws
// ---------------------------------------------------------------------------

/// Appending is associative.
pub broadcast proof fn lemma_concat_assoc(a: Seq<u8>, b: Seq<u8>, c: Seq<u8>)
    ensures
        #[trigger] ((a + b) + c) == a + (b + c),
{
    assert((a + b) + c =~= a + (b + c));
}

/// A word read back is the word written, and reading stops right behind it.
pub broadcast proof fn u32_round_trip(v: u32, t: Seq<u8>)
    ensures
        #[trigger] parse_u32(octets::be32(v) + t) == (Ok::<u32, XdrError>(v), t),
{
    octets::lemma_u32_round_trip(v);
    let s = octets::be32(v) + t;
    assert(octets::u32_of(s) == octets::u32_of(octets::be32(v)));
    assert(s.skip(4) =~= t);
}

/// A double word read back is the one written, and reading stops right behind
/// it.
pub broadcast proof fn u64_round_trip(v: u64, t: Seq<u8>)
    ensures
        #[trigger] parse_u64(octets::be64(v) + t) == (Ok::<u64, XdrError>(v), t),
{
    octets::lemma_u64_round_trip(v);
    let w = octets::be64(v);
    let s = w + t;
    assert(octets::u32_of(s) == octets::u32_of(w));
    assert(octets::u32_of(s.skip(4)) == octets::u32_of(w.skip(4)));
    assert(s.skip(8) =~= t);
}

/// A boolean read back is the boolean written.
pub broadcast proof fn bool_round_trip(b: bool, t: Seq<u8>)
    ensures
        #[trigger] parse_bool(wire_bool(b) + t) == (Ok::<bool, XdrError>(b), t),
{
    broadcast use u32_round_trip;

}

/// Octets of known number read back are the octets written; the padding is
/// taken with them.
pub broadcast proof fn fixed_round_trip(d: Seq<u8>, n: nat, t: Seq<u8>)
    requires
        d.len() == n,
    ensures
        #[trigger] parse_fixed(wire_fixed(d) + t, n) == (Ok::<Seq<u8>, XdrError>(d), t),
{
    let s = wire_fixed(d) + t;
    assert(s.take(n as int) =~= d);
    assert(s.skip((n + pad_len(n)) as int) =~= t);
}

/// An opaque read back is the opaque written.
pub broadcast proof fn opaque_round_trip(d: Seq<u8>, t: Seq<u8>)
    requires
        d.len() <= u32::MAX,
    ensures
        #[trigger] parse_opaque(wire_opaque(d) + t) == (Ok::<Seq<u8>, XdrError>(d), t),
{
    broadcast use {u32_round_trip, fixed_round_trip, lemma_concat_assoc};

}

/// A string read back is the string written.
pub broadcast proof fn string_round_trip(c: Seq<char>, t: Seq<u8>)
    requires
        encode_utf8(c).len() <= u32::MAX,
    ensures
        #[trigger] parse_string(wire_string(c) + t) == (Ok::<Seq<char>, XdrError>(c), t),
{
    broadcast use {opaque_round_trip, encode_utf8_valid_utf8, encode_utf8_decode_utf8};

}

/// Words read back are the words written.
pub proof fn words_round_trip(w: Seq<u32>, t: Seq<u8>)
    ensures
        parse_words(wire_words(w) + t, w.len()) == (Ok::<Seq<u32>, XdrError>(w), t),
    decreases w.len(),
{
    broadcast use u32_round_trip;

    if w.len() == 0 {
        assert(wire_words(w) + t =~= t);
        assert(w =~= Seq::empty());
    } else {
        let first = w[0];
        let rest = w.skip(1);
        lemma_wire_words_front(w);
        words_round_trip(rest, t);
        lemma_concat_assoc(octets::be32(first), wire_words(rest), t);
        assert(w =~= seq![first] + rest);
    }
}

/// The first word comes first on the wire.
pub proof fn lemma_wire_words_front(w: Seq<u32>)
    requires
        w.len() > 0,
    ensures
        wire_words(w) == octets::be32(w[0]) + wire_words(w.skip(1)),
    decreases w.len(),
{
    if w.len() == 1 {
        assert(w.drop_last() =~= Seq::<u32>::empty());
        assert(w.skip(1) =~= Seq::<u32>::empty());
        reveal_with_fuel(wire_words, 2);
        assert(Seq::<u8>::empty() + octets::be32(w[0]) =~= octets::be32(w[0]) + Seq::<u8>::empty());
    } else {
        lemma_wire_words_front(w.drop_last());
        assert(w.skip(1).drop_last() =~= w.drop_last().skip(1));
        lemma_concat_assoc(
            octets::be32(w[0]),
            wire_words(w.skip(1).drop_last()),
            octets::be32(w.last()),
        );
    }
}

/// Words take four octets each.
pub proof fn lemma_wire_words_len(w: Seq<u32>)
    ensures
        wire_words(w).len() == 4 * w.len(),
    decreases w.len(),
{
    if w.len() > 0 {
        lemma_wire_words_len(w.drop_last());
    }
}

/// A bitmap read back is the bitmap written.
pub broadcast proof fn bitmap_round_trip(w: Seq<u32>, t: Seq<u8>)
    requires
        w.len() <= u32::MAX,
    ensures
        #[trigger] parse_bitmap(wire_bitmap(w) + t) == (Ok::<Seq<u32>, XdrError>(w), t),
{
    broadcast use {u32_round_trip, lemma_concat_assoc};

    lemma_wire_words_len(w);
    words_round_trip(w, t);
}

/// A stateid read back is the stateid written.
pub broadcast proof fn status_round_trip(v: Nfs4Status, t: Seq<u8>)
    ensures
        #[trigger] parse_status(wire_status(v) + t) == (Ok::<Nfs4Status, XdrError>(v), t),
{
    broadcast use u32_round_trip;

    status::status_codes_are_distinct(
        v,
        status::status_named(status::status_code(v))->0,
    );
}

pub broadcast proof fn stateid_round_trip(v: StateIdView, t: Seq<u8>)
    requires
        v.other.len() == 12,
    ensures
        #[trigger] parse_stateid(wire_stateid(v) + t) == (Ok::<StateIdView, XdrError>(v), t),
{
    broadcast use {u32_round_trip, fixed_round_trip, lemma_concat_assoc};

}

/// Law: an item is padded with zeros to a multiple of four octets, by three at most.
/// An opaque has its length before it. TRUE is the word 1 and FALSE the word 0. A
/// stateid is its sequence number and twelve octets.
pub proof fn items_are_laid_out_in_words(d: Seq<u8>, b: bool, stateid: StateIdView, i: int)
    requires
        stateid.other.len() == 12,
    ensures
        wire_fixed(d).len() % 4 == 0,
        d.len() <= wire_fixed(d).len() < d.len() + 4,
        wire_fixed(d).take(d.len() as int) == d,
        d.len() <= i < wire_fixed(d).len() ==> wire_fixed(d)[i] == 0,
        wire_opaque(d) == octets::be32(d.len() as u32) + wire_fixed(d),
        wire_bool(true) == octets::be32(1),
        wire_bool(false) == octets::be32(0),
        wire_stateid(stateid) == octets::be32(stateid.seqid) + stateid.other,
        wire_stateid(stateid).len() == 16,
{
    assert(wire_fixed(d).take(d.len() as int) =~= d);
    assert(wire_fixed(stateid.other) =~= stateid.other);
}

/// Law: an item that is cut short is refused, and reading stays where it was.
pub proof fn what_is_cut_short_is_refused(s: Seq<u8>, n: nat)
    ensures
        s.len() < 4 <==> parse_u32(s).0 is Err,
        s.len() < 8 <==> parse_u64(s).0 is Err,
        s.len() < n ==> parse_fixed(s, n).0 is Err,
        parse_u32(s).0 is Err ==> parse_u32(s) == (Err::<u32, XdrError>(XdrError::Truncated), s),
        parse_u64(s).0 is Err ==> parse_u64(s) == (Err::<u64, XdrError>(XdrError::Truncated), s),
{
}

/// Law: a list that claims more elements than the octets ahead could hold is refused.
pub proof fn a_count_beyond_the_octets_is_refused(n: u32, s: Seq<u8>, size: nat)
    ensures
        n * size > s.len() ==> parse_count(octets::be32(n) + s, size).0 == Err::<u32, XdrError>(
            XdrError::CountExceedsInput,
        ),
        n * size <= s.len() ==> parse_count(octets::be32(n) + s, size) == (
            Ok::<u32, XdrError>(n),
            s,
        ),
{
    u32_round_trip(n, s);
}

/// What stands behind an item has no say in how the item reads: octets put
/// behind the end are still ahead when the item has been read.
pub broadcast proof fn u32_stable(s: Seq<u8>, t: Seq<u8>)
    requires
        parse_u32(s).0 is Ok,
    ensures
        #[trigger] parse_u32(s + t) == (parse_u32(s).0, parse_u32(s).1 + t),
{
    assert((s + t).skip(4) =~= s.skip(4) + t);
}

pub broadcast proof fn u64_stable(s: Seq<u8>, t: Seq<u8>)
    requires
        parse_u64(s).0 is Ok,
    ensures
        #[trigger] parse_u64(s + t) == (parse_u64(s).0, parse_u64(s).1 + t),
{
    assert((s + t).skip(8) =~= s.skip(8) + t);
    assert(octets::u32_of((s + t).skip(4)) == octets::u32_of(s.skip(4)));
}

pub broadcast proof fn bool_stable(s: Seq<u8>, t: Seq<u8>)
    requires
        parse_bool(s).0 is Ok,
    ensures
        #[trigger] parse_bool(s + t) == (parse_bool(s).0, parse_bool(s).1 + t),
{
    broadcast use u32_stable;

}

pub broadcast proof fn fixed_stable(s: Seq<u8>, t: Seq<u8>, n: nat)
    requires
        parse_fixed(s, n).0 is Ok,
    ensures
        #[trigger] parse_fixed(s + t, n) == (parse_fixed(s, n).0, parse_fixed(s, n).1 + t),
{
    assert((s + t).take(n as int) =~= s.take(n as int));
    assert((s + t).skip((n + pad_len(n)) as int) =~= s.skip((n + pad_len(n)) as int) + t);
}

pub broadcast proof fn opaque_stable(s: Seq<u8>, t: Seq<u8>)
    requires
        parse_opaque(s).0 is Ok,
    ensures
        #[trigger] parse_opaque(s + t) == (parse_opaque(s).0, parse_opaque(s).1 + t),
{
    broadcast use {u32_stable, fixed_stable};

}

pub broadcast proof fn string_stable(s: Seq<u8>, t: Seq<u8>)
    requires
        parse_string(s).0 is Ok,
    ensures
        #[trigger] parse_string(s + t) == (parse_string(s).0, parse_string(s).1 + t),
{
    broadcast use opaque_stable;

}

pub broadcast proof fn words_stable(s: Seq<u8>, t: Seq<u8>, n: nat)
    requires
        parse_words(s, n).0 is Ok,
    ensures
        #[trigger] parse_words(s + t, n) == (parse_words(s, n).0, parse_words(s, n).1 + t),
    decreases n,
{
    broadcast use u32_stable;

    if n > 0 {
        words_stable(parse_u32(s).1, t, (n - 1) as nat);
    }
}

pub broadcast proof fn count_stable(s: Seq<u8>, t: Seq<u8>, size: nat)
    requires
        parse_count(s, size).0 is Ok,
    ensures
        #[trigger] parse_count(s + t, size) == (parse_count(s, size).0, parse_count(s, size).1 + t),
{
    broadcast use u32_stable;

}

pub broadcast proof fn bitmap_stable(s: Seq<u8>, t: Seq<u8>)
    requires
        parse_bitmap(s).0 is Ok,
    ensures
        #[trigger] parse_bitmap(s + t) == (parse_bitmap(s).0, parse_bitmap(s).1 + t),
{
    broadcast use {count_stable, words_stable};

}

pub broadcast proof fn stateid_stable(s: Seq<u8>, t: Seq<u8>)
    requires
        parse_stateid(s).0 is Ok,
    ensures
        #[trigger] parse_stateid(s + t) == (parse_stateid(s).0, parse_stateid(s).1 + t),
{
    broadcast use {u32_stable, fixed_stable};

}

pub broadcast proof fn stateids_stable(s: Seq<u8>, t: Seq<u8>, n: nat)
    requires
        parse_stateids(s, n).0 is Ok,
    ensures
        #[trigger] parse_stateids(s + t, n) == (parse_stateids(s, n).0, parse_stateids(s, n).1 + t),
    decreases n,
{
    broadcast use stateid_stable;

    if n > 0 {
        stateids_stable(parse_stateid(s).1, t, (n - 1) as nat);
    }
}

/// Every reader of this module, read with octets behind its end.
pub broadcast group group_readers_stable {
    u32_stable,
    u64_stable,
    bool_stable,
    fixed_stable,
    opaque_stable,
    string_stable,
    words_stable,
    count_stable,
    bitmap_stable,
    stateid_stable,
    stateids_stable,
}

/// Every item of this module, read back.
pub broadcast group group_round_trips {
    u32_round_trip,
    u64_round_trip,
    bool_round_trip,
    fixed_round_trip,
    opaque_round_trip,
    string_round_trip,
    bitmap_round_trip,
    status_round_trip,
    stateid_round_trip,
}

/// Law: a truth value is one word: 0 for false and anything else for true. False goes
/// out as 0 and true as 1.
pub proof fn a_truth_value_is_a_word(w: u32, t: Seq<u8>)
    ensures
        parse_bool(octets::be32(w) + t) == (Ok::<bool, XdrError>(w != 0), t),
        wire_bool(true) == octets::be32(1),
        wire_bool(false) == octets::be32(0),
{
    u32_round_trip(w, t);
}

} // verus!
