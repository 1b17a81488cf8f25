//! The COMPOUND reply as a whole.
use vstd::prelude::*;

use bytes::Bytes;

use crate::compound::encode::encode_result;
use crate::compound::results::OperationResult;
use crate::compound::wire;
use crate::octets;
use crate::octets::bytes_as_slice;
use crate::protocol::opcode;
use crate::protocol::{Nfs4Status, SessionId};
use crate::sec_policy::{SecLevel, SecOffer};
use crate::segment;
use crate::segment::Segment;
use crate::xdr;
use crate::xdr::XdrEncoder;

verus! {

/// A COMPOUND reply.
#[derive(Debug)]
pub struct CompoundResponse {
    pub status: Nfs4Status,
    pub tag: String,
    pub results: Vec<OperationResult>,
    /// A reply that is already encoded. When it is there it is the reply, octet
    /// for octet, and `status`, `tag` and `results` are not looked at.
    pub raw_reply: Option<Vec<Segment>>,
    /// The session slot that the encoded reply is to be kept for.
    pub cache_slot: Option<(SessionId, u32)>,
    /// What a SECINFO among the results is answered from.
    pub sec: SecOffer,
}

/// What stands before the results.
pub open spec fn wire_envelope(status: Nfs4Status, tag: Seq<char>, count: nat) -> Seq<u8> {
    xdr::wire_status(status) + xdr::wire_string(tag) + octets::be32(count as u32)
}

/// The reply on the wire.
pub open spec fn wire_response(r: CompoundResponse) -> Seq<u8> {
    match r.raw_reply {
        Some(raw) => segment::joined(raw@),
        None => wire_envelope(r.status, r.tag@, r.results@.len()) + wire::wire_results(
            r.results@,
            r.sec,
        ),
    }
}

/// A result whose payload travels as a segment of its own: a successful READ
/// that returned octets.
pub open spec fn is_segmented(r: OperationResult) -> bool {
    r matches OperationResult::Read(Nfs4Status::NfsOk, Some(res)) && res.data@.len() > 0
}

/// What stands before the payload of a segmented READ.
pub open spec fn read_head(eof: bool, n: nat) -> Seq<u8> {
    octets::be32(opcode::READ) + xdr::wire_status(Nfs4Status::NfsOk) + xdr::wire_bool(eof)
        + octets::be32(n as u32)
}

/// A reply in the making: the segments that are complete, and the octets that
/// will start the next one.
pub struct Cut {
    pub done: Seq<Seq<u8>>,
    pub open: Seq<u8>,
}

/// `c` with one more result.
pub open spec fn cut_result(c: Cut, r: OperationResult, offer: SecOffer) -> Cut {
    match r {
        OperationResult::Read(Nfs4Status::NfsOk, Some(res)) => if res.data@.len() > 0 {
            Cut {
                done: c.done.push(c.open + read_head(res.eof, res.data@.len())).push(res.data@),
                open: xdr::zeros(xdr::pad_len(res.data@.len())),
            }
        } else {
            Cut { done: c.done, open: c.open + wire::wire_result(r, offer) }
        },
        _ => Cut { done: c.done, open: c.open + wire::wire_result(r, offer) },
    }
}

/// A reply cut into segments after `rs`.
pub open spec fn cut_results(c: Cut, rs: Seq<OperationResult>, offer: SecOffer) -> Cut
    decreases rs.len(),
{
    if rs.len() == 0 {
        c
    } else {
        cut_result(cut_results(c, rs.drop_last(), offer), rs.last(), offer)
    }
}

/// The segments of a complete cut: no empty one at the end.
pub open spec fn closed_cut(c: Cut) -> Seq<Seq<u8>> {
    if c.open.len() > 0 {
        c.done.push(c.open)
    } else {
        c.done
    }
}

/// The segments of a reply with these parts.
pub open spec fn reply_segments(
    status: Nfs4Status,
    tag: Seq<char>,
    results: Seq<OperationResult>,
    sec: SecOffer,
) -> Seq<Seq<u8>> {
    closed_cut(
        cut_results(
            Cut { done: Seq::empty(), open: wire_envelope(status, tag, results.len()) },
            results,
            sec,
        ),
    )
}

/// The segments that a reply is made of.
pub open spec fn segmentation(r: CompoundResponse) -> Seq<Seq<u8>> {
    match r.raw_reply {
        Some(raw) => xdr::views(raw@),
        None => reply_segments(r.status, r.tag@, r.results@, r.sec),
    }
}

/// The octets of a list of pieces, in order.
pub open spec fn flat(pieces: Seq<Seq<u8>>) -> Seq<u8>
    decreases pieces.len(),
{
    if pieces.len() == 0 {
        Seq::empty()
    } else {
        flat(pieces.drop_last()) + pieces.last()
    }
}

fn encode_envelope(e: &mut XdrEncoder, status: Nfs4Status, tag: &str, count: usize)
    ensures
        final(e)@ == old(e)@ + wire_envelope(status, tag@, count as nat),
{
    broadcast use xdr::lemma_concat_assoc;

    e.encode_status(status);
    e.encode_string(tag);
    e.encode_u32(count as u32);
}

/// Encodes a reply from its parts.
fn encode_reply(
    status: Nfs4Status,
    tag: &str,
    results: &Vec<OperationResult>,
    sec: &SecOffer,
) -> (b: Bytes)
    ensures
        octets::bytes_of(b) == wire_envelope(status, tag@, results@.len()) + wire::wire_results(
            results@,
            *sec,
        ),
{
    let mut e = XdrEncoder::new();
    encode_envelope(&mut e, status, tag, results.len());
    let ghost start = e@;
    assert(start =~= wire_envelope(status, tag@, results@.len()));
    assert(start =~= start + wire::wire_results(results@.take(0), *sec));
    let mut i: usize = 0;
    while i < results.len()
        invariant
            i <= results@.len(),
            e@ == start + wire::wire_results(results@.take(i as int), *sec),
        decreases results@.len() - i,
    {
        broadcast use xdr::lemma_concat_assoc;

        encode_result(&mut e, &results[i], sec);
        assert(results@.take(i + 1).drop_last() =~= results@.take(i as int));
        i += 1;
    }
    assert(results@.take(i as int) =~= results@);
    e.finish()
}

/// `total` with `n` more, while that stays within `max`.
fn within(total: usize, n: usize, max: usize) -> (r: Option<usize>)
    requires
        total <= max,
    ensures
        r == (if total + n <= max {
            Some((total + n) as usize)
        } else {
            None
        }),
{
    if n > max - total {
        None
    } else {
        Some(total + n)
    }
}

/// `total` with the octets of one result more, while that stays within `max`. The
/// payload of a READ is counted, not encoded.
fn within_result(total: usize, r: &OperationResult, sec: &SecOffer, max: usize) -> (t: Option<
    usize,
>)
    requires
        total <= max,
    ensures
        t == (if total + wire::wire_result(*r, *sec).len() <= max {
            Some((total + wire::wire_result(*r, *sec).len()) as usize)
        } else {
            None
        }),
{
    if let OperationResult::Read(Nfs4Status::NfsOk, Some(res)) = r {
        let n: usize = res.data.len();
        let pad: usize = (4 - n % 4) % 4;
        proof {
            lemma_read_len(*r, *sec);
        }
        return match within(total, n, max) {
            Some(t) => within(t, 16 + pad, max),
            None => None,
        };
    }
    let mut e = XdrEncoder::new();
    encode_result(&mut e, r, sec);
    let b = e.finish();
    let n: usize = bytes_as_slice(&b).len();
    assert(octets::bytes_of(b) =~= wire::wire_result(*r, *sec));
    within(total, n, max)
}

/// Whether a reply takes more than `max` octets. No payload is copied to find
/// out.
pub(crate) fn reply_exceeds(
    status: Nfs4Status,
    tag: &str,
    results: &Vec<OperationResult>,
    sec: &SecOffer,
    max: usize,
) -> (b: bool)
    ensures
        b == ((wire_envelope(status, tag@, results@.len()) + wire::wire_results(
            results@,
            *sec,
        )).len() > max),
{
    let mut e = XdrEncoder::new();
    encode_envelope(&mut e, status, tag, results.len());
    let head = e.finish();
    let ghost start = wire_envelope(status, tag@, results@.len());
    assert(octets::bytes_of(head) =~= start);
    let mut total: usize = bytes_as_slice(&head).len();
    if total > max {
        return true;
    }
    assert(wire::wire_results(results@.take(0), *sec).len() == 0);
    let mut i: usize = 0;
    while i < results.len()
        invariant
            i <= results@.len(),
            total <= max,
            total == start.len() + wire::wire_results(results@.take(i as int), *sec).len(),
            start == wire_envelope(status, tag@, results@.len()),
        decreases results@.len() - i,
    {
        proof {
            assert(results@.take(i + 1).drop_last() =~= results@.take(i as int));
            assert(results@.take(i + 1).last() == results@[i as int]);
        }
        match within_result(total, &results[i], sec, max) {
            Some(t) => {
                total = t;
            },
            None => {
                proof {
                    lemma_results_grow(results@, i + 1, *sec);
                }
                return true;
            },
        }
        i += 1;
    }
    assert(results@.take(i as int) =~= results@);
    false
}

impl CompoundResponse {
    /// An empty, successful reply.
    pub fn new() -> (r: CompoundResponse)
        ensures
            r.status == Nfs4Status::NfsOk,
            r.tag@ == Seq::<char>::empty(),
            r.results@ == Seq::<OperationResult>::empty(),
            r.raw_reply is None,
            r.cache_slot is None,
            !r.sec.gss,
            r.sec.policy.floor == SecLevel::AuthNone,
    {
        CompoundResponse {
            status: Nfs4Status::NfsOk,
            tag: String::new(),
            results: Vec::new(),
            raw_reply: None,
            cache_slot: None,
            sec: SecOffer::default(),
        }
    }

    /// Encodes the reply as contiguous octets.
    pub fn encode(self) -> (b: Bytes)
        ensures
            octets::bytes_of(b) == wire_response(self),
    {
        broadcast use xdr::lemma_concat_assoc;

        let mut e = XdrEncoder::new();
        match self.raw_reply {
            Some(raw) => {
                assert(e@ =~= segment::joined(raw@.take(0)));
                let mut i: usize = 0;
                while i < raw.len()
                    invariant
                        i <= raw@.len(),
                        e@ == segment::joined(raw@.take(i as int)),
                    decreases raw@.len() - i,
                {
                    e.append_raw(raw[i].as_mem());
                    assert(raw@.take(i + 1).drop_last() =~= raw@.take(i as int));
                    i += 1;
                }
                assert(raw@.take(i as int) =~= raw@);
                e.finish()
            },
            None => encode_reply(self.status, self.tag.as_str(), &self.results, &self.sec),
        }
    }

    /// Encodes the reply as an ordered list of segments. The octets are those of
    /// [`CompoundResponse::encode`]; each READ payload is a segment of its own,
    /// handed on as it came.
    pub fn encode_segments(self) -> (segs: Vec<Segment>)
        ensures
            xdr::views(segs@) == segmentation(self),
            segment::joined(segs@) == wire_response(self),
    {
        let ghost whole = self;
        proof {
            the_segments_are_the_reply(whole);
        }
        match self.raw_reply {
            Some(raw) => raw,
            None => {
                let sec = self.sec;
                let results = self.results;
                let mut e = XdrEncoder::new();
                encode_envelope(&mut e, self.status, self.tag.as_str(), results.len());
                let ghost start = Cut {
                    done: Seq::empty(),
                    open: wire_envelope(whole.status, whole.tag@, whole.results@.len()),
                };
                assert(e@ =~= start.open);
                let mut segs: Vec<Segment> = Vec::new();
                assert(xdr::views(segs@) =~= start.done);
                assert(whole.results@.take(0) =~= Seq::<OperationResult>::empty());
                for result in it: results
                    invariant
                        it.seq() == whole.results@,
                        sec == whole.sec,
                        (Cut { done: xdr::views(segs@), open: e@ }) == cut_results(
                            start,
                            whole.results@.take(it.index() as int),
                            sec,
                        ),
                {
                    let ghost i = it.index() as int;
                    let ghost before = Cut { done: xdr::views(segs@), open: e@ };
                    assert(whole.results@.take(i + 1).drop_last() =~= whole.results@.take(i));
                    assert(whole.results@.take(i + 1).last() == result);
                    push_result(&mut segs, &mut e, result, &sec);
                }
                assert(whole.results@.take(whole.results@.len() as int) =~= whole.results@);
                let tail = e.finish();
                let tail = Segment::new(tail);
                if !tail.is_empty() {
                    let ghost done = xdr::views(segs@);
                    segs.push(tail);
                    assert(xdr::views(segs@) =~= done.push(tail@));
                }
                proof {
                    lemma_flat_of_views(segs@);
                }
                segs
            },
        }
    }
}

/// Adds one result to a reply in the making.
fn push_result(segs: &mut Vec<Segment>, e: &mut XdrEncoder, r: OperationResult, offer: &SecOffer)
    ensures
        (Cut { done: xdr::views(final(segs)@), open: final(e)@ }) == cut_result(
            Cut { done: xdr::views(old(segs)@), open: old(e)@ },
            r,
            *offer,
        ),
{
    broadcast use xdr::lemma_concat_assoc;

    match r {
        OperationResult::Read(Nfs4Status::NfsOk, Some(res)) => {
            if res.data.is_empty() {
                let r = OperationResult::Read(Nfs4Status::NfsOk, Some(res));
                encode_result(e, &r, offer);
            } else {
                let ghost done = xdr::views(segs@);
                e.encode_u32(opcode::READ);
                e.encode_status(Nfs4Status::NfsOk);
                e.encode_bool(res.eof);
                let n: usize = res.data.len();
                e.encode_u32(n as u32);
                let mut next = XdrEncoder::new();
                next.encode_padding((4 - n % 4) % 4);
                assert(next@ =~= xdr::zeros(xdr::pad_len(n as nat)));
                let head = Segment::new(take_encoder(e, next).finish());
                segs.push(head);
                segs.push(res.data);
                assert(xdr::views(segs@) =~= done.push(head@).push(res.data@));
            }
        },
        _ => encode_result(e, &r, offer),
    }
}

/// Puts `next` in the place of `e`, and gives what was there.
fn take_encoder(e: &mut XdrEncoder, next: XdrEncoder) -> (r: XdrEncoder)
    ensures
        r@ == old(e)@,
        final(e)@ == next@,
{
    let mut other = next;
    std::mem::swap(e, &mut other);
    other
}

// ---------------------------------------------------------------------------
// Laws
// ---------------------------------------------------------------------------

proof fn lemma_read_len(r: OperationResult, offer: SecOffer)
    ensures
        r matches OperationResult::Read(Nfs4Status::NfsOk, Some(res)) ==> wire::wire_result(
            r,
            offer,
        ).len() == 16 + res.data@.len() + xdr::pad_len(res.data@.len()),
{
}

proof fn lemma_results_grow(rs: Seq<OperationResult>, n: int, offer: SecOffer)
    requires
        0 <= n <= rs.len(),
    ensures
        wire::wire_results(rs.take(n), offer).len() <= wire::wire_results(rs, offer).len(),
    decreases rs.len() - n,
{
    if n < rs.len() {
        lemma_results_grow(rs, n + 1, offer);
        assert(rs.take(n + 1).drop_last() =~= rs.take(n));
    } else {
        assert(rs.take(n) =~= rs);
    }
}

proof fn lemma_flat_push(p: Seq<Seq<u8>>, x: Seq<u8>)
    ensures
        flat(p.push(x)) == flat(p) + x,
{
    assert(p.push(x).drop_last() =~= p);
}

proof fn lemma_flat_of_views(segs: Seq<Segment>)
    ensures
        flat(xdr::views(segs)) == segment::joined(segs),
    decreases segs.len(),
{
    if segs.len() > 0 {
        lemma_flat_of_views(segs.drop_last());
        assert(xdr::views(segs).drop_last() =~= xdr::views(segs.drop_last()));
    }
}

proof fn lemma_cut_result(c: Cut, r: OperationResult, offer: SecOffer)
    ensures
        flat(cut_result(c, r, offer).done) + cut_result(c, r, offer).open == flat(c.done) + c.open
            + wire::wire_result(r, offer),
{
    broadcast use xdr::lemma_concat_assoc;

    if let OperationResult::Read(Nfs4Status::NfsOk, Some(res)) = r {
        if res.data@.len() > 0 {
            let head = c.open + read_head(res.eof, res.data@.len());
            lemma_flat_push(c.done, head);
            lemma_flat_push(c.done.push(head), res.data@);
        }
    }
}

proof fn lemma_cut_results(c: Cut, rs: Seq<OperationResult>, offer: SecOffer)
    ensures
        flat(cut_results(c, rs, offer).done) + cut_results(c, rs, offer).open == flat(c.done)
            + c.open + wire::wire_results(rs, offer),
    decreases rs.len(),
{
    broadcast use xdr::lemma_concat_assoc;

    if rs.len() == 0 {
        assert(flat(c.done) + c.open + wire::wire_results(rs, offer) =~= flat(c.done) + c.open);
    } else {
        lemma_cut_results(c, rs.drop_last(), offer);
        lemma_cut_result(cut_results(c, rs.drop_last(), offer), rs.last(), offer);
    }
}

/// Cutting a reply into segments changes nothing on the wire: the segments, put
/// one behind the other, are the reply.
pub proof fn the_segments_are_the_reply(r: CompoundResponse)
    ensures
        flat(segmentation(r)) == wire_response(r),
{
    match r.raw_reply {
        Some(raw) => {
            lemma_flat_of_views(raw@);
        },
        None => {
            let start = Cut {
                done: Seq::empty(),
                open: wire_envelope(r.status, r.tag@, r.results@.len()),
            };
            let c = cut_results(start, r.results@, r.sec);
            lemma_cut_results(start, r.results@, r.sec);
            assert(flat(start.done) + start.open =~= start.open);
            if c.open.len() > 0 {
                lemma_flat_push(c.done, c.open);
            } else {
                assert(flat(c.done) + c.open =~= flat(c.done));
            }
        },
    }
}

} // verus!
