//! What holds of every reply.
use crate::compound::response;
use crate::compound::response::{CompoundResponse, Cut};
use crate::compound::results;
use crate::compound::results::{Delegation, OperationResult, WhyNoDelegation};
use crate::compound::wire;
use crate::protocol::Nfs4Status;
use crate::sec_policy;
use crate::sec_policy::{SecLevel, SecOffer, SecPolicy};
use crate::xdr;
use vstd::prelude::*;
use vstd::utf8::*;

verus! {

/// Law: SECINFO lists a level exactly when a call at that level would be served:
/// the floor accepts it, and the keys that it needs are there. It lists none
/// twice.
pub proof fn secinfo_lists_what_the_server_can_honour(
    gss: bool,
    policy: SecPolicy,
    level: SecLevel,
)
    ensures
        wire::secinfo_levels(gss, policy).contains(level) <==> wire::offerable(gss, policy, level),
        wire::secinfo_levels(gss, policy).no_duplicates(),
{
    let levels = wire::secinfo_levels(gss, policy);
    let sys = wire::listed(wire::offerable(gss, policy, SecLevel::Sys), SecLevel::Sys);
    let p = wire::listed(wire::offerable(gss, policy, SecLevel::Krb5p), SecLevel::Krb5p);
    let i = wire::listed(wire::offerable(gss, policy, SecLevel::Krb5i), SecLevel::Krb5i);
    let k = wire::listed(wire::offerable(gss, policy, SecLevel::Krb5), SecLevel::Krb5);
    if wire::offerable(gss, policy, level) {
        match level {
            SecLevel::Sys => {
                assert(levels[0] == level);
            },
            SecLevel::Krb5p => {
                assert(levels[sys.len() as int] == level);
            },
            SecLevel::Krb5i => {
                assert(levels[(sys + p).len() as int] == level);
            },
            SecLevel::Krb5 => {
                assert(levels[(sys + p + i).len() as int] == level);
            },
            SecLevel::AuthNone => {
                assert(levels[(sys + p + i + k).len() as int] == level);
            },
        }
    }
}

/// Law: among the Kerberos services that SECINFO lists the stronger come first,
/// and AUTH_NONE comes after everything else.
pub proof fn secinfo_prefers_the_stronger(gss: bool, policy: SecPolicy, i: int, j: int)
    requires
        0 <= i < j < wire::secinfo_levels(gss, policy).len(),
    ensures
        ({
            let levels = wire::secinfo_levels(gss, policy);
            &&& wire::needs_keys(levels[i]) && wire::needs_keys(levels[j]) ==> sec_policy::strength(
                levels[j],
            ) < sec_policy::strength(levels[i])
            &&& levels[i] != SecLevel::AuthNone
        }),
{
}

/// Law: of the reasons for granting no delegation, those for contention and for
/// want of a resource take three words, and every other two. A word too many
/// would shift whatever follows in the reply.
pub proof fn a_reason_takes_its_words_and_no_more(why: WhyNoDelegation)
    ensures
        wire::wire_delegation(Some(Delegation::NoneExt { why })).len() == (if why is Contention
            || why is Resource {
            12nat
        } else {
            8nat
        }),
{
}

/// Law: every result opens with the number of the operation that it answers and
/// its status, so that the client can tell where it is in the reply.
pub proof fn a_result_opens_with_its_operation_and_status(
    r: OperationResult,
    offer: SecOffer,
    t: Seq<u8>,
)
    ensures
        xdr::parse_u32(wire::wire_result(r, offer) + t) == (
            Ok::<u32, xdr::XdrError>(wire::result_opcode(r)),
            xdr::wire_status(wire::result_status(r)) + (wire::result_body(r, offer) + t),
        ),
        xdr::parse_status(
            xdr::wire_status(wire::result_status(r)) + (wire::result_body(r, offer) + t),
        ) == (
            Ok::<Nfs4Status, xdr::XdrError>(wire::result_status(r)),
            wire::result_body(r, offer) + t,
        ),
{
    broadcast use {xdr::u32_round_trip, xdr::status_round_trip, xdr::lemma_concat_assoc};

}

/// Law: the length of the reply to SEQUENCE, PUTFH and READ with an empty tag is
/// eighty octets more than the padded payload. A response limit of the largest
/// payload and eighty octets therefore never cuts a full READ short.
pub proof fn a_read_reply_has_a_fixed_overhead(r: CompoundResponse)
    requires
        r.raw_reply is None,
        r.tag@.len() == 0,
        r.results@.len() == 3,
        r.results@[0] matches OperationResult::Sequence(Nfs4Status::NfsOk, Some(_)),
        r.results@[1] matches OperationResult::PutFh(Nfs4Status::NfsOk),
        r.results@[2] matches OperationResult::Read(Nfs4Status::NfsOk, Some(_)),
    ensures
        r.results@[2] matches OperationResult::Read(_, Some(res)) ==> response::wire_response(
            r,
        ).len() == 80 + res.data@.len() + xdr::pad_len(res.data@.len()),
{
    reveal_with_fuel(wire::wire_results, 4);
    let rs = r.results@;
    assert(rs.drop_last().last() == rs[1]);
    assert(rs.drop_last().drop_last().last() == rs[0]);
    assert(rs.drop_last().drop_last().drop_last() =~= Seq::empty());
    assert(r.tag@ =~= Seq::<char>::empty());
    assert(encode_utf8(r.tag@) =~= Seq::empty()) by {
        reveal_with_fuel(encode_utf8, 1);
    }
    assert(xdr::wire_string(r.tag@).len() == 4);
    assert(response::wire_envelope(r.status, r.tag@, 3).len() == 12);
    if let OperationResult::Sequence(_, Some(res)) = rs[0] {
        assert(res.sessionid@.len() == 16);
        assert(wire::wire_result(rs[0], r.sec).len() == 44);
    }
    assert(wire::wire_result(rs[1], r.sec).len() == 8);
}

proof fn lemma_cut_keeps(c: Cut, rs: Seq<OperationResult>, offer: SecOffer, i: int)
    requires
        0 <= i < rs.len(),
        response::is_segmented(rs[i]),
    ensures
        rs[i] matches OperationResult::Read(_, Some(res)) ==> response::cut_results(
            c,
            rs,
            offer,
        ).done.contains(res.data@),
    decreases rs.len(),
{
    let before = response::cut_results(c, rs.drop_last(), offer);
    let after = response::cut_results(c, rs, offer);
    if let OperationResult::Read(_, Some(res)) = rs[i] {
        if i == rs.len() - 1 {
            assert(after.done.last() == res.data@);
        } else {
            lemma_cut_keeps(c, rs.drop_last(), offer, i);
            let k = choose|k: int| 0 <= k < before.done.len() && before.done[k] == res.data@;
            assert(after.done[k] == before.done[k]);
        }
    }
}

/// The payload of a READ is among the segments of a reply with these parts.
pub proof fn lemma_payload_is_kept(
    status: Nfs4Status,
    tag: Seq<char>,
    rs: Seq<OperationResult>,
    sec: SecOffer,
    i: int,
)
    requires
        0 <= i < rs.len(),
        response::is_segmented(rs[i]),
    ensures
        rs[i] matches OperationResult::Read(_, Some(res)) ==> response::reply_segments(
            status,
            tag,
            rs,
            sec,
        ).contains(res.data@),
{
    let start = Cut { done: Seq::empty(), open: response::wire_envelope(status, tag, rs.len()) };
    let c = response::cut_results(start, rs, sec);
    lemma_cut_keeps(start, rs, sec, i);
    if let OperationResult::Read(_, Some(res)) = rs[i] {
        let k = choose|k: int| 0 <= k < c.done.len() && c.done[k] == res.data@;
        assert(response::reply_segments(status, tag, rs, sec)[k] == res.data@);
    }
}

/// Law: the payload of a READ travels as a segment of its own, so that it is
/// never copied into the reply.
pub proof fn a_payload_is_a_segment_of_its_own(r: CompoundResponse, i: int)
    requires
        r.raw_reply is None,
        0 <= i < r.results@.len(),
        response::is_segmented(r.results@[i]),
    ensures
        r.results@[i] matches OperationResult::Read(_, Some(res)) ==> response::segmentation(
            r,
        ).contains(res.data@),
{
    lemma_payload_is_kept(r.status, r.tag@, r.results@, r.sec, i);
}

proof fn lemma_no_cut(c: Cut, rs: Seq<OperationResult>, offer: SecOffer)
    requires
        forall|i: int| 0 <= i < rs.len() ==> !response::is_segmented(#[trigger] rs[i]),
    ensures
        response::cut_results(c, rs, offer).done == c.done,
        response::cut_results(c, rs, offer).open.len() >= c.open.len(),
    decreases rs.len(),
{
    if rs.len() > 0 {
        let front = rs.drop_last();
        assert forall|i: int| 0 <= i < front.len() implies !response::is_segmented(
            #[trigger] front[i],
        ) by {
            assert(front[i] == rs[i]);
        }
        lemma_no_cut(c, front, offer);
        assert(!response::is_segmented(rs[rs.len() - 1]));
    }
}

/// Law: a reply without a payload is one segment.
pub proof fn a_reply_without_payload_is_one_segment(r: CompoundResponse)
    requires
        r.raw_reply is None,
        forall|i: int|
            0 <= i < r.results@.len() ==> !response::is_segmented(#[trigger] r.results@[i]),
    ensures
        response::segmentation(r) == seq![response::wire_response(r)],
{
    let start = Cut {
        done: Seq::empty(),
        open: response::wire_envelope(r.status, r.tag@, r.results@.len()),
    };
    lemma_no_cut(start, r.results@, r.sec);
    response::the_segments_are_the_reply(r);
    let s = response::segmentation(r);
    assert(s.len() == 1);
    reveal_with_fuel(response::flat, 2);
    assert(response::flat(s) =~= s[0]);
    assert(s =~= seq![response::wire_response(r)]);
}

} // verus!
