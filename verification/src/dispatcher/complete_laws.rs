//! What a handler answered reaches the client, and what it did reaches the server.
//!
//! `c` is what completing the answer `h` gives, on a server that is a metadata server
//! where `pnfs` says so and that has the write verifier `verifier`.
use crate::compound::context::{CompoundContext, ContextView};
use crate::compound::results::OperationResult;
use crate::compound::types::Fattr4View;
use crate::compound::wire;
use crate::dispatcher::attrs;
use crate::dispatcher::complete;
use crate::dispatcher::complete::{
    completes, context_completed, Completion, Effect, HandlerReply, ProxyWriteOutcome,
    WriteVerifier,
};
use crate::octets;
use crate::protocol::Nfs4Status;
use crate::xdr;
use crate::xdr::XdrError;
use vstd::prelude::*;

verus! {

/// Law: the status that a handler gave is the status of the result.
pub proof fn the_status_of_a_handler_reaches_the_client(
    h: HandlerReply,
    pnfs: bool,
    verifier: u64,
    c: Completion,
)
    requires
        completes(h, pnfs, verifier, c),
    ensures
        h matches HandlerReply::ExchangeId { status, .. } ==> c.result is ExchangeId
            && wire::status_of(c.result) == status,
        h matches HandlerReply::CreateSession { status, .. } ==> c.result is CreateSession
            && wire::status_of(c.result) == status,
        h matches HandlerReply::Sequence { status, .. } ==> c.result is Sequence && wire::status_of(
            c.result,
        ) == status,
        h matches HandlerReply::DestroySession { status, .. } ==> c.result
            == OperationResult::DestroySession(status),
        h is RemoveClient ==> c.result == OperationResult::DestroyClientId(Nfs4Status::NfsOk),
        h matches HandlerReply::PutRootFh(status) ==> c.result == OperationResult::PutRootFh(status),
        h matches HandlerReply::PutFh(status) ==> c.result == OperationResult::PutFh(status),
        h matches HandlerReply::PutPubFh(status) ==> c.result == OperationResult::PutPubFh(status),
        h matches HandlerReply::SaveFh(status) ==> c.result == OperationResult::SaveFh(status),
        h matches HandlerReply::RestoreFh(status) ==> c.result == OperationResult::RestoreFh(status),
        h matches HandlerReply::Lookup(status) ==> c.result == OperationResult::Lookup(status),
        h matches HandlerReply::LookupP(status) ==> c.result == OperationResult::Lookup(status),
        h matches HandlerReply::GetAttr { status, .. } ==> c.result is GetAttr && wire::status_of(
            c.result,
        ) == status,
        h matches HandlerReply::SetAttr { status, .. } ==> c.result is SetAttr && wire::status_of(
            c.result,
        ) == status,
        h matches HandlerReply::ReadDir { status, .. } ==> c.result is ReadDir && wire::status_of(
            c.result,
        ) == status,
        h matches HandlerReply::Open { status, .. } ==> c.result is Open && wire::status_of(
            c.result,
        ) == status,
        h matches HandlerReply::Close { status, .. } ==> c.result is Close && wire::status_of(
            c.result,
        ) == status,
        h matches HandlerReply::Read { status, .. } ==> c.result is Read && wire::status_of(
            c.result,
        ) == status,
        h matches HandlerReply::Write { status, .. } ==> c.result is Write && wire::status_of(
            c.result,
        ) == status,
        h matches HandlerReply::Commit { status, .. } ==> c.result is Commit && wire::status_of(
            c.result,
        ) == status,
        h matches HandlerReply::Copy { status, .. } ==> c.result is Copy && wire::status_of(
            c.result,
        ) == status,
        h matches HandlerReply::Clone(status) ==> c.result == OperationResult::Clone(status),
        h matches HandlerReply::Allocate(status) ==> c.result == OperationResult::Allocate(status),
        h matches HandlerReply::Deallocate(status) ==> c.result == OperationResult::Deallocate(
            status,
        ),
        h matches HandlerReply::Seek { status, .. } ==> c.result is Seek && wire::status_of(
            c.result,
        ) == status,
        h matches HandlerReply::ReadPlus { status, .. } ==> c.result is ReadPlus && wire::status_of(
            c.result,
        ) == status,
        h matches HandlerReply::Create { status, .. } ==> c.result is Create && wire::status_of(
            c.result,
        ) == status,
        h matches HandlerReply::Remove { status, .. } ==> c.result is Remove && wire::status_of(
            c.result,
        ) == status,
        h matches HandlerReply::Rename { status, .. } ==> c.result is Rename && wire::status_of(
            c.result,
        ) == status,
        h matches HandlerReply::Link { status, .. } ==> c.result is Link && wire::status_of(
            c.result,
        ) == status,
{
}

/// Law: what was read is what the client gets, from here as from the data servers. Data
/// servers that could not be read are to be tried again.
pub proof fn what_was_read_reaches_the_client(
    h: HandlerReply,
    pnfs: bool,
    verifier: u64,
    c: Completion,
)
    requires
        completes(h, pnfs, verifier, c),
    ensures
        h matches HandlerReply::Read { status, result } ==> (status is NfsOk ==> (
        c.result matches OperationResult::Read(_, Some(r)) && r.eof == result.eof && r.data@
            == result.data@)),
        h matches HandlerReply::ProxyRead(Some(result)) ==> (c.result matches OperationResult::Read(
            Nfs4Status::NfsOk,
            Some(r),
        ) && r.eof == result.eof && r.data@ == result.data@),
        h == HandlerReply::ProxyRead(None) ==> c.result == OperationResult::Read(
            Nfs4Status::Delay,
            None,
        ),
        h matches HandlerReply::ReadPlus { status, result } ==> (status is NfsOk ==> (
        c.result matches OperationResult::ReadPlus(_, Some(r)) && r.eof == result.eof
            && r.segments@ == result.segments@)),
        h matches HandlerReply::ReadDir { status, result } ==> (status is NfsOk ==> (
        c.result matches OperationResult::ReadDir(_, Some(r)) && r.entries@ == result.entries@
            && r.eof == result.eof && r.cookieverf == result.cookieverf)),
        h matches HandlerReply::ReadLink { status, link } ==> c.result == OperationResult::ReadLink(
            status,
            link,
        ),
        h matches HandlerReply::GetFh(status, fh) ==> c.result == OperationResult::GetFh(status, fh),
        h matches HandlerReply::Seek { status, eof, offset } ==> (status is NfsOk ==> (
        c.result matches OperationResult::Seek(_, Some(r)) && r.eof == eof && r.offset == offset)),
        h matches HandlerReply::Access { status, supported, access } ==> c.result
            == OperationResult::Access(status, Some((supported, access))),
{
}

/// Law: what was written is what the client is told: the number of octets, how stable
/// they are and the write verifier. What went to the data servers is stable there; a
/// write that did not get there is to be tried again, and one whose size could not
/// follow has failed.
pub proof fn what_was_written_reaches_the_client(
    h: HandlerReply,
    pnfs: bool,
    verifier: u64,
    c: Completion,
)
    requires
        completes(h, pnfs, verifier, c),
    ensures
        h matches HandlerReply::Write { status, count, committed, verifier: v } ==> (status is NfsOk
            ==> (c.result matches OperationResult::Write(_, Some(r)) && r.count == count
            && r.committed == committed && octets::u64_of(r.verifier@) == v)),
        h matches HandlerReply::ProxyWrite(ProxyWriteOutcome::Written { len }) ==> (
        c.result matches OperationResult::Write(Nfs4Status::NfsOk, Some(r)) && r.committed == 2 && (
        len <= u32::MAX ==> r.count == len) && octets::u64_of(r.verifier@) == verifier),
        h == HandlerReply::ProxyWrite(ProxyWriteOutcome::Failed) ==> c.result
            == OperationResult::Write(Nfs4Status::Delay, None),
        h == HandlerReply::ProxyWrite(ProxyWriteOutcome::SizeFailed) ==> c.result
            == OperationResult::Write(Nfs4Status::Io, None),
        h matches HandlerReply::Commit { status, verifier: v } ==> (status is NfsOk ==> (
        c.result matches OperationResult::Commit(_, Some(r)) && octets::u64_of(r@) == v)),
        h matches HandlerReply::Copy { status, count, sync } ==> (status is NfsOk ==> (
        c.result matches OperationResult::Copy(_, Some(r)) && r.count == count && r.synchronous
            == sync && r.consecutive && r.verifier == verifier)),
{
    octets::lemma_u64_round_trip(verifier);
    if let HandlerReply::Write { verifier: v, .. } = h {
        octets::lemma_u64_round_trip(v);
    }
    if let HandlerReply::Commit { verifier: v, .. } = h {
        octets::lemma_u64_round_trip(v);
    }
}

/// Law: what the handlers of sessions gave is what the client gets.
pub proof fn a_session_reaches_the_client(
    h: HandlerReply,
    pnfs: bool,
    verifier: u64,
    c: Completion,
)
    requires
        completes(h, pnfs, verifier, c),
    ensures
        h matches HandlerReply::ExchangeId { status, result } ==> (status is NfsOk ==> (
        c.result matches OperationResult::ExchangeId(_, Some(r)) && r.clientid == result.clientid
            && r.sequenceid == result.sequenceid && r.server_owner@ == result.server_owner@
            && r.server_scope@ == result.server_scope@ && (!pnfs ==> r.flags == result.flags) && (
        pnfs ==> r.flags & 0x0007_0000 == 0x0002_0000 && r.flags & !0x0007_0000 == result.flags
            & !0x0007_0000))),
        h matches HandlerReply::CreateSession { status, result, .. } ==> (status is NfsOk ==> (
        c.result matches OperationResult::CreateSession(_, Some(r)) && r.sessionid
            == result.sessionid && r.sequenceid == result.sequenceid && r.flags == result.flags
            && r.fore_chan_attrs@ == result.fore_chan_attrs@ && r.back_chan_attrs@
            == result.back_chan_attrs@)),
        h matches HandlerReply::Sequence {
            status,
            sessionid,
            sequenceid,
            slotid,
            highest_slotid,
            target_highest_slotid,
            status_flags,
        } ==> (status is NfsOk ==> (c.result matches OperationResult::Sequence(_, Some(r))
            && r.sessionid == sessionid && r.sequenceid == sequenceid && r.slotid == slotid
            && r.highest_slotid == highest_slotid && r.target_highest_slotid
            == target_highest_slotid && r.status_flags == status_flags)),
        h matches HandlerReply::MarkReclaimComplete(outcome) ==> {
            &&& outcome is Marked ==> c.result == OperationResult::ReclaimComplete(
                Nfs4Status::NfsOk,
            )
            &&& outcome is AlreadyComplete ==> c.result == OperationResult::ReclaimComplete(
                Nfs4Status::CompleteAlready,
            )
            &&& outcome is NoSuchClient ==> c.result == OperationResult::ReclaimComplete(
                Nfs4Status::StaleClientId,
            )
        },
        h matches HandlerReply::SecInfo(found) ==> {
            &&& found is Stale ==> c.result == OperationResult::SecInfo(Nfs4Status::Stale)
            &&& found is NotDir ==> c.result == OperationResult::SecInfo(Nfs4Status::NotDir)
            &&& found is Missing ==> c.result == OperationResult::SecInfo(Nfs4Status::NoEnt)
            &&& found is Found ==> c.result == OperationResult::SecInfo(Nfs4Status::NfsOk)
        },
        h matches HandlerReply::Layout(result) ==> c.result == result,
{
    if let HandlerReply::ExchangeId { result, .. } = h {
        let flags = result.flags;
        assert({
            let f = (flags & !0x0007_0000u32) | 0x0002_0000u32;
            f & 0x0007_0000u32 == 0x0002_0000u32 && f & !0x0007_0000u32 == flags & !0x0007_0000u32
        }) by (bit_vector);
    }
}

/// Law: stateids, conflicts and changes of directories reach the client as the handler
/// gave them; the source of a RENAME stays the source.
pub proof fn state_and_changes_reach_the_client(
    h: HandlerReply,
    pnfs: bool,
    verifier: u64,
    c: Completion,
)
    requires
        completes(h, pnfs, verifier, c),
    ensures
        h matches HandlerReply::Open { status, stateid, change_info, result_flags, attrset, .. } ==> {
            &&& status is NfsOk && stateid is Some && change_info is Some ==> (
            c.result matches OperationResult::Open(_, Some(r)) && Some(r.stateid) == stateid && Some(
                r.change_info,
            ) == change_info && r.result_flags == result_flags && r.attrset@ == attrset@
                && r.delegation is None)
            &&& status is NfsOk && (stateid is None || change_info is None) ==> c.result
                == OperationResult::Open(status, None)
        },
        h matches HandlerReply::Close { status, stateid } ==> c.result == OperationResult::Close(
            status,
            stateid,
        ),
        h matches HandlerReply::OpenDowngrade(Ok(stateid)) ==> c.result
            == OperationResult::OpenDowngrade(Nfs4Status::NfsOk, Some(stateid)),
        h matches HandlerReply::OpenDowngrade(Err(status)) ==> c.result
            == OperationResult::OpenDowngrade(status, None),
        h matches HandlerReply::Lock { status, stateid, denied } ==> c.result
            == OperationResult::Lock(status, stateid, denied),
        h matches HandlerReply::LockT { status, denied } ==> c.result == OperationResult::LockT(
            status,
            denied,
        ),
        h matches HandlerReply::LockU { status, stateid } ==> c.result == OperationResult::LockU(
            status,
            stateid,
        ),
        h matches HandlerReply::Create { status, change_info, attrset } ==> c.result
            == OperationResult::Create(status, change_info, attrset),
        h matches HandlerReply::Remove { status, change_info } ==> c.result
            == OperationResult::Remove(status, change_info),
        h matches HandlerReply::Link { status, change_info } ==> c.result == OperationResult::Link(
            status,
            change_info,
        ),
        h matches HandlerReply::Rename { source_cinfo, target_cinfo, .. } ==> (
        c.result matches OperationResult::Rename(_, source, target) && source == source_cinfo
            && target == target_cinfo),
        h matches HandlerReply::SetAttr { attrsset, .. } ==> (
        c.result matches OperationResult::SetAttr(_, set) && set@ == attrsset@),
{
}

/// Law: each stateid that was tested has its status, in order: good or not.
pub proof fn each_stateid_has_its_status(
    valid: Vec<bool>,
    pnfs: bool,
    verifier: u64,
    c: Completion,
    i: int,
)
    requires
        completes(HandlerReply::TestStateId(valid), pnfs, verifier, c),
        0 <= i < valid@.len(),
    ensures
        c.result matches OperationResult::TestStateId(Nfs4Status::NfsOk, Some(v)) && v@.len()
            == valid@.len() && (valid@[i] ==> v@[i] is NfsOk) && (!valid@[i] ==> v@[i]
            is BadStateId),
{
}

/// Law: the attributes that a handler gave are what the client gets.
pub proof fn attributes_reach_the_client(
    h: HandlerReply,
    pnfs: bool,
    verifier: u64,
    c: Completion,
)
    requires
        completes(h, pnfs, verifier, c),
    ensures
        h matches HandlerReply::GetAttr { status, attrs: Some(a) } ==> (status is NfsOk ==> (
        c.result matches OperationResult::GetAttr(_, Some(b)) && octets::bytes_of(b)
            == attrs::wire_fattr(Some(Fattr4View { attrmask: a.attrmask@, attr_vals: a.attr_vals@ })))),
        h matches HandlerReply::GetAttr { status, .. } ==> (!(status is NfsOk) ==> c.result
            == OperationResult::GetAttr(status, None)),
{
}

/// Law: attributes are read back as a bitmap and the values that it selects.
pub proof fn attributes_are_read_back(f: Fattr4View, t: Seq<u8>)
    requires
        f.attrmask.len() <= u32::MAX,
        f.attr_vals.len() <= u32::MAX,
    ensures
        ({
            let (mask, s) = xdr::parse_bitmap(attrs::wire_fattr(Some(f)) + t);
            let (values, s) = xdr::parse_opaque(s);
            &&& mask == Ok::<Seq<u32>, XdrError>(f.attrmask)
            &&& values == Ok::<Seq<u8>, XdrError>(f.attr_vals)
            &&& s == t
        }),
{
    let mask = xdr::wire_bitmap(f.attrmask);
    let values = xdr::wire_opaque(f.attr_vals);
    xdr::lemma_concat_assoc(mask, values, t);
    xdr::bitmap_round_trip(f.attrmask, values + t);
    xdr::opaque_round_trip(f.attr_vals, t);
}

/// Law: a comparison is answered by what was found: the status of a failed look, not
/// supported where an attribute was not to be had, and else whether the values are the
/// same, which VERIFY wants and NVERIFY does not.
pub proof fn a_comparison_is_answered_by_what_was_found(
    want: Fattr4View,
    have: Fattr4View,
    status: Nfs4Status,
    is_nverify: bool,
)
    ensures
        !(status is NfsOk) ==> attrs::verify_status(is_nverify, want, status, Some(have)) == status,
        !attrs::covers(have.attrmask, want.attrmask) ==> attrs::verify_status(
            is_nverify,
            want,
            Nfs4Status::NfsOk,
            Some(have),
        ) is AttrNotsupp,
        attrs::covers(have.attrmask, want.attrmask) && have.attr_vals == want.attr_vals ==> {
            &&& attrs::verify_status(false, want, Nfs4Status::NfsOk, Some(have)) is NfsOk
            &&& attrs::verify_status(true, want, Nfs4Status::NfsOk, Some(have)) is Same
        },
        attrs::covers(have.attrmask, want.attrmask) && have.attr_vals != want.attr_vals ==> {
            &&& attrs::verify_status(false, want, Nfs4Status::NfsOk, Some(have)) is NotSame
            &&& attrs::verify_status(true, want, Nfs4Status::NfsOk, Some(have)) is NfsOk
        },
        attrs::verify_status(is_nverify, want, Nfs4Status::NfsOk, None) is ServerFault,
        attrs::verify_result(true, status) == OperationResult::Nverify(status),
        attrs::verify_result(false, status) == OperationResult::Verify(status),
{
}

/// Law: a bitmap covers another when every bit of the other is one of its own.
pub proof fn a_bitmap_covers_its_bits(have: Seq<u32>, want: Seq<u32>, i: int, bit: u32)
    requires
        attrs::covers(have, want),
        0 <= i < want.len(),
        bit < 32,
        want[i] & (1u32 << bit) != 0,
    ensures
        i < have.len(),
        have[i] & (1u32 << bit) != 0,
{
    let w = want[i];
    let h = attrs::word(have, i);
    assert(w & !h == 0);
    assert(h & (1u32 << bit) != 0) by (bit_vector)
        requires
            w & !h == 0,
            w & (1u32 << bit) != 0,
            bit < 32,
    ;
    assert(0u32 & (1u32 << bit) == 0) by (bit_vector);
}

/// Law: a bitmap covers itself.
pub proof fn a_bitmap_covers_itself(mask: Seq<u32>)
    ensures
        attrs::covers(mask, mask),
{
    assert forall|i: int| 0 <= i < mask.len() implies #[trigger] mask[i] & !attrs::word(mask, i)
        == 0 by {
        let w = mask[i];
        assert(w & !w == 0) by (bit_vector);
    }
}

/// Law: what an operation did reaches the server. A session that was made or used is
/// bound to the connection, one that was destroyed is let go of; on a metadata server
/// the data servers follow a size that was set, a file that was removed and one that
/// was renamed. What failed has no effect, but for a size that was set all the same.
pub proof fn what_was_done_reaches_the_server(
    h: HandlerReply,
    pnfs: bool,
    verifier: u64,
    c: Completion,
)
    requires
        completes(h, pnfs, verifier, c),
    ensures
        h matches HandlerReply::CreateSession { status, result, back_chan_bound } ==> {
            &&& status is NfsOk ==> c.effect == (Effect::Bind {
                sessionid: result.sessionid,
                back: back_chan_bound,
            })
            &&& !(status is NfsOk) ==> c.effect is Nothing
        },
        h matches HandlerReply::Sequence { status, sessionid, .. } ==> {
            &&& status is NfsOk ==> c.effect == (Effect::Bind { sessionid, back: false })
            &&& !(status is NfsOk) ==> c.effect is Nothing
        },
        h matches HandlerReply::DestroySession { status, sessionid } ==> {
            &&& status is NfsOk ==> c.effect == Effect::Unbind(sessionid)
            &&& !(status is NfsOk) ==> c.effect is Nothing
        },
        h matches HandlerReply::SetAttr { attrsset, requested, .. } ==> {
            let set = attrsset@.len() > 0 && attrsset@[0] & 0x10 != 0;
            &&& requested matches Some(n) ==> (pnfs && set ==> c.effect == Effect::Truncate(n))
            &&& !pnfs || !set || requested is None ==> c.effect is Nothing
        },
        h matches HandlerReply::Open { status, attrset, requested, .. } ==> {
            let set = attrset@.len() > 0 && attrset@[0] & 0x10 != 0;
            &&& requested matches Some(n) ==> (pnfs && set && status is NfsOk ==> c.effect
                == Effect::Truncate(n))
            &&& !pnfs || !set || requested is None || !(status is NfsOk) ==> c.effect is Nothing
        },
        h matches HandlerReply::Remove { status, .. } ==> {
            &&& pnfs && status is NfsOk ==> c.effect is Removed
            &&& !pnfs || !(status is NfsOk) ==> c.effect is Nothing
        },
        h matches HandlerReply::Rename { status, .. } ==> {
            &&& pnfs && status is NfsOk ==> c.effect is Renamed
            &&& !pnfs || !(status is NfsOk) ==> c.effect is Nothing
        },
        h matches HandlerReply::FreeStateId(entry) ==> {
            &&& entry is None ==> c.effect is Nothing && c.result == OperationResult::FreeStateId(
                Nfs4Status::NfsOk,
            )
            &&& entry matches Some(e) ==> {
                &&& e.revoked ==> c.effect is CloseState && c.result == OperationResult::FreeStateId(
                    Nfs4Status::NfsOk,
                )
                &&& !e.revoked && (e.state_type is Open || e.state_type is Lock) ==> c.effect
                    is Nothing && c.result == OperationResult::FreeStateId(Nfs4Status::LocksHeld)
                &&& !e.revoked && (e.state_type is Delegation || e.state_type is Layout)
                    ==> c.effect is RevokeState && c.result == OperationResult::FreeStateId(
                    Nfs4Status::NfsOk,
                )
            }
        },
        !(h is CreateSession || h is Sequence || h is DestroySession || h is SetAttr || h is Open
            || h is Remove || h is Rename || h is FreeStateId) ==> c.effect is Nothing,
{
}

/// Law: an operation that gave a stateid leaves it as the current one; SEQUENCE leaves
/// its session, RESTOREFH the stateid that was put aside, and a SECINFO that found its
/// name no filehandle. Nothing else in the context changes.
pub proof fn what_is_left_for_the_next_operation(h: HandlerReply, c: ContextView)
    ensures
        h matches HandlerReply::Open { status, stateid: Some(s), .. } ==> (status is NfsOk
            ==> context_completed(h, c) == (ContextView { current_stateid: Some(s@), ..c })),
        h matches HandlerReply::Lock { status, stateid: Some(s), .. } ==> (status is NfsOk
            ==> context_completed(h, c) == (ContextView { current_stateid: Some(s@), ..c })),
        h matches HandlerReply::LockU { status, stateid: Some(s) } ==> (status is NfsOk
            ==> context_completed(h, c) == (ContextView { current_stateid: Some(s@), ..c })),
        h matches HandlerReply::OpenDowngrade(Ok(s)) ==> context_completed(h, c) == (ContextView {
            current_stateid: Some(s@),
            ..c
        }),
        h matches HandlerReply::Open { status, .. } ==> (!(status is NfsOk) ==> context_completed(
            h,
            c,
        ) == c),
        h matches HandlerReply::Lock { status, .. } ==> (!(status is NfsOk) ==> context_completed(
            h,
            c,
        ) == c),
        h matches HandlerReply::Sequence { status, sessionid, .. } ==> {
            &&& status is NfsOk ==> context_completed(h, c) == (ContextView {
                session_id: Some(sessionid@),
                ..c
            })
            &&& !(status is NfsOk) ==> context_completed(h, c) == c
        },
        h matches HandlerReply::RestoreFh(status) ==> {
            &&& status is NfsOk ==> context_completed(h, c) == (ContextView {
                current_stateid: c.saved_stateid,
                ..c
            })
            &&& !(status is NfsOk) ==> context_completed(h, c) == (ContextView {
                current_stateid: None,
                ..c
            })
        },
        h matches HandlerReply::SecInfo(found) ==> {
            &&& found is Found ==> context_completed(h, c) == (ContextView { current_fh: None, ..c })
            &&& !(found is Found) ==> context_completed(h, c) == c
        },
        !(h is Open || h is Lock || h is LockU || h is OpenDowngrade || h is Sequence
            || h is RestoreFh || h is SecInfo) ==> context_completed(h, c) == c,
{
}

/// Law: a write through this server to the data servers leaves the file ending behind its
/// last octet where that is behind the end, and otherwise leaves the end alone.
pub proof fn a_write_moves_the_end_to_its_own(offset: u64, len: u64, size: u64, r: Option<u64>)
    requires
        call_ensures(complete::proxy_write_end, (offset, len, size), r),
    ensures
        offset + len <= size ==> r is None,
        size < offset + len <= u64::MAX ==> r == Some((offset + len) as u64),
        offset + len > u64::MAX && size < u64::MAX ==> r == Some(u64::MAX),
{
}

/// Law: the data servers follow a size exactly where the size was applied, whatever else
/// of a request failed.
pub proof fn a_size_is_followed_where_it_was_applied(
    attrset: &Vec<u32>,
    requested: Option<u64>,
    r: Option<u64>,
)
    requires
        call_ensures(attrs::size_to_note, (attrset, requested), r),
    ensures
        attrset@.len() == 0 ==> r is None,
        attrset@.len() > 0 && attrset@[0] & 16 == 0 ==> r is None,
        attrset@.len() > 0 && attrset@[0] & 16 != 0 ==> r == requested,
{
}

/// Law: a comparison is answered under the operation that asked for it.
pub proof fn a_comparison_is_answered_under_its_operation(
    is_nverify: bool,
    status: Nfs4Status,
    r: OperationResult,
)
    requires
        call_ensures(attrs::verify_answer, (is_nverify, status), r),
    ensures
        is_nverify ==> r == OperationResult::Nverify(status),
        !is_nverify ==> r == OperationResult::Verify(status),
{
}

/// Law: completing a WRITE tells the client how much was written and how stable it is, as
/// the handler said.
pub proof fn completing_a_write_changes_no_number(
    status: Nfs4Status,
    count: u32,
    committed: u32,
    v: u64,
    context: &mut CompoundContext,
    pnfs: bool,
    verifier: WriteVerifier,
    c: Completion,
)
    requires
        call_ensures(
            complete::complete,
            (
                HandlerReply::Write { status, count, committed, verifier: v },
                context,
                pnfs,
                verifier,
            ),
            c,
        ),
        status is NfsOk,
    ensures
        c.result is Write,
        c.result->Write_0 is NfsOk,
        c.result->Write_1 is Some,
        (c.result->Write_1->0).count == count,
        (c.result->Write_1->0).committed == committed,
        octets::u64_of((c.result->Write_1->0).verifier@) == v,
{
    octets::lemma_u64_round_trip(v);
    what_was_written_reaches_the_client(
        HandlerReply::Write { status, count, committed, verifier: v },
        pnfs,
        verifier@,
        c,
    );
}

} // verus!
