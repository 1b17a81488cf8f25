//! What reaches a handler: the arguments of the operation, unchanged, and what does
//! not reach one.
//!
//! `r` is what routing the operation `op` in the context `c` with the facts `f`
//! gives.
use crate::compound::context::{CompoundContext, ContextView};
use crate::compound::grammar;
use crate::compound::ops::Operation;
use crate::compound::results::OperationResult;
use crate::compound::types::Fattr4View;
use crate::dispatcher::attrs;
use crate::dispatcher::open::{ClaimKind, CreateHow};
use crate::dispatcher::route;
use crate::dispatcher::route::{context_routed, routed, Facts, HandlerCall, Routed};
use crate::octets;
use crate::protocol::{Nfs4Status, StateId};
use crate::xdr;
use crate::xdr::XdrError;
use vstd::prelude::*;

verus! {

/// Law: a READ of a file whose data is here is handed on with its offset and its
/// count, under the stateid that it names or the current one that it stands for. One
/// of a file whose data is elsewhere goes to the data servers with the same range.
pub proof fn a_read_is_handed_on_as_it_came(
    stateid: StateId,
    offset: u64,
    count: u32,
    c: ContextView,
    f: Facts,
    r: Routed,
)
    requires
        routed(Operation::Read { stateid, offset, count }, c, f, r),
        c.resolved(stateid@) is Some,
    ensures
        f.disposition is Serve ==> (r matches Routed::Call(
            HandlerCall::Read { stateid: s, offset: o, count: n },
        ) && Some(s@) == c.resolved(stateid@) && o == offset && n == count),
        f.disposition is Proxy && f.stub ==> (r matches Routed::Call(
            HandlerCall::ProxyRead { offset: o, count: n },
        ) && o == offset && n == count),
        f.disposition is Proxy && !f.stub ==> r == Routed::Done(
            OperationResult::Read(Nfs4Status::Io, None),
        ),
{
}

/// Law: a WRITE to a file whose data is here is handed on with its offset, its
/// stability and its data, under the stateid that it names or the current one that it
/// stands for. One to a file whose data is elsewhere goes to the data servers with
/// the same offset and data.
pub proof fn a_write_is_handed_on_as_it_came(
    stateid: StateId,
    offset: u64,
    stable: u32,
    data: bytes::Bytes,
    c: ContextView,
    f: Facts,
    r: Routed,
)
    requires
        routed(Operation::Write { stateid, offset, stable, data }, c, f, r),
        c.resolved(stateid@) is Some,
    ensures
        f.disposition is Serve ==> (r matches Routed::Call(
            HandlerCall::Write { stateid: s, offset: o, stable: b, data: d },
        ) && Some(s@) == c.resolved(stateid@) && o == offset && b == stable && octets::bytes_of(d)
            == octets::bytes_of(data)),
        f.disposition is Proxy && f.stub ==> (r matches Routed::Call(
            HandlerCall::ProxyWrite { offset: o, data: d },
        ) && o == offset && octets::bytes_of(d) == octets::bytes_of(data)),
        f.disposition is Proxy && !f.stub ==> r == Routed::Done(
            OperationResult::Write(Nfs4Status::Io, None),
        ),
{
}

/// Law: I/O on a file whose data servers are down is put off while they may come back
/// and fails once they did not; I/O under a stateid that stands for none is refused.
pub proof fn io_waits_for_its_data(op: Operation, c: ContextView, f: Facts, r: Routed)
    requires
        routed(op, c, f, r),
    ensures
        op is Read && f.disposition is Delay ==> r == Routed::Done(
            OperationResult::Read(Nfs4Status::Delay, None),
        ),
        op is Write && f.disposition is Delay ==> r == Routed::Done(
            OperationResult::Write(Nfs4Status::Delay, None),
        ),
        op is Read && f.disposition is FailFast ==> r == Routed::Done(
            OperationResult::Read(Nfs4Status::Io, None),
        ),
        op is Write && f.disposition is FailFast ==> r == Routed::Done(
            OperationResult::Write(Nfs4Status::Io, None),
        ),
        op matches Operation::Read { stateid, .. } ==> (c.resolved(stateid@) is None && (
        f.disposition is Serve || f.disposition is Proxy) ==> r == Routed::Done(
            OperationResult::Read(Nfs4Status::BadStateId, None),
        )),
        op matches Operation::Write { stateid, .. } ==> (c.resolved(stateid@) is None && (
        f.disposition is Serve || f.disposition is Proxy) ==> r == Routed::Done(
            OperationResult::Write(Nfs4Status::BadStateId, None),
        )),
{
}

/// Law: COMMIT and READ_PLUS are handed on with their range.
pub proof fn a_range_is_handed_on_as_it_came(op: Operation, c: ContextView, f: Facts, r: Routed)
    requires
        routed(op, c, f, r),
        c.minor_version >= 2,
    ensures
        op matches Operation::Commit { offset, count } ==> (r matches Routed::Call(
            HandlerCall::Commit { offset: o, count: n },
        ) && o == offset && n == count),
        op matches Operation::ReadPlus { stateid, offset, count } ==> (r matches Routed::Call(
            HandlerCall::ReadPlus { stateid: s, offset: o, count: n },
        ) && s == stateid && o == offset && n == count),
{
}

/// Law: COPY and CLONE are handed on with the source as the source and the destination
/// as the destination. A COPY from another server is refused.
pub proof fn a_copy_keeps_source_and_destination_apart(
    op: Operation,
    c: ContextView,
    f: Facts,
    r: Routed,
)
    requires
        routed(op, c, f, r),
        c.minor_version >= 2,
    ensures
        op matches Operation::Copy {
            src_stateid,
            dst_stateid,
            src_offset,
            dst_offset,
            count,
            synchronous,
            source_server_count,
            ..
        } ==> {
            &&& source_server_count == 0 ==> (r matches Routed::Call(
                HandlerCall::Copy {
                    src_stateid: from,
                    dst_stateid: to,
                    src_offset: from_offset,
                    dst_offset: to_offset,
                    count: n,
                    sync,
                },
            ) && from == src_stateid && to == dst_stateid && from_offset == src_offset && to_offset
                == dst_offset && n == count && sync == synchronous)
            &&& source_server_count > 0 ==> r == Routed::Done(
                OperationResult::Copy(Nfs4Status::NotSupp, None),
            )
        },
        op matches Operation::Clone { src_stateid, dst_stateid, src_offset, dst_offset, count } ==> (
        r matches Routed::Call(
            HandlerCall::Clone {
                src_stateid: from,
                dst_stateid: to,
                src_offset: from_offset,
                dst_offset: to_offset,
                count: n,
            },
        ) && from == src_stateid && to == dst_stateid && from_offset == src_offset && to_offset
            == dst_offset && n == count),
{
}

/// Law: ALLOCATE, DEALLOCATE and SEEK of a file that is not striped are handed on with
/// their range, each to its own handler. They are refused for a striped file.
pub proof fn space_is_handed_on_as_it_came(op: Operation, c: ContextView, f: Facts, r: Routed)
    requires
        routed(op, c, f, r),
        c.minor_version >= 2,
    ensures
        op matches Operation::Allocate { stateid, offset, length } ==> {
            &&& !f.striped ==> (r matches Routed::Call(
                HandlerCall::Allocate { stateid: s, offset: o, length: l },
            ) && s == stateid && o == offset && l == length)
            &&& f.striped ==> r == Routed::Done(OperationResult::Allocate(Nfs4Status::NotSupp))
        },
        op matches Operation::Deallocate { stateid, offset, length } ==> {
            &&& !f.striped ==> (r matches Routed::Call(
                HandlerCall::Deallocate { stateid: s, offset: o, length: l },
            ) && s == stateid && o == offset && l == length)
            &&& f.striped ==> r == Routed::Done(OperationResult::Deallocate(Nfs4Status::NotSupp))
        },
        op matches Operation::Seek { stateid, offset, what } ==> {
            &&& !f.striped && what == 0 ==> (r matches Routed::Call(
                HandlerCall::Seek { stateid: s, offset: o, what: w },
            ) && s == stateid && o == offset && w is Data)
            &&& !f.striped && what == 1 ==> (r matches Routed::Call(
                HandlerCall::Seek { stateid: s, offset: o, what: w },
            ) && s == stateid && o == offset && w is Hole)
            &&& !f.striped && what > 1 ==> r == Routed::Done(
                OperationResult::Seek(Nfs4Status::UnionNotsupp, None),
            )
            &&& f.striped ==> r == Routed::Done(OperationResult::Seek(Nfs4Status::NotSupp, None))
        },
{
}

/// Law: a LOCK and a LOCKT on a file that is on no block volume, and every LOCKU, are
/// handed on with their range, their type and their owner. READ_LT, the word 1, asks
/// for a read lock, WRITE_LT, the word 2, for a write lock.
pub proof fn a_lock_is_handed_on_as_it_came(op: Operation, c: ContextView, f: Facts, r: Routed)
    requires
        routed(op, c, f, r),
        !f.scsi_class,
    ensures
        op matches Operation::Lock {
            locktype,
            reclaim,
            offset,
            length,
            stateid,
            owner,
            new_lock_owner,
        } ==> {
            &&& c.resolved(stateid@) is Some ==> (r matches Routed::Call(
                HandlerCall::Lock {
                    locktype: kind,
                    reclaim: again,
                    offset: o,
                    length: l,
                    stateid: s,
                    owner: who,
                    new_lock_owner: first,
                },
            ) && (locktype == 1 ==> kind is Read) && (locktype == 2 ==> kind is Write) && again
                == reclaim && o == offset && l == length && Some(s@) == c.resolved(stateid@)
                && who@ == owner@ && first == new_lock_owner)
            &&& c.resolved(stateid@) is None ==> r == Routed::Done(
                OperationResult::Lock(Nfs4Status::BadStateId, None, None),
            )
        },
        op matches Operation::LockT { locktype, offset, length, owner } ==> (r matches Routed::Call(
            HandlerCall::LockT { locktype: kind, offset: o, length: l, owner: who },
        ) && (locktype == 1 ==> kind is Read) && (locktype == 2 ==> kind is Write) && o == offset
            && l == length && who@ == owner@),
        op matches Operation::LockU { locktype, seqid, stateid, offset, length } ==> {
            &&& c.resolved(stateid@) is Some ==> (r matches Routed::Call(
                HandlerCall::LockU {
                    locktype: kind,
                    seqid: q,
                    stateid: s,
                    offset: o,
                    length: l,
                },
            ) && (locktype == 1 ==> kind is Read) && (locktype == 2 ==> kind is Write) && q
                == seqid && Some(s@) == c.resolved(stateid@) && o == offset && l == length)
            &&& c.resolved(stateid@) is None ==> r == Routed::Done(
                OperationResult::LockU(Nfs4Status::BadStateId, None),
            )
        },
{
}

/// Law: what is done to a name is handed on with that name: RENAME from the old to the
/// new one. A RENAME that would part a file from its data, and a second name for a file
/// that may have one alone, are refused.
pub proof fn names_are_handed_on_as_they_came(op: Operation, c: ContextView, f: Facts, r: Routed)
    requires
        routed(op, c, f, r),
    ensures
        op matches Operation::Lookup(name) ==> (r matches Routed::Call(HandlerCall::Lookup(n))
            && n@ == name@),
        op is LookupP ==> r == Routed::Call(HandlerCall::LookupP),
        op matches Operation::Remove(name) ==> (r matches Routed::Call(HandlerCall::Remove(n))
            && n@ == name@),
        op matches Operation::Rename { oldname, newname } ==> {
            &&& f.rename_preserves_data ==> (r matches Routed::Call(
                HandlerCall::Rename { oldname: from, newname: to },
            ) && from@ == oldname@ && to@ == newname@)
            &&& !f.rename_preserves_data ==> r == Routed::Done(
                OperationResult::Rename(Nfs4Status::NotSupp, None, None),
            )
        },
        op matches Operation::Link(name) ==> {
            &&& f.link_allowed ==> (r matches Routed::Call(HandlerCall::Link(n)) && n@ == name@)
            &&& !f.link_allowed ==> r == Routed::Done(
                OperationResult::Link(Nfs4Status::NotSupp, None),
            )
        },
        op is ReadLink ==> r == Routed::Call(HandlerCall::ReadLink),
        op matches Operation::Create { objtype, objname, linkdata, createattrs } ==> (
        r matches Routed::Call(
            HandlerCall::Create { objtype: kind, objname: n, linkdata: to, createattrs: attrs },
        ) && kind == objtype && n@ == objname@ && to == linkdata && attrs@ == createattrs@),
        op matches Operation::SecInfo(name) ==> (c.current_fh is Some ==> (r matches Routed::Call(
            HandlerCall::SecInfo(n),
        ) && n@ == name@)),
        op is SecInfo && c.current_fh is None ==> r == Routed::Done(
            OperationResult::SecInfo(Nfs4Status::NoFileHandle),
        ),
{
}

/// Law: filehandles are handed on as they came.
pub proof fn filehandles_are_handed_on_as_they_came(
    op: Operation,
    c: ContextView,
    f: Facts,
    r: Routed,
)
    requires
        routed(op, c, f, r),
    ensures
        op is PutRootFh ==> r == Routed::Call(HandlerCall::PutRootFh),
        op is PutPubFh ==> r == Routed::Call(HandlerCall::PutPubFh),
        op matches Operation::PutFh(fh) ==> (r matches Routed::Call(HandlerCall::PutFh(h)) && h@
            == fh@),
        op is GetFh ==> r == Routed::Call(HandlerCall::GetFh),
        op is SaveFh ==> r == Routed::Call(HandlerCall::SaveFh),
        op is RestoreFh ==> r == Routed::Call(HandlerCall::RestoreFh),
{
}

/// Law: ACCESS, GETATTR and READDIR are handed on with what they ask for. The verifier
/// of a READDIR is the number that its octets make.
pub proof fn questions_are_handed_on_as_they_came(
    op: Operation,
    c: ContextView,
    f: Facts,
    r: Routed,
)
    requires
        routed(op, c, f, r),
    ensures
        op matches Operation::Access(bits) ==> r == Routed::Call(HandlerCall::Access(bits)),
        op matches Operation::GetAttr(mask) ==> (r matches Routed::Call(HandlerCall::GetAttr(m))
            && m@ == mask@),
        op matches Operation::ReadDir { cookie, cookieverf, dircount, maxcount, attr_request } ==> (
        r matches Routed::Call(
            HandlerCall::ReadDir {
                cookie: k,
                cookieverf: v,
                dircount: d,
                maxcount: m,
                attr_request: a,
            },
        ) && k == cookie && octets::be64(v) == cookieverf@ && d == dircount && m == maxcount && a@
            == attr_request@),
{
    if let Operation::ReadDir { cookieverf, .. } = op {
        octets::lemma_u64_back(cookieverf@);
    }
}

/// Law: state is handed on as it came: what is opened with the access that is wanted
/// and what is denied to others, and stateids as they are or as the current one that
/// they stand for. A stateid that stands for none is refused.
pub proof fn state_is_handed_on_as_it_came(op: Operation, c: ContextView, f: Facts, r: Routed)
    requires
        routed(op, c, f, r),
    ensures
        op matches Operation::Open { seqid, share_access, share_deny, owner, claim, .. } ==> (
        r matches Routed::Call(h) ==> (h matches HandlerCall::Open {
            seqid: q,
            share_access: a,
            share_deny: d,
            owner: who,
            delegate_type,
            delegate_stateid,
            ..
        } && q == seqid && a == share_access && d == share_deny && who@ == owner@ && delegate_type
            == claim.delegate_type && delegate_stateid == claim.delegate_stateid)),
        op matches Operation::Close { seqid, stateid } ==> {
            &&& c.resolved(stateid@) is Some ==> (r matches Routed::Call(
                HandlerCall::Close { seqid: q, stateid: s },
            ) && q == seqid && Some(s@) == c.resolved(stateid@))
            &&& c.resolved(stateid@) is None ==> r == Routed::Done(
                OperationResult::Close(Nfs4Status::BadStateId, None),
            )
        },
        op matches Operation::OpenDowngrade { stateid, share_access, share_deny, .. } ==> {
            &&& c.resolved(stateid@) is Some ==> (r matches Routed::Call(
                HandlerCall::OpenDowngrade { stateid: s, share_access: a, share_deny: d },
            ) && Some(s@) == c.resolved(stateid@) && a == share_access && d == share_deny)
            &&& c.resolved(stateid@) is None ==> r == Routed::Done(
                OperationResult::OpenDowngrade(Nfs4Status::BadStateId, None),
            )
        },
        op matches Operation::TestStateId(ids) ==> (r matches Routed::Call(
            HandlerCall::TestStateId(v),
        ) && v@ == ids@),
        op matches Operation::FreeStateId(stateid) ==> {
            &&& c.resolved(stateid@) is Some ==> (r matches Routed::Call(
                HandlerCall::FreeStateId(s),
            ) && Some(s@) == c.resolved(stateid@))
            &&& c.resolved(stateid@) is None ==> r == Routed::Done(
                OperationResult::FreeStateId(Nfs4Status::BadStateId),
            )
        },
{
}

/// Law: an OPEN that reclaims, which are the claims 1, 3 and 6, is handed on while the
/// grace period lasts and the client has not reclaimed all; any other OPEN once one of
/// the two has ended.
pub proof fn an_open_waits_for_the_grace_period(op: Operation, c: ContextView, f: Facts, r: Routed)
    requires
        routed(op, c, f, r),
    ensures
        op matches Operation::Open { claim, .. } ==> {
            let reclaims = claim.claim_type == 1 || claim.claim_type == 3 || claim.claim_type == 6;
            let open = f.in_grace && !(f.session_client is Some && f.reclaim_complete);
            &&& reclaims == open ==> r is Call
            &&& reclaims && !open ==> r == Routed::Done(
                OperationResult::Open(Nfs4Status::NoGrace, None),
            )
            &&& !reclaims && open ==> r == Routed::Done(
                OperationResult::Open(Nfs4Status::Grace, None),
            )
        },
{
}

/// Law: an OPEN makes what the client asked for: nothing, a file with attributes, or
/// one with a verifier, by which a repeated request is known, and attributes. It opens
/// the name of a CLAIM_NULL and the current file for every other claim.
pub proof fn an_open_makes_what_was_asked_for(
    op: Operation,
    verifier: u64,
    attr_vals: Seq<u8>,
    c: ContextView,
    f: Facts,
    h: HandlerCall,
)
    requires
        routed(op, c, f, Routed::Call(h)),
    ensures
        op matches Operation::Open { openhow, claim, .. } ==> {
            &&& h matches HandlerCall::Open { openhow: how, claim: kind, .. } && {
                &&& openhow@.createmode == 0 && openhow@.attrs is None ==> how is NoCreate
                &&& openhow@.createmode <= 1 && openhow@.attrs == Some(attr_vals) ==> (
                how matches CreateHow::Create(a) && a.attrmask@ == openhow.attrmask@
                    && a.attr_vals@ == attr_vals)
                &&& openhow@.createmode == 2 && openhow@.attrs == Some(octets::be64(verifier))
                    ==> how == CreateHow::Exclusive(verifier)
                &&& openhow@.createmode == 3 && openhow@.attrs == Some(
                    octets::be64(verifier) + attr_vals,
                ) ==> (how matches CreateHow::Exclusive41 { verifier: v, attrs: a } && v == verifier
                    && a.attrmask@ == openhow.attrmask@ && a.attr_vals@ == attr_vals)
                &&& openhow@.createmode > 3 ==> how is NoCreate
                &&& claim.claim_type == 0 ==> (kind matches ClaimKind::Null(name) && name@
                    == claim.file@)
                &&& claim.claim_type != 0 ==> kind is Fh
            }
        },
{
    let v = octets::be64(verifier);
    octets::lemma_u64_round_trip(verifier);
    assert(octets::u64_of(v + attr_vals) == octets::u64_of(v)) by {
        assert((v + attr_vals).skip(4).take(4) =~= v.skip(4).take(4));
        assert(forall|i: int| 0 <= i < 4 ==> (v + attr_vals).skip(4)[i] == v.skip(4)[i]);
    }
    assert((v + attr_vals).skip(8) =~= attr_vals);
    if attr_vals.len() == 0 {
        assert(attr_vals =~= Seq::empty());
    }
}

/// Law: what a session is about is handed on as it came.
pub proof fn sessions_are_handed_on_as_they_came(
    op: Operation,
    c: ContextView,
    f: Facts,
    r: Routed,
)
    requires
        routed(op, c, f, r),
    ensures
        op matches Operation::ExchangeId { clientowner, flags, state_protect, .. } ==> (
        r matches Routed::Call(
            HandlerCall::ExchangeId {
                client_owner,
                verifier,
                flags: fl,
                state_protect: sp,
            },
        ) && client_owner@ == clientowner.id@ && verifier == clientowner.verifier && fl == flags
            && sp == state_protect),
        op matches Operation::CreateSession {
            clientid,
            sequence,
            flags,
            fore_chan_attrs,
            back_chan_attrs,
            cb_program,
            cb_sec,
        } ==> (r matches Routed::Call(
            HandlerCall::CreateSession {
                clientid: id,
                sequence: q,
                flags: fl,
                fore_chan_attrs: fore,
                back_chan_attrs: back,
                cb_program: program,
                cb_sec: sec,
            },
        ) && id == clientid && q == sequence && fl == flags && fore@ == fore_chan_attrs@ && back@
            == back_chan_attrs@ && program == cb_program && sec@ == cb_sec@),
        op matches Operation::Sequence {
            sessionid,
            sequenceid,
            slotid,
            highest_slotid,
            cachethis,
        } ==> (r matches Routed::Call(
            HandlerCall::Sequence {
                sessionid: id,
                sequenceid: q,
                slotid: slot,
                highest_slotid: highest,
                cache_this,
            },
        ) && id@ == sessionid@ && q == sequenceid && slot == slotid && highest == highest_slotid
            && cache_this == cachethis),
        op matches Operation::DestroySession(sessionid) ==> {
            &&& !f.session_known || f.conn_bound ==> (r matches Routed::Call(
                HandlerCall::DestroySession(id),
            ) && id@ == sessionid@)
            &&& f.session_known && !f.conn_bound ==> r == Routed::Done(
                OperationResult::DestroySession(Nfs4Status::ConnNotBoundToSession),
            )
        },
        op matches Operation::DestroyClientId(clientid) ==> {
            &&& f.client_known && f.client_sessions == 0 ==> r == Routed::Call(
                HandlerCall::RemoveClient(clientid),
            )
            &&& f.client_known && f.client_sessions > 0 ==> r == Routed::Done(
                OperationResult::DestroyClientId(Nfs4Status::ClientIdBusy),
            )
            &&& !f.client_known ==> r == Routed::Done(
                OperationResult::DestroyClientId(Nfs4Status::StaleClientId),
            )
        },
        op matches Operation::ReclaimComplete(one_fs) ==> {
            &&& f.session_client is None ==> r == Routed::Done(
                OperationResult::ReclaimComplete(Nfs4Status::OpNotInSession),
            )
            &&& f.session_client matches Some(client) ==> {
                &&& one_fs ==> r == Routed::Done(
                    OperationResult::ReclaimComplete(Nfs4Status::NfsOk),
                )
                &&& !one_fs ==> r == Routed::Call(HandlerCall::MarkReclaimComplete(client))
            }
        },
{
}

/// Law: a connection is bound to the session that is named, if there is one, and to
/// its back channel only where the client says so; the answer names the session, and
/// the direction and the mode that the client asked for.
pub proof fn a_connection_is_bound_to_the_session_named(
    op: Operation,
    c: ContextView,
    f: Facts,
    r: Routed,
)
    requires
        routed(op, c, f, r),
    ensures
        op matches Operation::BindConnToSession { sessionid, dir, use_conn_in_rdma_mode } ==> {
            &&& f.session_known ==> (r matches Routed::Bind { sessionid: id, back, result } && id
                == sessionid && back == (dir == 2 || dir == 3) && result
                == OperationResult::BindConnToSession(
                Nfs4Status::NfsOk,
                Some(sessionid),
                dir,
                use_conn_in_rdma_mode,
            ))
            &&& !f.session_known ==> r == Routed::Done(
                OperationResult::BindConnToSession(
                    Nfs4Status::BadSession,
                    None,
                    dir,
                    use_conn_in_rdma_mode,
                ),
            )
        },
        !(op is BindConnToSession) ==> !(r is Bind),
{
}

/// Law: what a layout is about is handed on as it came.
pub proof fn layouts_are_handed_on_as_they_came(op: Operation, c: ContextView, f: Facts, r: Routed)
    requires
        routed(op, c, f, r),
    ensures
        op matches Operation::LayoutGet {
            signal_layout_avail,
            layout_type,
            iomode,
            offset,
            length,
            minlength,
            stateid,
            maxcount,
        } ==> (r matches Routed::Call(HandlerCall::LayoutGet(q)) && q.signal_layout_avail
            == signal_layout_avail && q.layout_type == layout_type && q.iomode == iomode && q.offset
            == offset && q.length == length && q.minlength == minlength && q.stateid == stateid
            && q.maxcount == maxcount),
        op matches Operation::GetDeviceInfo { device_id, layout_type, maxcount, notify_types } ==> (
        r matches Routed::Call(
            HandlerCall::GetDeviceInfo {
                device_id: d,
                layout_type: kind,
                maxcount: room,
                notify_types: n,
            },
        ) && d@ == device_id@ && kind == layout_type && room == maxcount && n@ == notify_types@),
        op matches Operation::LayoutReturn { reclaim, layout_type, iomode, return_body } ==> (
        r matches Routed::Call(
            HandlerCall::LayoutReturn {
                reclaim: again,
                layout_type: kind,
                iomode: mode,
                return_body: body,
            },
        ) && again == reclaim && kind == layout_type && mode == iomode && body@ == return_body@),
        op matches Operation::LayoutCommit {
            offset,
            length,
            last_write_offset,
            time_modify,
            layout_type,
            ..
        } ==> (r matches Routed::Call(
            HandlerCall::LayoutCommit {
                offset: o,
                length: l,
                last_write_offset: last,
                time_modify: time,
                layout_type: kind,
            },
        ) && o == offset && l == length && last == last_write_offset && time == time_modify && kind
            == layout_type),
{
}

/// Law: attributes are handed on as they were packed: SETATTR with its stateid, VERIFY
/// to be the same and NVERIFY to differ.
pub proof fn attributes_are_handed_on_as_they_came(
    op: Operation,
    attrmask: Seq<u32>,
    attr_vals: Seq<u8>,
    c: ContextView,
    f: Facts,
    r: Routed,
)
    requires
        routed(op, c, f, r),
        attrmask.len() <= 8,
        attr_vals.len() <= u32::MAX,
    ensures
        op matches Operation::SetAttr { stateid, attrs } ==> (octets::bytes_of(attrs)
            == grammar::pack_fattr(attrmask, attr_vals) ==> (r matches Routed::Call(
            HandlerCall::SetAttr { stateid: s, attrs: a },
        ) && s == stateid && a.attrmask@ == attrmask && a.attr_vals@ == attr_vals)),
        attr_vals.len() % 4 == 0 ==> (op matches Operation::Verify { attrs } ==> (octets::bytes_of(
            attrs,
        ) == grammar::pack_fattr(attrmask, attr_vals) ==> (r matches Routed::Call(
            HandlerCall::Verify { is_nverify, want },
        ) && !is_nverify && want.attrmask@ == attrmask && want.attr_vals@ == attr_vals))),
        attr_vals.len() % 4 == 0 ==> (op matches Operation::Nverify { attrs } ==> (octets::bytes_of(
            attrs,
        ) == grammar::pack_fattr(attrmask, attr_vals) ==> (r matches Routed::Call(
            HandlerCall::Verify { is_nverify, want },
        ) && is_nverify && want.attrmask@ == attrmask && want.attr_vals@ == attr_vals))),
{
    attrs::unpacking_undoes_packing(attrmask, attr_vals);
    if attr_vals.len() % 4 == 0 {
        lemma_packed_attributes_verify(attrmask, attr_vals);
    }
}

proof fn lemma_packed_attributes_verify(attrmask: Seq<u32>, attr_vals: Seq<u8>)
    requires
        attrmask.len() <= u32::MAX,
        attr_vals.len() <= u32::MAX,
        attr_vals.len() % 4 == 0,
    ensures
        attrs::parse_verify(grammar::pack_fattr(attrmask, attr_vals)).0 == Ok::<
            Fattr4View,
            XdrError,
        >(Fattr4View { attrmask, attr_vals }),
{
    let end = Seq::<u8>::empty();
    let n = octets::be32(attrmask.len() as u32);
    let words = xdr::wire_words(attrmask);
    let values = xdr::wire_opaque(attr_vals) + end;
    assert(xdr::wire_fixed(attr_vals) =~= attr_vals);
    assert(values =~= octets::be32(attr_vals.len() as u32) + attr_vals);
    assert(grammar::pack_fattr(attrmask, attr_vals) =~= n + (words + values));
    xdr::u32_round_trip(attrmask.len() as u32, words + values);
    xdr::words_round_trip(attrmask, values);
    xdr::opaque_round_trip(attr_vals, end);
}

/// Law: SECINFO_NO_NAME is answered at once: it needs a current filehandle, the root
/// has no parent, and afterwards there is no current filehandle.
pub proof fn secinfo_no_name_uses_up_the_filehandle(
    style: u32,
    c: ContextView,
    f: Facts,
    r: Routed,
)
    requires
        routed(Operation::SecInfoNoName(style), c, f, r),
    ensures
        c.current_fh is None ==> r == Routed::Done(
            OperationResult::SecInfoNoName(Nfs4Status::NoFileHandle),
        ),
        c.current_fh is Some && style == 1 && f.is_root ==> r == Routed::Done(
            OperationResult::SecInfoNoName(Nfs4Status::NoEnt),
        ),
        c.current_fh is Some && !(style == 1 && f.is_root) ==> r == Routed::Done(
            OperationResult::SecInfoNoName(Nfs4Status::NfsOk),
        ) && context_routed(Operation::SecInfoNoName(style), c, f).current_fh is None,
{
}

/// Law: an operation that did not parse, and one with a name that is not text, are
/// answered as such under their number; a number that no operation has is illegal.
pub proof fn what_did_not_parse_is_said_to_be_so(op: Operation, c: ContextView, f: Facts, r: Routed)
    requires
        routed(op, c, f, r),
    ensures
        op matches Operation::BadXdr(n) ==> r == Routed::Done(
            OperationResult::Unsupported { opcode: n, status: Nfs4Status::BadXdr },
        ),
        op matches Operation::InvalidName(n) ==> r == Routed::Done(
            OperationResult::Unsupported { opcode: n, status: Nfs4Status::Inval },
        ),
        op matches Operation::Unsupported(n) ==> (n < 3 || n > 71 ==> r == Routed::Done(
            OperationResult::Unsupported { opcode: n, status: Nfs4Status::OpIllegal },
        )),
{
}

/// Law: these seven operations came with NFSv4.2, under these numbers.
pub proof fn the_operations_of_minor_version_two(op: Operation)
    ensures
        op is Allocate <==> route::later_opcode(op) == Some(59u32),
        op is Copy <==> route::later_opcode(op) == Some(60u32),
        op is Deallocate <==> route::later_opcode(op) == Some(62u32),
        op is IoAdvise <==> route::later_opcode(op) == Some(63u32),
        op is ReadPlus <==> route::later_opcode(op) == Some(68u32),
        op is Seek <==> route::later_opcode(op) == Some(69u32),
        op is Clone <==> route::later_opcode(op) == Some(71u32),
        route::later_opcode(op) is Some ==> op is Allocate || op is Copy || op is Deallocate
            || op is IoAdvise || op is ReadPlus || op is Seek || op is Clone,
{
}

/// Law: routing an operation changes nothing in the context but what belongs to the
/// current filehandle: an operation that moves it forgets the current stateid, SAVEFH
/// puts the stateid aside, and SECINFO_NO_NAME uses the filehandle up.
pub proof fn routing_leaves_the_context_alone(op: Operation, c: ContextView, f: Facts)
    ensures
        op is PutRootFh || op is PutFh || op is PutPubFh || op is Lookup || op is LookupP
            ==> context_routed(op, c, f) == (ContextView { current_stateid: None, ..c }),
        op is SaveFh ==> context_routed(op, c, f) == (ContextView {
            saved_stateid: c.current_stateid,
            ..c
        }),
        !(op is PutRootFh || op is PutFh || op is PutPubFh || op is Lookup || op is LookupP
            || op is SaveFh || op is SecInfoNoName) ==> context_routed(op, c, f) == c,
        context_routed(op, c, f).saved_fh == c.saved_fh,
        context_routed(op, c, f).minor_version == c.minor_version,
{
}

/// Law: routing a WRITE or a READ to a file whose data is here calls the handler with the
/// offset, the stability, the data and the count that the client gave, and leaves the
/// context as it was.
pub proof fn routing_io_changes_no_argument(
    op: Operation,
    context: &mut CompoundContext,
    facts: &Facts,
    r: Routed,
)
    requires
        call_ensures(route::route, (op, context, facts), r),
        facts.disposition is Serve,
    ensures
        op matches Operation::Write { stateid, offset, stable, data } ==> (old(context)@.resolved(
            stateid@,
        ) is Some ==> (r matches Routed::Call(
            HandlerCall::Write { stateid: s, offset: o, stable: b, data: d },
        ) && o == offset && b == stable && d == data && Some(s@) == old(context)@.resolved(
            stateid@,
        ))),
        op matches Operation::Read { stateid, offset, count } ==> (old(context)@.resolved(
            stateid@,
        ) is Some ==> (r matches Routed::Call(
            HandlerCall::Read { stateid: s, offset: o, count: n },
        ) && o == offset && n == count && Some(s@) == old(context)@.resolved(stateid@))),
        op is Write || op is Read ==> final(context)@ == old(context)@,
{
    routing_leaves_the_context_alone(op, old(context)@, *facts);
}

/// Law: routing a RENAME hands on the old name and the new one, each as it came.
pub proof fn routing_a_rename_keeps_the_names_apart(
    oldname: String,
    newname: String,
    context: &mut CompoundContext,
    facts: &Facts,
    r: Routed,
)
    requires
        call_ensures(route::route, (Operation::Rename { oldname, newname }, context, facts), r),
    ensures
        r matches Routed::Call(h) ==> (h matches HandlerCall::Rename { oldname: o, newname: n }
            && o@ == oldname@ && n@ == newname@),
{
    names_are_handed_on_as_they_came(
        Operation::Rename { oldname, newname },
        old(context)@,
        *facts,
        r,
    );
}

} // verus!
