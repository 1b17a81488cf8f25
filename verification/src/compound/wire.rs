//! The wire form of the results.
//!
//! A result on the wire is the number of the operation it answers, a status, and
//! a body that depends on both.
use vstd::prelude::*;
use vstd::utf8::*;

use crate::compound::grammar;
use crate::compound::results;
use crate::compound::results::{
    ChangeInfo, CreateSessionResult, Delegation, DirEntry, ExchangeIdResult, LockDenied,
    OpenResult, OperationResult, ReadDirResult, ReadPlusSegment, SequenceResult,
};
use crate::compound::types::ChannelAttrs;
use crate::octets;
use crate::protocol::opcode;
use crate::protocol::Nfs4Status;
use crate::sec_policy;
use crate::sec_policy::{SecLevel, SecOffer, SecPolicy};
use crate::xdr;

verus! {

/// The status that a result reports.
pub open spec fn status_of(r: OperationResult) -> Nfs4Status {
    match r {
        OperationResult::PutRootFh(s) => s,
        OperationResult::PutFh(s) => s,
        OperationResult::GetFh(s, _) => s,
        OperationResult::SaveFh(s) => s,
        OperationResult::RestoreFh(s) => s,
        OperationResult::PutPubFh(s) => s,
        OperationResult::Lookup(s) => s,
        OperationResult::ReadDir(s, _) => s,
        OperationResult::Open(s, _) => s,
        OperationResult::Close(s, _) => s,
        OperationResult::OpenDowngrade(s, _) => s,
        OperationResult::Read(s, _) => s,
        OperationResult::Write(s, _) => s,
        OperationResult::Commit(s, _) => s,
        OperationResult::DelegPurge(s) => s,
        OperationResult::DelegReturn(s) => s,
        OperationResult::BackchannelCtl(s) => s,
        OperationResult::GetAttr(s, _) => s,
        OperationResult::SetAttr(s, _) => s,
        OperationResult::Verify(s) => s,
        OperationResult::Nverify(s) => s,
        OperationResult::Access(s, _) => s,
        OperationResult::Create(s, _, _) => s,
        OperationResult::Remove(s, _) => s,
        OperationResult::Rename(s, _, _) => s,
        OperationResult::Link(s, _) => s,
        OperationResult::ReadLink(s, _) => s,
        OperationResult::ExchangeId(s, _) => s,
        OperationResult::CreateSession(s, _) => s,
        OperationResult::DestroySession(s) => s,
        OperationResult::DestroyClientId(s) => s,
        OperationResult::BindConnToSession(s, _, _, _) => s,
        OperationResult::Sequence(s, _) => s,
        OperationResult::ReclaimComplete(s) => s,
        OperationResult::SecInfo(s) => s,
        OperationResult::SecInfoNoName(s) => s,
        OperationResult::TestStateId(s, _) => s,
        OperationResult::FreeStateId(s) => s,
        OperationResult::Allocate(s) => s,
        OperationResult::Deallocate(s) => s,
        OperationResult::Seek(s, _) => s,
        OperationResult::Copy(s, _) => s,
        OperationResult::Clone(s) => s,
        OperationResult::ReadPlus(s, _) => s,
        OperationResult::LayoutGet(s, _) => s,
        OperationResult::GetDeviceInfo(s, _) => s,
        OperationResult::LayoutReturn(s) => s,
        OperationResult::LayoutCommit(s, _) => s,
        OperationResult::Lock(s, _, _) => s,
        OperationResult::LockT(s, _) => s,
        OperationResult::LockU(s, _) => s,
        OperationResult::Unsupported { opcode, status } => status,
    }
}

/// The operation number that a result is filed under.
pub open spec fn result_opcode(r: OperationResult) -> u32 {
    match r {
        OperationResult::PutRootFh(_) => opcode::PUTROOTFH,
        OperationResult::PutFh(_) => opcode::PUTFH,
        OperationResult::GetFh(_, _) => opcode::GETFH,
        OperationResult::SaveFh(_) => opcode::SAVEFH,
        OperationResult::RestoreFh(_) => opcode::RESTOREFH,
        OperationResult::PutPubFh(_) => opcode::PUTPUBFH,
        OperationResult::Lookup(_) => opcode::LOOKUP,
        OperationResult::ReadDir(_, _) => opcode::READDIR,
        OperationResult::Open(_, _) => opcode::OPEN,
        OperationResult::Close(_, _) => opcode::CLOSE,
        OperationResult::OpenDowngrade(_, _) => opcode::OPEN_DOWNGRADE,
        OperationResult::Read(_, _) => opcode::READ,
        OperationResult::Write(_, _) => opcode::WRITE,
        OperationResult::Commit(_, _) => opcode::COMMIT,
        OperationResult::DelegPurge(_) => opcode::DELEGPURGE,
        OperationResult::DelegReturn(_) => opcode::DELEGRETURN,
        OperationResult::BackchannelCtl(_) => opcode::BACKCHANNEL_CTL,
        OperationResult::GetAttr(_, _) => opcode::GETATTR,
        OperationResult::SetAttr(_, _) => opcode::SETATTR,
        OperationResult::Verify(_) => opcode::VERIFY,
        OperationResult::Nverify(_) => opcode::NVERIFY,
        OperationResult::Access(_, _) => opcode::ACCESS,
        OperationResult::Create(_, _, _) => opcode::CREATE,
        OperationResult::Remove(_, _) => opcode::REMOVE,
        OperationResult::Rename(_, _, _) => opcode::RENAME,
        OperationResult::Link(_, _) => opcode::LINK,
        OperationResult::ReadLink(_, _) => opcode::READLINK,
        OperationResult::ExchangeId(_, _) => opcode::EXCHANGE_ID,
        OperationResult::CreateSession(_, _) => opcode::CREATE_SESSION,
        OperationResult::DestroySession(_) => opcode::DESTROY_SESSION,
        OperationResult::DestroyClientId(_) => opcode::DESTROY_CLIENTID,
        OperationResult::BindConnToSession(_, _, _, _) => opcode::BIND_CONN_TO_SESSION,
        OperationResult::Sequence(_, _) => opcode::SEQUENCE,
        OperationResult::ReclaimComplete(_) => opcode::RECLAIM_COMPLETE,
        OperationResult::SecInfo(_) => opcode::SECINFO,
        OperationResult::SecInfoNoName(_) => opcode::SECINFO_NO_NAME,
        OperationResult::TestStateId(_, _) => opcode::TEST_STATEID,
        OperationResult::FreeStateId(_) => opcode::FREE_STATEID,
        OperationResult::Allocate(_) => opcode::ALLOCATE,
        OperationResult::Deallocate(_) => opcode::DEALLOCATE,
        OperationResult::Seek(_, _) => opcode::SEEK,
        OperationResult::Copy(_, _) => opcode::COPY,
        OperationResult::Clone(_) => opcode::CLONE,
        OperationResult::ReadPlus(_, _) => opcode::READ_PLUS,
        OperationResult::LayoutGet(_, _) => opcode::LAYOUTGET,
        OperationResult::GetDeviceInfo(_, _) => opcode::GETDEVICEINFO,
        OperationResult::LayoutReturn(_) => opcode::LAYOUTRETURN,
        OperationResult::LayoutCommit(_, _) => opcode::LAYOUTCOMMIT,
        OperationResult::Lock(_, _, _) => opcode::LOCK,
        OperationResult::LockT(_, _) => opcode::LOCKT,
        OperationResult::LockU(_, _) => opcode::LOCKU,
        OperationResult::Unsupported { opcode, .. } => if grammar::is_illegal(opcode) {
            opcode::ILLEGAL
        } else {
            opcode
        },
    }
}

/// The status that a result carries on the wire: its own, but for an operation
/// number that does not exist, which is reported as such.
pub open spec fn result_status(r: OperationResult) -> Nfs4Status {
    match r {
        OperationResult::Unsupported { opcode, status } => if grammar::is_illegal(opcode) {
            Nfs4Status::OpIllegal
        } else {
            status
        },
        _ => status_of(r),
    }
}

// ---------------------------------------------------------------------------
// Bodies
// ---------------------------------------------------------------------------

pub open spec fn wire_change_info(c: ChangeInfo) -> Seq<u8> {
    xdr::wire_bool(c.atomic) + octets::be64(c.before) + octets::be64(c.after)
}

pub open spec fn wire_opt_change_info(c: Option<ChangeInfo>) -> Seq<u8> {
    match c {
        Some(c) => wire_change_info(c),
        None => Seq::empty(),
    }
}

/// `dirlist4`: each entry behind a TRUE, a FALSE behind the last, then whether
/// the directory ended.
pub open spec fn wire_entries(e: Seq<DirEntry>) -> Seq<u8>
    decreases e.len(),
{
    if e.len() == 0 {
        Seq::empty()
    } else {
        wire_entries(e.drop_last()) + wire_entry(e.last())
    }
}

pub open spec fn wire_entry(e: DirEntry) -> Seq<u8> {
    xdr::wire_bool(true) + octets::be64(e.cookie) + xdr::wire_string(e.name@) + octets::bytes_of(
        e.attrs,
    )
}

pub open spec fn wire_readdir(r: ReadDirResult) -> Seq<u8> {
    octets::be64(r.cookieverf) + wire_entries(r.entries@) + xdr::wire_bool(false) + xdr::wire_bool(
        r.eof,
    )
}

/// `open_delegation4`. A read delegation comes with one permissive entry that
/// lets EVERYONE@ read.
pub open spec fn wire_delegation(d: Option<Delegation>) -> Seq<u8> {
    match d {
        None => octets::be32(0),
        Some(Delegation::Read { stateid }) => octets::be32(1) + xdr::wire_stateid(stateid@)
            + xdr::wire_bool(false) + octets::be32(0) + octets::be32(0) + octets::be32(
            0x0012_0089,
        ) + xdr::wire_string("EVERYONE@"@),
        Some(Delegation::NoneExt { why }) => octets::be32(3) + octets::be32(results::why_code(why))
            + (match results::why_bool(why) {
            Some(b) => xdr::wire_bool(b),
            None => Seq::empty(),
        }),
    }
}

pub open spec fn wire_open(r: OpenResult) -> Seq<u8> {
    xdr::wire_stateid(r.stateid@) + wire_change_info(r.change_info) + octets::be32(r.result_flags)
        + xdr::wire_bitmap(r.attrset@) + wire_delegation(r.delegation)
}

/// EXCHANGE_ID4resok with SP4_NONE, minor id zero and no implementation id.
pub open spec fn wire_exchange_id(r: ExchangeIdResult) -> Seq<u8> {
    octets::be64(r.clientid) + octets::be32(r.sequenceid) + octets::be32(r.flags) + octets::be32(0)
        + octets::be64(0) + xdr::wire_string(r.server_owner@) + xdr::wire_opaque(r.server_scope@)
        + octets::be32(0)
}

/// `channel_attrs4` with an empty `ca_rdma_ird`.
pub open spec fn wire_channel_attrs(a: ChannelAttrs) -> Seq<u8> {
    octets::be32(a.header_pad_size) + octets::be32(a.max_request_size) + octets::be32(
        a.max_response_size,
    ) + octets::be32(a.max_response_size_cached) + octets::be32(a.max_operations) + octets::be32(
        a.max_requests,
    ) + octets::be32(0)
}

pub open spec fn wire_create_session(r: CreateSessionResult) -> Seq<u8> {
    xdr::wire_fixed(r.sessionid@) + octets::be32(r.sequenceid) + octets::be32(r.flags)
        + wire_channel_attrs(r.fore_chan_attrs) + wire_channel_attrs(r.back_chan_attrs)
}

pub open spec fn wire_sequence(r: SequenceResult) -> Seq<u8> {
    xdr::wire_fixed(r.sessionid@) + octets::be32(r.sequenceid) + octets::be32(r.slotid)
        + octets::be32(r.highest_slotid) + octets::be32(r.target_highest_slotid) + octets::be32(
        r.status_flags,
    )
}

/// LOCK4denied. Without a known conflict it is a zeroed read lock, so that what
/// follows stays aligned.
pub open spec fn wire_lock_denied(d: Option<LockDenied>) -> Seq<u8> {
    match d {
        Some(d) => octets::be64(d.offset) + octets::be64(d.length) + octets::be32(
            results::lock_code(d.locktype),
        ) + octets::be64(d.client_id) + xdr::wire_opaque(d.owner@),
        None => octets::be64(0) + octets::be64(0) + octets::be32(1) + octets::be64(0)
            + xdr::wire_opaque(Seq::empty()),
    }
}

pub open spec fn wire_statuses(s: Seq<Nfs4Status>) -> Seq<u8>
    decreases s.len(),
{
    if s.len() == 0 {
        Seq::empty()
    } else {
        wire_statuses(s.drop_last()) + xdr::wire_status(s.last())
    }
}

pub open spec fn wire_read_plus_segment(s: ReadPlusSegment) -> Seq<u8> {
    match s {
        ReadPlusSegment::Data { offset, data } => octets::be32(0) + octets::be64(offset)
            + xdr::wire_opaque(octets::bytes_of(data)),
        ReadPlusSegment::Hole { offset, length } => octets::be32(1) + octets::be64(offset)
            + octets::be64(length),
    }
}

pub open spec fn wire_read_plus_segments(s: Seq<ReadPlusSegment>) -> Seq<u8>
    decreases s.len(),
{
    if s.len() == 0 {
        Seq::empty()
    } else {
        wire_read_plus_segments(s.drop_last()) + wire_read_plus_segment(s.last())
    }
}

// ---------------------------------------------------------------------------
// SECINFO
// ---------------------------------------------------------------------------

/// A level that needs Kerberos keys.
pub open spec fn needs_keys(level: SecLevel) -> bool {
    level is Krb5 || level is Krb5i || level is Krb5p
}

/// A level that SECINFO may list: the floor accepts it, and the keys it needs
/// were loaded.
pub open spec fn offerable(gss: bool, policy: SecPolicy, level: SecLevel) -> bool {
    sec_policy::accepted(policy, level) && (needs_keys(level) ==> gss)
}

/// `level` alone, or nothing.
pub open spec fn listed(b: bool, level: SecLevel) -> Seq<SecLevel> {
    if b {
        seq![level]
    } else {
        Seq::empty()
    }
}

/// The levels that SECINFO lists, in the order of preference: a client takes the
/// first it supports. AUTH_SYS comes first, then Kerberos from the strongest
/// service down, and AUTH_NONE last.
pub open spec fn secinfo_levels(gss: bool, policy: SecPolicy) -> Seq<SecLevel> {
    listed(offerable(gss, policy, SecLevel::Sys), SecLevel::Sys)
        + listed(offerable(gss, policy, SecLevel::Krb5p), SecLevel::Krb5p)
        + listed(offerable(gss, policy, SecLevel::Krb5i), SecLevel::Krb5i)
        + listed(offerable(gss, policy, SecLevel::Krb5), SecLevel::Krb5)
        + listed(offerable(gss, policy, SecLevel::AuthNone), SecLevel::AuthNone)
}

/// The object identifier of Kerberos V5, 1.2.840.113554.1.2.2.
pub open spec fn krb5_oid() -> Seq<u8> {
    seq![0x2au8, 0x86, 0x48, 0x86, 0xf7, 0x12, 0x01, 0x02, 0x02]
}

/// RPCSEC_GSS with Kerberos V5, the default quality of protection and `service`.
pub open spec fn wire_gss_flavor(service: u32) -> Seq<u8> {
    octets::be32(6) + xdr::wire_opaque(krb5_oid()) + octets::be32(0) + octets::be32(service)
}

/// `secinfo4`.
pub open spec fn wire_flavor(level: SecLevel) -> Seq<u8> {
    match level {
        SecLevel::AuthNone => octets::be32(0),
        SecLevel::Sys => octets::be32(1),
        SecLevel::Krb5 => wire_gss_flavor(1),
        SecLevel::Krb5i => wire_gss_flavor(2),
        SecLevel::Krb5p => wire_gss_flavor(3),
    }
}

pub open spec fn wire_flavors(levels: Seq<SecLevel>) -> Seq<u8>
    decreases levels.len(),
{
    if levels.len() == 0 {
        Seq::empty()
    } else {
        wire_flavors(levels.drop_last()) + wire_flavor(levels.last())
    }
}

/// SECINFO4resok.
pub open spec fn wire_secinfo(gss: bool, policy: SecPolicy) -> Seq<u8> {
    let levels = secinfo_levels(gss, policy);
    octets::be32(levels.len() as u32) + wire_flavors(levels)
}

// ---------------------------------------------------------------------------
// The result
// ---------------------------------------------------------------------------

/// What stands behind the status of a successful result.
pub open spec fn success_body(r: OperationResult, offer: SecOffer) -> Seq<u8> {
    match r {
        OperationResult::GetFh(_, Some(fh)) => xdr::wire_opaque(fh@),
        OperationResult::ReadDir(_, Some(res)) => wire_readdir(res),
        OperationResult::GetAttr(_, Some(attrs)) => octets::bytes_of(attrs),
        OperationResult::Access(_, Some(a)) => octets::be32(a.0) + octets::be32(a.1),
        OperationResult::Open(_, Some(res)) => wire_open(res),
        OperationResult::Close(_, Some(sid)) => xdr::wire_stateid(sid@),
        OperationResult::OpenDowngrade(_, Some(sid)) => xdr::wire_stateid(sid@),
        OperationResult::Read(_, Some(res)) => xdr::wire_bool(res.eof) + xdr::wire_opaque(
            res.data@,
        ),
        OperationResult::Write(_, Some(res)) => octets::be32(res.count) + octets::be32(
            res.committed,
        ) + xdr::wire_fixed(res.verifier@),
        OperationResult::Commit(_, Some(v)) => xdr::wire_fixed(v@),
        OperationResult::Create(_, c, attrset) => wire_opt_change_info(c) + xdr::wire_bitmap(
            attrset@,
        ),
        OperationResult::Remove(_, c) => wire_opt_change_info(c),
        OperationResult::Rename(_, source, target) => wire_opt_change_info(source)
            + wire_opt_change_info(target),
        OperationResult::Link(_, c) => wire_opt_change_info(c),
        OperationResult::ReadLink(_, Some(link)) => xdr::wire_string(link@),
        OperationResult::ExchangeId(_, Some(res)) => wire_exchange_id(res),
        OperationResult::CreateSession(_, Some(res)) => wire_create_session(res),
        OperationResult::BindConnToSession(_, Some(sid), dir, rdma) => xdr::wire_fixed(sid@)
            + octets::be32(dir) + xdr::wire_bool(rdma),
        OperationResult::Sequence(_, Some(res)) => wire_sequence(res),
        OperationResult::SecInfo(_) => wire_secinfo(offer.gss, offer.policy),
        OperationResult::SecInfoNoName(_) => wire_secinfo(offer.gss, offer.policy),
        OperationResult::TestStateId(_, Some(v)) => octets::be32(v@.len() as u32) + wire_statuses(
            v@,
        ),
        OperationResult::Lock(_, Some(sid), _) => xdr::wire_stateid(sid@),
        OperationResult::LockU(_, Some(sid)) => xdr::wire_stateid(sid@),
        OperationResult::Seek(_, Some(res)) => xdr::wire_bool(res.eof) + octets::be64(res.offset),
        OperationResult::Copy(_, Some(res)) => octets::be32(0) + octets::be64(res.count)
            + octets::be32(2) + octets::be64(res.verifier) + xdr::wire_bool(res.consecutive)
            + xdr::wire_bool(res.synchronous),
        OperationResult::ReadPlus(_, Some(res)) => xdr::wire_bool(res.eof) + octets::be32(
            res.segments@.len() as u32,
        ) + wire_read_plus_segments(res.segments@),
        OperationResult::LayoutGet(_, Some(b)) => octets::bytes_of(b),
        OperationResult::GetDeviceInfo(_, Some(b)) => octets::bytes_of(b),
        OperationResult::LayoutReturn(_) => xdr::wire_bool(false),
        OperationResult::LayoutCommit(_, size) => match size {
            Some(n) => xdr::wire_bool(true) + octets::be64(n),
            None => xdr::wire_bool(false),
        },
        _ => Seq::empty(),
    }
}

/// What stands behind the status of a result: the success body; behind a failed
/// SETATTR the bitmap all the same, behind a denied LOCK or LOCKT the conflict,
/// behind a GETDEVICEINFO that was given too little room the room it needs; else
/// nothing.
pub open spec fn result_body(r: OperationResult, offer: SecOffer) -> Seq<u8> {
    match r {
        OperationResult::SetAttr(_, attrsset) => xdr::wire_bitmap(attrsset@),
        OperationResult::Lock(Nfs4Status::Denied, _, denied) => wire_lock_denied(denied),
        OperationResult::LockT(Nfs4Status::Denied, denied) => wire_lock_denied(denied),
        OperationResult::GetDeviceInfo(Nfs4Status::TooSmall, Some(b)) => octets::bytes_of(b),
        _ => if status_of(r) == Nfs4Status::NfsOk {
            success_body(r, offer)
        } else {
            Seq::empty()
        },
    }
}

/// A result on the wire.
pub open spec fn wire_result(r: OperationResult, offer: SecOffer) -> Seq<u8> {
    octets::be32(result_opcode(r)) + xdr::wire_status(result_status(r)) + result_body(r, offer)
}

/// The results of a COMPOUND, one after the other.
pub open spec fn wire_results(rs: Seq<OperationResult>, offer: SecOffer) -> Seq<u8>
    decreases rs.len(),
{
    if rs.len() == 0 {
        Seq::empty()
    } else {
        wire_results(rs.drop_last(), offer) + wire_result(rs.last(), offer)
    }
}

} // verus!
