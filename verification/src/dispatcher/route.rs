//! What to do with an operation: answer it at once, or hand it to a handler.
use crate::compound::context;
use crate::compound::context::{CompoundContext, ContextView};
use crate::compound::ops::Operation;
use crate::compound::results::{LockType, OperationResult};
use crate::compound::types::{CallbackSecParms, ChannelAttrs, LayoutReturn4Body};
use crate::dispatcher::attrs;
use crate::dispatcher::attrs::{decode_verify, unpack_fattr, verify_answer};
use crate::dispatcher::layout::get::LayoutRequest;
use crate::dispatcher::open;
use crate::dispatcher::open::{
    convert_claim, convert_openhow, grace_refusal, ClaimKind, CreateHow,
};
use crate::octets;
use crate::octets::u64_at;
use crate::protocol::{
    opcode, Fattr4, Nfs4FileHandle, Nfs4FileType, Nfs4Status, SessionId, StateId,
    NFS_V4_MINOR_VERSION_2,
};
use bytes::Bytes;
use vstd::prelude::*;

verus! {

/// What becomes of I/O on a file whose data is elsewhere.
#[derive(Debug, Clone, Copy, PartialEq, Eq, Structural)]
pub enum FallbackIoDisposition {
    /// The data is here.
    Serve,
    /// A data server is down and may come back.
    Delay,
    /// It did not come back in time.
    FailFast,
    /// The data servers are up: go through them.
    Proxy,
}

/// `data_content4`.
#[derive(Debug, Clone, Copy, PartialEq, Eq, Structural)]
pub enum SeekType {
    Data,
    Hole,
}

/// What the server knows when an operation comes in. A fact counts only for the
/// operations that ask for it.
#[derive(Debug, Clone, Copy)]
pub struct Facts {
    /// DESTROY_SESSION, BIND_CONN_TO_SESSION: the session exists.
    pub session_known: bool,
    /// DESTROY_SESSION: the connection is bound to the session.
    pub conn_bound: bool,
    /// DESTROY_CLIENTID: the client exists.
    pub client_known: bool,
    /// DESTROY_CLIENTID: how many sessions it has.
    pub client_sessions: usize,
    /// The client of the session that the COMPOUND runs on.
    pub session_client: Option<u64>,
    /// OPEN: the server has not left its grace period.
    pub in_grace: bool,
    /// OPEN: the client has reclaimed all it means to.
    pub reclaim_complete: bool,
    /// LOCK, LOCKT: the current file is on a block volume.
    pub scsi_class: bool,
    /// ALLOCATE, DEALLOCATE, SEEK: the current file is striped.
    pub striped: bool,
    /// READ, WRITE: what becomes of I/O on the current file.
    pub disposition: FallbackIoDisposition,
    /// READ, WRITE: there is a metadata server, and the file is known to it.
    pub stub: bool,
    /// RENAME: the file has no stripes that are found by its name.
    pub rename_preserves_data: bool,
    /// LINK: the file may have a second name.
    pub link_allowed: bool,
    /// SECINFO_NO_NAME: the current filehandle is the root.
    pub is_root: bool,
}

/// A call of a handler.
#[derive(Debug)]
pub enum HandlerCall {
    ExchangeId { client_owner: Vec<u8>, verifier: u64, flags: u32, state_protect: u32 },
    CreateSession {
        clientid: u64,
        sequence: u32,
        flags: u32,
        fore_chan_attrs: ChannelAttrs,
        back_chan_attrs: ChannelAttrs,
        cb_program: u32,
        cb_sec: Vec<CallbackSecParms>,
    },
    Sequence {
        sessionid: SessionId,
        sequenceid: u32,
        slotid: u32,
        highest_slotid: u32,
        cache_this: bool,
    },
    DestroySession(SessionId),
    /// Forget this client.
    RemoveClient(u64),
    TestStateId(Vec<StateId>),
    PutRootFh,
    PutFh(Nfs4FileHandle),
    PutPubFh,
    GetFh,
    SaveFh,
    RestoreFh,
    Lookup(String),
    LookupP,
    Access(u32),
    GetAttr(Vec<u32>),
    /// GETATTR for the bitmap of `want`, to compare with.
    Verify { is_nverify: bool, want: Fattr4 },
    SetAttr { stateid: StateId, attrs: Fattr4 },
    ReadDir { cookie: u64, cookieverf: u64, dircount: u32, maxcount: u32, attr_request: Vec<u32> },
    Open {
        seqid: u32,
        share_access: u32,
        share_deny: u32,
        owner: Vec<u8>,
        openhow: CreateHow,
        claim: ClaimKind,
        /// The delegation that a reclaim says was held.
        delegate_type: Option<u32>,
        /// The delegation that a cached open is converted under, for the handler
        /// to validate.
        delegate_stateid: Option<StateId>,
    },
    Close { seqid: u32, stateid: StateId },
    OpenDowngrade { stateid: StateId, share_access: u32, share_deny: u32 },
    Read { stateid: StateId, offset: u64, count: u32 },
    /// Read from the data servers.
    ProxyRead { offset: u64, count: u32 },
    Write { stateid: StateId, offset: u64, stable: u32, data: Bytes },
    /// Write to the data servers.
    ProxyWrite { offset: u64, data: Bytes },
    Commit { offset: u64, count: u32 },
    Copy {
        src_stateid: StateId,
        dst_stateid: StateId,
        src_offset: u64,
        dst_offset: u64,
        count: u64,
        sync: bool,
    },
    Clone {
        src_stateid: StateId,
        dst_stateid: StateId,
        src_offset: u64,
        dst_offset: u64,
        count: u64,
    },
    Allocate { stateid: StateId, offset: u64, length: u64 },
    Deallocate { stateid: StateId, offset: u64, length: u64 },
    Seek { stateid: StateId, offset: u64, what: SeekType },
    ReadPlus { stateid: StateId, offset: u64, count: u32 },
    Lock {
        locktype: LockType,
        reclaim: bool,
        offset: u64,
        length: u64,
        stateid: StateId,
        owner: Vec<u8>,
        new_lock_owner: bool,
    },
    LockT { locktype: LockType, offset: u64, length: u64, owner: Vec<u8> },
    LockU { locktype: LockType, seqid: u32, stateid: StateId, offset: u64, length: u64 },
    FreeStateId(StateId),
    Create {
        objtype: Nfs4FileType,
        objname: String,
        linkdata: Option<String>,
        createattrs: Fattr4,
    },
    Remove(String),
    Rename { oldname: String, newname: String },
    Link(String),
    ReadLink,
    /// This client has reclaimed all it means to.
    MarkReclaimComplete(u64),
    /// Look whether the name exists in the current directory.
    SecInfo(String),
    LayoutGet(LayoutRequest),
    GetDeviceInfo { device_id: Vec<u8>, layout_type: u32, maxcount: u32, notify_types: Vec<u32> },
    LayoutReturn { reclaim: bool, layout_type: u32, iomode: u32, return_body: LayoutReturn4Body },
    LayoutCommit {
        offset: u64,
        length: u64,
        last_write_offset: Option<u64>,
        time_modify: Option<(i64, u32)>,
        layout_type: u32,
    },
}

/// What to do with an operation.
#[derive(Debug)]
pub enum Routed {
    /// It is answered.
    Done(OperationResult),
    /// It is answered once the connection is bound to the session, and where
    /// `back` says so, to its back channel.
    Bind { sessionid: SessionId, back: bool, result: OperationResult },
    /// A handler has to be asked.
    Call(HandlerCall),
}

// ---------------------------------------------------------------------------
// What is answered at once
// ---------------------------------------------------------------------------

/// The number of an operation that NFSv4.2 brought.
pub open spec fn later_opcode(op: Operation) -> Option<u32> {
    match op {
        Operation::Allocate { .. } => Some(opcode::ALLOCATE),
        Operation::Copy { .. } => Some(opcode::COPY),
        Operation::Deallocate { .. } => Some(opcode::DEALLOCATE),
        Operation::IoAdvise { .. } => Some(opcode::IO_ADVISE),
        Operation::ReadPlus { .. } => Some(opcode::READ_PLUS),
        Operation::Seek { .. } => Some(opcode::SEEK),
        Operation::Clone { .. } => Some(opcode::CLONE),
        _ => None,
    }
}

/// The number of an operation that exists in NFSv4.2 alone.
pub fn minor_version_2_opcode(op: &Operation) -> (r: Option<u32>)
    ensures
        r == later_opcode(*op),
{
    match op {
        Operation::Allocate { .. } => Some(opcode::ALLOCATE),
        Operation::Copy { .. } => Some(opcode::COPY),
        Operation::Deallocate { .. } => Some(opcode::DEALLOCATE),
        Operation::IoAdvise { .. } => Some(opcode::IO_ADVISE),
        Operation::ReadPlus { .. } => Some(opcode::READ_PLUS),
        Operation::Seek { .. } => Some(opcode::SEEK),
        Operation::Clone { .. } => Some(opcode::CLONE),
        _ => None,
    }
}

/// I/O that needs a stateid, on a file whose data may be elsewhere.
pub open spec fn io_status(resolves: bool, f: Facts) -> Option<Nfs4Status> {
    match f.disposition {
        FallbackIoDisposition::Delay => Some(Nfs4Status::Delay),
        FallbackIoDisposition::FailFast => Some(Nfs4Status::Io),
        FallbackIoDisposition::Serve => if resolves {
            None
        } else {
            Some(Nfs4Status::BadStateId)
        },
        FallbackIoDisposition::Proxy => if !resolves {
            Some(Nfs4Status::BadStateId)
        } else if !f.stub {
            Some(Nfs4Status::Io)
        } else {
            None
        },
    }
}

pub open spec fn unresolved(c: ContextView, stateid: StateId) -> Option<Nfs4Status> {
    if c.resolved(stateid@) is None {
        Some(Nfs4Status::BadStateId)
    } else {
        None
    }
}

/// The status that an operation is answered with at once, where it is.
pub open spec fn decided(op: Operation, c: ContextView, f: Facts) -> Option<Nfs4Status> {
    if c.minor_version < NFS_V4_MINOR_VERSION_2 && later_opcode(op) is Some {
        Some(Nfs4Status::OpIllegal)
    } else {
        match op {
            Operation::DestroySession(_) => if f.session_known && !f.conn_bound {
                Some(Nfs4Status::ConnNotBoundToSession)
            } else {
                None
            },
            Operation::BindConnToSession { .. } => if f.session_known {
                Some(Nfs4Status::NfsOk)
            } else {
                Some(Nfs4Status::BadSession)
            },
            Operation::DestroyClientId(_) => if !f.client_known {
                Some(Nfs4Status::StaleClientId)
            } else if f.client_sessions > 0 {
                Some(Nfs4Status::ClientIdBusy)
            } else {
                None
            },
            Operation::Verify { attrs } => if attrs::parse_verify(
                octets::bytes_of(attrs),
            ).0 is Err {
                Some(Nfs4Status::BadXdr)
            } else {
                None
            },
            Operation::Nverify { attrs } => if attrs::parse_verify(
                octets::bytes_of(attrs),
            ).0 is Err {
                Some(Nfs4Status::BadXdr)
            } else {
                None
            },
            Operation::SetAttr { stateid: _, attrs } => if attrs::unpacked(
                octets::bytes_of(attrs),
            ) is None {
                Some(Nfs4Status::BadXdr)
            } else {
                None
            },
            Operation::Open { claim, .. } => open::grace_verdict(
                claim.claim_type,
                f.in_grace,
                f.session_client is Some && f.reclaim_complete,
            ),
            Operation::Close { stateid, .. } => unresolved(c, stateid),
            Operation::OpenDowngrade { stateid, .. } => unresolved(c, stateid),
            Operation::Read { stateid, .. } => io_status(c.resolved(stateid@) is Some, f),
            Operation::Write { stateid, .. } => io_status(c.resolved(stateid@) is Some, f),
            Operation::Copy { source_server_count, .. } => if source_server_count > 0 {
                Some(Nfs4Status::NotSupp)
            } else {
                None
            },
            Operation::Allocate { .. } => if f.striped {
                Some(Nfs4Status::NotSupp)
            } else {
                None
            },
            Operation::Deallocate { .. } => if f.striped {
                Some(Nfs4Status::NotSupp)
            } else {
                None
            },
            Operation::Seek { what, .. } => if f.striped {
                Some(Nfs4Status::NotSupp)
            } else if what > 1 {
                Some(Nfs4Status::UnionNotsupp)
            } else {
                None
            },
            Operation::Lock { stateid, .. } => if f.scsi_class {
                Some(Nfs4Status::NotSupp)
            } else {
                unresolved(c, stateid)
            },
            Operation::LockT { .. } => if f.scsi_class {
                Some(Nfs4Status::NotSupp)
            } else {
                None
            },
            Operation::LockU { stateid, .. } => unresolved(c, stateid),
            Operation::FreeStateId(stateid) => unresolved(c, stateid),
            Operation::Rename { .. } => if !f.rename_preserves_data {
                Some(Nfs4Status::NotSupp)
            } else {
                None
            },
            Operation::Link(_) => if !f.link_allowed {
                Some(Nfs4Status::NotSupp)
            } else {
                None
            },
            Operation::ReclaimComplete(one_fs) => if f.session_client is None {
                Some(Nfs4Status::OpNotInSession)
            } else if one_fs {
                Some(Nfs4Status::NfsOk)
            } else {
                None
            },
            Operation::SecInfo(_) => if c.current_fh is None {
                Some(Nfs4Status::NoFileHandle)
            } else {
                None
            },
            Operation::SecInfoNoName(style) => if c.current_fh is None {
                Some(Nfs4Status::NoFileHandle)
            } else if style == 1 && f.is_root {
                Some(Nfs4Status::NoEnt)
            } else {
                Some(Nfs4Status::NfsOk)
            },
            Operation::Unsupported(n) => if n < 3 || n > opcode::CLONE {
                Some(Nfs4Status::OpIllegal)
            } else {
                Some(Nfs4Status::NotSupp)
            },
            Operation::BadXdr(_) => Some(Nfs4Status::BadXdr),
            Operation::InvalidName(_) => Some(Nfs4Status::Inval),
            Operation::DelegPurge { .. } => Some(Nfs4Status::NotSupp),
            Operation::DelegReturn { .. } => Some(Nfs4Status::NotSupp),
            Operation::BackchannelCtl { .. } => Some(Nfs4Status::NotSupp),
            Operation::IoAdvise { .. } => Some(Nfs4Status::NotSupp),
            _ => None,
        }
    }
}

/// The result by which an operation is answered at once with `s`. What does not
/// exist in the minor version, and what no handler is there for, goes out under its
/// own number.
pub open spec fn stands_for(op: Operation, c: ContextView, s: Nfs4Status, r: OperationResult) -> bool {
    if c.minor_version < NFS_V4_MINOR_VERSION_2 && later_opcode(op) is Some {
        r == OperationResult::Unsupported { opcode: later_opcode(op)->0, status: s }
    } else {
        match op {
            Operation::DestroySession(_) => r == OperationResult::DestroySession(s),
            Operation::BindConnToSession { sessionid, dir, use_conn_in_rdma_mode } => r
                == OperationResult::BindConnToSession(
                s,
                if s is NfsOk {
                    Some(sessionid)
                } else {
                    None
                },
                dir,
                use_conn_in_rdma_mode,
            ),
            Operation::DestroyClientId(_) => r == OperationResult::DestroyClientId(s),
            Operation::Verify { .. } => r == OperationResult::Verify(s),
            Operation::Nverify { .. } => r == OperationResult::Nverify(s),
            Operation::SetAttr { .. } => r matches OperationResult::SetAttr(t, v) && t == s
                && v@.len() == 0,
            Operation::Open { .. } => r == OperationResult::Open(s, None),
            Operation::Close { .. } => r == OperationResult::Close(s, None),
            Operation::OpenDowngrade { .. } => r == OperationResult::OpenDowngrade(s, None),
            Operation::Read { .. } => r == OperationResult::Read(s, None),
            Operation::Write { .. } => r == OperationResult::Write(s, None),
            Operation::Copy { .. } => r == OperationResult::Copy(s, None),
            Operation::Allocate { .. } => r == OperationResult::Allocate(s),
            Operation::Deallocate { .. } => r == OperationResult::Deallocate(s),
            Operation::Seek { .. } => r == OperationResult::Seek(s, None),
            Operation::Lock { .. } => r == OperationResult::Lock(s, None, None),
            Operation::LockT { .. } => r == OperationResult::LockT(s, None),
            Operation::LockU { .. } => r == OperationResult::LockU(s, None),
            Operation::FreeStateId(_) => r == OperationResult::FreeStateId(s),
            Operation::Rename { .. } => r == OperationResult::Rename(s, None, None),
            Operation::Link(_) => r == OperationResult::Link(s, None),
            Operation::ReclaimComplete(_) => r == OperationResult::ReclaimComplete(s),
            Operation::SecInfo(_) => r == OperationResult::SecInfo(s),
            Operation::SecInfoNoName(_) => r == OperationResult::SecInfoNoName(s),
            Operation::Unsupported(n) => r == OperationResult::Unsupported { opcode: n, status: s },
            Operation::BadXdr(n) => r == OperationResult::Unsupported { opcode: n, status: s },
            Operation::InvalidName(n) => r == OperationResult::Unsupported { opcode: n, status: s },
            Operation::DelegPurge { .. } => r == OperationResult::Unsupported {
                opcode: opcode::DELEGPURGE,
                status: s,
            },
            Operation::DelegReturn { .. } => r == OperationResult::Unsupported {
                opcode: opcode::DELEGRETURN,
                status: s,
            },
            Operation::BackchannelCtl { .. } => r == OperationResult::Unsupported {
                opcode: opcode::BACKCHANNEL_CTL,
                status: s,
            },
            Operation::IoAdvise { .. } => r == OperationResult::Unsupported {
                opcode: opcode::IO_ADVISE,
                status: s,
            },
            _ => false,
        }
    }
}

// ---------------------------------------------------------------------------
// What is handed on
// ---------------------------------------------------------------------------

/// The attributes that a VERIFY compares with.
pub open spec fn wants(blob: Bytes, want: Fattr4) -> bool {
    attrs::parse_verify(octets::bytes_of(blob)).0 matches Ok(f) && f == want@
}

/// The call that an operation becomes, when it is not answered at once.
pub open spec fn becomes(op: Operation, c: ContextView, f: Facts, h: HandlerCall) -> bool {
    match op {
        Operation::ExchangeId { clientowner, flags, state_protect, impl_id: _ } => h
            == HandlerCall::ExchangeId {
            client_owner: clientowner.id,
            verifier: clientowner.verifier,
            flags,
            state_protect,
        },
        Operation::CreateSession {
            clientid,
            sequence,
            flags,
            fore_chan_attrs,
            back_chan_attrs,
            cb_program,
            cb_sec,
        } => h == HandlerCall::CreateSession {
            clientid,
            sequence,
            flags,
            fore_chan_attrs,
            back_chan_attrs,
            cb_program,
            cb_sec,
        },
        Operation::Sequence { sessionid, sequenceid, slotid, highest_slotid, cachethis } => h
            == HandlerCall::Sequence {
            sessionid,
            sequenceid,
            slotid,
            highest_slotid,
            cache_this: cachethis,
        },
        Operation::DestroySession(s) => h == HandlerCall::DestroySession(s),
        Operation::DestroyClientId(n) => h == HandlerCall::RemoveClient(n),
        Operation::TestStateId(v) => h == HandlerCall::TestStateId(v),
        Operation::PutRootFh => h is PutRootFh,
        Operation::PutFh(fh) => h == HandlerCall::PutFh(fh),
        Operation::PutPubFh => h is PutPubFh,
        Operation::GetFh => h is GetFh,
        Operation::SaveFh => h is SaveFh,
        Operation::RestoreFh => h is RestoreFh,
        Operation::Lookup(name) => h == HandlerCall::Lookup(name),
        Operation::LookupP => h is LookupP,
        Operation::Access(a) => h == HandlerCall::Access(a),
        Operation::GetAttr(mask) => h == HandlerCall::GetAttr(mask),
        Operation::Verify { attrs } => h matches HandlerCall::Verify { is_nverify, want }
            && !is_nverify && wants(attrs, want),
        Operation::Nverify { attrs } => h matches HandlerCall::Verify { is_nverify, want }
            && is_nverify && wants(attrs, want),
        Operation::SetAttr { stateid, attrs } => h matches HandlerCall::SetAttr {
            stateid: s,
            attrs: a,
        } && s == stateid && attrs::unpacked(octets::bytes_of(attrs)) == Some(a@),
        Operation::ReadDir { cookie, cookieverf, dircount, maxcount, attr_request } => h
            == HandlerCall::ReadDir {
            cookie,
            cookieverf: octets::u64_of(cookieverf@),
            dircount,
            maxcount,
            attr_request,
        },
        Operation::Open { seqid, share_access, share_deny, owner, openhow, claim } => h matches HandlerCall::Open {
            seqid: q,
            share_access: a,
            share_deny: d,
            owner: o,
            openhow: how,
            claim: kind,
            delegate_type,
            delegate_stateid,
        } && q == seqid && a == share_access && d == share_deny && o == owner && how@
            == open::created_how(openhow@) && kind@ == open::claimed(claim@) && delegate_type
            == claim.delegate_type && delegate_stateid == claim.delegate_stateid,
        Operation::Close { seqid, stateid } => h matches HandlerCall::Close { seqid: q, stateid: s }
            && q == seqid && c.resolved(stateid@) == Some(s@),
        Operation::OpenDowngrade { stateid, seqid: _, share_access, share_deny } => h matches HandlerCall::OpenDowngrade {
            stateid: s,
            share_access: a,
            share_deny: d,
        } && c.resolved(stateid@) == Some(s@) && a == share_access && d == share_deny,
        Operation::Read { stateid, offset, count } => if f.disposition is Proxy {
            h == HandlerCall::ProxyRead { offset, count }
        } else {
            h matches HandlerCall::Read { stateid: s, offset: o, count: n } && c.resolved(stateid@)
                == Some(s@) && o == offset && n == count
        },
        Operation::Write { stateid, offset, stable, data } => if f.disposition is Proxy {
            h == HandlerCall::ProxyWrite { offset, data }
        } else {
            h matches HandlerCall::Write { stateid: s, offset: o, stable: t, data: d }
                && c.resolved(stateid@) == Some(s@) && o == offset && t == stable && d == data
        },
        Operation::Commit { offset, count } => h == HandlerCall::Commit { offset, count },
        Operation::Copy {
            src_stateid,
            dst_stateid,
            src_offset,
            dst_offset,
            count,
            consecutive: _,
            synchronous,
            source_server_count: _,
        } => h == HandlerCall::Copy {
            src_stateid,
            dst_stateid,
            src_offset,
            dst_offset,
            count,
            sync: synchronous,
        },
        Operation::Clone { src_stateid, dst_stateid, src_offset, dst_offset, count } => h
            == HandlerCall::Clone { src_stateid, dst_stateid, src_offset, dst_offset, count },
        Operation::Allocate { stateid, offset, length } => h == HandlerCall::Allocate {
            stateid,
            offset,
            length,
        },
        Operation::Deallocate { stateid, offset, length } => h == HandlerCall::Deallocate {
            stateid,
            offset,
            length,
        },
        Operation::Seek { stateid, offset, what } => h == HandlerCall::Seek {
            stateid,
            offset,
            what: if what == 0 {
                SeekType::Data
            } else {
                SeekType::Hole
            },
        },
        Operation::ReadPlus { stateid, offset, count } => h == HandlerCall::ReadPlus {
            stateid,
            offset,
            count,
        },
        Operation::Lock { locktype, reclaim, offset, length, stateid, owner, new_lock_owner } => h matches HandlerCall::Lock {
            locktype: t,
            reclaim: r,
            offset: o,
            length: l,
            stateid: s,
            owner: w,
            new_lock_owner: n,
        } && t == asked_lock(locktype) && r == reclaim && o == offset && l == length && c.resolved(
            stateid@,
        ) == Some(s@) && w == owner && n == new_lock_owner,
        Operation::LockT { locktype, offset, length, owner } => h == HandlerCall::LockT {
            locktype: asked_lock(locktype),
            offset,
            length,
            owner,
        },
        Operation::LockU { locktype, seqid, stateid, offset, length } => h matches HandlerCall::LockU {
            locktype: t,
            seqid: q,
            stateid: s,
            offset: o,
            length: l,
        } && t == asked_lock(locktype) && q == seqid && c.resolved(stateid@) == Some(s@) && o
            == offset && l == length,
        Operation::FreeStateId(stateid) => h matches HandlerCall::FreeStateId(s) && c.resolved(
            stateid@,
        ) == Some(s@),
        Operation::Create { objtype, objname, linkdata, createattrs } => h == HandlerCall::Create {
            objtype,
            objname,
            linkdata,
            createattrs,
        },
        Operation::Remove(name) => h == HandlerCall::Remove(name),
        Operation::Rename { oldname, newname } => h == HandlerCall::Rename { oldname, newname },
        Operation::Link(name) => h == HandlerCall::Link(name),
        Operation::ReadLink => h is ReadLink,
        Operation::ReclaimComplete(_) => h matches HandlerCall::MarkReclaimComplete(n)
            && f.session_client == Some(n),
        Operation::SecInfo(name) => h == HandlerCall::SecInfo(name),
        Operation::LayoutGet {
            signal_layout_avail,
            layout_type,
            iomode,
            offset,
            length,
            minlength,
            stateid,
            maxcount,
        } => h == HandlerCall::LayoutGet(
            LayoutRequest {
                signal_layout_avail,
                layout_type,
                iomode,
                offset,
                length,
                minlength,
                stateid,
                maxcount,
            },
        ),
        Operation::GetDeviceInfo { device_id, layout_type, maxcount, notify_types } => h
            == HandlerCall::GetDeviceInfo { device_id, layout_type, maxcount, notify_types },
        Operation::LayoutReturn { reclaim, layout_type, iomode, return_body } => h
            == HandlerCall::LayoutReturn { reclaim, layout_type, iomode, return_body },
        Operation::LayoutCommit {
            offset,
            length,
            reclaim: _,
            stateid: _,
            last_write_offset,
            time_modify,
            layout_type,
            layoutupdate: _,
        } => h == HandlerCall::LayoutCommit {
            offset,
            length,
            last_write_offset,
            time_modify,
            layout_type,
        },
        _ => false,
    }
}

/// READ_LT is a read lock, every other word a write lock.
pub open spec fn asked_lock(locktype: u32) -> LockType {
    if locktype == 1 {
        LockType::Read
    } else {
        LockType::Write
    }
}

/// Whether an operation replaces the current filehandle by another.
pub open spec fn moves_fh(op: Operation) -> bool {
    op is PutRootFh || op is PutFh || op is PutPubFh || op is Lookup || op is LookupP
}

/// The context once an operation was routed. The current stateid belongs to the
/// current filehandle: it is forgotten with it, and put aside with it. SECINFO
/// without a name leaves no current filehandle.
pub open spec fn context_routed(op: Operation, c: ContextView, f: Facts) -> ContextView {
    if moves_fh(op) {
        ContextView { current_stateid: None, ..c }
    } else if op is SaveFh {
        ContextView { saved_stateid: c.current_stateid, ..c }
    } else if op is SecInfoNoName && decided(op, c, f) == Some(Nfs4Status::NfsOk) {
        ContextView { current_fh: None, ..c }
    } else {
        c
    }
}

/// BIND_CONN_TO_SESSION for the back channel, alone or with the fore channel.
pub open spec fn binds_back(dir: u32) -> bool {
    dir == 2 || dir == 3
}

/// What routing an operation gives.
pub open spec fn routed(op: Operation, c: ContextView, f: Facts, r: Routed) -> bool {
    match r {
        Routed::Done(result) => {
            &&& decided(op, c, f) is Some
            &&& !(op is BindConnToSession && f.session_known)
            &&& stands_for(op, c, decided(op, c, f)->0, result)
        },
        Routed::Bind { sessionid, back, result } => {
            &&& op is BindConnToSession
            &&& f.session_known
            &&& sessionid == op->BindConnToSession_sessionid
            &&& back == binds_back(op->dir)
            &&& stands_for(op, c, Nfs4Status::NfsOk, result)
        },
        Routed::Call(h) => decided(op, c, f) is None && becomes(op, c, f, h),
    }
}

fn io_verdict(resolves: bool, f: &Facts) -> (r: Option<Nfs4Status>)
    ensures
        r == io_status(resolves, *f),
{
    match f.disposition {
        FallbackIoDisposition::Delay => Some(Nfs4Status::Delay),
        FallbackIoDisposition::FailFast => Some(Nfs4Status::Io),
        FallbackIoDisposition::Serve => if resolves {
            None
        } else {
            Some(Nfs4Status::BadStateId)
        },
        FallbackIoDisposition::Proxy => if !resolves {
            Some(Nfs4Status::BadStateId)
        } else if !f.stub {
            Some(Nfs4Status::Io)
        } else {
            None
        },
    }
}

fn route_verify(is_nverify: bool, attrs: Bytes) -> (r: Routed)
    ensures
        match r {
            Routed::Done(result) => attrs::parse_verify(octets::bytes_of(attrs)).0 is Err && result
                == attrs::verify_result(is_nverify, Nfs4Status::BadXdr),
            Routed::Call(h) => h matches HandlerCall::Verify { is_nverify: n, want } && n
                == is_nverify && wants(attrs, want),
            Routed::Bind { .. } => false,
        },
{
    match decode_verify(attrs) {
        Some(want) => Routed::Call(HandlerCall::Verify { is_nverify, want }),
        None => Routed::Done(verify_answer(is_nverify, Nfs4Status::BadXdr)),
    }
}

/// Which of the functions below an operation is for.
#[derive(Debug, Clone, Copy, PartialEq, Eq, Structural)]
enum Family {
    Session,
    Handle,
    Attrs,
    State,
    Io,
    Space,
    Lock,
    Name,
    Security,
    Layout,
    Other,
}

spec fn family_of(op: Operation) -> Family {
    match op {
        Operation::ExchangeId { .. } => Family::Session,
        Operation::CreateSession { .. } => Family::Session,
        Operation::Sequence { .. } => Family::Session,
        Operation::DestroySession(_) => Family::Session,
        Operation::BindConnToSession { .. } => Family::Session,
        Operation::DestroyClientId(_) => Family::Session,
        Operation::ReclaimComplete(_) => Family::Session,
        Operation::PutRootFh => Family::Handle,
        Operation::PutFh(_) => Family::Handle,
        Operation::PutPubFh => Family::Handle,
        Operation::GetFh => Family::Handle,
        Operation::SaveFh => Family::Handle,
        Operation::RestoreFh => Family::Handle,
        Operation::Lookup(_) => Family::Handle,
        Operation::LookupP => Family::Handle,
        Operation::Access(_) => Family::Attrs,
        Operation::GetAttr(_) => Family::Attrs,
        Operation::Verify { .. } => Family::Attrs,
        Operation::Nverify { .. } => Family::Attrs,
        Operation::SetAttr { .. } => Family::Attrs,
        Operation::ReadDir { .. } => Family::Attrs,
        Operation::Open { .. } => Family::State,
        Operation::Close { .. } => Family::State,
        Operation::OpenDowngrade { .. } => Family::State,
        Operation::TestStateId(_) => Family::State,
        Operation::FreeStateId(_) => Family::State,
        Operation::Read { .. } => Family::Io,
        Operation::Write { .. } => Family::Io,
        Operation::Commit { .. } => Family::Io,
        Operation::ReadPlus { .. } => Family::Io,
        Operation::Copy { .. } => Family::Space,
        Operation::Clone { .. } => Family::Space,
        Operation::Allocate { .. } => Family::Space,
        Operation::Deallocate { .. } => Family::Space,
        Operation::Seek { .. } => Family::Space,
        Operation::Lock { .. } => Family::Lock,
        Operation::LockT { .. } => Family::Lock,
        Operation::LockU { .. } => Family::Lock,
        Operation::Create { .. } => Family::Name,
        Operation::Remove(_) => Family::Name,
        Operation::Rename { .. } => Family::Name,
        Operation::Link(_) => Family::Name,
        Operation::ReadLink => Family::Name,
        Operation::SecInfo(_) => Family::Security,
        Operation::SecInfoNoName(_) => Family::Security,
        Operation::LayoutGet { .. } => Family::Layout,
        Operation::GetDeviceInfo { .. } => Family::Layout,
        Operation::LayoutReturn { .. } => Family::Layout,
        Operation::LayoutCommit { .. } => Family::Layout,
        Operation::Unsupported(_) => Family::Other,
        Operation::BadXdr(_) => Family::Other,
        Operation::InvalidName(_) => Family::Other,
        Operation::DelegPurge { .. } => Family::Other,
        Operation::DelegReturn { .. } => Family::Other,
        Operation::BackchannelCtl { .. } => Family::Other,
        Operation::IoAdvise { .. } => Family::Other,
    }
}

fn family(op: &Operation) -> (f: Family)
    ensures
        f == family_of(*op),
{
    match op {
        Operation::ExchangeId { .. } => Family::Session,
        Operation::CreateSession { .. } => Family::Session,
        Operation::Sequence { .. } => Family::Session,
        Operation::DestroySession(_) => Family::Session,
        Operation::BindConnToSession { .. } => Family::Session,
        Operation::DestroyClientId(_) => Family::Session,
        Operation::ReclaimComplete(_) => Family::Session,
        Operation::PutRootFh => Family::Handle,
        Operation::PutFh(_) => Family::Handle,
        Operation::PutPubFh => Family::Handle,
        Operation::GetFh => Family::Handle,
        Operation::SaveFh => Family::Handle,
        Operation::RestoreFh => Family::Handle,
        Operation::Lookup(_) => Family::Handle,
        Operation::LookupP => Family::Handle,
        Operation::Access(_) => Family::Attrs,
        Operation::GetAttr(_) => Family::Attrs,
        Operation::Verify { .. } => Family::Attrs,
        Operation::Nverify { .. } => Family::Attrs,
        Operation::SetAttr { .. } => Family::Attrs,
        Operation::ReadDir { .. } => Family::Attrs,
        Operation::Open { .. } => Family::State,
        Operation::Close { .. } => Family::State,
        Operation::OpenDowngrade { .. } => Family::State,
        Operation::TestStateId(_) => Family::State,
        Operation::FreeStateId(_) => Family::State,
        Operation::Read { .. } => Family::Io,
        Operation::Write { .. } => Family::Io,
        Operation::Commit { .. } => Family::Io,
        Operation::ReadPlus { .. } => Family::Io,
        Operation::Copy { .. } => Family::Space,
        Operation::Clone { .. } => Family::Space,
        Operation::Allocate { .. } => Family::Space,
        Operation::Deallocate { .. } => Family::Space,
        Operation::Seek { .. } => Family::Space,
        Operation::Lock { .. } => Family::Lock,
        Operation::LockT { .. } => Family::Lock,
        Operation::LockU { .. } => Family::Lock,
        Operation::Create { .. } => Family::Name,
        Operation::Remove(_) => Family::Name,
        Operation::Rename { .. } => Family::Name,
        Operation::Link(_) => Family::Name,
        Operation::ReadLink => Family::Name,
        Operation::SecInfo(_) => Family::Security,
        Operation::SecInfoNoName(_) => Family::Security,
        Operation::LayoutGet { .. } => Family::Layout,
        Operation::GetDeviceInfo { .. } => Family::Layout,
        Operation::LayoutReturn { .. } => Family::Layout,
        Operation::LayoutCommit { .. } => Family::Layout,
        Operation::Unsupported(_) => Family::Other,
        Operation::BadXdr(_) => Family::Other,
        Operation::InvalidName(_) => Family::Other,
        Operation::DelegPurge { .. } => Family::Other,
        Operation::DelegReturn { .. } => Family::Other,
        Operation::BackchannelCtl { .. } => Family::Other,
        Operation::IoAdvise { .. } => Family::Other,
    }
}

/// Sessions, clients and connections.
fn route_session(op: Operation, context: &CompoundContext, facts: &Facts) -> (r: Routed)
    requires
        family_of(op) is Session,
        !(context@.minor_version < NFS_V4_MINOR_VERSION_2 && later_opcode(op) is Some),
    ensures
        routed(op, context@, *facts, r),
{
    match op {
        Operation::ExchangeId { clientowner, flags, state_protect, impl_id: _ } => Routed::Call(
            HandlerCall::ExchangeId {
                client_owner: clientowner.id,
                verifier: clientowner.verifier,
                flags,
                state_protect,
            },
        ),
        Operation::CreateSession {
            clientid,
            sequence,
            flags,
            fore_chan_attrs,
            back_chan_attrs,
            cb_program,
            cb_sec,
        } => Routed::Call(
            HandlerCall::CreateSession {
                clientid,
                sequence,
                flags,
                fore_chan_attrs,
                back_chan_attrs,
                cb_program,
                cb_sec,
            },
        ),
        Operation::Sequence { sessionid, sequenceid, slotid, highest_slotid, cachethis } => Routed::Call(
            HandlerCall::Sequence {
                sessionid,
                sequenceid,
                slotid,
                highest_slotid,
                cache_this: cachethis,
            },
        ),
        Operation::DestroySession(sessionid) => if facts.session_known && !facts.conn_bound {
            Routed::Done(OperationResult::DestroySession(Nfs4Status::ConnNotBoundToSession))
        } else {
            Routed::Call(HandlerCall::DestroySession(sessionid))
        },
        Operation::BindConnToSession { sessionid, dir, use_conn_in_rdma_mode } => if facts.session_known {
            Routed::Bind {
                sessionid,
                back: dir == 2 || dir == 3,
                result: OperationResult::BindConnToSession(
                    Nfs4Status::NfsOk,
                    Some(sessionid),
                    dir,
                    use_conn_in_rdma_mode,
                ),
            }
        } else {
            Routed::Done(
                OperationResult::BindConnToSession(
                    Nfs4Status::BadSession,
                    None,
                    dir,
                    use_conn_in_rdma_mode,
                ),
            )
        },
        Operation::DestroyClientId(clientid) => if !facts.client_known {
            Routed::Done(OperationResult::DestroyClientId(Nfs4Status::StaleClientId))
        } else if facts.client_sessions > 0 {
            Routed::Done(OperationResult::DestroyClientId(Nfs4Status::ClientIdBusy))
        } else {
            Routed::Call(HandlerCall::RemoveClient(clientid))
        },
        Operation::ReclaimComplete(one_fs) => match facts.session_client {
            None => Routed::Done(OperationResult::ReclaimComplete(Nfs4Status::OpNotInSession)),
            Some(client_id) => if one_fs {
                Routed::Done(OperationResult::ReclaimComplete(Nfs4Status::NfsOk))
            } else {
                Routed::Call(HandlerCall::MarkReclaimComplete(client_id))
            },
        },
        _ => Routed::Done(OperationResult::Unsupported { opcode: 0, status: Nfs4Status::OpIllegal }),
    }
}

/// Filehandles and names.
fn route_handle(op: Operation, context: &mut CompoundContext, facts: &Facts) -> (r: Routed)
    requires
        family_of(op) is Handle,
    ensures
        routed(op, old(context)@, *facts, r),
        final(context)@ == context_routed(op, old(context)@, *facts),
{
    match op {
        Operation::PutRootFh => {
            context.current_stateid = None;
            Routed::Call(HandlerCall::PutRootFh)
        },
        Operation::PutFh(filehandle) => {
            context.current_stateid = None;
            Routed::Call(HandlerCall::PutFh(filehandle))
        },
        Operation::PutPubFh => {
            context.current_stateid = None;
            Routed::Call(HandlerCall::PutPubFh)
        },
        Operation::GetFh => Routed::Call(HandlerCall::GetFh),
        Operation::SaveFh => {
            context.saved_stateid = context.current_stateid;
            Routed::Call(HandlerCall::SaveFh)
        },
        Operation::RestoreFh => Routed::Call(HandlerCall::RestoreFh),
        Operation::Lookup(component) => {
            context.current_stateid = None;
            Routed::Call(HandlerCall::Lookup(component))
        },
        Operation::LookupP => {
            context.current_stateid = None;
            Routed::Call(HandlerCall::LookupP)
        },
        _ => Routed::Done(OperationResult::Unsupported { opcode: 0, status: Nfs4Status::OpIllegal }),
    }
}

/// Attributes and rights.
fn route_attrs(op: Operation, context: &CompoundContext, facts: &Facts) -> (r: Routed)
    requires
        family_of(op) is Attrs,
        !(context@.minor_version < NFS_V4_MINOR_VERSION_2 && later_opcode(op) is Some),
    ensures
        routed(op, context@, *facts, r),
{
    match op {
        Operation::Access(access) => Routed::Call(HandlerCall::Access(access)),
        Operation::GetAttr(attr_request) => Routed::Call(HandlerCall::GetAttr(attr_request)),
        Operation::Verify { attrs } => route_verify(false, attrs),
        Operation::Nverify { attrs } => route_verify(true, attrs),
        Operation::SetAttr { stateid, attrs } => match unpack_fattr(attrs) {
            Some(attrs) => Routed::Call(HandlerCall::SetAttr { stateid, attrs }),
            None => Routed::Done(OperationResult::SetAttr(Nfs4Status::BadXdr, Vec::new())),
        },
        Operation::ReadDir { cookie, cookieverf, dircount, maxcount, attr_request } => Routed::Call(
            HandlerCall::ReadDir {
                cookie,
                cookieverf: u64_at(&cookieverf),
                dircount,
                maxcount,
                attr_request,
            },
        ),
        _ => Routed::Done(OperationResult::Unsupported { opcode: 0, status: Nfs4Status::OpIllegal }),
    }
}

/// Opens and stateids.
fn route_state(op: Operation, context: &CompoundContext, facts: &Facts) -> (r: Routed)
    requires
        family_of(op) is State,
        !(context@.minor_version < NFS_V4_MINOR_VERSION_2 && later_opcode(op) is Some),
    ensures
        routed(op, context@, *facts, r),
{
    match op {
        Operation::Open { seqid, share_access, share_deny, owner, openhow, claim } => {
            let complete = facts.session_client.is_some() && facts.reclaim_complete;
            match grace_refusal(claim.claim_type, facts.in_grace, complete) {
                Some(status) => Routed::Done(OperationResult::Open(status, None)),
                None => Routed::Call(
                    HandlerCall::Open {
                        seqid,
                        share_access,
                        share_deny,
                        owner,
                        openhow: convert_openhow(openhow),
                        delegate_type: claim.delegate_type,
                        delegate_stateid: claim.delegate_stateid,
                        claim: convert_claim(claim),
                    },
                ),
            }
        },
        Operation::Close { seqid, stateid } => match context.resolve_stateid(stateid) {
            Some(stateid) => Routed::Call(HandlerCall::Close { seqid, stateid }),
            None => Routed::Done(OperationResult::Close(Nfs4Status::BadStateId, None)),
        },
        Operation::OpenDowngrade { stateid, seqid: _, share_access, share_deny } => match context.resolve_stateid(
        stateid) {
            Some(stateid) => Routed::Call(
                HandlerCall::OpenDowngrade { stateid, share_access, share_deny },
            ),
            None => Routed::Done(OperationResult::OpenDowngrade(Nfs4Status::BadStateId, None)),
        },
        Operation::TestStateId(stateids) => Routed::Call(HandlerCall::TestStateId(stateids)),
        Operation::FreeStateId(stateid) => match context.resolve_stateid(stateid) {
            Some(stateid) => Routed::Call(HandlerCall::FreeStateId(stateid)),
            None => Routed::Done(OperationResult::FreeStateId(Nfs4Status::BadStateId)),
        },
        _ => Routed::Done(OperationResult::Unsupported { opcode: 0, status: Nfs4Status::OpIllegal }),
    }
}

/// Reading and writing.
fn route_io(op: Operation, context: &CompoundContext, facts: &Facts) -> (r: Routed)
    requires
        family_of(op) is Io,
        !(context@.minor_version < NFS_V4_MINOR_VERSION_2 && later_opcode(op) is Some),
    ensures
        routed(op, context@, *facts, r),
{
    match op {
        Operation::Read { stateid, offset, count } => {
            let resolved = context.resolve_stateid(stateid);
            match io_verdict(resolved.is_some(), facts) {
                Some(status) => Routed::Done(OperationResult::Read(status, None)),
                None => match (facts.disposition, resolved) {
                    (FallbackIoDisposition::Proxy, _) => Routed::Call(
                        HandlerCall::ProxyRead { offset, count },
                    ),
                    (_, Some(stateid)) => Routed::Call(
                        HandlerCall::Read { stateid, offset, count },
                    ),
                    (_, None) => Routed::Done(OperationResult::Read(Nfs4Status::BadStateId, None)),
                },
            }
        },
        Operation::Write { stateid, offset, stable, data } => {
            let resolved = context.resolve_stateid(stateid);
            match io_verdict(resolved.is_some(), facts) {
                Some(status) => Routed::Done(OperationResult::Write(status, None)),
                None => match (facts.disposition, resolved) {
                    (FallbackIoDisposition::Proxy, _) => Routed::Call(
                        HandlerCall::ProxyWrite { offset, data },
                    ),
                    (_, Some(stateid)) => Routed::Call(
                        HandlerCall::Write { stateid, offset, stable, data },
                    ),
                    (_, None) => Routed::Done(OperationResult::Write(Nfs4Status::BadStateId, None)),
                },
            }
        },
        Operation::Commit { offset, count } => Routed::Call(HandlerCall::Commit { offset, count }),
        Operation::ReadPlus { stateid, offset, count } => Routed::Call(
            HandlerCall::ReadPlus { stateid, offset, count },
        ),
        _ => Routed::Done(OperationResult::Unsupported { opcode: 0, status: Nfs4Status::OpIllegal }),
    }
}

/// What NFSv4.2 does with the space of files.
fn route_space(op: Operation, context: &CompoundContext, facts: &Facts) -> (r: Routed)
    requires
        family_of(op) is Space,
        !(context@.minor_version < NFS_V4_MINOR_VERSION_2 && later_opcode(op) is Some),
    ensures
        routed(op, context@, *facts, r),
{
    match op {
        Operation::Copy {
            src_stateid,
            dst_stateid,
            src_offset,
            dst_offset,
            count,
            consecutive: _,
            synchronous,
            source_server_count,
        } => if source_server_count > 0 {
            Routed::Done(OperationResult::Copy(Nfs4Status::NotSupp, None))
        } else {
            Routed::Call(
                HandlerCall::Copy {
                    src_stateid,
                    dst_stateid,
                    src_offset,
                    dst_offset,
                    count,
                    sync: synchronous,
                },
            )
        },
        Operation::Clone { src_stateid, dst_stateid, src_offset, dst_offset, count } => Routed::Call(
            HandlerCall::Clone { src_stateid, dst_stateid, src_offset, dst_offset, count },
        ),
        Operation::Allocate { stateid, offset, length } => if facts.striped {
            Routed::Done(OperationResult::Allocate(Nfs4Status::NotSupp))
        } else {
            Routed::Call(HandlerCall::Allocate { stateid, offset, length })
        },
        Operation::Deallocate { stateid, offset, length } => if facts.striped {
            Routed::Done(OperationResult::Deallocate(Nfs4Status::NotSupp))
        } else {
            Routed::Call(HandlerCall::Deallocate { stateid, offset, length })
        },
        Operation::Seek { stateid, offset, what } => if facts.striped {
            Routed::Done(OperationResult::Seek(Nfs4Status::NotSupp, None))
        } else {
            match what {
                0 => Routed::Call(HandlerCall::Seek { stateid, offset, what: SeekType::Data }),
                1 => Routed::Call(HandlerCall::Seek { stateid, offset, what: SeekType::Hole }),
                _ => Routed::Done(OperationResult::Seek(Nfs4Status::UnionNotsupp, None)),
            }
        },
        _ => Routed::Done(OperationResult::Unsupported { opcode: 0, status: Nfs4Status::OpIllegal }),
    }
}

/// Byte-range locks.
fn route_lock(op: Operation, context: &CompoundContext, facts: &Facts) -> (r: Routed)
    requires
        family_of(op) is Lock,
        !(context@.minor_version < NFS_V4_MINOR_VERSION_2 && later_opcode(op) is Some),
    ensures
        routed(op, context@, *facts, r),
{
    match op {
        Operation::Lock { locktype, reclaim, offset, length, stateid, owner, new_lock_owner } => if facts.scsi_class {
            Routed::Done(OperationResult::Lock(Nfs4Status::NotSupp, None, None))
        } else {
            match context.resolve_stateid(stateid) {
                Some(stateid) => Routed::Call(
                    HandlerCall::Lock {
                        locktype: LockType::from_wire(locktype),
                        reclaim,
                        offset,
                        length,
                        stateid,
                        owner,
                        new_lock_owner,
                    },
                ),
                None => Routed::Done(OperationResult::Lock(Nfs4Status::BadStateId, None, None)),
            }
        },
        Operation::LockT { locktype, offset, length, owner } => if facts.scsi_class {
            Routed::Done(OperationResult::LockT(Nfs4Status::NotSupp, None))
        } else {
            Routed::Call(
                HandlerCall::LockT {
                    locktype: LockType::from_wire(locktype),
                    offset,
                    length,
                    owner,
                },
            )
        },
        Operation::LockU { locktype, seqid, stateid, offset, length } => match context.resolve_stateid(
        stateid) {
            Some(stateid) => Routed::Call(
                HandlerCall::LockU {
                    locktype: LockType::from_wire(locktype),
                    seqid,
                    stateid,
                    offset,
                    length,
                },
            ),
            None => Routed::Done(OperationResult::LockU(Nfs4Status::BadStateId, None)),
        },
        _ => Routed::Done(OperationResult::Unsupported { opcode: 0, status: Nfs4Status::OpIllegal }),
    }
}

/// Changes to the namespace.
fn route_name(op: Operation, context: &CompoundContext, facts: &Facts) -> (r: Routed)
    requires
        family_of(op) is Name,
        !(context@.minor_version < NFS_V4_MINOR_VERSION_2 && later_opcode(op) is Some),
    ensures
        routed(op, context@, *facts, r),
{
    match op {
        Operation::Create { objtype, objname, linkdata, createattrs } => Routed::Call(
            HandlerCall::Create { objtype, objname, linkdata, createattrs },
        ),
        Operation::Remove(name) => Routed::Call(HandlerCall::Remove(name)),
        Operation::Rename { oldname, newname } => if !facts.rename_preserves_data {
            Routed::Done(OperationResult::Rename(Nfs4Status::NotSupp, None, None))
        } else {
            Routed::Call(HandlerCall::Rename { oldname, newname })
        },
        Operation::Link(newname) => if !facts.link_allowed {
            Routed::Done(OperationResult::Link(Nfs4Status::NotSupp, None))
        } else {
            Routed::Call(HandlerCall::Link(newname))
        },
        Operation::ReadLink => Routed::Call(HandlerCall::ReadLink),
        _ => Routed::Done(OperationResult::Unsupported { opcode: 0, status: Nfs4Status::OpIllegal }),
    }
}

/// Security flavors.
fn route_security(op: Operation, context: &mut CompoundContext, facts: &Facts) -> (r: Routed)
    requires
        family_of(op) is Security,
    ensures
        routed(op, old(context)@, *facts, r),
        final(context)@ == context_routed(op, old(context)@, *facts),
{
    match op {
        Operation::SecInfo(component) => if !context.has_current_fh() {
            Routed::Done(OperationResult::SecInfo(Nfs4Status::NoFileHandle))
        } else {
            Routed::Call(HandlerCall::SecInfo(component))
        },
        Operation::SecInfoNoName(style) => if !context.has_current_fh() {
            Routed::Done(OperationResult::SecInfoNoName(Nfs4Status::NoFileHandle))
        } else if style == 1 && facts.is_root {
            Routed::Done(OperationResult::SecInfoNoName(Nfs4Status::NoEnt))
        } else {
            context.clear_current_fh();
            Routed::Done(OperationResult::SecInfoNoName(Nfs4Status::NfsOk))
        },
        _ => Routed::Done(OperationResult::Unsupported { opcode: 0, status: Nfs4Status::OpIllegal }),
    }
}

/// pNFS.
fn route_layout(op: Operation, context: &CompoundContext, facts: &Facts) -> (r: Routed)
    requires
        family_of(op) is Layout,
        !(context@.minor_version < NFS_V4_MINOR_VERSION_2 && later_opcode(op) is Some),
    ensures
        routed(op, context@, *facts, r),
{
    match op {
        Operation::LayoutGet {
            signal_layout_avail,
            layout_type,
            iomode,
            offset,
            length,
            minlength,
            stateid,
            maxcount,
        } => Routed::Call(
            HandlerCall::LayoutGet(
                LayoutRequest {
                    signal_layout_avail,
                    layout_type,
                    iomode,
                    offset,
                    length,
                    minlength,
                    stateid,
                    maxcount,
                },
            ),
        ),
        Operation::GetDeviceInfo { device_id, layout_type, maxcount, notify_types } => Routed::Call(
            HandlerCall::GetDeviceInfo { device_id, layout_type, maxcount, notify_types },
        ),
        Operation::LayoutReturn { reclaim, layout_type, iomode, return_body } => Routed::Call(
            HandlerCall::LayoutReturn { reclaim, layout_type, iomode, return_body },
        ),
        Operation::LayoutCommit {
            offset,
            length,
            reclaim: _,
            stateid: _,
            last_write_offset,
            time_modify,
            layout_type,
            layoutupdate: _,
        } => Routed::Call(
            HandlerCall::LayoutCommit {
                offset,
                length,
                last_write_offset,
                time_modify,
                layout_type,
            },
        ),
        _ => Routed::Done(OperationResult::Unsupported { opcode: 0, status: Nfs4Status::OpIllegal }),
    }
}

/// What there is no handler for.
fn route_other(op: Operation, context: &CompoundContext, facts: &Facts) -> (r: Routed)
    requires
        family_of(op) is Other,
        !(context@.minor_version < NFS_V4_MINOR_VERSION_2 && later_opcode(op) is Some),
    ensures
        routed(op, context@, *facts, r),
{
    match op {
        Operation::Unsupported(n) => {
            let status = if n < 3 || n > opcode::CLONE {
                Nfs4Status::OpIllegal
            } else {
                Nfs4Status::NotSupp
            };
            Routed::Done(OperationResult::Unsupported { opcode: n, status })
        },
        Operation::BadXdr(n) => Routed::Done(
            OperationResult::Unsupported { opcode: n, status: Nfs4Status::BadXdr },
        ),
        Operation::InvalidName(n) => Routed::Done(
            OperationResult::Unsupported { opcode: n, status: Nfs4Status::Inval },
        ),
        Operation::DelegPurge { .. } => Routed::Done(
            OperationResult::Unsupported { opcode: opcode::DELEGPURGE, status: Nfs4Status::NotSupp },
        ),
        Operation::DelegReturn { .. } => Routed::Done(
            OperationResult::Unsupported { opcode: opcode::DELEGRETURN, status: Nfs4Status::NotSupp },
        ),
        Operation::BackchannelCtl { .. } => Routed::Done(
            OperationResult::Unsupported { opcode: opcode::BACKCHANNEL_CTL, status: Nfs4Status::NotSupp },
        ),
        Operation::IoAdvise { .. } => Routed::Done(
            OperationResult::Unsupported { opcode: opcode::IO_ADVISE, status: Nfs4Status::NotSupp },
        ),
        _ => Routed::Done(OperationResult::Unsupported { opcode: 0, status: Nfs4Status::OpIllegal }),
    }
}

/// Route an operation.
pub fn route(op: Operation, context: &mut CompoundContext, facts: &Facts) -> (r: Routed)
    ensures
        routed(op, old(context)@, *facts, r),
        final(context)@ == context_routed(op, old(context)@, *facts),
{
    if context.minor_version < NFS_V4_MINOR_VERSION_2 {
        if let Some(opcode) = minor_version_2_opcode(&op) {
            return Routed::Done(
                OperationResult::Unsupported { opcode, status: Nfs4Status::OpIllegal },
            );
        }
    }
    match family(&op) {
        Family::Session => route_session(op, context, facts),
        Family::Handle => route_handle(op, context, facts),
        Family::Attrs => route_attrs(op, context, facts),
        Family::State => route_state(op, context, facts),
        Family::Io => route_io(op, context, facts),
        Family::Space => route_space(op, context, facts),
        Family::Lock => route_lock(op, context, facts),
        Family::Name => route_name(op, context, facts),
        Family::Security => route_security(op, context, facts),
        Family::Layout => route_layout(op, context, facts),
        Family::Other => route_other(op, context, facts),
    }
}

// ---------------------------------------------------------------------------
// Laws
// ---------------------------------------------------------------------------

/// Law: a COMPOUND of an earlier minor version reaches no handler of an operation
/// that NFSv4.2 brought.
pub proof fn an_earlier_minor_version_has_no_later_operations(
    op: Operation,
    c: ContextView,
    f: Facts,
    r: Routed,
)
    requires
        c.minor_version < NFS_V4_MINOR_VERSION_2,
        later_opcode(op) is Some,
        routed(op, c, f, r),
    ensures
        r == Routed::Done(
            OperationResult::Unsupported {
                opcode: later_opcode(op)->0,
                status: Nfs4Status::OpIllegal,
            },
        ),
{
}

/// Law: an operation that moves the current filehandle leaves no current stateid,
/// and what then asks for it is refused.
pub proof fn a_stateid_does_not_outlive_its_filehandle(
    op: Operation,
    c: ContextView,
    f: Facts,
    seqid: u32,
    stateid: StateId,
)
    requires
        moves_fh(op),
        stateid@ == context::current_stateid_sentinel(),
    ensures
        context_routed(op, c, f).current_stateid is None,
        decided(Operation::Close { seqid, stateid }, context_routed(op, c, f), f) == Some(
            Nfs4Status::BadStateId,
        ),
{
}

/// Law: no lock is granted or tested on a block volume, and a lock can be released
/// wherever it was taken.
pub proof fn a_lock_can_always_be_released(
    lock: Operation,
    test: Operation,
    unlock: Operation,
    c: ContextView,
    f: Facts,
    g: Facts,
)
    requires
        lock is Lock,
        test is LockT,
        unlock is LockU,
        f.scsi_class,
    ensures
        decided(lock, c, f) == Some(Nfs4Status::NotSupp),
        decided(test, c, f) == Some(Nfs4Status::NotSupp),
        decided(unlock, c, f) == decided(unlock, c, g),
{
}

/// Law: the data of a striped file is never read or written where it is not.
/// Space is neither reserved nor released there, and holes are not looked for.
pub proof fn a_striped_file_is_not_served_from_its_stub(
    op: Operation,
    c: ContextView,
    f: Facts,
    h: HandlerCall,
)
    requires
        f.striped,
        !(f.disposition is Serve),
        routed(op, c, f, Routed::Call(h)),
    ensures
        !(h is Read),
        !(h is Write),
        !(h is Allocate),
        !(h is Deallocate),
        !(h is Seek),
{
}

/// Law: SAVEFH puts the current stateid aside with the filehandle, and touches
/// nothing else.
pub proof fn a_saved_filehandle_keeps_its_stateid(c: ContextView, f: Facts)
    ensures
        context_routed(Operation::SaveFh, c, f).saved_stateid == c.current_stateid,
        context_routed(Operation::SaveFh, c, f).current_stateid == c.current_stateid,
        context_routed(Operation::SaveFh, c, f).current_fh == c.current_fh,
{
}

/// Law: an operation that exists and that no handler is there for is answered as
/// not supported, under its own number; only a number that does not exist in the
/// minor version is illegal.
pub proof fn an_unserved_operation_is_not_supported(op: Operation, c: ContextView, f: Facts, r: Routed)
    requires
        routed(op, c, f, r),
        c.minor_version >= NFS_V4_MINOR_VERSION_2 || later_opcode(op) is None,
    ensures
        op is DelegPurge ==> r == Routed::Done(
            OperationResult::Unsupported {
                opcode: opcode::DELEGPURGE,
                status: Nfs4Status::NotSupp,
            },
        ),
        op is DelegReturn ==> r == Routed::Done(
            OperationResult::Unsupported {
                opcode: opcode::DELEGRETURN,
                status: Nfs4Status::NotSupp,
            },
        ),
        op is BackchannelCtl ==> r == Routed::Done(
            OperationResult::Unsupported {
                opcode: opcode::BACKCHANNEL_CTL,
                status: Nfs4Status::NotSupp,
            },
        ),
        op is IoAdvise ==> r == Routed::Done(
            OperationResult::Unsupported {
                opcode: opcode::IO_ADVISE,
                status: Nfs4Status::NotSupp,
            },
        ),
        op matches Operation::Unsupported(n) ==> (3 <= n <= opcode::CLONE ==> r == Routed::Done(
            OperationResult::Unsupported { opcode: n, status: Nfs4Status::NotSupp },
        )),
{
}

} // verus!
