//! The operations of a COMPOUND request, and what each of them says.
use vstd::prelude::*;

use bytes::Bytes;

use crate::compound::types::{
    CallbackSecParms, ChannelAttrs, ChannelAttrsView, ClientIdView, Fattr4View,
    LayoutReturn4Body, LayoutReturnView, OpenClaim, OpenClaimView, OpenHow, OpenHowView,
    SecParmsView,
};
use crate::compound::types;
use crate::octets;
use crate::protocol::{
    ClientId, Fattr4, Nfs4FileHandle, Nfs4FileType, SessionId, StateId, StateIdView,
};
use crate::xdr;

verus! {

/// One operation of a COMPOUND, decoded.
#[derive(Debug)]
pub enum Operation {
    // Filehandles
    PutRootFh,
    PutFh(Nfs4FileHandle),
    GetFh,
    SaveFh,
    RestoreFh,
    PutPubFh,
    // Names and directories
    /// The component name to look up.
    Lookup(String),
    LookupP,
    ReadDir {
        cookie: u64,
        cookieverf: [u8; 8],
        dircount: u32,
        maxcount: u32,
        attr_request: Vec<u32>,
    },
    // File I/O
    Open {
        seqid: u32,
        share_access: u32,
        share_deny: u32,
        owner: Vec<u8>,
        openhow: OpenHow,
        claim: OpenClaim,
    },
    Close {
        seqid: u32,
        stateid: StateId,
    },
    OpenDowngrade {
        stateid: StateId,
        seqid: u32,
        share_access: u32,
        share_deny: u32,
    },
    Read {
        stateid: StateId,
        offset: u64,
        count: u32,
    },
    Write {
        stateid: StateId,
        offset: u64,
        stable: u32,
        data: Bytes,
    },
    Commit {
        offset: u64,
        count: u32,
    },
    // Delegations
    DelegPurge {
        clientid: u64,
    },
    DelegReturn {
        stateid: StateId,
    },
    // Attributes
    /// The bitmap of the attributes asked for.
    GetAttr(Vec<u32>),
    /// The bitmap and the values, packed as one blob.
    SetAttr {
        stateid: StateId,
        attrs: Bytes,
    },
    /// The bitmap and the values, packed as one blob.
    Verify {
        attrs: Bytes,
    },
    Nverify {
        attrs: Bytes,
    },
    Access(u32),
    // Namespace changes
    /// `createattrs` are the attributes that the client asks the object to be
    /// made with; `linkdata` is the target of a symbolic link.
    Create {
        objtype: Nfs4FileType,
        objname: String,
        linkdata: Option<String>,
        createattrs: Fattr4,
    },
    Remove(String),
    Rename {
        oldname: String,
        newname: String,
    },
    Link(String),
    ReadLink,
    // Sessions
    ExchangeId {
        clientowner: ClientId,
        flags: u32,
        state_protect: u32,
        impl_id: Vec<u8>,
    },
    CreateSession {
        clientid: u64,
        sequence: u32,
        flags: u32,
        fore_chan_attrs: ChannelAttrs,
        back_chan_attrs: ChannelAttrs,
        cb_program: u32,
        cb_sec: Vec<CallbackSecParms>,
    },
    /// BACKCHANNEL_CTL re-points the back channel of the session that the
    /// COMPOUND runs on, so it names no session.
    BackchannelCtl {
        cb_program: u32,
        cb_sec: Vec<CallbackSecParms>,
    },
    DestroySession(SessionId),
    DestroyClientId(u64),
    BindConnToSession {
        sessionid: SessionId,
        dir: u32,
        use_conn_in_rdma_mode: bool,
    },
    Sequence {
        sessionid: SessionId,
        sequenceid: u32,
        slotid: u32,
        highest_slotid: u32,
        cachethis: bool,
    },
    ReclaimComplete(bool),
    /// The component whose security flavors are asked for.
    SecInfo(String),
    SecInfoNoName(u32),
    TestStateId(Vec<StateId>),
    FreeStateId(StateId),
    // Locks
    /// `new_lock_owner` is the `locker4` discriminant. When it is false the wire
    /// carries no owner: `stateid` is a lock stateid and `owner` is empty.
    Lock {
        locktype: u32,
        reclaim: bool,
        offset: u64,
        length: u64,
        stateid: StateId,
        owner: Vec<u8>,
        new_lock_owner: bool,
    },
    LockT {
        locktype: u32,
        offset: u64,
        length: u64,
        owner: Vec<u8>,
    },
    LockU {
        locktype: u32,
        seqid: u32,
        stateid: StateId,
        offset: u64,
        length: u64,
    },
    // NFSv4.2
    Allocate {
        stateid: StateId,
        offset: u64,
        length: u64,
    },
    Deallocate {
        stateid: StateId,
        offset: u64,
        length: u64,
    },
    Seek {
        stateid: StateId,
        offset: u64,
        what: u32,
    },
    /// `source_server_count` is the length of `ca_source_server<>`: zero for a
    /// copy within this server.
    Copy {
        src_stateid: StateId,
        dst_stateid: StateId,
        src_offset: u64,
        dst_offset: u64,
        count: u64,
        consecutive: bool,
        synchronous: bool,
        source_server_count: u32,
    },
    Clone {
        src_stateid: StateId,
        dst_stateid: StateId,
        src_offset: u64,
        dst_offset: u64,
        count: u64,
    },
    ReadPlus {
        stateid: StateId,
        offset: u64,
        count: u32,
    },
    IoAdvise {
        stateid: StateId,
        offset: u64,
        count: u64,
        hints: u32,
    },
    // pNFS
    LayoutGet {
        signal_layout_avail: bool,
        layout_type: u32,
        iomode: u32,
        offset: u64,
        length: u64,
        minlength: u64,
        stateid: StateId,
        maxcount: u32,
    },
    GetDeviceInfo {
        device_id: Vec<u8>,
        layout_type: u32,
        maxcount: u32,
        notify_types: Vec<u32>,
    },
    LayoutReturn {
        reclaim: bool,
        layout_type: u32,
        iomode: u32,
        return_body: LayoutReturn4Body,
    },
    /// `last_write_offset` is the offset of the last octet written, when the
    /// client reports one.
    LayoutCommit {
        offset: u64,
        length: u64,
        reclaim: bool,
        stateid: StateId,
        last_write_offset: Option<u64>,
        time_modify: Option<(i64, u32)>,
        layout_type: u32,
        layoutupdate: Bytes,
    },
    // What could not be taken further
    /// An operation number that this server has no decoder for.
    Unsupported(u32),
    /// A component name of this operation is not valid `utf8str_cs`. Its octets
    /// were consumed, so the operations behind it still parse.
    InvalidName(u32),
    /// The operation is known and its arguments do not parse.
    BadXdr(u32),
}

/// What an [`Operation`] says.
pub enum OperationView {
    // Filehandles
    PutRootFh,
    PutFh(Seq<u8>),
    GetFh,
    SaveFh,
    RestoreFh,
    PutPubFh,
    // Names and directories
    Lookup(Seq<char>),
    LookupP,
    ReadDir {
        cookie: u64,
        cookieverf: Seq<u8>,
        dircount: u32,
        maxcount: u32,
        attr_request: Seq<u32>,
    },
    // File I/O
    Open {
        seqid: u32,
        share_access: u32,
        share_deny: u32,
        owner: Seq<u8>,
        openhow: OpenHowView,
        claim: OpenClaimView,
    },
    Close {
        seqid: u32,
        stateid: StateIdView,
    },
    OpenDowngrade {
        stateid: StateIdView,
        seqid: u32,
        share_access: u32,
        share_deny: u32,
    },
    Read {
        stateid: StateIdView,
        offset: u64,
        count: u32,
    },
    Write {
        stateid: StateIdView,
        offset: u64,
        stable: u32,
        data: Seq<u8>,
    },
    Commit {
        offset: u64,
        count: u32,
    },
    // Delegations
    DelegPurge {
        clientid: u64,
    },
    DelegReturn {
        stateid: StateIdView,
    },
    // Attributes
    GetAttr(Seq<u32>),
    SetAttr {
        stateid: StateIdView,
        attrs: Seq<u8>,
    },
    Verify {
        attrs: Seq<u8>,
    },
    Nverify {
        attrs: Seq<u8>,
    },
    Access(u32),
    // Namespace changes
    Create {
        objtype: Nfs4FileType,
        objname: Seq<char>,
        linkdata: Option<Seq<char>>,
        createattrs: Fattr4View,
    },
    Remove(Seq<char>),
    Rename {
        oldname: Seq<char>,
        newname: Seq<char>,
    },
    Link(Seq<char>),
    ReadLink,
    // Sessions
    ExchangeId {
        clientowner: ClientIdView,
        flags: u32,
        state_protect: u32,
        impl_id: Seq<u8>,
    },
    CreateSession {
        clientid: u64,
        sequence: u32,
        flags: u32,
        fore_chan_attrs: ChannelAttrsView,
        back_chan_attrs: ChannelAttrsView,
        cb_program: u32,
        cb_sec: Seq<SecParmsView>,
    },
    BackchannelCtl {
        cb_program: u32,
        cb_sec: Seq<SecParmsView>,
    },
    DestroySession(Seq<u8>),
    DestroyClientId(u64),
    BindConnToSession {
        sessionid: Seq<u8>,
        dir: u32,
        use_conn_in_rdma_mode: bool,
    },
    Sequence {
        sessionid: Seq<u8>,
        sequenceid: u32,
        slotid: u32,
        highest_slotid: u32,
        cachethis: bool,
    },
    ReclaimComplete(bool),
    SecInfo(Seq<char>),
    SecInfoNoName(u32),
    TestStateId(Seq<StateIdView>),
    FreeStateId(StateIdView),
    // Locks
    Lock {
        locktype: u32,
        reclaim: bool,
        offset: u64,
        length: u64,
        stateid: StateIdView,
        owner: Seq<u8>,
        new_lock_owner: bool,
    },
    LockT {
        locktype: u32,
        offset: u64,
        length: u64,
        owner: Seq<u8>,
    },
    LockU {
        locktype: u32,
        seqid: u32,
        stateid: StateIdView,
        offset: u64,
        length: u64,
    },
    // NFSv4.2
    Allocate {
        stateid: StateIdView,
        offset: u64,
        length: u64,
    },
    Deallocate {
        stateid: StateIdView,
        offset: u64,
        length: u64,
    },
    Seek {
        stateid: StateIdView,
        offset: u64,
        what: u32,
    },
    Copy {
        src_stateid: StateIdView,
        dst_stateid: StateIdView,
        src_offset: u64,
        dst_offset: u64,
        count: u64,
        consecutive: bool,
        synchronous: bool,
        source_server_count: u32,
    },
    Clone {
        src_stateid: StateIdView,
        dst_stateid: StateIdView,
        src_offset: u64,
        dst_offset: u64,
        count: u64,
    },
    ReadPlus {
        stateid: StateIdView,
        offset: u64,
        count: u32,
    },
    IoAdvise {
        stateid: StateIdView,
        offset: u64,
        count: u64,
        hints: u32,
    },
    // pNFS
    LayoutGet {
        signal_layout_avail: bool,
        layout_type: u32,
        iomode: u32,
        offset: u64,
        length: u64,
        minlength: u64,
        stateid: StateIdView,
        maxcount: u32,
    },
    GetDeviceInfo {
        device_id: Seq<u8>,
        layout_type: u32,
        maxcount: u32,
        notify_types: Seq<u32>,
    },
    LayoutReturn {
        reclaim: bool,
        layout_type: u32,
        iomode: u32,
        return_body: LayoutReturnView,
    },
    LayoutCommit {
        offset: u64,
        length: u64,
        reclaim: bool,
        stateid: StateIdView,
        last_write_offset: Option<u64>,
        time_modify: Option<(i64, u32)>,
        layout_type: u32,
        layoutupdate: Seq<u8>,
    },
    // What could not be taken further
    Unsupported(u32),
    InvalidName(u32),
    BadXdr(u32),
}

impl View for Operation {
    type V = OperationView;

    open spec fn view(&self) -> OperationView {
        match *self {
            Operation::PutRootFh => OperationView::PutRootFh,
            Operation::PutFh(x) => OperationView::PutFh(x@),
            Operation::GetFh => OperationView::GetFh,
            Operation::SaveFh => OperationView::SaveFh,
            Operation::RestoreFh => OperationView::RestoreFh,
            Operation::PutPubFh => OperationView::PutPubFh,
            Operation::Lookup(x) => OperationView::Lookup(x@),
            Operation::LookupP => OperationView::LookupP,
            Operation::ReadDir { cookie, cookieverf, dircount, maxcount, attr_request } => OperationView::ReadDir {
                cookie,
                cookieverf: cookieverf@,
                dircount,
                maxcount,
                attr_request: attr_request@,
            },
            Operation::Open { seqid, share_access, share_deny, owner, openhow, claim } => OperationView::Open {
                seqid,
                share_access,
                share_deny,
                owner: owner@,
                openhow: openhow@,
                claim: claim@,
            },
            Operation::Close { seqid, stateid } => OperationView::Close {
                seqid,
                stateid: stateid@,
            },
            Operation::OpenDowngrade { stateid, seqid, share_access, share_deny } => OperationView::OpenDowngrade {
                stateid: stateid@,
                seqid,
                share_access,
                share_deny,
            },
            Operation::Read { stateid, offset, count } => OperationView::Read {
                stateid: stateid@,
                offset,
                count,
            },
            Operation::Write { stateid, offset, stable, data } => OperationView::Write {
                stateid: stateid@,
                offset,
                stable,
                data: octets::bytes_of(data),
            },
            Operation::Commit { offset, count } => OperationView::Commit {
                offset,
                count,
            },
            Operation::DelegPurge { clientid } => OperationView::DelegPurge {
                clientid,
            },
            Operation::DelegReturn { stateid } => OperationView::DelegReturn {
                stateid: stateid@,
            },
            Operation::GetAttr(x) => OperationView::GetAttr(x@),
            Operation::SetAttr { stateid, attrs } => OperationView::SetAttr {
                stateid: stateid@,
                attrs: octets::bytes_of(attrs),
            },
            Operation::Verify { attrs } => OperationView::Verify {
                attrs: octets::bytes_of(attrs),
            },
            Operation::Nverify { attrs } => OperationView::Nverify {
                attrs: octets::bytes_of(attrs),
            },
            Operation::Access(x) => OperationView::Access(x),
            Operation::Create { objtype, objname, linkdata, createattrs } => OperationView::Create {
                objtype,
                objname: objname@,
                linkdata: types::opt_string_view(linkdata),
                createattrs: createattrs@,
            },
            Operation::Remove(x) => OperationView::Remove(x@),
            Operation::Rename { oldname, newname } => OperationView::Rename {
                oldname: oldname@,
                newname: newname@,
            },
            Operation::Link(x) => OperationView::Link(x@),
            Operation::ReadLink => OperationView::ReadLink,
            Operation::ExchangeId { clientowner, flags, state_protect, impl_id } => OperationView::ExchangeId {
                clientowner: clientowner@,
                flags,
                state_protect,
                impl_id: impl_id@,
            },
            Operation::CreateSession { clientid, sequence, flags, fore_chan_attrs, back_chan_attrs, cb_program, cb_sec } => OperationView::CreateSession {
                clientid,
                sequence,
                flags,
                fore_chan_attrs: fore_chan_attrs@,
                back_chan_attrs: back_chan_attrs@,
                cb_program,
                cb_sec: xdr::views(cb_sec@),
            },
            Operation::BackchannelCtl { cb_program, cb_sec } => OperationView::BackchannelCtl {
                cb_program,
                cb_sec: xdr::views(cb_sec@),
            },
            Operation::DestroySession(x) => OperationView::DestroySession(x@),
            Operation::DestroyClientId(x) => OperationView::DestroyClientId(x),
            Operation::BindConnToSession { sessionid, dir, use_conn_in_rdma_mode } => OperationView::BindConnToSession {
                sessionid: sessionid@,
                dir,
                use_conn_in_rdma_mode,
            },
            Operation::Sequence { sessionid, sequenceid, slotid, highest_slotid, cachethis } => OperationView::Sequence {
                sessionid: sessionid@,
                sequenceid,
                slotid,
                highest_slotid,
                cachethis,
            },
            Operation::ReclaimComplete(x) => OperationView::ReclaimComplete(x),
            Operation::SecInfo(x) => OperationView::SecInfo(x@),
            Operation::SecInfoNoName(x) => OperationView::SecInfoNoName(x),
            Operation::TestStateId(x) => OperationView::TestStateId(xdr::views(x@)),
            Operation::FreeStateId(x) => OperationView::FreeStateId(x@),
            Operation::Lock { locktype, reclaim, offset, length, stateid, owner, new_lock_owner } => OperationView::Lock {
                locktype,
                reclaim,
                offset,
                length,
                stateid: stateid@,
                owner: owner@,
                new_lock_owner,
            },
            Operation::LockT { locktype, offset, length, owner } => OperationView::LockT {
                locktype,
                offset,
                length,
                owner: owner@,
            },
            Operation::LockU { locktype, seqid, stateid, offset, length } => OperationView::LockU {
                locktype,
                seqid,
                stateid: stateid@,
                offset,
                length,
            },
            Operation::Allocate { stateid, offset, length } => OperationView::Allocate {
                stateid: stateid@,
                offset,
                length,
            },
            Operation::Deallocate { stateid, offset, length } => OperationView::Deallocate {
                stateid: stateid@,
                offset,
                length,
            },
            Operation::Seek { stateid, offset, what } => OperationView::Seek {
                stateid: stateid@,
                offset,
                what,
            },
            Operation::Copy { src_stateid, dst_stateid, src_offset, dst_offset, count, consecutive, synchronous, source_server_count } => OperationView::Copy {
                src_stateid: src_stateid@,
                dst_stateid: dst_stateid@,
                src_offset,
                dst_offset,
                count,
                consecutive,
                synchronous,
                source_server_count,
            },
            Operation::Clone { src_stateid, dst_stateid, src_offset, dst_offset, count } => OperationView::Clone {
                src_stateid: src_stateid@,
                dst_stateid: dst_stateid@,
                src_offset,
                dst_offset,
                count,
            },
            Operation::ReadPlus { stateid, offset, count } => OperationView::ReadPlus {
                stateid: stateid@,
                offset,
                count,
            },
            Operation::IoAdvise { stateid, offset, count, hints } => OperationView::IoAdvise {
                stateid: stateid@,
                offset,
                count,
                hints,
            },
            Operation::LayoutGet { signal_layout_avail, layout_type, iomode, offset, length, minlength, stateid, maxcount } => OperationView::LayoutGet {
                signal_layout_avail,
                layout_type,
                iomode,
                offset,
                length,
                minlength,
                stateid: stateid@,
                maxcount,
            },
            Operation::GetDeviceInfo { device_id, layout_type, maxcount, notify_types } => OperationView::GetDeviceInfo {
                device_id: device_id@,
                layout_type,
                maxcount,
                notify_types: notify_types@,
            },
            Operation::LayoutReturn { reclaim, layout_type, iomode, return_body } => OperationView::LayoutReturn {
                reclaim,
                layout_type,
                iomode,
                return_body: return_body@,
            },
            Operation::LayoutCommit { offset, length, reclaim, stateid, last_write_offset, time_modify, layout_type, layoutupdate } => OperationView::LayoutCommit {
                offset,
                length,
                reclaim,
                stateid: stateid@,
                last_write_offset,
                time_modify,
                layout_type,
                layoutupdate: octets::bytes_of(layoutupdate),
            },
            Operation::Unsupported(x) => OperationView::Unsupported(x),
            Operation::InvalidName(x) => OperationView::InvalidName(x),
            Operation::BadXdr(x) => OperationView::BadXdr(x),
        }
    }
}

} // verus!
