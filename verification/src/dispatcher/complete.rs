//! What the answer of a handler becomes: a result, a change of the context, and
//! work for the server.
use crate::compound::context::{CompoundContext, ContextView};
use crate::compound::results::{
    ChangeInfo, CopyResult, CreateSessionResult, ExchangeIdResult, LockDenied, OpenResult,
    OperationResult, ReadDirResult, ReadPlusResult, ReadResult, SeekResult, SequenceResult,
    WriteResult,
};
use crate::dispatcher::attrs;
use crate::dispatcher::attrs::{encode_fattr, handle_verify, size_to_note};
use crate::octets;
use crate::protocol::{Fattr4, Nfs4FileHandle, Nfs4Status, SessionId, StateId};
use vstd::prelude::*;

verus! {

/// EXCHGID4_FLAG_MASK_PNFS: the bits that say what part a server plays in pNFS.
pub const EXCHGID4_FLAG_MASK_PNFS: u32 = 0x0007_0000;

/// EXCHGID4_FLAG_USE_PNFS_MDS: the server is a metadata server.
pub const EXCHGID4_FLAG_USE_PNFS_MDS: u32 = 0x0002_0000;

/// FILE_SYNC4: the data and the size are on stable storage.
pub const FILE_SYNC4: u32 = 2;

/// The write verifier of a server: it changes when unstable data may have been
/// lost. It is never 0, which a client that copies would retry against for ever.
#[derive(Debug, Clone, Copy)]
pub struct WriteVerifier {
    value: u64,
}

impl View for WriteVerifier {
    type V = u64;

    closed spec fn view(&self) -> u64 {
        self.value
    }
}

impl WriteVerifier {
    #[verifier::type_invariant]
    closed spec fn is_set(&self) -> bool {
        self.value != 0
    }

    /// A verifier with this value; there is none with the value 0.
    pub fn new(value: u64) -> (r: Option<WriteVerifier>)
        ensures
            r is Some <==> value != 0,
            r matches Some(v) ==> v@ == value,
    {
        if value == 0 {
            None
        } else {
            Some(WriteVerifier { value })
        }
    }

    pub fn get(&self) -> (v: u64)
        ensures
            v == self@,
            v != 0,
    {
        proof {
            use_type_invariant(self);
        }
        self.value
    }
}

/// What a stateid stands for.
#[derive(Debug, Clone, Copy, PartialEq, Eq, Structural)]
pub enum StateType {
    Open,
    Lock,
    Delegation,
    Layout,
}

/// A stateid that the server has a record of.
#[derive(Debug, Clone, Copy, PartialEq, Eq, Structural)]
pub struct StateEntry {
    pub state_type: StateType,
    pub revoked: bool,
}

/// What became of marking a client as done with reclaiming.
#[derive(Debug, Clone, Copy, PartialEq, Eq, Structural)]
pub enum ReclaimCompleteOutcome {
    Marked,
    AlreadyComplete,
    NoSuchClient,
}

/// What became of a write to the data servers.
#[derive(Debug, Clone, Copy, PartialEq, Eq, Structural)]
pub enum ProxyWriteOutcome {
    /// The data did not get there.
    Failed,
    /// It did, and the size of the file could not follow.
    SizeFailed,
    Written { len: u64 },
}

/// What the server found under a name that SECINFO asks about.
#[derive(Debug, Clone, Copy, PartialEq, Eq, Structural)]
pub enum SecInfoFound {
    /// The current filehandle leads nowhere.
    Stale,
    NotDir,
    Missing,
    Found,
}

/// The answer of a handler.
#[derive(Debug)]
pub enum HandlerReply {
    ExchangeId { status: Nfs4Status, result: ExchangeIdResult },
    CreateSession { status: Nfs4Status, result: CreateSessionResult, back_chan_bound: bool },
    Sequence {
        status: Nfs4Status,
        sessionid: SessionId,
        sequenceid: u32,
        slotid: u32,
        highest_slotid: u32,
        target_highest_slotid: u32,
        /// The SEQ4 flags that are raised for the client: a lost callback path, a
        /// revoked delegation.
        status_flags: u32,
    },
    DestroySession { status: Nfs4Status, sessionid: SessionId },
    RemoveClient,
    /// For each stateid, whether it is good.
    TestStateId(Vec<bool>),
    PutRootFh(Nfs4Status),
    PutFh(Nfs4Status),
    PutPubFh(Nfs4Status),
    GetFh(Nfs4Status, Option<Nfs4FileHandle>),
    SaveFh(Nfs4Status),
    RestoreFh(Nfs4Status),
    Lookup(Nfs4Status),
    LookupP(Nfs4Status),
    Access { status: Nfs4Status, supported: u32, access: u32 },
    GetAttr { status: Nfs4Status, attrs: Option<Fattr4> },
    Verify { is_nverify: bool, want: Fattr4, status: Nfs4Status, have: Option<Fattr4> },
    /// `requested` is the size that was asked for.
    SetAttr { status: Nfs4Status, attrsset: Vec<u32>, requested: Option<u64> },
    ReadDir { status: Nfs4Status, result: ReadDirResult },
    Open {
        status: Nfs4Status,
        stateid: Option<StateId>,
        change_info: Option<ChangeInfo>,
        result_flags: u32,
        attrset: Vec<u32>,
        requested: Option<u64>,
    },
    Close { status: Nfs4Status, stateid: Option<StateId> },
    OpenDowngrade(Result<StateId, Nfs4Status>),
    Read { status: Nfs4Status, result: ReadResult },
    /// Nothing where the data servers could not be read.
    ProxyRead(Option<ReadResult>),
    Write { status: Nfs4Status, count: u32, committed: u32, verifier: u64 },
    ProxyWrite(ProxyWriteOutcome),
    Commit { status: Nfs4Status, verifier: u64 },
    Copy { status: Nfs4Status, count: u64, sync: bool },
    Clone(Nfs4Status),
    Allocate(Nfs4Status),
    Deallocate(Nfs4Status),
    Seek { status: Nfs4Status, eof: bool, offset: u64 },
    ReadPlus { status: Nfs4Status, result: ReadPlusResult },
    Lock { status: Nfs4Status, stateid: Option<StateId>, denied: Option<LockDenied> },
    LockT { status: Nfs4Status, denied: Option<LockDenied> },
    LockU { status: Nfs4Status, stateid: Option<StateId> },
    FreeStateId(Option<StateEntry>),
    Create { status: Nfs4Status, change_info: Option<ChangeInfo>, attrset: Vec<u32> },
    Remove { status: Nfs4Status, change_info: Option<ChangeInfo> },
    Rename {
        status: Nfs4Status,
        source_cinfo: Option<ChangeInfo>,
        target_cinfo: Option<ChangeInfo>,
    },
    Link { status: Nfs4Status, change_info: Option<ChangeInfo> },
    ReadLink { status: Nfs4Status, link: Option<String> },
    MarkReclaimComplete(ReclaimCompleteOutcome),
    SecInfo(SecInfoFound),
    /// A layout operation, whose result is known.
    Layout(OperationResult),
}

/// What the server has to do before the result goes out.
#[derive(Debug, Clone, Copy, PartialEq, Eq)]
pub enum Effect {
    Nothing,
    /// Bind the connection to the session, and where `back` says so, to its back
    /// channel.
    Bind { sessionid: SessionId, back: bool },
    /// Forget the connections of the session.
    Unbind(SessionId),
    /// The data servers have to cut the current file to this size.
    Truncate(u64),
    /// The data servers have to forget the file that was removed.
    Removed,
    /// The placement of the file follows it to its new name.
    Renamed,
    /// The record of the stateid goes.
    CloseState,
    /// The stateid is revoked.
    RevokeState,
}

/// What completing an operation gives.
#[derive(Debug)]
pub struct Completion {
    pub result: OperationResult,
    pub effect: Effect,
}

pub open spec fn if_ok<T>(status: Nfs4Status, value: T) -> Option<T> {
    if status is NfsOk {
        Some(value)
    } else {
        None
    }
}

/// The flags of a metadata server.
pub open spec fn role_flags(flags: u32, pnfs: bool) -> u32 {
    if pnfs {
        (flags & !EXCHGID4_FLAG_MASK_PNFS) | EXCHGID4_FLAG_USE_PNFS_MDS
    } else {
        flags
    }
}

/// A status for each stateid.
pub open spec fn tested(valid: Seq<bool>) -> Seq<Nfs4Status> {
    valid.map_values(
        |v: bool|
            if v {
                Nfs4Status::NfsOk
            } else {
                Nfs4Status::BadStateId
            },
    )
}

/// The status of freeing a stateid. One that the server does not know is as good
/// as freed, and one that was revoked is there to be freed; one that is in use is
/// not.
pub open spec fn freed(entry: Option<StateEntry>) -> (Nfs4Status, Effect) {
    match entry {
        None => (Nfs4Status::NfsOk, Effect::Nothing),
        Some(e) => if e.revoked {
            (Nfs4Status::NfsOk, Effect::CloseState)
        } else if e.state_type is Open || e.state_type is Lock {
            (Nfs4Status::LocksHeld, Effect::Nothing)
        } else {
            (Nfs4Status::NfsOk, Effect::RevokeState)
        },
    }
}

pub open spec fn truncation(size: Option<u64>) -> Effect {
    match size {
        Some(n) => Effect::Truncate(n),
        None => Effect::Nothing,
    }
}

/// The size that the data servers have to follow, where there are any.
pub open spec fn noted(pnfs: bool, attrset: Seq<u32>, requested: Option<u64>) -> Option<u64> {
    if pnfs && attrs::size_applied(attrset) {
        requested
    } else {
        None
    }
}

/// The result of an operation and what it asks of the server. `verifier` is the
/// write verifier, which COPY reports as COMMIT does.
pub open spec fn completes(h: HandlerReply, pnfs: bool, verifier: u64, c: Completion) -> bool {
    match h {
        HandlerReply::ExchangeId { status, result } => {
            &&& c.effect is Nothing
            &&& c.result == OperationResult::ExchangeId(
                status,
                if_ok(
                    status,
                    ExchangeIdResult { flags: role_flags(result.flags, pnfs), ..result },
                ),
            )
        },
        HandlerReply::CreateSession { status, result, back_chan_bound } => {
            &&& c.result == OperationResult::CreateSession(status, if_ok(status, result))
            &&& c.effect == (if status is NfsOk {
                Effect::Bind { sessionid: result.sessionid, back: back_chan_bound }
            } else {
                Effect::Nothing
            })
        },
        HandlerReply::Sequence {
            status,
            sessionid,
            sequenceid,
            slotid,
            highest_slotid,
            target_highest_slotid,
            status_flags,
        } => {
            &&& c.result == OperationResult::Sequence(
                status,
                if_ok(
                    status,
                    SequenceResult {
                        sessionid,
                        sequenceid,
                        slotid,
                        highest_slotid,
                        target_highest_slotid,
                        status_flags,
                    },
                ),
            )
            &&& c.effect == (if status is NfsOk {
                Effect::Bind { sessionid, back: false }
            } else {
                Effect::Nothing
            })
        },
        HandlerReply::DestroySession { status, sessionid } => {
            &&& c.result == OperationResult::DestroySession(status)
            &&& c.effect == (if status is NfsOk {
                Effect::Unbind(sessionid)
            } else {
                Effect::Nothing
            })
        },
        HandlerReply::RemoveClient => {
            &&& c.effect is Nothing
            &&& c.result == OperationResult::DestroyClientId(Nfs4Status::NfsOk)
        },
        HandlerReply::TestStateId(valid) => {
            &&& c.effect is Nothing
            &&& c.result matches OperationResult::TestStateId(s, Some(v)) && s is NfsOk && v@
                == tested(valid@)
        },
        HandlerReply::PutRootFh(status) => c.effect is Nothing && c.result
            == OperationResult::PutRootFh(status),
        HandlerReply::PutFh(status) => c.effect is Nothing && c.result == OperationResult::PutFh(
            status,
        ),
        HandlerReply::PutPubFh(status) => c.effect is Nothing && c.result
            == OperationResult::PutPubFh(status),
        HandlerReply::GetFh(status, fh) => c.effect is Nothing && c.result
            == OperationResult::GetFh(status, fh),
        HandlerReply::SaveFh(status) => c.effect is Nothing && c.result == OperationResult::SaveFh(
            status,
        ),
        HandlerReply::RestoreFh(status) => c.effect is Nothing && c.result
            == OperationResult::RestoreFh(status),
        HandlerReply::Lookup(status) => c.effect is Nothing && c.result == OperationResult::Lookup(
            status,
        ),
        HandlerReply::LookupP(status) => c.effect is Nothing && c.result == OperationResult::Lookup(
            status,
        ),
        HandlerReply::Access { status, supported, access } => c.effect is Nothing && c.result
            == OperationResult::Access(status, Some((supported, access))),
        HandlerReply::GetAttr { status, attrs } => {
            &&& c.effect is Nothing
            &&& if status is NfsOk {
                c.result matches OperationResult::GetAttr(s, Some(b)) && s == status
                    && octets::bytes_of(b) == attrs::wire_fattr(attrs::opt_fattr_view(attrs))
            } else {
                c.result == OperationResult::GetAttr(status, None)
            }
        },
        HandlerReply::Verify { is_nverify, want, status, have } => {
            &&& c.effect is Nothing
            &&& c.result == attrs::verify_result(
                is_nverify,
                attrs::verify_status(is_nverify, want@, status, attrs::opt_fattr_view(have)),
            )
        },
        HandlerReply::SetAttr { status, attrsset, requested } => {
            &&& c.result == OperationResult::SetAttr(status, attrsset)
            &&& c.effect == truncation(noted(pnfs, attrsset@, requested))
        },
        HandlerReply::ReadDir { status, result } => c.effect is Nothing && c.result
            == OperationResult::ReadDir(status, if_ok(status, result)),
        HandlerReply::Open { status, stateid, change_info, result_flags, attrset, requested } => {
            &&& c.result == OperationResult::Open(
                status,
                if status is NfsOk && stateid is Some && change_info is Some {
                    Some(
                        OpenResult {
                            stateid: stateid->0,
                            change_info: change_info->0,
                            result_flags,
                            attrset,
                            delegation: None,
                        },
                    )
                } else {
                    None
                },
            )
            &&& c.effect == (if status is NfsOk {
                truncation(noted(pnfs, attrset@, requested))
            } else {
                Effect::Nothing
            })
        },
        HandlerReply::Close { status, stateid } => c.effect is Nothing && c.result
            == OperationResult::Close(status, stateid),
        HandlerReply::OpenDowngrade(outcome) => c.effect is Nothing && c.result == match outcome {
            Ok(s) => OperationResult::OpenDowngrade(Nfs4Status::NfsOk, Some(s)),
            Err(status) => OperationResult::OpenDowngrade(status, None),
        },
        HandlerReply::Read { status, result } => c.effect is Nothing && c.result
            == OperationResult::Read(status, if_ok(status, result)),
        HandlerReply::ProxyRead(outcome) => c.effect is Nothing && c.result == match outcome {
            Some(result) => OperationResult::Read(Nfs4Status::NfsOk, Some(result)),
            None => OperationResult::Read(Nfs4Status::Delay, None),
        },
        HandlerReply::Write { status, count, committed, verifier } => {
            &&& c.effect is Nothing
            &&& if status is NfsOk {
                c.result matches OperationResult::Write(s, Some(w)) && s == status && w.count
                    == count && w.committed == committed && w.verifier@ == octets::be64(verifier)
            } else {
                c.result == OperationResult::Write(status, None)
            }
        },
        HandlerReply::ProxyWrite(outcome) => {
            &&& c.effect is Nothing
            &&& match outcome {
                ProxyWriteOutcome::Failed => c.result == OperationResult::Write(
                    Nfs4Status::Delay,
                    None,
                ),
                ProxyWriteOutcome::SizeFailed => c.result == OperationResult::Write(
                    Nfs4Status::Io,
                    None,
                ),
                ProxyWriteOutcome::Written { len } => c.result matches OperationResult::Write(
                    s,
                    Some(w),
                ) && s is NfsOk && w.count == len as u32 && w.committed == FILE_SYNC4 && w.verifier@
                    == octets::be64(verifier),
            }
        },
        HandlerReply::Commit { status, verifier } => {
            &&& c.effect is Nothing
            &&& if status is NfsOk {
                c.result matches OperationResult::Commit(s, Some(v)) && s == status && v@
                    == octets::be64(verifier)
            } else {
                c.result == OperationResult::Commit(status, None)
            }
        },
        HandlerReply::Copy { status, count, sync } => c.effect is Nothing && c.result
            == OperationResult::Copy(
            status,
            if_ok(status, CopyResult { count, consecutive: true, synchronous: sync, verifier }),
        ),
        HandlerReply::Clone(status) => c.effect is Nothing && c.result == OperationResult::Clone(
            status,
        ),
        HandlerReply::Allocate(status) => c.effect is Nothing && c.result
            == OperationResult::Allocate(status),
        HandlerReply::Deallocate(status) => c.effect is Nothing && c.result
            == OperationResult::Deallocate(status),
        HandlerReply::Seek { status, eof, offset } => c.effect is Nothing && c.result
            == OperationResult::Seek(status, if_ok(status, SeekResult { eof, offset })),
        HandlerReply::ReadPlus { status, result } => c.effect is Nothing && c.result
            == OperationResult::ReadPlus(status, if_ok(status, result)),
        HandlerReply::Lock { status, stateid, denied } => c.effect is Nothing && c.result
            == OperationResult::Lock(status, stateid, denied),
        HandlerReply::LockT { status, denied } => c.effect is Nothing && c.result
            == OperationResult::LockT(status, denied),
        HandlerReply::LockU { status, stateid } => c.effect is Nothing && c.result
            == OperationResult::LockU(status, stateid),
        HandlerReply::FreeStateId(entry) => c.effect == freed(entry).1 && c.result
            == OperationResult::FreeStateId(freed(entry).0),
        HandlerReply::Create { status, change_info, attrset } => c.effect is Nothing && c.result
            == OperationResult::Create(status, change_info, attrset),
        HandlerReply::Remove { status, change_info } => {
            &&& c.result == OperationResult::Remove(status, change_info)
            &&& c.effect == (if status is NfsOk && pnfs {
                Effect::Removed
            } else {
                Effect::Nothing
            })
        },
        HandlerReply::Rename { status, source_cinfo, target_cinfo } => {
            &&& c.result == OperationResult::Rename(status, source_cinfo, target_cinfo)
            &&& c.effect == (if status is NfsOk && pnfs {
                Effect::Renamed
            } else {
                Effect::Nothing
            })
        },
        HandlerReply::Link { status, change_info } => c.effect is Nothing && c.result
            == OperationResult::Link(status, change_info),
        HandlerReply::ReadLink { status, link } => c.effect is Nothing && c.result
            == OperationResult::ReadLink(status, link),
        HandlerReply::MarkReclaimComplete(outcome) => c.effect is Nothing && c.result
            == OperationResult::ReclaimComplete(
            match outcome {
                ReclaimCompleteOutcome::Marked => Nfs4Status::NfsOk,
                ReclaimCompleteOutcome::AlreadyComplete => Nfs4Status::CompleteAlready,
                ReclaimCompleteOutcome::NoSuchClient => Nfs4Status::StaleClientId,
            },
        ),
        HandlerReply::SecInfo(found) => c.effect is Nothing && c.result == OperationResult::SecInfo(
            match found {
                SecInfoFound::Stale => Nfs4Status::Stale,
                SecInfoFound::NotDir => Nfs4Status::NotDir,
                SecInfoFound::Missing => Nfs4Status::NoEnt,
                SecInfoFound::Found => Nfs4Status::NfsOk,
            },
        ),
        HandlerReply::Layout(result) => c.effect is Nothing && c.result == result,
    }
}

/// The stateid that an operation leaves as the current one, where it leaves one.
pub open spec fn left_stateid(h: HandlerReply) -> Option<StateId> {
    match h {
        HandlerReply::Open { status, stateid, .. } => if status is NfsOk {
            stateid
        } else {
            None
        },
        HandlerReply::OpenDowngrade(outcome) => match outcome {
            Ok(s) => Some(s),
            Err(_) => None,
        },
        HandlerReply::Lock { status, stateid, .. } => if status is NfsOk {
            stateid
        } else {
            None
        },
        HandlerReply::LockU { status, stateid } => if status is NfsOk {
            stateid
        } else {
            None
        },
        _ => None,
    }
}

/// The context once an operation is completed.
pub open spec fn context_completed(h: HandlerReply, c: ContextView) -> ContextView {
    match h {
        HandlerReply::Sequence { status, sessionid, .. } => if status is NfsOk {
            ContextView { session_id: Some(sessionid@), ..c }
        } else {
            c
        },
        HandlerReply::RestoreFh(status) => ContextView {
            current_stateid: if status is NfsOk {
                c.saved_stateid
            } else {
                None
            },
            ..c
        },
        HandlerReply::SecInfo(found) => if found is Found {
            ContextView { current_fh: None, ..c }
        } else {
            c
        },
        _ => match left_stateid(h) {
            Some(s) => ContextView { current_stateid: Some(s@), ..c },
            None => c,
        },
    }
}

// ---------------------------------------------------------------------------

/// The verifier as it goes out.
fn verifier_octets(v: u64) -> (o: [u8; 8])
    ensures
        o@ == octets::be64(v),
{
    let hi: u32 = (v >> 32) as u32;
    let lo: u32 = v as u32;
    let o: [u8; 8] = [
        (hi >> 24) as u8,
        (hi >> 16) as u8,
        (hi >> 8) as u8,
        hi as u8,
        (lo >> 24) as u8,
        (lo >> 16) as u8,
        (lo >> 8) as u8,
        lo as u8,
    ];
    assert(o@ =~= octets::be64(v));
    o
}

fn tested_statuses(valid: &Vec<bool>) -> (v: Vec<Nfs4Status>)
    ensures
        v@ == tested(valid@),
{
    let mut v: Vec<Nfs4Status> = Vec::new();
    let mut i: usize = 0;
    while i < valid.len()
        invariant
            i <= valid@.len(),
            v@ =~= tested(valid@.take(i as int)),
        decreases valid@.len() - i,
    {
        v.push(
            if valid[i] {
                Nfs4Status::NfsOk
            } else {
                Nfs4Status::BadStateId
            },
        );
        i = i + 1;
    }
    assert(valid@.take(i as int) =~= valid@);
    v
}

fn plain(result: OperationResult) -> (c: Completion)
    ensures
        c == (Completion { result, effect: Effect::Nothing }),
{
    Completion { result, effect: Effect::Nothing }
}

fn truncate_effect(pnfs: bool, attrset: &Vec<u32>, requested: Option<u64>) -> (e: Effect)
    ensures
        e == truncation(noted(pnfs, attrset@, requested)),
{
    if !pnfs {
        return Effect::Nothing;
    }
    match size_to_note(attrset, requested) {
        Some(n) => Effect::Truncate(n),
        None => Effect::Nothing,
    }
}

/// Where a write to the data servers leaves the end of the file, if it moves it.
pub fn proxy_write_end(offset: u64, len: u64, size: u64) -> (r: Option<u64>)
    ensures
        ({
            let end = if offset + len > u64::MAX {
                u64::MAX as int
            } else {
                offset + len
            };
            r == (if end > size {
                Some(end as u64)
            } else {
                None
            })
        }),
{
    let end: u64 = offset.saturating_add(len);
    if end > size {
        Some(end)
    } else {
        None
    }
}

fn keep_if_ok<T>(status: Nfs4Status, value: T) -> (r: Option<T>)
    ensures
        r == if_ok(status, value),
{
    if status == Nfs4Status::NfsOk {
        Some(value)
    } else {
        None
    }
}

/// Which of the functions below an answer is for.
#[derive(Debug, Clone, Copy, PartialEq, Eq, Structural)]
enum Family {
    Session,
    Handle,
    Attrs,
    State,
    Io,
    Space,
    Lock,
    Name,
    Other,
}

spec fn family_of(h: HandlerReply) -> Family {
    match h {
        HandlerReply::ExchangeId { .. } => Family::Session,
        HandlerReply::CreateSession { .. } => Family::Session,
        HandlerReply::Sequence { .. } => Family::Session,
        HandlerReply::DestroySession { .. } => Family::Session,
        HandlerReply::RemoveClient => Family::Session,
        HandlerReply::MarkReclaimComplete(_) => Family::Session,
        HandlerReply::PutRootFh(_) => Family::Handle,
        HandlerReply::PutFh(_) => Family::Handle,
        HandlerReply::PutPubFh(_) => Family::Handle,
        HandlerReply::GetFh(_, _) => Family::Handle,
        HandlerReply::SaveFh(_) => Family::Handle,
        HandlerReply::RestoreFh(_) => Family::Handle,
        HandlerReply::Lookup(_) => Family::Handle,
        HandlerReply::LookupP(_) => Family::Handle,
        HandlerReply::Access { .. } => Family::Attrs,
        HandlerReply::GetAttr { .. } => Family::Attrs,
        HandlerReply::Verify { .. } => Family::Attrs,
        HandlerReply::SetAttr { .. } => Family::Attrs,
        HandlerReply::ReadDir { .. } => Family::Attrs,
        HandlerReply::TestStateId(_) => Family::State,
        HandlerReply::Open { .. } => Family::State,
        HandlerReply::Close { .. } => Family::State,
        HandlerReply::OpenDowngrade(_) => Family::State,
        HandlerReply::FreeStateId(_) => Family::State,
        HandlerReply::Read { .. } => Family::Io,
        HandlerReply::ProxyRead(_) => Family::Io,
        HandlerReply::Write { .. } => Family::Io,
        HandlerReply::ProxyWrite(_) => Family::Io,
        HandlerReply::Commit { .. } => Family::Io,
        HandlerReply::Copy { .. } => Family::Space,
        HandlerReply::Clone(_) => Family::Space,
        HandlerReply::Allocate(_) => Family::Space,
        HandlerReply::Deallocate(_) => Family::Space,
        HandlerReply::Seek { .. } => Family::Space,
        HandlerReply::ReadPlus { .. } => Family::Space,
        HandlerReply::Lock { .. } => Family::Lock,
        HandlerReply::LockT { .. } => Family::Lock,
        HandlerReply::LockU { .. } => Family::Lock,
        HandlerReply::Create { .. } => Family::Name,
        HandlerReply::Remove { .. } => Family::Name,
        HandlerReply::Rename { .. } => Family::Name,
        HandlerReply::Link { .. } => Family::Name,
        HandlerReply::ReadLink { .. } => Family::Name,
        HandlerReply::SecInfo(_) => Family::Other,
        HandlerReply::Layout(_) => Family::Other,
    }
}

fn family(h: &HandlerReply) -> (f: Family)
    ensures
        f == family_of(*h),
{
    match h {
        HandlerReply::ExchangeId { .. } => Family::Session,
        HandlerReply::CreateSession { .. } => Family::Session,
        HandlerReply::Sequence { .. } => Family::Session,
        HandlerReply::DestroySession { .. } => Family::Session,
        HandlerReply::RemoveClient => Family::Session,
        HandlerReply::MarkReclaimComplete(_) => Family::Session,
        HandlerReply::PutRootFh(_) => Family::Handle,
        HandlerReply::PutFh(_) => Family::Handle,
        HandlerReply::PutPubFh(_) => Family::Handle,
        HandlerReply::GetFh(_, _) => Family::Handle,
        HandlerReply::SaveFh(_) => Family::Handle,
        HandlerReply::RestoreFh(_) => Family::Handle,
        HandlerReply::Lookup(_) => Family::Handle,
        HandlerReply::LookupP(_) => Family::Handle,
        HandlerReply::Access { .. } => Family::Attrs,
        HandlerReply::GetAttr { .. } => Family::Attrs,
        HandlerReply::Verify { .. } => Family::Attrs,
        HandlerReply::SetAttr { .. } => Family::Attrs,
        HandlerReply::ReadDir { .. } => Family::Attrs,
        HandlerReply::TestStateId(_) => Family::State,
        HandlerReply::Open { .. } => Family::State,
        HandlerReply::Close { .. } => Family::State,
        HandlerReply::OpenDowngrade(_) => Family::State,
        HandlerReply::FreeStateId(_) => Family::State,
        HandlerReply::Read { .. } => Family::Io,
        HandlerReply::ProxyRead(_) => Family::Io,
        HandlerReply::Write { .. } => Family::Io,
        HandlerReply::ProxyWrite(_) => Family::Io,
        HandlerReply::Commit { .. } => Family::Io,
        HandlerReply::Copy { .. } => Family::Space,
        HandlerReply::Clone(_) => Family::Space,
        HandlerReply::Allocate(_) => Family::Space,
        HandlerReply::Deallocate(_) => Family::Space,
        HandlerReply::Seek { .. } => Family::Space,
        HandlerReply::ReadPlus { .. } => Family::Space,
        HandlerReply::Lock { .. } => Family::Lock,
        HandlerReply::LockT { .. } => Family::Lock,
        HandlerReply::LockU { .. } => Family::Lock,
        HandlerReply::Create { .. } => Family::Name,
        HandlerReply::Remove { .. } => Family::Name,
        HandlerReply::Rename { .. } => Family::Name,
        HandlerReply::Link { .. } => Family::Name,
        HandlerReply::ReadLink { .. } => Family::Name,
        HandlerReply::SecInfo(_) => Family::Other,
        HandlerReply::Layout(_) => Family::Other,
    }
}

/// Sessions, clients and connections.
fn complete_session(h: HandlerReply, context: &mut CompoundContext, pnfs: bool) -> (c: Completion)
    requires
        family_of(h) is Session,
    ensures
        forall|verifier: u64| #[trigger] completes(h, pnfs, verifier, c),
        final(context)@ == context_completed(h, old(context)@),
{
    match h {
        HandlerReply::ExchangeId { status, result } => {
            let flags: u32 = if pnfs {
                (result.flags & !EXCHGID4_FLAG_MASK_PNFS) | EXCHGID4_FLAG_USE_PNFS_MDS
            } else {
                result.flags
            };
            let result = ExchangeIdResult {
                clientid: result.clientid,
                sequenceid: result.sequenceid,
                flags,
                server_owner: result.server_owner,
                server_scope: result.server_scope,
            };
            plain(OperationResult::ExchangeId(status, keep_if_ok(status, result)))
        },
        HandlerReply::CreateSession { status, result, back_chan_bound } => {
            let effect = if status == Nfs4Status::NfsOk {
                Effect::Bind { sessionid: result.sessionid, back: back_chan_bound }
            } else {
                Effect::Nothing
            };
            let result = OperationResult::CreateSession(status, keep_if_ok(status, result));
            Completion { result, effect }
        },
        HandlerReply::Sequence {
            status,
            sessionid,
            sequenceid,
            slotid,
            highest_slotid,
            target_highest_slotid,
            status_flags,
        } => {
            if status != Nfs4Status::NfsOk {
                return plain(OperationResult::Sequence(status, None));
            }
            context.session_id = Some(sessionid);
            Completion {
                result: OperationResult::Sequence(
                    status,
                    Some(
                        SequenceResult {
                            sessionid,
                            sequenceid,
                            slotid,
                            highest_slotid,
                            target_highest_slotid,
                            status_flags,
                        },
                    ),
                ),
                effect: Effect::Bind { sessionid, back: false },
            }
        },
        HandlerReply::DestroySession { status, sessionid } => {
            let effect = if status == Nfs4Status::NfsOk {
                Effect::Unbind(sessionid)
            } else {
                Effect::Nothing
            };
            Completion { result: OperationResult::DestroySession(status), effect }
        },
        HandlerReply::RemoveClient => plain(OperationResult::DestroyClientId(Nfs4Status::NfsOk)),
        HandlerReply::MarkReclaimComplete(outcome) => {
            let status = match outcome {
                ReclaimCompleteOutcome::Marked => Nfs4Status::NfsOk,
                ReclaimCompleteOutcome::AlreadyComplete => Nfs4Status::CompleteAlready,
                ReclaimCompleteOutcome::NoSuchClient => Nfs4Status::StaleClientId,
            };
            plain(OperationResult::ReclaimComplete(status))
        },
        _ => plain(OperationResult::Unsupported { opcode: 0, status: Nfs4Status::ServerFault }),
    }
}

/// Filehandles and names.
fn complete_handle(h: HandlerReply, context: &mut CompoundContext) -> (c: Completion)
    requires
        family_of(h) is Handle,
    ensures
        forall|pnfs: bool, verifier: u64| #[trigger] completes(h, pnfs, verifier, c),
        final(context)@ == context_completed(h, old(context)@),
{
    match h {
        HandlerReply::PutRootFh(status) => plain(OperationResult::PutRootFh(status)),
        HandlerReply::PutFh(status) => plain(OperationResult::PutFh(status)),
        HandlerReply::PutPubFh(status) => plain(OperationResult::PutPubFh(status)),
        HandlerReply::GetFh(status, fh) => plain(OperationResult::GetFh(status, fh)),
        HandlerReply::SaveFh(status) => plain(OperationResult::SaveFh(status)),
        HandlerReply::RestoreFh(status) => {
            context.current_stateid = if status == Nfs4Status::NfsOk {
                context.saved_stateid
            } else {
                None
            };
            plain(OperationResult::RestoreFh(status))
        },
        HandlerReply::Lookup(status) => plain(OperationResult::Lookup(status)),
        HandlerReply::LookupP(status) => plain(OperationResult::Lookup(status)),
        _ => plain(OperationResult::Unsupported { opcode: 0, status: Nfs4Status::ServerFault }),
    }
}

/// Attributes and rights.
fn complete_attrs(h: HandlerReply, pnfs: bool) -> (c: Completion)
    requires
        family_of(h) is Attrs,
    ensures
        forall|verifier: u64| #[trigger] completes(h, pnfs, verifier, c),
        forall|v: ContextView| #[trigger] context_completed(h, v) == v,
{
    match h {
        HandlerReply::Access { status, supported, access } => plain(
            OperationResult::Access(status, Some((supported, access))),
        ),
        HandlerReply::GetAttr { status, attrs } => if status == Nfs4Status::NfsOk {
            plain(OperationResult::GetAttr(status, Some(encode_fattr(attrs))))
        } else {
            plain(OperationResult::GetAttr(status, None))
        },
        HandlerReply::Verify { is_nverify, want, status, have } => plain(
            handle_verify(is_nverify, want, status, have),
        ),
        HandlerReply::SetAttr { status, attrsset, requested } => {
            let effect = truncate_effect(pnfs, &attrsset, requested);
            Completion { result: OperationResult::SetAttr(status, attrsset), effect }
        },
        HandlerReply::ReadDir { status, result } => plain(
            OperationResult::ReadDir(status, keep_if_ok(status, result)),
        ),
        _ => plain(OperationResult::Unsupported { opcode: 0, status: Nfs4Status::ServerFault }),
    }
}

/// Opens and stateids.
fn complete_state(h: HandlerReply, context: &mut CompoundContext, pnfs: bool) -> (c: Completion)
    requires
        family_of(h) is State,
    ensures
        forall|verifier: u64| #[trigger] completes(h, pnfs, verifier, c),
        final(context)@ == context_completed(h, old(context)@),
{
    match h {
        HandlerReply::TestStateId(valid) => plain(
            OperationResult::TestStateId(Nfs4Status::NfsOk, Some(tested_statuses(&valid))),
        ),
        HandlerReply::Open { status, stateid, change_info, result_flags, attrset, requested } => {
            if status != Nfs4Status::NfsOk {
                return plain(OperationResult::Open(status, None));
            }
            let effect = truncate_effect(pnfs, &attrset, requested);
            if stateid.is_some() {
                context.current_stateid = stateid;
            }
            let result = match (stateid, change_info) {
                (Some(stateid), Some(change_info)) => Some(
                    OpenResult { stateid, change_info, result_flags, attrset, delegation: None },
                ),
                _ => None,
            };
            Completion { result: OperationResult::Open(status, result), effect }
        },
        HandlerReply::Close { status, stateid } => plain(OperationResult::Close(status, stateid)),
        HandlerReply::OpenDowngrade(outcome) => match outcome {
            Ok(stateid) => {
                context.current_stateid = Some(stateid);
                plain(OperationResult::OpenDowngrade(Nfs4Status::NfsOk, Some(stateid)))
            },
            Err(status) => plain(OperationResult::OpenDowngrade(status, None)),
        },
        HandlerReply::FreeStateId(entry) => {
            let (status, effect) = match entry {
                None => (Nfs4Status::NfsOk, Effect::Nothing),
                Some(e) => if e.revoked {
                    (Nfs4Status::NfsOk, Effect::CloseState)
                } else {
                    match e.state_type {
                        StateType::Open | StateType::Lock => (
                            Nfs4Status::LocksHeld,
                            Effect::Nothing,
                        ),
                        _ => (Nfs4Status::NfsOk, Effect::RevokeState),
                    }
                },
            };
            Completion { result: OperationResult::FreeStateId(status), effect }
        },
        _ => plain(OperationResult::Unsupported { opcode: 0, status: Nfs4Status::ServerFault }),
    }
}

/// Reading and writing.
fn complete_io(h: HandlerReply, verifier: u64) -> (c: Completion)
    requires
        family_of(h) is Io,
    ensures
        forall|pnfs: bool| #[trigger] completes(h, pnfs, verifier, c),
        forall|v: ContextView| #[trigger] context_completed(h, v) == v,
{
    match h {
        HandlerReply::Read { status, result } => plain(
            OperationResult::Read(status, keep_if_ok(status, result)),
        ),
        HandlerReply::ProxyRead(outcome) => match outcome {
            Some(result) => plain(OperationResult::Read(Nfs4Status::NfsOk, Some(result))),
            None => plain(OperationResult::Read(Nfs4Status::Delay, None)),
        },
        HandlerReply::Write { status, count, committed, verifier } => if status
            == Nfs4Status::NfsOk {
            let verifier = verifier_octets(verifier);
            plain(OperationResult::Write(status, Some(WriteResult { count, committed, verifier })))
        } else {
            plain(OperationResult::Write(status, None))
        },
        HandlerReply::ProxyWrite(outcome) => match outcome {
            ProxyWriteOutcome::Failed => plain(OperationResult::Write(Nfs4Status::Delay, None)),
            ProxyWriteOutcome::SizeFailed => plain(OperationResult::Write(Nfs4Status::Io, None)),
            ProxyWriteOutcome::Written { len } => {
                let w = WriteResult {
                    count: len as u32,
                    committed: FILE_SYNC4,
                    verifier: verifier_octets(verifier),
                };
                plain(OperationResult::Write(Nfs4Status::NfsOk, Some(w)))
            },
        },
        HandlerReply::Commit { status, verifier } => if status == Nfs4Status::NfsOk {
            plain(OperationResult::Commit(status, Some(verifier_octets(verifier))))
        } else {
            plain(OperationResult::Commit(status, None))
        },
        _ => plain(OperationResult::Unsupported { opcode: 0, status: Nfs4Status::ServerFault }),
    }
}

/// What NFSv4.2 does with the space of files.
fn complete_space(h: HandlerReply, verifier: u64) -> (c: Completion)
    requires
        family_of(h) is Space,
    ensures
        forall|pnfs: bool| #[trigger] completes(h, pnfs, verifier, c),
        forall|v: ContextView| #[trigger] context_completed(h, v) == v,
{
    match h {
        HandlerReply::Copy { status, count, sync } => {
            let result = CopyResult { count, consecutive: true, synchronous: sync, verifier };
            plain(OperationResult::Copy(status, keep_if_ok(status, result)))
        },
        HandlerReply::Clone(status) => plain(OperationResult::Clone(status)),
        HandlerReply::Allocate(status) => plain(OperationResult::Allocate(status)),
        HandlerReply::Deallocate(status) => plain(OperationResult::Deallocate(status)),
        HandlerReply::Seek { status, eof, offset } => plain(
            OperationResult::Seek(status, keep_if_ok(status, SeekResult { eof, offset })),
        ),
        HandlerReply::ReadPlus { status, result } => plain(
            OperationResult::ReadPlus(status, keep_if_ok(status, result)),
        ),
        _ => plain(OperationResult::Unsupported { opcode: 0, status: Nfs4Status::ServerFault }),
    }
}

/// Byte-range locks.
fn complete_lock(h: HandlerReply, context: &mut CompoundContext) -> (c: Completion)
    requires
        family_of(h) is Lock,
    ensures
        forall|pnfs: bool, verifier: u64| #[trigger] completes(h, pnfs, verifier, c),
        final(context)@ == context_completed(h, old(context)@),
{
    match h {
        HandlerReply::Lock { status, stateid, denied } => {
            if status == Nfs4Status::NfsOk && stateid.is_some() {
                context.current_stateid = stateid;
            }
            plain(OperationResult::Lock(status, stateid, denied))
        },
        HandlerReply::LockT { status, denied } => plain(OperationResult::LockT(status, denied)),
        HandlerReply::LockU { status, stateid } => {
            if status == Nfs4Status::NfsOk && stateid.is_some() {
                context.current_stateid = stateid;
            }
            plain(OperationResult::LockU(status, stateid))
        },
        _ => plain(OperationResult::Unsupported { opcode: 0, status: Nfs4Status::ServerFault }),
    }
}

/// Changes to the namespace.
fn complete_name(h: HandlerReply, pnfs: bool) -> (c: Completion)
    requires
        family_of(h) is Name,
    ensures
        forall|verifier: u64| #[trigger] completes(h, pnfs, verifier, c),
        forall|v: ContextView| #[trigger] context_completed(h, v) == v,
{
    match h {
        HandlerReply::Create { status, change_info, attrset } => plain(
            OperationResult::Create(status, change_info, attrset),
        ),
        HandlerReply::Remove { status, change_info } => {
            let effect = if pnfs && status == Nfs4Status::NfsOk {
                Effect::Removed
            } else {
                Effect::Nothing
            };
            Completion { result: OperationResult::Remove(status, change_info), effect }
        },
        HandlerReply::Rename { status, source_cinfo, target_cinfo } => {
            let effect = if pnfs && status == Nfs4Status::NfsOk {
                Effect::Renamed
            } else {
                Effect::Nothing
            };
            Completion {
                result: OperationResult::Rename(status, source_cinfo, target_cinfo),
                effect,
            }
        },
        HandlerReply::Link { status, change_info } => plain(
            OperationResult::Link(status, change_info),
        ),
        HandlerReply::ReadLink { status, link } => plain(OperationResult::ReadLink(status, link)),
        _ => plain(OperationResult::Unsupported { opcode: 0, status: Nfs4Status::ServerFault }),
    }
}

/// Security flavors and layouts.
fn complete_other(h: HandlerReply, context: &mut CompoundContext) -> (c: Completion)
    requires
        family_of(h) is Other,
    ensures
        forall|pnfs: bool, verifier: u64| #[trigger] completes(h, pnfs, verifier, c),
        final(context)@ == context_completed(h, old(context)@),
{
    match h {
        HandlerReply::SecInfo(found) => {
            let status = match found {
                SecInfoFound::Stale => Nfs4Status::Stale,
                SecInfoFound::NotDir => Nfs4Status::NotDir,
                SecInfoFound::Missing => Nfs4Status::NoEnt,
                SecInfoFound::Found => {
                    context.clear_current_fh();
                    Nfs4Status::NfsOk
                },
            };
            plain(OperationResult::SecInfo(status))
        },
        HandlerReply::Layout(result) => plain(result),
        _ => plain(OperationResult::Unsupported { opcode: 0, status: Nfs4Status::ServerFault }),
    }
}

/// Turn the answer of a handler into a result.
pub fn complete(
    h: HandlerReply,
    context: &mut CompoundContext,
    pnfs: bool,
    verifier: WriteVerifier,
) -> (c: Completion)
    ensures
        completes(h, pnfs, verifier@, c),
        verifier@ != 0,
        final(context)@ == context_completed(h, old(context)@),
{
    let verifier: u64 = verifier.get();
    match family(&h) {
        Family::Session => complete_session(h, context, pnfs),
        Family::Handle => complete_handle(h, context),
        Family::Attrs => complete_attrs(h, pnfs),
        Family::State => complete_state(h, context, pnfs),
        Family::Io => complete_io(h, verifier),
        Family::Space => complete_space(h, verifier),
        Family::Lock => complete_lock(h, context),
        Family::Name => complete_name(h, pnfs),
        Family::Other => complete_other(h, context),
    }
}

// ---------------------------------------------------------------------------
// Laws
// ---------------------------------------------------------------------------

/// Law: a metadata server says that it is one, a server that is none does not
/// begin to, and what else the flags say is kept.
pub proof fn only_a_metadata_server_says_it_is_one(flags: u32)
    ensures
        role_flags(flags, true) & EXCHGID4_FLAG_USE_PNFS_MDS == EXCHGID4_FLAG_USE_PNFS_MDS,
        role_flags(flags, true) & !EXCHGID4_FLAG_MASK_PNFS == flags & !EXCHGID4_FLAG_MASK_PNFS,
        role_flags(flags, false) == flags,
{
    assert(((flags & !0x0007_0000u32) | 0x0002_0000u32) & 0x0002_0000u32 == 0x0002_0000u32)
        by (bit_vector);
    assert(((flags & !0x0007_0000u32) | 0x0002_0000u32) & !0x0007_0000u32 == flags & !0x0007_0000u32)
        by (bit_vector);
}

/// Law: RESTOREFH brings the stateid back that SAVEFH put aside with the
/// filehandle.
pub proof fn a_restored_filehandle_has_its_stateid(c: ContextView)
    ensures
        context_completed(HandlerReply::RestoreFh(Nfs4Status::NfsOk), c).current_stateid
            == c.saved_stateid,
{
}

/// Law: a stateid that is in use is never freed, and every other one is, whether
/// the server knows it or not.
pub proof fn only_what_is_in_use_is_kept(entry: Option<StateEntry>)
    ensures
        freed(entry).0 is NfsOk || freed(entry).0 is LocksHeld,
        freed(entry).0 is LocksHeld <==> (entry is Some && !entry->0.revoked && (
        entry->0.state_type is Open || entry->0.state_type is Lock)),
        freed(entry).0 is LocksHeld ==> freed(entry).1 is Nothing,
{
}

/// Law: what the server raised for a client is on its next SEQUENCE: a revocation
/// is never silent.
pub proof fn raised_flags_reach_the_client(h: HandlerReply, pnfs: bool, verifier: u64, c: Completion)
    requires
        completes(h, pnfs, verifier, c),
        h is Sequence,
        h->Sequence_status is NfsOk,
    ensures
        c.result matches OperationResult::Sequence(s, Some(r)) && s is NfsOk && r.status_flags
            == h->status_flags,
{
}

/// Law: COPY and COMMIT report one and the same write verifier, the server's, which
/// is not 0, so that a client can tell whether the server restarted in between and
/// does not retry for ever. `copied` and
/// `committed` are the completions of a COPY and of a COMMIT whose handler read
/// the verifier where COPY has it from.
pub proof fn copy_and_commit_report_one_verifier(
    verifier: u64,
    pnfs: bool,
    count: u64,
    sync: bool,
    copied: Completion,
    committed: Completion,
)
    requires
        verifier != 0,
        completes(
            HandlerReply::Copy { status: Nfs4Status::NfsOk, count, sync },
            pnfs,
            verifier,
            copied,
        ),
        completes(
            HandlerReply::Commit { status: Nfs4Status::NfsOk, verifier },
            pnfs,
            verifier,
            committed,
        ),
    ensures
        copied.result matches OperationResult::Copy(s, Some(r)) && s is NfsOk && r.verifier
            == verifier && r.verifier != 0,
        committed.result matches OperationResult::Commit(s, Some(v)) && s is NfsOk && octets::u64_of(
            v@,
        ) == verifier && octets::u64_of(v@) != 0,
{
    octets::lemma_u64_round_trip(verifier);
}

} // verus!
