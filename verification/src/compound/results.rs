//! The results of the operations.
use vstd::prelude::*;

use bytes::Bytes;

use crate::compound::types::ChannelAttrs;
use crate::protocol::{Nfs4FileHandle, Nfs4Status, SessionId, StateId};
use crate::segment::Segment;

verus! {

/// EXCHANGE_ID4resok.
#[derive(Debug)]
pub struct ExchangeIdResult {
    pub clientid: u64,
    pub sequenceid: u32,
    pub flags: u32,
    pub server_owner: String,
    pub server_scope: Vec<u8>,
}

/// CREATE_SESSION4resok.
#[derive(Debug)]
pub struct CreateSessionResult {
    pub sessionid: SessionId,
    pub sequenceid: u32,
    pub flags: u32,
    pub fore_chan_attrs: ChannelAttrs,
    pub back_chan_attrs: ChannelAttrs,
}

/// SEQUENCE4resok.
#[derive(Debug, Clone, Copy)]
pub struct SequenceResult {
    pub sessionid: SessionId,
    pub sequenceid: u32,
    pub slotid: u32,
    pub highest_slotid: u32,
    pub target_highest_slotid: u32,
    pub status_flags: u32,
}

/// COPY4resok.
#[derive(Debug, Clone, Copy)]
pub struct CopyResult {
    pub count: u64,
    pub consecutive: bool,
    pub synchronous: bool,
    /// `wr_writeverf`: the write verifier that COMMIT reports.
    pub verifier: u64,
}

/// SEEK4resok.
#[derive(Debug, Clone, Copy)]
pub struct SeekResult {
    pub eof: bool,
    pub offset: u64,
}

/// READ_PLUS4resok.
#[derive(Debug)]
pub struct ReadPlusResult {
    pub eof: bool,
    pub segments: Vec<ReadPlusSegment>,
}

/// `read_plus_content`.
#[derive(Debug)]
pub enum ReadPlusSegment {
    Data { offset: u64, data: Bytes },
    Hole { offset: u64, length: u64 },
}

/// `change_info4`.
#[derive(Debug, Clone, Copy, PartialEq, Eq, Structural)]
pub struct ChangeInfo {
    pub atomic: bool,
    pub before: u64,
    pub after: u64,
}

impl Default for ChangeInfo {
    fn default() -> (c: ChangeInfo)
        ensures
            c == (ChangeInfo { atomic: false, before: 0, after: 0 }),
    {
        ChangeInfo { atomic: false, before: 0, after: 0 }
    }
}

/// OPEN4resok.
#[derive(Debug)]
pub struct OpenResult {
    pub stateid: StateId,
    pub change_info: ChangeInfo,
    pub result_flags: u32,
    pub attrset: Vec<u32>,
    pub delegation: Option<Delegation>,
}

/// `open_delegation4`, as far as this server grants or refuses one.
#[derive(Debug, Clone, Copy, PartialEq, Eq)]
pub enum Delegation {
    /// OPEN_DELEGATE_READ.
    Read { stateid: StateId },
    /// OPEN_DELEGATE_NONE_EXT: no delegation, and why.
    NoneExt { why: WhyNoDelegation },
}

/// `why_no_delegation4`, narrowed to the reasons that this server gives.
#[derive(Debug, Clone, Copy, PartialEq, Eq, Structural)]
pub enum WhyNoDelegation {
    /// WND4_NOT_WANTED: the client asked for none.
    NotWanted,
    /// WND4_CONTENTION: another use of the file stands against it.
    Contention,
    /// WND4_RESOURCE: the server could not.
    Resource,
    /// WND4_CANCELLED: the client withdrew its want.
    Cancelled,
}

/// The number of a reason on the wire.
pub open spec fn why_code(why: WhyNoDelegation) -> u32 {
    match why {
        WhyNoDelegation::NotWanted => 0,
        WhyNoDelegation::Contention => 1,
        WhyNoDelegation::Resource => 2,
        WhyNoDelegation::Cancelled => 7,
    }
}

/// The boolean that the arm of a reason carries. Contention and resource carry
/// one, and it is false: this server neither pushes a delegation later nor
/// signals that one became available. The other arms are void.
pub open spec fn why_bool(why: WhyNoDelegation) -> Option<bool> {
    if why is Contention || why is Resource {
        Some(false)
    } else {
        None
    }
}

impl WhyNoDelegation {
    pub fn code(self) -> (c: u32)
        ensures
            c == why_code(self),
    {
        match self {
            WhyNoDelegation::NotWanted => 0,
            WhyNoDelegation::Contention => 1,
            WhyNoDelegation::Resource => 2,
            WhyNoDelegation::Cancelled => 7,
        }
    }

    pub fn trailing_bool(self) -> (b: Option<bool>)
        ensures
            b == why_bool(self),
    {
        match self {
            WhyNoDelegation::Contention => Some(false),
            WhyNoDelegation::Resource => Some(false),
            _ => None,
        }
    }
}

/// READDIR4resok.
#[derive(Debug)]
pub struct ReadDirResult {
    pub entries: Vec<DirEntry>,
    pub eof: bool,
    pub cookieverf: u64,
}

/// `entry4`; `attrs` is already in wire form.
#[derive(Debug)]
pub struct DirEntry {
    pub cookie: u64,
    pub name: String,
    pub attrs: Bytes,
}

/// READ4resok.
#[derive(Debug)]
pub struct ReadResult {
    pub eof: bool,
    pub data: Segment,
}

/// WRITE4resok.
#[derive(Debug, Clone, Copy)]
pub struct WriteResult {
    pub count: u32,
    pub committed: u32,
    pub verifier: [u8; 8],
}

/// `nfs_lock_type4`, without the blocking variants.
#[derive(Debug, Clone, Copy, PartialEq, Eq, Structural)]
pub enum LockType {
    Read,
    Write,
}

/// The number of a lock type on the wire.
pub open spec fn lock_code(t: LockType) -> u32 {
    match t {
        LockType::Read => 1,
        LockType::Write => 2,
    }
}

impl LockType {
    pub fn code(self) -> (c: u32)
        ensures
            c == lock_code(self),
    {
        match self {
            LockType::Read => 1,
            LockType::Write => 2,
        }
    }

    /// The type a client asks for: READ_LT is a read lock, every other word a
    /// write lock.
    pub fn from_wire(locktype: u32) -> (t: LockType)
        ensures
            t == (if locktype == 1 {
                LockType::Read
            } else {
                LockType::Write
            }),
    {
        if locktype == 1 {
            LockType::Read
        } else {
            LockType::Write
        }
    }
}

/// LOCK4denied: the lock that stands in the way.
#[derive(Debug)]
pub struct LockDenied {
    pub offset: u64,
    pub length: u64,
    pub locktype: LockType,
    pub client_id: u64,
    pub owner: Vec<u8>,
}

/// The result of one operation.
#[derive(Debug)]
pub enum OperationResult {
    // Filehandles
    PutRootFh(Nfs4Status),
    PutFh(Nfs4Status),
    GetFh(Nfs4Status, Option<Nfs4FileHandle>),
    SaveFh(Nfs4Status),
    RestoreFh(Nfs4Status),
    PutPubFh(Nfs4Status),
    // Names and directories
    Lookup(Nfs4Status),
    ReadDir(Nfs4Status, Option<ReadDirResult>),
    // File I/O
    Open(Nfs4Status, Option<OpenResult>),
    Close(Nfs4Status, Option<StateId>),
    OpenDowngrade(Nfs4Status, Option<StateId>),
    Read(Nfs4Status, Option<ReadResult>),
    Write(Nfs4Status, Option<WriteResult>),
    Commit(Nfs4Status, Option<[u8; 8]>),
    // Delegations
    DelegPurge(Nfs4Status),
    DelegReturn(Nfs4Status),
    BackchannelCtl(Nfs4Status),
    // Attributes
    /// The `fattr4`, in wire form.
    GetAttr(Nfs4Status, Option<Bytes>),
    /// The bitmap of the attributes that were set, on failure too.
    SetAttr(Nfs4Status, Vec<u32>),
    Verify(Nfs4Status),
    Nverify(Nfs4Status),
    /// The rights that were checked, and those granted.
    Access(Nfs4Status, Option<(u32, u32)>),
    // Namespace changes
    Create(Nfs4Status, Option<ChangeInfo>, Vec<u32>),
    Remove(Nfs4Status, Option<ChangeInfo>),
    Rename(Nfs4Status, Option<ChangeInfo>, Option<ChangeInfo>),
    Link(Nfs4Status, Option<ChangeInfo>),
    ReadLink(Nfs4Status, Option<String>),
    // Sessions
    ExchangeId(Nfs4Status, Option<ExchangeIdResult>),
    CreateSession(Nfs4Status, Option<CreateSessionResult>),
    DestroySession(Nfs4Status),
    DestroyClientId(Nfs4Status),
    BindConnToSession(Nfs4Status, Option<SessionId>, u32, bool),
    Sequence(Nfs4Status, Option<SequenceResult>),
    ReclaimComplete(Nfs4Status),
    SecInfo(Nfs4Status),
    SecInfoNoName(Nfs4Status),
    TestStateId(Nfs4Status, Option<Vec<Nfs4Status>>),
    FreeStateId(Nfs4Status),
    // NFSv4.2
    Allocate(Nfs4Status),
    Deallocate(Nfs4Status),
    Seek(Nfs4Status, Option<SeekResult>),
    Copy(Nfs4Status, Option<CopyResult>),
    Clone(Nfs4Status),
    ReadPlus(Nfs4Status, Option<ReadPlusResult>),
    // pNFS
    /// The layouts, in wire form.
    LayoutGet(Nfs4Status, Option<Bytes>),
    /// The device address, or the size it would take, in wire form.
    GetDeviceInfo(Nfs4Status, Option<Bytes>),
    LayoutReturn(Nfs4Status),
    /// The new size, when the commit extended the file.
    LayoutCommit(Nfs4Status, Option<u64>),
    /// An operation that was not carried out, under its own number.
    Unsupported { opcode: u32, status: Nfs4Status },
    // Locks
    Lock(Nfs4Status, Option<StateId>, Option<LockDenied>),
    LockT(Nfs4Status, Option<LockDenied>),
    LockU(Nfs4Status, Option<StateId>),
}

} // verus!
