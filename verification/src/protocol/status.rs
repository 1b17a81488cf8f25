//! `nfsstat4` (RFC 8881 section 15.1, RFC 7862 section 11): the status words.
use vstd::prelude::*;

verus! {

/// The outcome of one operation or of a whole COMPOUND.
#[derive(Debug, Clone, Copy, PartialEq, Eq, Structural)]
pub enum Nfs4Status {
    NfsOk,
    Perm,
    NoEnt,
    Io,
    Nxio,
    Access,
    Exist,
    XDev,
    NotDir,
    IsDir,
    Inval,
    FBig,
    NoSpc,
    RoFs,
    MLink,
    NameTooLong,
    NotEmpty,
    DQuot,
    Stale,
    BadHandle,
    BadCookie,
    NotSupp,
    TooSmall,
    ServerFault,
    BadType,
    Delay,
    Same,
    Denied,
    Expired,
    Locked,
    Grace,
    FhExpired,
    ShareDenied,
    WrongSec,
    ClidInUse,
    Resource,
    Moved,
    NoFileHandle,
    MinorVersMismatch,
    StaleClientId,
    StaleStateId,
    OldStateId,
    BadStateId,
    BadSeqId,
    NotSame,
    LockRange,
    Symlink,
    RestoReFh,
    LeaseMoved,
    AttrNotsupp,
    NoGrace,
    ReclaimBad,
    ReclaimConflict,
    BadXdr,
    LocksHeld,
    OpenMode,
    BadOwner,
    BadChar,
    BadName,
    BadRange,
    LockNotsupp,
    OpIllegal,
    Deadlock,
    FileOpen,
    AdminRevoked,
    CbPathDown,
    BadIoMode,
    BadLayout,
    BadSessionDigest,
    BadSession,
    BadSlot,
    CompleteAlready,
    ConnNotBoundToSession,
    DelegAlreadyWanted,
    BackChanBusy,
    LayoutTrylater,
    LayoutUnavail,
    NoMatchingLayout,
    RecallConflict,
    UnknownLayoutType,
    SeqMisordered,
    SequencePos,
    ReqTooBig,
    RepTooBig,
    RepTooBigToCache,
    RetryUncachedRep,
    UnsafeCompound,
    TooManyOps,
    OpNotInSession,
    HashAlgUnsupp,
    ClientIdBusy,
    PnfsIoHole,
    SeqFalseRetry,
    BadHighSlot,
    DeadSession,
    EncrAlgUnsupp,
    PnfsNoLayout,
    NotOnlyOp,
    WrongCred,
    WrongType,
    DirDelegUnavail,
    RejectDeleg,
    ReturnConflict,
    DelegRevoked,
    PartnerNotsupp,
    PartnerNoAuth,
    UnionNotsupp,
    OffloadDenied,
    WrongLfs,
    BadLabel,
    OffloadNoReqs,
}

/// The number that stands for a status on the wire.
pub open spec fn status_code(s: Nfs4Status) -> u32 {
    match s {
        Nfs4Status::NfsOk => 0,
        Nfs4Status::Perm => 1,
        Nfs4Status::NoEnt => 2,
        Nfs4Status::Io => 5,
        Nfs4Status::Nxio => 6,
        Nfs4Status::Access => 13,
        Nfs4Status::Exist => 17,
        Nfs4Status::XDev => 18,
        Nfs4Status::NotDir => 20,
        Nfs4Status::IsDir => 21,
        Nfs4Status::Inval => 22,
        Nfs4Status::FBig => 27,
        Nfs4Status::NoSpc => 28,
        Nfs4Status::RoFs => 30,
        Nfs4Status::MLink => 31,
        Nfs4Status::NameTooLong => 63,
        Nfs4Status::NotEmpty => 66,
        Nfs4Status::DQuot => 69,
        Nfs4Status::Stale => 70,
        Nfs4Status::BadHandle => 10001,
        Nfs4Status::BadCookie => 10003,
        Nfs4Status::NotSupp => 10004,
        Nfs4Status::TooSmall => 10005,
        Nfs4Status::ServerFault => 10006,
        Nfs4Status::BadType => 10007,
        Nfs4Status::Delay => 10008,
        Nfs4Status::Same => 10009,
        Nfs4Status::Denied => 10010,
        Nfs4Status::Expired => 10011,
        Nfs4Status::Locked => 10012,
        Nfs4Status::Grace => 10013,
        Nfs4Status::FhExpired => 10014,
        Nfs4Status::ShareDenied => 10015,
        Nfs4Status::WrongSec => 10016,
        Nfs4Status::ClidInUse => 10017,
        Nfs4Status::Resource => 10018,
        Nfs4Status::Moved => 10019,
        Nfs4Status::NoFileHandle => 10020,
        Nfs4Status::MinorVersMismatch => 10021,
        Nfs4Status::StaleClientId => 10022,
        Nfs4Status::StaleStateId => 10023,
        Nfs4Status::OldStateId => 10024,
        Nfs4Status::BadStateId => 10025,
        Nfs4Status::BadSeqId => 10026,
        Nfs4Status::NotSame => 10027,
        Nfs4Status::LockRange => 10028,
        Nfs4Status::Symlink => 10029,
        Nfs4Status::RestoReFh => 10030,
        Nfs4Status::LeaseMoved => 10031,
        Nfs4Status::AttrNotsupp => 10032,
        Nfs4Status::NoGrace => 10033,
        Nfs4Status::ReclaimBad => 10034,
        Nfs4Status::ReclaimConflict => 10035,
        Nfs4Status::BadXdr => 10036,
        Nfs4Status::LocksHeld => 10037,
        Nfs4Status::OpenMode => 10038,
        Nfs4Status::BadOwner => 10039,
        Nfs4Status::BadChar => 10040,
        Nfs4Status::BadName => 10041,
        Nfs4Status::BadRange => 10042,
        Nfs4Status::LockNotsupp => 10043,
        Nfs4Status::OpIllegal => 10044,
        Nfs4Status::Deadlock => 10045,
        Nfs4Status::FileOpen => 10046,
        Nfs4Status::AdminRevoked => 10047,
        Nfs4Status::CbPathDown => 10048,
        Nfs4Status::BadIoMode => 10049,
        Nfs4Status::BadLayout => 10050,
        Nfs4Status::BadSessionDigest => 10051,
        Nfs4Status::BadSession => 10052,
        Nfs4Status::BadSlot => 10053,
        Nfs4Status::CompleteAlready => 10054,
        Nfs4Status::ConnNotBoundToSession => 10055,
        Nfs4Status::DelegAlreadyWanted => 10056,
        Nfs4Status::BackChanBusy => 10057,
        Nfs4Status::LayoutTrylater => 10058,
        Nfs4Status::LayoutUnavail => 10059,
        Nfs4Status::NoMatchingLayout => 10060,
        Nfs4Status::RecallConflict => 10061,
        Nfs4Status::UnknownLayoutType => 10062,
        Nfs4Status::SeqMisordered => 10063,
        Nfs4Status::SequencePos => 10064,
        Nfs4Status::ReqTooBig => 10065,
        Nfs4Status::RepTooBig => 10066,
        Nfs4Status::RepTooBigToCache => 10067,
        Nfs4Status::RetryUncachedRep => 10068,
        Nfs4Status::UnsafeCompound => 10069,
        Nfs4Status::TooManyOps => 10070,
        Nfs4Status::OpNotInSession => 10071,
        Nfs4Status::HashAlgUnsupp => 10072,
        Nfs4Status::ClientIdBusy => 10074,
        Nfs4Status::PnfsIoHole => 10075,
        Nfs4Status::SeqFalseRetry => 10076,
        Nfs4Status::BadHighSlot => 10077,
        Nfs4Status::DeadSession => 10078,
        Nfs4Status::EncrAlgUnsupp => 10079,
        Nfs4Status::PnfsNoLayout => 10080,
        Nfs4Status::NotOnlyOp => 10081,
        Nfs4Status::WrongCred => 10082,
        Nfs4Status::WrongType => 10083,
        Nfs4Status::DirDelegUnavail => 10084,
        Nfs4Status::RejectDeleg => 10085,
        Nfs4Status::ReturnConflict => 10086,
        Nfs4Status::DelegRevoked => 10087,
        Nfs4Status::PartnerNotsupp => 10088,
        Nfs4Status::PartnerNoAuth => 10089,
        Nfs4Status::UnionNotsupp => 10090,
        Nfs4Status::OffloadDenied => 10091,
        Nfs4Status::WrongLfs => 10092,
        Nfs4Status::BadLabel => 10093,
        Nfs4Status::OffloadNoReqs => 10094,
    }
}

impl Nfs4Status {
    /// The number that stands for this status on the wire.
    pub fn to_u32(self) -> (code: u32)
        ensures
            code == status_code(self),
    {
        match self {
            Nfs4Status::NfsOk => 0,
            Nfs4Status::Perm => 1,
            Nfs4Status::NoEnt => 2,
            Nfs4Status::Io => 5,
            Nfs4Status::Nxio => 6,
            Nfs4Status::Access => 13,
            Nfs4Status::Exist => 17,
            Nfs4Status::XDev => 18,
            Nfs4Status::NotDir => 20,
            Nfs4Status::IsDir => 21,
            Nfs4Status::Inval => 22,
            Nfs4Status::FBig => 27,
            Nfs4Status::NoSpc => 28,
            Nfs4Status::RoFs => 30,
            Nfs4Status::MLink => 31,
            Nfs4Status::NameTooLong => 63,
            Nfs4Status::NotEmpty => 66,
            Nfs4Status::DQuot => 69,
            Nfs4Status::Stale => 70,
            Nfs4Status::BadHandle => 10001,
            Nfs4Status::BadCookie => 10003,
            Nfs4Status::NotSupp => 10004,
            Nfs4Status::TooSmall => 10005,
            Nfs4Status::ServerFault => 10006,
            Nfs4Status::BadType => 10007,
            Nfs4Status::Delay => 10008,
            Nfs4Status::Same => 10009,
            Nfs4Status::Denied => 10010,
            Nfs4Status::Expired => 10011,
            Nfs4Status::Locked => 10012,
            Nfs4Status::Grace => 10013,
            Nfs4Status::FhExpired => 10014,
            Nfs4Status::ShareDenied => 10015,
            Nfs4Status::WrongSec => 10016,
            Nfs4Status::ClidInUse => 10017,
            Nfs4Status::Resource => 10018,
            Nfs4Status::Moved => 10019,
            Nfs4Status::NoFileHandle => 10020,
            Nfs4Status::MinorVersMismatch => 10021,
            Nfs4Status::StaleClientId => 10022,
            Nfs4Status::StaleStateId => 10023,
            Nfs4Status::OldStateId => 10024,
            Nfs4Status::BadStateId => 10025,
            Nfs4Status::BadSeqId => 10026,
            Nfs4Status::NotSame => 10027,
            Nfs4Status::LockRange => 10028,
            Nfs4Status::Symlink => 10029,
            Nfs4Status::RestoReFh => 10030,
            Nfs4Status::LeaseMoved => 10031,
            Nfs4Status::AttrNotsupp => 10032,
            Nfs4Status::NoGrace => 10033,
            Nfs4Status::ReclaimBad => 10034,
            Nfs4Status::ReclaimConflict => 10035,
            Nfs4Status::BadXdr => 10036,
            Nfs4Status::LocksHeld => 10037,
            Nfs4Status::OpenMode => 10038,
            Nfs4Status::BadOwner => 10039,
            Nfs4Status::BadChar => 10040,
            Nfs4Status::BadName => 10041,
            Nfs4Status::BadRange => 10042,
            Nfs4Status::LockNotsupp => 10043,
            Nfs4Status::OpIllegal => 10044,
            Nfs4Status::Deadlock => 10045,
            Nfs4Status::FileOpen => 10046,
            Nfs4Status::AdminRevoked => 10047,
            Nfs4Status::CbPathDown => 10048,
            Nfs4Status::BadIoMode => 10049,
            Nfs4Status::BadLayout => 10050,
            Nfs4Status::BadSessionDigest => 10051,
            Nfs4Status::BadSession => 10052,
            Nfs4Status::BadSlot => 10053,
            Nfs4Status::CompleteAlready => 10054,
            Nfs4Status::ConnNotBoundToSession => 10055,
            Nfs4Status::DelegAlreadyWanted => 10056,
            Nfs4Status::BackChanBusy => 10057,
            Nfs4Status::LayoutTrylater => 10058,
            Nfs4Status::LayoutUnavail => 10059,
            Nfs4Status::NoMatchingLayout => 10060,
            Nfs4Status::RecallConflict => 10061,
            Nfs4Status::UnknownLayoutType => 10062,
            Nfs4Status::SeqMisordered => 10063,
            Nfs4Status::SequencePos => 10064,
            Nfs4Status::ReqTooBig => 10065,
            Nfs4Status::RepTooBig => 10066,
            Nfs4Status::RepTooBigToCache => 10067,
            Nfs4Status::RetryUncachedRep => 10068,
            Nfs4Status::UnsafeCompound => 10069,
            Nfs4Status::TooManyOps => 10070,
            Nfs4Status::OpNotInSession => 10071,
            Nfs4Status::HashAlgUnsupp => 10072,
            Nfs4Status::ClientIdBusy => 10074,
            Nfs4Status::PnfsIoHole => 10075,
            Nfs4Status::SeqFalseRetry => 10076,
            Nfs4Status::BadHighSlot => 10077,
            Nfs4Status::DeadSession => 10078,
            Nfs4Status::EncrAlgUnsupp => 10079,
            Nfs4Status::PnfsNoLayout => 10080,
            Nfs4Status::NotOnlyOp => 10081,
            Nfs4Status::WrongCred => 10082,
            Nfs4Status::WrongType => 10083,
            Nfs4Status::DirDelegUnavail => 10084,
            Nfs4Status::RejectDeleg => 10085,
            Nfs4Status::ReturnConflict => 10086,
            Nfs4Status::DelegRevoked => 10087,
            Nfs4Status::PartnerNotsupp => 10088,
            Nfs4Status::PartnerNoAuth => 10089,
            Nfs4Status::UnionNotsupp => 10090,
            Nfs4Status::OffloadDenied => 10091,
            Nfs4Status::WrongLfs => 10092,
            Nfs4Status::BadLabel => 10093,
            Nfs4Status::OffloadNoReqs => 10094,
        }
    }

    /// The status a wire number stands for, or `None` for a number that the
    /// protocol does not define.
    pub fn from_u32(code: u32) -> (s: Option<Nfs4Status>)
        ensures
            s == status_named(code),
            s is Some ==> status_code(s->0) == code,
    {
        let s = match code {
            0 => Some(Nfs4Status::NfsOk),
            1 => Some(Nfs4Status::Perm),
            2 => Some(Nfs4Status::NoEnt),
            5 => Some(Nfs4Status::Io),
            6 => Some(Nfs4Status::Nxio),
            13 => Some(Nfs4Status::Access),
            17 => Some(Nfs4Status::Exist),
            18 => Some(Nfs4Status::XDev),
            20 => Some(Nfs4Status::NotDir),
            21 => Some(Nfs4Status::IsDir),
            22 => Some(Nfs4Status::Inval),
            27 => Some(Nfs4Status::FBig),
            28 => Some(Nfs4Status::NoSpc),
            30 => Some(Nfs4Status::RoFs),
            31 => Some(Nfs4Status::MLink),
            63 => Some(Nfs4Status::NameTooLong),
            66 => Some(Nfs4Status::NotEmpty),
            69 => Some(Nfs4Status::DQuot),
            70 => Some(Nfs4Status::Stale),
            10001 => Some(Nfs4Status::BadHandle),
            10003 => Some(Nfs4Status::BadCookie),
            10004 => Some(Nfs4Status::NotSupp),
            10005 => Some(Nfs4Status::TooSmall),
            10006 => Some(Nfs4Status::ServerFault),
            10007 => Some(Nfs4Status::BadType),
            10008 => Some(Nfs4Status::Delay),
            10009 => Some(Nfs4Status::Same),
            10010 => Some(Nfs4Status::Denied),
            10011 => Some(Nfs4Status::Expired),
            10012 => Some(Nfs4Status::Locked),
            10013 => Some(Nfs4Status::Grace),
            10014 => Some(Nfs4Status::FhExpired),
            10015 => Some(Nfs4Status::ShareDenied),
            10016 => Some(Nfs4Status::WrongSec),
            10017 => Some(Nfs4Status::ClidInUse),
            10018 => Some(Nfs4Status::Resource),
            10019 => Some(Nfs4Status::Moved),
            10020 => Some(Nfs4Status::NoFileHandle),
            10021 => Some(Nfs4Status::MinorVersMismatch),
            10022 => Some(Nfs4Status::StaleClientId),
            10023 => Some(Nfs4Status::StaleStateId),
            10024 => Some(Nfs4Status::OldStateId),
            10025 => Some(Nfs4Status::BadStateId),
            10026 => Some(Nfs4Status::BadSeqId),
            10027 => Some(Nfs4Status::NotSame),
            10028 => Some(Nfs4Status::LockRange),
            10029 => Some(Nfs4Status::Symlink),
            10030 => Some(Nfs4Status::RestoReFh),
            10031 => Some(Nfs4Status::LeaseMoved),
            10032 => Some(Nfs4Status::AttrNotsupp),
            10033 => Some(Nfs4Status::NoGrace),
            10034 => Some(Nfs4Status::ReclaimBad),
            10035 => Some(Nfs4Status::ReclaimConflict),
            10036 => Some(Nfs4Status::BadXdr),
            10037 => Some(Nfs4Status::LocksHeld),
            10038 => Some(Nfs4Status::OpenMode),
            10039 => Some(Nfs4Status::BadOwner),
            10040 => Some(Nfs4Status::BadChar),
            10041 => Some(Nfs4Status::BadName),
            10042 => Some(Nfs4Status::BadRange),
            10043 => Some(Nfs4Status::LockNotsupp),
            10044 => Some(Nfs4Status::OpIllegal),
            10045 => Some(Nfs4Status::Deadlock),
            10046 => Some(Nfs4Status::FileOpen),
            10047 => Some(Nfs4Status::AdminRevoked),
            10048 => Some(Nfs4Status::CbPathDown),
            10049 => Some(Nfs4Status::BadIoMode),
            10050 => Some(Nfs4Status::BadLayout),
            10051 => Some(Nfs4Status::BadSessionDigest),
            10052 => Some(Nfs4Status::BadSession),
            10053 => Some(Nfs4Status::BadSlot),
            10054 => Some(Nfs4Status::CompleteAlready),
            10055 => Some(Nfs4Status::ConnNotBoundToSession),
            10056 => Some(Nfs4Status::DelegAlreadyWanted),
            10057 => Some(Nfs4Status::BackChanBusy),
            10058 => Some(Nfs4Status::LayoutTrylater),
            10059 => Some(Nfs4Status::LayoutUnavail),
            10060 => Some(Nfs4Status::NoMatchingLayout),
            10061 => Some(Nfs4Status::RecallConflict),
            10062 => Some(Nfs4Status::UnknownLayoutType),
            10063 => Some(Nfs4Status::SeqMisordered),
            10064 => Some(Nfs4Status::SequencePos),
            10065 => Some(Nfs4Status::ReqTooBig),
            10066 => Some(Nfs4Status::RepTooBig),
            10067 => Some(Nfs4Status::RepTooBigToCache),
            10068 => Some(Nfs4Status::RetryUncachedRep),
            10069 => Some(Nfs4Status::UnsafeCompound),
            10070 => Some(Nfs4Status::TooManyOps),
            10071 => Some(Nfs4Status::OpNotInSession),
            10072 => Some(Nfs4Status::HashAlgUnsupp),
            10074 => Some(Nfs4Status::ClientIdBusy),
            10075 => Some(Nfs4Status::PnfsIoHole),
            10076 => Some(Nfs4Status::SeqFalseRetry),
            10077 => Some(Nfs4Status::BadHighSlot),
            10078 => Some(Nfs4Status::DeadSession),
            10079 => Some(Nfs4Status::EncrAlgUnsupp),
            10080 => Some(Nfs4Status::PnfsNoLayout),
            10081 => Some(Nfs4Status::NotOnlyOp),
            10082 => Some(Nfs4Status::WrongCred),
            10083 => Some(Nfs4Status::WrongType),
            10084 => Some(Nfs4Status::DirDelegUnavail),
            10085 => Some(Nfs4Status::RejectDeleg),
            10086 => Some(Nfs4Status::ReturnConflict),
            10087 => Some(Nfs4Status::DelegRevoked),
            10088 => Some(Nfs4Status::PartnerNotsupp),
            10089 => Some(Nfs4Status::PartnerNoAuth),
            10090 => Some(Nfs4Status::UnionNotsupp),
            10091 => Some(Nfs4Status::OffloadDenied),
            10092 => Some(Nfs4Status::WrongLfs),
            10093 => Some(Nfs4Status::BadLabel),
            10094 => Some(Nfs4Status::OffloadNoReqs),
            _ => None,
        };
        proof {
            if let Some(st) = s {
                assert(status_code(st) == code);
                status_codes_are_distinct(st, status_named(code)->0);
            } else {
                assert forall|st: Nfs4Status| #[trigger] status_code(st) != code by {}
            }
        }
        s
    }
}

/// The status that a wire number stands for, if the protocol defines one.
pub open spec fn status_named(code: u32) -> Option<Nfs4Status> {
    if exists|st: Nfs4Status| #[trigger] status_code(st) == code {
        Some(choose|st: Nfs4Status| #[trigger] status_code(st) == code)
    } else {
        None
    }
}

/// No two statuses share a wire number.
pub proof fn status_codes_are_distinct(a: Nfs4Status, b: Nfs4Status)
    requires
        status_code(a) == status_code(b),
    ensures
        a == b,
{
}

/// Law: the numbers of the statuses on the wire (RFC 8881 section 15.1, RFC 7862
/// section 11).
pub proof fn statuses_have_their_numbers(s: Nfs4Status)
    ensures
        s is NfsOk <==> status_code(s) == 0,
        s is Perm <==> status_code(s) == 1,
        s is NoEnt <==> status_code(s) == 2,
        s is Io <==> status_code(s) == 5,
        s is Nxio <==> status_code(s) == 6,
        s is Access <==> status_code(s) == 13,
        s is Exist <==> status_code(s) == 17,
        s is XDev <==> status_code(s) == 18,
        s is NotDir <==> status_code(s) == 20,
        s is IsDir <==> status_code(s) == 21,
        s is Inval <==> status_code(s) == 22,
        s is FBig <==> status_code(s) == 27,
        s is NoSpc <==> status_code(s) == 28,
        s is RoFs <==> status_code(s) == 30,
        s is MLink <==> status_code(s) == 31,
        s is NameTooLong <==> status_code(s) == 63,
        s is NotEmpty <==> status_code(s) == 66,
        s is DQuot <==> status_code(s) == 69,
        s is Stale <==> status_code(s) == 70,
        s is BadHandle <==> status_code(s) == 10001,
        s is BadCookie <==> status_code(s) == 10003,
        s is NotSupp <==> status_code(s) == 10004,
        s is TooSmall <==> status_code(s) == 10005,
        s is ServerFault <==> status_code(s) == 10006,
        s is BadType <==> status_code(s) == 10007,
        s is Delay <==> status_code(s) == 10008,
        s is Same <==> status_code(s) == 10009,
        s is Denied <==> status_code(s) == 10010,
        s is Expired <==> status_code(s) == 10011,
        s is Locked <==> status_code(s) == 10012,
        s is Grace <==> status_code(s) == 10013,
        s is FhExpired <==> status_code(s) == 10014,
        s is ShareDenied <==> status_code(s) == 10015,
        s is WrongSec <==> status_code(s) == 10016,
        s is ClidInUse <==> status_code(s) == 10017,
        s is Resource <==> status_code(s) == 10018,
        s is Moved <==> status_code(s) == 10019,
        s is NoFileHandle <==> status_code(s) == 10020,
        s is MinorVersMismatch <==> status_code(s) == 10021,
        s is StaleClientId <==> status_code(s) == 10022,
        s is StaleStateId <==> status_code(s) == 10023,
        s is OldStateId <==> status_code(s) == 10024,
        s is BadStateId <==> status_code(s) == 10025,
        s is BadSeqId <==> status_code(s) == 10026,
        s is NotSame <==> status_code(s) == 10027,
        s is LockRange <==> status_code(s) == 10028,
        s is Symlink <==> status_code(s) == 10029,
        s is RestoReFh <==> status_code(s) == 10030,
        s is LeaseMoved <==> status_code(s) == 10031,
        s is AttrNotsupp <==> status_code(s) == 10032,
        s is NoGrace <==> status_code(s) == 10033,
        s is ReclaimBad <==> status_code(s) == 10034,
        s is ReclaimConflict <==> status_code(s) == 10035,
        s is BadXdr <==> status_code(s) == 10036,
        s is LocksHeld <==> status_code(s) == 10037,
        s is OpenMode <==> status_code(s) == 10038,
        s is BadOwner <==> status_code(s) == 10039,
        s is BadChar <==> status_code(s) == 10040,
        s is BadName <==> status_code(s) == 10041,
        s is BadRange <==> status_code(s) == 10042,
        s is LockNotsupp <==> status_code(s) == 10043,
        s is OpIllegal <==> status_code(s) == 10044,
        s is Deadlock <==> status_code(s) == 10045,
        s is FileOpen <==> status_code(s) == 10046,
        s is AdminRevoked <==> status_code(s) == 10047,
        s is CbPathDown <==> status_code(s) == 10048,
        s is BadIoMode <==> status_code(s) == 10049,
        s is BadLayout <==> status_code(s) == 10050,
        s is BadSessionDigest <==> status_code(s) == 10051,
        s is BadSession <==> status_code(s) == 10052,
        s is BadSlot <==> status_code(s) == 10053,
        s is CompleteAlready <==> status_code(s) == 10054,
        s is ConnNotBoundToSession <==> status_code(s) == 10055,
        s is DelegAlreadyWanted <==> status_code(s) == 10056,
        s is BackChanBusy <==> status_code(s) == 10057,
        s is LayoutTrylater <==> status_code(s) == 10058,
        s is LayoutUnavail <==> status_code(s) == 10059,
        s is NoMatchingLayout <==> status_code(s) == 10060,
        s is RecallConflict <==> status_code(s) == 10061,
        s is UnknownLayoutType <==> status_code(s) == 10062,
        s is SeqMisordered <==> status_code(s) == 10063,
        s is SequencePos <==> status_code(s) == 10064,
        s is ReqTooBig <==> status_code(s) == 10065,
        s is RepTooBig <==> status_code(s) == 10066,
        s is RepTooBigToCache <==> status_code(s) == 10067,
        s is RetryUncachedRep <==> status_code(s) == 10068,
        s is UnsafeCompound <==> status_code(s) == 10069,
        s is TooManyOps <==> status_code(s) == 10070,
        s is OpNotInSession <==> status_code(s) == 10071,
        s is HashAlgUnsupp <==> status_code(s) == 10072,
        s is ClientIdBusy <==> status_code(s) == 10074,
        s is PnfsIoHole <==> status_code(s) == 10075,
        s is SeqFalseRetry <==> status_code(s) == 10076,
        s is BadHighSlot <==> status_code(s) == 10077,
        s is DeadSession <==> status_code(s) == 10078,
        s is EncrAlgUnsupp <==> status_code(s) == 10079,
        s is PnfsNoLayout <==> status_code(s) == 10080,
        s is NotOnlyOp <==> status_code(s) == 10081,
        s is WrongCred <==> status_code(s) == 10082,
        s is WrongType <==> status_code(s) == 10083,
        s is DirDelegUnavail <==> status_code(s) == 10084,
        s is RejectDeleg <==> status_code(s) == 10085,
        s is ReturnConflict <==> status_code(s) == 10086,
        s is DelegRevoked <==> status_code(s) == 10087,
        s is PartnerNotsupp <==> status_code(s) == 10088,
        s is PartnerNoAuth <==> status_code(s) == 10089,
        s is UnionNotsupp <==> status_code(s) == 10090,
        s is OffloadDenied <==> status_code(s) == 10091,
        s is WrongLfs <==> status_code(s) == 10092,
        s is BadLabel <==> status_code(s) == 10093,
        s is OffloadNoReqs <==> status_code(s) == 10094,
{
}

/// Law: a number names the status that has it, and no other.
pub proof fn a_number_names_its_status(s: Nfs4Status)
    ensures
        status_named(status_code(s)) == Some(s),
{
    status_codes_are_distinct(s, status_named(status_code(s))->0);
}

/// Law: a status is read back from the number that it is written as.
pub proof fn a_status_is_read_back_from_its_number(
    s: Nfs4Status,
    code: u32,
    r: Option<Nfs4Status>,
)
    requires
        call_ensures(Nfs4Status::to_u32, (s,), code),
        call_ensures(Nfs4Status::from_u32, (code,), r),
    ensures
        r == Some(s),
        code == 0 <==> s is NfsOk,
{
    a_number_names_its_status(s);
}

} // verus!
