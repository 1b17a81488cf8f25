//! `nfs_opnum4` (RFC 8881 section 16.2, RFC 7862 section 15): the operation
//! numbers this server decodes, answers or gates.
use vstd::prelude::*;

verus! {

pub const ACCESS: u32 = 3;

pub const CLOSE: u32 = 4;

pub const COMMIT: u32 = 5;

pub const CREATE: u32 = 6;

pub const DELEGPURGE: u32 = 7;

pub const DELEGRETURN: u32 = 8;

pub const GETATTR: u32 = 9;

pub const GETFH: u32 = 10;

pub const LINK: u32 = 11;

pub const LOCK: u32 = 12;

pub const LOCKT: u32 = 13;

pub const LOCKU: u32 = 14;

pub const LOOKUP: u32 = 15;

pub const LOOKUPP: u32 = 16;

pub const NVERIFY: u32 = 17;

pub const OPEN: u32 = 18;

pub const OPEN_DOWNGRADE: u32 = 21;

pub const PUTFH: u32 = 22;

pub const PUTPUBFH: u32 = 23;

pub const PUTROOTFH: u32 = 24;

pub const READ: u32 = 25;

pub const READDIR: u32 = 26;

pub const READLINK: u32 = 27;

pub const REMOVE: u32 = 28;

pub const RENAME: u32 = 29;

pub const RESTOREFH: u32 = 31;

pub const SAVEFH: u32 = 32;

pub const SECINFO: u32 = 33;

pub const SETATTR: u32 = 34;

pub const VERIFY: u32 = 37;

pub const WRITE: u32 = 38;

pub const BACKCHANNEL_CTL: u32 = 40;

pub const BIND_CONN_TO_SESSION: u32 = 41;

pub const EXCHANGE_ID: u32 = 42;

pub const CREATE_SESSION: u32 = 43;

pub const DESTROY_SESSION: u32 = 44;

pub const FREE_STATEID: u32 = 45;

pub const GETDEVICEINFO: u32 = 47;

pub const GETDEVICELIST: u32 = 48;

pub const LAYOUTCOMMIT: u32 = 49;

pub const LAYOUTGET: u32 = 50;

pub const LAYOUTRETURN: u32 = 51;

pub const SECINFO_NO_NAME: u32 = 52;

pub const SEQUENCE: u32 = 53;

pub const TEST_STATEID: u32 = 55;

pub const DESTROY_CLIENTID: u32 = 57;

pub const RECLAIM_COMPLETE: u32 = 58;

pub const ALLOCATE: u32 = 59;

pub const COPY: u32 = 60;

pub const DEALLOCATE: u32 = 62;

pub const IO_ADVISE: u32 = 63;

pub const READ_PLUS: u32 = 68;

pub const SEEK: u32 = 69;

pub const CLONE: u32 = 71;

/// The sentinel under which an unknown operation is reported.
pub const ILLEGAL: u32 = 10044;

/// Law: the operations have the numbers of the protocol.
pub proof fn operations_have_their_numbers()
    ensures
        ACCESS == 3,
        CLOSE == 4,
        COMMIT == 5,
        CREATE == 6,
        DELEGPURGE == 7,
        DELEGRETURN == 8,
        GETATTR == 9,
        GETFH == 10,
        LINK == 11,
        LOCK == 12,
        LOCKT == 13,
        LOCKU == 14,
        LOOKUP == 15,
        LOOKUPP == 16,
        NVERIFY == 17,
        OPEN == 18,
        OPEN_DOWNGRADE == 21,
        PUTFH == 22,
        PUTPUBFH == 23,
        PUTROOTFH == 24,
        READ == 25,
        READDIR == 26,
        READLINK == 27,
        REMOVE == 28,
        RENAME == 29,
        RESTOREFH == 31,
        SAVEFH == 32,
        SECINFO == 33,
        SETATTR == 34,
        VERIFY == 37,
        WRITE == 38,
        BACKCHANNEL_CTL == 40,
        BIND_CONN_TO_SESSION == 41,
        EXCHANGE_ID == 42,
        CREATE_SESSION == 43,
        DESTROY_SESSION == 44,
        FREE_STATEID == 45,
        GETDEVICEINFO == 47,
        GETDEVICELIST == 48,
        LAYOUTCOMMIT == 49,
        LAYOUTGET == 50,
        LAYOUTRETURN == 51,
        SECINFO_NO_NAME == 52,
        SEQUENCE == 53,
        TEST_STATEID == 55,
        DESTROY_CLIENTID == 57,
        RECLAIM_COMPLETE == 58,
        ALLOCATE == 59,
        COPY == 60,
        DEALLOCATE == 62,
        IO_ADVISE == 63,
        READ_PLUS == 68,
        SEEK == 69,
        CLONE == 71,
        ILLEGAL == 10044,
{
}

} // verus!
