//! What a client reads in a reply: each result, written with `t` behind it, is read
//! back item by item as what the result holds, and `t` is then ahead.
use vstd::prelude::*;
use vstd::utf8::*;

use bytes::Bytes;

use crate::compound::encode;
use crate::compound::grammar;
use crate::compound::response;
use crate::compound::response::CompoundResponse;
use crate::compound::results;
use crate::compound::results::{
    ChangeInfo, CopyResult, CreateSessionResult, Delegation, DirEntry, ExchangeIdResult,
    LockDenied, LockType, OpenResult, OperationResult, ReadDirResult, ReadPlusResult,
    ReadPlusSegment, ReadResult, SeekResult, SequenceResult, WhyNoDelegation, WriteResult,
};
use crate::compound::types::{ChannelAttrs, ChannelAttrsView};
use crate::compound::wire;
use crate::octets;
use crate::protocol::opcode;
use crate::protocol::{Nfs4FileHandle, Nfs4Status, SessionId, StateId, StateIdView};
use crate::sec_policy::{SecLevel, SecOffer};
use crate::xdr;
use crate::xdr::{XdrEncoder, XdrError};

verus! {

proof fn lemma_join_2(a: Seq<u8>, b: Seq<u8>, t: Seq<u8>)
    ensures
        a + b + t == a + (b + t),
{
    xdr::lemma_concat_assoc(a, b, t);
}

proof fn lemma_join_3(a: Seq<u8>, b: Seq<u8>, c: Seq<u8>, t: Seq<u8>)
    ensures
        a + b + c + t == a + (b + (c + t)),
{
    lemma_join_2(a + b, c, t);
    xdr::lemma_concat_assoc(a, b, c + t);
}

proof fn lemma_join_4(a: Seq<u8>, b: Seq<u8>, c: Seq<u8>, d: Seq<u8>, t: Seq<u8>)
    ensures
        a + b + c + d + t == a + (b + (c + (d + t))),
{
    lemma_join_3(a + b, c, d, t);
    xdr::lemma_concat_assoc(a, b, c + (d + t));
}

proof fn lemma_join_5(a: Seq<u8>, b: Seq<u8>, c: Seq<u8>, d: Seq<u8>, e: Seq<u8>, t: Seq<u8>)
    ensures
        a + b + c + d + e + t == a + (b + (c + (d + (e + t)))),
{
    lemma_join_4(a + b, c, d, e, t);
    xdr::lemma_concat_assoc(a, b, c + (d + (e + t)));
}

proof fn lemma_join_6(a: Seq<u8>, b: Seq<u8>, c: Seq<u8>, d: Seq<u8>, e: Seq<u8>, f: Seq<u8>, t: Seq<u8>)
    ensures
        a + b + c + d + e + f + t == a + (b + (c + (d + (e + (f + t))))),
{
    lemma_join_5(a + b, c, d, e, f, t);
    xdr::lemma_concat_assoc(a, b, c + (d + (e + (f + t))));
}

proof fn lemma_join_7(a: Seq<u8>, b: Seq<u8>, c: Seq<u8>, d: Seq<u8>, e: Seq<u8>, f: Seq<u8>, g: Seq<u8>, t: Seq<u8>)
    ensures
        a + b + c + d + e + f + g + t == a + (b + (c + (d + (e + (f + (g + t)))))),
{
    lemma_join_6(a + b, c, d, e, f, g, t);
    xdr::lemma_concat_assoc(a, b, c + (d + (e + (f + (g + t)))));
}

proof fn lemma_join_8(a: Seq<u8>, b: Seq<u8>, c: Seq<u8>, d: Seq<u8>, e: Seq<u8>, f: Seq<u8>, g: Seq<u8>, h: Seq<u8>, t: Seq<u8>)
    ensures
        a + b + c + d + e + f + g + h + t == a + (b + (c + (d + (e + (f + (g + (h + t))))))),
{
    lemma_join_7(a + b, c, d, e, f, g, h, t);
    xdr::lemma_concat_assoc(a, b, c + (d + (e + (f + (g + (h + t))))));
}

/// Law: GETFH answers with the filehandle.
pub proof fn a_getfh_reply_says_the_filehandle(
    fh: Nfs4FileHandle,
    offer: SecOffer,
    t: Seq<u8>,
)
    requires
        fh@.len() <= u32::MAX,
    ensures
        ({
            let s = wire::result_body(OperationResult::GetFh(Nfs4Status::NfsOk, Some(fh)), offer) + t;
            let (got, s) = xdr::parse_opaque(s);
            &&& got == Ok::<Seq<u8>, XdrError>(fh@)
            &&& s == t
        }),
{
    let r = OperationResult::GetFh(Nfs4Status::NfsOk, Some(fh));
    let s0 = xdr::wire_opaque(fh@) + t;
    assert(wire::result_body(r, offer) + t == s0);
    xdr::opaque_round_trip(fh@, t);
}

/// Law: GETATTR answers with the attributes as they were encoded.
pub proof fn a_getattr_reply_says_the_attributes(
    attrs: Bytes,
    offer: SecOffer,
    t: Seq<u8>,
)
    ensures
        ({
            let s = wire::result_body(OperationResult::GetAttr(Nfs4Status::NfsOk, Some(attrs)), offer) + t;
            &&& s == octets::bytes_of(attrs) + t
        }),
{
    let r = OperationResult::GetAttr(Nfs4Status::NfsOk, Some(attrs));
    let s0 = octets::bytes_of(attrs) + t;
    assert(wire::result_body(r, offer) + t == s0);
}

/// Law: ACCESS answers with the rights that were checked, and then with those
/// that are granted.
pub proof fn an_access_reply_says_what_was_checked_first(
    checked: u32,
    granted: u32,
    offer: SecOffer,
    t: Seq<u8>,
)
    ensures
        ({
            let s = wire::result_body(OperationResult::Access(Nfs4Status::NfsOk, Some((checked, granted))), offer) + t;
            let (got_checked, s) = xdr::parse_u32(s);
            let (got_granted, s) = xdr::parse_u32(s);
            &&& got_checked == Ok::<u32, XdrError>(checked)
            &&& got_granted == Ok::<u32, XdrError>(granted)
            &&& s == t
        }),
{
    let r = OperationResult::Access(Nfs4Status::NfsOk, Some((checked, granted)));
    let s1 = octets::be32(granted) + t;
    let s0 = octets::be32(checked) + s1;
    assert(wire::result_body(r, offer) + t == s0) by {
        lemma_join_2(octets::be32(checked), octets::be32(granted), t);
    }
    xdr::u32_round_trip(checked, s1);
    xdr::u32_round_trip(granted, t);
}

/// Law: CLOSE answers with the stateid as it now is.
pub proof fn a_close_reply_says_the_stateid(
    stateid: StateId,
    offer: SecOffer,
    t: Seq<u8>,
)
    ensures
        ({
            let s = wire::result_body(OperationResult::Close(Nfs4Status::NfsOk, Some(stateid)), offer) + t;
            let (got, s) = xdr::parse_stateid(s);
            &&& got == Ok::<StateIdView, XdrError>(stateid@)
            &&& s == t
        }),
{
    let r = OperationResult::Close(Nfs4Status::NfsOk, Some(stateid));
    let s0 = xdr::wire_stateid(stateid@) + t;
    assert(wire::result_body(r, offer) + t == s0);
    xdr::stateid_round_trip(stateid@, t);
}

/// Law: OPEN_DOWNGRADE answers with the stateid as it now is.
pub proof fn an_open_downgrade_reply_says_the_stateid(
    stateid: StateId,
    offer: SecOffer,
    t: Seq<u8>,
)
    ensures
        ({
            let s = wire::result_body(OperationResult::OpenDowngrade(Nfs4Status::NfsOk, Some(stateid)), offer) + t;
            let (got, s) = xdr::parse_stateid(s);
            &&& got == Ok::<StateIdView, XdrError>(stateid@)
            &&& s == t
        }),
{
    let r = OperationResult::OpenDowngrade(Nfs4Status::NfsOk, Some(stateid));
    let s0 = xdr::wire_stateid(stateid@) + t;
    assert(wire::result_body(r, offer) + t == s0);
    xdr::stateid_round_trip(stateid@, t);
}

/// Law: LOCKU answers with the stateid as it now is.
pub proof fn a_locku_reply_says_the_stateid(
    stateid: StateId,
    offer: SecOffer,
    t: Seq<u8>,
)
    ensures
        ({
            let s = wire::result_body(OperationResult::LockU(Nfs4Status::NfsOk, Some(stateid)), offer) + t;
            let (got, s) = xdr::parse_stateid(s);
            &&& got == Ok::<StateIdView, XdrError>(stateid@)
            &&& s == t
        }),
{
    let r = OperationResult::LockU(Nfs4Status::NfsOk, Some(stateid));
    let s0 = xdr::wire_stateid(stateid@) + t;
    assert(wire::result_body(r, offer) + t == s0);
    xdr::stateid_round_trip(stateid@, t);
}

/// Law: LOCK answers with the stateid of the lock.
pub proof fn a_lock_reply_says_the_stateid(
    stateid: StateId,
    denied: Option<LockDenied>,
    offer: SecOffer,
    t: Seq<u8>,
)
    ensures
        ({
            let s = wire::result_body(OperationResult::Lock(Nfs4Status::NfsOk, Some(stateid), denied), offer) + t;
            let (got, s) = xdr::parse_stateid(s);
            &&& got == Ok::<StateIdView, XdrError>(stateid@)
            &&& s == t
        }),
{
    let r = OperationResult::Lock(Nfs4Status::NfsOk, Some(stateid), denied);
    let s0 = xdr::wire_stateid(stateid@) + t;
    assert(wire::result_body(r, offer) + t == s0);
    xdr::stateid_round_trip(stateid@, t);
}

/// Law: READ answers with whether the end of the file was reached, and the
/// data.
pub proof fn a_read_reply_says_the_data(
    res: ReadResult,
    offer: SecOffer,
    t: Seq<u8>,
)
    requires
        res.data@.len() <= u32::MAX,
    ensures
        ({
            let s = wire::result_body(OperationResult::Read(Nfs4Status::NfsOk, Some(res)), offer) + t;
            let (eof, s) = xdr::parse_bool(s);
            let (data, s) = xdr::parse_opaque(s);
            &&& eof == Ok::<bool, XdrError>(res.eof)
            &&& data == Ok::<Seq<u8>, XdrError>(res.data@)
            &&& s == t
        }),
{
    let r = OperationResult::Read(Nfs4Status::NfsOk, Some(res));
    let s1 = xdr::wire_opaque(res.data@) + t;
    let s0 = xdr::wire_bool(res.eof) + s1;
    assert(wire::result_body(r, offer) + t == s0) by {
        lemma_join_2(xdr::wire_bool(res.eof), xdr::wire_opaque(res.data@), t);
    }
    xdr::bool_round_trip(res.eof, s1);
    xdr::opaque_round_trip(res.data@, t);
}

/// Law: WRITE answers with the number of octets written, how stable they are
/// and the write verifier.
pub proof fn a_write_reply_says_how_much_and_how_stable(
    res: WriteResult,
    offer: SecOffer,
    t: Seq<u8>,
)
    ensures
        ({
            let s = wire::result_body(OperationResult::Write(Nfs4Status::NfsOk, Some(res)), offer) + t;
            let (count, s) = xdr::parse_u32(s);
            let (committed, s) = xdr::parse_u32(s);
            let (verifier, s) = xdr::parse_fixed(s, 8);
            &&& count == Ok::<u32, XdrError>(res.count)
            &&& committed == Ok::<u32, XdrError>(res.committed)
            &&& verifier == Ok::<Seq<u8>, XdrError>(res.verifier@)
            &&& s == t
        }),
{
    let r = OperationResult::Write(Nfs4Status::NfsOk, Some(res));
    let s2 = xdr::wire_fixed(res.verifier@) + t;
    let s1 = octets::be32(res.committed) + s2;
    let s0 = octets::be32(res.count) + s1;
    assert(wire::result_body(r, offer) + t == s0) by {
        lemma_join_3(octets::be32(res.count), octets::be32(res.committed), xdr::wire_fixed(res.verifier@), t);
    }
    xdr::u32_round_trip(res.count, s1);
    xdr::u32_round_trip(res.committed, s2);
    xdr::fixed_round_trip(res.verifier@, 8, t);
}

/// Law: COMMIT answers with the write verifier.
pub proof fn a_commit_reply_says_the_verifier(
    verifier: [u8; 8],
    offer: SecOffer,
    t: Seq<u8>,
)
    ensures
        ({
            let s = wire::result_body(OperationResult::Commit(Nfs4Status::NfsOk, Some(verifier)), offer) + t;
            let (got, s) = xdr::parse_fixed(s, 8);
            &&& got == Ok::<Seq<u8>, XdrError>(verifier@)
            &&& s == t
        }),
{
    let r = OperationResult::Commit(Nfs4Status::NfsOk, Some(verifier));
    let s0 = xdr::wire_fixed(verifier@) + t;
    assert(wire::result_body(r, offer) + t == s0);
    xdr::fixed_round_trip(verifier@, 8, t);
}

proof fn lemma_a_create_reply_says_the_change_and_the_attributes(
    change: ChangeInfo,
    attrset: Vec<u32>,
    offer: SecOffer,
    t: Seq<u8>,
)
    requires
        attrset@.len() <= u32::MAX,
    ensures
        wire::result_body(OperationResult::Create(Nfs4Status::NfsOk, Some(change), attrset), offer) + t == xdr::wire_bool(change.atomic) + (octets::be64(change.before) + (octets::be64(change.after) + (xdr::wire_bitmap(attrset@) + t))),
{
    lemma_join_3(xdr::wire_bool(change.atomic), octets::be64(change.before), octets::be64(change.after), xdr::wire_bitmap(attrset@) + t);
    lemma_join_2(xdr::wire_bool(change.atomic) + octets::be64(change.before) + octets::be64(change.after), xdr::wire_bitmap(attrset@), t);
}

/// Law: CREATE answers with how the directory changed and which attributes were
/// set.
pub proof fn a_create_reply_says_the_change_and_the_attributes(
    change: ChangeInfo,
    attrset: Vec<u32>,
    offer: SecOffer,
    t: Seq<u8>,
)
    requires
        attrset@.len() <= u32::MAX,
    ensures
        ({
            let s = wire::result_body(OperationResult::Create(Nfs4Status::NfsOk, Some(change), attrset), offer) + t;
            let (atomic, s) = xdr::parse_bool(s);
            let (before, s) = xdr::parse_u64(s);
            let (after, s) = xdr::parse_u64(s);
            let (set, s) = xdr::parse_bitmap(s);
            &&& atomic == Ok::<bool, XdrError>(change.atomic)
            &&& before == Ok::<u64, XdrError>(change.before)
            &&& after == Ok::<u64, XdrError>(change.after)
            &&& set == Ok::<Seq<u32>, XdrError>(attrset@)
            &&& s == t
        }),
{
    let r = OperationResult::Create(Nfs4Status::NfsOk, Some(change), attrset);
    lemma_a_create_reply_says_the_change_and_the_attributes(change, attrset, offer, t);
    let s3 = xdr::wire_bitmap(attrset@) + t;
    let s2 = octets::be64(change.after) + s3;
    let s1 = octets::be64(change.before) + s2;
    let s0 = xdr::wire_bool(change.atomic) + s1;
    xdr::bool_round_trip(change.atomic, s1);
    xdr::u64_round_trip(change.before, s2);
    xdr::u64_round_trip(change.after, s3);
    xdr::bitmap_round_trip(attrset@, t);
}

/// Law: REMOVE answers with how the directory changed.
pub proof fn a_remove_reply_says_the_change(
    change: ChangeInfo,
    offer: SecOffer,
    t: Seq<u8>,
)
    ensures
        ({
            let s = wire::result_body(OperationResult::Remove(Nfs4Status::NfsOk, Some(change)), offer) + t;
            let (atomic, s) = xdr::parse_bool(s);
            let (before, s) = xdr::parse_u64(s);
            let (after, s) = xdr::parse_u64(s);
            &&& atomic == Ok::<bool, XdrError>(change.atomic)
            &&& before == Ok::<u64, XdrError>(change.before)
            &&& after == Ok::<u64, XdrError>(change.after)
            &&& s == t
        }),
{
    let r = OperationResult::Remove(Nfs4Status::NfsOk, Some(change));
    let s2 = octets::be64(change.after) + t;
    let s1 = octets::be64(change.before) + s2;
    let s0 = xdr::wire_bool(change.atomic) + s1;
    assert(wire::result_body(r, offer) + t == s0) by {
        lemma_join_3(xdr::wire_bool(change.atomic), octets::be64(change.before), octets::be64(change.after), t);
    }
    xdr::bool_round_trip(change.atomic, s1);
    xdr::u64_round_trip(change.before, s2);
    xdr::u64_round_trip(change.after, t);
}

/// Law: LINK answers with how the directory changed.
pub proof fn a_link_reply_says_the_change(
    change: ChangeInfo,
    offer: SecOffer,
    t: Seq<u8>,
)
    ensures
        ({
            let s = wire::result_body(OperationResult::Link(Nfs4Status::NfsOk, Some(change)), offer) + t;
            let (atomic, s) = xdr::parse_bool(s);
            let (before, s) = xdr::parse_u64(s);
            let (after, s) = xdr::parse_u64(s);
            &&& atomic == Ok::<bool, XdrError>(change.atomic)
            &&& before == Ok::<u64, XdrError>(change.before)
            &&& after == Ok::<u64, XdrError>(change.after)
            &&& s == t
        }),
{
    let r = OperationResult::Link(Nfs4Status::NfsOk, Some(change));
    let s2 = octets::be64(change.after) + t;
    let s1 = octets::be64(change.before) + s2;
    let s0 = xdr::wire_bool(change.atomic) + s1;
    assert(wire::result_body(r, offer) + t == s0) by {
        lemma_join_3(xdr::wire_bool(change.atomic), octets::be64(change.before), octets::be64(change.after), t);
    }
    xdr::bool_round_trip(change.atomic, s1);
    xdr::u64_round_trip(change.before, s2);
    xdr::u64_round_trip(change.after, t);
}

proof fn lemma_a_rename_reply_says_the_source_first(
    source: ChangeInfo,
    target: ChangeInfo,
    offer: SecOffer,
    t: Seq<u8>,
)
    ensures
        wire::result_body(OperationResult::Rename(Nfs4Status::NfsOk, Some(source), Some(target)), offer) + t == xdr::wire_bool(source.atomic) + (octets::be64(source.before) + (octets::be64(source.after) + (xdr::wire_bool(target.atomic) + (octets::be64(target.before) + (octets::be64(target.after) + t))))),
{
    lemma_join_3(xdr::wire_bool(target.atomic), octets::be64(target.before), octets::be64(target.after), t);
    lemma_join_3(xdr::wire_bool(source.atomic), octets::be64(source.before), octets::be64(source.after), xdr::wire_bool(target.atomic) + (octets::be64(target.before) + (octets::be64(target.after) + t)));
    lemma_join_2(xdr::wire_bool(source.atomic) + octets::be64(source.before) + octets::be64(source.after), xdr::wire_bool(target.atomic) + octets::be64(target.before) + octets::be64(target.after), t);
}

/// Law: RENAME answers with how the directory that the file left changed, and
/// then with how the one that it came to changed.
pub proof fn a_rename_reply_says_the_source_first(
    source: ChangeInfo,
    target: ChangeInfo,
    offer: SecOffer,
    t: Seq<u8>,
)
    ensures
        ({
            let s = wire::result_body(OperationResult::Rename(Nfs4Status::NfsOk, Some(source), Some(target)), offer) + t;
            let (source_atomic, s) = xdr::parse_bool(s);
            let (source_before, s) = xdr::parse_u64(s);
            let (source_after, s) = xdr::parse_u64(s);
            let (target_atomic, s) = xdr::parse_bool(s);
            let (target_before, s) = xdr::parse_u64(s);
            let (target_after, s) = xdr::parse_u64(s);
            &&& source_atomic == Ok::<bool, XdrError>(source.atomic)
            &&& source_before == Ok::<u64, XdrError>(source.before)
            &&& source_after == Ok::<u64, XdrError>(source.after)
            &&& target_atomic == Ok::<bool, XdrError>(target.atomic)
            &&& target_before == Ok::<u64, XdrError>(target.before)
            &&& target_after == Ok::<u64, XdrError>(target.after)
            &&& s == t
        }),
{
    let r = OperationResult::Rename(Nfs4Status::NfsOk, Some(source), Some(target));
    lemma_a_rename_reply_says_the_source_first(source, target, offer, t);
    let s5 = octets::be64(target.after) + t;
    let s4 = octets::be64(target.before) + s5;
    let s3 = xdr::wire_bool(target.atomic) + s4;
    let s2 = octets::be64(source.after) + s3;
    let s1 = octets::be64(source.before) + s2;
    let s0 = xdr::wire_bool(source.atomic) + s1;
    xdr::bool_round_trip(source.atomic, s1);
    xdr::u64_round_trip(source.before, s2);
    xdr::u64_round_trip(source.after, s3);
    xdr::bool_round_trip(target.atomic, s4);
    xdr::u64_round_trip(target.before, s5);
    xdr::u64_round_trip(target.after, t);
}

/// Law: READLINK answers with what the link says.
pub proof fn a_readlink_reply_says_the_target(
    link: String,
    offer: SecOffer,
    t: Seq<u8>,
)
    requires
        encode_utf8(link@).len() <= u32::MAX,
    ensures
        ({
            let s = wire::result_body(OperationResult::ReadLink(Nfs4Status::NfsOk, Some(link)), offer) + t;
            let (got, s) = xdr::parse_string(s);
            &&& got == Ok::<Seq<char>, XdrError>(link@)
            &&& s == t
        }),
{
    let r = OperationResult::ReadLink(Nfs4Status::NfsOk, Some(link));
    let s0 = xdr::wire_string(link@) + t;
    assert(wire::result_body(r, offer) + t == s0);
    xdr::string_round_trip(link@, t);
}

/// Law: SETATTR answers with the attributes that were set, whether it succeeded
/// or not.
pub proof fn a_setattr_reply_says_what_was_set(
    status_given: Nfs4Status,
    set: Vec<u32>,
    offer: SecOffer,
    t: Seq<u8>,
)
    requires
        set@.len() <= u32::MAX,
    ensures
        ({
            let s = wire::result_body(OperationResult::SetAttr(status_given, set), offer) + t;
            let (got, s) = xdr::parse_bitmap(s);
            &&& got == Ok::<Seq<u32>, XdrError>(set@)
            &&& s == t
        }),
{
    let r = OperationResult::SetAttr(status_given, set);
    let s0 = xdr::wire_bitmap(set@) + t;
    assert(wire::result_body(r, offer) + t == s0);
    xdr::bitmap_round_trip(set@, t);
}

proof fn lemma_an_exchange_id_reply_says_the_client(
    res: ExchangeIdResult,
    offer: SecOffer,
    t: Seq<u8>,
)
    requires
        encode_utf8(res.server_owner@).len() <= u32::MAX,
        res.server_scope@.len() <= u32::MAX,
    ensures
        wire::result_body(OperationResult::ExchangeId(Nfs4Status::NfsOk, Some(res)), offer) + t == octets::be64(res.clientid) + (octets::be32(res.sequenceid) + (octets::be32(res.flags) + (octets::be32(0) + (octets::be64(0) + (xdr::wire_string(res.server_owner@) + (xdr::wire_opaque(res.server_scope@) + (octets::be32(0) + t))))))),
{
    lemma_join_8(octets::be64(res.clientid), octets::be32(res.sequenceid), octets::be32(res.flags), octets::be32(0), octets::be64(0), xdr::wire_string(res.server_owner@), xdr::wire_opaque(res.server_scope@), octets::be32(0), t);
}

/// Law: EXCHANGE_ID answers with the client, the sequence number to start from,
/// the flags, no state protection, minor id zero, the owner and the scope of
/// the server, and no implementation.
pub proof fn an_exchange_id_reply_says_the_client(
    res: ExchangeIdResult,
    offer: SecOffer,
    t: Seq<u8>,
)
    requires
        encode_utf8(res.server_owner@).len() <= u32::MAX,
        res.server_scope@.len() <= u32::MAX,
    ensures
        ({
            let s = wire::result_body(OperationResult::ExchangeId(Nfs4Status::NfsOk, Some(res)), offer) + t;
            let (clientid, s) = xdr::parse_u64(s);
            let (sequenceid, s) = xdr::parse_u32(s);
            let (flags, s) = xdr::parse_u32(s);
            let (protection, s) = xdr::parse_u32(s);
            let (minor_id, s) = xdr::parse_u64(s);
            let (owner, s) = xdr::parse_string(s);
            let (scope, s) = xdr::parse_opaque(s);
            let (implementations, s) = xdr::parse_u32(s);
            &&& clientid == Ok::<u64, XdrError>(res.clientid)
            &&& sequenceid == Ok::<u32, XdrError>(res.sequenceid)
            &&& flags == Ok::<u32, XdrError>(res.flags)
            &&& protection == Ok::<u32, XdrError>(0)
            &&& minor_id == Ok::<u64, XdrError>(0)
            &&& owner == Ok::<Seq<char>, XdrError>(res.server_owner@)
            &&& scope == Ok::<Seq<u8>, XdrError>(res.server_scope@)
            &&& implementations == Ok::<u32, XdrError>(0)
            &&& s == t
        }),
{
    let r = OperationResult::ExchangeId(Nfs4Status::NfsOk, Some(res));
    lemma_an_exchange_id_reply_says_the_client(res, offer, t);
    let s7 = octets::be32(0) + t;
    let s6 = xdr::wire_opaque(res.server_scope@) + s7;
    let s5 = xdr::wire_string(res.server_owner@) + s6;
    let s4 = octets::be64(0) + s5;
    let s3 = octets::be32(0) + s4;
    let s2 = octets::be32(res.flags) + s3;
    let s1 = octets::be32(res.sequenceid) + s2;
    let s0 = octets::be64(res.clientid) + s1;
    xdr::u64_round_trip(res.clientid, s1);
    xdr::u32_round_trip(res.sequenceid, s2);
    xdr::u32_round_trip(res.flags, s3);
    xdr::u32_round_trip(0, s4);
    xdr::u64_round_trip(0, s5);
    xdr::string_round_trip(res.server_owner@, s6);
    xdr::opaque_round_trip(res.server_scope@, s7);
    xdr::u32_round_trip(0, t);
}

proof fn lemma_a_sequence_reply_says_the_slot_and_the_flags(
    res: SequenceResult,
    offer: SecOffer,
    t: Seq<u8>,
)
    ensures
        wire::result_body(OperationResult::Sequence(Nfs4Status::NfsOk, Some(res)), offer) + t == xdr::wire_fixed(res.sessionid@) + (octets::be32(res.sequenceid) + (octets::be32(res.slotid) + (octets::be32(res.highest_slotid) + (octets::be32(res.target_highest_slotid) + (octets::be32(res.status_flags) + t))))),
{
    lemma_join_6(xdr::wire_fixed(res.sessionid@), octets::be32(res.sequenceid), octets::be32(res.slotid), octets::be32(res.highest_slotid), octets::be32(res.target_highest_slotid), octets::be32(res.status_flags), t);
}

/// Law: SEQUENCE answers with the session, the sequence number, the slot, the
/// highest slot in use, the highest that the server would like and the status
/// flags.
pub proof fn a_sequence_reply_says_the_slot_and_the_flags(
    res: SequenceResult,
    offer: SecOffer,
    t: Seq<u8>,
)
    ensures
        ({
            let s = wire::result_body(OperationResult::Sequence(Nfs4Status::NfsOk, Some(res)), offer) + t;
            let (sessionid, s) = xdr::parse_fixed(s, 16);
            let (sequenceid, s) = xdr::parse_u32(s);
            let (slotid, s) = xdr::parse_u32(s);
            let (highest, s) = xdr::parse_u32(s);
            let (target, s) = xdr::parse_u32(s);
            let (flags, s) = xdr::parse_u32(s);
            &&& sessionid == Ok::<Seq<u8>, XdrError>(res.sessionid@)
            &&& sequenceid == Ok::<u32, XdrError>(res.sequenceid)
            &&& slotid == Ok::<u32, XdrError>(res.slotid)
            &&& highest == Ok::<u32, XdrError>(res.highest_slotid)
            &&& target == Ok::<u32, XdrError>(res.target_highest_slotid)
            &&& flags == Ok::<u32, XdrError>(res.status_flags)
            &&& s == t
        }),
{
    let r = OperationResult::Sequence(Nfs4Status::NfsOk, Some(res));
    lemma_a_sequence_reply_says_the_slot_and_the_flags(res, offer, t);
    let s5 = octets::be32(res.status_flags) + t;
    let s4 = octets::be32(res.target_highest_slotid) + s5;
    let s3 = octets::be32(res.highest_slotid) + s4;
    let s2 = octets::be32(res.slotid) + s3;
    let s1 = octets::be32(res.sequenceid) + s2;
    let s0 = xdr::wire_fixed(res.sessionid@) + s1;
    xdr::fixed_round_trip(res.sessionid@, 16, s1);
    xdr::u32_round_trip(res.sequenceid, s2);
    xdr::u32_round_trip(res.slotid, s3);
    xdr::u32_round_trip(res.highest_slotid, s4);
    xdr::u32_round_trip(res.target_highest_slotid, s5);
    xdr::u32_round_trip(res.status_flags, t);
}

/// Law: BIND_CONN_TO_SESSION answers with the session, the direction and
/// whether RDMA is used.
pub proof fn a_bind_reply_says_the_session(
    sessionid: SessionId,
    dir: u32,
    rdma: bool,
    offer: SecOffer,
    t: Seq<u8>,
)
    ensures
        ({
            let s = wire::result_body(OperationResult::BindConnToSession(Nfs4Status::NfsOk, Some(sessionid), dir, rdma), offer) + t;
            let (got_sessionid, s) = xdr::parse_fixed(s, 16);
            let (got_dir, s) = xdr::parse_u32(s);
            let (got_rdma, s) = xdr::parse_bool(s);
            &&& got_sessionid == Ok::<Seq<u8>, XdrError>(sessionid@)
            &&& got_dir == Ok::<u32, XdrError>(dir)
            &&& got_rdma == Ok::<bool, XdrError>(rdma)
            &&& s == t
        }),
{
    let r = OperationResult::BindConnToSession(Nfs4Status::NfsOk, Some(sessionid), dir, rdma);
    let s2 = xdr::wire_bool(rdma) + t;
    let s1 = octets::be32(dir) + s2;
    let s0 = xdr::wire_fixed(sessionid@) + s1;
    assert(wire::result_body(r, offer) + t == s0) by {
        lemma_join_3(xdr::wire_fixed(sessionid@), octets::be32(dir), xdr::wire_bool(rdma), t);
    }
    xdr::fixed_round_trip(sessionid@, 16, s1);
    xdr::u32_round_trip(dir, s2);
    xdr::bool_round_trip(rdma, t);
}

/// Law: SEEK answers with whether the end of the file was reached, and the
/// offset that was found.
pub proof fn a_seek_reply_says_where(
    res: SeekResult,
    offer: SecOffer,
    t: Seq<u8>,
)
    ensures
        ({
            let s = wire::result_body(OperationResult::Seek(Nfs4Status::NfsOk, Some(res)), offer) + t;
            let (eof, s) = xdr::parse_bool(s);
            let (offset, s) = xdr::parse_u64(s);
            &&& eof == Ok::<bool, XdrError>(res.eof)
            &&& offset == Ok::<u64, XdrError>(res.offset)
            &&& s == t
        }),
{
    let r = OperationResult::Seek(Nfs4Status::NfsOk, Some(res));
    let s1 = octets::be64(res.offset) + t;
    let s0 = xdr::wire_bool(res.eof) + s1;
    assert(wire::result_body(r, offer) + t == s0) by {
        lemma_join_2(xdr::wire_bool(res.eof), octets::be64(res.offset), t);
    }
    xdr::bool_round_trip(res.eof, s1);
    xdr::u64_round_trip(res.offset, t);
}

proof fn lemma_a_copy_reply_says_how_much(
    res: CopyResult,
    offer: SecOffer,
    t: Seq<u8>,
)
    ensures
        wire::result_body(OperationResult::Copy(Nfs4Status::NfsOk, Some(res)), offer) + t == octets::be32(0) + (octets::be64(res.count) + (octets::be32(2) + (octets::be64(res.verifier) + (xdr::wire_bool(res.consecutive) + (xdr::wire_bool(res.synchronous) + t))))),
{
    lemma_join_6(octets::be32(0), octets::be64(res.count), octets::be32(2), octets::be64(res.verifier), xdr::wire_bool(res.consecutive), xdr::wire_bool(res.synchronous), t);
}

/// Law: COPY answers with no callback to wait for, the number of octets copied,
/// that they are stable, the write verifier, and whether they were copied in
/// order and before the reply.
pub proof fn a_copy_reply_says_how_much(
    res: CopyResult,
    offer: SecOffer,
    t: Seq<u8>,
)
    ensures
        ({
            let s = wire::result_body(OperationResult::Copy(Nfs4Status::NfsOk, Some(res)), offer) + t;
            let (callbacks, s) = xdr::parse_u32(s);
            let (count, s) = xdr::parse_u64(s);
            let (committed, s) = xdr::parse_u32(s);
            let (verifier, s) = xdr::parse_u64(s);
            let (consecutive, s) = xdr::parse_bool(s);
            let (synchronous, s) = xdr::parse_bool(s);
            &&& callbacks == Ok::<u32, XdrError>(0)
            &&& count == Ok::<u64, XdrError>(res.count)
            &&& committed == Ok::<u32, XdrError>(2)
            &&& verifier == Ok::<u64, XdrError>(res.verifier)
            &&& consecutive == Ok::<bool, XdrError>(res.consecutive)
            &&& synchronous == Ok::<bool, XdrError>(res.synchronous)
            &&& s == t
        }),
{
    let r = OperationResult::Copy(Nfs4Status::NfsOk, Some(res));
    lemma_a_copy_reply_says_how_much(res, offer, t);
    let s5 = xdr::wire_bool(res.synchronous) + t;
    let s4 = xdr::wire_bool(res.consecutive) + s5;
    let s3 = octets::be64(res.verifier) + s4;
    let s2 = octets::be32(2) + s3;
    let s1 = octets::be64(res.count) + s2;
    let s0 = octets::be32(0) + s1;
    xdr::u32_round_trip(0, s1);
    xdr::u64_round_trip(res.count, s2);
    xdr::u32_round_trip(2, s3);
    xdr::u64_round_trip(res.verifier, s4);
    xdr::bool_round_trip(res.consecutive, s5);
    xdr::bool_round_trip(res.synchronous, t);
}

/// Law: LAYOUTGET answers with the layouts as they were encoded.
pub proof fn a_layoutget_reply_says_the_layouts(
    layouts: Bytes,
    offer: SecOffer,
    t: Seq<u8>,
)
    ensures
        ({
            let s = wire::result_body(OperationResult::LayoutGet(Nfs4Status::NfsOk, Some(layouts)), offer) + t;
            &&& s == octets::bytes_of(layouts) + t
        }),
{
    let r = OperationResult::LayoutGet(Nfs4Status::NfsOk, Some(layouts));
    let s0 = octets::bytes_of(layouts) + t;
    assert(wire::result_body(r, offer) + t == s0);
}

/// Law: GETDEVICEINFO answers with the device address as it was encoded.
pub proof fn a_getdeviceinfo_reply_says_the_address(
    address: Bytes,
    offer: SecOffer,
    t: Seq<u8>,
)
    ensures
        ({
            let s = wire::result_body(OperationResult::GetDeviceInfo(Nfs4Status::NfsOk, Some(address)), offer) + t;
            &&& s == octets::bytes_of(address) + t
        }),
{
    let r = OperationResult::GetDeviceInfo(Nfs4Status::NfsOk, Some(address));
    let s0 = octets::bytes_of(address) + t;
    assert(wire::result_body(r, offer) + t == s0);
}

/// Law: GETDEVICEINFO that was given too little room answers with the room that
/// it needs.
pub proof fn a_getdeviceinfo_reply_says_the_room_it_needs(
    room: Bytes,
    offer: SecOffer,
    t: Seq<u8>,
)
    ensures
        ({
            let s = wire::result_body(OperationResult::GetDeviceInfo(Nfs4Status::TooSmall, Some(room)), offer) + t;
            &&& s == octets::bytes_of(room) + t
        }),
{
    let r = OperationResult::GetDeviceInfo(Nfs4Status::TooSmall, Some(room));
    let s0 = octets::bytes_of(room) + t;
    assert(wire::result_body(r, offer) + t == s0);
}

/// Law: LAYOUTRETURN answers that no layout stateid is left.
pub proof fn a_layoutreturn_reply_says_no_stateid(
    offer: SecOffer,
    t: Seq<u8>,
)
    ensures
        ({
            let s = wire::result_body(OperationResult::LayoutReturn(Nfs4Status::NfsOk), offer) + t;
            let (present, s) = xdr::parse_bool(s);
            &&& present == Ok::<bool, XdrError>(false)
            &&& s == t
        }),
{
    let r = OperationResult::LayoutReturn(Nfs4Status::NfsOk);
    let s0 = xdr::wire_bool(false) + t;
    assert(wire::result_body(r, offer) + t == s0);
    xdr::bool_round_trip(false, t);
}

/// Law: LAYOUTCOMMIT that extended the file answers with the new size.
pub proof fn a_layoutcommit_reply_says_the_new_size(
    size: u64,
    offer: SecOffer,
    t: Seq<u8>,
)
    ensures
        ({
            let s = wire::result_body(OperationResult::LayoutCommit(Nfs4Status::NfsOk, Some(size)), offer) + t;
            let (changed, s) = xdr::parse_bool(s);
            let (got, s) = xdr::parse_u64(s);
            &&& changed == Ok::<bool, XdrError>(true)
            &&& got == Ok::<u64, XdrError>(size)
            &&& s == t
        }),
{
    let r = OperationResult::LayoutCommit(Nfs4Status::NfsOk, Some(size));
    let s1 = octets::be64(size) + t;
    let s0 = xdr::wire_bool(true) + s1;
    assert(wire::result_body(r, offer) + t == s0) by {
        lemma_join_2(xdr::wire_bool(true), octets::be64(size), t);
    }
    xdr::bool_round_trip(true, s1);
    xdr::u64_round_trip(size, t);
}

/// Law: LAYOUTCOMMIT that did not extend the file answers with no size.
pub proof fn a_layoutcommit_reply_may_say_no_size(
    offer: SecOffer,
    t: Seq<u8>,
)
    ensures
        ({
            let s = wire::result_body(OperationResult::LayoutCommit(Nfs4Status::NfsOk, None), offer) + t;
            let (changed, s) = xdr::parse_bool(s);
            &&& changed == Ok::<bool, XdrError>(false)
            &&& s == t
        }),
{
    let r = OperationResult::LayoutCommit(Nfs4Status::NfsOk, None);
    let s0 = xdr::wire_bool(false) + t;
    assert(wire::result_body(r, offer) + t == s0);
    xdr::bool_round_trip(false, t);
}

proof fn lemma_a_denied_test_says_what_stands_against_it(
    d: LockDenied,
    offer: SecOffer,
    t: Seq<u8>,
)
    requires
        d.owner@.len() <= u32::MAX,
    ensures
        wire::result_body(OperationResult::LockT(Nfs4Status::Denied, Some(d)), offer) + t == octets::be64(d.offset) + (octets::be64(d.length) + (octets::be32((if d.locktype is Read {
                1u32
            } else {
                2u32
            })) + (octets::be64(d.client_id) + (xdr::wire_opaque(d.owner@) + t)))),
{
    lemma_join_5(octets::be64(d.offset), octets::be64(d.length), octets::be32((if d.locktype is Read {
                1u32
            } else {
                2u32
            })), octets::be64(d.client_id), xdr::wire_opaque(d.owner@), t);
}

/// Law: a LOCKT that is denied answers with the range, the type, the client and
/// the owner of the lock that stands against it.
pub proof fn a_denied_test_says_what_stands_against_it(
    d: LockDenied,
    offer: SecOffer,
    t: Seq<u8>,
)
    requires
        d.owner@.len() <= u32::MAX,
    ensures
        ({
            let s = wire::result_body(OperationResult::LockT(Nfs4Status::Denied, Some(d)), offer) + t;
            let (offset, s) = xdr::parse_u64(s);
            let (length, s) = xdr::parse_u64(s);
            let (locktype, s) = xdr::parse_u32(s);
            let (client, s) = xdr::parse_u64(s);
            let (owner, s) = xdr::parse_opaque(s);
            &&& offset == Ok::<u64, XdrError>(d.offset)
            &&& length == Ok::<u64, XdrError>(d.length)
            &&& locktype == Ok::<u32, XdrError>((if d.locktype is Read {
                1u32
            } else {
                2u32
            }))
            &&& client == Ok::<u64, XdrError>(d.client_id)
            &&& owner == Ok::<Seq<u8>, XdrError>(d.owner@)
            &&& s == t
        }),
{
    let r = OperationResult::LockT(Nfs4Status::Denied, Some(d));
    lemma_a_denied_test_says_what_stands_against_it(d, offer, t);
    let s4 = xdr::wire_opaque(d.owner@) + t;
    let s3 = octets::be64(d.client_id) + s4;
    let s2 = octets::be32((if d.locktype is Read {
                1u32
            } else {
                2u32
            })) + s3;
    let s1 = octets::be64(d.length) + s2;
    let s0 = octets::be64(d.offset) + s1;
    xdr::u64_round_trip(d.offset, s1);
    xdr::u64_round_trip(d.length, s2);
    xdr::u32_round_trip((if d.locktype is Read {
                1u32
            } else {
                2u32
            }), s3);
    xdr::u64_round_trip(d.client_id, s4);
    xdr::opaque_round_trip(d.owner@, t);
}

/// Law: a denied LOCK is answered as a denied LOCKT is.
pub proof fn a_denied_lock_is_answered_as_a_denied_test(
    stateid: Option<StateId>,
    d: Option<LockDenied>,
    offer: SecOffer,
)
    ensures
        wire::result_body(OperationResult::Lock(Nfs4Status::Denied, stateid, d), offer)
            == wire::result_body(OperationResult::LockT(Nfs4Status::Denied, d), offer),
{
}

/// Law: `change_info4` is whether the two values were taken atomically, the value
/// before and the value after.
pub proof fn a_change_says_before_and_after(c: ChangeInfo, t: Seq<u8>)
    ensures
        ({
            let (atomic, s) = xdr::parse_bool(wire::wire_change_info(c) + t);
            let (before, s) = xdr::parse_u64(s);
            let (after, s) = xdr::parse_u64(s);
            &&& atomic == Ok::<bool, XdrError>(c.atomic)
            &&& before == Ok::<u64, XdrError>(c.before)
            &&& after == Ok::<u64, XdrError>(c.after)
            &&& s == t
        }),
{
    let s2 = octets::be64(c.after) + t;
    let s1 = octets::be64(c.before) + s2;
    lemma_join_3(xdr::wire_bool(c.atomic), octets::be64(c.before), octets::be64(c.after), t);
    xdr::bool_round_trip(c.atomic, s1);
    xdr::u64_round_trip(c.before, s2);
    xdr::u64_round_trip(c.after, t);
}

/// Law: OPEN answers with the stateid, how the directory changed, the flags, the
/// attributes that were set, and the delegation.
pub proof fn an_open_reply_says_the_stateid(res: OpenResult, offer: SecOffer, t: Seq<u8>)
    requires
        res.attrset@.len() <= u32::MAX,
    ensures
        ({
            let s = wire::result_body(
                OperationResult::Open(Nfs4Status::NfsOk, Some(res)),
                offer,
            ) + t;
            let (stateid, s) = xdr::parse_stateid(s);
            let behind = octets::be32(res.result_flags) + (xdr::wire_bitmap(res.attrset@) + (
            wire::wire_delegation(res.delegation) + t));
            &&& stateid == Ok::<StateIdView, XdrError>(res.stateid@)
            &&& s == wire::wire_change_info(res.change_info) + behind
            &&& xdr::parse_u32(behind).0 == Ok::<u32, XdrError>(res.result_flags)
            &&& xdr::parse_bitmap(xdr::parse_u32(behind).1) == (
                Ok::<Seq<u32>, XdrError>(res.attrset@),
                wire::wire_delegation(res.delegation) + t,
            )
        }),
{
    let d = wire::wire_delegation(res.delegation);
    let s4 = d + t;
    let s3 = xdr::wire_bitmap(res.attrset@) + s4;
    let s2 = octets::be32(res.result_flags) + s3;
    let s1 = wire::wire_change_info(res.change_info) + s2;
    lemma_join_5(
        xdr::wire_stateid(res.stateid@),
        wire::wire_change_info(res.change_info),
        octets::be32(res.result_flags),
        xdr::wire_bitmap(res.attrset@),
        d,
        t,
    );
    xdr::stateid_round_trip(res.stateid@, s1);
    xdr::u32_round_trip(res.result_flags, s3);
    xdr::bitmap_round_trip(res.attrset@, s4);
}

/// Law: a delegation that is not granted is the word 0; where the client asked to
/// be told, it is the word 3 and the reason, and for contention and want of a
/// resource that nothing will follow.
pub proof fn a_refused_delegation_says_why(why: WhyNoDelegation, t: Seq<u8>)
    ensures
        xdr::parse_u32(wire::wire_delegation(None) + t) == (Ok::<u32, XdrError>(0), t),
        ({
            let (kind, s) = xdr::parse_u32(
                wire::wire_delegation(Some(Delegation::NoneExt { why })) + t,
            );
            let (reason, s) = xdr::parse_u32(s);
            &&& kind == Ok::<u32, XdrError>(3)
            &&& why is NotWanted ==> reason == Ok::<u32, XdrError>(0) && s == t
            &&& why is Contention ==> reason == Ok::<u32, XdrError>(1) && xdr::parse_bool(s) == (
                Ok::<bool, XdrError>(false),
                t,
            )
            &&& why is Resource ==> reason == Ok::<u32, XdrError>(2) && xdr::parse_bool(s) == (
                Ok::<bool, XdrError>(false),
                t,
            )
            &&& why is Cancelled ==> reason == Ok::<u32, XdrError>(7) && s == t
        }),
{
    let code = octets::be32(results::why_code(why));
    let last = match results::why_bool(why) {
        Some(b) => xdr::wire_bool(b),
        None => Seq::empty(),
    };
    lemma_join_3(octets::be32(3), code, last, t);
    assert(Seq::<u8>::empty() + t =~= t);
    xdr::u32_round_trip(0, t);
    xdr::u32_round_trip(3, code + (last + t));
    xdr::u32_round_trip(results::why_code(why), last + t);
    xdr::bool_round_trip(false, t);
}

/// Law: a read delegation is the word 1, its stateid, that it is not recalled, and
/// one entry of an access control list: allowed, without flags, to read, for
/// everyone.
pub proof fn a_read_delegation_says_its_stateid(stateid: StateId, t: Seq<u8>)
    ensures
        ({
            let (kind, s) = xdr::parse_u32(
                wire::wire_delegation(Some(Delegation::Read { stateid })) + t,
            );
            let (got, s) = xdr::parse_stateid(s);
            let (recall, s) = xdr::parse_bool(s);
            &&& kind == Ok::<u32, XdrError>(1)
            &&& got == Ok::<StateIdView, XdrError>(stateid@)
            &&& recall == Ok::<bool, XdrError>(false)
            &&& s == octets::be32(0) + (octets::be32(0) + (octets::be32(0x0012_0089) + (
            xdr::wire_string("EVERYONE@"@) + t)))
        }),
{
    let who = xdr::wire_string("EVERYONE@"@);
    let s3 = octets::be32(0) + (octets::be32(0) + (octets::be32(0x0012_0089) + (who + t)));
    let s2 = xdr::wire_bool(false) + s3;
    let s1 = xdr::wire_stateid(stateid@) + s2;
    lemma_join_7(
        octets::be32(1),
        xdr::wire_stateid(stateid@),
        xdr::wire_bool(false),
        octets::be32(0),
        octets::be32(0),
        octets::be32(0x0012_0089),
        who,
        t,
    );
    xdr::u32_round_trip(1, s1);
    xdr::stateid_round_trip(stateid@, s2);
    xdr::bool_round_trip(false, s3);
}

/// Law: the attributes of a channel are written as they are read in a request, with
/// nothing for RDMA.
#[verifier::rlimit(30)]
pub proof fn channel_attributes_are_written_as_they_are_read(a: ChannelAttrs, t: Seq<u8>)
    ensures
        grammar::parse_channel_attrs(wire::wire_channel_attrs(a) + t) == (
            Ok::<ChannelAttrsView, XdrError>(
                ChannelAttrsView {
                    header_pad_size: a.header_pad_size,
                    max_request_size: a.max_request_size,
                    max_response_size: a.max_response_size,
                    max_response_size_cached: a.max_response_size_cached,
                    max_operations: a.max_operations,
                    max_requests: a.max_requests,
                    rdma_ird: Seq::empty(),
                },
            ),
            t,
        ),
{
    lemma_join_7(
        octets::be32(a.header_pad_size),
        octets::be32(a.max_request_size),
        octets::be32(a.max_response_size),
        octets::be32(a.max_response_size_cached),
        octets::be32(a.max_operations),
        octets::be32(a.max_requests),
        octets::be32(0),
        t,
    );
    broadcast use xdr::u32_round_trip;

}

/// Law: CREATE_SESSION answers with the session, the sequence number, the flags, the
/// attributes of the fore channel and those of the back channel.
pub proof fn a_create_session_reply_says_both_channels(
    res: CreateSessionResult,
    offer: SecOffer,
    t: Seq<u8>,
)
    ensures
        ({
            let s = wire::result_body(
                OperationResult::CreateSession(Nfs4Status::NfsOk, Some(res)),
                offer,
            ) + t;
            let (sessionid, s) = xdr::parse_fixed(s, 16);
            let (sequenceid, s) = xdr::parse_u32(s);
            let (flags, s) = xdr::parse_u32(s);
            &&& sessionid == Ok::<Seq<u8>, XdrError>(res.sessionid@)
            &&& sequenceid == Ok::<u32, XdrError>(res.sequenceid)
            &&& flags == Ok::<u32, XdrError>(res.flags)
            &&& s == wire::wire_channel_attrs(res.fore_chan_attrs) + (wire::wire_channel_attrs(
                res.back_chan_attrs,
            ) + t)
        }),
{
    let fore = wire::wire_channel_attrs(res.fore_chan_attrs);
    let back = wire::wire_channel_attrs(res.back_chan_attrs);
    let s3 = fore + (back + t);
    let s2 = octets::be32(res.flags) + s3;
    let s1 = octets::be32(res.sequenceid) + s2;
    lemma_join_5(
        xdr::wire_fixed(res.sessionid@),
        octets::be32(res.sequenceid),
        octets::be32(res.flags),
        fore,
        back,
        t,
    );
    xdr::fixed_round_trip(res.sessionid@, 16, s1);
    xdr::u32_round_trip(res.sequenceid, s2);
    xdr::u32_round_trip(res.flags, s3);
}

// ---------------------------------------------------------------------------
// Lists
// ---------------------------------------------------------------------------

/// What a client reads in `dirlist4`: entry by entry, each behind a TRUE, its cookie,
/// its name and its attributes, and a FALSE behind the last.
pub open spec fn entries_read(s: Seq<u8>, entries: Seq<DirEntry>, rest: Seq<u8>) -> bool
    decreases entries.len(),
{
    let (more, s) = xdr::parse_bool(s);
    if entries.len() == 0 {
        more == Ok::<bool, XdrError>(false) && s == rest
    } else {
        let (cookie, s) = xdr::parse_u64(s);
        let (name, s) = xdr::parse_string(s);
        let attrs = octets::bytes_of(entries[0].attrs);
        &&& more == Ok::<bool, XdrError>(true)
        &&& cookie == Ok::<u64, XdrError>(entries[0].cookie)
        &&& name == Ok::<Seq<char>, XdrError>(entries[0].name@)
        &&& attrs.is_prefix_of(s)
        &&& entries_read(s.skip(attrs.len() as int), entries.skip(1), rest)
    }
}

proof fn lemma_entries_front(e: Seq<DirEntry>)
    requires
        e.len() > 0,
    ensures
        wire::wire_entries(e) == wire::wire_entry(e[0]) + wire::wire_entries(e.skip(1)),
    decreases e.len(),
{
    if e.len() == 1 {
        assert(e.drop_last() =~= Seq::<DirEntry>::empty());
        assert(e.skip(1) =~= Seq::<DirEntry>::empty());
        reveal_with_fuel(wire::wire_entries, 2);
        let one = wire::wire_entry(e[0]);
        assert(Seq::<u8>::empty() + one =~= one + Seq::<u8>::empty());
    } else {
        lemma_entries_front(e.drop_last());
        assert(e.skip(1).drop_last() =~= e.drop_last().skip(1));
        xdr::lemma_concat_assoc(
            wire::wire_entry(e[0]),
            wire::wire_entries(e.skip(1).drop_last()),
            wire::wire_entry(e.last()),
        );
    }
}

proof fn lemma_entry_read(e: DirEntry, behind: Seq<u8>)
    requires
        encode_utf8(e.name@).len() <= u32::MAX,
    ensures
        ({
            let (more, s) = xdr::parse_bool(wire::wire_entry(e) + behind);
            let (cookie, s) = xdr::parse_u64(s);
            let (name, s) = xdr::parse_string(s);
            &&& more == Ok::<bool, XdrError>(true)
            &&& cookie == Ok::<u64, XdrError>(e.cookie)
            &&& name == Ok::<Seq<char>, XdrError>(e.name@)
            &&& s == octets::bytes_of(e.attrs) + behind
        }),
{
    let s3 = octets::bytes_of(e.attrs) + behind;
    let s2 = xdr::wire_string(e.name@) + s3;
    let s1 = octets::be64(e.cookie) + s2;
    lemma_join_4(
        xdr::wire_bool(true),
        octets::be64(e.cookie),
        xdr::wire_string(e.name@),
        octets::bytes_of(e.attrs),
        behind,
    );
    xdr::bool_round_trip(true, s1);
    xdr::u64_round_trip(e.cookie, s2);
    xdr::string_round_trip(e.name@, s3);
}

proof fn lemma_entries_read(e: Seq<DirEntry>, t: Seq<u8>)
    requires
        forall|i: int| 0 <= i < e.len() ==> encode_utf8((#[trigger] e[i]).name@).len() <= u32::MAX,
    ensures
        entries_read(wire::wire_entries(e) + (xdr::wire_bool(false) + t), e, t),
    decreases e.len(),
{
    let end = xdr::wire_bool(false) + t;
    if e.len() == 0 {
        assert(wire::wire_entries(e) + end =~= end);
        xdr::bool_round_trip(false, t);
    } else {
        let rest = e.skip(1);
        assert forall|i: int| 0 <= i < rest.len() implies encode_utf8(
            (#[trigger] rest[i]).name@,
        ).len() <= u32::MAX by {
            assert(rest[i] == e[i + 1]);
        }
        lemma_entries_read(rest, t);
        lemma_entries_front(e);
        let behind = wire::wire_entries(rest) + end;
        xdr::lemma_concat_assoc(wire::wire_entry(e[0]), wire::wire_entries(rest), end);
        assert(encode_utf8(e[0].name@).len() <= u32::MAX);
        lemma_entry_read(e[0], behind);
        let attrs = octets::bytes_of(e[0].attrs);
        assert((attrs + behind).skip(attrs.len() as int) =~= behind);
        assert(attrs.is_prefix_of(attrs + behind));
    }
}

/// Law: READDIR answers with the cookie verifier, the entries in order, each with
/// its cookie, its name and its attributes, and whether the directory ended.
pub proof fn a_readdir_reply_says_the_entries(res: ReadDirResult, offer: SecOffer, t: Seq<u8>)
    requires
        forall|i: int|
            0 <= i < res.entries@.len() ==> encode_utf8((#[trigger] res.entries@[i]).name@).len()
                <= u32::MAX,
    ensures
        ({
            let s = wire::result_body(
                OperationResult::ReadDir(Nfs4Status::NfsOk, Some(res)),
                offer,
            ) + t;
            let (cookieverf, s) = xdr::parse_u64(s);
            let end = xdr::wire_bool(res.eof) + t;
            &&& cookieverf == Ok::<u64, XdrError>(res.cookieverf)
            &&& entries_read(s, res.entries@, end)
            &&& xdr::parse_bool(end) == (Ok::<bool, XdrError>(res.eof), t)
        }),
{
    let e = wire::wire_entries(res.entries@);
    let end = xdr::wire_bool(res.eof) + t;
    lemma_join_4(
        octets::be64(res.cookieverf),
        e,
        xdr::wire_bool(false),
        xdr::wire_bool(res.eof),
        t,
    );
    xdr::u64_round_trip(res.cookieverf, e + (xdr::wire_bool(false) + end));
    lemma_entries_read(res.entries@, end);
    xdr::bool_round_trip(res.eof, t);
}

/// What a client reads in a list of statuses.
pub open spec fn statuses_read(s: Seq<u8>, statuses: Seq<Nfs4Status>, rest: Seq<u8>) -> bool
    decreases statuses.len(),
{
    if statuses.len() == 0 {
        s == rest
    } else {
        let (status, s) = xdr::parse_status(s);
        status == Ok::<Nfs4Status, XdrError>(statuses[0]) && statuses_read(
            s,
            statuses.skip(1),
            rest,
        )
    }
}

proof fn lemma_statuses_front(v: Seq<Nfs4Status>)
    requires
        v.len() > 0,
    ensures
        wire::wire_statuses(v) == xdr::wire_status(v[0]) + wire::wire_statuses(v.skip(1)),
    decreases v.len(),
{
    if v.len() == 1 {
        assert(v.drop_last() =~= Seq::<Nfs4Status>::empty());
        assert(v.skip(1) =~= Seq::<Nfs4Status>::empty());
        reveal_with_fuel(wire::wire_statuses, 2);
        let one = xdr::wire_status(v[0]);
        assert(Seq::<u8>::empty() + one =~= one + Seq::<u8>::empty());
    } else {
        lemma_statuses_front(v.drop_last());
        assert(v.skip(1).drop_last() =~= v.drop_last().skip(1));
        xdr::lemma_concat_assoc(
            xdr::wire_status(v[0]),
            wire::wire_statuses(v.skip(1).drop_last()),
            xdr::wire_status(v.last()),
        );
    }
}

proof fn lemma_statuses_read(v: Seq<Nfs4Status>, t: Seq<u8>)
    ensures
        statuses_read(wire::wire_statuses(v) + t, v, t),
    decreases v.len(),
{
    if v.len() == 0 {
        assert(wire::wire_statuses(v) + t =~= t);
    } else {
        let behind = wire::wire_statuses(v.skip(1)) + t;
        lemma_statuses_read(v.skip(1), t);
        lemma_statuses_front(v);
        xdr::lemma_concat_assoc(xdr::wire_status(v[0]), wire::wire_statuses(v.skip(1)), t);
        xdr::status_round_trip(v[0], behind);
    }
}

/// Law: TEST_STATEID answers with a status for each stateid, in order.
pub proof fn a_test_stateid_reply_says_each_status(
    v: Vec<Nfs4Status>,
    offer: SecOffer,
    t: Seq<u8>,
)
    requires
        v@.len() <= u32::MAX,
    ensures
        ({
            let s = wire::result_body(
                OperationResult::TestStateId(Nfs4Status::NfsOk, Some(v)),
                offer,
            ) + t;
            let (n, s) = xdr::parse_u32(s);
            n == Ok::<u32, XdrError>(v@.len() as u32) && statuses_read(s, v@, t)
        }),
{
    let n = octets::be32(v@.len() as u32);
    xdr::lemma_concat_assoc(n, wire::wire_statuses(v@), t);
    xdr::u32_round_trip(v@.len() as u32, wire::wire_statuses(v@) + t);
    lemma_statuses_read(v@, t);
}

/// What a client reads in the contents of READ_PLUS: data as the word 0, an offset
/// and the octets, a hole as the word 1, an offset and a length.
pub open spec fn segments_read(s: Seq<u8>, segments: Seq<ReadPlusSegment>, rest: Seq<u8>) -> bool
    decreases segments.len(),
{
    if segments.len() == 0 {
        s == rest
    } else {
        let (kind, s) = xdr::parse_u32(s);
        let (at, s) = xdr::parse_u64(s);
        match segments[0] {
            ReadPlusSegment::Data { offset, data } => {
                let (got, s) = xdr::parse_opaque(s);
                &&& kind == Ok::<u32, XdrError>(0)
                &&& at == Ok::<u64, XdrError>(offset)
                &&& got == Ok::<Seq<u8>, XdrError>(octets::bytes_of(data))
                &&& segments_read(s, segments.skip(1), rest)
            },
            ReadPlusSegment::Hole { offset, length } => {
                let (got, s) = xdr::parse_u64(s);
                &&& kind == Ok::<u32, XdrError>(1)
                &&& at == Ok::<u64, XdrError>(offset)
                &&& got == Ok::<u64, XdrError>(length)
                &&& segments_read(s, segments.skip(1), rest)
            },
        }
    }
}

/// Data that a word can count.
pub open spec fn countable(segment: ReadPlusSegment) -> bool {
    segment matches ReadPlusSegment::Data { data, .. } ==> octets::bytes_of(data).len() <= u32::MAX
}

proof fn lemma_segments_front(v: Seq<ReadPlusSegment>)
    requires
        v.len() > 0,
    ensures
        wire::wire_read_plus_segments(v) == wire::wire_read_plus_segment(v[0])
            + wire::wire_read_plus_segments(v.skip(1)),
    decreases v.len(),
{
    if v.len() == 1 {
        assert(v.drop_last() =~= Seq::<ReadPlusSegment>::empty());
        assert(v.skip(1) =~= Seq::<ReadPlusSegment>::empty());
        reveal_with_fuel(wire::wire_read_plus_segments, 2);
        let one = wire::wire_read_plus_segment(v[0]);
        assert(Seq::<u8>::empty() + one =~= one + Seq::<u8>::empty());
    } else {
        lemma_segments_front(v.drop_last());
        assert(v.skip(1).drop_last() =~= v.drop_last().skip(1));
        xdr::lemma_concat_assoc(
            wire::wire_read_plus_segment(v[0]),
            wire::wire_read_plus_segments(v.skip(1).drop_last()),
            wire::wire_read_plus_segment(v.last()),
        );
    }
}

proof fn lemma_segment_read(v: ReadPlusSegment, behind: Seq<u8>)
    requires
        countable(v),
    ensures
        ({
            let (kind, s) = xdr::parse_u32(wire::wire_read_plus_segment(v) + behind);
            let (at, s) = xdr::parse_u64(s);
            match v {
                ReadPlusSegment::Data { offset, data } => kind == Ok::<u32, XdrError>(0) && at
                    == Ok::<u64, XdrError>(offset) && xdr::parse_opaque(s) == (
                    Ok::<Seq<u8>, XdrError>(octets::bytes_of(data)),
                    behind,
                ),
                ReadPlusSegment::Hole { offset, length } => kind == Ok::<u32, XdrError>(1) && at
                    == Ok::<u64, XdrError>(offset) && xdr::parse_u64(s) == (
                    Ok::<u64, XdrError>(length),
                    behind,
                ),
            }
        }),
{
    match v {
        ReadPlusSegment::Data { offset, data } => {
            let d = xdr::wire_opaque(octets::bytes_of(data));
            lemma_join_3(octets::be32(0), octets::be64(offset), d, behind);
            xdr::u32_round_trip(0, octets::be64(offset) + (d + behind));
            xdr::u64_round_trip(offset, d + behind);
            xdr::opaque_round_trip(octets::bytes_of(data), behind);
        },
        ReadPlusSegment::Hole { offset, length } => {
            let l = octets::be64(length);
            lemma_join_3(octets::be32(1), octets::be64(offset), l, behind);
            xdr::u32_round_trip(1, octets::be64(offset) + (l + behind));
            xdr::u64_round_trip(offset, l + behind);
            xdr::u64_round_trip(length, behind);
        },
    }
}

proof fn lemma_segments_read(v: Seq<ReadPlusSegment>, t: Seq<u8>)
    requires
        forall|i: int| 0 <= i < v.len() ==> countable(#[trigger] v[i]),
    ensures
        segments_read(wire::wire_read_plus_segments(v) + t, v, t),
    decreases v.len(),
{
    if v.len() == 0 {
        assert(wire::wire_read_plus_segments(v) + t =~= t);
    } else {
        let rest = v.skip(1);
        assert forall|i: int| 0 <= i < rest.len() implies countable(#[trigger] rest[i]) by {
            assert(rest[i] == v[i + 1]);
        }
        let behind = wire::wire_read_plus_segments(rest) + t;
        lemma_segments_read(rest, t);
        lemma_segments_front(v);
        xdr::lemma_concat_assoc(
            wire::wire_read_plus_segment(v[0]),
            wire::wire_read_plus_segments(rest),
            t,
        );
        assert(countable(v[0]));
        lemma_segment_read(v[0], behind);
    }
}

/// Law: READ_PLUS answers with whether the end of the file was reached, and the
/// data and the holes in order.
#[verifier::rlimit(30)]
pub proof fn a_read_plus_reply_says_data_and_holes(
    res: ReadPlusResult,
    offer: SecOffer,
    t: Seq<u8>,
)
    requires
        res.segments@.len() <= u32::MAX,
        forall|i: int| 0 <= i < res.segments@.len() ==> countable(#[trigger] res.segments@[i]),
    ensures
        ({
            let s = wire::result_body(
                OperationResult::ReadPlus(Nfs4Status::NfsOk, Some(res)),
                offer,
            ) + t;
            let (eof, s) = xdr::parse_bool(s);
            let (n, s) = xdr::parse_u32(s);
            &&& eof == Ok::<bool, XdrError>(res.eof)
            &&& n == Ok::<u32, XdrError>(res.segments@.len() as u32)
            &&& segments_read(s, res.segments@, t)
        }),
{
    let v = wire::wire_read_plus_segments(res.segments@);
    let n = octets::be32(res.segments@.len() as u32);
    lemma_join_3(xdr::wire_bool(res.eof), n, v, t);
    xdr::bool_round_trip(res.eof, n + (v + t));
    xdr::u32_round_trip(res.segments@.len() as u32, v + t);
    lemma_segments_read(res.segments@, t);
}

/// Law: a security flavor is the word 0 for no identity, the word 1 for AUTH_SYS,
/// and for Kerberos the word 6, the object identifier 1.2.840.113554.1.2.2, the
/// default quality of protection and the service: 1 to authenticate, 2 with
/// integrity, 3 with privacy.
pub proof fn a_flavor_says_its_service(level: SecLevel, t: Seq<u8>)
    ensures
        ({
            let (flavor, s) = xdr::parse_u32(wire::wire_flavor(level) + t);
            let (oid, s2) = xdr::parse_opaque(s);
            let (qop, s3) = xdr::parse_u32(s2);
            let (service, s4) = xdr::parse_u32(s3);
            &&& level is AuthNone ==> flavor == Ok::<u32, XdrError>(0) && s == t
            &&& level is Sys ==> flavor == Ok::<u32, XdrError>(1) && s == t
            &&& level is Krb5 || level is Krb5i || level is Krb5p ==> {
                &&& flavor == Ok::<u32, XdrError>(6)
                &&& oid == Ok::<Seq<u8>, XdrError>(
                    seq![0x2au8, 0x86, 0x48, 0x86, 0xf7, 0x12, 0x01, 0x02, 0x02],
                )
                &&& qop == Ok::<u32, XdrError>(0)
                &&& s4 == t
            }
            &&& level is Krb5 ==> service == Ok::<u32, XdrError>(1)
            &&& level is Krb5i ==> service == Ok::<u32, XdrError>(2)
            &&& level is Krb5p ==> service == Ok::<u32, XdrError>(3)
        }),
{
    let service: u32 = match level {
        SecLevel::Krb5 => 1,
        SecLevel::Krb5i => 2,
        _ => 3,
    };
    let oid = xdr::wire_opaque(wire::krb5_oid());
    let s3 = octets::be32(service) + t;
    let s2 = octets::be32(0) + s3;
    lemma_join_4(octets::be32(6), oid, octets::be32(0), octets::be32(service), t);
    xdr::u32_round_trip(0, t);
    xdr::u32_round_trip(1, t);
    xdr::u32_round_trip(6, oid + s2);
    xdr::opaque_round_trip(wire::krb5_oid(), s2);
    xdr::u32_round_trip(0, s3);
    xdr::u32_round_trip(service, t);
}

/// Law: SECINFO and SECINFO_NO_NAME answer alike: with the number of the flavors
/// that the server can honour, and the flavors in the order of preference.
pub proof fn a_secinfo_reply_counts_its_flavors(offer: SecOffer, t: Seq<u8>)
    ensures
        wire::result_body(OperationResult::SecInfo(Nfs4Status::NfsOk), offer) == wire::result_body(
            OperationResult::SecInfoNoName(Nfs4Status::NfsOk),
            offer,
        ),
        ({
            let levels = wire::secinfo_levels(offer.gss, offer.policy);
            xdr::parse_u32(
                wire::result_body(OperationResult::SecInfo(Nfs4Status::NfsOk), offer) + t,
            ) == (Ok::<u32, XdrError>(levels.len() as u32), wire::wire_flavors(levels) + t)
        }),
{
    let levels = wire::secinfo_levels(offer.gss, offer.policy);
    let n = octets::be32(levels.len() as u32);
    xdr::lemma_concat_assoc(n, wire::wire_flavors(levels), t);
    xdr::u32_round_trip(levels.len() as u32, wire::wire_flavors(levels) + t);
}

/// Law: the flavors come one after the other.
pub proof fn flavors_come_in_order(levels: Seq<SecLevel>, level: SecLevel)
    ensures
        wire::wire_flavors(Seq::empty()) == Seq::<u8>::empty(),
        wire::wire_flavors(levels.push(level)) == wire::wire_flavors(levels) + wire::wire_flavor(
            level,
        ),
{
    assert(levels.push(level).drop_last() =~= levels);
}

// ---------------------------------------------------------------------------
// The reply as a whole
// ---------------------------------------------------------------------------

/// Law: a result is filed under the number of the operation that it answers.
pub proof fn a_result_is_filed_under_its_operation(r: OperationResult)
    ensures
        r is PutRootFh ==> wire::result_opcode(r) == 24,
        r is PutFh ==> wire::result_opcode(r) == 22,
        r is GetFh ==> wire::result_opcode(r) == 10,
        r is SaveFh ==> wire::result_opcode(r) == 32,
        r is RestoreFh ==> wire::result_opcode(r) == 31,
        r is PutPubFh ==> wire::result_opcode(r) == 23,
        r is Lookup ==> wire::result_opcode(r) == 15,
        r is ReadDir ==> wire::result_opcode(r) == 26,
        r is Open ==> wire::result_opcode(r) == 18,
        r is Close ==> wire::result_opcode(r) == 4,
        r is OpenDowngrade ==> wire::result_opcode(r) == 21,
        r is Read ==> wire::result_opcode(r) == 25,
        r is Write ==> wire::result_opcode(r) == 38,
        r is Commit ==> wire::result_opcode(r) == 5,
        r is DelegPurge ==> wire::result_opcode(r) == 7,
        r is DelegReturn ==> wire::result_opcode(r) == 8,
        r is BackchannelCtl ==> wire::result_opcode(r) == 40,
        r is GetAttr ==> wire::result_opcode(r) == 9,
        r is SetAttr ==> wire::result_opcode(r) == 34,
        r is Verify ==> wire::result_opcode(r) == 37,
        r is Nverify ==> wire::result_opcode(r) == 17,
        r is Access ==> wire::result_opcode(r) == 3,
        r is Create ==> wire::result_opcode(r) == 6,
        r is Remove ==> wire::result_opcode(r) == 28,
        r is Rename ==> wire::result_opcode(r) == 29,
        r is Link ==> wire::result_opcode(r) == 11,
        r is ReadLink ==> wire::result_opcode(r) == 27,
        r is ExchangeId ==> wire::result_opcode(r) == 42,
        r is CreateSession ==> wire::result_opcode(r) == 43,
        r is DestroySession ==> wire::result_opcode(r) == 44,
        r is DestroyClientId ==> wire::result_opcode(r) == 57,
        r is BindConnToSession ==> wire::result_opcode(r) == 41,
        r is Sequence ==> wire::result_opcode(r) == 53,
        r is ReclaimComplete ==> wire::result_opcode(r) == 58,
        r is SecInfo ==> wire::result_opcode(r) == 33,
        r is SecInfoNoName ==> wire::result_opcode(r) == 52,
        r is TestStateId ==> wire::result_opcode(r) == 55,
        r is FreeStateId ==> wire::result_opcode(r) == 45,
        r is Allocate ==> wire::result_opcode(r) == 59,
        r is Deallocate ==> wire::result_opcode(r) == 62,
        r is Seek ==> wire::result_opcode(r) == 69,
        r is Copy ==> wire::result_opcode(r) == 60,
        r is Clone ==> wire::result_opcode(r) == 71,
        r is ReadPlus ==> wire::result_opcode(r) == 68,
        r is LayoutGet ==> wire::result_opcode(r) == 50,
        r is GetDeviceInfo ==> wire::result_opcode(r) == 47,
        r is LayoutReturn ==> wire::result_opcode(r) == 51,
        r is LayoutCommit ==> wire::result_opcode(r) == 49,
        r is Lock ==> wire::result_opcode(r) == 12,
        r is LockT ==> wire::result_opcode(r) == 13,
        r is LockU ==> wire::result_opcode(r) == 14,
        r matches OperationResult::Unsupported { opcode, .. } ==> (3 <= opcode <= 71
            ==> wire::result_opcode(r) == opcode),
        r matches OperationResult::Unsupported { opcode, .. } ==> (opcode < 3 || opcode > 71
            ==> wire::result_opcode(r) == 10044 && wire::result_status(r) is OpIllegal),
{
}

/// Law: a result carries the status that it was given.
pub proof fn a_result_carries_its_status(r: OperationResult)
    ensures
        r matches OperationResult::PutRootFh(s) ==> wire::result_status(r) == s,
        r matches OperationResult::PutFh(s) ==> wire::result_status(r) == s,
        r matches OperationResult::GetFh(s, _) ==> wire::result_status(r) == s,
        r matches OperationResult::SaveFh(s) ==> wire::result_status(r) == s,
        r matches OperationResult::RestoreFh(s) ==> wire::result_status(r) == s,
        r matches OperationResult::PutPubFh(s) ==> wire::result_status(r) == s,
        r matches OperationResult::Lookup(s) ==> wire::result_status(r) == s,
        r matches OperationResult::ReadDir(s, _) ==> wire::result_status(r) == s,
        r matches OperationResult::Open(s, _) ==> wire::result_status(r) == s,
        r matches OperationResult::Close(s, _) ==> wire::result_status(r) == s,
        r matches OperationResult::OpenDowngrade(s, _) ==> wire::result_status(r) == s,
        r matches OperationResult::Read(s, _) ==> wire::result_status(r) == s,
        r matches OperationResult::Write(s, _) ==> wire::result_status(r) == s,
        r matches OperationResult::Commit(s, _) ==> wire::result_status(r) == s,
        r matches OperationResult::DelegPurge(s) ==> wire::result_status(r) == s,
        r matches OperationResult::DelegReturn(s) ==> wire::result_status(r) == s,
        r matches OperationResult::BackchannelCtl(s) ==> wire::result_status(r) == s,
        r matches OperationResult::GetAttr(s, _) ==> wire::result_status(r) == s,
        r matches OperationResult::SetAttr(s, _) ==> wire::result_status(r) == s,
        r matches OperationResult::Verify(s) ==> wire::result_status(r) == s,
        r matches OperationResult::Nverify(s) ==> wire::result_status(r) == s,
        r matches OperationResult::Access(s, _) ==> wire::result_status(r) == s,
        r matches OperationResult::Create(s, _, _) ==> wire::result_status(r) == s,
        r matches OperationResult::Remove(s, _) ==> wire::result_status(r) == s,
        r matches OperationResult::Rename(s, _, _) ==> wire::result_status(r) == s,
        r matches OperationResult::Link(s, _) ==> wire::result_status(r) == s,
        r matches OperationResult::ReadLink(s, _) ==> wire::result_status(r) == s,
        r matches OperationResult::ExchangeId(s, _) ==> wire::result_status(r) == s,
        r matches OperationResult::CreateSession(s, _) ==> wire::result_status(r) == s,
        r matches OperationResult::DestroySession(s) ==> wire::result_status(r) == s,
        r matches OperationResult::DestroyClientId(s) ==> wire::result_status(r) == s,
        r matches OperationResult::BindConnToSession(s, _, _, _) ==> wire::result_status(r) == s,
        r matches OperationResult::Sequence(s, _) ==> wire::result_status(r) == s,
        r matches OperationResult::ReclaimComplete(s) ==> wire::result_status(r) == s,
        r matches OperationResult::SecInfo(s) ==> wire::result_status(r) == s,
        r matches OperationResult::SecInfoNoName(s) ==> wire::result_status(r) == s,
        r matches OperationResult::TestStateId(s, _) ==> wire::result_status(r) == s,
        r matches OperationResult::FreeStateId(s) ==> wire::result_status(r) == s,
        r matches OperationResult::Allocate(s) ==> wire::result_status(r) == s,
        r matches OperationResult::Deallocate(s) ==> wire::result_status(r) == s,
        r matches OperationResult::Seek(s, _) ==> wire::result_status(r) == s,
        r matches OperationResult::Copy(s, _) ==> wire::result_status(r) == s,
        r matches OperationResult::Clone(s) ==> wire::result_status(r) == s,
        r matches OperationResult::ReadPlus(s, _) ==> wire::result_status(r) == s,
        r matches OperationResult::LayoutGet(s, _) ==> wire::result_status(r) == s,
        r matches OperationResult::GetDeviceInfo(s, _) ==> wire::result_status(r) == s,
        r matches OperationResult::LayoutReturn(s) ==> wire::result_status(r) == s,
        r matches OperationResult::LayoutCommit(s, _) ==> wire::result_status(r) == s,
        r matches OperationResult::Lock(s, _, _) ==> wire::result_status(r) == s,
        r matches OperationResult::LockT(s, _) ==> wire::result_status(r) == s,
        r matches OperationResult::LockU(s, _) ==> wire::result_status(r) == s,
        r matches OperationResult::Unsupported { opcode, status } ==> (3 <= opcode <= 71
            ==> wire::result_status(r) == status),
{
}

/// Law: an operation that failed answers with its status and nothing else. The
/// exceptions are SETATTR, a denied LOCK or LOCKT, and GETDEVICEINFO without room.
pub proof fn a_failed_operation_answers_with_its_status(r: OperationResult, offer: SecOffer)
    requires
        !(wire::status_of(r) is NfsOk),
        !(r is SetAttr),
        !((r is Lock || r is LockT) && wire::status_of(r) is Denied),
        !(r is GetDeviceInfo && wire::status_of(r) is TooSmall),
    ensures
        wire::result_body(r, offer) == Seq::<u8>::empty(),
{
}

/// Law: these operations answer with their status alone.
pub proof fn an_operation_without_results_answers_with_its_status(
    r: OperationResult,
    offer: SecOffer,
)
    requires
        r is PutRootFh || r is PutFh || r is PutPubFh || r is SaveFh || r is RestoreFh || r is Lookup
            || r is Verify || r is Nverify || r is DestroySession || r is DestroyClientId
            || r is ReclaimComplete || r is FreeStateId || r is Allocate || r is Deallocate
            || r is Clone || r is DelegPurge || r is DelegReturn || r is BackchannelCtl
            || r is Unsupported,
    ensures
        wire::result_body(r, offer) == Seq::<u8>::empty(),
{
}

/// Law: a reply is its status, the tag of the request, the number of results and
/// the results.
pub proof fn a_reply_says_status_tag_and_number(r: CompoundResponse)
    requires
        r.raw_reply is None,
        encode_utf8(r.tag@).len() <= u32::MAX,
        r.results@.len() <= u32::MAX,
    ensures
        ({
            let (status, s) = xdr::parse_status(response::wire_response(r));
            let (tag, s) = xdr::parse_string(s);
            let (n, s) = xdr::parse_u32(s);
            &&& status == Ok::<Nfs4Status, XdrError>(r.status)
            &&& tag == Ok::<Seq<char>, XdrError>(r.tag@)
            &&& n == Ok::<u32, XdrError>(r.results@.len() as u32)
            &&& s == wire::wire_results(r.results@, r.sec)
        }),
{
    let rs = wire::wire_results(r.results@, r.sec);
    let n = octets::be32(r.results@.len() as u32);
    lemma_join_3(xdr::wire_status(r.status), xdr::wire_string(r.tag@), n, rs);
    xdr::status_round_trip(r.status, xdr::wire_string(r.tag@) + (n + rs));
    xdr::string_round_trip(r.tag@, n + rs);
    xdr::u32_round_trip(r.results@.len() as u32, rs);
}

/// Law: the first result comes first in the reply, and the others behind it in
/// their order.
pub proof fn results_come_in_order(rs: Seq<OperationResult>, offer: SecOffer)
    requires
        rs.len() > 0,
    ensures
        wire::wire_results(rs, offer) == wire::wire_result(rs[0], offer) + wire::wire_results(
            rs.skip(1),
            offer,
        ),
        wire::wire_results(Seq::empty(), offer) == Seq::<u8>::empty(),
    decreases rs.len(),
{
    if rs.len() == 1 {
        assert(rs.drop_last() =~= Seq::<OperationResult>::empty());
        assert(rs.skip(1) =~= Seq::<OperationResult>::empty());
        reveal_with_fuel(wire::wire_results, 2);
        let one = wire::wire_result(rs[0], offer);
        assert(Seq::<u8>::empty() + one =~= one + Seq::<u8>::empty());
    } else {
        results_come_in_order(rs.drop_last(), offer);
        assert(rs.skip(1).drop_last() =~= rs.drop_last().skip(1));
        xdr::lemma_concat_assoc(
            wire::wire_result(rs[0], offer),
            wire::wire_results(rs.skip(1).drop_last(), offer),
            wire::wire_result(rs.last(), offer),
        );
    }
}

/// Law: encoding the result of a WRITE that succeeded appends the number of the operation,
/// the status, how much was written, how stable it is and the write verifier, in this
/// order, behind what was there.
pub proof fn encoding_a_write_result_says_count_before_stability(
    e: &mut XdrEncoder,
    res: WriteResult,
    offer: &SecOffer,
)
    requires
        call_ensures(
            encode::encode_result,
            (e, &OperationResult::Write(Nfs4Status::NfsOk, Some(res)), offer),
            (),
        ),
    ensures
        final(e)@ == old(e)@ + (octets::be32(38) + (octets::be32(0) + (octets::be32(res.count) + (
        octets::be32(res.committed) + res.verifier@)))),
{
    let body = octets::be32(res.count) + (octets::be32(res.committed) + res.verifier@);
    let r = OperationResult::Write(Nfs4Status::NfsOk, Some(res));
    let (count, committed) = (octets::be32(res.count), octets::be32(res.committed));
    xdr::lemma_concat_assoc(count, committed, xdr::wire_fixed(res.verifier@));
    assert(xdr::wire_fixed(res.verifier@) =~= res.verifier@);
    assert(wire::result_body(r, *offer) == body);
    assert(wire::wire_result(r, *offer) =~= octets::be32(38) + (octets::be32(0) + body));
}

/// Law: encoding a result appends to what is there the number of its operation, its status
/// and its body, and nothing else.
pub proof fn encoding_a_result_appends_it(e: &mut XdrEncoder, r: &OperationResult, offer: &SecOffer)
    requires
        call_ensures(encode::encode_result, (e, r, offer), ()),
    ensures
        final(e)@ == old(e)@ + (octets::be32(wire::result_opcode(*r)) + (xdr::wire_status(
            wire::result_status(*r),
        ) + wire::result_body(*r, *offer))),
{
    xdr::lemma_concat_assoc(
        octets::be32(wire::result_opcode(*r)),
        xdr::wire_status(wire::result_status(*r)),
        wire::result_body(*r, *offer),
    );
}

/// Law: a read lock has the number 1 and a write lock 2. The number 1 asks for a read
/// lock, and every other for a write lock.
pub proof fn locks_have_their_numbers(w: u32, t: LockType)
    requires
        call_ensures(LockType::from_wire, (w,), t),
    ensures
        results::lock_code(LockType::Read) == 1,
        results::lock_code(LockType::Write) == 2,
        t is Read <==> w == 1,
{
}

/// Law: a denial that knows of no lock says a read lock of no length at the start of the
/// file, of no client and no owner; a change that is not known takes no octets.
pub proof fn what_is_not_known_is_said_plainly(t: Seq<u8>)
    ensures
        wire::wire_lock_denied(None) + t == octets::be64(0) + (octets::be64(0) + (octets::be32(1) + (
        octets::be64(0) + (octets::be32(0) + t)))),
        wire::wire_opt_change_info(None).len() == 0,
{
    assert(xdr::wire_opaque(Seq::empty()) =~= octets::be32(0));
    assert(wire::wire_lock_denied(None) + t =~= octets::be64(0) + (octets::be64(0) + (octets::be32(1)
        + (octets::be64(0) + (octets::be32(0) + t)))));
}

} // verus!
