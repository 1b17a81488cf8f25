//! Encoding the results.
use vstd::prelude::*;
use vstd::utf8::*;

use crate::compound::results::{
    ChangeInfo, CreateSessionResult, Delegation, DirEntry, ExchangeIdResult, LockDenied,
    OpenResult, OperationResult, ReadDirResult, ReadPlusSegment, SequenceResult,
};
use crate::compound::types::ChannelAttrs;
use crate::compound::wire;
use crate::octets;
use crate::octets::bytes_as_slice;
use crate::protocol::opcode;
use crate::protocol::Nfs4Status;
use crate::sec_policy::{SecLevel, SecOffer, SecPolicy};
use crate::xdr;
use crate::xdr::XdrEncoder;

verus! {

impl OperationResult {
    /// The status that the result reports.
    pub fn status(&self) -> (s: Nfs4Status)
        ensures
            s == wire::status_of(*self),
    {
        match self {
            OperationResult::PutRootFh(s) => *s,
            OperationResult::PutFh(s) => *s,
            OperationResult::GetFh(s, _) => *s,
            OperationResult::SaveFh(s) => *s,
            OperationResult::RestoreFh(s) => *s,
            OperationResult::PutPubFh(s) => *s,
            OperationResult::Lookup(s) => *s,
            OperationResult::ReadDir(s, _) => *s,
            OperationResult::Open(s, _) => *s,
            OperationResult::Close(s, _) => *s,
            OperationResult::OpenDowngrade(s, _) => *s,
            OperationResult::Read(s, _) => *s,
            OperationResult::Write(s, _) => *s,
            OperationResult::Commit(s, _) => *s,
            OperationResult::DelegPurge(s) => *s,
            OperationResult::DelegReturn(s) => *s,
            OperationResult::BackchannelCtl(s) => *s,
            OperationResult::GetAttr(s, _) => *s,
            OperationResult::SetAttr(s, _) => *s,
            OperationResult::Verify(s) => *s,
            OperationResult::Nverify(s) => *s,
            OperationResult::Access(s, _) => *s,
            OperationResult::Create(s, _, _) => *s,
            OperationResult::Remove(s, _) => *s,
            OperationResult::Rename(s, _, _) => *s,
            OperationResult::Link(s, _) => *s,
            OperationResult::ReadLink(s, _) => *s,
            OperationResult::ExchangeId(s, _) => *s,
            OperationResult::CreateSession(s, _) => *s,
            OperationResult::DestroySession(s) => *s,
            OperationResult::DestroyClientId(s) => *s,
            OperationResult::BindConnToSession(s, _, _, _) => *s,
            OperationResult::Sequence(s, _) => *s,
            OperationResult::ReclaimComplete(s) => *s,
            OperationResult::SecInfo(s) => *s,
            OperationResult::SecInfoNoName(s) => *s,
            OperationResult::TestStateId(s, _) => *s,
            OperationResult::FreeStateId(s) => *s,
            OperationResult::Allocate(s) => *s,
            OperationResult::Deallocate(s) => *s,
            OperationResult::Seek(s, _) => *s,
            OperationResult::Copy(s, _) => *s,
            OperationResult::Clone(s) => *s,
            OperationResult::ReadPlus(s, _) => *s,
            OperationResult::LayoutGet(s, _) => *s,
            OperationResult::GetDeviceInfo(s, _) => *s,
            OperationResult::LayoutReturn(s) => *s,
            OperationResult::LayoutCommit(s, _) => *s,
            OperationResult::Lock(s, _, _) => *s,
            OperationResult::LockT(s, _) => *s,
            OperationResult::LockU(s, _) => *s,
            OperationResult::Unsupported { status, .. } => *status,
        }
    }

    /// The operation number and the status that the result carries on the wire.
    fn heading(&self) -> (h: (u32, Nfs4Status))
        ensures
            h == (wire::result_opcode(*self), wire::result_status(*self)),
    {
        match self {
            OperationResult::PutRootFh(s) => (opcode::PUTROOTFH, *s),
            OperationResult::PutFh(s) => (opcode::PUTFH, *s),
            OperationResult::GetFh(s, _) => (opcode::GETFH, *s),
            OperationResult::SaveFh(s) => (opcode::SAVEFH, *s),
            OperationResult::RestoreFh(s) => (opcode::RESTOREFH, *s),
            OperationResult::PutPubFh(s) => (opcode::PUTPUBFH, *s),
            OperationResult::Lookup(s) => (opcode::LOOKUP, *s),
            OperationResult::ReadDir(s, _) => (opcode::READDIR, *s),
            OperationResult::Open(s, _) => (opcode::OPEN, *s),
            OperationResult::Close(s, _) => (opcode::CLOSE, *s),
            OperationResult::OpenDowngrade(s, _) => (opcode::OPEN_DOWNGRADE, *s),
            OperationResult::Read(s, _) => (opcode::READ, *s),
            OperationResult::Write(s, _) => (opcode::WRITE, *s),
            OperationResult::Commit(s, _) => (opcode::COMMIT, *s),
            OperationResult::DelegPurge(s) => (opcode::DELEGPURGE, *s),
            OperationResult::DelegReturn(s) => (opcode::DELEGRETURN, *s),
            OperationResult::BackchannelCtl(s) => (opcode::BACKCHANNEL_CTL, *s),
            OperationResult::GetAttr(s, _) => (opcode::GETATTR, *s),
            OperationResult::SetAttr(s, _) => (opcode::SETATTR, *s),
            OperationResult::Verify(s) => (opcode::VERIFY, *s),
            OperationResult::Nverify(s) => (opcode::NVERIFY, *s),
            OperationResult::Access(s, _) => (opcode::ACCESS, *s),
            OperationResult::Create(s, _, _) => (opcode::CREATE, *s),
            OperationResult::Remove(s, _) => (opcode::REMOVE, *s),
            OperationResult::Rename(s, _, _) => (opcode::RENAME, *s),
            OperationResult::Link(s, _) => (opcode::LINK, *s),
            OperationResult::ReadLink(s, _) => (opcode::READLINK, *s),
            OperationResult::ExchangeId(s, _) => (opcode::EXCHANGE_ID, *s),
            OperationResult::CreateSession(s, _) => (opcode::CREATE_SESSION, *s),
            OperationResult::DestroySession(s) => (opcode::DESTROY_SESSION, *s),
            OperationResult::DestroyClientId(s) => (opcode::DESTROY_CLIENTID, *s),
            OperationResult::BindConnToSession(s, _, _, _) => (opcode::BIND_CONN_TO_SESSION, *s),
            OperationResult::Sequence(s, _) => (opcode::SEQUENCE, *s),
            OperationResult::ReclaimComplete(s) => (opcode::RECLAIM_COMPLETE, *s),
            OperationResult::SecInfo(s) => (opcode::SECINFO, *s),
            OperationResult::SecInfoNoName(s) => (opcode::SECINFO_NO_NAME, *s),
            OperationResult::TestStateId(s, _) => (opcode::TEST_STATEID, *s),
            OperationResult::FreeStateId(s) => (opcode::FREE_STATEID, *s),
            OperationResult::Allocate(s) => (opcode::ALLOCATE, *s),
            OperationResult::Deallocate(s) => (opcode::DEALLOCATE, *s),
            OperationResult::Seek(s, _) => (opcode::SEEK, *s),
            OperationResult::Copy(s, _) => (opcode::COPY, *s),
            OperationResult::Clone(s) => (opcode::CLONE, *s),
            OperationResult::ReadPlus(s, _) => (opcode::READ_PLUS, *s),
            OperationResult::LayoutGet(s, _) => (opcode::LAYOUTGET, *s),
            OperationResult::GetDeviceInfo(s, _) => (opcode::GETDEVICEINFO, *s),
            OperationResult::LayoutReturn(s) => (opcode::LAYOUTRETURN, *s),
            OperationResult::LayoutCommit(s, _) => (opcode::LAYOUTCOMMIT, *s),
            OperationResult::Lock(s, _, _) => (opcode::LOCK, *s),
            OperationResult::LockT(s, _) => (opcode::LOCKT, *s),
            OperationResult::LockU(s, _) => (opcode::LOCKU, *s),
            OperationResult::Unsupported { opcode, status } => if *opcode < 3 || *opcode
                > opcode::CLONE {
                (opcode::ILLEGAL, Nfs4Status::OpIllegal)
            } else {
                (*opcode, *status)
            },
        }
    }
}

// ---------------------------------------------------------------------------
// Bodies
// ---------------------------------------------------------------------------

fn encode_change_info(e: &mut XdrEncoder, c: &ChangeInfo)
    ensures
        final(e)@ == old(e)@ + wire::wire_change_info(*c),
{
    broadcast use xdr::lemma_concat_assoc;

    e.encode_bool(c.atomic);
    e.encode_u64(c.before);
    e.encode_u64(c.after);
}

fn encode_opt_change_info(e: &mut XdrEncoder, c: &Option<ChangeInfo>)
    ensures
        final(e)@ == old(e)@ + wire::wire_opt_change_info(*c),
{
    match c {
        Some(c) => encode_change_info(e, c),
        None => {
            assert(e@ + Seq::<u8>::empty() =~= e@);
        },
    }
}

fn encode_entry(e: &mut XdrEncoder, entry: &DirEntry)
    ensures
        final(e)@ == old(e)@ + wire::wire_entry(*entry),
{
    broadcast use xdr::lemma_concat_assoc;

    e.encode_bool(true);
    e.encode_u64(entry.cookie);
    e.encode_string(entry.name.as_str());
    e.append_raw(bytes_as_slice(&entry.attrs));
}

fn encode_readdir(e: &mut XdrEncoder, r: &ReadDirResult)
    ensures
        final(e)@ == old(e)@ + wire::wire_readdir(*r),
{
    broadcast use xdr::lemma_concat_assoc;

    e.encode_u64(r.cookieverf);
    let ghost start = e@;
    assert(start =~= start + wire::wire_entries(r.entries@.take(0)));
    let mut i: usize = 0;
    while i < r.entries.len()
        invariant
            i <= r.entries@.len(),
            e@ == start + wire::wire_entries(r.entries@.take(i as int)),
        decreases r.entries@.len() - i,
    {
        broadcast use xdr::lemma_concat_assoc;

        encode_entry(e, &r.entries[i]);
        assert(r.entries@.take(i + 1).drop_last() =~= r.entries@.take(i as int));
        i += 1;
    }
    assert(r.entries@.take(i as int) =~= r.entries@);
    e.encode_bool(false);
    e.encode_bool(r.eof);
}

fn encode_delegation(e: &mut XdrEncoder, d: &Option<Delegation>)
    ensures
        final(e)@ == old(e)@ + wire::wire_delegation(*d),
{
    broadcast use xdr::lemma_concat_assoc;

    match d {
        None => e.encode_u32(0),
        Some(Delegation::Read { stateid }) => {
            e.encode_u32(1);
            e.encode_stateid(stateid);
            e.encode_bool(false);
            e.encode_u32(0);
            e.encode_u32(0);
            e.encode_u32(0x0012_0089);
            e.encode_string("EVERYONE@");
        },
        Some(Delegation::NoneExt { why }) => {
            e.encode_u32(3);
            e.encode_u32(why.code());
            match why.trailing_bool() {
                Some(b) => e.encode_bool(b),
                None => {
                    assert(e@ + Seq::<u8>::empty() =~= e@);
                },
            }
        },
    }
}

fn encode_open(e: &mut XdrEncoder, r: &OpenResult)
    ensures
        final(e)@ == old(e)@ + wire::wire_open(*r),
{
    broadcast use xdr::lemma_concat_assoc;

    e.encode_stateid(&r.stateid);
    encode_change_info(e, &r.change_info);
    e.encode_u32(r.result_flags);
    e.encode_bitmap(r.attrset.as_slice());
    encode_delegation(e, &r.delegation);
}

fn encode_exchange_id(e: &mut XdrEncoder, r: &ExchangeIdResult)
    ensures
        final(e)@ == old(e)@ + wire::wire_exchange_id(*r),
{
    broadcast use xdr::lemma_concat_assoc;

    e.encode_u64(r.clientid);
    e.encode_u32(r.sequenceid);
    e.encode_u32(r.flags);
    e.encode_u32(0);
    e.encode_u64(0);
    e.encode_string(r.server_owner.as_str());
    e.encode_opaque(r.server_scope.as_slice());
    e.encode_u32(0);
}

fn encode_channel_attrs(e: &mut XdrEncoder, a: &ChannelAttrs)
    ensures
        final(e)@ == old(e)@ + wire::wire_channel_attrs(*a),
{
    broadcast use xdr::lemma_concat_assoc;

    e.encode_u32(a.header_pad_size);
    e.encode_u32(a.max_request_size);
    e.encode_u32(a.max_response_size);
    e.encode_u32(a.max_response_size_cached);
    e.encode_u32(a.max_operations);
    e.encode_u32(a.max_requests);
    e.encode_u32(0);
}

fn encode_create_session(e: &mut XdrEncoder, r: &CreateSessionResult)
    ensures
        final(e)@ == old(e)@ + wire::wire_create_session(*r),
{
    broadcast use xdr::lemma_concat_assoc;

    e.encode_sessionid(&r.sessionid);
    e.encode_u32(r.sequenceid);
    e.encode_u32(r.flags);
    encode_channel_attrs(e, &r.fore_chan_attrs);
    encode_channel_attrs(e, &r.back_chan_attrs);
}

fn encode_sequence(e: &mut XdrEncoder, r: &SequenceResult)
    ensures
        final(e)@ == old(e)@ + wire::wire_sequence(*r),
{
    broadcast use xdr::lemma_concat_assoc;

    e.encode_sessionid(&r.sessionid);
    e.encode_u32(r.sequenceid);
    e.encode_u32(r.slotid);
    e.encode_u32(r.highest_slotid);
    e.encode_u32(r.target_highest_slotid);
    e.encode_u32(r.status_flags);
}

/// Encodes LOCK4denied; a denial without a known conflict gets a zeroed one.
pub fn encode_lock_denied(e: &mut XdrEncoder, denied: &Option<LockDenied>)
    ensures
        final(e)@ == old(e)@ + wire::wire_lock_denied(*denied),
{
    broadcast use xdr::lemma_concat_assoc;

    match denied {
        Some(d) => {
            e.encode_u64(d.offset);
            e.encode_u64(d.length);
            e.encode_u32(d.locktype.code());
            e.encode_u64(d.client_id);
            e.encode_opaque(d.owner.as_slice());
        },
        None => {
            let nobody: Vec<u8> = Vec::new();
            e.encode_u64(0);
            e.encode_u64(0);
            e.encode_u32(1);
            e.encode_u64(0);
            e.encode_opaque(nobody.as_slice());
        },
    }
}

fn encode_statuses(e: &mut XdrEncoder, v: &Vec<Nfs4Status>)
    ensures
        final(e)@ == old(e)@ + (octets::be32(v@.len() as u32) + wire::wire_statuses(v@)),
{
    broadcast use xdr::lemma_concat_assoc;

    e.encode_u32(v.len() as u32);
    let ghost start = e@;
    assert(start =~= start + wire::wire_statuses(v@.take(0)));
    let mut i: usize = 0;
    while i < v.len()
        invariant
            i <= v@.len(),
            e@ == start + wire::wire_statuses(v@.take(i as int)),
        decreases v@.len() - i,
    {
        broadcast use xdr::lemma_concat_assoc;

        e.encode_status(v[i]);
        assert(v@.take(i + 1).drop_last() =~= v@.take(i as int));
        i += 1;
    }
    assert(v@.take(i as int) =~= v@);
}

fn encode_read_plus_segment(e: &mut XdrEncoder, s: &ReadPlusSegment)
    ensures
        final(e)@ == old(e)@ + wire::wire_read_plus_segment(*s),
{
    broadcast use xdr::lemma_concat_assoc;

    match s {
        ReadPlusSegment::Data { offset, data } => {
            e.encode_u32(0);
            e.encode_u64(*offset);
            e.encode_opaque(bytes_as_slice(data));
        },
        ReadPlusSegment::Hole { offset, length } => {
            e.encode_u32(1);
            e.encode_u64(*offset);
            e.encode_u64(*length);
        },
    }
}

fn encode_read_plus_segments(e: &mut XdrEncoder, v: &Vec<ReadPlusSegment>)
    ensures
        final(e)@ == old(e)@ + (octets::be32(v@.len() as u32) + wire::wire_read_plus_segments(v@)),
{
    broadcast use xdr::lemma_concat_assoc;

    e.encode_u32(v.len() as u32);
    let ghost start = e@;
    assert(start =~= start + wire::wire_read_plus_segments(v@.take(0)));
    let mut i: usize = 0;
    while i < v.len()
        invariant
            i <= v@.len(),
            e@ == start + wire::wire_read_plus_segments(v@.take(i as int)),
        decreases v@.len() - i,
    {
        broadcast use xdr::lemma_concat_assoc;

        encode_read_plus_segment(e, &v[i]);
        assert(v@.take(i + 1).drop_last() =~= v@.take(i as int));
        i += 1;
    }
    assert(v@.take(i as int) =~= v@);
}

// ---------------------------------------------------------------------------
// SECINFO
// ---------------------------------------------------------------------------

fn list_level(levels: &mut Vec<SecLevel>, b: bool, level: SecLevel)
    ensures
        final(levels)@ == old(levels)@ + wire::listed(b, level),
{
    if b {
        levels.push(level);
        assert(levels@ =~= old(levels)@ + seq![level]);
    } else {
        assert(levels@ =~= old(levels)@ + Seq::<SecLevel>::empty());
    }
}

/// The levels that SECINFO lists, in the order of preference.
pub fn secinfo_levels(gss: bool, policy: SecPolicy) -> (levels: Vec<SecLevel>)
    ensures
        levels@ == wire::secinfo_levels(gss, policy),
{
    let mut levels: Vec<SecLevel> = Vec::new();
    list_level(&mut levels, policy.advertises(SecLevel::Sys), SecLevel::Sys);
    assert(levels@ =~= wire::listed(wire::offerable(gss, policy, SecLevel::Sys), SecLevel::Sys));
    list_level(&mut levels, gss && policy.advertises(SecLevel::Krb5p), SecLevel::Krb5p);
    list_level(&mut levels, gss && policy.advertises(SecLevel::Krb5i), SecLevel::Krb5i);
    list_level(&mut levels, gss && policy.advertises(SecLevel::Krb5), SecLevel::Krb5);
    list_level(&mut levels, policy.advertises(SecLevel::AuthNone), SecLevel::AuthNone);
    levels
}

fn encode_gss_flavor(e: &mut XdrEncoder, service: u32)
    ensures
        final(e)@ == old(e)@ + wire::wire_gss_flavor(service),
{
    broadcast use xdr::lemma_concat_assoc;

    let oid: [u8; 9] = [0x2a, 0x86, 0x48, 0x86, 0xf7, 0x12, 0x01, 0x02, 0x02];
    assert(oid@ =~= wire::krb5_oid());
    e.encode_u32(6);
    e.encode_opaque(&oid);
    e.encode_u32(0);
    e.encode_u32(service);
}

fn encode_flavor(e: &mut XdrEncoder, level: SecLevel)
    ensures
        final(e)@ == old(e)@ + wire::wire_flavor(level),
{
    match level {
        SecLevel::AuthNone => e.encode_u32(0),
        SecLevel::Sys => e.encode_u32(1),
        SecLevel::Krb5 => encode_gss_flavor(e, 1),
        SecLevel::Krb5i => encode_gss_flavor(e, 2),
        SecLevel::Krb5p => encode_gss_flavor(e, 3),
    }
}

/// Encodes the flavors that SECINFO lists for `offer`.
pub fn encode_secinfo_flavors(e: &mut XdrEncoder, offer: &SecOffer)
    ensures
        final(e)@ == old(e)@ + wire::wire_secinfo(offer.gss, offer.policy),
{
    encode_secinfo_flavors_with(e, offer.gss, offer.policy)
}

/// Encodes the flavors that SECINFO lists on a server with or without Kerberos
/// keys, under a floor.
pub fn encode_secinfo_flavors_with(e: &mut XdrEncoder, gss: bool, policy: SecPolicy)
    ensures
        final(e)@ == old(e)@ + wire::wire_secinfo(gss, policy),
{
    broadcast use xdr::lemma_concat_assoc;

    let levels = secinfo_levels(gss, policy);
    e.encode_u32(levels.len() as u32);
    let ghost start = e@;
    assert(start =~= start + wire::wire_flavors(levels@.take(0)));
    let mut i: usize = 0;
    while i < levels.len()
        invariant
            i <= levels@.len(),
            e@ == start + wire::wire_flavors(levels@.take(i as int)),
        decreases levels@.len() - i,
    {
        broadcast use xdr::lemma_concat_assoc;

        encode_flavor(e, levels[i]);
        assert(levels@.take(i + 1).drop_last() =~= levels@.take(i as int));
        i += 1;
    }
    assert(levels@.take(i as int) =~= levels@);
}

// ---------------------------------------------------------------------------
// The result
// ---------------------------------------------------------------------------

/// Encodes what stands behind the status of a successful result.
fn encode_success(e: &mut XdrEncoder, r: &OperationResult, offer: &SecOffer)
    ensures
        final(e)@ == old(e)@ + wire::success_body(*r, *offer),
{
    broadcast use xdr::lemma_concat_assoc;

    assert(e@ + Seq::<u8>::empty() =~= e@);
    match r {
        OperationResult::GetFh(_, Some(fh)) => e.encode_filehandle(fh),
        OperationResult::ReadDir(_, Some(res)) => encode_readdir(e, res),
        OperationResult::GetAttr(_, Some(attrs)) => e.append_raw(bytes_as_slice(attrs)),
        OperationResult::Access(_, Some((supported, granted))) => {
            e.encode_u32(*supported);
            e.encode_u32(*granted);
        },
        OperationResult::Open(_, Some(res)) => encode_open(e, res),
        OperationResult::Close(_, Some(sid)) => e.encode_stateid(sid),
        OperationResult::OpenDowngrade(_, Some(sid)) => e.encode_stateid(sid),
        OperationResult::Read(_, Some(res)) => {
            e.encode_bool(res.eof);
            e.encode_opaque(res.data.as_mem());
        },
        OperationResult::Write(_, Some(res)) => {
            e.encode_u32(res.count);
            e.encode_u32(res.committed);
            e.encode_fixed_opaque(&res.verifier);
        },
        OperationResult::Commit(_, Some(v)) => e.encode_fixed_opaque(v),
        OperationResult::Create(_, c, attrset) => {
            encode_opt_change_info(e, c);
            e.encode_bitmap(attrset.as_slice());
        },
        OperationResult::Remove(_, c) => encode_opt_change_info(e, c),
        OperationResult::Rename(_, source, target) => {
            encode_opt_change_info(e, source);
            encode_opt_change_info(e, target);
        },
        OperationResult::Link(_, c) => encode_opt_change_info(e, c),
        OperationResult::ReadLink(_, Some(link)) => e.encode_string(link.as_str()),
        OperationResult::ExchangeId(_, Some(res)) => encode_exchange_id(e, res),
        OperationResult::CreateSession(_, Some(res)) => encode_create_session(e, res),
        OperationResult::BindConnToSession(_, Some(sid), dir, rdma) => {
            e.encode_sessionid(sid);
            e.encode_u32(*dir);
            e.encode_bool(*rdma);
        },
        OperationResult::Sequence(_, Some(res)) => encode_sequence(e, res),
        OperationResult::SecInfo(_) => encode_secinfo_flavors(e, offer),
        OperationResult::SecInfoNoName(_) => encode_secinfo_flavors(e, offer),
        OperationResult::TestStateId(_, Some(v)) => encode_statuses(e, v),
        OperationResult::Lock(_, Some(sid), _) => e.encode_stateid(sid),
        OperationResult::LockU(_, Some(sid)) => e.encode_stateid(sid),
        OperationResult::Seek(_, Some(res)) => {
            e.encode_bool(res.eof);
            e.encode_u64(res.offset);
        },
        OperationResult::Copy(_, Some(res)) => {
            e.encode_u32(0);
            e.encode_u64(res.count);
            e.encode_u32(2);
            e.encode_u64(res.verifier);
            e.encode_bool(res.consecutive);
            e.encode_bool(res.synchronous);
        },
        OperationResult::ReadPlus(_, Some(res)) => {
            e.encode_bool(res.eof);
            encode_read_plus_segments(e, &res.segments);
        },
        OperationResult::LayoutGet(_, Some(b)) => e.append_raw(bytes_as_slice(b)),
        OperationResult::GetDeviceInfo(_, Some(b)) => e.append_raw(bytes_as_slice(b)),
        OperationResult::LayoutReturn(_) => e.encode_bool(false),
        OperationResult::LayoutCommit(_, size) => match size {
            Some(n) => {
                e.encode_bool(true);
                e.encode_u64(*n);
            },
            None => e.encode_bool(false),
        },
        _ => {},
    }
}

/// Encodes what stands behind the status of a result.
fn encode_body(e: &mut XdrEncoder, r: &OperationResult, offer: &SecOffer)
    ensures
        final(e)@ == old(e)@ + wire::result_body(*r, *offer),
{
    assert(e@ + Seq::<u8>::empty() =~= e@);
    match r {
        OperationResult::SetAttr(_, attrsset) => e.encode_bitmap(attrsset.as_slice()),
        OperationResult::Lock(Nfs4Status::Denied, _, denied) => encode_lock_denied(e, denied),
        OperationResult::LockT(Nfs4Status::Denied, denied) => encode_lock_denied(e, denied),
        OperationResult::GetDeviceInfo(Nfs4Status::TooSmall, Some(b)) => e.append_raw(
            bytes_as_slice(b),
        ),
        _ => if r.status() == Nfs4Status::NfsOk {
            encode_success(e, r, offer);
        },
    }
}

/// Encodes one result.
pub fn encode_result(e: &mut XdrEncoder, r: &OperationResult, offer: &SecOffer)
    ensures
        final(e)@ == old(e)@ + wire::wire_result(*r, *offer),
{
    broadcast use xdr::lemma_concat_assoc;

    let (op, status) = r.heading();
    e.encode_u32(op);
    e.encode_status(status);
    encode_body(e, r, offer);
}

} // verus!
