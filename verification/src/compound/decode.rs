//! Decoding a COMPOUND request.
use vstd::prelude::*;
use vstd::utf8::*;

use bytes::Bytes;

use crate::compound::grammar;
use crate::compound::ops::{Operation, OperationView};
use crate::compound::types;
use crate::compound::types::{
    CallbackSecParms, ChannelAttrs, LayoutReturn4Body, OpenClaim, OpenHow, SecParmsView,
};
use crate::octets;
use crate::octets::bytes_as_slice;
use crate::protocol::opcode;
use crate::protocol::{ClientId, Fattr4, Nfs4FileType};
use crate::text::{str_from_utf8, utf8str_cs_ok};
use crate::xdr;
use crate::xdr::{XdrDecoder, XdrEncoder, XdrError};

verus! {

// ---------------------------------------------------------------------------
// Parts shared by several operations
// ---------------------------------------------------------------------------

fn decode_component(d: &mut XdrDecoder) -> (r: Result<Option<String>, XdrError>)
    ensures
        final(d)@ == grammar::parse_component(old(d)@).1,
        match r {
            Ok(n) => grammar::parse_component(old(d)@).0 == Ok::<Option<Seq<char>>, XdrError>(
                types::opt_string_view(n),
            ),
            Err(e) => grammar::parse_component(old(d)@).0 == Err::<Option<Seq<char>>, XdrError>(e),
        },
{
    let b = d.decode_opaque()?;
    match str_from_utf8(bytes_as_slice(&b)) {
        Ok(s) => if utf8str_cs_ok(s) {
            Ok(Some(s.to_owned()))
        } else {
            Ok(None)
        },
        Err(_) => Ok(None),
    }
}

fn decode_fattr(d: &mut XdrDecoder) -> (r: Result<Fattr4, XdrError>)
    ensures
        (xdr::viewed(r), final(d)@) == grammar::parse_fattr(old(d)@),
{
    let n: u32 = d.decode_u32()?;
    let attrmask = d.decode_words(n)?;
    let attr_vals = d.decode_octets()?;
    Ok(Fattr4 { attrmask, attr_vals })
}

fn decode_packed_fattr(d: &mut XdrDecoder) -> (r: Result<Bytes, XdrError>)
    ensures
        final(d)@ == grammar::parse_packed_fattr(old(d)@).1,
        match r {
            Ok(b) => grammar::parse_packed_fattr(old(d)@).0 == Ok::<Seq<u8>, XdrError>(
                octets::bytes_of(b),
            ),
            Err(e) => grammar::parse_packed_fattr(old(d)@).0 == Err::<Seq<u8>, XdrError>(e),
        },
{
    let attrmask = d.decode_bitmap()?;
    let attr_vals = d.decode_opaque()?;
    Ok(pack_fattr(attrmask.as_slice(), bytes_as_slice(&attr_vals)))
}

/// A bitmap and the values it selects as one blob.
pub fn pack_fattr(attrmask: &[u32], attr_vals: &[u8]) -> (b: Bytes)
    ensures
        octets::bytes_of(b) == grammar::pack_fattr(attrmask@, attr_vals@),
{
    let mut e = XdrEncoder::new();
    e.encode_bitmap(attrmask);
    e.encode_u32(attr_vals.len() as u32);
    e.append_raw(attr_vals);
    assert(Seq::<u8>::empty() + xdr::wire_bitmap(attrmask@) =~= xdr::wire_bitmap(attrmask@));
    e.finish()
}

fn decode_authsys(d: &mut XdrDecoder) -> (r: Result<CallbackSecParms, XdrError>)
    ensures
        (xdr::viewed(r), final(d)@) == grammar::parse_authsys(old(d)@),
{
    let stamp: u32 = d.decode_u32()?;
    let machinename = d.decode_string()?;
    let uid: u32 = d.decode_u32()?;
    let gid: u32 = d.decode_u32()?;
    let n: u32 = d.decode_u32()?;
    if n > 16 {
        return Err(XdrError::OverBound);
    }
    let gids = d.decode_words(n)?;
    Ok(CallbackSecParms::Sys { stamp, machinename, uid, gid, gids })
}

fn decode_sec_parm(d: &mut XdrDecoder) -> (r: Result<CallbackSecParms, XdrError>)
    ensures
        (xdr::viewed(r), final(d)@) == grammar::parse_sec_parm(old(d)@),
{
    let flavor: u32 = d.decode_u32()?;
    if flavor == 0 {
        Ok(CallbackSecParms::AuthNone)
    } else if flavor == 1 {
        decode_authsys(d)
    } else if flavor == 6 {
        let _service: u32 = d.decode_u32()?;
        let _from_server = d.decode_opaque()?;
        let _from_client = d.decode_opaque()?;
        Ok(CallbackSecParms::Gss)
    } else {
        Err(XdrError::UnknownArm)
    }
}

/// Decodes `csa_sec_parms<>`, the credentials that a client accepts on callback
/// calls. A GSS entry is taken whole, so that the entries behind it still frame.
pub fn decode_callback_sec_parms(d: &mut XdrDecoder) -> (r: Result<
    Vec<CallbackSecParms>,
    XdrError,
>)
    ensures
        final(d)@ == grammar::parse_sec_parms(old(d)@).1,
        match r {
            Ok(v) => grammar::parse_sec_parms(old(d)@).0 == Ok::<Seq<SecParmsView>, XdrError>(
                xdr::views(v@),
            ),
            Err(e) => grammar::parse_sec_parms(old(d)@).0 == Err::<Seq<SecParmsView>, XdrError>(e),
        },
{
    let n: u32 = d.decode_u32()?;
    if n > 16 {
        return Err(XdrError::OverBound);
    }
    let ghost s = d@;
    let mut out: Vec<CallbackSecParms> = Vec::new();
    let mut i: u32 = 0;
    assert(xdr::prepend(xdr::views(out@), grammar::parse_sec_parm_list(s, n as nat))
        == grammar::parse_sec_parm_list(s, n as nat)) by {
        assert forall|v: Seq<SecParmsView>| xdr::views(out@) + v =~= v by {}
    }
    while i < n
        invariant
            i <= n,
            n <= 16,
            xdr::parse_u32(old(d)@) == (Ok::<u32, XdrError>(n), s),
            grammar::parse_sec_parm_list(s, n as nat) == xdr::prepend(
                xdr::views(out@),
                grammar::parse_sec_parm_list(d@, (n - i) as nat),
            ),
        decreases n - i,
    {
        let ghost before = out@;
        let ghost tail = grammar::parse_sec_parm_list(d@, (n - i) as nat);
        let v = decode_sec_parm(d)?;
        out.push(v);
        i += 1;
        proof {
            let rest = grammar::parse_sec_parm_list(d@, (n - i) as nat);
            assert(tail == xdr::prepend(seq![v@], rest));
            if let Ok(t) = rest.0 {
                assert(xdr::views(before) + (seq![v@] + t) =~= xdr::views(out@) + t);
            }
        }
    }
    assert(xdr::views(out@) + Seq::<SecParmsView>::empty() =~= xdr::views(out@));
    Ok(out)
}

impl ChannelAttrs {
    /// Decodes one `channel_attrs4`, its `ca_rdma_ird<1>` with it.
    pub fn decode(d: &mut XdrDecoder) -> (r: Result<ChannelAttrs, XdrError>)
        ensures
            (xdr::viewed(r), final(d)@) == grammar::parse_channel_attrs(old(d)@),
    {
        let header_pad_size: u32 = d.decode_u32()?;
        let max_request_size: u32 = d.decode_u32()?;
        let max_response_size: u32 = d.decode_u32()?;
        let max_response_size_cached: u32 = d.decode_u32()?;
        let max_operations: u32 = d.decode_u32()?;
        let max_requests: u32 = d.decode_u32()?;
        let n: u32 = d.decode_u32()?;
        if n > 1 {
            return Err(XdrError::OverBound);
        }
        let rdma_ird = d.decode_words(n)?;
        Ok(
            ChannelAttrs {
                header_pad_size,
                max_request_size,
                max_response_size,
                max_response_size_cached,
                max_operations,
                max_requests,
                rdma_ird,
            },
        )
    }
}

fn decode_netloc(d: &mut XdrDecoder) -> (r: Result<(), XdrError>)
    ensures
        (r, final(d)@) == grammar::parse_netloc(old(d)@),
{
    let arm: u32 = d.decode_u32()?;
    if arm == 1 || arm == 2 {
        let _name = d.decode_string()?;
        Ok(())
    } else if arm == 3 {
        let _netid = d.decode_string()?;
        let _addr = d.decode_string()?;
        Ok(())
    } else {
        Err(XdrError::UnknownArm)
    }
}

/// Takes a `netloc4<>` array and returns its length. The cursor ends right
/// behind the array; an arm of unknown width is an error.
fn decode_netloc_array(d: &mut XdrDecoder) -> (r: Result<u32, XdrError>)
    ensures
        (r, final(d)@) == grammar::parse_netlocs(old(d)@),
{
    let n: u32 = d.decode_u32()?;
    if n > 1024 {
        return Err(XdrError::OverBound);
    }
    let ghost s = d@;
    let mut i: u32 = 0;
    while i < n
        invariant
            i <= n,
            n <= 1024,
            xdr::parse_u32(old(d)@) == (Ok::<u32, XdrError>(n), s),
            grammar::parse_netloc_list(s, n as nat) == grammar::parse_netloc_list(
                d@,
                (n - i) as nat,
            ),
        decreases n - i,
    {
        decode_netloc(d)?;
        i += 1;
    }
    Ok(n)
}

fn decode_algs(d: &mut XdrDecoder) -> (r: Result<(), XdrError>)
    ensures
        (r, final(d)@) == grammar::parse_algs(old(d)@),
{
    let n: u32 = d.decode_u32()?;
    if n > 16 {
        return Err(XdrError::OverBound);
    }
    let ghost s = d@;
    let mut i: u32 = 0;
    while i < n
        invariant
            i <= n,
            n <= 16,
            xdr::parse_u32(old(d)@) == (Ok::<u32, XdrError>(n), s),
            grammar::parse_opaque_list(s, n as nat) == grammar::parse_opaque_list(
                d@,
                (n - i) as nat,
            ),
        decreases n - i,
    {
        let _oid = d.decode_opaque()?;
        i += 1;
    }
    Ok(())
}

fn decode_state_protect(d: &mut XdrDecoder, how: u32) -> (r: Result<(), XdrError>)
    ensures
        (r, final(d)@) == grammar::parse_state_protect(old(d)@, how),
{
    if how == 0 {
        Ok(())
    } else if how == 1 || how == 2 {
        let _must_enforce = d.decode_bitmap()?;
        let _must_allow = d.decode_bitmap()?;
        if how == 2 {
            decode_algs(d)?;
            decode_algs(d)?;
            let _window: u32 = d.decode_u32()?;
            let _handles: u32 = d.decode_u32()?;
        }
        Ok(())
    } else {
        Err(XdrError::UnknownArm)
    }
}

fn decode_impl_id(d: &mut XdrDecoder) -> (r: Result<Vec<u8>, XdrError>)
    ensures
        (xdr::viewed(r), final(d)@) == grammar::parse_impl_id(old(d)@),
{
    let n: u32 = d.decode_u32()?;
    if n > 1 {
        return Err(XdrError::OverBound);
    }
    if n == 1 {
        let domain = d.decode_octets()?;
        let name = d.decode_opaque()?;
        let _seconds: u64 = d.decode_u64()?;
        let _nseconds: u32 = d.decode_u32()?;
        let ghost dom = domain@;
        let mut combined = domain;
        combined.push(0x2f);
        combined.extend_from_slice(bytes_as_slice(&name));
        assert(combined@ =~= dom + seq![0x2fu8] + octets::bytes_of(name));
        Ok(combined)
    } else {
        Ok(Vec::new())
    }
}

fn decode_createhow(d: &mut XdrDecoder) -> (r: Result<OpenHow, XdrError>)
    ensures
        (xdr::viewed(r), final(d)@) == grammar::parse_createhow(old(d)@),
{
    let createmode: u32 = d.decode_u32()?;
    if createmode == 0 || createmode == 1 {
        let n: u32 = d.decode_u32()?;
        let attrmask = d.decode_words(n)?;
        let attrs = d.decode_opaque()?;
        Ok(OpenHow { createmode, attrs: Some(attrs), attrmask })
    } else if createmode == 2 {
        let verf = d.decode_fixed_opaque(8)?;
        Ok(OpenHow { createmode, attrs: Some(verf), attrmask: Vec::new() })
    } else if createmode == 3 {
        let verf = d.decode_fixed_opaque(8)?;
        let n: u32 = d.decode_u32()?;
        let attrmask = d.decode_words(n)?;
        let attrs = d.decode_opaque()?;
        let mut e = XdrEncoder::new();
        e.append_raw(bytes_as_slice(&verf));
        e.append_raw(bytes_as_slice(&attrs));
        assert(e@ =~= octets::bytes_of(verf) + octets::bytes_of(attrs));
        Ok(OpenHow { createmode, attrs: Some(e.finish()), attrmask })
    } else {
        Ok(OpenHow { createmode: 0, attrs: None, attrmask: Vec::new() })
    }
}

fn decode_openflag(d: &mut XdrDecoder) -> (r: Result<OpenHow, XdrError>)
    ensures
        (xdr::viewed(r), final(d)@) == grammar::parse_openflag(old(d)@),
{
    let opentype: u32 = d.decode_u32()?;
    if opentype == 1 {
        decode_createhow(d)
    } else {
        Ok(OpenHow { createmode: 0, attrs: None, attrmask: Vec::new() })
    }
}

fn decode_claim(d: &mut XdrDecoder) -> (r: Result<OpenClaim, XdrError>)
    ensures
        (xdr::viewed(r), final(d)@) == grammar::parse_claim(old(d)@),
{
    let claim_type: u32 = d.decode_u32()?;
    if claim_type == 0 || claim_type == 3 {
        let file = d.decode_string()?;
        Ok(OpenClaim { claim_type, file, delegate_type: None, delegate_stateid: None })
    } else if claim_type == 1 {
        let t: u32 = d.decode_u32()?;
        Ok(
            OpenClaim {
                claim_type,
                file: String::new(),
                delegate_type: Some(t),
                delegate_stateid: None,
            },
        )
    } else if claim_type == 2 {
        let sid = d.decode_stateid()?;
        let file = d.decode_string()?;
        Ok(OpenClaim { claim_type, file, delegate_type: None, delegate_stateid: Some(sid) })
    } else if claim_type == 5 {
        let sid = d.decode_stateid()?;
        Ok(
            OpenClaim {
                claim_type,
                file: String::new(),
                delegate_type: None,
                delegate_stateid: Some(sid),
            },
        )
    } else if claim_type == 4 || claim_type == 6 {
        Ok(
            OpenClaim {
                claim_type,
                file: String::new(),
                delegate_type: None,
                delegate_stateid: None,
            },
        )
    } else {
        Err(XdrError::UnknownArm)
    }
}

fn decode_newoffset(d: &mut XdrDecoder) -> (r: Result<Option<u64>, XdrError>)
    ensures
        (r, final(d)@) == grammar::parse_newoffset(old(d)@),
{
    if d.decode_bool()? {
        let v: u64 = d.decode_u64()?;
        Ok(Some(v))
    } else {
        Ok(None)
    }
}

fn decode_newtime(d: &mut XdrDecoder) -> (r: Result<Option<(i64, u32)>, XdrError>)
    ensures
        (r, final(d)@) == grammar::parse_newtime(old(d)@),
{
    if d.decode_bool()? {
        let secs: u64 = d.decode_u64()?;
        let nsecs: u32 = d.decode_u32()?;
        Ok(Some((secs as i64, nsecs)))
    } else {
        Ok(None)
    }
}

fn decode_layout_return_body(d: &mut XdrDecoder) -> (r: Result<LayoutReturn4Body, XdrError>)
    ensures
        (xdr::viewed(r), final(d)@) == grammar::parse_layout_return_body(old(d)@),
{
    let arm: u32 = d.decode_u32()?;
    if arm == 1 {
        let offset: u64 = d.decode_u64()?;
        let length: u64 = d.decode_u64()?;
        let stateid = d.decode_stateid()?;
        let body = d.decode_opaque()?;
        Ok(LayoutReturn4Body::File { offset, length, stateid, body })
    } else if arm == 2 {
        Ok(LayoutReturn4Body::Fsid)
    } else if arm == 3 {
        Ok(LayoutReturn4Body::All)
    } else {
        Err(XdrError::UnknownArm)
    }
}

fn file_type(w: u32) -> (t: Nfs4FileType)
    ensures
        t == grammar::file_type(w),
{
    match w {
        2 => Nfs4FileType::Directory,
        3 => Nfs4FileType::BlockDevice,
        4 => Nfs4FileType::CharDevice,
        5 => Nfs4FileType::Symlink,
        6 => Nfs4FileType::Socket,
        7 => Nfs4FileType::Fifo,
        8 => Nfs4FileType::AttrDir,
        9 => Nfs4FileType::NamedAttr,
        _ => Nfs4FileType::Regular,
    }
}

fn decode_createtype_tail(d: &mut XdrDecoder, t: Nfs4FileType) -> (r: Result<
    Option<String>,
    XdrError,
>)
    ensures
        final(d)@ == grammar::parse_createtype_tail(old(d)@, t).1,
        match r {
            Ok(n) => grammar::parse_createtype_tail(old(d)@, t).0 == Ok::<
                Option<Seq<char>>,
                XdrError,
            >(types::opt_string_view(n)),
            Err(e) => grammar::parse_createtype_tail(old(d)@, t).0 == Err::<
                Option<Seq<char>>,
                XdrError,
            >(e),
        },
{
    if t == Nfs4FileType::Symlink {
        let link = d.decode_string()?;
        Ok(Some(link))
    } else if t == Nfs4FileType::BlockDevice || t == Nfs4FileType::CharDevice {
        let _major: u32 = d.decode_u32()?;
        let _minor: u32 = d.decode_u32()?;
        Ok(None)
    } else {
        Ok(None)
    }
}

// ---------------------------------------------------------------------------
// The operations
// ---------------------------------------------------------------------------

fn decode_putfh(d: &mut XdrDecoder) -> (r: Result<Operation, XdrError>)
    ensures
        (xdr::viewed(r), final(d)@) == grammar::parse_putfh(old(d)@),
{
    let fh = d.decode_filehandle()?;
    Ok(Operation::PutFh(fh))
}

fn decode_readdir(d: &mut XdrDecoder) -> (r: Result<Operation, XdrError>)
    ensures
        (xdr::viewed(r), final(d)@) == grammar::parse_readdir(old(d)@),
{
    let cookie: u64 = d.decode_u64()?;
    let cookieverf = d.decode_verifier()?;
    let dircount: u32 = d.decode_u32()?;
    let maxcount: u32 = d.decode_u32()?;
    let attr_request = d.decode_bitmap()?;
    Ok(Operation::ReadDir { cookie, cookieverf, dircount, maxcount, attr_request })
}

fn decode_getattr(d: &mut XdrDecoder) -> (r: Result<Operation, XdrError>)
    ensures
        (xdr::viewed(r), final(d)@) == grammar::parse_getattr(old(d)@),
{
    let mask = d.decode_bitmap()?;
    Ok(Operation::GetAttr(mask))
}

fn decode_setattr(d: &mut XdrDecoder) -> (r: Result<Operation, XdrError>)
    ensures
        (xdr::viewed(r), final(d)@) == grammar::parse_setattr(old(d)@),
{
    let stateid = d.decode_stateid()?;
    let attrs = decode_packed_fattr(d)?;
    Ok(Operation::SetAttr { stateid, attrs })
}

fn decode_access(d: &mut XdrDecoder) -> (r: Result<Operation, XdrError>)
    ensures
        (xdr::viewed(r), final(d)@) == grammar::parse_access(old(d)@),
{
    let bits: u32 = d.decode_u32()?;
    Ok(Operation::Access(bits))
}

fn decode_verify(d: &mut XdrDecoder) -> (r: Result<Operation, XdrError>)
    ensures
        (xdr::viewed(r), final(d)@) == grammar::parse_verify(old(d)@),
{
    let attrs = decode_packed_fattr(d)?;
    Ok(Operation::Verify { attrs })
}

fn decode_nverify(d: &mut XdrDecoder) -> (r: Result<Operation, XdrError>)
    ensures
        (xdr::viewed(r), final(d)@) == grammar::parse_nverify(old(d)@),
{
    let attrs = decode_packed_fattr(d)?;
    Ok(Operation::Nverify { attrs })
}

fn decode_delegpurge(d: &mut XdrDecoder) -> (r: Result<Operation, XdrError>)
    ensures
        (xdr::viewed(r), final(d)@) == grammar::parse_delegpurge(old(d)@),
{
    let clientid: u64 = d.decode_u64()?;
    Ok(Operation::DelegPurge { clientid })
}

fn decode_delegreturn(d: &mut XdrDecoder) -> (r: Result<Operation, XdrError>)
    ensures
        (xdr::viewed(r), final(d)@) == grammar::parse_delegreturn(old(d)@),
{
    let stateid = d.decode_stateid()?;
    Ok(Operation::DelegReturn { stateid })
}

fn decode_open(d: &mut XdrDecoder) -> (r: Result<Operation, XdrError>)
    ensures
        (xdr::viewed(r), final(d)@) == grammar::parse_open(old(d)@),
{
    let seqid: u32 = d.decode_u32()?;
    let share_access: u32 = d.decode_u32()?;
    let share_deny: u32 = d.decode_u32()?;
    let _clientid: u64 = d.decode_u64()?;
    let owner = d.decode_octets()?;
    let openhow = decode_openflag(d)?;
    let claim = decode_claim(d)?;
    Ok(Operation::Open { seqid, share_access, share_deny, owner, openhow, claim })
}

fn decode_close(d: &mut XdrDecoder) -> (r: Result<Operation, XdrError>)
    ensures
        (xdr::viewed(r), final(d)@) == grammar::parse_close(old(d)@),
{
    let seqid: u32 = d.decode_u32()?;
    let stateid = d.decode_stateid()?;
    Ok(Operation::Close { seqid, stateid })
}

fn decode_open_downgrade(d: &mut XdrDecoder) -> (r: Result<Operation, XdrError>)
    ensures
        (xdr::viewed(r), final(d)@) == grammar::parse_open_downgrade(old(d)@),
{
    let stateid = d.decode_stateid()?;
    let seqid: u32 = d.decode_u32()?;
    let share_access: u32 = d.decode_u32()?;
    let share_deny: u32 = d.decode_u32()?;
    Ok(Operation::OpenDowngrade { stateid, seqid, share_access, share_deny })
}

fn decode_read(d: &mut XdrDecoder) -> (r: Result<Operation, XdrError>)
    ensures
        (xdr::viewed(r), final(d)@) == grammar::parse_read(old(d)@),
{
    let stateid = d.decode_stateid()?;
    let offset: u64 = d.decode_u64()?;
    let count: u32 = d.decode_u32()?;
    Ok(Operation::Read { stateid, offset, count })
}

fn decode_write(d: &mut XdrDecoder) -> (r: Result<Operation, XdrError>)
    ensures
        (xdr::viewed(r), final(d)@) == grammar::parse_write(old(d)@),
{
    let stateid = d.decode_stateid()?;
    let offset: u64 = d.decode_u64()?;
    let stable: u32 = d.decode_u32()?;
    let data = d.decode_opaque()?;
    Ok(Operation::Write { stateid, offset, stable, data })
}

fn decode_commit(d: &mut XdrDecoder) -> (r: Result<Operation, XdrError>)
    ensures
        (xdr::viewed(r), final(d)@) == grammar::parse_commit(old(d)@),
{
    let offset: u64 = d.decode_u64()?;
    let count: u32 = d.decode_u32()?;
    Ok(Operation::Commit { offset, count })
}

fn decode_destroy_session(d: &mut XdrDecoder) -> (r: Result<Operation, XdrError>)
    ensures
        (xdr::viewed(r), final(d)@) == grammar::parse_destroy_session(old(d)@),
{
    let sessionid = d.decode_sessionid()?;
    Ok(Operation::DestroySession(sessionid))
}

fn decode_bind_conn(d: &mut XdrDecoder) -> (r: Result<Operation, XdrError>)
    ensures
        (xdr::viewed(r), final(d)@) == grammar::parse_bind_conn(old(d)@),
{
    let sessionid = d.decode_sessionid()?;
    let dir: u32 = d.decode_u32()?;
    let use_conn_in_rdma_mode: bool = d.decode_bool()?;
    Ok(Operation::BindConnToSession { sessionid, dir, use_conn_in_rdma_mode })
}

fn decode_backchannel_ctl(d: &mut XdrDecoder) -> (r: Result<Operation, XdrError>)
    ensures
        (xdr::viewed(r), final(d)@) == grammar::parse_backchannel_ctl(old(d)@),
{
    let cb_program: u32 = d.decode_u32()?;
    let cb_sec = decode_callback_sec_parms(d)?;
    Ok(Operation::BackchannelCtl { cb_program, cb_sec })
}

fn decode_destroy_clientid(d: &mut XdrDecoder) -> (r: Result<Operation, XdrError>)
    ensures
        (xdr::viewed(r), final(d)@) == grammar::parse_destroy_clientid(old(d)@),
{
    let clientid: u64 = d.decode_u64()?;
    Ok(Operation::DestroyClientId(clientid))
}

fn decode_sequence(d: &mut XdrDecoder) -> (r: Result<Operation, XdrError>)
    ensures
        (xdr::viewed(r), final(d)@) == grammar::parse_sequence(old(d)@),
{
    let sessionid = d.decode_sessionid()?;
    let sequenceid: u32 = d.decode_u32()?;
    let slotid: u32 = d.decode_u32()?;
    let highest_slotid: u32 = d.decode_u32()?;
    let cachethis: bool = d.decode_bool()?;
    Ok(Operation::Sequence { sessionid, sequenceid, slotid, highest_slotid, cachethis })
}

fn decode_reclaim_complete(d: &mut XdrDecoder) -> (r: Result<Operation, XdrError>)
    ensures
        (xdr::viewed(r), final(d)@) == grammar::parse_reclaim_complete(old(d)@),
{
    let one_fs: bool = d.decode_bool()?;
    Ok(Operation::ReclaimComplete(one_fs))
}

fn decode_free_stateid(d: &mut XdrDecoder) -> (r: Result<Operation, XdrError>)
    ensures
        (xdr::viewed(r), final(d)@) == grammar::parse_free_stateid(old(d)@),
{
    let stateid = d.decode_stateid()?;
    Ok(Operation::FreeStateId(stateid))
}

fn decode_lockt(d: &mut XdrDecoder) -> (r: Result<Operation, XdrError>)
    ensures
        (xdr::viewed(r), final(d)@) == grammar::parse_lockt(old(d)@),
{
    let locktype: u32 = d.decode_u32()?;
    let offset: u64 = d.decode_u64()?;
    let length: u64 = d.decode_u64()?;
    let owner = d.decode_octets()?;
    Ok(Operation::LockT { locktype, offset, length, owner })
}

fn decode_locku(d: &mut XdrDecoder) -> (r: Result<Operation, XdrError>)
    ensures
        (xdr::viewed(r), final(d)@) == grammar::parse_locku(old(d)@),
{
    let locktype: u32 = d.decode_u32()?;
    let seqid: u32 = d.decode_u32()?;
    let stateid = d.decode_stateid()?;
    let offset: u64 = d.decode_u64()?;
    let length: u64 = d.decode_u64()?;
    Ok(Operation::LockU { locktype, seqid, stateid, offset, length })
}

fn decode_allocate(d: &mut XdrDecoder) -> (r: Result<Operation, XdrError>)
    ensures
        (xdr::viewed(r), final(d)@) == grammar::parse_allocate(old(d)@),
{
    let stateid = d.decode_stateid()?;
    let offset: u64 = d.decode_u64()?;
    let length: u64 = d.decode_u64()?;
    Ok(Operation::Allocate { stateid, offset, length })
}

fn decode_deallocate(d: &mut XdrDecoder) -> (r: Result<Operation, XdrError>)
    ensures
        (xdr::viewed(r), final(d)@) == grammar::parse_deallocate(old(d)@),
{
    let stateid = d.decode_stateid()?;
    let offset: u64 = d.decode_u64()?;
    let length: u64 = d.decode_u64()?;
    Ok(Operation::Deallocate { stateid, offset, length })
}

fn decode_seek(d: &mut XdrDecoder) -> (r: Result<Operation, XdrError>)
    ensures
        (xdr::viewed(r), final(d)@) == grammar::parse_seek(old(d)@),
{
    let stateid = d.decode_stateid()?;
    let offset: u64 = d.decode_u64()?;
    let what: u32 = d.decode_u32()?;
    Ok(Operation::Seek { stateid, offset, what })
}

fn decode_copy(d: &mut XdrDecoder) -> (r: Result<Operation, XdrError>)
    ensures
        (xdr::viewed(r), final(d)@) == grammar::parse_copy(old(d)@),
{
    let src_stateid = d.decode_stateid()?;
    let dst_stateid = d.decode_stateid()?;
    let src_offset: u64 = d.decode_u64()?;
    let dst_offset: u64 = d.decode_u64()?;
    let count: u64 = d.decode_u64()?;
    let consecutive: bool = d.decode_bool()?;
    let synchronous: bool = d.decode_bool()?;
    let source_server_count: u32 = decode_netloc_array(d)?;
    Ok(Operation::Copy { src_stateid, dst_stateid, src_offset, dst_offset, count, consecutive, synchronous, source_server_count })
}

fn decode_clone(d: &mut XdrDecoder) -> (r: Result<Operation, XdrError>)
    ensures
        (xdr::viewed(r), final(d)@) == grammar::parse_clone(old(d)@),
{
    let src_stateid = d.decode_stateid()?;
    let dst_stateid = d.decode_stateid()?;
    let src_offset: u64 = d.decode_u64()?;
    let dst_offset: u64 = d.decode_u64()?;
    let count: u64 = d.decode_u64()?;
    Ok(Operation::Clone { src_stateid, dst_stateid, src_offset, dst_offset, count })
}

fn decode_read_plus(d: &mut XdrDecoder) -> (r: Result<Operation, XdrError>)
    ensures
        (xdr::viewed(r), final(d)@) == grammar::parse_read_plus(old(d)@),
{
    let stateid = d.decode_stateid()?;
    let offset: u64 = d.decode_u64()?;
    let count: u32 = d.decode_u32()?;
    Ok(Operation::ReadPlus { stateid, offset, count })
}

fn decode_io_advise(d: &mut XdrDecoder) -> (r: Result<Operation, XdrError>)
    ensures
        (xdr::viewed(r), final(d)@) == grammar::parse_io_advise(old(d)@),
{
    let stateid = d.decode_stateid()?;
    let offset: u64 = d.decode_u64()?;
    let count: u64 = d.decode_u64()?;
    let hints: u32 = d.decode_u32()?;
    Ok(Operation::IoAdvise { stateid, offset, count, hints })
}

fn decode_secinfo(d: &mut XdrDecoder) -> (r: Result<Operation, XdrError>)
    ensures
        (xdr::viewed(r), final(d)@) == grammar::parse_secinfo(old(d)@),
{
    let name = d.decode_string()?;
    Ok(Operation::SecInfo(name))
}

fn decode_secinfo_no_name(d: &mut XdrDecoder) -> (r: Result<Operation, XdrError>)
    ensures
        (xdr::viewed(r), final(d)@) == grammar::parse_secinfo_no_name(old(d)@),
{
    let style: u32 = d.decode_u32()?;
    Ok(Operation::SecInfoNoName(style))
}

fn decode_layoutget(d: &mut XdrDecoder) -> (r: Result<Operation, XdrError>)
    ensures
        (xdr::viewed(r), final(d)@) == grammar::parse_layoutget(old(d)@),
{
    let signal_layout_avail: bool = d.decode_bool()?;
    let layout_type: u32 = d.decode_u32()?;
    let iomode: u32 = d.decode_u32()?;
    let offset: u64 = d.decode_u64()?;
    let length: u64 = d.decode_u64()?;
    let minlength: u64 = d.decode_u64()?;
    let stateid = d.decode_stateid()?;
    let maxcount: u32 = d.decode_u32()?;
    Ok(Operation::LayoutGet { signal_layout_avail, layout_type, iomode, offset, length, minlength, stateid, maxcount })
}

fn decode_layoutcommit(d: &mut XdrDecoder) -> (r: Result<Operation, XdrError>)
    ensures
        (xdr::viewed(r), final(d)@) == grammar::parse_layoutcommit(old(d)@),
{
    let offset: u64 = d.decode_u64()?;
    let length: u64 = d.decode_u64()?;
    let reclaim: bool = d.decode_bool()?;
    let stateid = d.decode_stateid()?;
    let last_write_offset = decode_newoffset(d)?;
    let time_modify = decode_newtime(d)?;
    let layout_type: u32 = d.decode_u32()?;
    let layoutupdate = d.decode_opaque()?;
    Ok(Operation::LayoutCommit { offset, length, reclaim, stateid, last_write_offset, time_modify, layout_type, layoutupdate })
}

fn decode_layoutreturn(d: &mut XdrDecoder) -> (r: Result<Operation, XdrError>)
    ensures
        (xdr::viewed(r), final(d)@) == grammar::parse_layoutreturn(old(d)@),
{
    let reclaim: bool = d.decode_bool()?;
    let layout_type: u32 = d.decode_u32()?;
    let iomode: u32 = d.decode_u32()?;
    let return_body = decode_layout_return_body(d)?;
    Ok(Operation::LayoutReturn { reclaim, layout_type, iomode, return_body })
}

fn decode_lookup(d: &mut XdrDecoder) -> (r: Result<Operation, XdrError>)
    ensures
        (xdr::viewed(r), final(d)@) == grammar::parse_named(
            old(d)@,
            opcode::LOOKUP,
            |n: Seq<char>| OperationView::Lookup(n),
        ),
{
    match decode_component(d)? {
        Some(name) => Ok(Operation::Lookup(name)),
        None => Ok(Operation::InvalidName(opcode::LOOKUP)),
    }
}

fn decode_remove(d: &mut XdrDecoder) -> (r: Result<Operation, XdrError>)
    ensures
        (xdr::viewed(r), final(d)@) == grammar::parse_named(
            old(d)@,
            opcode::REMOVE,
            |n: Seq<char>| OperationView::Remove(n),
        ),
{
    match decode_component(d)? {
        Some(name) => Ok(Operation::Remove(name)),
        None => Ok(Operation::InvalidName(opcode::REMOVE)),
    }
}

fn decode_link(d: &mut XdrDecoder) -> (r: Result<Operation, XdrError>)
    ensures
        (xdr::viewed(r), final(d)@) == grammar::parse_named(
            old(d)@,
            opcode::LINK,
            |n: Seq<char>| OperationView::Link(n),
        ),
{
    match decode_component(d)? {
        Some(name) => Ok(Operation::Link(name)),
        None => Ok(Operation::InvalidName(opcode::LINK)),
    }
}

fn decode_rename(d: &mut XdrDecoder) -> (r: Result<Operation, XdrError>)
    ensures
        (xdr::viewed(r), final(d)@) == grammar::parse_rename(old(d)@),
{
    let oldname = decode_component(d)?;
    let newname = decode_component(d)?;
    match (oldname, newname) {
        (Some(oldname), Some(newname)) => Ok(Operation::Rename { oldname, newname }),
        _ => Ok(Operation::InvalidName(opcode::RENAME)),
    }
}

fn decode_create(d: &mut XdrDecoder) -> (r: Result<Operation, XdrError>)
    ensures
        (xdr::viewed(r), final(d)@) == grammar::parse_create(old(d)@),
{
    let w: u32 = d.decode_u32()?;
    let objtype = file_type(w);
    let linkdata = decode_createtype_tail(d, objtype)?;
    let objname = match decode_component(d)? {
        Some(n) => n,
        None => {
            return Ok(Operation::InvalidName(opcode::CREATE));
        },
    };
    let createattrs = decode_fattr(d)?;
    Ok(Operation::Create { objtype, objname, linkdata, createattrs })
}

fn decode_exchange_id(d: &mut XdrDecoder) -> (r: Result<Operation, XdrError>)
    ensures
        (xdr::viewed(r), final(d)@) == grammar::parse_exchange_id(old(d)@),
{
    let verifier: u64 = d.decode_u64()?;
    let id = d.decode_octets()?;
    let flags: u32 = d.decode_u32()?;
    let state_protect: u32 = d.decode_u32()?;
    decode_state_protect(d, state_protect)?;
    let impl_id = decode_impl_id(d)?;
    let clientowner = ClientId { verifier, id };
    Ok(Operation::ExchangeId { clientowner, flags, state_protect, impl_id })
}

fn decode_create_session(d: &mut XdrDecoder) -> (r: Result<Operation, XdrError>)
    ensures
        (xdr::viewed(r), final(d)@) == grammar::parse_create_session(old(d)@),
{
    let clientid: u64 = d.decode_u64()?;
    let sequence: u32 = d.decode_u32()?;
    let flags: u32 = d.decode_u32()?;
    let fore_chan_attrs = ChannelAttrs::decode(d)?;
    let back_chan_attrs = ChannelAttrs::decode(d)?;
    let cb_program: u32 = d.decode_u32()?;
    let cb_sec = match decode_callback_sec_parms(d) {
        Ok(v) => v,
        Err(_) => {
            let none: Vec<CallbackSecParms> = Vec::new();
            assert(xdr::views(none@) =~= Seq::<SecParmsView>::empty());
            none
        },
    };
    Ok(
        Operation::CreateSession {
            clientid,
            sequence,
            flags,
            fore_chan_attrs,
            back_chan_attrs,
            cb_program,
            cb_sec,
        },
    )
}

fn decode_test_stateid(d: &mut XdrDecoder) -> (r: Result<Operation, XdrError>)
    ensures
        (xdr::viewed(r), final(d)@) == grammar::parse_test_stateid(old(d)@),
{
    let n: u32 = d.decode_count(16)?;
    let ids = d.decode_stateids(n)?;
    Ok(Operation::TestStateId(ids))
}

fn decode_lock(d: &mut XdrDecoder) -> (r: Result<Operation, XdrError>)
    ensures
        (xdr::viewed(r), final(d)@) == grammar::parse_lock(old(d)@),
{
    let locktype: u32 = d.decode_u32()?;
    let reclaim = d.decode_bool()?;
    let offset: u64 = d.decode_u64()?;
    let length: u64 = d.decode_u64()?;
    let new_lock_owner = d.decode_bool()?;
    if new_lock_owner {
        let _open_seqid: u32 = d.decode_u32()?;
        let stateid = d.decode_stateid()?;
        let _lock_seqid: u32 = d.decode_u32()?;
        let _clientid: u64 = d.decode_u64()?;
        let owner = d.decode_octets()?;
        Ok(Operation::Lock { locktype, reclaim, offset, length, stateid, owner, new_lock_owner })
    } else {
        let stateid = d.decode_stateid()?;
        let _lock_seqid: u32 = d.decode_u32()?;
        let owner: Vec<u8> = Vec::new();
        Ok(Operation::Lock { locktype, reclaim, offset, length, stateid, owner, new_lock_owner })
    }
}

fn decode_getdeviceinfo(d: &mut XdrDecoder) -> (r: Result<Operation, XdrError>)
    ensures
        (xdr::viewed(r), final(d)@) == grammar::parse_getdeviceinfo(old(d)@),
{
    let id = d.decode_fixed_opaque(16)?;
    let device_id = xdr::octets_to_vec(bytes_as_slice(&id));
    let layout_type: u32 = d.decode_u32()?;
    let maxcount: u32 = d.decode_u32()?;
    let n: u32 = d.decode_u32()?;
    let notify_types = d.decode_words(n)?;
    Ok(Operation::GetDeviceInfo { device_id, layout_type, maxcount, notify_types })
}

/// Decodes the arguments of operation `op`.
pub fn decode_operation(d: &mut XdrDecoder, op: u32) -> (r: Result<Operation, XdrError>)
    ensures
        (xdr::viewed(r), final(d)@) == grammar::parse_operation(old(d)@, op),
{
    proof {
        reveal(grammar::parse_operation);
    }
    if op < 3 || op > opcode::CLONE {
        return Ok(Operation::Unsupported(op));
    }
    match op {
        opcode::PUTROOTFH => Ok(Operation::PutRootFh),
        opcode::PUTPUBFH => Ok(Operation::PutPubFh),
        opcode::GETFH => Ok(Operation::GetFh),
        opcode::SAVEFH => Ok(Operation::SaveFh),
        opcode::RESTOREFH => Ok(Operation::RestoreFh),
        opcode::LOOKUPP => Ok(Operation::LookupP),
        opcode::READLINK => Ok(Operation::ReadLink),
        opcode::LOOKUP => decode_lookup(d),
        opcode::REMOVE => decode_remove(d),
        opcode::LINK => decode_link(d),
        opcode::PUTFH => decode_putfh(d),
        opcode::READDIR => decode_readdir(d),
        opcode::GETATTR => decode_getattr(d),
        opcode::SETATTR => decode_setattr(d),
        opcode::ACCESS => decode_access(d),
        opcode::VERIFY => decode_verify(d),
        opcode::NVERIFY => decode_nverify(d),
        opcode::DELEGPURGE => decode_delegpurge(d),
        opcode::DELEGRETURN => decode_delegreturn(d),
        opcode::OPEN => decode_open(d),
        opcode::CLOSE => decode_close(d),
        opcode::OPEN_DOWNGRADE => decode_open_downgrade(d),
        opcode::READ => decode_read(d),
        opcode::WRITE => decode_write(d),
        opcode::COMMIT => decode_commit(d),
        opcode::DESTROY_SESSION => decode_destroy_session(d),
        opcode::BIND_CONN_TO_SESSION => decode_bind_conn(d),
        opcode::BACKCHANNEL_CTL => decode_backchannel_ctl(d),
        opcode::DESTROY_CLIENTID => decode_destroy_clientid(d),
        opcode::SEQUENCE => decode_sequence(d),
        opcode::RECLAIM_COMPLETE => decode_reclaim_complete(d),
        opcode::FREE_STATEID => decode_free_stateid(d),
        opcode::LOCKT => decode_lockt(d),
        opcode::LOCKU => decode_locku(d),
        opcode::ALLOCATE => decode_allocate(d),
        opcode::DEALLOCATE => decode_deallocate(d),
        opcode::SEEK => decode_seek(d),
        opcode::COPY => decode_copy(d),
        opcode::CLONE => decode_clone(d),
        opcode::READ_PLUS => decode_read_plus(d),
        opcode::IO_ADVISE => decode_io_advise(d),
        opcode::SECINFO => decode_secinfo(d),
        opcode::SECINFO_NO_NAME => decode_secinfo_no_name(d),
        opcode::LAYOUTGET => decode_layoutget(d),
        opcode::LAYOUTCOMMIT => decode_layoutcommit(d),
        opcode::LAYOUTRETURN => decode_layoutreturn(d),
        opcode::RENAME => decode_rename(d),
        opcode::CREATE => decode_create(d),
        opcode::EXCHANGE_ID => decode_exchange_id(d),
        opcode::CREATE_SESSION => decode_create_session(d),
        opcode::TEST_STATEID => decode_test_stateid(d),
        opcode::LOCK => decode_lock(d),
        opcode::GETDEVICEINFO => decode_getdeviceinfo(d),
        _ => Ok(Operation::Unsupported(op)),
    }
}

} // verus!
