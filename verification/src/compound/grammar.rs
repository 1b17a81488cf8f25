//! The arguments of each operation as they stand on the wire (RFC 8881 sections
//! 18.1 to 18.51, RFC 7862 section 15): one reader for each.
//!
//! A reader takes the octets ahead and gives what the operation says, or why it
//! does not parse, with the octets that are then ahead.
use vstd::prelude::*;
use vstd::utf8::*;

use crate::compound::ops::OperationView;
use crate::compound::types::{
    ChannelAttrsView, ClientIdView, Fattr4View, LayoutReturnView, OpenClaimView, OpenHowView,
    SecParmsView,
};
use crate::octets;
use crate::protocol::opcode;
use crate::protocol::{Nfs4FileType, StateIdView};
use crate::text;
use crate::xdr;
use crate::xdr::{Parsed, XdrError};

verus! {

// ---------------------------------------------------------------------------
// Parts shared by several operations
// ---------------------------------------------------------------------------

/// `component4`: a name, or `None` for one that is not valid `utf8str_cs`. The
/// octets are taken either way.
pub open spec fn parse_component(s: Seq<u8>) -> Parsed<Option<Seq<char>>> {
    xdr::bind(xdr::parse_opaque(s), |d: Seq<u8>, s: Seq<u8>|
        if valid_utf8(d) && text::is_utf8str_cs(decode_utf8(d)) {
            (Ok(Some(decode_utf8(d))), s)
        } else {
            (Ok(None), s)
        })
}

/// `fattr4`: a bitmap and the values it selects.
pub open spec fn parse_fattr(s: Seq<u8>) -> Parsed<Fattr4View> {
    xdr::bind(xdr::parse_u32(s), |n: u32, s: Seq<u8>|
    xdr::bind(xdr::parse_words(s, n as nat), |attrmask: Seq<u32>, s: Seq<u8>|
    xdr::bind(xdr::parse_opaque(s), |attr_vals: Seq<u8>, s: Seq<u8>|
    (Ok(Fattr4View { attrmask, attr_vals }), s))))
}

/// A bitmap and its values as one blob: the word count, the words, the length
/// of the values and the values, with nothing behind them.
pub open spec fn pack_fattr(attrmask: Seq<u32>, attr_vals: Seq<u8>) -> Seq<u8> {
    xdr::wire_bitmap(attrmask) + octets::be32(attr_vals.len() as u32) + attr_vals
}

/// `fattr4`, packed as one blob.
pub open spec fn parse_packed_fattr(s: Seq<u8>) -> Parsed<Seq<u8>> {
    xdr::bind(xdr::parse_bitmap(s), |attrmask: Seq<u32>, s: Seq<u8>|
    xdr::bind(xdr::parse_opaque(s), |attr_vals: Seq<u8>, s: Seq<u8>|
    (Ok(pack_fattr(attrmask, attr_vals)), s)))
}

/// `authsys_parms`.
pub open spec fn parse_authsys(s: Seq<u8>) -> Parsed<SecParmsView> {
    xdr::bind(xdr::parse_u32(s), |stamp: u32, s: Seq<u8>|
    xdr::bind(xdr::parse_string(s), |machinename: Seq<char>, s: Seq<u8>|
    xdr::bind(xdr::parse_u32(s), |uid: u32, s: Seq<u8>|
    xdr::bind(xdr::parse_u32(s), |gid: u32, s: Seq<u8>|
    xdr::bind(xdr::parse_u32(s), |n: u32, s: Seq<u8>|
    if n > 16 {
        (Err(XdrError::OverBound), s)
    } else {
        xdr::bind(xdr::parse_words(s, n as nat), |gids: Seq<u32>, s: Seq<u8>|
        (Ok(SecParmsView::Sys { stamp, machinename, uid, gid, gids }), s))
    })))))
}

/// `callback_sec_parms4`: a flavor and the credential that goes with it.
pub open spec fn parse_sec_parm(s: Seq<u8>) -> Parsed<SecParmsView> {
    xdr::bind(xdr::parse_u32(s), |flavor: u32, s: Seq<u8>|
    if flavor == 0 {
        (Ok(SecParmsView::AuthNone), s)
    } else if flavor == 1 {
        parse_authsys(s)
    } else if flavor == 6 {
        xdr::bind(xdr::parse_u32(s), |_service: u32, s: Seq<u8>|
        xdr::bind(xdr::parse_opaque(s), |_from_server: Seq<u8>, s: Seq<u8>|
        xdr::bind(xdr::parse_opaque(s), |_from_client: Seq<u8>, s: Seq<u8>|
        (Ok(SecParmsView::Gss), s))))
    } else {
        (Err(XdrError::UnknownArm), s)
    })
}

/// `n` entries of a credential offer.
pub open spec fn parse_sec_parm_list(s: Seq<u8>, n: nat) -> Parsed<Seq<SecParmsView>>
    decreases n,
{
    if n == 0 {
        (Ok(Seq::empty()), s)
    } else {
        let (v, t) = parse_sec_parm(s);
        match v {
            Err(e) => (Err(e), t),
            Ok(v) => xdr::prepend(seq![v], parse_sec_parm_list(t, (n - 1) as nat)),
        }
    }
}

/// `csa_sec_parms<>`: at most sixteen entries.
pub open spec fn parse_sec_parms(s: Seq<u8>) -> Parsed<Seq<SecParmsView>> {
    xdr::bind(xdr::parse_u32(s), |n: u32, s: Seq<u8>|
    if n > 16 {
        (Err(XdrError::OverBound), s)
    } else {
        parse_sec_parm_list(s, n as nat)
    })
}

/// `channel_attrs4`, with at most one element of `ca_rdma_ird`.
pub open spec fn parse_channel_attrs(s: Seq<u8>) -> Parsed<ChannelAttrsView> {
    xdr::bind(xdr::parse_u32(s), |header_pad_size: u32, s: Seq<u8>|
    xdr::bind(xdr::parse_u32(s), |max_request_size: u32, s: Seq<u8>|
    xdr::bind(xdr::parse_u32(s), |max_response_size: u32, s: Seq<u8>|
    xdr::bind(xdr::parse_u32(s), |max_response_size_cached: u32, s: Seq<u8>|
    xdr::bind(xdr::parse_u32(s), |max_operations: u32, s: Seq<u8>|
    xdr::bind(xdr::parse_u32(s), |max_requests: u32, s: Seq<u8>|
    xdr::bind(xdr::parse_u32(s), |n: u32, s: Seq<u8>|
    if n > 1 {
        (Err(XdrError::OverBound), s)
    } else {
        xdr::bind(xdr::parse_words(s, n as nat), |rdma_ird: Seq<u32>, s: Seq<u8>|
        (Ok(ChannelAttrsView {
            header_pad_size,
            max_request_size,
            max_response_size,
            max_response_size_cached,
            max_operations,
            max_requests,
            rdma_ird,
        }), s))
    })))))))
}

/// One `netloc4`, which is only skipped: a name or a URL is one string, a
/// network address two.
pub open spec fn parse_netloc(s: Seq<u8>) -> Parsed<()> {
    xdr::bind(xdr::parse_u32(s), |arm: u32, s: Seq<u8>|
    if arm == 1 || arm == 2 {
        xdr::bind(xdr::parse_string(s), |_name: Seq<char>, s: Seq<u8>| (Ok(()), s))
    } else if arm == 3 {
        xdr::bind(xdr::parse_string(s), |_netid: Seq<char>, s: Seq<u8>|
        xdr::bind(xdr::parse_string(s), |_addr: Seq<char>, s: Seq<u8>| (Ok(()), s)))
    } else {
        (Err(XdrError::UnknownArm), s)
    })
}

/// `n` network locations, skipped.
pub open spec fn parse_netloc_list(s: Seq<u8>, n: nat) -> Parsed<()>
    decreases n,
{
    if n == 0 {
        (Ok(()), s)
    } else {
        let (v, t) = parse_netloc(s);
        match v {
            Err(e) => (Err(e), t),
            Ok(_) => parse_netloc_list(t, (n - 1) as nat),
        }
    }
}

/// `ca_source_server<>`: how many locations there are, at most 1024, with all of
/// them taken.
pub open spec fn parse_netlocs(s: Seq<u8>) -> Parsed<u32> {
    xdr::bind(xdr::parse_u32(s), |n: u32, s: Seq<u8>|
    if n > 1024 {
        (Err(XdrError::OverBound), s)
    } else {
        xdr::bind(parse_netloc_list(s, n as nat), |_u: (), s: Seq<u8>| (Ok(n), s))
    })
}

/// `n` opaques, skipped.
pub open spec fn parse_opaque_list(s: Seq<u8>, n: nat) -> Parsed<()>
    decreases n,
{
    if n == 0 {
        (Ok(()), s)
    } else {
        let (v, t) = xdr::parse_opaque(s);
        match v {
            Err(e) => (Err(e), t),
            Ok(_) => parse_opaque_list(t, (n - 1) as nat),
        }
    }
}

/// A list of algorithm identifiers, at most sixteen, skipped.
pub open spec fn parse_algs(s: Seq<u8>) -> Parsed<()> {
    xdr::bind(xdr::parse_u32(s), |n: u32, s: Seq<u8>|
    if n > 16 {
        (Err(XdrError::OverBound), s)
    } else {
        parse_opaque_list(s, n as nat)
    })
}

/// The arm of `state_protect4_a` that `how` selects, skipped.
pub open spec fn parse_state_protect(s: Seq<u8>, how: u32) -> Parsed<()> {
    if how == 0 {
        (Ok(()), s)
    } else if how == 1 || how == 2 {
        xdr::bind(xdr::parse_bitmap(s), |_must_enforce: Seq<u32>, s: Seq<u8>|
        xdr::bind(xdr::parse_bitmap(s), |_must_allow: Seq<u32>, s: Seq<u8>|
        if how == 1 {
            (Ok(()), s)
        } else {
            xdr::bind(parse_algs(s), |_hash: (), s: Seq<u8>|
            xdr::bind(parse_algs(s), |_encr: (), s: Seq<u8>|
            xdr::bind(xdr::parse_u32(s), |_window: u32, s: Seq<u8>|
            xdr::bind(xdr::parse_u32(s), |_handles: u32, s: Seq<u8>|
            (Ok(()), s)))))
        }))
    } else {
        (Err(XdrError::UnknownArm), s)
    }
}

/// `eia_client_impl_id<1>`: the domain and the name with a slash between them,
/// or nothing.
pub open spec fn parse_impl_id(s: Seq<u8>) -> Parsed<Seq<u8>> {
    xdr::bind(xdr::parse_u32(s), |n: u32, s: Seq<u8>|
    if n > 1 {
        (Err(XdrError::OverBound), s)
    } else if n == 1 {
        xdr::bind(xdr::parse_opaque(s), |domain: Seq<u8>, s: Seq<u8>|
        xdr::bind(xdr::parse_opaque(s), |name: Seq<u8>, s: Seq<u8>|
        xdr::bind(xdr::parse_u64(s), |_seconds: u64, s: Seq<u8>|
        xdr::bind(xdr::parse_u32(s), |_nseconds: u32, s: Seq<u8>|
        (Ok(domain + seq![0x2fu8] + name), s)))))
    } else {
        (Ok(Seq::empty()), s)
    })
}

/// `createhow4`. A mode that the protocol does not define counts as no creation.
pub open spec fn parse_createhow(s: Seq<u8>) -> Parsed<OpenHowView> {
    xdr::bind(xdr::parse_u32(s), |createmode: u32, s: Seq<u8>|
    if createmode == 0 || createmode == 1 {
        xdr::bind(parse_fattr(s), |f: Fattr4View, s: Seq<u8>|
        (Ok(OpenHowView { createmode, attrs: Some(f.attr_vals), attrmask: f.attrmask }), s))
    } else if createmode == 2 {
        xdr::bind(xdr::parse_fixed(s, 8), |verf: Seq<u8>, s: Seq<u8>|
        (Ok(OpenHowView { createmode, attrs: Some(verf), attrmask: Seq::empty() }), s))
    } else if createmode == 3 {
        xdr::bind(xdr::parse_fixed(s, 8), |verf: Seq<u8>, s: Seq<u8>|
        xdr::bind(parse_fattr(s), |f: Fattr4View, s: Seq<u8>|
        (Ok(OpenHowView { createmode, attrs: Some(verf + f.attr_vals), attrmask: f.attrmask }), s)))
    } else {
        (Ok(no_create()), s)
    })
}

/// OPEN4_NOCREATE.
pub open spec fn no_create() -> OpenHowView {
    OpenHowView { createmode: 0, attrs: None, attrmask: Seq::empty() }
}

/// `openflag4`.
pub open spec fn parse_openflag(s: Seq<u8>) -> Parsed<OpenHowView> {
    xdr::bind(xdr::parse_u32(s), |opentype: u32, s: Seq<u8>|
    if opentype == 1 {
        parse_createhow(s)
    } else {
        (Ok(no_create()), s)
    })
}

/// `open_claim4`.
pub open spec fn parse_claim(s: Seq<u8>) -> Parsed<OpenClaimView> {
    xdr::bind(xdr::parse_u32(s), |claim_type: u32, s: Seq<u8>|
    if claim_type == 0 || claim_type == 3 {
        xdr::bind(xdr::parse_string(s), |file: Seq<char>, s: Seq<u8>|
        (Ok(OpenClaimView { claim_type, file, delegate_type: None, delegate_stateid: None }), s))
    } else if claim_type == 1 {
        xdr::bind(xdr::parse_u32(s), |t: u32, s: Seq<u8>|
        (Ok(OpenClaimView {
            claim_type,
            file: Seq::empty(),
            delegate_type: Some(t),
            delegate_stateid: None,
        }), s))
    } else if claim_type == 2 {
        xdr::bind(xdr::parse_stateid(s), |sid: StateIdView, s: Seq<u8>|
        xdr::bind(xdr::parse_string(s), |file: Seq<char>, s: Seq<u8>|
        (Ok(OpenClaimView {
            claim_type,
            file,
            delegate_type: None,
            delegate_stateid: Some(sid),
        }), s)))
    } else if claim_type == 5 {
        xdr::bind(xdr::parse_stateid(s), |sid: StateIdView, s: Seq<u8>|
        (Ok(OpenClaimView {
            claim_type,
            file: Seq::empty(),
            delegate_type: None,
            delegate_stateid: Some(sid),
        }), s))
    } else if claim_type == 4 || claim_type == 6 {
        (Ok(OpenClaimView {
            claim_type,
            file: Seq::empty(),
            delegate_type: None,
            delegate_stateid: None,
        }), s)
    } else {
        (Err(XdrError::UnknownArm), s)
    })
}

/// `newoffset4`.
pub open spec fn parse_newoffset(s: Seq<u8>) -> Parsed<Option<u64>> {
    xdr::bind(xdr::parse_bool(s), |present: bool, s: Seq<u8>|
    if present {
        xdr::bind(xdr::parse_u64(s), |v: u64, s: Seq<u8>| (Ok(Some(v)), s))
    } else {
        (Ok(None), s)
    })
}

/// `newtime4`.
pub open spec fn parse_newtime(s: Seq<u8>) -> Parsed<Option<(i64, u32)>> {
    xdr::bind(xdr::parse_bool(s), |present: bool, s: Seq<u8>|
    if present {
        xdr::bind(xdr::parse_u64(s), |secs: u64, s: Seq<u8>|
        xdr::bind(xdr::parse_u32(s), |nsecs: u32, s: Seq<u8>| (Ok(Some((secs as i64, nsecs))), s)))
    } else {
        (Ok(None), s)
    })
}

/// `layoutreturn4`.
pub open spec fn parse_layout_return_body(s: Seq<u8>) -> Parsed<LayoutReturnView> {
    xdr::bind(xdr::parse_u32(s), |arm: u32, s: Seq<u8>|
    if arm == 1 {
        xdr::bind(xdr::parse_u64(s), |offset: u64, s: Seq<u8>|
        xdr::bind(xdr::parse_u64(s), |length: u64, s: Seq<u8>|
        xdr::bind(xdr::parse_stateid(s), |stateid: StateIdView, s: Seq<u8>|
        xdr::bind(xdr::parse_opaque(s), |body: Seq<u8>, s: Seq<u8>|
        (Ok(LayoutReturnView::File { offset, length, stateid, body }), s)))))
    } else if arm == 2 {
        (Ok(LayoutReturnView::Fsid), s)
    } else if arm == 3 {
        (Ok(LayoutReturnView::All), s)
    } else {
        (Err(XdrError::UnknownArm), s)
    })
}

/// `nfs_ftype4`. A type that the protocol does not define counts as a regular
/// file.
pub open spec fn file_type(w: u32) -> Nfs4FileType {
    if w == 2 {
        Nfs4FileType::Directory
    } else if w == 3 {
        Nfs4FileType::BlockDevice
    } else if w == 4 {
        Nfs4FileType::CharDevice
    } else if w == 5 {
        Nfs4FileType::Symlink
    } else if w == 6 {
        Nfs4FileType::Socket
    } else if w == 7 {
        Nfs4FileType::Fifo
    } else if w == 8 {
        Nfs4FileType::AttrDir
    } else if w == 9 {
        Nfs4FileType::NamedAttr
    } else {
        Nfs4FileType::Regular
    }
}

/// What `createtype4` carries besides the type: a link target, or the numbers
/// of a device, which are skipped.
pub open spec fn parse_createtype_tail(s: Seq<u8>, t: Nfs4FileType) -> Parsed<Option<Seq<char>>> {
    if t == Nfs4FileType::Symlink {
        xdr::bind(xdr::parse_string(s), |link: Seq<char>, s: Seq<u8>| (Ok(Some(link)), s))
    } else if t == Nfs4FileType::BlockDevice || t == Nfs4FileType::CharDevice {
        xdr::bind(xdr::parse_u32(s), |_major: u32, s: Seq<u8>|
        xdr::bind(xdr::parse_u32(s), |_minor: u32, s: Seq<u8>| (Ok(None), s)))
    } else {
        (Ok(None), s)
    }
}

// ---------------------------------------------------------------------------
// The operations
// ---------------------------------------------------------------------------

pub open spec fn parse_putfh(s: Seq<u8>) -> Parsed<OperationView> {
    xdr::bind(xdr::parse_opaque(s), |fh: Seq<u8>, s: Seq<u8>|
    (Ok(OperationView::PutFh(fh)), s))
}

pub open spec fn parse_readdir(s: Seq<u8>) -> Parsed<OperationView> {
    xdr::bind(xdr::parse_u64(s), |cookie: u64, s: Seq<u8>|
    xdr::bind(xdr::parse_fixed(s, 8), |cookieverf: Seq<u8>, s: Seq<u8>|
    xdr::bind(xdr::parse_u32(s), |dircount: u32, s: Seq<u8>|
    xdr::bind(xdr::parse_u32(s), |maxcount: u32, s: Seq<u8>|
    xdr::bind(xdr::parse_bitmap(s), |attr_request: Seq<u32>, s: Seq<u8>|
    (Ok(OperationView::ReadDir { cookie, cookieverf, dircount, maxcount, attr_request }), s))))))
}

pub open spec fn parse_getattr(s: Seq<u8>) -> Parsed<OperationView> {
    xdr::bind(xdr::parse_bitmap(s), |mask: Seq<u32>, s: Seq<u8>|
    (Ok(OperationView::GetAttr(mask)), s))
}

pub open spec fn parse_setattr(s: Seq<u8>) -> Parsed<OperationView> {
    xdr::bind(xdr::parse_stateid(s), |stateid: StateIdView, s: Seq<u8>|
    xdr::bind(parse_packed_fattr(s), |attrs: Seq<u8>, s: Seq<u8>|
    (Ok(OperationView::SetAttr { stateid, attrs }), s)))
}

pub open spec fn parse_access(s: Seq<u8>) -> Parsed<OperationView> {
    xdr::bind(xdr::parse_u32(s), |bits: u32, s: Seq<u8>|
    (Ok(OperationView::Access(bits)), s))
}

pub open spec fn parse_verify(s: Seq<u8>) -> Parsed<OperationView> {
    xdr::bind(parse_packed_fattr(s), |attrs: Seq<u8>, s: Seq<u8>|
    (Ok(OperationView::Verify { attrs }), s))
}

pub open spec fn parse_nverify(s: Seq<u8>) -> Parsed<OperationView> {
    xdr::bind(parse_packed_fattr(s), |attrs: Seq<u8>, s: Seq<u8>|
    (Ok(OperationView::Nverify { attrs }), s))
}

pub open spec fn parse_delegpurge(s: Seq<u8>) -> Parsed<OperationView> {
    xdr::bind(xdr::parse_u64(s), |clientid: u64, s: Seq<u8>|
    (Ok(OperationView::DelegPurge { clientid }), s))
}

pub open spec fn parse_delegreturn(s: Seq<u8>) -> Parsed<OperationView> {
    xdr::bind(xdr::parse_stateid(s), |stateid: StateIdView, s: Seq<u8>|
    (Ok(OperationView::DelegReturn { stateid }), s))
}

pub open spec fn parse_open(s: Seq<u8>) -> Parsed<OperationView> {
    xdr::bind(xdr::parse_u32(s), |seqid: u32, s: Seq<u8>|
    xdr::bind(xdr::parse_u32(s), |share_access: u32, s: Seq<u8>|
    xdr::bind(xdr::parse_u32(s), |share_deny: u32, s: Seq<u8>|
    xdr::bind(xdr::parse_u64(s), |_clientid: u64, s: Seq<u8>|
    xdr::bind(xdr::parse_opaque(s), |owner: Seq<u8>, s: Seq<u8>|
    xdr::bind(parse_openflag(s), |openhow: OpenHowView, s: Seq<u8>|
    xdr::bind(parse_claim(s), |claim: OpenClaimView, s: Seq<u8>|
    (Ok(OperationView::Open { seqid, share_access, share_deny, owner, openhow, claim }), s))))))))
}

pub open spec fn parse_close(s: Seq<u8>) -> Parsed<OperationView> {
    xdr::bind(xdr::parse_u32(s), |seqid: u32, s: Seq<u8>|
    xdr::bind(xdr::parse_stateid(s), |stateid: StateIdView, s: Seq<u8>|
    (Ok(OperationView::Close { seqid, stateid }), s)))
}

pub open spec fn parse_open_downgrade(s: Seq<u8>) -> Parsed<OperationView> {
    xdr::bind(xdr::parse_stateid(s), |stateid: StateIdView, s: Seq<u8>|
    xdr::bind(xdr::parse_u32(s), |seqid: u32, s: Seq<u8>|
    xdr::bind(xdr::parse_u32(s), |share_access: u32, s: Seq<u8>|
    xdr::bind(xdr::parse_u32(s), |share_deny: u32, s: Seq<u8>|
    (Ok(OperationView::OpenDowngrade { stateid, seqid, share_access, share_deny }), s)))))
}

pub open spec fn parse_read(s: Seq<u8>) -> Parsed<OperationView> {
    xdr::bind(xdr::parse_stateid(s), |stateid: StateIdView, s: Seq<u8>|
    xdr::bind(xdr::parse_u64(s), |offset: u64, s: Seq<u8>|
    xdr::bind(xdr::parse_u32(s), |count: u32, s: Seq<u8>|
    (Ok(OperationView::Read { stateid, offset, count }), s))))
}

pub open spec fn parse_write(s: Seq<u8>) -> Parsed<OperationView> {
    xdr::bind(xdr::parse_stateid(s), |stateid: StateIdView, s: Seq<u8>|
    xdr::bind(xdr::parse_u64(s), |offset: u64, s: Seq<u8>|
    xdr::bind(xdr::parse_u32(s), |stable: u32, s: Seq<u8>|
    xdr::bind(xdr::parse_opaque(s), |data: Seq<u8>, s: Seq<u8>|
    (Ok(OperationView::Write { stateid, offset, stable, data }), s)))))
}

pub open spec fn parse_commit(s: Seq<u8>) -> Parsed<OperationView> {
    xdr::bind(xdr::parse_u64(s), |offset: u64, s: Seq<u8>|
    xdr::bind(xdr::parse_u32(s), |count: u32, s: Seq<u8>|
    (Ok(OperationView::Commit { offset, count }), s)))
}

pub open spec fn parse_destroy_session(s: Seq<u8>) -> Parsed<OperationView> {
    xdr::bind(xdr::parse_fixed(s, 16), |sessionid: Seq<u8>, s: Seq<u8>|
    (Ok(OperationView::DestroySession(sessionid)), s))
}

pub open spec fn parse_bind_conn(s: Seq<u8>) -> Parsed<OperationView> {
    xdr::bind(xdr::parse_fixed(s, 16), |sessionid: Seq<u8>, s: Seq<u8>|
    xdr::bind(xdr::parse_u32(s), |dir: u32, s: Seq<u8>|
    xdr::bind(xdr::parse_bool(s), |use_conn_in_rdma_mode: bool, s: Seq<u8>|
    (Ok(OperationView::BindConnToSession { sessionid, dir, use_conn_in_rdma_mode }), s))))
}

pub open spec fn parse_backchannel_ctl(s: Seq<u8>) -> Parsed<OperationView> {
    xdr::bind(xdr::parse_u32(s), |cb_program: u32, s: Seq<u8>|
    xdr::bind(parse_sec_parms(s), |cb_sec: Seq<SecParmsView>, s: Seq<u8>|
    (Ok(OperationView::BackchannelCtl { cb_program, cb_sec }), s)))
}

pub open spec fn parse_destroy_clientid(s: Seq<u8>) -> Parsed<OperationView> {
    xdr::bind(xdr::parse_u64(s), |clientid: u64, s: Seq<u8>|
    (Ok(OperationView::DestroyClientId(clientid)), s))
}

pub open spec fn parse_sequence(s: Seq<u8>) -> Parsed<OperationView> {
    xdr::bind(xdr::parse_fixed(s, 16), |sessionid: Seq<u8>, s: Seq<u8>|
    xdr::bind(xdr::parse_u32(s), |sequenceid: u32, s: Seq<u8>|
    xdr::bind(xdr::parse_u32(s), |slotid: u32, s: Seq<u8>|
    xdr::bind(xdr::parse_u32(s), |highest_slotid: u32, s: Seq<u8>|
    xdr::bind(xdr::parse_bool(s), |cachethis: bool, s: Seq<u8>|
    (Ok(OperationView::Sequence { sessionid, sequenceid, slotid, highest_slotid, cachethis }), s))))))
}

pub open spec fn parse_reclaim_complete(s: Seq<u8>) -> Parsed<OperationView> {
    xdr::bind(xdr::parse_bool(s), |one_fs: bool, s: Seq<u8>|
    (Ok(OperationView::ReclaimComplete(one_fs)), s))
}

pub open spec fn parse_free_stateid(s: Seq<u8>) -> Parsed<OperationView> {
    xdr::bind(xdr::parse_stateid(s), |stateid: StateIdView, s: Seq<u8>|
    (Ok(OperationView::FreeStateId(stateid)), s))
}

pub open spec fn parse_lockt(s: Seq<u8>) -> Parsed<OperationView> {
    xdr::bind(xdr::parse_u32(s), |locktype: u32, s: Seq<u8>|
    xdr::bind(xdr::parse_u64(s), |offset: u64, s: Seq<u8>|
    xdr::bind(xdr::parse_u64(s), |length: u64, s: Seq<u8>|
    xdr::bind(xdr::parse_opaque(s), |owner: Seq<u8>, s: Seq<u8>|
    (Ok(OperationView::LockT { locktype, offset, length, owner }), s)))))
}

pub open spec fn parse_locku(s: Seq<u8>) -> Parsed<OperationView> {
    xdr::bind(xdr::parse_u32(s), |locktype: u32, s: Seq<u8>|
    xdr::bind(xdr::parse_u32(s), |seqid: u32, s: Seq<u8>|
    xdr::bind(xdr::parse_stateid(s), |stateid: StateIdView, s: Seq<u8>|
    xdr::bind(xdr::parse_u64(s), |offset: u64, s: Seq<u8>|
    xdr::bind(xdr::parse_u64(s), |length: u64, s: Seq<u8>|
    (Ok(OperationView::LockU { locktype, seqid, stateid, offset, length }), s))))))
}

pub open spec fn parse_allocate(s: Seq<u8>) -> Parsed<OperationView> {
    xdr::bind(xdr::parse_stateid(s), |stateid: StateIdView, s: Seq<u8>|
    xdr::bind(xdr::parse_u64(s), |offset: u64, s: Seq<u8>|
    xdr::bind(xdr::parse_u64(s), |length: u64, s: Seq<u8>|
    (Ok(OperationView::Allocate { stateid, offset, length }), s))))
}

pub open spec fn parse_deallocate(s: Seq<u8>) -> Parsed<OperationView> {
    xdr::bind(xdr::parse_stateid(s), |stateid: StateIdView, s: Seq<u8>|
    xdr::bind(xdr::parse_u64(s), |offset: u64, s: Seq<u8>|
    xdr::bind(xdr::parse_u64(s), |length: u64, s: Seq<u8>|
    (Ok(OperationView::Deallocate { stateid, offset, length }), s))))
}

pub open spec fn parse_seek(s: Seq<u8>) -> Parsed<OperationView> {
    xdr::bind(xdr::parse_stateid(s), |stateid: StateIdView, s: Seq<u8>|
    xdr::bind(xdr::parse_u64(s), |offset: u64, s: Seq<u8>|
    xdr::bind(xdr::parse_u32(s), |what: u32, s: Seq<u8>|
    (Ok(OperationView::Seek { stateid, offset, what }), s))))
}

pub open spec fn parse_copy(s: Seq<u8>) -> Parsed<OperationView> {
    xdr::bind(xdr::parse_stateid(s), |src_stateid: StateIdView, s: Seq<u8>|
    xdr::bind(xdr::parse_stateid(s), |dst_stateid: StateIdView, s: Seq<u8>|
    xdr::bind(xdr::parse_u64(s), |src_offset: u64, s: Seq<u8>|
    xdr::bind(xdr::parse_u64(s), |dst_offset: u64, s: Seq<u8>|
    xdr::bind(xdr::parse_u64(s), |count: u64, s: Seq<u8>|
    xdr::bind(xdr::parse_bool(s), |consecutive: bool, s: Seq<u8>|
    xdr::bind(xdr::parse_bool(s), |synchronous: bool, s: Seq<u8>|
    xdr::bind(parse_netlocs(s), |source_server_count: u32, s: Seq<u8>|
    (Ok(OperationView::Copy { src_stateid, dst_stateid, src_offset, dst_offset, count, consecutive, synchronous, source_server_count }), s)))))))))
}

pub open spec fn parse_clone(s: Seq<u8>) -> Parsed<OperationView> {
    xdr::bind(xdr::parse_stateid(s), |src_stateid: StateIdView, s: Seq<u8>|
    xdr::bind(xdr::parse_stateid(s), |dst_stateid: StateIdView, s: Seq<u8>|
    xdr::bind(xdr::parse_u64(s), |src_offset: u64, s: Seq<u8>|
    xdr::bind(xdr::parse_u64(s), |dst_offset: u64, s: Seq<u8>|
    xdr::bind(xdr::parse_u64(s), |count: u64, s: Seq<u8>|
    (Ok(OperationView::Clone { src_stateid, dst_stateid, src_offset, dst_offset, count }), s))))))
}

pub open spec fn parse_read_plus(s: Seq<u8>) -> Parsed<OperationView> {
    xdr::bind(xdr::parse_stateid(s), |stateid: StateIdView, s: Seq<u8>|
    xdr::bind(xdr::parse_u64(s), |offset: u64, s: Seq<u8>|
    xdr::bind(xdr::parse_u32(s), |count: u32, s: Seq<u8>|
    (Ok(OperationView::ReadPlus { stateid, offset, count }), s))))
}

pub open spec fn parse_io_advise(s: Seq<u8>) -> Parsed<OperationView> {
    xdr::bind(xdr::parse_stateid(s), |stateid: StateIdView, s: Seq<u8>|
    xdr::bind(xdr::parse_u64(s), |offset: u64, s: Seq<u8>|
    xdr::bind(xdr::parse_u64(s), |count: u64, s: Seq<u8>|
    xdr::bind(xdr::parse_u32(s), |hints: u32, s: Seq<u8>|
    (Ok(OperationView::IoAdvise { stateid, offset, count, hints }), s)))))
}

pub open spec fn parse_secinfo(s: Seq<u8>) -> Parsed<OperationView> {
    xdr::bind(xdr::parse_string(s), |name: Seq<char>, s: Seq<u8>|
    (Ok(OperationView::SecInfo(name)), s))
}

pub open spec fn parse_secinfo_no_name(s: Seq<u8>) -> Parsed<OperationView> {
    xdr::bind(xdr::parse_u32(s), |style: u32, s: Seq<u8>|
    (Ok(OperationView::SecInfoNoName(style)), s))
}

pub open spec fn parse_layoutget(s: Seq<u8>) -> Parsed<OperationView> {
    xdr::bind(xdr::parse_bool(s), |signal_layout_avail: bool, s: Seq<u8>|
    xdr::bind(xdr::parse_u32(s), |layout_type: u32, s: Seq<u8>|
    xdr::bind(xdr::parse_u32(s), |iomode: u32, s: Seq<u8>|
    xdr::bind(xdr::parse_u64(s), |offset: u64, s: Seq<u8>|
    xdr::bind(xdr::parse_u64(s), |length: u64, s: Seq<u8>|
    xdr::bind(xdr::parse_u64(s), |minlength: u64, s: Seq<u8>|
    xdr::bind(xdr::parse_stateid(s), |stateid: StateIdView, s: Seq<u8>|
    xdr::bind(xdr::parse_u32(s), |maxcount: u32, s: Seq<u8>|
    (Ok(OperationView::LayoutGet { signal_layout_avail, layout_type, iomode, offset, length, minlength, stateid, maxcount }), s)))))))))
}

pub open spec fn parse_layoutcommit(s: Seq<u8>) -> Parsed<OperationView> {
    xdr::bind(xdr::parse_u64(s), |offset: u64, s: Seq<u8>|
    xdr::bind(xdr::parse_u64(s), |length: u64, s: Seq<u8>|
    xdr::bind(xdr::parse_bool(s), |reclaim: bool, s: Seq<u8>|
    xdr::bind(xdr::parse_stateid(s), |stateid: StateIdView, s: Seq<u8>|
    xdr::bind(parse_newoffset(s), |last_write_offset: Option<u64>, s: Seq<u8>|
    xdr::bind(parse_newtime(s), |time_modify: Option<(i64, u32)>, s: Seq<u8>|
    xdr::bind(xdr::parse_u32(s), |layout_type: u32, s: Seq<u8>|
    xdr::bind(xdr::parse_opaque(s), |layoutupdate: Seq<u8>, s: Seq<u8>|
    (Ok(OperationView::LayoutCommit { offset, length, reclaim, stateid, last_write_offset, time_modify, layout_type, layoutupdate }), s)))))))))
}

pub open spec fn parse_layoutreturn(s: Seq<u8>) -> Parsed<OperationView> {
    xdr::bind(xdr::parse_bool(s), |reclaim: bool, s: Seq<u8>|
    xdr::bind(xdr::parse_u32(s), |layout_type: u32, s: Seq<u8>|
    xdr::bind(xdr::parse_u32(s), |iomode: u32, s: Seq<u8>|
    xdr::bind(parse_layout_return_body(s), |return_body: LayoutReturnView, s: Seq<u8>|
    (Ok(OperationView::LayoutReturn { reclaim, layout_type, iomode, return_body }), s)))))
}

/// An operation whose one argument is a component name.
pub open spec fn parse_named(
    s: Seq<u8>,
    op: u32,
    made: spec_fn(Seq<char>) -> OperationView,
) -> Parsed<OperationView> {
    xdr::bind(parse_component(s), |name: Option<Seq<char>>, s: Seq<u8>|
    match name {
        Some(n) => (Ok(made(n)), s),
        None => (Ok(OperationView::InvalidName(op)), s),
    })
}

/// RENAME: both names are taken before either is judged.
pub open spec fn parse_rename(s: Seq<u8>) -> Parsed<OperationView> {
    xdr::bind(parse_component(s), |oldname: Option<Seq<char>>, s: Seq<u8>|
    xdr::bind(parse_component(s), |newname: Option<Seq<char>>, s: Seq<u8>|
    match (oldname, newname) {
        (Some(oldname), Some(newname)) => (Ok(OperationView::Rename { oldname, newname }), s),
        _ => (Ok(OperationView::InvalidName(opcode::RENAME)), s),
    }))
}

/// CREATE: the type with its tail, the name, the attributes. A bad name ends
/// the reading there.
pub open spec fn parse_create(s: Seq<u8>) -> Parsed<OperationView> {
    xdr::bind(xdr::parse_u32(s), |w: u32, s: Seq<u8>|
    xdr::bind(parse_createtype_tail(s, file_type(w)), |linkdata: Option<Seq<char>>, s: Seq<u8>|
    xdr::bind(parse_component(s), |name: Option<Seq<char>>, s: Seq<u8>|
    match name {
        None => (Ok(OperationView::InvalidName(opcode::CREATE)), s),
        Some(objname) =>
            xdr::bind(parse_fattr(s), |createattrs: Fattr4View, s: Seq<u8>|
            (Ok(OperationView::Create { objtype: file_type(w), objname, linkdata, createattrs }), s)),
    })))
}

/// EXCHANGE_ID.
pub open spec fn parse_exchange_id(s: Seq<u8>) -> Parsed<OperationView> {
    xdr::bind(xdr::parse_u64(s), |verifier: u64, s: Seq<u8>|
    xdr::bind(xdr::parse_opaque(s), |id: Seq<u8>, s: Seq<u8>|
    xdr::bind(xdr::parse_u32(s), |flags: u32, s: Seq<u8>|
    xdr::bind(xdr::parse_u32(s), |state_protect: u32, s: Seq<u8>|
    xdr::bind(parse_state_protect(s, state_protect), |_u: (), s: Seq<u8>|
    xdr::bind(parse_impl_id(s), |impl_id: Seq<u8>, s: Seq<u8>|
    (Ok(OperationView::ExchangeId {
        clientowner: ClientIdView { verifier, id },
        flags,
        state_protect,
        impl_id,
    }), s)))))))
}

/// The arguments of CREATE_SESSION before the credential offer.
pub struct SessionArgs {
    pub clientid: u64,
    pub sequence: u32,
    pub flags: u32,
    pub fore_chan_attrs: ChannelAttrsView,
    pub back_chan_attrs: ChannelAttrsView,
    pub cb_program: u32,
}

pub open spec fn parse_session_args(s: Seq<u8>) -> Parsed<SessionArgs> {
    xdr::bind(xdr::parse_u64(s), |clientid: u64, s: Seq<u8>|
    xdr::bind(xdr::parse_u32(s), |sequence: u32, s: Seq<u8>|
    xdr::bind(xdr::parse_u32(s), |flags: u32, s: Seq<u8>|
    xdr::bind(parse_channel_attrs(s), |fore_chan_attrs: ChannelAttrsView, s: Seq<u8>|
    xdr::bind(parse_channel_attrs(s), |back_chan_attrs: ChannelAttrsView, s: Seq<u8>|
    xdr::bind(xdr::parse_u32(s), |cb_program: u32, s: Seq<u8>|
    (Ok(SessionArgs {
        clientid,
        sequence,
        flags,
        fore_chan_attrs,
        back_chan_attrs,
        cb_program,
    }), s)))))))
}

/// CREATE_SESSION. A credential offer that does not parse counts as an empty
/// one, and reading goes on where it broke off.
pub open spec fn parse_create_session(s: Seq<u8>) -> Parsed<OperationView> {
    xdr::bind(parse_session_args(s), |a: SessionArgs, s: Seq<u8>| {
        let (offer, s) = parse_sec_parms(s);
        let cb_sec = match offer {
            Ok(v) => v,
            Err(_) => Seq::empty(),
        };
        (Ok(OperationView::CreateSession {
            clientid: a.clientid,
            sequence: a.sequence,
            flags: a.flags,
            fore_chan_attrs: a.fore_chan_attrs,
            back_chan_attrs: a.back_chan_attrs,
            cb_program: a.cb_program,
            cb_sec,
        }), s)
    })
}

/// TEST_STATEID.
pub open spec fn parse_test_stateid(s: Seq<u8>) -> Parsed<OperationView> {
    xdr::bind(xdr::parse_count(s, 16), |n: u32, s: Seq<u8>|
    xdr::bind(xdr::parse_stateids(s, n as nat), |ids: Seq<StateIdView>, s: Seq<u8>|
    (Ok(OperationView::TestStateId(ids)), s)))
}

/// `locker4`: for a new owner its open stateid and its octets, for a known one
/// its lock stateid alone.
pub open spec fn parse_locker(s: Seq<u8>, new_lock_owner: bool) -> Parsed<(StateIdView, Seq<u8>)> {
    if new_lock_owner {
        xdr::bind(xdr::parse_u32(s), |_open_seqid: u32, s: Seq<u8>|
        xdr::bind(xdr::parse_stateid(s), |stateid: StateIdView, s: Seq<u8>|
        xdr::bind(xdr::parse_u32(s), |_lock_seqid: u32, s: Seq<u8>|
        xdr::bind(xdr::parse_u64(s), |_clientid: u64, s: Seq<u8>|
        xdr::bind(xdr::parse_opaque(s), |owner: Seq<u8>, s: Seq<u8>|
        (Ok((stateid, owner)), s))))))
    } else {
        xdr::bind(xdr::parse_stateid(s), |stateid: StateIdView, s: Seq<u8>|
        xdr::bind(xdr::parse_u32(s), |_lock_seqid: u32, s: Seq<u8>|
        (Ok((stateid, Seq::empty())), s)))
    }
}

/// LOCK.
pub open spec fn parse_lock(s: Seq<u8>) -> Parsed<OperationView> {
    xdr::bind(xdr::parse_u32(s), |locktype: u32, s: Seq<u8>|
    xdr::bind(xdr::parse_bool(s), |reclaim: bool, s: Seq<u8>|
    xdr::bind(xdr::parse_u64(s), |offset: u64, s: Seq<u8>|
    xdr::bind(xdr::parse_u64(s), |length: u64, s: Seq<u8>|
    xdr::bind(xdr::parse_bool(s), |new_lock_owner: bool, s: Seq<u8>|
    xdr::bind(parse_locker(s, new_lock_owner), |l: (StateIdView, Seq<u8>), s: Seq<u8>|
    (Ok(OperationView::Lock {
        locktype,
        reclaim,
        offset,
        length,
        stateid: l.0,
        owner: l.1,
        new_lock_owner,
    }), s)))))))
}

/// GETDEVICEINFO: the device id is sixteen octets without a length.
pub open spec fn parse_getdeviceinfo(s: Seq<u8>) -> Parsed<OperationView> {
    xdr::bind(xdr::parse_fixed(s, 16), |device_id: Seq<u8>, s: Seq<u8>|
    xdr::bind(xdr::parse_u32(s), |layout_type: u32, s: Seq<u8>|
    xdr::bind(xdr::parse_u32(s), |maxcount: u32, s: Seq<u8>|
    xdr::bind(xdr::parse_u32(s), |n: u32, s: Seq<u8>|
    xdr::bind(xdr::parse_words(s, n as nat), |notify_types: Seq<u32>, s: Seq<u8>|
    (Ok(OperationView::GetDeviceInfo { device_id, layout_type, maxcount, notify_types }), s))))))
}

/// A number that no operation of minor version 2 or below has: reserved, or past
/// the last one.
pub open spec fn is_illegal(op: u32) -> bool {
    op < 3 || op > opcode::CLONE
}

/// The arguments of operation `op`. A number that is illegal, or that this
/// server has no reader for, takes nothing and is reported as it is.
#[verifier::opaque]
pub open spec fn parse_operation(s: Seq<u8>, op: u32) -> Parsed<OperationView> {
    if is_illegal(op) {
        (Ok(OperationView::Unsupported(op)), s)
    } else if op == opcode::PUTROOTFH {
        (Ok(OperationView::PutRootFh), s)
    } else if op == opcode::PUTPUBFH {
        (Ok(OperationView::PutPubFh), s)
    } else if op == opcode::GETFH {
        (Ok(OperationView::GetFh), s)
    } else if op == opcode::SAVEFH {
        (Ok(OperationView::SaveFh), s)
    } else if op == opcode::RESTOREFH {
        (Ok(OperationView::RestoreFh), s)
    } else if op == opcode::LOOKUPP {
        (Ok(OperationView::LookupP), s)
    } else if op == opcode::READLINK {
        (Ok(OperationView::ReadLink), s)
    } else if op == opcode::LOOKUP {
        parse_named(s, op, |n: Seq<char>| OperationView::Lookup(n))
    } else if op == opcode::REMOVE {
        parse_named(s, op, |n: Seq<char>| OperationView::Remove(n))
    } else if op == opcode::LINK {
        parse_named(s, op, |n: Seq<char>| OperationView::Link(n))
    } else if op == opcode::PUTFH {
        parse_putfh(s)
    } else if op == opcode::READDIR {
        parse_readdir(s)
    } else if op == opcode::GETATTR {
        parse_getattr(s)
    } else if op == opcode::SETATTR {
        parse_setattr(s)
    } else if op == opcode::ACCESS {
        parse_access(s)
    } else if op == opcode::VERIFY {
        parse_verify(s)
    } else if op == opcode::NVERIFY {
        parse_nverify(s)
    } else if op == opcode::DELEGPURGE {
        parse_delegpurge(s)
    } else if op == opcode::DELEGRETURN {
        parse_delegreturn(s)
    } else if op == opcode::OPEN {
        parse_open(s)
    } else if op == opcode::CLOSE {
        parse_close(s)
    } else if op == opcode::OPEN_DOWNGRADE {
        parse_open_downgrade(s)
    } else if op == opcode::READ {
        parse_read(s)
    } else if op == opcode::WRITE {
        parse_write(s)
    } else if op == opcode::COMMIT {
        parse_commit(s)
    } else if op == opcode::DESTROY_SESSION {
        parse_destroy_session(s)
    } else if op == opcode::BIND_CONN_TO_SESSION {
        parse_bind_conn(s)
    } else if op == opcode::BACKCHANNEL_CTL {
        parse_backchannel_ctl(s)
    } else if op == opcode::DESTROY_CLIENTID {
        parse_destroy_clientid(s)
    } else if op == opcode::SEQUENCE {
        parse_sequence(s)
    } else if op == opcode::RECLAIM_COMPLETE {
        parse_reclaim_complete(s)
    } else if op == opcode::FREE_STATEID {
        parse_free_stateid(s)
    } else if op == opcode::LOCKT {
        parse_lockt(s)
    } else if op == opcode::LOCKU {
        parse_locku(s)
    } else if op == opcode::ALLOCATE {
        parse_allocate(s)
    } else if op == opcode::DEALLOCATE {
        parse_deallocate(s)
    } else if op == opcode::SEEK {
        parse_seek(s)
    } else if op == opcode::COPY {
        parse_copy(s)
    } else if op == opcode::CLONE {
        parse_clone(s)
    } else if op == opcode::READ_PLUS {
        parse_read_plus(s)
    } else if op == opcode::IO_ADVISE {
        parse_io_advise(s)
    } else if op == opcode::SECINFO {
        parse_secinfo(s)
    } else if op == opcode::SECINFO_NO_NAME {
        parse_secinfo_no_name(s)
    } else if op == opcode::LAYOUTGET {
        parse_layoutget(s)
    } else if op == opcode::LAYOUTCOMMIT {
        parse_layoutcommit(s)
    } else if op == opcode::LAYOUTRETURN {
        parse_layoutreturn(s)
    } else if op == opcode::RENAME {
        parse_rename(s)
    } else if op == opcode::CREATE {
        parse_create(s)
    } else if op == opcode::EXCHANGE_ID {
        parse_exchange_id(s)
    } else if op == opcode::CREATE_SESSION {
        parse_create_session(s)
    } else if op == opcode::TEST_STATEID {
        parse_test_stateid(s)
    } else if op == opcode::LOCK {
        parse_lock(s)
    } else if op == opcode::GETDEVICEINFO {
        parse_getdeviceinfo(s)
    } else {
        (Ok(OperationView::Unsupported(op)), s)
    }
}

} // verus!
