//! What the octets of a whole request say.
use vstd::prelude::*;
use vstd::utf8::*;

use crate::compound::argument_laws;
use crate::compound::decode;
use crate::compound::grammar;
use crate::compound::ops::{Operation, OperationView};
use crate::compound::request;
use crate::compound::types::{
    opt_string_view, CallbackSecParms, ChannelAttrs, LayoutReturn4Body, LayoutReturnView,
    OpenClaim, OpenHow, SecParmsView,
};
use crate::octets;
use crate::protocol::opcode;
use crate::protocol::{ClientId, Fattr4, StateId, StateIdView};
use crate::text;
use crate::xdr;
use crate::xdr::{XdrDecoder, XdrError};

verus! {

/// Law: an operation says what it holds.
pub proof fn an_operation_says_what_it_holds(op: Operation)
    ensures
        op is PutRootFh ==> op@ is PutRootFh,
        op matches Operation::PutFh(x) ==> op@ == OperationView::PutFh(x@),
        op is GetFh ==> op@ is GetFh,
        op is SaveFh ==> op@ is SaveFh,
        op is RestoreFh ==> op@ is RestoreFh,
        op is PutPubFh ==> op@ is PutPubFh,
        op matches Operation::Lookup(x) ==> op@ == OperationView::Lookup(x@),
        op is LookupP ==> op@ is LookupP,
        op matches Operation::ReadDir { cookie, cookieverf, dircount, maxcount, attr_request } ==> op@ == (OperationView::ReadDir { cookie, cookieverf: cookieverf@, dircount, maxcount, attr_request: attr_request@ }),
        op matches Operation::Open { seqid, share_access, share_deny, owner, openhow, claim } ==> op@ == (OperationView::Open { seqid, share_access, share_deny, owner: owner@, openhow: openhow@, claim: claim@ }),
        op matches Operation::Close { seqid, stateid } ==> op@ == (OperationView::Close { seqid, stateid: stateid@ }),
        op matches Operation::OpenDowngrade { stateid, seqid, share_access, share_deny } ==> op@ == (OperationView::OpenDowngrade { stateid: stateid@, seqid, share_access, share_deny }),
        op matches Operation::Read { stateid, offset, count } ==> op@ == (OperationView::Read { stateid: stateid@, offset, count }),
        op matches Operation::Write { stateid, offset, stable, data } ==> op@ == (OperationView::Write { stateid: stateid@, offset, stable, data: octets::bytes_of(data) }),
        op matches Operation::Commit { offset, count } ==> op@ == (OperationView::Commit { offset, count }),
        op matches Operation::DelegPurge { clientid } ==> op@ == (OperationView::DelegPurge { clientid }),
        op matches Operation::DelegReturn { stateid } ==> op@ == (OperationView::DelegReturn { stateid: stateid@ }),
        op matches Operation::GetAttr(x) ==> op@ == OperationView::GetAttr(x@),
        op matches Operation::SetAttr { stateid, attrs } ==> op@ == (OperationView::SetAttr { stateid: stateid@, attrs: octets::bytes_of(attrs) }),
        op matches Operation::Verify { attrs } ==> op@ == (OperationView::Verify { attrs: octets::bytes_of(attrs) }),
        op matches Operation::Nverify { attrs } ==> op@ == (OperationView::Nverify { attrs: octets::bytes_of(attrs) }),
        op matches Operation::Access(x) ==> op@ == OperationView::Access(x),
        op matches Operation::Create { objtype, objname, linkdata, createattrs } ==> op@ == (OperationView::Create { objtype, objname: objname@, linkdata: opt_string_view(linkdata), createattrs: createattrs@ }),
        op matches Operation::Remove(x) ==> op@ == OperationView::Remove(x@),
        op matches Operation::Rename { oldname, newname } ==> op@ == (OperationView::Rename { oldname: oldname@, newname: newname@ }),
        op matches Operation::Link(x) ==> op@ == OperationView::Link(x@),
        op is ReadLink ==> op@ is ReadLink,
        op matches Operation::ExchangeId { clientowner, flags, state_protect, impl_id } ==> op@ == (OperationView::ExchangeId { clientowner: clientowner@, flags, state_protect, impl_id: impl_id@ }),
        op matches Operation::CreateSession { clientid, sequence, flags, fore_chan_attrs, back_chan_attrs, cb_program, cb_sec } ==> op@ == (OperationView::CreateSession { clientid, sequence, flags, fore_chan_attrs: fore_chan_attrs@, back_chan_attrs: back_chan_attrs@, cb_program, cb_sec: xdr::views(cb_sec@) }),
        op matches Operation::BackchannelCtl { cb_program, cb_sec } ==> op@ == (OperationView::BackchannelCtl { cb_program, cb_sec: xdr::views(cb_sec@) }),
        op matches Operation::DestroySession(x) ==> op@ == OperationView::DestroySession(x@),
        op matches Operation::DestroyClientId(x) ==> op@ == OperationView::DestroyClientId(x),
        op matches Operation::BindConnToSession { sessionid, dir, use_conn_in_rdma_mode } ==> op@ == (OperationView::BindConnToSession { sessionid: sessionid@, dir, use_conn_in_rdma_mode }),
        op matches Operation::Sequence { sessionid, sequenceid, slotid, highest_slotid, cachethis } ==> op@ == (OperationView::Sequence { sessionid: sessionid@, sequenceid, slotid, highest_slotid, cachethis }),
        op matches Operation::ReclaimComplete(x) ==> op@ == OperationView::ReclaimComplete(x),
        op matches Operation::SecInfo(x) ==> op@ == OperationView::SecInfo(x@),
        op matches Operation::SecInfoNoName(x) ==> op@ == OperationView::SecInfoNoName(x),
        op matches Operation::TestStateId(x) ==> op@ == OperationView::TestStateId(xdr::views(x@)),
        op matches Operation::FreeStateId(x) ==> op@ == OperationView::FreeStateId(x@),
        op matches Operation::Lock { locktype, reclaim, offset, length, stateid, owner, new_lock_owner } ==> op@ == (OperationView::Lock { locktype, reclaim, offset, length, stateid: stateid@, owner: owner@, new_lock_owner }),
        op matches Operation::LockT { locktype, offset, length, owner } ==> op@ == (OperationView::LockT { locktype, offset, length, owner: owner@ }),
        op matches Operation::LockU { locktype, seqid, stateid, offset, length } ==> op@ == (OperationView::LockU { locktype, seqid, stateid: stateid@, offset, length }),
        op matches Operation::Allocate { stateid, offset, length } ==> op@ == (OperationView::Allocate { stateid: stateid@, offset, length }),
        op matches Operation::Deallocate { stateid, offset, length } ==> op@ == (OperationView::Deallocate { stateid: stateid@, offset, length }),
        op matches Operation::Seek { stateid, offset, what } ==> op@ == (OperationView::Seek { stateid: stateid@, offset, what }),
        op matches Operation::Copy { src_stateid, dst_stateid, src_offset, dst_offset, count, consecutive, synchronous, source_server_count } ==> op@ == (OperationView::Copy { src_stateid: src_stateid@, dst_stateid: dst_stateid@, src_offset, dst_offset, count, consecutive, synchronous, source_server_count }),
        op matches Operation::Clone { src_stateid, dst_stateid, src_offset, dst_offset, count } ==> op@ == (OperationView::Clone { src_stateid: src_stateid@, dst_stateid: dst_stateid@, src_offset, dst_offset, count }),
        op matches Operation::ReadPlus { stateid, offset, count } ==> op@ == (OperationView::ReadPlus { stateid: stateid@, offset, count }),
        op matches Operation::IoAdvise { stateid, offset, count, hints } ==> op@ == (OperationView::IoAdvise { stateid: stateid@, offset, count, hints }),
        op matches Operation::LayoutGet { signal_layout_avail, layout_type, iomode, offset, length, minlength, stateid, maxcount } ==> op@ == (OperationView::LayoutGet { signal_layout_avail, layout_type, iomode, offset, length, minlength, stateid: stateid@, maxcount }),
        op matches Operation::GetDeviceInfo { device_id, layout_type, maxcount, notify_types } ==> op@ == (OperationView::GetDeviceInfo { device_id: device_id@, layout_type, maxcount, notify_types: notify_types@ }),
        op matches Operation::LayoutReturn { reclaim, layout_type, iomode, return_body } ==> op@ == (OperationView::LayoutReturn { reclaim, layout_type, iomode, return_body: return_body@ }),
        op matches Operation::LayoutCommit { offset, length, reclaim, stateid, last_write_offset, time_modify, layout_type, layoutupdate } ==> op@ == (OperationView::LayoutCommit { offset, length, reclaim, stateid: stateid@, last_write_offset, time_modify, layout_type, layoutupdate: octets::bytes_of(layoutupdate) }),
        op matches Operation::Unsupported(x) ==> op@ == OperationView::Unsupported(x),
        op matches Operation::InvalidName(x) ==> op@ == OperationView::InvalidName(x),
        op matches Operation::BadXdr(x) ==> op@ == OperationView::BadXdr(x),
{
}

/// Law: the parts of an operation say what they hold.
pub proof fn the_parts_say_what_they_hold(
    stateid: StateId,
    client: ClientId,
    fattr: Fattr4,
    how: OpenHow,
    claim: OpenClaim,
    channel: ChannelAttrs,
    body: LayoutReturn4Body,
    parms: CallbackSecParms,
)
    ensures
        stateid@.seqid == stateid.seqid && stateid@.other == stateid.other@,
        client@.verifier == client.verifier && client@.id == client.id@,
        fattr@.attrmask == fattr.attrmask@ && fattr@.attr_vals == fattr.attr_vals@,
        how@.createmode == how.createmode && how@.attrmask == how.attrmask@,
        how.attrs is None ==> how@.attrs is None,
        how.attrs matches Some(b) ==> how@.attrs == Some(octets::bytes_of(b)),
        claim@.claim_type == claim.claim_type && claim@.file == claim.file@,
        claim@.delegate_type == claim.delegate_type,
        claim.delegate_stateid is None ==> claim@.delegate_stateid is None,
        claim.delegate_stateid matches Some(s) ==> claim@.delegate_stateid == Some(s@),
        channel@.header_pad_size == channel.header_pad_size,
        channel@.max_request_size == channel.max_request_size,
        channel@.max_response_size == channel.max_response_size,
        channel@.max_response_size_cached == channel.max_response_size_cached,
        channel@.max_operations == channel.max_operations,
        channel@.max_requests == channel.max_requests,
        channel@.rdma_ird == channel.rdma_ird@,
        body matches LayoutReturn4Body::File { offset, length, stateid, body: b } ==> body@ == (
        LayoutReturnView::File { offset, length, stateid: stateid@, body: octets::bytes_of(b) }),
        body is Fsid ==> body@ is Fsid,
        body is All ==> body@ is All,
        parms is AuthNone ==> parms@ is AuthNone,
        parms matches CallbackSecParms::Sys { stamp, machinename, uid, gid, gids } ==> parms@ == (
        SecParmsView::Sys { stamp, machinename: machinename@, uid, gid, gids: gids@ }),
        parms is Gss ==> parms@ is Gss,
{
}

// ---------------------------------------------------------------------------
// Names that are not text
// ---------------------------------------------------------------------------

/// A name that the protocol does not admit: octets that are not UTF-8, or that spell
/// what is no character.
pub open spec fn is_no_name(d: Seq<u8>) -> bool {
    d.len() <= u32::MAX && !(valid_utf8(d) && text::is_utf8str_cs(decode_utf8(d)))
}

/// Law: a name that the protocol does not admit makes LOOKUP, REMOVE, LINK and RENAME
/// invalid, under their number, and what stands behind is read all the same. A RENAME is
/// invalid by either of its names.
pub proof fn what_is_no_name_is_said_to_be_so(d: Seq<u8>, other: Seq<u8>, t: Seq<u8>)
    requires
        is_no_name(d),
        other.len() <= u32::MAX,
    ensures
        forall|op: u32|
            op == opcode::LOOKUP || op == opcode::REMOVE || op == opcode::LINK
                ==> #[trigger] grammar::parse_operation(xdr::wire_opaque(d) + t, op) == (
                Ok::<OperationView, XdrError>(OperationView::InvalidName(op)),
                t,
            ),
        grammar::parse_operation(
            xdr::wire_opaque(d) + (xdr::wire_opaque(other) + t),
            opcode::RENAME,
        ) == (Ok::<OperationView, XdrError>(OperationView::InvalidName(opcode::RENAME)), t),
        grammar::parse_operation(
            xdr::wire_opaque(other) + (xdr::wire_opaque(d) + t),
            opcode::RENAME,
        ) == (Ok::<OperationView, XdrError>(OperationView::InvalidName(opcode::RENAME)), t),
{
    assert(grammar::parse_component(xdr::wire_opaque(d) + t) == (
        Ok::<Option<Seq<char>>, XdrError>(None),
        t,
    )) by {
        xdr::opaque_round_trip(d, t);
    }
    let s1 = xdr::wire_opaque(other) + t;
    let s2 = xdr::wire_opaque(d) + t;
    xdr::opaque_round_trip(d, s1);
    xdr::opaque_round_trip(d, t);
    xdr::opaque_round_trip(other, s2);
    xdr::opaque_round_trip(other, t);
    reveal(grammar::parse_operation);
}

/// Law: text is exactly what has no noncharacter in it: none of U+FDD0 to U+FDEF, and
/// none whose last sixteen bits are FFFE or FFFF.
pub proof fn text_has_no_noncharacter(s: Seq<char>)
    ensures
        text::is_utf8str_cs(s) <==> forall|i: int|
            0 <= i < s.len() ==> !(0xfdd0 <= (#[trigger] s[i]) as u32 <= 0xfdef) && s[i] as u32
                % 0x10000 < 0xfffe,
{
    if text::is_utf8str_cs(s) {
        assert forall|i: int| 0 <= i < s.len() implies !(0xfdd0 <= (#[trigger] s[i]) as u32
            <= 0xfdef) && s[i] as u32 % 0x10000 < 0xfffe by {
            assert(!text::is_noncharacter(s[i]));
        }
    }
}

// ---------------------------------------------------------------------------
// The request as a whole
// ---------------------------------------------------------------------------

/// Law: an operation is its number and its arguments. Arguments that do not parse make
/// it malformed, under its number; a number that no operation has, and one that this
/// server has no reader for, stand for themselves.
pub proof fn an_operation_is_its_number_and_arguments(op: u32, s: Seq<u8>)
    ensures
        grammar::parse_operation(s, op).0 matches Ok(v) ==> request::parse_next(octets::be32(op) + s)
            == (Ok::<OperationView, XdrError>(v), grammar::parse_operation(s, op).1),
        grammar::parse_operation(s, op).0 is Err ==> request::parse_next(octets::be32(op) + s).0
            == Ok::<OperationView, XdrError>(OperationView::BadXdr(op)),
        op < 3 || op > 71 || op == 19 || op == 20 || op == 30 || op == 35 || op == 36 || op == 39
            || op == 46 || op == 48 || op == 54 || op == 56 || op == 61 || 64 <= op <= 67 || op == 70
            ==> grammar::parse_operation(s, op) == (
            Ok::<OperationView, XdrError>(OperationView::Unsupported(op)),
            s,
        ),
{
    xdr::u32_round_trip(op, s);
    reveal(grammar::parse_operation);
}

/// Law: operations are read in order, one behind the other, as many as were announced;
/// one that is malformed or that nobody has is the last.
pub proof fn operations_are_read_in_order(op: u32, s: Seq<u8>, v: OperationView, t: Seq<u8>, n: nat)
    requires
        grammar::parse_operation(s, op) == (Ok::<OperationView, XdrError>(v), t),
    ensures
        request::parse_operations(s, 0) == (
            Ok::<Seq<OperationView>, XdrError>(Seq::empty()),
            s,
        ),
        !(v is Unsupported) && !(v is BadXdr) ==> (request::parse_operations(t, n).0 matches Ok(rest)
            ==> request::parse_operations(octets::be32(op) + s, n + 1) == (
            Ok::<Seq<OperationView>, XdrError>(seq![v] + rest),
            request::parse_operations(t, n).1,
        )),
        v is Unsupported ==> request::parse_operations(octets::be32(op) + s, n + 1) == (
            Ok::<Seq<OperationView>, XdrError>(seq![v]),
            t,
        ),
{
    xdr::u32_round_trip(op, s);
}

/// Law: a request is a tag, a minor version, the number of operations and the operations.
/// A tag that is UTF-8 is taken as it is, and a minor version above 2 comes without
/// operations.
pub proof fn a_request_is_tag_version_and_operations(
    tag: Seq<u8>,
    minor_version: u32,
    n: u32,
    s: Seq<u8>,
    ops: Seq<OperationView>,
)
    requires
        tag.len() <= u32::MAX,
        n * 4 <= s.len(),
        request::parse_operations(s, n as nat).0 == Ok::<Seq<OperationView>, XdrError>(ops),
    ensures
        ({
            let q = request::parse_request(
                xdr::wire_opaque(tag) + (octets::be32(minor_version) + (octets::be32(n) + s)),
            ).0;
            q matches Ok(v) && v.minor_version == minor_version && v.tag == text::utf8_lossy(tag) && (
            v.tag_valid <==> valid_utf8(tag) && text::is_utf8str_cs(decode_utf8(tag))) && (
            minor_version <= 2 ==> v.operations == ops) && (minor_version > 2
                ==> v.operations.len() == 0)
        }),
{
    let s2 = octets::be32(n) + s;
    xdr::opaque_round_trip(tag, octets::be32(minor_version) + s2);
    xdr::u32_round_trip(minor_version, s2);
    xdr::u32_round_trip(n, s);
}

/// Law: the sources of a COPY are counted and skipped: a name and a URL are a string, a
/// network address is two. More than 1024 are refused.
pub proof fn the_sources_of_a_copy_are_counted(
    n: u32,
    name: Seq<char>,
    addr: Seq<char>,
    s: Seq<u8>,
)
    requires
        encode_utf8(name).len() <= u32::MAX,
        encode_utf8(addr).len() <= u32::MAX,
    ensures
        grammar::parse_netloc(octets::be32(1) + (xdr::wire_string(name) + s)) == (
            Ok::<(), XdrError>(()),
            s,
        ),
        grammar::parse_netloc(octets::be32(2) + (xdr::wire_string(name) + s)) == (
            Ok::<(), XdrError>(()),
            s,
        ),
        grammar::parse_netloc(
            octets::be32(3) + (xdr::wire_string(name) + (xdr::wire_string(addr) + s)),
        ) == (Ok::<(), XdrError>(()), s),
        n > 1024 ==> grammar::parse_netlocs(octets::be32(n) + s).0 is Err,
        n <= 1024 && grammar::parse_netloc_list(s, n as nat).0 is Ok ==> grammar::parse_netlocs(
            octets::be32(n) + s,
        ) == (Ok::<u32, XdrError>(n), grammar::parse_netloc_list(s, n as nat).1),
{
    broadcast use {xdr::u32_round_trip, xdr::string_round_trip};

}

/// Law: a further source of a COPY is skipped before the others.
pub proof fn each_source_of_a_copy_is_skipped(first: Seq<u8>, s: Seq<u8>, n: nat)
    requires
        grammar::parse_netloc(first + s) == (Ok::<(), XdrError>(()), s),
    ensures
        grammar::parse_netloc_list(s, 0) == (Ok::<(), XdrError>(()), s),
        grammar::parse_netloc_list(first + s, n + 1) == grammar::parse_netloc_list(s, n),
{
}

/// Law: decoding a RENAME gives the name that comes first as the old one and the name that
/// comes second as the new one, and stops behind them.
pub proof fn decoding_a_rename_keeps_the_names_apart(
    d: &mut XdrDecoder,
    oldname: Seq<char>,
    newname: Seq<char>,
    t: Seq<u8>,
    r: Result<Operation, XdrError>,
)
    requires
        call_ensures(decode::decode_operation, (d, 29u32), r),
        old(d)@ == xdr::wire_string(oldname) + (xdr::wire_string(newname) + t),
        encode_utf8(oldname).len() <= u32::MAX,
        text::is_utf8str_cs(oldname),
        encode_utf8(newname).len() <= u32::MAX,
        text::is_utf8str_cs(newname),
    ensures
        r is Ok,
        r->Ok_0@ == (OperationView::Rename { oldname, newname }),
        final(d)@ == t,
{
    argument_laws::a_rename_says_the_old_name_first(oldname, newname, t);
}

/// Law: decoding a WRITE gives the stateid, the offset, the stability and the data in the
/// order in which they come.
pub proof fn decoding_a_write_keeps_its_arguments_apart(
    d: &mut XdrDecoder,
    stateid: StateIdView,
    offset: u64,
    stable: u32,
    data: Seq<u8>,
    t: Seq<u8>,
    r: Result<Operation, XdrError>,
)
    requires
        call_ensures(decode::decode_operation, (d, 38u32), r),
        old(d)@ == xdr::wire_stateid(stateid) + (octets::be64(offset) + (octets::be32(stable) + (
        xdr::wire_opaque(data) + t))),
        stateid.other.len() == 12,
        data.len() <= u32::MAX,
    ensures
        r is Ok,
        r->Ok_0@ == (OperationView::Write { stateid, offset, stable, data }),
        final(d)@ == t,
{
    argument_laws::a_write_says_where_and_what(stateid, offset, stable, data, t);
}

} // verus!
