//! What the octets of each operation say: its arguments, written one after the
//! other with `t` behind them, are read back as the operation with those arguments,
//! and `t` is then ahead.
use vstd::prelude::*;
use vstd::utf8::*;

use crate::compound::grammar;
use crate::compound::ops::OperationView;
use crate::compound::types::{
    ChannelAttrsView, ClientIdView, Fattr4View, LayoutReturnView, OpenClaimView, OpenHowView,
    SecParmsView,
};
use crate::octets;
use crate::protocol::opcode;
use crate::protocol::{Nfs4FileType, StateIdView};
use crate::text;
use crate::xdr;
use crate::xdr::XdrError;

verus! {

// ---------------------------------------------------------------------------
// Filehandles and names
// ---------------------------------------------------------------------------

/// Law: these operations have a number and no arguments.
pub proof fn an_operation_without_arguments_takes_nothing(t: Seq<u8>)
    ensures
        grammar::parse_operation(t, opcode::PUTROOTFH) == (
            Ok::<OperationView, XdrError>(OperationView::PutRootFh),
            t,
        ),
        grammar::parse_operation(t, opcode::PUTPUBFH) == (
            Ok::<OperationView, XdrError>(OperationView::PutPubFh),
            t,
        ),
        grammar::parse_operation(t, opcode::GETFH) == (
            Ok::<OperationView, XdrError>(OperationView::GetFh),
            t,
        ),
        grammar::parse_operation(t, opcode::SAVEFH) == (
            Ok::<OperationView, XdrError>(OperationView::SaveFh),
            t,
        ),
        grammar::parse_operation(t, opcode::RESTOREFH) == (
            Ok::<OperationView, XdrError>(OperationView::RestoreFh),
            t,
        ),
        grammar::parse_operation(t, opcode::LOOKUPP) == (
            Ok::<OperationView, XdrError>(OperationView::LookupP),
            t,
        ),
        grammar::parse_operation(t, opcode::READLINK) == (
            Ok::<OperationView, XdrError>(OperationView::ReadLink),
            t,
        ),
{
    reveal(grammar::parse_operation);
}

/// Law: PUTFH is the filehandle.
pub proof fn a_putfh_says_the_filehandle(
    fh: Seq<u8>,
    t: Seq<u8>,
)
    requires
        fh.len() <= u32::MAX,
    ensures
        grammar::parse_operation(
            xdr::wire_opaque(fh) + t,
            opcode::PUTFH,
        ) == (
            Ok::<OperationView, XdrError>(
                OperationView::PutFh(fh),
            ),
            t,
        ),
{
    let s = xdr::wire_opaque(fh) + t;
    assert(grammar::parse_operation(s, opcode::PUTFH) == grammar::parse_putfh(s)) by {
        reveal(grammar::parse_operation);
    }
    xdr::opaque_round_trip(fh, t);
}

/// Law: LOOKUP is the name to look up.
pub proof fn a_lookup_says_the_name(
    name: Seq<char>,
    t: Seq<u8>,
)
    requires
        encode_utf8(name).len() <= u32::MAX,
        text::is_utf8str_cs(name),
    ensures
        grammar::parse_operation(
            xdr::wire_string(name) + t,
            opcode::LOOKUP,
        ) == (
            Ok::<OperationView, XdrError>(
                OperationView::Lookup(name),
            ),
            t,
        ),
{
    reveal(grammar::parse_operation);
    lemma_component(name, t);
}

/// Law: REMOVE is the name to remove.
pub proof fn a_remove_says_the_name(
    name: Seq<char>,
    t: Seq<u8>,
)
    requires
        encode_utf8(name).len() <= u32::MAX,
        text::is_utf8str_cs(name),
    ensures
        grammar::parse_operation(
            xdr::wire_string(name) + t,
            opcode::REMOVE,
        ) == (
            Ok::<OperationView, XdrError>(
                OperationView::Remove(name),
            ),
            t,
        ),
{
    reveal(grammar::parse_operation);
    lemma_component(name, t);
}

/// Law: LINK is the name that the file gets.
pub proof fn a_link_says_the_new_name(
    name: Seq<char>,
    t: Seq<u8>,
)
    requires
        encode_utf8(name).len() <= u32::MAX,
        text::is_utf8str_cs(name),
    ensures
        grammar::parse_operation(
            xdr::wire_string(name) + t,
            opcode::LINK,
        ) == (
            Ok::<OperationView, XdrError>(
                OperationView::Link(name),
            ),
            t,
        ),
{
    reveal(grammar::parse_operation);
    lemma_component(name, t);
}

/// Law: RENAME is the name that a file has, and then the name that it gets.
pub proof fn a_rename_says_the_old_name_first(
    oldname: Seq<char>,
    newname: Seq<char>,
    t: Seq<u8>,
)
    requires
        encode_utf8(oldname).len() <= u32::MAX,
        text::is_utf8str_cs(oldname),
        encode_utf8(newname).len() <= u32::MAX,
        text::is_utf8str_cs(newname),
    ensures
        grammar::parse_operation(
            xdr::wire_string(oldname) + (xdr::wire_string(newname) + t),
            opcode::RENAME,
        ) == (
            Ok::<OperationView, XdrError>(
                OperationView::Rename { oldname, newname },
            ),
            t,
        ),
{
    let s = xdr::wire_string(oldname) + (xdr::wire_string(newname) + t);
    assert(grammar::parse_operation(s, opcode::RENAME) == grammar::parse_rename(s)) by {
        reveal(grammar::parse_operation);
    }
    let s1 = xdr::wire_string(newname) + t;
    lemma_component(oldname, s1);
    lemma_component(newname, t);
}

/// Law: READDIR is the cookie and the verifier to go on from, the two limits,
/// for names alone and for the whole reply, and the attributes that are wanted.
pub proof fn a_readdir_says_where_to_go_on(
    cookie: u64,
    cookieverf: Seq<u8>,
    dircount: u32,
    maxcount: u32,
    attr_request: Seq<u32>,
    t: Seq<u8>,
)
    requires
        cookieverf.len() == 8,
        attr_request.len() <= u32::MAX,
    ensures
        grammar::parse_operation(
            octets::be64(cookie) + (xdr::wire_fixed(cookieverf) + (octets::be32(dircount) + (octets::be32(maxcount) + (xdr::wire_bitmap(attr_request) + t)))),
            opcode::READDIR,
        ) == (
            Ok::<OperationView, XdrError>(
                OperationView::ReadDir { cookie, cookieverf, dircount, maxcount, attr_request },
            ),
            t,
        ),
{
    let s = octets::be64(cookie) + (xdr::wire_fixed(cookieverf) + (octets::be32(dircount) + (octets::be32(maxcount) + (xdr::wire_bitmap(attr_request) + t))));
    assert(grammar::parse_operation(s, opcode::READDIR) == grammar::parse_readdir(s)) by {
        reveal(grammar::parse_operation);
    }
    let s4 = xdr::wire_bitmap(attr_request) + t;
    let s3 = octets::be32(maxcount) + s4;
    let s2 = octets::be32(dircount) + s3;
    let s1 = xdr::wire_fixed(cookieverf) + s2;
    xdr::u64_round_trip(cookie, s1);
    xdr::fixed_round_trip(cookieverf, 8, s2);
    xdr::u32_round_trip(dircount, s3);
    xdr::u32_round_trip(maxcount, s4);
    xdr::bitmap_round_trip(attr_request, t);
}

// ---------------------------------------------------------------------------
// Attributes
// ---------------------------------------------------------------------------

/// Law: GETATTR is the bitmap of the attributes that are wanted.
pub proof fn a_getattr_says_what_is_wanted(
    mask: Seq<u32>,
    t: Seq<u8>,
)
    requires
        mask.len() <= u32::MAX,
    ensures
        grammar::parse_operation(
            xdr::wire_bitmap(mask) + t,
            opcode::GETATTR,
        ) == (
            Ok::<OperationView, XdrError>(
                OperationView::GetAttr(mask),
            ),
            t,
        ),
{
    let s = xdr::wire_bitmap(mask) + t;
    assert(grammar::parse_operation(s, opcode::GETATTR) == grammar::parse_getattr(s)) by {
        reveal(grammar::parse_operation);
    }
    xdr::bitmap_round_trip(mask, t);
}

/// Law: ACCESS is the rights that are asked about.
pub proof fn an_access_says_the_rights(
    bits: u32,
    t: Seq<u8>,
)
    ensures
        grammar::parse_operation(
            octets::be32(bits) + t,
            opcode::ACCESS,
        ) == (
            Ok::<OperationView, XdrError>(
                OperationView::Access(bits),
            ),
            t,
        ),
{
    let s = octets::be32(bits) + t;
    assert(grammar::parse_operation(s, opcode::ACCESS) == grammar::parse_access(s)) by {
        reveal(grammar::parse_operation);
    }
    xdr::u32_round_trip(bits, t);
}

/// Law: SETATTR is a stateid and the attributes to set, which are kept as one
/// blob.
pub proof fn a_setattr_says_what_to_set(
    stateid: StateIdView,
    attrmask: Seq<u32>,
    attr_vals: Seq<u8>,
    t: Seq<u8>,
)
    requires
        stateid.other.len() == 12,
        attrmask.len() <= u32::MAX,
        attr_vals.len() <= u32::MAX,
    ensures
        grammar::parse_operation(
            xdr::wire_stateid(stateid) + (xdr::wire_bitmap(attrmask) + (xdr::wire_opaque(attr_vals) + t)),
            opcode::SETATTR,
        ) == (
            Ok::<OperationView, XdrError>(
                OperationView::SetAttr { stateid, attrs: grammar::pack_fattr(attrmask, attr_vals) },
            ),
            t,
        ),
{
    let s = xdr::wire_stateid(stateid) + (xdr::wire_bitmap(attrmask) + (xdr::wire_opaque(attr_vals) + t));
    assert(grammar::parse_operation(s, opcode::SETATTR) == grammar::parse_setattr(s)) by {
        reveal(grammar::parse_operation);
    }
    let s2 = xdr::wire_opaque(attr_vals) + t;
    let s1 = xdr::wire_bitmap(attrmask) + s2;
    xdr::stateid_round_trip(stateid, s1);
    xdr::bitmap_round_trip(attrmask, s2);
    xdr::opaque_round_trip(attr_vals, t);
}

/// Law: VERIFY is the attributes to compare with, which are kept as one blob.
pub proof fn a_verify_says_what_to_compare(
    attrmask: Seq<u32>,
    attr_vals: Seq<u8>,
    t: Seq<u8>,
)
    requires
        attrmask.len() <= u32::MAX,
        attr_vals.len() <= u32::MAX,
    ensures
        grammar::parse_operation(
            xdr::wire_bitmap(attrmask) + (xdr::wire_opaque(attr_vals) + t),
            opcode::VERIFY,
        ) == (
            Ok::<OperationView, XdrError>(
                OperationView::Verify { attrs: grammar::pack_fattr(attrmask, attr_vals) },
            ),
            t,
        ),
{
    let s = xdr::wire_bitmap(attrmask) + (xdr::wire_opaque(attr_vals) + t);
    assert(grammar::parse_operation(s, opcode::VERIFY) == grammar::parse_verify(s)) by {
        reveal(grammar::parse_operation);
    }
    let s1 = xdr::wire_opaque(attr_vals) + t;
    xdr::bitmap_round_trip(attrmask, s1);
    xdr::opaque_round_trip(attr_vals, t);
}

/// Law: NVERIFY is the attributes to compare with, which are kept as one blob.
pub proof fn an_nverify_says_what_to_compare(
    attrmask: Seq<u32>,
    attr_vals: Seq<u8>,
    t: Seq<u8>,
)
    requires
        attrmask.len() <= u32::MAX,
        attr_vals.len() <= u32::MAX,
    ensures
        grammar::parse_operation(
            xdr::wire_bitmap(attrmask) + (xdr::wire_opaque(attr_vals) + t),
            opcode::NVERIFY,
        ) == (
            Ok::<OperationView, XdrError>(
                OperationView::Nverify { attrs: grammar::pack_fattr(attrmask, attr_vals) },
            ),
            t,
        ),
{
    let s = xdr::wire_bitmap(attrmask) + (xdr::wire_opaque(attr_vals) + t);
    assert(grammar::parse_operation(s, opcode::NVERIFY) == grammar::parse_nverify(s)) by {
        reveal(grammar::parse_operation);
    }
    let s1 = xdr::wire_opaque(attr_vals) + t;
    xdr::bitmap_round_trip(attrmask, s1);
    xdr::opaque_round_trip(attr_vals, t);
}

// ---------------------------------------------------------------------------
// Reading and writing
// ---------------------------------------------------------------------------

/// Law: READ is a stateid, the offset to read from and the number of octets to
/// read.
pub proof fn a_read_says_where_and_how_much(
    stateid: StateIdView,
    offset: u64,
    count: u32,
    t: Seq<u8>,
)
    requires
        stateid.other.len() == 12,
    ensures
        grammar::parse_operation(
            xdr::wire_stateid(stateid) + (octets::be64(offset) + (octets::be32(count) + t)),
            opcode::READ,
        ) == (
            Ok::<OperationView, XdrError>(
                OperationView::Read { stateid, offset, count },
            ),
            t,
        ),
{
    let s = xdr::wire_stateid(stateid) + (octets::be64(offset) + (octets::be32(count) + t));
    assert(grammar::parse_operation(s, opcode::READ) == grammar::parse_read(s)) by {
        reveal(grammar::parse_operation);
    }
    let s2 = octets::be32(count) + t;
    let s1 = octets::be64(offset) + s2;
    xdr::stateid_round_trip(stateid, s1);
    xdr::u64_round_trip(offset, s2);
    xdr::u32_round_trip(count, t);
}

/// Law: WRITE is a stateid, the offset to write at, how stable the data has to
/// be, and the data.
pub proof fn a_write_says_where_and_what(
    stateid: StateIdView,
    offset: u64,
    stable: u32,
    data: Seq<u8>,
    t: Seq<u8>,
)
    requires
        stateid.other.len() == 12,
        data.len() <= u32::MAX,
    ensures
        grammar::parse_operation(
            xdr::wire_stateid(stateid) + (octets::be64(offset) + (octets::be32(stable) + (xdr::wire_opaque(data) + t))),
            opcode::WRITE,
        ) == (
            Ok::<OperationView, XdrError>(
                OperationView::Write { stateid, offset, stable, data },
            ),
            t,
        ),
{
    let s = xdr::wire_stateid(stateid) + (octets::be64(offset) + (octets::be32(stable) + (xdr::wire_opaque(data) + t)));
    assert(grammar::parse_operation(s, opcode::WRITE) == grammar::parse_write(s)) by {
        reveal(grammar::parse_operation);
    }
    let s3 = xdr::wire_opaque(data) + t;
    let s2 = octets::be32(stable) + s3;
    let s1 = octets::be64(offset) + s2;
    xdr::stateid_round_trip(stateid, s1);
    xdr::u64_round_trip(offset, s2);
    xdr::u32_round_trip(stable, s3);
    xdr::opaque_round_trip(data, t);
}

/// Law: COMMIT is an offset and a number of octets.
pub proof fn a_commit_says_the_range(
    offset: u64,
    count: u32,
    t: Seq<u8>,
)
    ensures
        grammar::parse_operation(
            octets::be64(offset) + (octets::be32(count) + t),
            opcode::COMMIT,
        ) == (
            Ok::<OperationView, XdrError>(
                OperationView::Commit { offset, count },
            ),
            t,
        ),
{
    let s = octets::be64(offset) + (octets::be32(count) + t);
    assert(grammar::parse_operation(s, opcode::COMMIT) == grammar::parse_commit(s)) by {
        reveal(grammar::parse_operation);
    }
    let s1 = octets::be32(count) + t;
    xdr::u64_round_trip(offset, s1);
    xdr::u32_round_trip(count, t);
}

/// Law: READ_PLUS is a stateid, the offset to read from and the number of
/// octets to read.
pub proof fn a_read_plus_says_where_and_how_much(
    stateid: StateIdView,
    offset: u64,
    count: u32,
    t: Seq<u8>,
)
    requires
        stateid.other.len() == 12,
    ensures
        grammar::parse_operation(
            xdr::wire_stateid(stateid) + (octets::be64(offset) + (octets::be32(count) + t)),
            opcode::READ_PLUS,
        ) == (
            Ok::<OperationView, XdrError>(
                OperationView::ReadPlus { stateid, offset, count },
            ),
            t,
        ),
{
    let s = xdr::wire_stateid(stateid) + (octets::be64(offset) + (octets::be32(count) + t));
    assert(grammar::parse_operation(s, opcode::READ_PLUS) == grammar::parse_read_plus(s)) by {
        reveal(grammar::parse_operation);
    }
    let s2 = octets::be32(count) + t;
    let s1 = octets::be64(offset) + s2;
    xdr::stateid_round_trip(stateid, s1);
    xdr::u64_round_trip(offset, s2);
    xdr::u32_round_trip(count, t);
}

/// Law: ALLOCATE is a stateid, an offset and a length.
pub proof fn an_allocate_says_the_range(
    stateid: StateIdView,
    offset: u64,
    length: u64,
    t: Seq<u8>,
)
    requires
        stateid.other.len() == 12,
    ensures
        grammar::parse_operation(
            xdr::wire_stateid(stateid) + (octets::be64(offset) + (octets::be64(length) + t)),
            opcode::ALLOCATE,
        ) == (
            Ok::<OperationView, XdrError>(
                OperationView::Allocate { stateid, offset, length },
            ),
            t,
        ),
{
    let s = xdr::wire_stateid(stateid) + (octets::be64(offset) + (octets::be64(length) + t));
    assert(grammar::parse_operation(s, opcode::ALLOCATE) == grammar::parse_allocate(s)) by {
        reveal(grammar::parse_operation);
    }
    let s2 = octets::be64(length) + t;
    let s1 = octets::be64(offset) + s2;
    xdr::stateid_round_trip(stateid, s1);
    xdr::u64_round_trip(offset, s2);
    xdr::u64_round_trip(length, t);
}

/// Law: DEALLOCATE is a stateid, an offset and a length.
pub proof fn a_deallocate_says_the_range(
    stateid: StateIdView,
    offset: u64,
    length: u64,
    t: Seq<u8>,
)
    requires
        stateid.other.len() == 12,
    ensures
        grammar::parse_operation(
            xdr::wire_stateid(stateid) + (octets::be64(offset) + (octets::be64(length) + t)),
            opcode::DEALLOCATE,
        ) == (
            Ok::<OperationView, XdrError>(
                OperationView::Deallocate { stateid, offset, length },
            ),
            t,
        ),
{
    let s = xdr::wire_stateid(stateid) + (octets::be64(offset) + (octets::be64(length) + t));
    assert(grammar::parse_operation(s, opcode::DEALLOCATE) == grammar::parse_deallocate(s)) by {
        reveal(grammar::parse_operation);
    }
    let s2 = octets::be64(length) + t;
    let s1 = octets::be64(offset) + s2;
    xdr::stateid_round_trip(stateid, s1);
    xdr::u64_round_trip(offset, s2);
    xdr::u64_round_trip(length, t);
}

/// Law: SEEK is a stateid, the offset to search from and what to search for.
pub proof fn a_seek_says_from_where_for_what(
    stateid: StateIdView,
    offset: u64,
    what: u32,
    t: Seq<u8>,
)
    requires
        stateid.other.len() == 12,
    ensures
        grammar::parse_operation(
            xdr::wire_stateid(stateid) + (octets::be64(offset) + (octets::be32(what) + t)),
            opcode::SEEK,
        ) == (
            Ok::<OperationView, XdrError>(
                OperationView::Seek { stateid, offset, what },
            ),
            t,
        ),
{
    let s = xdr::wire_stateid(stateid) + (octets::be64(offset) + (octets::be32(what) + t));
    assert(grammar::parse_operation(s, opcode::SEEK) == grammar::parse_seek(s)) by {
        reveal(grammar::parse_operation);
    }
    let s2 = octets::be32(what) + t;
    let s1 = octets::be64(offset) + s2;
    xdr::stateid_round_trip(stateid, s1);
    xdr::u64_round_trip(offset, s2);
    xdr::u32_round_trip(what, t);
}

/// Law: IO_ADVISE is a stateid, an offset, a length and the hints.
pub proof fn an_io_advise_says_the_range_and_the_hints(
    stateid: StateIdView,
    offset: u64,
    count: u64,
    hints: u32,
    t: Seq<u8>,
)
    requires
        stateid.other.len() == 12,
    ensures
        grammar::parse_operation(
            xdr::wire_stateid(stateid) + (octets::be64(offset) + (octets::be64(count) + (octets::be32(hints) + t))),
            opcode::IO_ADVISE,
        ) == (
            Ok::<OperationView, XdrError>(
                OperationView::IoAdvise { stateid, offset, count, hints },
            ),
            t,
        ),
{
    let s = xdr::wire_stateid(stateid) + (octets::be64(offset) + (octets::be64(count) + (octets::be32(hints) + t)));
    assert(grammar::parse_operation(s, opcode::IO_ADVISE) == grammar::parse_io_advise(s)) by {
        reveal(grammar::parse_operation);
    }
    let s3 = octets::be32(hints) + t;
    let s2 = octets::be64(count) + s3;
    let s1 = octets::be64(offset) + s2;
    xdr::stateid_round_trip(stateid, s1);
    xdr::u64_round_trip(offset, s2);
    xdr::u64_round_trip(count, s3);
    xdr::u32_round_trip(hints, t);
}

/// Law: CLONE is the stateid of the source and that of the destination, the
/// offset in the source and that in the destination, and the number of octets.
pub proof fn a_clone_says_the_source_first(
    src_stateid: StateIdView,
    dst_stateid: StateIdView,
    src_offset: u64,
    dst_offset: u64,
    count: u64,
    t: Seq<u8>,
)
    requires
        src_stateid.other.len() == 12,
        dst_stateid.other.len() == 12,
    ensures
        grammar::parse_operation(
            xdr::wire_stateid(src_stateid) + (xdr::wire_stateid(dst_stateid) + (octets::be64(src_offset) + (octets::be64(dst_offset) + (octets::be64(count) + t)))),
            opcode::CLONE,
        ) == (
            Ok::<OperationView, XdrError>(
                OperationView::Clone { src_stateid, dst_stateid, src_offset, dst_offset, count },
            ),
            t,
        ),
{
    let s = xdr::wire_stateid(src_stateid) + (xdr::wire_stateid(dst_stateid) + (octets::be64(src_offset) + (octets::be64(dst_offset) + (octets::be64(count) + t))));
    assert(grammar::parse_operation(s, opcode::CLONE) == grammar::parse_clone(s)) by {
        reveal(grammar::parse_operation);
    }
    let s4 = octets::be64(count) + t;
    let s3 = octets::be64(dst_offset) + s4;
    let s2 = octets::be64(src_offset) + s3;
    let s1 = xdr::wire_stateid(dst_stateid) + s2;
    xdr::stateid_round_trip(src_stateid, s1);
    xdr::stateid_round_trip(dst_stateid, s2);
    xdr::u64_round_trip(src_offset, s3);
    xdr::u64_round_trip(dst_offset, s4);
    xdr::u64_round_trip(count, t);
}

/// Law: COPY is the stateid of the source and that of the destination, the
/// offset in the source and that in the destination, the number of octets,
/// whether they are copied in order and whether before the reply, and the
/// servers of the source, of which a copy within this server names none.
#[verifier::rlimit(30)]
pub proof fn a_copy_says_the_source_first(
    src_stateid: StateIdView,
    dst_stateid: StateIdView,
    src_offset: u64,
    dst_offset: u64,
    count: u64,
    consecutive: bool,
    synchronous: bool,
    t: Seq<u8>,
)
    requires
        src_stateid.other.len() == 12,
        dst_stateid.other.len() == 12,
    ensures
        grammar::parse_operation(
            xdr::wire_stateid(src_stateid) + (xdr::wire_stateid(dst_stateid) + (octets::be64(src_offset) + (octets::be64(dst_offset) + (octets::be64(count) + (xdr::wire_bool(consecutive) + (xdr::wire_bool(synchronous) + (octets::be32(0) + t))))))),
            opcode::COPY,
        ) == (
            Ok::<OperationView, XdrError>(
                OperationView::Copy {
                    src_stateid,
                    dst_stateid,
                    src_offset,
                    dst_offset,
                    count,
                    consecutive,
                    synchronous,
                    source_server_count: 0,
                },
            ),
            t,
        ),
{
    let s = xdr::wire_stateid(src_stateid) + (xdr::wire_stateid(dst_stateid) + (octets::be64(src_offset) + (octets::be64(dst_offset) + (octets::be64(count) + (xdr::wire_bool(consecutive) + (xdr::wire_bool(synchronous) + (octets::be32(0) + t)))))));
    assert(grammar::parse_operation(s, opcode::COPY) == grammar::parse_copy(s)) by {
        reveal(grammar::parse_operation);
    }
    let s7 = octets::be32(0) + t;
    let s6 = xdr::wire_bool(synchronous) + s7;
    let s5 = xdr::wire_bool(consecutive) + s6;
    let s4 = octets::be64(count) + s5;
    let s3 = octets::be64(dst_offset) + s4;
    let s2 = octets::be64(src_offset) + s3;
    let s1 = xdr::wire_stateid(dst_stateid) + s2;
    xdr::stateid_round_trip(src_stateid, s1);
    xdr::stateid_round_trip(dst_stateid, s2);
    xdr::u64_round_trip(src_offset, s3);
    xdr::u64_round_trip(dst_offset, s4);
    xdr::u64_round_trip(count, s5);
    xdr::bool_round_trip(consecutive, s6);
    xdr::bool_round_trip(synchronous, s7);
    xdr::u32_round_trip(0, t);
}

// ---------------------------------------------------------------------------
// State
// ---------------------------------------------------------------------------

/// Law: CLOSE is a sequence number and the stateid to close.
pub proof fn a_close_says_the_stateid(
    seqid: u32,
    stateid: StateIdView,
    t: Seq<u8>,
)
    requires
        stateid.other.len() == 12,
    ensures
        grammar::parse_operation(
            octets::be32(seqid) + (xdr::wire_stateid(stateid) + t),
            opcode::CLOSE,
        ) == (
            Ok::<OperationView, XdrError>(
                OperationView::Close { seqid, stateid },
            ),
            t,
        ),
{
    let s = octets::be32(seqid) + (xdr::wire_stateid(stateid) + t);
    assert(grammar::parse_operation(s, opcode::CLOSE) == grammar::parse_close(s)) by {
        reveal(grammar::parse_operation);
    }
    let s1 = xdr::wire_stateid(stateid) + t;
    xdr::u32_round_trip(seqid, s1);
    xdr::stateid_round_trip(stateid, t);
}

/// Law: OPEN_DOWNGRADE is the stateid, a sequence number, the access that is
/// left and what is then denied to others.
pub proof fn an_open_downgrade_says_what_is_left(
    stateid: StateIdView,
    seqid: u32,
    share_access: u32,
    share_deny: u32,
    t: Seq<u8>,
)
    requires
        stateid.other.len() == 12,
    ensures
        grammar::parse_operation(
            xdr::wire_stateid(stateid) + (octets::be32(seqid) + (octets::be32(share_access) + (octets::be32(share_deny) + t))),
            opcode::OPEN_DOWNGRADE,
        ) == (
            Ok::<OperationView, XdrError>(
                OperationView::OpenDowngrade { stateid, seqid, share_access, share_deny },
            ),
            t,
        ),
{
    let s = xdr::wire_stateid(stateid) + (octets::be32(seqid) + (octets::be32(share_access) + (octets::be32(share_deny) + t)));
    assert(grammar::parse_operation(s, opcode::OPEN_DOWNGRADE) == grammar::parse_open_downgrade(s)) by {
        reveal(grammar::parse_operation);
    }
    let s3 = octets::be32(share_deny) + t;
    let s2 = octets::be32(share_access) + s3;
    let s1 = octets::be32(seqid) + s2;
    xdr::stateid_round_trip(stateid, s1);
    xdr::u32_round_trip(seqid, s2);
    xdr::u32_round_trip(share_access, s3);
    xdr::u32_round_trip(share_deny, t);
}

/// Law: DELEGPURGE is the client.
pub proof fn a_delegpurge_says_the_client(
    clientid: u64,
    t: Seq<u8>,
)
    ensures
        grammar::parse_operation(
            octets::be64(clientid) + t,
            opcode::DELEGPURGE,
        ) == (
            Ok::<OperationView, XdrError>(
                OperationView::DelegPurge { clientid },
            ),
            t,
        ),
{
    let s = octets::be64(clientid) + t;
    assert(grammar::parse_operation(s, opcode::DELEGPURGE) == grammar::parse_delegpurge(s)) by {
        reveal(grammar::parse_operation);
    }
    xdr::u64_round_trip(clientid, t);
}

/// Law: DELEGRETURN is the stateid of the delegation.
pub proof fn a_delegreturn_says_the_delegation(
    stateid: StateIdView,
    t: Seq<u8>,
)
    requires
        stateid.other.len() == 12,
    ensures
        grammar::parse_operation(
            xdr::wire_stateid(stateid) + t,
            opcode::DELEGRETURN,
        ) == (
            Ok::<OperationView, XdrError>(
                OperationView::DelegReturn { stateid },
            ),
            t,
        ),
{
    let s = xdr::wire_stateid(stateid) + t;
    assert(grammar::parse_operation(s, opcode::DELEGRETURN) == grammar::parse_delegreturn(s)) by {
        reveal(grammar::parse_operation);
    }
    xdr::stateid_round_trip(stateid, t);
}

/// Law: FREE_STATEID is the stateid to free.
pub proof fn a_free_stateid_says_the_stateid(
    stateid: StateIdView,
    t: Seq<u8>,
)
    requires
        stateid.other.len() == 12,
    ensures
        grammar::parse_operation(
            xdr::wire_stateid(stateid) + t,
            opcode::FREE_STATEID,
        ) == (
            Ok::<OperationView, XdrError>(
                OperationView::FreeStateId(stateid),
            ),
            t,
        ),
{
    let s = xdr::wire_stateid(stateid) + t;
    assert(grammar::parse_operation(s, opcode::FREE_STATEID) == grammar::parse_free_stateid(s)) by {
        reveal(grammar::parse_operation);
    }
    xdr::stateid_round_trip(stateid, t);
}

/// Law: LOCKT is the type of the lock, an offset, a length and the owner.
pub proof fn a_lockt_says_the_range_and_the_owner(
    locktype: u32,
    offset: u64,
    length: u64,
    owner: Seq<u8>,
    t: Seq<u8>,
)
    requires
        owner.len() <= u32::MAX,
    ensures
        grammar::parse_operation(
            octets::be32(locktype) + (octets::be64(offset) + (octets::be64(length) + (xdr::wire_opaque(owner) + t))),
            opcode::LOCKT,
        ) == (
            Ok::<OperationView, XdrError>(
                OperationView::LockT { locktype, offset, length, owner },
            ),
            t,
        ),
{
    let s = octets::be32(locktype) + (octets::be64(offset) + (octets::be64(length) + (xdr::wire_opaque(owner) + t)));
    assert(grammar::parse_operation(s, opcode::LOCKT) == grammar::parse_lockt(s)) by {
        reveal(grammar::parse_operation);
    }
    let s3 = xdr::wire_opaque(owner) + t;
    let s2 = octets::be64(length) + s3;
    let s1 = octets::be64(offset) + s2;
    xdr::u32_round_trip(locktype, s1);
    xdr::u64_round_trip(offset, s2);
    xdr::u64_round_trip(length, s3);
    xdr::opaque_round_trip(owner, t);
}

/// Law: LOCKU is the type of the lock, a sequence number, the stateid of the
/// lock, an offset and a length.
pub proof fn a_locku_says_the_range(
    locktype: u32,
    seqid: u32,
    stateid: StateIdView,
    offset: u64,
    length: u64,
    t: Seq<u8>,
)
    requires
        stateid.other.len() == 12,
    ensures
        grammar::parse_operation(
            octets::be32(locktype) + (octets::be32(seqid) + (xdr::wire_stateid(stateid) + (octets::be64(offset) + (octets::be64(length) + t)))),
            opcode::LOCKU,
        ) == (
            Ok::<OperationView, XdrError>(
                OperationView::LockU { locktype, seqid, stateid, offset, length },
            ),
            t,
        ),
{
    let s = octets::be32(locktype) + (octets::be32(seqid) + (xdr::wire_stateid(stateid) + (octets::be64(offset) + (octets::be64(length) + t))));
    assert(grammar::parse_operation(s, opcode::LOCKU) == grammar::parse_locku(s)) by {
        reveal(grammar::parse_operation);
    }
    let s4 = octets::be64(length) + t;
    let s3 = octets::be64(offset) + s4;
    let s2 = xdr::wire_stateid(stateid) + s3;
    let s1 = octets::be32(seqid) + s2;
    xdr::u32_round_trip(locktype, s1);
    xdr::u32_round_trip(seqid, s2);
    xdr::stateid_round_trip(stateid, s3);
    xdr::u64_round_trip(offset, s4);
    xdr::u64_round_trip(length, t);
}

/// Law: LOCK by a new owner is the type of the lock, whether it is reclaimed,
/// an offset, a length, and then TRUE, a sequence number, the stateid of the
/// open, another sequence number, the client and the owner.
pub proof fn a_first_lock_says_the_open_and_the_owner(
    locktype: u32,
    reclaim: bool,
    offset: u64,
    length: u64,
    open_seqid: u32,
    stateid: StateIdView,
    lock_seqid: u32,
    clientid: u64,
    owner: Seq<u8>,
    t: Seq<u8>,
)
    requires
        stateid.other.len() == 12,
        owner.len() <= u32::MAX,
    ensures
        grammar::parse_operation(
            octets::be32(locktype) + (xdr::wire_bool(reclaim) + (octets::be64(offset) + (octets::be64(length) + (xdr::wire_bool(true) + (octets::be32(open_seqid) + (xdr::wire_stateid(stateid) + (octets::be32(lock_seqid) + (octets::be64(clientid) + (xdr::wire_opaque(owner) + t))))))))),
            opcode::LOCK,
        ) == (
            Ok::<OperationView, XdrError>(
                OperationView::Lock {
                    locktype,
                    reclaim,
                    offset,
                    length,
                    stateid,
                    owner,
                    new_lock_owner: true,
                },
            ),
            t,
        ),
{
    let s = octets::be32(locktype) + (xdr::wire_bool(reclaim) + (octets::be64(offset) + (octets::be64(length) + (xdr::wire_bool(true) + (octets::be32(open_seqid) + (xdr::wire_stateid(stateid) + (octets::be32(lock_seqid) + (octets::be64(clientid) + (xdr::wire_opaque(owner) + t)))))))));
    assert(grammar::parse_operation(s, opcode::LOCK) == grammar::parse_lock(s)) by {
        reveal(grammar::parse_operation);
    }
    let s9 = xdr::wire_opaque(owner) + t;
    let s8 = octets::be64(clientid) + s9;
    let s7 = octets::be32(lock_seqid) + s8;
    let s6 = xdr::wire_stateid(stateid) + s7;
    let s5 = octets::be32(open_seqid) + s6;
    let s4 = xdr::wire_bool(true) + s5;
    let s3 = octets::be64(length) + s4;
    let s2 = octets::be64(offset) + s3;
    let s1 = xdr::wire_bool(reclaim) + s2;
    xdr::u32_round_trip(locktype, s1);
    xdr::bool_round_trip(reclaim, s2);
    xdr::u64_round_trip(offset, s3);
    xdr::u64_round_trip(length, s4);
    xdr::bool_round_trip(true, s5);
    xdr::u32_round_trip(open_seqid, s6);
    xdr::stateid_round_trip(stateid, s7);
    xdr::u32_round_trip(lock_seqid, s8);
    xdr::u64_round_trip(clientid, s9);
    xdr::opaque_round_trip(owner, t);
}

/// Law: LOCK by an owner that has a lock is the type of the lock, whether it is
/// reclaimed, an offset, a length, and then FALSE, the stateid of the lock and
/// a sequence number.
pub proof fn a_further_lock_says_the_lock(
    locktype: u32,
    reclaim: bool,
    offset: u64,
    length: u64,
    stateid: StateIdView,
    lock_seqid: u32,
    t: Seq<u8>,
)
    requires
        stateid.other.len() == 12,
    ensures
        grammar::parse_operation(
            octets::be32(locktype) + (xdr::wire_bool(reclaim) + (octets::be64(offset) + (octets::be64(length) + (xdr::wire_bool(false) + (xdr::wire_stateid(stateid) + (octets::be32(lock_seqid) + t)))))),
            opcode::LOCK,
        ) == (
            Ok::<OperationView, XdrError>(
                OperationView::Lock {
                    locktype,
                    reclaim,
                    offset,
                    length,
                    stateid,
                    owner: Seq::empty(),
                    new_lock_owner: false,
                },
            ),
            t,
        ),
{
    let s = octets::be32(locktype) + (xdr::wire_bool(reclaim) + (octets::be64(offset) + (octets::be64(length) + (xdr::wire_bool(false) + (xdr::wire_stateid(stateid) + (octets::be32(lock_seqid) + t))))));
    assert(grammar::parse_operation(s, opcode::LOCK) == grammar::parse_lock(s)) by {
        reveal(grammar::parse_operation);
    }
    let s6 = octets::be32(lock_seqid) + t;
    let s5 = xdr::wire_stateid(stateid) + s6;
    let s4 = xdr::wire_bool(false) + s5;
    let s3 = octets::be64(length) + s4;
    let s2 = octets::be64(offset) + s3;
    let s1 = xdr::wire_bool(reclaim) + s2;
    xdr::u32_round_trip(locktype, s1);
    xdr::bool_round_trip(reclaim, s2);
    xdr::u64_round_trip(offset, s3);
    xdr::u64_round_trip(length, s4);
    xdr::bool_round_trip(false, s5);
    xdr::stateid_round_trip(stateid, s6);
    xdr::u32_round_trip(lock_seqid, t);
}

/// Stateids one after the other.
pub open spec fn stateid_octets(ids: Seq<StateIdView>) -> Seq<u8>
    decreases ids.len(),
{
    if ids.len() == 0 {
        Seq::empty()
    } else {
        xdr::wire_stateid(ids[0]) + stateid_octets(ids.skip(1))
    }
}

proof fn lemma_stateid_octets_len(ids: Seq<StateIdView>)
    requires
        forall|i: int| 0 <= i < ids.len() ==> (#[trigger] ids[i]).other.len() == 12,
    ensures
        stateid_octets(ids).len() == 16 * ids.len(),
    decreases ids.len(),
{
    if ids.len() > 0 {
        assert(ids[0].other.len() == 12);
        assert(xdr::wire_stateid(ids[0]).len() == 16);
        assert forall|i: int| 0 <= i < ids.skip(1).len() implies (#[trigger] ids.skip(
            1,
        )[i]).other.len() == 12 by {
            assert(ids.skip(1)[i] == ids[i + 1]);
        }
        lemma_stateid_octets_len(ids.skip(1));
    }
}

#[verifier::rlimit(30)]
proof fn lemma_stateids(ids: Seq<StateIdView>, t: Seq<u8>)
    requires
        forall|i: int| 0 <= i < ids.len() ==> (#[trigger] ids[i]).other.len() == 12,
    ensures
        xdr::parse_stateids(stateid_octets(ids) + t, ids.len()) == (
            Ok::<Seq<StateIdView>, XdrError>(ids),
            t,
        ),
    decreases ids.len(),
{
    if ids.len() == 0 {
        assert(stateid_octets(ids) + t =~= t);
        assert(ids =~= Seq::empty());
    } else {
        let first = ids[0];
        let rest = ids.skip(1);
        let behind = stateid_octets(rest) + t;
        assert(first.other.len() == 12);
        assert forall|i: int| 0 <= i < rest.len() implies (#[trigger] rest[i]).other.len()
            == 12 by {
            assert(rest[i] == ids[i + 1]);
        }
        lemma_stateids(rest, t);
        let s = stateid_octets(ids) + t;
        assert(s == xdr::wire_stateid(first) + behind) by {
            xdr::lemma_concat_assoc(xdr::wire_stateid(first), stateid_octets(rest), t);
        }
        assert(xdr::parse_stateid(s) == (Ok::<StateIdView, XdrError>(first), behind)) by {
            xdr::stateid_round_trip(first, behind);
        }
        lemma_one_more_stateid(s, ids.len(), first, behind, rest, t);
        assert(seq![first] + rest =~= ids);
    }
}

proof fn lemma_one_more_stateid(
    s: Seq<u8>,
    n: nat,
    first: StateIdView,
    behind: Seq<u8>,
    rest: Seq<StateIdView>,
    t: Seq<u8>,
)
    requires
        n > 0,
        xdr::parse_stateid(s) == (Ok::<StateIdView, XdrError>(first), behind),
        xdr::parse_stateids(behind, (n - 1) as nat) == (
            Ok::<Seq<StateIdView>, XdrError>(rest),
            t,
        ),
    ensures
        xdr::parse_stateids(s, n) == (Ok::<Seq<StateIdView>, XdrError>(seq![first] + rest), t),
{
}

/// Law: TEST_STATEID is the number of stateids, and the stateids in order.
pub proof fn a_test_stateid_says_the_stateids(
    ids: Seq<StateIdView>,
    t: Seq<u8>,
)
    requires
        ids.len() <= u32::MAX,
        forall|i: int| 0 <= i < ids.len() ==> (#[trigger] ids[i]).other.len() == 12,
    ensures
        grammar::parse_operation(
            octets::be32(ids.len() as u32) + (stateid_octets(ids) + t),
            opcode::TEST_STATEID,
        ) == (
            Ok::<OperationView, XdrError>(
                OperationView::TestStateId(ids),
            ),
            t,
        ),
{
    let s = octets::be32(ids.len() as u32) + (stateid_octets(ids) + t);
    assert(grammar::parse_operation(s, opcode::TEST_STATEID) == grammar::parse_test_stateid(s)) by {
        reveal(grammar::parse_operation);
    }
    let s1 = stateid_octets(ids) + t;
    lemma_stateids(ids, t);
    lemma_stateid_octets_len(ids);
    xdr::u32_round_trip(ids.len() as u32, s1);
}

// ---------------------------------------------------------------------------
// Opening
// ---------------------------------------------------------------------------

/// Law: `openflag4` says whether to create, and if so how: unchecked and guarded
/// with the attributes to give, exclusively with a verifier, exclusively with a
/// verifier and the attributes.
pub proof fn an_openflag_says_how_to_create(
    attrmask: Seq<u32>,
    attr_vals: Seq<u8>,
    verifier: Seq<u8>,
    mode: u32,
    t: Seq<u8>,
)
    requires
        attrmask.len() <= u32::MAX,
        attr_vals.len() <= u32::MAX,
        verifier.len() == 8,
        mode == 0 || mode == 1,
    ensures
        grammar::parse_openflag(octets::be32(0) + t) == (
            Ok::<OpenHowView, XdrError>(
                OpenHowView { createmode: 0, attrs: None, attrmask: Seq::empty() },
            ),
            t,
        ),
        grammar::parse_openflag(
            octets::be32(1) + (octets::be32(mode) + (xdr::wire_bitmap(attrmask) + (
            xdr::wire_opaque(attr_vals) + t))),
        ) == (
            Ok::<OpenHowView, XdrError>(
                OpenHowView { createmode: mode, attrs: Some(attr_vals), attrmask },
            ),
            t,
        ),
        grammar::parse_openflag(
            octets::be32(1) + (octets::be32(2) + (xdr::wire_fixed(verifier) + t)),
        ) == (
            Ok::<OpenHowView, XdrError>(
                OpenHowView { createmode: 2, attrs: Some(verifier), attrmask: Seq::empty() },
            ),
            t,
        ),
        grammar::parse_openflag(
            octets::be32(1) + (octets::be32(3) + (xdr::wire_fixed(verifier) + (xdr::wire_bitmap(
                attrmask,
            ) + (xdr::wire_opaque(attr_vals) + t)))),
        ) == (
            Ok::<OpenHowView, XdrError>(
                OpenHowView { createmode: 3, attrs: Some(verifier + attr_vals), attrmask },
            ),
            t,
        ),
{
    lemma_fattr(attrmask, attr_vals, t);
    broadcast use {xdr::u32_round_trip, xdr::fixed_round_trip};

}

/// `fattr4` is a bitmap and the values that it selects.
proof fn lemma_fattr(attrmask: Seq<u32>, attr_vals: Seq<u8>, t: Seq<u8>)
    requires
        attrmask.len() <= u32::MAX,
        attr_vals.len() <= u32::MAX,
    ensures
        grammar::parse_fattr(xdr::wire_bitmap(attrmask) + (xdr::wire_opaque(attr_vals) + t)) == (
            Ok::<Fattr4View, XdrError>(Fattr4View { attrmask, attr_vals }),
            t,
        ),
{
    let behind = xdr::wire_opaque(attr_vals) + t;
    xdr::words_round_trip(attrmask, behind);
    xdr::lemma_concat_assoc(
        octets::be32(attrmask.len() as u32),
        xdr::wire_words(attrmask),
        behind,
    );
    xdr::u32_round_trip(attrmask.len() as u32, xdr::wire_words(attrmask) + behind);
    xdr::opaque_round_trip(attr_vals, t);
}

/// Law: `open_claim4` says what is opened: a name in the current directory, the
/// current file, a file of before the restart with the delegation that was held, or
/// a file under a delegation.
#[verifier::rlimit(30)]
pub proof fn a_claim_says_what_is_opened(
    file: Seq<char>,
    held: u32,
    delegation: StateIdView,
    t: Seq<u8>,
)
    requires
        encode_utf8(file).len() <= u32::MAX,
        delegation.other.len() == 12,
    ensures
        forall|claim_type: u32|
            claim_type == 0 || claim_type == 3 ==> #[trigger] grammar::parse_claim(
                octets::be32(claim_type) + (xdr::wire_string(file) + t),
            ) == (
                Ok::<OpenClaimView, XdrError>(
                    OpenClaimView { claim_type, file, delegate_type: None, delegate_stateid: None },
                ),
                t,
            ),
        grammar::parse_claim(octets::be32(1) + (octets::be32(held) + t)) == (
            Ok::<OpenClaimView, XdrError>(
                OpenClaimView {
                    claim_type: 1,
                    file: Seq::empty(),
                    delegate_type: Some(held),
                    delegate_stateid: None,
                },
            ),
            t,
        ),
        grammar::parse_claim(
            octets::be32(2) + (xdr::wire_stateid(delegation) + (xdr::wire_string(file) + t)),
        ) == (
            Ok::<OpenClaimView, XdrError>(
                OpenClaimView {
                    claim_type: 2,
                    file,
                    delegate_type: None,
                    delegate_stateid: Some(delegation),
                },
            ),
            t,
        ),
        grammar::parse_claim(octets::be32(5) + (xdr::wire_stateid(delegation) + t)) == (
            Ok::<OpenClaimView, XdrError>(
                OpenClaimView {
                    claim_type: 5,
                    file: Seq::empty(),
                    delegate_type: None,
                    delegate_stateid: Some(delegation),
                },
            ),
            t,
        ),
        forall|claim_type: u32|
            claim_type == 4 || claim_type == 6 ==> #[trigger] grammar::parse_claim(
                octets::be32(claim_type) + t,
            ) == (
                Ok::<OpenClaimView, XdrError>(
                    OpenClaimView {
                        claim_type,
                        file: Seq::empty(),
                        delegate_type: None,
                        delegate_stateid: None,
                    },
                ),
                t,
            ),
        forall|claim_type: u32|
            claim_type > 6 ==> (#[trigger] grammar::parse_claim(
                octets::be32(claim_type) + t,
            )).0 is Err,
{
    broadcast use {xdr::u32_round_trip, xdr::string_round_trip, xdr::stateid_round_trip};

}

/// Law: OPEN is a sequence number, the access that is wanted, what is denied to
/// others, the client and the owner, how to create and what to open. `how` and
/// `what` are octets that say the last two.
pub proof fn an_open_says_what_it_shares_and_opens(
    seqid: u32,
    share_access: u32,
    share_deny: u32,
    clientid: u64,
    owner: Seq<u8>,
    how: Seq<u8>,
    openhow: OpenHowView,
    what: Seq<u8>,
    claim: OpenClaimView,
    t: Seq<u8>,
)
    requires
        owner.len() <= u32::MAX,
        grammar::parse_openflag(how + (what + t)) == (Ok::<OpenHowView, XdrError>(openhow), what + t),
        grammar::parse_claim(what + t) == (Ok::<OpenClaimView, XdrError>(claim), t),
    ensures
        grammar::parse_operation(
            octets::be32(seqid) + (octets::be32(share_access) + (octets::be32(share_deny) + (octets::be64(clientid) + (xdr::wire_opaque(owner) + (how + (what + t)))))),
            opcode::OPEN,
        ) == (
            Ok::<OperationView, XdrError>(
                OperationView::Open { seqid, share_access, share_deny, owner, openhow, claim },
            ),
            t,
        ),
{
    let s = octets::be32(seqid) + (octets::be32(share_access) + (octets::be32(share_deny) + (octets::be64(clientid) + (xdr::wire_opaque(owner) + (how + (what + t))))));
    assert(grammar::parse_operation(s, opcode::OPEN) == grammar::parse_open(s)) by {
        reveal(grammar::parse_operation);
    }
    let s6 = what + t;
    let s5 = how + s6;
    let s4 = xdr::wire_opaque(owner) + s5;
    let s3 = octets::be64(clientid) + s4;
    let s2 = octets::be32(share_deny) + s3;
    let s1 = octets::be32(share_access) + s2;
    xdr::u32_round_trip(seqid, s1);
    xdr::u32_round_trip(share_access, s2);
    xdr::u32_round_trip(share_deny, s3);
    xdr::u64_round_trip(clientid, s4);
    xdr::opaque_round_trip(owner, s5);
}

// ---------------------------------------------------------------------------
// Sessions
// ---------------------------------------------------------------------------

/// Law: DESTROY_SESSION is the session.
pub proof fn a_destroy_session_says_the_session(
    sessionid: Seq<u8>,
    t: Seq<u8>,
)
    requires
        sessionid.len() == 16,
    ensures
        grammar::parse_operation(
            xdr::wire_fixed(sessionid) + t,
            opcode::DESTROY_SESSION,
        ) == (
            Ok::<OperationView, XdrError>(
                OperationView::DestroySession(sessionid),
            ),
            t,
        ),
{
    let s = xdr::wire_fixed(sessionid) + t;
    assert(grammar::parse_operation(s, opcode::DESTROY_SESSION) == grammar::parse_destroy_session(s)) by {
        reveal(grammar::parse_operation);
    }
    xdr::fixed_round_trip(sessionid, 16, t);
}

/// Law: DESTROY_CLIENTID is the client.
pub proof fn a_destroy_clientid_says_the_client(
    clientid: u64,
    t: Seq<u8>,
)
    ensures
        grammar::parse_operation(
            octets::be64(clientid) + t,
            opcode::DESTROY_CLIENTID,
        ) == (
            Ok::<OperationView, XdrError>(
                OperationView::DestroyClientId(clientid),
            ),
            t,
        ),
{
    let s = octets::be64(clientid) + t;
    assert(grammar::parse_operation(s, opcode::DESTROY_CLIENTID) == grammar::parse_destroy_clientid(s)) by {
        reveal(grammar::parse_operation);
    }
    xdr::u64_round_trip(clientid, t);
}

/// Law: BIND_CONN_TO_SESSION is the session, the direction and whether RDMA is
/// used.
pub proof fn a_bind_says_the_session_and_the_direction(
    sessionid: Seq<u8>,
    dir: u32,
    use_conn_in_rdma_mode: bool,
    t: Seq<u8>,
)
    requires
        sessionid.len() == 16,
    ensures
        grammar::parse_operation(
            xdr::wire_fixed(sessionid) + (octets::be32(dir) + (xdr::wire_bool(use_conn_in_rdma_mode) + t)),
            opcode::BIND_CONN_TO_SESSION,
        ) == (
            Ok::<OperationView, XdrError>(
                OperationView::BindConnToSession { sessionid, dir, use_conn_in_rdma_mode },
            ),
            t,
        ),
{
    let s = xdr::wire_fixed(sessionid) + (octets::be32(dir) + (xdr::wire_bool(use_conn_in_rdma_mode) + t));
    assert(grammar::parse_operation(s, opcode::BIND_CONN_TO_SESSION) == grammar::parse_bind_conn(s)) by {
        reveal(grammar::parse_operation);
    }
    let s2 = xdr::wire_bool(use_conn_in_rdma_mode) + t;
    let s1 = octets::be32(dir) + s2;
    xdr::fixed_round_trip(sessionid, 16, s1);
    xdr::u32_round_trip(dir, s2);
    xdr::bool_round_trip(use_conn_in_rdma_mode, t);
}

/// Law: SEQUENCE is the session, the sequence number in the slot, the slot, the
/// highest slot in use and whether to keep the reply.
pub proof fn a_sequence_says_the_slot(
    sessionid: Seq<u8>,
    sequenceid: u32,
    slotid: u32,
    highest_slotid: u32,
    cachethis: bool,
    t: Seq<u8>,
)
    requires
        sessionid.len() == 16,
    ensures
        grammar::parse_operation(
            xdr::wire_fixed(sessionid) + (octets::be32(sequenceid) + (octets::be32(slotid) + (octets::be32(highest_slotid) + (xdr::wire_bool(cachethis) + t)))),
            opcode::SEQUENCE,
        ) == (
            Ok::<OperationView, XdrError>(
                OperationView::Sequence { sessionid, sequenceid, slotid, highest_slotid, cachethis },
            ),
            t,
        ),
{
    let s = xdr::wire_fixed(sessionid) + (octets::be32(sequenceid) + (octets::be32(slotid) + (octets::be32(highest_slotid) + (xdr::wire_bool(cachethis) + t))));
    assert(grammar::parse_operation(s, opcode::SEQUENCE) == grammar::parse_sequence(s)) by {
        reveal(grammar::parse_operation);
    }
    let s4 = xdr::wire_bool(cachethis) + t;
    let s3 = octets::be32(highest_slotid) + s4;
    let s2 = octets::be32(slotid) + s3;
    let s1 = octets::be32(sequenceid) + s2;
    xdr::fixed_round_trip(sessionid, 16, s1);
    xdr::u32_round_trip(sequenceid, s2);
    xdr::u32_round_trip(slotid, s3);
    xdr::u32_round_trip(highest_slotid, s4);
    xdr::bool_round_trip(cachethis, t);
}

/// Law: RECLAIM_COMPLETE is whether it speaks of one filesystem alone.
pub proof fn a_reclaim_complete_says_of_what(
    one_fs: bool,
    t: Seq<u8>,
)
    ensures
        grammar::parse_operation(
            xdr::wire_bool(one_fs) + t,
            opcode::RECLAIM_COMPLETE,
        ) == (
            Ok::<OperationView, XdrError>(
                OperationView::ReclaimComplete(one_fs),
            ),
            t,
        ),
{
    let s = xdr::wire_bool(one_fs) + t;
    assert(grammar::parse_operation(s, opcode::RECLAIM_COMPLETE) == grammar::parse_reclaim_complete(s)) by {
        reveal(grammar::parse_operation);
    }
    xdr::bool_round_trip(one_fs, t);
}

/// Law: SECINFO is the name that is asked about.
pub proof fn a_secinfo_says_the_name(
    name: Seq<char>,
    t: Seq<u8>,
)
    requires
        encode_utf8(name).len() <= u32::MAX,
    ensures
        grammar::parse_operation(
            xdr::wire_string(name) + t,
            opcode::SECINFO,
        ) == (
            Ok::<OperationView, XdrError>(
                OperationView::SecInfo(name),
            ),
            t,
        ),
{
    let s = xdr::wire_string(name) + t;
    assert(grammar::parse_operation(s, opcode::SECINFO) == grammar::parse_secinfo(s)) by {
        reveal(grammar::parse_operation);
    }
    xdr::string_round_trip(name, t);
}

/// Law: SECINFO_NO_NAME is whether it asks about the current filehandle or its
/// parent.
pub proof fn a_secinfo_no_name_says_the_style(
    style: u32,
    t: Seq<u8>,
)
    ensures
        grammar::parse_operation(
            octets::be32(style) + t,
            opcode::SECINFO_NO_NAME,
        ) == (
            Ok::<OperationView, XdrError>(
                OperationView::SecInfoNoName(style),
            ),
            t,
        ),
{
    let s = octets::be32(style) + t;
    assert(grammar::parse_operation(s, opcode::SECINFO_NO_NAME) == grammar::parse_secinfo_no_name(s)) by {
        reveal(grammar::parse_operation);
    }
    xdr::u32_round_trip(style, t);
}

/// Law: what a client says about how its state is protected is taken with its
/// octets: nothing for no protection, the operations to enforce and to allow for
/// protection by machine credentials, and these with the algorithms, the window and
/// the number of handles for protection by a secret.
pub proof fn the_state_protection_takes_its_octets(
    enforce: Seq<u32>,
    allow: Seq<u32>,
    window: u32,
    handles: u32,
    t: Seq<u8>,
)
    requires
        enforce.len() <= u32::MAX,
        allow.len() <= u32::MAX,
    ensures
        grammar::parse_state_protect(t, 0) == (Ok::<(), XdrError>(()), t),
        grammar::parse_state_protect(
            xdr::wire_bitmap(enforce) + (xdr::wire_bitmap(allow) + t),
            1,
        ) == (Ok::<(), XdrError>(()), t),
        grammar::parse_state_protect(
            xdr::wire_bitmap(enforce) + (xdr::wire_bitmap(allow) + (octets::be32(0) + (octets::be32(
                0,
            ) + (octets::be32(window) + (octets::be32(handles) + t))))),
            2,
        ) == (Ok::<(), XdrError>(()), t),
        forall|how: u32| how > 2 ==> (#[trigger] grammar::parse_state_protect(t, how)).0 is Err,
{
    broadcast use {xdr::u32_round_trip, xdr::bitmap_round_trip};

}

/// Law: a client may name its implementation, which is kept as the domain and the
/// name with a slash between them.
pub proof fn an_implementation_is_its_domain_and_name(
    domain: Seq<u8>,
    name: Seq<u8>,
    seconds: u64,
    nseconds: u32,
    t: Seq<u8>,
)
    requires
        domain.len() <= u32::MAX,
        name.len() <= u32::MAX,
    ensures
        grammar::parse_impl_id(octets::be32(0) + t) == (
            Ok::<Seq<u8>, XdrError>(Seq::empty()),
            t,
        ),
        grammar::parse_impl_id(
            octets::be32(1) + (xdr::wire_opaque(domain) + (xdr::wire_opaque(name) + (octets::be64(
                seconds,
            ) + (octets::be32(nseconds) + t)))),
        ) == (Ok::<Seq<u8>, XdrError>(domain + seq![0x2fu8] + name), t),
{
    broadcast use {xdr::u32_round_trip, xdr::u64_round_trip, xdr::opaque_round_trip};

}

/// Law: EXCHANGE_ID is the verifier and the name of the client owner, the
/// flags, how state is protected and the implementation. `protection` and
/// `implementation` are octets that say the last two.
pub proof fn an_exchange_id_says_the_owner(
    verifier: u64,
    id: Seq<u8>,
    flags: u32,
    state_protect: u32,
    protection: Seq<u8>,
    implementation: Seq<u8>,
    impl_id: Seq<u8>,
    t: Seq<u8>,
)
    requires
        id.len() <= u32::MAX,
        grammar::parse_state_protect(protection + (implementation + t), state_protect) == (Ok::<(), XdrError>(()), implementation + t),
        grammar::parse_impl_id(implementation + t) == (Ok::<Seq<u8>, XdrError>(impl_id), t),
    ensures
        grammar::parse_operation(
            octets::be64(verifier) + (xdr::wire_opaque(id) + (octets::be32(flags) + (octets::be32(state_protect) + (protection + (implementation + t))))),
            opcode::EXCHANGE_ID,
        ) == (
            Ok::<OperationView, XdrError>(
                OperationView::ExchangeId {
                    clientowner: ClientIdView { verifier, id },
                    flags,
                    state_protect,
                    impl_id,
                },
            ),
            t,
        ),
{
    let s = octets::be64(verifier) + (xdr::wire_opaque(id) + (octets::be32(flags) + (octets::be32(state_protect) + (protection + (implementation + t)))));
    assert(grammar::parse_operation(s, opcode::EXCHANGE_ID) == grammar::parse_exchange_id(s)) by {
        reveal(grammar::parse_operation);
    }
    let s5 = implementation + t;
    let s4 = protection + s5;
    let s3 = octets::be32(state_protect) + s4;
    let s2 = octets::be32(flags) + s3;
    let s1 = xdr::wire_opaque(id) + s2;
    xdr::u64_round_trip(verifier, s1);
    xdr::opaque_round_trip(id, s2);
    xdr::u32_round_trip(flags, s3);
    xdr::u32_round_trip(state_protect, s4);
}

/// `channel_attrs4`: the padding of the header, the largest request, the largest
/// reply, the largest reply that is kept, the most operations in a request, the most
/// requests at a time, and what RDMA needs.
pub open spec fn channel_octets(a: ChannelAttrsView) -> Seq<u8> {
    octets::be32(a.header_pad_size) + (octets::be32(a.max_request_size) + (octets::be32(
        a.max_response_size,
    ) + (octets::be32(a.max_response_size_cached) + (octets::be32(a.max_operations) + (octets::be32(
        a.max_requests,
    ) + xdr::wire_bitmap(a.rdma_ird))))))
}

/// Law: the attributes of a channel are read in the order of the protocol.
#[verifier::rlimit(30)]
pub proof fn channel_attributes_are_read_in_order(a: ChannelAttrsView, t: Seq<u8>)
    requires
        a.rdma_ird.len() <= 1,
    ensures
        grammar::parse_channel_attrs(channel_octets(a) + t) == (
            Ok::<ChannelAttrsView, XdrError>(a),
            t,
        ),
{
    let words = xdr::wire_words(a.rdma_ird);
    let n = octets::be32(a.rdma_ird.len() as u32);
    let b7 = xdr::wire_bitmap(a.rdma_ird);
    let b6 = octets::be32(a.max_requests) + b7;
    let b5 = octets::be32(a.max_operations) + b6;
    let b4 = octets::be32(a.max_response_size_cached) + b5;
    let b3 = octets::be32(a.max_response_size) + b4;
    let b2 = octets::be32(a.max_request_size) + b3;
    xdr::lemma_concat_assoc(octets::be32(a.header_pad_size), b2, t);
    xdr::lemma_concat_assoc(octets::be32(a.max_request_size), b3, t);
    xdr::lemma_concat_assoc(octets::be32(a.max_response_size), b4, t);
    xdr::lemma_concat_assoc(octets::be32(a.max_response_size_cached), b5, t);
    xdr::lemma_concat_assoc(octets::be32(a.max_operations), b6, t);
    xdr::lemma_concat_assoc(octets::be32(a.max_requests), b7, t);
    xdr::lemma_concat_assoc(n, words, t);
    xdr::u32_round_trip(a.header_pad_size, b2 + t);
    xdr::u32_round_trip(a.max_request_size, b3 + t);
    xdr::u32_round_trip(a.max_response_size, b4 + t);
    xdr::u32_round_trip(a.max_response_size_cached, b5 + t);
    xdr::u32_round_trip(a.max_operations, b6 + t);
    xdr::u32_round_trip(a.max_requests, b7 + t);
    xdr::u32_round_trip(a.rdma_ird.len() as u32, words + t);
    xdr::words_round_trip(a.rdma_ird, t);
}

/// Law: an entry of a credential offer is a flavor and what goes with it: nothing,
/// the identity of an AUTH_SYS caller, or handles of RPCSEC_GSS.
#[verifier::rlimit(30)]
pub proof fn a_credential_offer_says_the_identity(
    stamp: u32,
    machinename: Seq<char>,
    uid: u32,
    gid: u32,
    gids: Seq<u32>,
    service: u32,
    from_server: Seq<u8>,
    from_client: Seq<u8>,
    t: Seq<u8>,
)
    requires
        encode_utf8(machinename).len() <= u32::MAX,
        gids.len() <= 16,
        from_server.len() <= u32::MAX,
        from_client.len() <= u32::MAX,
    ensures
        grammar::parse_sec_parm(octets::be32(0) + t) == (
            Ok::<SecParmsView, XdrError>(SecParmsView::AuthNone),
            t,
        ),
        grammar::parse_sec_parm(
            octets::be32(1) + (octets::be32(stamp) + (xdr::wire_string(machinename) + (octets::be32(
                uid,
            ) + (octets::be32(gid) + (xdr::wire_bitmap(gids) + t))))),
        ) == (
            Ok::<SecParmsView, XdrError>(SecParmsView::Sys { stamp, machinename, uid, gid, gids }),
            t,
        ),
        grammar::parse_sec_parm(
            octets::be32(6) + (octets::be32(service) + (xdr::wire_opaque(from_server) + (
            xdr::wire_opaque(from_client) + t))),
        ) == (Ok::<SecParmsView, XdrError>(SecParmsView::Gss), t),
{
    xdr::words_round_trip(gids, t);
    xdr::lemma_concat_assoc(octets::be32(gids.len() as u32), xdr::wire_words(gids), t);
    broadcast use {xdr::u32_round_trip, xdr::string_round_trip, xdr::opaque_round_trip};

}

/// Law: a credential offer is a number and as many entries, in order; more than
/// sixteen are refused.
pub proof fn a_credential_offer_lists_its_entries(
    n: u32,
    first: Seq<u8>,
    entry: SecParmsView,
    s: Seq<u8>,
)
    requires
        grammar::parse_sec_parm(first + s) == (Ok::<SecParmsView, XdrError>(entry), s),
    ensures
        n > 16 ==> grammar::parse_sec_parms(octets::be32(n) + s).0 is Err,
        n <= 16 ==> grammar::parse_sec_parms(octets::be32(n) + s) == grammar::parse_sec_parm_list(
            s,
            n as nat,
        ),
        grammar::parse_sec_parm_list(s, 0) == (Ok::<Seq<SecParmsView>, XdrError>(Seq::empty()), s),
        grammar::parse_sec_parm_list(first + s, (n + 1) as nat) == (
            match grammar::parse_sec_parm_list(s, n as nat).0 {
                Ok(v) => (
                    Ok::<Seq<SecParmsView>, XdrError>(seq![entry] + v),
                    grammar::parse_sec_parm_list(s, n as nat).1,
                ),
                Err(e) => (
                    Err::<Seq<SecParmsView>, XdrError>(e),
                    grammar::parse_sec_parm_list(s, n as nat).1,
                ),
            }
        ),
{
    broadcast use xdr::u32_round_trip;

}

/// Law: CREATE_SESSION is the client, a sequence number, the flags, the
/// attributes of the fore channel and those of the back channel, the program to
/// call back and the credentials to call back with. `offer` is octets that say
/// the last.
pub proof fn a_create_session_says_both_channels(
    clientid: u64,
    sequence: u32,
    flags: u32,
    cb_program: u32,
    fore: ChannelAttrsView,
    back: ChannelAttrsView,
    offer: Seq<u8>,
    cb_sec: Seq<SecParmsView>,
    t: Seq<u8>,
)
    requires
        fore.rdma_ird.len() <= 1,
        back.rdma_ird.len() <= 1,
        grammar::parse_sec_parms(offer + t) == (Ok::<Seq<SecParmsView>, XdrError>(cb_sec), t),
    ensures
        grammar::parse_operation(
            octets::be64(clientid) + (octets::be32(sequence) + (octets::be32(flags) + (channel_octets(fore) + (channel_octets(back) + (octets::be32(cb_program) + (offer + t)))))),
            opcode::CREATE_SESSION,
        ) == (
            Ok::<OperationView, XdrError>(
                OperationView::CreateSession {
                    clientid,
                    sequence,
                    flags,
                    fore_chan_attrs: fore,
                    back_chan_attrs: back,
                    cb_program,
                    cb_sec,
                },
            ),
            t,
        ),
{
    let s = octets::be64(clientid) + (octets::be32(sequence) + (octets::be32(flags) + (channel_octets(fore) + (channel_octets(back) + (octets::be32(cb_program) + (offer + t))))));
    assert(grammar::parse_operation(s, opcode::CREATE_SESSION) == grammar::parse_create_session(s)) by {
        reveal(grammar::parse_operation);
    }
    let s6 = offer + t;
    let s5 = octets::be32(cb_program) + s6;
    let s4 = channel_octets(back) + s5;
    let s3 = channel_octets(fore) + s4;
    let s2 = octets::be32(flags) + s3;
    let s1 = octets::be32(sequence) + s2;
    channel_attributes_are_read_in_order(fore, s4);
    channel_attributes_are_read_in_order(back, s5);
    xdr::u64_round_trip(clientid, s1);
    xdr::u32_round_trip(sequence, s2);
    xdr::u32_round_trip(flags, s3);
    xdr::u32_round_trip(cb_program, s6);
}

/// Law: BACKCHANNEL_CTL is the program to call back and the credentials to call
/// back with. `offer` is octets that say the last.
pub proof fn a_backchannel_ctl_says_the_program(
    cb_program: u32,
    offer: Seq<u8>,
    cb_sec: Seq<SecParmsView>,
    t: Seq<u8>,
)
    requires
        grammar::parse_sec_parms(offer + t) == (Ok::<Seq<SecParmsView>, XdrError>(cb_sec), t),
    ensures
        grammar::parse_operation(
            octets::be32(cb_program) + (offer + t),
            opcode::BACKCHANNEL_CTL,
        ) == (
            Ok::<OperationView, XdrError>(
                OperationView::BackchannelCtl { cb_program, cb_sec },
            ),
            t,
        ),
{
    let s = octets::be32(cb_program) + (offer + t);
    assert(grammar::parse_operation(s, opcode::BACKCHANNEL_CTL) == grammar::parse_backchannel_ctl(s)) by {
        reveal(grammar::parse_operation);
    }
    let s1 = offer + t;
    xdr::u32_round_trip(cb_program, s1);
}

// ---------------------------------------------------------------------------
// Making things
// ---------------------------------------------------------------------------

proof fn lemma_component(name: Seq<char>, t: Seq<u8>)
    requires
        encode_utf8(name).len() <= u32::MAX,
        text::is_utf8str_cs(name),
    ensures
        grammar::parse_component(xdr::wire_string(name) + t) == (
            Ok::<Option<Seq<char>>, XdrError>(Some(name)),
            t,
        ),
{
    broadcast use {xdr::opaque_round_trip, encode_utf8_valid_utf8, encode_utf8_decode_utf8};

}

/// Law: the numbers of the file types.
pub proof fn file_types_have_their_numbers(w: u32)
    ensures
        w == 1 <==> grammar::file_type(w) is Regular && 1 <= w <= 9,
        w == 2 <==> grammar::file_type(w) is Directory,
        w == 3 <==> grammar::file_type(w) is BlockDevice,
        w == 4 <==> grammar::file_type(w) is CharDevice,
        w == 5 <==> grammar::file_type(w) is Symlink,
        w == 6 <==> grammar::file_type(w) is Socket,
        w == 7 <==> grammar::file_type(w) is Fifo,
        w == 8 <==> grammar::file_type(w) is AttrDir,
        w == 9 <==> grammar::file_type(w) is NamedAttr,
{
}

/// Law: CREATE of anything but a link or a device is the type, the name and the
/// attributes to give.
pub proof fn a_create_says_type_name_and_attributes(
    objtype: u32,
    objname: Seq<char>,
    attrmask: Seq<u32>,
    attr_vals: Seq<u8>,
    t: Seq<u8>,
)
    requires
        encode_utf8(objname).len() <= u32::MAX,
        text::is_utf8str_cs(objname),
        attrmask.len() <= u32::MAX,
        attr_vals.len() <= u32::MAX,
        !(3 <= objtype <= 5),
    ensures
        grammar::parse_operation(
            octets::be32(objtype) + (xdr::wire_string(objname) + (xdr::wire_bitmap(attrmask) + (xdr::wire_opaque(attr_vals) + t))),
            opcode::CREATE,
        ) == (
            Ok::<OperationView, XdrError>(
                OperationView::Create {
                    objtype: grammar::file_type(objtype),
                    objname,
                    linkdata: None,
                    createattrs: Fattr4View { attrmask, attr_vals },
                },
            ),
            t,
        ),
{
    let s = octets::be32(objtype) + (xdr::wire_string(objname) + (xdr::wire_bitmap(attrmask) + (xdr::wire_opaque(attr_vals) + t)));
    assert(grammar::parse_operation(s, opcode::CREATE) == grammar::parse_create(s)) by {
        reveal(grammar::parse_operation);
    }
    let s3 = xdr::wire_opaque(attr_vals) + t;
    let s2 = xdr::wire_bitmap(attrmask) + s3;
    let s1 = xdr::wire_string(objname) + s2;
    lemma_fattr(attrmask, attr_vals, t);
    xdr::u32_round_trip(objtype, s1);
    lemma_component(objname, s2);
}

/// Law: CREATE of a symbolic link is the type, what the link says, the name and
/// the attributes to give.
pub proof fn a_create_of_a_link_says_its_target(
    target: Seq<char>,
    objname: Seq<char>,
    attrmask: Seq<u32>,
    attr_vals: Seq<u8>,
    t: Seq<u8>,
)
    requires
        encode_utf8(target).len() <= u32::MAX,
        encode_utf8(objname).len() <= u32::MAX,
        text::is_utf8str_cs(objname),
        attrmask.len() <= u32::MAX,
        attr_vals.len() <= u32::MAX,
    ensures
        grammar::parse_operation(
            octets::be32(5) + (xdr::wire_string(target) + (xdr::wire_string(objname) + (xdr::wire_bitmap(attrmask) + (xdr::wire_opaque(attr_vals) + t)))),
            opcode::CREATE,
        ) == (
            Ok::<OperationView, XdrError>(
                OperationView::Create {
                    objtype: Nfs4FileType::Symlink,
                    objname,
                    linkdata: Some(target),
                    createattrs: Fattr4View { attrmask, attr_vals },
                },
            ),
            t,
        ),
{
    let s = octets::be32(5) + (xdr::wire_string(target) + (xdr::wire_string(objname) + (xdr::wire_bitmap(attrmask) + (xdr::wire_opaque(attr_vals) + t))));
    assert(grammar::parse_operation(s, opcode::CREATE) == grammar::parse_create(s)) by {
        reveal(grammar::parse_operation);
    }
    let s4 = xdr::wire_opaque(attr_vals) + t;
    let s3 = xdr::wire_bitmap(attrmask) + s4;
    let s2 = xdr::wire_string(objname) + s3;
    let s1 = xdr::wire_string(target) + s2;
    lemma_fattr(attrmask, attr_vals, t);
    xdr::u32_round_trip(5, s1);
    xdr::string_round_trip(target, s2);
    lemma_component(objname, s3);
}

/// Law: CREATE of a device is the type, the two numbers of the device, the name
/// and the attributes to give.
#[verifier::rlimit(30)]
pub proof fn a_create_of_a_device_takes_its_numbers(
    objtype: u32,
    major: u32,
    minor: u32,
    objname: Seq<char>,
    attrmask: Seq<u32>,
    attr_vals: Seq<u8>,
    t: Seq<u8>,
)
    requires
        encode_utf8(objname).len() <= u32::MAX,
        text::is_utf8str_cs(objname),
        attrmask.len() <= u32::MAX,
        attr_vals.len() <= u32::MAX,
        objtype == 3 || objtype == 4,
    ensures
        grammar::parse_operation(
            octets::be32(objtype) + (octets::be32(major) + (octets::be32(minor) + (xdr::wire_string(objname) + (xdr::wire_bitmap(attrmask) + (xdr::wire_opaque(attr_vals) + t))))),
            opcode::CREATE,
        ) == (
            Ok::<OperationView, XdrError>(
                OperationView::Create {
                    objtype: grammar::file_type(objtype),
                    objname,
                    linkdata: None,
                    createattrs: Fattr4View { attrmask, attr_vals },
                },
            ),
            t,
        ),
{
    let s = octets::be32(objtype) + (octets::be32(major) + (octets::be32(minor) + (xdr::wire_string(objname) + (xdr::wire_bitmap(attrmask) + (xdr::wire_opaque(attr_vals) + t)))));
    assert(grammar::parse_operation(s, opcode::CREATE) == grammar::parse_create(s)) by {
        reveal(grammar::parse_operation);
    }
    let s5 = xdr::wire_opaque(attr_vals) + t;
    let s4 = xdr::wire_bitmap(attrmask) + s5;
    let s3 = xdr::wire_string(objname) + s4;
    let s2 = octets::be32(minor) + s3;
    let s1 = octets::be32(major) + s2;
    lemma_fattr(attrmask, attr_vals, t);
    xdr::u32_round_trip(objtype, s1);
    xdr::u32_round_trip(major, s2);
    xdr::u32_round_trip(minor, s3);
    lemma_component(objname, s4);
}

// ---------------------------------------------------------------------------
// Layouts
// ---------------------------------------------------------------------------

/// Law: LAYOUTGET is whether to signal a layout later, the layout type, the
/// mode of access, the offset, the length that is wanted, the length that is
/// needed, a stateid and the room for the reply.
pub proof fn a_layoutget_says_what_is_wanted(
    signal_layout_avail: bool,
    layout_type: u32,
    iomode: u32,
    offset: u64,
    length: u64,
    minlength: u64,
    stateid: StateIdView,
    maxcount: u32,
    t: Seq<u8>,
)
    requires
        stateid.other.len() == 12,
    ensures
        grammar::parse_operation(
            xdr::wire_bool(signal_layout_avail) + (octets::be32(layout_type) + (octets::be32(iomode) + (octets::be64(offset) + (octets::be64(length) + (octets::be64(minlength) + (xdr::wire_stateid(stateid) + (octets::be32(maxcount) + t))))))),
            opcode::LAYOUTGET,
        ) == (
            Ok::<OperationView, XdrError>(
                OperationView::LayoutGet { signal_layout_avail, layout_type, iomode, offset, length, minlength, stateid, maxcount },
            ),
            t,
        ),
{
    let s = xdr::wire_bool(signal_layout_avail) + (octets::be32(layout_type) + (octets::be32(iomode) + (octets::be64(offset) + (octets::be64(length) + (octets::be64(minlength) + (xdr::wire_stateid(stateid) + (octets::be32(maxcount) + t)))))));
    assert(grammar::parse_operation(s, opcode::LAYOUTGET) == grammar::parse_layoutget(s)) by {
        reveal(grammar::parse_operation);
    }
    let s7 = octets::be32(maxcount) + t;
    let s6 = xdr::wire_stateid(stateid) + s7;
    let s5 = octets::be64(minlength) + s6;
    let s4 = octets::be64(length) + s5;
    let s3 = octets::be64(offset) + s4;
    let s2 = octets::be32(iomode) + s3;
    let s1 = octets::be32(layout_type) + s2;
    xdr::bool_round_trip(signal_layout_avail, s1);
    xdr::u32_round_trip(layout_type, s2);
    xdr::u32_round_trip(iomode, s3);
    xdr::u64_round_trip(offset, s4);
    xdr::u64_round_trip(length, s5);
    xdr::u64_round_trip(minlength, s6);
    xdr::stateid_round_trip(stateid, s7);
    xdr::u32_round_trip(maxcount, t);
}

/// `newoffset4`: whether there is one, and it.
pub open spec fn newoffset_octets(o: Option<u64>) -> Seq<u8> {
    match o {
        Some(v) => xdr::wire_bool(true) + octets::be64(v),
        None => xdr::wire_bool(false),
    }
}

/// `newtime4`: whether there is one, the seconds and the nanoseconds.
pub open spec fn newtime_octets(o: Option<(i64, u32)>) -> Seq<u8> {
    match o {
        Some(v) => xdr::wire_bool(true) + (octets::be64(v.0 as u64) + octets::be32(v.1)),
        None => xdr::wire_bool(false),
    }
}

proof fn lemma_newoffset(o: Option<u64>, t: Seq<u8>)
    ensures
        grammar::parse_newoffset(newoffset_octets(o) + t) == (Ok::<Option<u64>, XdrError>(o), t),
{
    broadcast use {xdr::bool_round_trip, xdr::u64_round_trip};

    if let Some(v) = o {
        xdr::lemma_concat_assoc(xdr::wire_bool(true), octets::be64(v), t);
    }
}

proof fn lemma_newtime(o: Option<(i64, u32)>, t: Seq<u8>)
    ensures
        grammar::parse_newtime(newtime_octets(o) + t) == (
            Ok::<Option<(i64, u32)>, XdrError>(o),
            t,
        ),
{
    broadcast use {xdr::bool_round_trip, xdr::u64_round_trip, xdr::u32_round_trip};

    if let Some(v) = o {
        let secs = v.0;
        let seconds = octets::be64(secs as u64);
        let nseconds = octets::be32(v.1);
        assert((secs as u64) as i64 == secs) by (bit_vector);
        xdr::lemma_concat_assoc(xdr::wire_bool(true), seconds + nseconds, t);
        xdr::lemma_concat_assoc(seconds, nseconds, t);
    }
}

/// Law: LAYOUTCOMMIT is the offset and the length, whether it is reclaimed, a
/// stateid, the last offset that was written, the time of it, the layout type
/// and what the layout needs to say. The last offset and the time may be
/// absent, and a time before the epoch keeps its sign.
pub proof fn a_layoutcommit_says_how_far_was_written(
    offset: u64,
    length: u64,
    reclaim: bool,
    stateid: StateIdView,
    layout_type: u32,
    layoutupdate: Seq<u8>,
    last_write_offset: Option<u64>,
    time_modify: Option<(i64, u32)>,
    t: Seq<u8>,
)
    requires
        stateid.other.len() == 12,
        layoutupdate.len() <= u32::MAX,
    ensures
        grammar::parse_operation(
            octets::be64(offset) + (octets::be64(length) + (xdr::wire_bool(reclaim) + (xdr::wire_stateid(stateid) + (newoffset_octets(last_write_offset) + (newtime_octets(time_modify) + (octets::be32(layout_type) + (xdr::wire_opaque(layoutupdate) + t))))))),
            opcode::LAYOUTCOMMIT,
        ) == (
            Ok::<OperationView, XdrError>(
                OperationView::LayoutCommit {
                    offset,
                    length,
                    reclaim,
                    stateid,
                    last_write_offset,
                    time_modify,
                    layout_type,
                    layoutupdate,
                },
            ),
            t,
        ),
{
    let s = octets::be64(offset) + (octets::be64(length) + (xdr::wire_bool(reclaim) + (xdr::wire_stateid(stateid) + (newoffset_octets(last_write_offset) + (newtime_octets(time_modify) + (octets::be32(layout_type) + (xdr::wire_opaque(layoutupdate) + t)))))));
    assert(grammar::parse_operation(s, opcode::LAYOUTCOMMIT) == grammar::parse_layoutcommit(s)) by {
        reveal(grammar::parse_operation);
    }
    let s7 = xdr::wire_opaque(layoutupdate) + t;
    let s6 = octets::be32(layout_type) + s7;
    let s5 = newtime_octets(time_modify) + s6;
    let s4 = newoffset_octets(last_write_offset) + s5;
    let s3 = xdr::wire_stateid(stateid) + s4;
    let s2 = xdr::wire_bool(reclaim) + s3;
    let s1 = octets::be64(length) + s2;
    lemma_newoffset(last_write_offset, s5);
    lemma_newtime(time_modify, s6);
    xdr::u64_round_trip(offset, s1);
    xdr::u64_round_trip(length, s2);
    xdr::bool_round_trip(reclaim, s3);
    xdr::stateid_round_trip(stateid, s4);
    xdr::u32_round_trip(layout_type, s7);
    xdr::opaque_round_trip(layoutupdate, t);
}

/// Law: LAYOUTRETURN for a file is whether it is reclaimed, the layout type,
/// the mode of access, and then the offset, the length, the stateid of the
/// layout and what the layout needs to say.
pub proof fn a_layoutreturn_says_the_range(
    reclaim: bool,
    layout_type: u32,
    iomode: u32,
    offset: u64,
    length: u64,
    stateid: StateIdView,
    body: Seq<u8>,
    t: Seq<u8>,
)
    requires
        stateid.other.len() == 12,
        body.len() <= u32::MAX,
    ensures
        grammar::parse_operation(
            xdr::wire_bool(reclaim) + (octets::be32(layout_type) + (octets::be32(iomode) + (octets::be32(1) + (octets::be64(offset) + (octets::be64(length) + (xdr::wire_stateid(stateid) + (xdr::wire_opaque(body) + t))))))),
            opcode::LAYOUTRETURN,
        ) == (
            Ok::<OperationView, XdrError>(
                OperationView::LayoutReturn {
                    reclaim,
                    layout_type,
                    iomode,
                    return_body: LayoutReturnView::File { offset, length, stateid, body },
                },
            ),
            t,
        ),
{
    let s = xdr::wire_bool(reclaim) + (octets::be32(layout_type) + (octets::be32(iomode) + (octets::be32(1) + (octets::be64(offset) + (octets::be64(length) + (xdr::wire_stateid(stateid) + (xdr::wire_opaque(body) + t)))))));
    assert(grammar::parse_operation(s, opcode::LAYOUTRETURN) == grammar::parse_layoutreturn(s)) by {
        reveal(grammar::parse_operation);
    }
    let s7 = xdr::wire_opaque(body) + t;
    let s6 = xdr::wire_stateid(stateid) + s7;
    let s5 = octets::be64(length) + s6;
    let s4 = octets::be64(offset) + s5;
    let s3 = octets::be32(1) + s4;
    let s2 = octets::be32(iomode) + s3;
    let s1 = octets::be32(layout_type) + s2;
    xdr::bool_round_trip(reclaim, s1);
    xdr::u32_round_trip(layout_type, s2);
    xdr::u32_round_trip(iomode, s3);
    xdr::u32_round_trip(1, s4);
    xdr::u64_round_trip(offset, s5);
    xdr::u64_round_trip(length, s6);
    xdr::stateid_round_trip(stateid, s7);
    xdr::opaque_round_trip(body, t);
}

/// Law: LAYOUTRETURN may speak of every layout in the filesystem.
pub proof fn a_layoutreturn_may_speak_of_the_filesystem(
    reclaim: bool,
    layout_type: u32,
    iomode: u32,
    t: Seq<u8>,
)
    ensures
        grammar::parse_operation(
            xdr::wire_bool(reclaim) + (octets::be32(layout_type) + (octets::be32(iomode) + (octets::be32(2) + t))),
            opcode::LAYOUTRETURN,
        ) == (
            Ok::<OperationView, XdrError>(
                OperationView::LayoutReturn {
                    reclaim,
                    layout_type,
                    iomode,
                    return_body: LayoutReturnView::Fsid,
                },
            ),
            t,
        ),
{
    let s = xdr::wire_bool(reclaim) + (octets::be32(layout_type) + (octets::be32(iomode) + (octets::be32(2) + t)));
    assert(grammar::parse_operation(s, opcode::LAYOUTRETURN) == grammar::parse_layoutreturn(s)) by {
        reveal(grammar::parse_operation);
    }
    let s3 = octets::be32(2) + t;
    let s2 = octets::be32(iomode) + s3;
    let s1 = octets::be32(layout_type) + s2;
    xdr::bool_round_trip(reclaim, s1);
    xdr::u32_round_trip(layout_type, s2);
    xdr::u32_round_trip(iomode, s3);
    xdr::u32_round_trip(2, t);
}

/// Law: LAYOUTRETURN may speak of every layout of the client.
pub proof fn a_layoutreturn_may_speak_of_everything(
    reclaim: bool,
    layout_type: u32,
    iomode: u32,
    t: Seq<u8>,
)
    ensures
        grammar::parse_operation(
            xdr::wire_bool(reclaim) + (octets::be32(layout_type) + (octets::be32(iomode) + (octets::be32(3) + t))),
            opcode::LAYOUTRETURN,
        ) == (
            Ok::<OperationView, XdrError>(
                OperationView::LayoutReturn {
                    reclaim,
                    layout_type,
                    iomode,
                    return_body: LayoutReturnView::All,
                },
            ),
            t,
        ),
{
    let s = xdr::wire_bool(reclaim) + (octets::be32(layout_type) + (octets::be32(iomode) + (octets::be32(3) + t)));
    assert(grammar::parse_operation(s, opcode::LAYOUTRETURN) == grammar::parse_layoutreturn(s)) by {
        reveal(grammar::parse_operation);
    }
    let s3 = octets::be32(3) + t;
    let s2 = octets::be32(iomode) + s3;
    let s1 = octets::be32(layout_type) + s2;
    xdr::bool_round_trip(reclaim, s1);
    xdr::u32_round_trip(layout_type, s2);
    xdr::u32_round_trip(iomode, s3);
    xdr::u32_round_trip(3, t);
}

/// Law: GETDEVICEINFO is the device, the layout type, the room for the reply
/// and the notifications that are wanted.
pub proof fn a_getdeviceinfo_says_the_device(
    device_id: Seq<u8>,
    layout_type: u32,
    maxcount: u32,
    notify_types: Seq<u32>,
    t: Seq<u8>,
)
    requires
        device_id.len() == 16,
        notify_types.len() <= u32::MAX,
    ensures
        grammar::parse_operation(
            xdr::wire_fixed(device_id) + (octets::be32(layout_type) + (octets::be32(maxcount) + (xdr::wire_bitmap(notify_types) + t))),
            opcode::GETDEVICEINFO,
        ) == (
            Ok::<OperationView, XdrError>(
                OperationView::GetDeviceInfo { device_id, layout_type, maxcount, notify_types },
            ),
            t,
        ),
{
    let s = xdr::wire_fixed(device_id) + (octets::be32(layout_type) + (octets::be32(maxcount) + (xdr::wire_bitmap(notify_types) + t)));
    assert(grammar::parse_operation(s, opcode::GETDEVICEINFO) == grammar::parse_getdeviceinfo(s)) by {
        reveal(grammar::parse_operation);
    }
    let s3 = xdr::wire_bitmap(notify_types) + t;
    let s2 = octets::be32(maxcount) + s3;
    let s1 = octets::be32(layout_type) + s2;
    let words = xdr::wire_words(notify_types);
    xdr::words_round_trip(notify_types, t);
    xdr::lemma_concat_assoc(octets::be32(notify_types.len() as u32), words, t);
    xdr::fixed_round_trip(device_id, 16, s1);
    xdr::u32_round_trip(layout_type, s2);
    xdr::u32_round_trip(maxcount, s3);
    xdr::bitmap_round_trip(notify_types, t);
}

} // verus!
