//! What a client reads in a layout and in a device address, and what a layout tells it
//! of where the octets of a file lie.
use crate::dispatcher::layout::codec;
use crate::dispatcher::layout::codec::{IoMode, LayoutSegment, SlotRequest};
use crate::compound::types::LayoutReturn4Body;
use crate::compound::results::OperationResult;
use crate::dispatcher::layout::commit;
use crate::dispatcher::layout::commit::{Applied, CommitFacts, CommitOutcome};
use crate::dispatcher::layout::device;
use crate::dispatcher::layout::device::DeviceStep;
use crate::dispatcher::layout::get;
use crate::dispatcher::layout::get::{
    ExtentAllocError, GrantOutcome, Layout, LayoutGetFacts, LayoutGetResult, LayoutGetStep,
    LayoutRequest, ScsiFacts, ScsiGrant,
};
use crate::dispatcher::layout::give_back;
use crate::dispatcher::layout::give_back::{
    GrantRange, LayoutReturnError, LayoutReturnStep, TakenLayout,
};
use crate::dispatcher::layout::scsi;
use crate::dispatcher::layout::scsi::{GrantedExtent, ScsiSegment};
use crate::octets;
use crate::protocol::Nfs4Status;
use crate::text;
use crate::xdr;
use crate::xdr::XdrError;
use vstd::prelude::*;
use vstd::utf8::*;

verus! {

proof fn lemma_join_3(a: Seq<u8>, b: Seq<u8>, c: Seq<u8>, t: Seq<u8>)
    ensures
        a + b + c + t == a + (b + (c + t)),
{
    xdr::lemma_concat_assoc(a + b, c, t);
    xdr::lemma_concat_assoc(a, b, c + t);
}

proof fn lemma_join_5(a: Seq<u8>, b: Seq<u8>, c: Seq<u8>, d: Seq<u8>, e: Seq<u8>, t: Seq<u8>)
    ensures
        a + b + c + d + e + t == a + (b + (c + (d + (e + t)))),
{
    lemma_join_3(a + b + c, d, e, t);
    lemma_join_3(a, b, c, d + (e + t));
}

proof fn lemma_join_6(
    a: Seq<u8>,
    b: Seq<u8>,
    c: Seq<u8>,
    d: Seq<u8>,
    e: Seq<u8>,
    f: Seq<u8>,
    t: Seq<u8>,
)
    ensures
        a + b + c + d + e + f + t == a + (b + (c + (d + (e + (f + t))))),
{
    lemma_join_5(a + b, c, d, e, f, t);
    xdr::lemma_concat_assoc(a, b, c + (d + (e + (f + t))));
}

// ---------------------------------------------------------------------------
// SCSI layouts
// ---------------------------------------------------------------------------

/// Law: the states of a segment have these numbers.
pub proof fn the_states_have_their_numbers()
    ensures
        scsi::READ_WRITE_DATA == 0,
        scsi::READ_DATA == 1,
        scsi::INVALID_DATA == 2,
        scsi::NONE_DATA == 3,
{
}

/// What a client reads in the segments of a SCSI layout (RFC 8154 section 2.3): for
/// each the device, where it lies in the file, how long it is, where it lies on the
/// volume and in which state.
pub open spec fn scsi_segments_read(
    s: Seq<u8>,
    v: Seq<ScsiSegment>,
    device_id: Seq<u8>,
    rest: Seq<u8>,
) -> bool
    decreases v.len(),
{
    if v.len() == 0 {
        s == rest
    } else {
        let (device, s) = xdr::parse_fixed(s, 16);
        let (file_offset, s) = xdr::parse_u64(s);
        let (length, s) = xdr::parse_u64(s);
        let (storage_offset, s) = xdr::parse_u64(s);
        let (state, s) = xdr::parse_u32(s);
        &&& device == Ok::<Seq<u8>, XdrError>(device_id)
        &&& file_offset == Ok::<u64, XdrError>(v[0].file_offset)
        &&& length == Ok::<u64, XdrError>(v[0].length)
        &&& storage_offset == Ok::<u64, XdrError>(v[0].storage_offset)
        &&& state == Ok::<u32, XdrError>(v[0].state)
        &&& scsi_segments_read(s, v.skip(1), device_id, rest)
    }
}

proof fn lemma_scsi_front(v: Seq<ScsiSegment>, device_id: Seq<u8>)
    requires
        v.len() > 0,
    ensures
        scsi::wire_segments(v, device_id) == scsi::wire_segment(v[0], device_id)
            + scsi::wire_segments(v.skip(1), device_id),
    decreases v.len(),
{
    if v.len() == 1 {
        assert(v.drop_last() =~= Seq::<ScsiSegment>::empty());
        assert(v.skip(1) =~= Seq::<ScsiSegment>::empty());
        reveal_with_fuel(scsi::wire_segments, 2);
        let one = scsi::wire_segment(v[0], device_id);
        assert(Seq::<u8>::empty() + one =~= one + Seq::<u8>::empty());
    } else {
        lemma_scsi_front(v.drop_last(), device_id);
        assert(v.skip(1).drop_last() =~= v.drop_last().skip(1));
        xdr::lemma_concat_assoc(
            scsi::wire_segment(v[0], device_id),
            scsi::wire_segments(v.skip(1).drop_last(), device_id),
            scsi::wire_segment(v.last(), device_id),
        );
    }
}

/// Law: a segment of a SCSI layout is read back field for field: the device, the
/// offset in the file, the length, the offset on the volume and the state.
pub proof fn a_scsi_segment_is_read_back(g: ScsiSegment, device_id: Seq<u8>, t: Seq<u8>)
    requires
        device_id.len() == 16,
    ensures
        ({
            let (device, s) = xdr::parse_fixed(scsi::wire_segment(g, device_id) + t, 16);
            let (file_offset, s) = xdr::parse_u64(s);
            let (length, s) = xdr::parse_u64(s);
            let (storage_offset, s) = xdr::parse_u64(s);
            let (state, s) = xdr::parse_u32(s);
            &&& device == Ok::<Seq<u8>, XdrError>(device_id)
            &&& file_offset == Ok::<u64, XdrError>(g.file_offset)
            &&& length == Ok::<u64, XdrError>(g.length)
            &&& storage_offset == Ok::<u64, XdrError>(g.storage_offset)
            &&& state == Ok::<u32, XdrError>(g.state)
            &&& s == t
        }),
{
    let s4 = octets::be32(g.state) + t;
    let s3 = octets::be64(g.storage_offset) + s4;
    let s2 = octets::be64(g.length) + s3;
    let s1 = octets::be64(g.file_offset) + s2;
    lemma_join_5(
        xdr::wire_fixed(device_id),
        octets::be64(g.file_offset),
        octets::be64(g.length),
        octets::be64(g.storage_offset),
        octets::be32(g.state),
        t,
    );
    xdr::fixed_round_trip(device_id, 16, s1);
    xdr::u64_round_trip(g.file_offset, s2);
    xdr::u64_round_trip(g.length, s3);
    xdr::u64_round_trip(g.storage_offset, s4);
    xdr::u32_round_trip(g.state, t);
}

proof fn lemma_scsi_segments_read(v: Seq<ScsiSegment>, device_id: Seq<u8>, t: Seq<u8>)
    requires
        device_id.len() == 16,
    ensures
        scsi_segments_read(scsi::wire_segments(v, device_id) + t, v, device_id, t),
    decreases v.len(),
{
    if v.len() == 0 {
        assert(scsi::wire_segments(v, device_id) + t =~= t);
    } else {
        let rest = scsi::wire_segments(v.skip(1), device_id);
        lemma_scsi_segments_read(v.skip(1), device_id, t);
        lemma_scsi_front(v, device_id);
        xdr::lemma_concat_assoc(scsi::wire_segment(v[0], device_id), rest, t);
        a_scsi_segment_is_read_back(v[0], device_id, rest + t);
    }
}

/// Law: the body of a SCSI layout is read back as the segments that it was made from,
/// in order and field for field.
pub proof fn a_scsi_layout_is_read_back(v: Seq<ScsiSegment>, device_id: Seq<u8>, t: Seq<u8>)
    requires
        device_id.len() == 16,
        v.len() <= u32::MAX,
    ensures
        ({
            let (n, s) = xdr::parse_u32(scsi::wire_scsi_layout(v, device_id) + t);
            n == Ok::<u32, XdrError>(v.len() as u32) && scsi_segments_read(s, v, device_id, t)
        }),
{
    let segments = scsi::wire_segments(v, device_id);
    xdr::lemma_concat_assoc(octets::be32(v.len() as u32), segments, t);
    xdr::u32_round_trip(v.len() as u32, segments + t);
    lemma_scsi_segments_read(v, device_id, t);
}

/// Law: the address of a block device is one volume, which is a base volume named in
/// binary by an EUI-64, the identifier, and the key that the client reserves with.
pub proof fn a_scsi_device_is_read_back(nguid: Seq<u8>, pr_key: u64, t: Seq<u8>)
    requires
        nguid.len() == 16,
    ensures
        ({
            let (volumes, s) = xdr::parse_u32(scsi::wire_scsi_device(nguid, pr_key) + t);
            let (kind, s) = xdr::parse_u32(s);
            let (code_set, s) = xdr::parse_u32(s);
            let (designator, s) = xdr::parse_u32(s);
            let (id, s) = xdr::parse_opaque(s);
            let (key, s) = xdr::parse_u64(s);
            &&& volumes == Ok::<u32, XdrError>(1)
            &&& kind == Ok::<u32, XdrError>(4)
            &&& code_set == Ok::<u32, XdrError>(1)
            &&& designator == Ok::<u32, XdrError>(2)
            &&& id == Ok::<Seq<u8>, XdrError>(nguid)
            &&& key == Ok::<u64, XdrError>(pr_key)
            &&& s == t
        }),
{
    let s5 = octets::be64(pr_key) + t;
    let s4 = xdr::wire_opaque(nguid) + s5;
    let s3 = octets::be32(2) + s4;
    let s2 = octets::be32(1) + s3;
    let s1 = octets::be32(4) + s2;
    lemma_join_6(
        octets::be32(1),
        octets::be32(4),
        octets::be32(1),
        octets::be32(2),
        xdr::wire_opaque(nguid),
        octets::be64(pr_key),
        t,
    );
    xdr::u32_round_trip(1, s1);
    xdr::u32_round_trip(4, s2);
    xdr::u32_round_trip(1, s3);
    xdr::u32_round_trip(2, s4);
    xdr::opaque_round_trip(nguid, s5);
    xdr::u64_round_trip(pr_key, t);
}

/// Whether an octet of the file lies in a segment.
pub open spec fn lies_in(g: ScsiSegment, p: int) -> bool {
    g.file_offset <= p < g.end()
}

/// Where on the volume a segment says that an octet of the file lies.
pub open spec fn place(g: ScsiSegment, p: int) -> int {
    g.storage_offset + (p - g.file_offset)
}

proof fn lemma_laid_reaches(extents: Seq<GrantedExtent>, offset: int, end: int, i: int, p: int)
    requires
        scsi::all_fit(extents),
        0 <= offset <= p < end <= u64::MAX,
        0 <= i < extents.len(),
        extents[i].logical_offset <= p < extents[i].end(),
    ensures
        exists|k: int|
            0 <= k < scsi::laid(extents, offset, end).len() && (#[trigger] scsi::laid(
                extents,
                offset,
                end,
            )[k]).state == 1 && lies_in(scsi::laid(extents, offset, end)[k], p) && place(
                scsi::laid(extents, offset, end)[k],
                p,
            ) == extents[i].physical_offset + (p - extents[i].logical_offset),
    decreases extents.len(),
{
    let front = extents.drop_last();
    let v = scsi::laid(extents, offset, end);
    assert forall|j: int| 0 <= j < front.len() implies (#[trigger] front[j]).fits() by {
        assert(extents[j].fits());
    }
    assert(extents[i].fits());
    if i == extents.len() - 1 {
        assert(scsi::clip(extents.last(), offset, end) is Some);
        let k = v.len() - 1;
        assert(v[k] == v.last());
        assert(v[k].state == 1 && lies_in(v[k], p));
    } else {
        lemma_laid_reaches(front, offset, end, i, p);
        let w = scsi::laid(front, offset, end);
        let k = choose|k: int|
            0 <= k < w.len() && (#[trigger] w[k]).state == 1 && lies_in(w[k], p) && place(w[k], p)
                == front[i].physical_offset + (p - front[i].logical_offset);
        assert(v[k] == w[k]);
    }
}

/// Law: in a layout for reading every octet of an extent within the window is data,
/// and lies where the extent has it on the volume.
pub proof fn a_read_layout_shows_all_that_was_granted(
    extents: Seq<GrantedExtent>,
    offset: u64,
    length: u64,
    i: int,
    p: int,
)
    requires
        scsi::all_fit(extents),
        0 <= i < extents.len(),
        extents[i].logical_offset <= p < extents[i].end(),
        offset <= p < offset + length,
        p < u64::MAX,
    ensures
        exists|k: int|
            0 <= k < scsi::read_view(extents, offset, length).len() && (#[trigger] scsi::read_view(
                extents,
                offset,
                length,
            )[k]).state == 1 && lies_in(scsi::read_view(extents, offset, length)[k], p) && place(
                scsi::read_view(extents, offset, length)[k],
                p,
            ) == extents[i].physical_offset + (p - extents[i].logical_offset),
{
    let end = scsi::window_end(offset, length);
    lemma_laid_reaches(extents, offset as int, end, i, p);
    let w = scsi::laid(extents, offset as int, end);
    let v = scsi::read_view(extents, offset, length);
    let k = choose|k: int|
        0 <= k < w.len() && (#[trigger] w[k]).state == 1 && lies_in(w[k], p) && place(w[k], p)
            == extents[i].physical_offset + (p - extents[i].logical_offset);
    assert(v[k] == w[k]);
}

/// Law: a layout for writing has a segment for each extent, in order: the same octets
/// of the file at the same place on the volume. What was committed is there to read and
/// write; what was not reads as zeros until it is.
pub proof fn a_write_layout_shows_each_extent(extents: Seq<GrantedExtent>, i: int, p: int)
    requires
        0 <= i < extents.len(),
    ensures
        scsi::write_view(extents).len() == extents.len(),
        ({
            let x = extents[i];
            let g = scsi::write_view(extents)[i];
            &&& lies_in(g, p) <==> x.logical_offset <= p < x.logical_offset + x.length
            &&& place(g, p) - x.physical_offset == p - x.logical_offset
            &&& x.committed <==> g.state == 0
            &&& !x.committed <==> g.state == 2
        }),
{
}

/// Law: the span of a layout for writing begins where one of its extents begins and ends
/// where one of them ends.
pub proof fn a_write_layout_spans_no_more_than_its_extents(extents: Seq<GrantedExtent>)
    requires
        extents.len() > 0,
        scsi::all_fit(extents),
    ensures
        exists|i: int|
            0 <= i < extents.len() && (#[trigger] extents[i]).logical_offset == scsi::lowest(
                extents,
            ),
        scsi::highest(extents) > 0 ==> exists|i: int|
            0 <= i < extents.len() && (#[trigger] extents[i]).end() == scsi::highest(extents),
    decreases extents.len(),
{
    let front = extents.drop_last();
    let n = extents.len() - 1;
    assert(extents[n] == extents.last());
    assert(extents[n].fits());
    assert forall|j: int| 0 <= j < front.len() implies (#[trigger] front[j]).fits() by {
        assert(extents[j].fits());
    }
    if front.len() > 0 {
        a_write_layout_spans_no_more_than_its_extents(front);
        let i = choose|i: int|
            0 <= i < front.len() && (#[trigger] front[i]).logical_offset == scsi::lowest(front);
        assert(extents[i] == front[i]);
        if scsi::highest(front) > 0 {
            let j = choose|j: int|
                0 <= j < front.len() && (#[trigger] front[j]).end() == scsi::highest(front);
            assert(extents[j] == front[j]);
        }
    } else {
        assert(scsi::lowest(front) == u64::MAX);
        assert(scsi::highest(front) == 0);
    }
}

/// Law: an extent fits when neither its end in the file nor its last octet on the
/// volume is past what 64 bits can count to.
pub proof fn an_extent_fits_where_its_last_octet_has_a_number(x: GrantedExtent)
    ensures
        x.fits() <==> x.logical_offset + x.length <= 0xffff_ffff_ffff_ffff && (x.length > 0
            ==> x.physical_offset + x.length - 1 <= 0xffff_ffff_ffff_ffff),
{
}

// ---------------------------------------------------------------------------
// The reply to LAYOUTGET
// ---------------------------------------------------------------------------

/// Law: a grant of blocks is to be returned on close, and says its stateid, one layout,
/// the range, the mode, the type 5 and the body.
pub proof fn a_scsi_grant_is_read_back(
    stateid: Seq<u8>,
    offset: u64,
    length: u64,
    iomode: u32,
    content: Seq<u8>,
    t: Seq<u8>,
)
    requires
        stateid.len() == 16,
        content.len() <= u32::MAX,
    ensures
        ({
            let s = get::wire_scsi_grant(stateid, offset, length, iomode, content) + t;
            let (on_close, s) = xdr::parse_bool(s);
            let (id, s) = xdr::parse_fixed(s, 16);
            let (layouts, s) = xdr::parse_u32(s);
            let (from, s) = xdr::parse_u64(s);
            &&& on_close == Ok::<bool, XdrError>(true)
            &&& id == Ok::<Seq<u8>, XdrError>(stateid)
            &&& layouts == Ok::<u32, XdrError>(1)
            &&& from == Ok::<u64, XdrError>(offset)
            &&& s == octets::be64(length) + (octets::be32(iomode) + (octets::be32(5) + (
            xdr::wire_opaque(content) + t)))
        }),
        ({
            let s = octets::be64(length) + (octets::be32(iomode) + (octets::be32(5) + (
            xdr::wire_opaque(content) + t)));
            let (long, s) = xdr::parse_u64(s);
            let (mode, s) = xdr::parse_u32(s);
            let (kind, s) = xdr::parse_u32(s);
            let (body, s) = xdr::parse_opaque(s);
            &&& long == Ok::<u64, XdrError>(length)
            &&& mode == Ok::<u32, XdrError>(iomode)
            &&& kind == Ok::<u32, XdrError>(5)
            &&& body == Ok::<Seq<u8>, XdrError>(content)
            &&& s == t
        }),
{
    let s7 = xdr::wire_opaque(content) + t;
    let s6 = octets::be32(5) + s7;
    let s5 = octets::be32(iomode) + s6;
    let s4 = octets::be64(length) + s5;
    let s3 = octets::be64(offset) + s4;
    let s2 = octets::be32(1) + s3;
    let s1 = xdr::wire_fixed(stateid) + s2;
    let head = xdr::wire_bool(true) + xdr::wire_fixed(stateid) + octets::be32(1);
    lemma_join_6(
        head,
        octets::be64(offset),
        octets::be64(length),
        octets::be32(iomode),
        octets::be32(5),
        xdr::wire_opaque(content),
        t,
    );
    lemma_join_3(xdr::wire_bool(true), xdr::wire_fixed(stateid), octets::be32(1), s3);
    xdr::bool_round_trip(true, s1);
    xdr::fixed_round_trip(stateid, 16, s2);
    xdr::u32_round_trip(1, s3);
    xdr::u64_round_trip(offset, s4);
    xdr::u64_round_trip(length, s5);
    xdr::u32_round_trip(iomode, s6);
    xdr::u32_round_trip(5, s7);
    xdr::opaque_round_trip(content, t);
}

/// Law: a grant for reading, mode 1, covers the window that was asked for with what is
/// there to read. A grant for writing, mode 2, covers its extents from the first octet
/// to the last, and the window where there are none.
pub proof fn a_scsi_grant_covers_what_was_asked_for(
    g: ScsiGrant,
    extents: Seq<GrantedExtent>,
    stateid: Seq<u8>,
    device_id: Seq<u8>,
)
    ensures
        g.read ==> get::scsi_grant_octets(g, extents, stateid, device_id) == get::wire_scsi_grant(
            stateid,
            g.offset,
            g.length,
            1,
            scsi::wire_scsi_layout(scsi::read_view(extents, g.offset, g.length), device_id),
        ),
        !g.read && extents.len() == 0 ==> get::scsi_grant_octets(g, extents, stateid, device_id)
            == get::wire_scsi_grant(
            stateid,
            g.offset,
            g.length,
            2,
            scsi::wire_scsi_layout(Seq::empty(), device_id),
        ),
        !g.read && extents.len() > 0 && scsi::all_fit(extents) ==> exists|low: u64, high: u64|
            {
                &&& low <= high
                &&& forall|i: int|
                    0 <= i < extents.len() ==> low <= (#[trigger] extents[i]).logical_offset
                        && extents[i].end() <= high
                &&& get::scsi_grant_octets(g, extents, stateid, device_id)
                    == #[trigger] get::wire_scsi_grant(
                    stateid,
                    low,
                    (high - low) as u64,
                    2,
                    scsi::wire_scsi_layout(scsi::write_view(extents), device_id),
                )
            },
{
    assert(scsi::write_view(Seq::empty()) =~= Seq::<ScsiSegment>::empty());
    if extents.len() == 0 {
        assert(extents =~= Seq::empty());
    }
    if extents.len() > 0 && scsi::all_fit(extents) {
        assert forall|i: int| 0 <= i < extents.len() implies scsi::lowest(extents) <= (
        #[trigger] extents[i]).logical_offset && extents[i].end() <= scsi::highest(extents) by {
            scsi::a_write_layout_spans_its_extents(extents, i);
        }
        a_write_layout_spans_no_more_than_its_extents(extents);
        assert(extents[0].fits());
        if scsi::highest(extents) > 0 {
            let j = choose|j: int|
                0 <= j < extents.len() && (#[trigger] extents[j]).end() == scsi::highest(extents);
            assert(extents[j].fits());
        }
        let low = scsi::lowest(extents);
        let high = scsi::highest(extents) as u64;
        assert(low <= extents[0].logical_offset && extents[0].end() <= high);
        let octets = get::wire_scsi_grant(
            stateid,
            low,
            (high - low) as u64,
            2,
            scsi::wire_scsi_layout(scsi::write_view(extents), device_id),
        );
    }
}

/// Law: a file layout of a metadata server says its range, the mode, the type 1 and the
/// content.
pub proof fn a_layout_is_read_back(l: Layout, iomode: u32, seed: u64, t: Seq<u8>)
    requires
        codec::layout_content(
            codec::octet_views(l.stripe_fhs@),
            l.stripe_unit,
            l.device_id@,
            l.file_id,
            seed,
        ).len() <= u32::MAX,
    ensures
        ({
            let (offset, s) = xdr::parse_u64(get::wire_layout(l, iomode, seed) + t);
            let (length, s) = xdr::parse_u64(s);
            let (mode, s) = xdr::parse_u32(s);
            let (kind, s) = xdr::parse_u32(s);
            let (content, s) = xdr::parse_opaque(s);
            &&& offset == Ok::<u64, XdrError>(l.offset)
            &&& length == Ok::<u64, XdrError>(l.length)
            &&& mode == Ok::<u32, XdrError>(iomode)
            &&& kind == Ok::<u32, XdrError>(1)
            &&& content == Ok::<Seq<u8>, XdrError>(
                codec::layout_content(
                    codec::octet_views(l.stripe_fhs@),
                    l.stripe_unit,
                    l.device_id@,
                    l.file_id,
                    seed,
                ),
            )
            &&& s == t
        }),
{
    let content = codec::layout_content(
        codec::octet_views(l.stripe_fhs@),
        l.stripe_unit,
        l.device_id@,
        l.file_id,
        seed,
    );
    let s4 = xdr::wire_opaque(content) + t;
    let s3 = octets::be32(1) + s4;
    let s2 = octets::be32(iomode) + s3;
    let s1 = octets::be64(l.length) + s2;
    lemma_join_5(
        octets::be64(l.offset),
        octets::be64(l.length),
        octets::be32(iomode),
        octets::be32(1),
        xdr::wire_opaque(content),
        t,
    );
    xdr::u64_round_trip(l.offset, s1);
    xdr::u64_round_trip(l.length, s2);
    xdr::u32_round_trip(iomode, s3);
    xdr::u32_round_trip(1, s4);
    xdr::opaque_round_trip(content, t);
}

/// Law: a grant of the metadata server says whether it is to be returned on close, its
/// stateid, the number of its layouts and the layouts.
pub proof fn a_file_grant_is_read_back(g: LayoutGetResult, iomode: u32, seed: u64, t: Seq<u8>)
    requires
        g.layouts@.len() <= u32::MAX,
    ensures
        ({
            let (on_close, s) = xdr::parse_bool(get::wire_layoutget(g, iomode, seed) + t);
            let (stateid, s) = xdr::parse_fixed(s, 16);
            let (n, s) = xdr::parse_u32(s);
            &&& on_close == Ok::<bool, XdrError>(g.return_on_close)
            &&& stateid == Ok::<Seq<u8>, XdrError>(g.stateid@)
            &&& n == Ok::<u32, XdrError>(g.layouts@.len() as u32)
            &&& s == get::wire_layouts(g.layouts@, iomode, seed) + t
        }),
{
    let n = octets::be32(g.layouts@.len() as u32);
    let v = get::wire_layouts(g.layouts@, iomode, seed);
    let head = xdr::wire_bool(g.return_on_close) + xdr::wire_fixed(g.stateid@);
    lemma_join_3(head, n, v, t);
    xdr::lemma_concat_assoc(
        xdr::wire_bool(g.return_on_close),
        xdr::wire_fixed(g.stateid@),
        n + (v + t),
    );
    xdr::bool_round_trip(g.return_on_close, xdr::wire_fixed(g.stateid@) + (n + (v + t)));
    xdr::fixed_round_trip(g.stateid@, 16, n + (v + t));
    xdr::u32_round_trip(g.layouts@.len() as u32, v + t);
}

/// Law: the layouts of a grant come in order.
pub proof fn layouts_come_in_order(v: Seq<Layout>, l: Layout, iomode: u32, seed: u64)
    ensures
        get::wire_layouts(Seq::empty(), iomode, seed) == Seq::<u8>::empty(),
        get::wire_layouts(v.push(l), iomode, seed) == get::wire_layouts(v, iomode, seed)
            + get::wire_layout(l, iomode, seed),
{
    assert(v.push(l).drop_last() =~= v);
}

/// What a client reads in a list of filehandles.
pub open spec fn handles_read(s: Seq<u8>, fhs: Seq<Seq<u8>>, rest: Seq<u8>) -> bool
    decreases fhs.len(),
{
    if fhs.len() == 0 {
        s == rest
    } else {
        let (fh, s) = xdr::parse_opaque(s);
        fh == Ok::<Seq<u8>, XdrError>(fhs[0]) && handles_read(s, fhs.skip(1), rest)
    }
}

proof fn lemma_opaques_front(v: Seq<Seq<u8>>)
    requires
        v.len() > 0,
    ensures
        codec::wire_opaques(v) == xdr::wire_opaque(v[0]) + codec::wire_opaques(v.skip(1)),
    decreases v.len(),
{
    if v.len() == 1 {
        assert(v.drop_last() =~= Seq::<Seq<u8>>::empty());
        assert(v.skip(1) =~= Seq::<Seq<u8>>::empty());
        reveal_with_fuel(codec::wire_opaques, 2);
        let one = xdr::wire_opaque(v[0]);
        assert(Seq::<u8>::empty() + one =~= one + Seq::<u8>::empty());
    } else {
        lemma_opaques_front(v.drop_last());
        assert(v.skip(1).drop_last() =~= v.drop_last().skip(1));
        xdr::lemma_concat_assoc(
            xdr::wire_opaque(v[0]),
            codec::wire_opaques(v.skip(1).drop_last()),
            xdr::wire_opaque(v.last()),
        );
    }
}

proof fn lemma_handles_read(v: Seq<Seq<u8>>, t: Seq<u8>)
    requires
        forall|i: int| 0 <= i < v.len() ==> (#[trigger] v[i]).len() <= u32::MAX,
    ensures
        handles_read(codec::wire_opaques(v) + t, v, t),
    decreases v.len(),
{
    if v.len() == 0 {
        assert(codec::wire_opaques(v) + t =~= t);
    } else {
        let rest = v.skip(1);
        assert forall|i: int| 0 <= i < rest.len() implies (#[trigger] rest[i]).len()
            <= u32::MAX by {
            assert(rest[i] == v[i + 1]);
        }
        lemma_handles_read(rest, t);
        lemma_opaques_front(v);
        xdr::lemma_concat_assoc(xdr::wire_opaque(v[0]), codec::wire_opaques(rest), t);
        assert(v[0].len() <= u32::MAX);
        xdr::opaque_round_trip(v[0], codec::wire_opaques(rest) + t);
    }
}

/// Law: the content of a file layout says the device, the width of a stripe, on which
/// data server the first stripe lies, that the pattern starts at the beginning of the
/// file, and the filehandle of the file on each data server, in the order of the
/// stripes.
pub proof fn a_file_layout_is_read_back(
    device_id: Seq<u8>,
    stripe_unit: u64,
    first: u32,
    fhs: Seq<Seq<u8>>,
    t: Seq<u8>,
)
    requires
        device_id.len() == 16,
        stripe_unit <= u32::MAX,
        fhs.len() <= u32::MAX,
        forall|i: int| 0 <= i < fhs.len() ==> (#[trigger] fhs[i]).len() <= u32::MAX,
    ensures
        ({
            let s = codec::wire_file_layout(device_id, stripe_unit, first, fhs) + t;
            let (device, s) = xdr::parse_fixed(s, 16);
            let (unit, s) = xdr::parse_u32(s);
            let (index, s) = xdr::parse_u32(s);
            let (pattern, s) = xdr::parse_u64(s);
            let (n, s) = xdr::parse_u32(s);
            &&& device == Ok::<Seq<u8>, XdrError>(device_id)
            &&& unit matches Ok(u) && u == stripe_unit
            &&& index == Ok::<u32, XdrError>(first)
            &&& pattern == Ok::<u64, XdrError>(0)
            &&& n == Ok::<u32, XdrError>(fhs.len() as u32)
            &&& handles_read(s, fhs, t)
        }),
{
    let v = codec::wire_opaques(fhs);
    let s5 = v + t;
    let s4 = octets::be32(fhs.len() as u32) + s5;
    let s3 = octets::be64(0) + s4;
    let s2 = octets::be32(first) + s3;
    let s1 = octets::be32(stripe_unit as u32) + s2;
    lemma_join_6(
        xdr::wire_fixed(device_id),
        octets::be32(stripe_unit as u32),
        octets::be32(first),
        octets::be64(0),
        octets::be32(fhs.len() as u32),
        v,
        t,
    );
    xdr::fixed_round_trip(device_id, 16, s1);
    xdr::u32_round_trip(stripe_unit as u32, s2);
    xdr::u32_round_trip(first, s3);
    xdr::u64_round_trip(0, s4);
    xdr::u32_round_trip(fhs.len() as u32, s5);
    lemma_handles_read(fhs, t);
}

/// Law: the first stripe of a file lies on the data server that its number leaves as a
/// remainder, and each data server knows the file by its own filehandle. A file without
/// a number starts where `seed` says, under the filehandle of the metadata server.
pub proof fn a_file_starts_where_its_number_says(
    fhs: Seq<Seq<u8>>,
    stripe_unit: u64,
    device_id: Seq<u8>,
    file_id: u64,
    seed: u64,
)
    requires
        0 < fhs.len() <= u32::MAX,
    ensures
        file_id != 0 ==> codec::layout_content(fhs, stripe_unit, device_id, file_id, seed)
            == codec::wire_file_layout(
            device_id,
            stripe_unit,
            (file_id as int % fhs.len() as int) as u32,
            fhs,
        ),
        file_id == 0 ==> codec::layout_content(fhs, stripe_unit, device_id, file_id, seed)
            == codec::wire_file_layout(
            device_id,
            stripe_unit,
            (seed as int % fhs.len() as int) as u32,
            Seq::empty(),
        ),
{
}

/// Law: the layout of a file on one data server says the device, the width of a stripe,
/// the stripe, where the pattern starts, and the one filehandle.
pub proof fn a_numbered_layout_is_read_back(
    device: u64,
    segment: LayoutSegment,
    filehandle: Seq<u8>,
    stripe_unit: u64,
    t: Seq<u8>,
)
    requires
        stripe_unit <= u32::MAX,
        filehandle.len() <= u32::MAX,
    ensures
        ({
            let s = codec::wire_segment(device, segment, filehandle, stripe_unit) + t;
            let (high, s) = xdr::parse_u64(s);
            let (low, s) = xdr::parse_u64(s);
            let (unit, s) = xdr::parse_u32(s);
            let (index, s) = xdr::parse_u32(s);
            let (pattern, s) = xdr::parse_u64(s);
            &&& high == Ok::<u64, XdrError>(device)
            &&& low == Ok::<u64, XdrError>(device)
            &&& unit matches Ok(u) && u == stripe_unit
            &&& index == Ok::<u32, XdrError>(segment.stripe_index)
            &&& pattern == Ok::<u64, XdrError>(segment.pattern_offset)
            &&& s == octets::be32(1) + (xdr::wire_opaque(filehandle) + t)
        }),
{
    let s6 = xdr::wire_opaque(filehandle) + t;
    let s5 = octets::be32(1) + s6;
    let s4 = octets::be64(segment.pattern_offset) + s5;
    let s3 = octets::be32(segment.stripe_index) + s4;
    let s2 = octets::be32(stripe_unit as u32) + s3;
    let s1 = octets::be64(device) + s2;
    let head = octets::be64(device) + octets::be64(device);
    lemma_join_6(
        head,
        octets::be32(stripe_unit as u32),
        octets::be32(segment.stripe_index),
        octets::be64(segment.pattern_offset),
        octets::be32(1),
        xdr::wire_opaque(filehandle),
        t,
    );
    xdr::lemma_concat_assoc(octets::be64(device), octets::be64(device), s2);
    xdr::u64_round_trip(device, s1);
    xdr::u64_round_trip(device, s2);
    xdr::u32_round_trip(stripe_unit as u32, s3);
    xdr::u32_round_trip(segment.stripe_index, s4);
    xdr::u64_round_trip(segment.pattern_offset, s5);
}

// ---------------------------------------------------------------------------
// Device addresses
// ---------------------------------------------------------------------------

/// Law: the reply to GETDEVICEINFO says the layout type, the address, and that nothing
/// will be notified.
pub proof fn a_device_reply_is_read_back(layout_type: u32, addr: Seq<u8>, t: Seq<u8>)
    requires
        addr.len() <= u32::MAX,
    ensures
        ({
            let (kind, s) = xdr::parse_u32(codec::wire_device_reply(layout_type, addr) + t);
            let (body, s) = xdr::parse_opaque(s);
            let (words, s) = xdr::parse_u32(s);
            &&& kind == Ok::<u32, XdrError>(layout_type)
            &&& body == Ok::<Seq<u8>, XdrError>(addr)
            &&& words == Ok::<u32, XdrError>(0)
            &&& s == t
        }),
{
    let s2 = octets::be32(0) + t;
    let s1 = xdr::wire_opaque(addr) + s2;
    lemma_join_3(octets::be32(layout_type), xdr::wire_opaque(addr), octets::be32(0), t);
    xdr::u32_round_trip(layout_type, s1);
    xdr::opaque_round_trip(addr, s2);
    xdr::u32_round_trip(0, t);
}

/// What a client reads in the stripe indices from `i` up to `n`.
pub open spec fn indices_read(s: Seq<u8>, i: nat, n: nat, rest: Seq<u8>) -> bool
    decreases n - i,
{
    if i >= n {
        s == rest
    } else {
        let (index, s) = xdr::parse_u32(s);
        index == Ok::<u32, XdrError>(i as u32) && indices_read(s, i + 1, n, rest)
    }
}

/// The octets of the stripe indices from `i` up to `n`.
spec fn indices_from(i: nat, n: nat) -> Seq<u8>
    decreases n - i,
{
    if i >= n {
        Seq::empty()
    } else {
        octets::be32(i as u32) + indices_from(i + 1, n)
    }
}

proof fn lemma_indices_snoc(i: nat, n: nat)
    requires
        i <= n,
    ensures
        indices_from(i, n + 1) == indices_from(i, n) + octets::be32(n as u32),
    decreases n - i,
{
    let last = octets::be32(n as u32);
    if i == n {
        reveal_with_fuel(indices_from, 2);
        assert(last + Seq::<u8>::empty() =~= Seq::<u8>::empty() + last);
    } else {
        lemma_indices_snoc(i + 1, n);
        xdr::lemma_concat_assoc(octets::be32(i as u32), indices_from(i + 1, n), last);
    }
}

proof fn lemma_indices(n: nat)
    ensures
        codec::wire_indices(n) == indices_from(0, n),
    decreases n,
{
    if n > 0 {
        lemma_indices((n - 1) as nat);
        lemma_indices_snoc(0, (n - 1) as nat);
    }
}

proof fn lemma_indices_read(i: nat, n: nat, t: Seq<u8>)
    ensures
        indices_read(indices_from(i, n) + t, i, n, t),
    decreases n - i,
{
    if i >= n {
        assert(indices_from(i, n) + t =~= t);
    } else {
        lemma_indices_read(i + 1, n, t);
        let rest = indices_from(i + 1, n);
        xdr::lemma_concat_assoc(octets::be32(i as u32), rest, t);
        xdr::u32_round_trip(i as u32, rest + t);
    }
}

/// Law: the address of a stripe group says one index for each data server, counting
/// from 0, and then the number of data servers and the addresses of each.
pub proof fn a_device_address_is_read_back(
    netid: Seq<char>,
    list: Seq<Seq<Seq<char>>>,
    t: Seq<u8>,
)
    requires
        list.len() <= u32::MAX,
    ensures
        ({
            let behind = octets::be32(list.len() as u32) + (codec::wire_servers(netid, list) + t);
            let (indices, s) = xdr::parse_u32(codec::wire_device_addr(netid, list) + t);
            &&& indices == Ok::<u32, XdrError>(list.len() as u32)
            &&& indices_read(s, 0, list.len(), behind)
            &&& xdr::parse_u32(behind) == (
                Ok::<u32, XdrError>(list.len() as u32),
                codec::wire_servers(netid, list) + t,
            )
        }),
{
    let n = octets::be32(list.len() as u32);
    let servers = codec::wire_servers(netid, list);
    let indices = codec::wire_indices(list.len());
    let behind = n + (servers + t);
    lemma_join_3(n + indices, n, servers, t);
    xdr::lemma_concat_assoc(n, indices, behind);
    xdr::u32_round_trip(list.len() as u32, indices + behind);
    xdr::u32_round_trip(list.len() as u32, servers + t);
    lemma_indices(list.len());
    lemma_indices_read(0, list.len(), behind);
}

/// Law: the data servers of a stripe group come in order, each with the number of its
/// addresses and the addresses in order; an address is the network and the universal
/// address of the endpoint.
pub proof fn data_servers_come_in_order(
    netid: Seq<char>,
    list: Seq<Seq<Seq<char>>>,
    eps: Seq<Seq<char>>,
    ep: Seq<char>,
    t: Seq<u8>,
)
    requires
        encode_utf8(netid).len() <= u32::MAX,
        encode_utf8(codec::uaddr_of(ep)).len() <= u32::MAX,
    ensures
        codec::wire_servers(netid, Seq::empty()) == Seq::<u8>::empty(),
        codec::wire_servers(netid, list.push(eps)) == codec::wire_servers(netid, list) + (
        octets::be32(eps.len() as u32) + codec::wire_paths(netid, eps)),
        codec::wire_paths(netid, Seq::empty()) == Seq::<u8>::empty(),
        exists|one: Seq<u8>| #[trigger]
            codec::wire_paths(netid, eps.push(ep)) == #[trigger] (codec::wire_paths(netid, eps) + one)
                && ({
                let (network, s) = xdr::parse_string(one + t);
                let (address, s) = xdr::parse_string(s);
                &&& network == Ok::<Seq<char>, XdrError>(netid)
                &&& address == Ok::<Seq<char>, XdrError>(codec::uaddr_of(ep))
                &&& s == t
            }),
{
    assert(list.push(eps).drop_last() =~= list);
    assert(eps.push(ep).drop_last() =~= eps);
    let address = xdr::wire_string(codec::uaddr_of(ep));
    let one = xdr::wire_string(netid) + address;
    xdr::lemma_concat_assoc(xdr::wire_string(netid), address, t);
    xdr::string_round_trip(netid, address + t);
    xdr::string_round_trip(codec::uaddr_of(ep), t);
    assert(codec::wire_paths(netid, eps.push(ep)) == codec::wire_paths(netid, eps) + one);
}

// ---------------------------------------------------------------------------
// What is granted, committed and returned
// ---------------------------------------------------------------------------

/// Law: the modes of access have the numbers 1, 2 and 3, and the layout types that are
/// served 1 and 5.
pub proof fn modes_and_types_have_their_numbers(w: u32)
    ensures
        codec::io_mode_of(w) == Some(IoMode::Read) <==> w == 1,
        codec::io_mode_of(w) == Some(IoMode::ReadWrite) <==> w == 2,
        codec::io_mode_of(w) == Some(IoMode::Any) <==> w == 3,
        codec::io_mode_of(w) is None <==> w == 0 || w > 3,
        codec::served(w) matches Ok(t) ==> (t is NfsV4_1Files <==> w == 1) && (t is Scsi <==> w
            == 5) && !(t is FlexFiles),
        codec::served(w) is Err <==> w != 1 && w != 5,
        give_back::returned_type(w) is None <==> w != 1 && w != 4 && w != 5,
{
}

/// Law: a LAYOUTGET is refused for want of, in this order, a metadata server, a
/// filehandle, a file and a session, for a type that the volume does not have, and on a
/// file volume for a mode that there is not.
pub proof fn a_layoutget_needs_what_it_needs(r: LayoutRequest, f: LayoutGetFacts)
    ensures
        get::layoutget_refusal(r, f) is None <==> f.pnfs && f.filehandle is Some && f.file_key is Some
            && f.session is Some && (f.class is Scsi && r.layout_type == 5 || f.class is File
            && r.layout_type == 1 && 1 <= r.iomode <= 3),
        !f.pnfs ==> get::layoutget_refusal(r, f) == Some(Nfs4Status::NotSupp),
        f.pnfs && f.filehandle is None ==> get::layoutget_refusal(r, f) == Some(
            Nfs4Status::NoFileHandle,
        ),
        f.pnfs && f.filehandle is Some && f.file_key is None ==> get::layoutget_refusal(r, f)
            == Some(Nfs4Status::Stale),
        f.pnfs && f.filehandle is Some && f.file_key is Some && f.session is None
            ==> get::layoutget_refusal(r, f) == Some(Nfs4Status::OpNotInSession),
{
}

/// Law: a layout that the server grants belongs to the client and the session that asked
/// for it.
pub proof fn a_layout_belongs_to_who_asked(f: LayoutGetFacts)
    requires
        f.session is Some,
    ensures
        get::owner_for(f).client_id == f.client_id,
        Some(get::owner_for(f).session_id) == f.session,
        get::owner_for(f).fsid == 1,
{
}

/// Law: what is asked for is granted, where it is enough and not above the limit of one
/// gibibyte and does not run past the largest offset.
pub proof fn what_is_asked_for_is_granted(offset: u64, length: u64, minlength: u64)
    ensures
        minlength <= length <= 1_073_741_824 && offset + length <= i64::MAX ==> get::wanted(
            offset,
            length,
            minlength,
        ) == length,
        length < minlength && offset + minlength <= i64::MAX ==> get::wanted(
            offset,
            length,
            minlength,
        ) == minlength,
        minlength <= 1_073_741_824 <= length && offset + 1_073_741_824 <= i64::MAX ==> get::wanted(
            offset,
            length,
            minlength,
        ) == 1_073_741_824,
        offset >= i64::MAX ==> get::wanted(offset, length, minlength) == 0,
{
}

/// Law: a grant is handed out only where no extent still holds what its last owner
/// wrote. What passes in time is to be tried again: a host that could not be let in, a
/// range that another client holds or may still be writing, a client that was fenced
/// off. A full volume is not.
pub proof fn what_passes_in_time_is_tried_again(outcome: GrantOutcome)
    ensures
        outcome matches GrantOutcome::Granted(extents) ==> {
            &&& get::grant_refusal_for(outcome) is None <==> forall|i: int|
                0 <= i < extents@.len() ==> !(#[trigger] extents@[i]).needs_scrub
            &&& get::grant_refusal_for(outcome) is Some ==> get::grant_refusal_for(outcome) == Some(
                Nfs4Status::LayoutUnavail,
            )
        },
        !(outcome is Granted) ==> get::grant_refusal_for(outcome) is Some,
        get::grant_refusal_for(outcome) == Some(Nfs4Status::LayoutTrylater) <==> outcome
            is NotAdmitted || outcome == GrantOutcome::Refused(ExtentAllocError::Conflict)
            || outcome == GrantOutcome::Refused(ExtentAllocError::NotQuiescent) || outcome
            == GrantOutcome::Refused(ExtentAllocError::FencedClient),
        outcome == GrantOutcome::Refused(ExtentAllocError::NoSpace) ==> get::grant_refusal_for(
            outcome,
        ) == Some(Nfs4Status::LayoutUnavail),
        outcome == GrantOutcome::Refused(ExtentAllocError::InvalidRange) ==> get::grant_refusal_for(
            outcome,
        ) == Some(Nfs4Status::Inval),
        outcome is BackendFailed ==> get::grant_refusal_for(outcome) == Some(
            Nfs4Status::ServerFault,
        ),
{
}

/// Law: a commit of a write up to and with the octet `last` makes a shorter file end
/// right behind it, or where a truncation that is under way says, if that is sooner.
pub proof fn a_commit_reaches_the_last_octet_written(last: u64, ceiling: Option<u64>, size: u64)
    requires
        last < u64::MAX,
    ensures
        size <= last && (ceiling matches Some(c) ==> last < c) ==> commit::committed_size(
            Some(last),
            ceiling,
            size,
        ) == Some((last + 1) as u64),
        ceiling matches Some(c) ==> (c <= last && size < c ==> commit::committed_size(
            Some(last),
            ceiling,
            size,
        ) == Some(c)),
        last < size ==> commit::committed_size(Some(last), ceiling, size) is None,
{
}

/// Law: a range that is committed or returned is the range that was named, as far as
/// the largest signed offset.
pub proof fn a_range_is_cut_at_the_largest_offset(offset: u64, length: u64)
    ensures
        give_back::within_range(offset, length) <= length,
        give_back::within_range(offset, length) > 0 ==> offset + give_back::within_range(
            offset,
            length,
        ) <= i64::MAX,
        offset + length <= i64::MAX ==> give_back::within_range(offset, length) == length,
        offset <= i64::MAX && offset + length > i64::MAX ==> offset + give_back::within_range(
            offset,
            length,
        ) == i64::MAX,
{
}

// ---------------------------------------------------------------------------
// What is asked of the metadata server and the allocator
// ---------------------------------------------------------------------------

/// Law: a LAYOUTGET on a file volume reaches the metadata server as it came: the range,
/// the least that will do, the room for the answer and the stateid, for the file of the
/// current filehandle and in the name of the session that asked.
pub proof fn a_layoutget_is_handed_on_as_it_came(
    r: LayoutRequest,
    f: LayoutGetFacts,
    step: LayoutGetStep,
)
    requires
        call_ensures(get::begin_layoutget, (r, f), step),
    ensures
        step matches LayoutGetStep::Files(a) ==> {
            &&& a.offset == r.offset
            &&& a.length == r.length
            &&& a.minlength == r.minlength
            &&& a.maxcount == r.maxcount
            &&& a.signal_layout_avail == r.signal_layout_avail
            &&& (r.iomode == 1 ==> a.iomode is Read)
            &&& (r.iomode == 2 ==> a.iomode is ReadWrite)
            &&& (r.iomode == 3 ==> a.iomode is Any)
            &&& a.stateid@.take(4) == octets::be32(r.stateid.seqid)
            &&& a.stateid@.skip(4) == r.stateid.other@
            &&& f.filehandle == Some(a.filehandle)
            &&& (f.file_key->0@.len() > 0 ==> a.file_key@ == f.file_key->0@)
            &&& a.owner.client_id == f.client_id
            &&& f.session == Some(a.owner.session_id)
        },
        step matches LayoutGetStep::Scsi { filehandle, file_key, owner } ==> {
            &&& f.filehandle == Some(filehandle)
            &&& (f.file_key->0@.len() > 0 ==> file_key@ == f.file_key->0@)
            &&& owner.client_id == f.client_id
            &&& f.session == Some(owner.session_id)
        },
        step is Files <==> f.pnfs && f.filehandle is Some && f.file_key is Some && f.session is Some
            && f.class is File && r.layout_type == 1 && 1 <= r.iomode <= 3,
        step is Scsi <==> f.pnfs && f.filehandle is Some && f.file_key is Some && f.session is Some
            && f.class is Scsi && r.layout_type == 5,
{
    if let LayoutGetStep::Files(a) = step {
        assert(a.stateid@.take(4) =~= octets::be32(r.stateid.seqid));
        assert(a.stateid@.skip(4) =~= r.stateid.other@);
    }
}

/// Law: a file is asked for by its path below the export, and the export itself by a
/// single slash.
pub proof fn a_file_is_asked_for_by_its_path(path: Seq<char>)
    ensures
        path.len() > 0 ==> get::keyed(path) == path,
        path.len() == 0 ==> get::keyed(path) == seq!['/'],
{
    reveal_strlit("/");
    assert("/"@ =~= seq!['/']);
}

/// Law: a request for extents reaches the allocator for the range that it begins at, in
/// the name of the client that asked, for the volume that the path starts with; and only
/// a request to write may allocate.
pub proof fn a_request_for_extents_is_handed_on_as_it_came(
    key: &str,
    iomode: u32,
    offset: u64,
    length: u64,
    minlength: u64,
    f: ScsiFacts,
    r: Result<ScsiGrant, Nfs4Status>,
)
    requires
        call_ensures(get::scsi_request, (key, iomode, offset, length, minlength, f), r),
    ensures
        r matches Ok(g) ==> {
            &&& g.offset == offset
            &&& g.length > 0
            &&& (minlength <= length <= 1_073_741_824 && offset + length <= i64::MAX ==> g.length
                == length)
            &&& g.client_id == f.client_id
            &&& g.client_id != 0
            &&& f.file_id == Some(g.file_id)
            &&& g.volume@ == text::first_part(key@, '/')
            &&& g.read <==> iomode == 1
            &&& !g.read <==> iomode == 2
            &&& f.owner is Some
            &&& scsi::host_nqn(f.owner->0@) == Some(g.host_nqn@)
        },
        iomode != 1 && iomode != 2 ==> r == Err::<ScsiGrant, Nfs4Status>(Nfs4Status::BadIoMode),
        1 <= iomode <= 2 && !f.backend ==> r == Err::<ScsiGrant, Nfs4Status>(
            Nfs4Status::LayoutUnavail,
        ),
        1 <= iomode <= 2 && f.backend && text::first_part(key@, '/').len() > 0 && f.client_id == 0
            ==> r == Err::<ScsiGrant, Nfs4Status>(Nfs4Status::OpNotInSession),
        1 <= iomode <= 2 && f.backend && text::first_part(key@, '/').len() > 0 && f.client_id != 0
            && f.file_id is None ==> r == Err::<ScsiGrant, Nfs4Status>(Nfs4Status::Stale),
        1 <= iomode <= 2 && f.backend && text::first_part(key@, '/').len() > 0 && f.client_id != 0
            && f.file_id is Some && offset >= i64::MAX ==> r == Err::<ScsiGrant, Nfs4Status>(
            Nfs4Status::Inval,
        ),
        1 <= iomode <= 2 && f.backend && text::first_part(key@, '/').len() > 0 && f.client_id != 0
            && f.file_id is Some && f.owner is None && length > 0 && offset < i64::MAX ==> r
            == Err::<ScsiGrant, Nfs4Status>(Nfs4Status::LayoutUnavail),
{
}

/// Law: a LAYOUTCOMMIT reaches the allocator for the range that it names, cut at the
/// largest offset, in the name of the client that asked; on a file volume the allocator
/// has no part in it. It is refused for want of, in this order, a filehandle, a file, and
/// on a block volume the type, an allocator, a client, a volume and an inode.
pub proof fn a_commit_is_handed_on_as_it_came(
    offset: u64,
    length: u64,
    layout_type: u32,
    f: CommitFacts,
    r: Result<Option<GrantRange>, Nfs4Status>,
)
    requires
        call_ensures(commit::begin_layoutcommit, (offset, length, layout_type, f), r),
    ensures
        r matches Ok(Some(g)) ==> {
            &&& g.offset == offset
            &&& g.length <= length
            &&& (offset + length <= i64::MAX ==> g.length == length)
            &&& g.client_id == f.client_id
            &&& g.client_id != 0
            &&& f.file_id == Some(g.file_id)
            &&& g.volume@ == text::first_part(f.scsi_key->0@, '/')
            &&& layout_type == 5
        },
        !f.has_fh ==> r == Err::<Option<GrantRange>, Nfs4Status>(Nfs4Status::NoFileHandle),
        f.has_fh && !f.resolved ==> r == Err::<Option<GrantRange>, Nfs4Status>(Nfs4Status::Stale),
        f.has_fh && f.resolved && f.scsi_key is None ==> r == Ok::<Option<GrantRange>, Nfs4Status>(
            None,
        ),
        f.has_fh && f.resolved && f.scsi_key is Some ==> {
            &&& !(r matches Ok(None))
            &&& layout_type != 5 ==> r == Err::<Option<GrantRange>, Nfs4Status>(
                Nfs4Status::UnknownLayoutType,
            )
            &&& layout_type == 5 && !f.backend ==> r == Err::<Option<GrantRange>, Nfs4Status>(
                Nfs4Status::ServerFault,
            )
            &&& layout_type == 5 && f.backend && f.client_id == 0 ==> r == Err::<
                Option<GrantRange>,
                Nfs4Status,
            >(Nfs4Status::OpNotInSession)
            &&& layout_type == 5 && f.backend && f.client_id != 0 && text::first_part(
                f.scsi_key->0@,
                '/',
            ).len() == 0 ==> r == Err::<Option<GrantRange>, Nfs4Status>(Nfs4Status::BadLayout)
            &&& layout_type == 5 && f.backend && f.client_id != 0 && text::first_part(
                f.scsi_key->0@,
                '/',
            ).len() > 0 ==> (r is Err <==> f.file_id is None) && (r matches Err(s) ==> s
                == Nfs4Status::Stale)
        },
{
}

/// Law: the size of a file moves only once the allocator took the range; a range that it
/// refuses is a bad layout, and an allocator that fails is the server's fault.
pub proof fn the_allocator_has_the_last_word(
    outcome: CommitOutcome,
    verdict: Option<Nfs4Status>,
    applied: Applied,
    r: OperationResult,
)
    requires
        call_ensures(commit::commit_verdict, (outcome,), verdict),
        call_ensures(commit::complete_layoutcommit, (applied,), r),
    ensures
        verdict is None <==> outcome is Promoted,
        outcome is Refused ==> verdict == Some(Nfs4Status::BadLayout),
        outcome is BackendFailed ==> verdict == Some(Nfs4Status::ServerFault),
        applied matches Applied::Size(size) ==> r == OperationResult::LayoutCommit(
            Nfs4Status::NfsOk,
            size,
        ),
        applied is Failed ==> r == OperationResult::LayoutCommit(Nfs4Status::Io, None),
        applied is Lost ==> r == OperationResult::LayoutCommit(Nfs4Status::ServerFault, None),
{
}

/// Law: the time of a commit is the time that the client gave, but for moments before
/// the epoch, which count as the epoch.
pub proof fn a_commit_keeps_the_time_it_was_given(
    time: Option<(i64, u32)>,
    r: Option<(u64, u32)>,
)
    requires
        call_ensures(commit::commit_time, (time,), r),
    ensures
        time is None <==> r is None,
        time is Some ==> (r->0).1 == (time->0).1,
        time is Some && (time->0).0 >= 0 ==> (r->0).0 == (time->0).0,
        time is Some && (time->0).0 < 0 ==> (r->0).0 == 0,
{
}

/// Law: a LAYOUTRETURN reaches the metadata server, or whoever keeps the SCSI layouts, as
/// it came; a bulk return of SCSI layouts succeeds at once.
pub proof fn a_return_is_handed_on_as_it_came(
    reclaim: bool,
    layout_type: u32,
    iomode: u32,
    body: LayoutReturn4Body,
    pnfs: bool,
    client_id: Option<u64>,
    step: LayoutReturnStep,
)
    requires
        call_ensures(
            give_back::begin_layoutreturn,
            (reclaim, layout_type, iomode, body, pnfs, client_id),
            step,
        ),
    ensures
        step matches LayoutReturnStep::Files(a) ==> {
            &&& a.reclaim == reclaim
            &&& client_id == Some(a.client_id)
            &&& a.fsid == 1
            &&& (layout_type == 1 ==> a.layout_type is NfsV4_1Files)
            &&& (layout_type == 4 ==> a.layout_type is FlexFiles)
            &&& (iomode == 1 ==> a.iomode is Read)
            &&& (iomode == 2 ==> a.iomode is ReadWrite)
            &&& (iomode == 3 ==> a.iomode is Any)
            &&& (body is File <==> a.return_type is File)
            &&& (body is Fsid <==> a.return_type is Fsid)
            &&& (body is All <==> a.return_type is All)
            &&& (body is File ==> {
                &&& a.return_type->offset == body->offset
                &&& a.return_type->length == body->length
                &&& a.return_type->stateid@.take(4) == octets::be32(body->stateid.seqid)
                &&& a.return_type->stateid@.skip(4) == body->stateid.other@
                &&& a.return_type->layout_body@ == octets::bytes_of(body->body)
            })
        },
        step matches LayoutReturnStep::Scsi { stateid, offset, length } ==> {
            &&& body is File
            &&& offset == body->offset
            &&& length == body->length
            &&& stateid@.take(4) == octets::be32(body->stateid.seqid)
            &&& stateid@.skip(4) == body->stateid.other@
        },
        !pnfs ==> step == LayoutReturnStep::Done(Nfs4Status::NotSupp),
        pnfs && client_id is None ==> step == LayoutReturnStep::Done(Nfs4Status::OpNotInSession),
        pnfs && client_id is Some && layout_type != 1 && layout_type != 4 && layout_type != 5 ==> step
            == LayoutReturnStep::Done(Nfs4Status::UnknownLayoutType),
        pnfs && client_id is Some && layout_type == 5 && body is File ==> step is Scsi,
        pnfs && client_id is Some && layout_type == 5 && !(body is File) ==> step
            == LayoutReturnStep::Done(Nfs4Status::NfsOk),
        pnfs && client_id is Some && (layout_type == 1 || layout_type == 4) ==> {
            &&& 1 <= iomode <= 3 ==> step is Files
            &&& !(1 <= iomode <= 3) ==> step == LayoutReturnStep::Done(Nfs4Status::BadIoMode)
        },
{
    if let LayoutReturnStep::Files(a) = step {
        if body is File {
            assert(a.return_type->stateid@.take(4) =~= octets::be32(body->stateid.seqid));
            assert(a.return_type->stateid@.skip(4) =~= body->stateid.other@);
        }
    }
    if let LayoutReturnStep::Scsi { stateid, offset, length } = step {
        assert(stateid@.take(4) =~= octets::be32(body->stateid.seqid));
        assert(stateid@.skip(4) =~= body->stateid.other@);
    }
}

/// Law: the grants that go with a returned layout are those of its own client on its own
/// file, in the range that was returned; where the layout, the allocator, the volume or
/// the file is not there, nothing is dropped.
pub proof fn a_return_drops_its_own_grants_alone(
    taken: Option<TakenLayout>,
    backend: bool,
    offset: u64,
    length: u64,
    r: Option<GrantRange>,
)
    requires
        call_ensures(give_back::rows_to_drop, (taken, backend, offset, length), r),
    ensures
        r matches Some(g) ==> {
            &&& taken is Some
            &&& g.client_id == taken->0.client_id
            &&& g.file_id == taken->0.file_id
            &&& g.file_id != 0
            &&& g.volume@ == text::first_part(taken->0.file_key@, '/')
            &&& g.offset == offset
            &&& g.length <= length
            &&& (offset + length <= i64::MAX ==> g.length == length)
        },
        r is None <==> taken is None || !backend || taken->0.file_id == 0 || text::first_part(
            taken->0.file_key@,
            '/',
        ).len() == 0,
{
}

/// Law: what the metadata server says to a return is what the client is told.
pub proof fn a_return_is_answered_as_it_was_taken(
    outcome: Result<(), LayoutReturnError>,
    s: Nfs4Status,
)
    requires
        call_ensures(give_back::complete_layoutreturn, (outcome,), s),
    ensures
        outcome is Ok <==> s == Nfs4Status::NfsOk,
        outcome == Err::<(), LayoutReturnError>(LayoutReturnError::BadStateId) ==> s
            == Nfs4Status::BadStateId,
        outcome == Err::<(), LayoutReturnError>(LayoutReturnError::UnknownLayoutType) ==> s
            == Nfs4Status::UnknownLayoutType,
        outcome == Err::<(), LayoutReturnError>(LayoutReturnError::Inval) ==> s
            == Nfs4Status::Inval,
{
}

/// Law: a device is asked for by the first sixteen octets of its identifier. A block
/// volume has to be known and goes out with the number of the client as its reservation
/// key; a device of data servers is left to the metadata server.
pub proof fn a_device_is_asked_for_by_its_identifier(
    device_id: &[u8],
    layout_type: u32,
    pnfs: bool,
    volume_known: bool,
    client_id: u64,
    step: DeviceStep,
)
    requires
        call_ensures(
            device::begin_getdeviceinfo,
            (device_id, layout_type, pnfs, volume_known, client_id),
            step,
        ),
    ensures
        step matches DeviceStep::Scsi { device_id: id, pr_key } ==> id@ == device_id@.take(16)
            && pr_key == client_id && client_id != 0 && volume_known,
        step matches DeviceStep::Files { device_id: id, layout_type: t } ==> id@ == device_id@.take(
            16,
        ) && t is NfsV4_1Files,
        !pnfs ==> step == DeviceStep::Refuse(Nfs4Status::NotSupp),
        pnfs && device_id@.len() < 16 ==> step == DeviceStep::Refuse(Nfs4Status::NoEnt),
        pnfs && device_id@.len() >= 16 ==> {
            &&& layout_type == 1 ==> step is Files
            &&& layout_type != 1 && layout_type != 5 ==> step == DeviceStep::Refuse(
                Nfs4Status::UnknownLayoutType,
            )
            &&& layout_type == 5 && !volume_known ==> step == DeviceStep::Refuse(Nfs4Status::NoEnt)
            &&& layout_type == 5 && volume_known && client_id == 0 ==> step == DeviceStep::Refuse(
                Nfs4Status::OpNotInSession,
            )
            &&& layout_type == 5 && volume_known && client_id != 0 ==> step is Scsi
        },
{
}

/// Law: an answer to a GETDEVICEINFO that does not fit says how much room it takes, in
/// one word, and one that fits carries the address. A client that names no limit always
/// gets the address.
pub proof fn a_device_that_does_not_fit_says_its_size(
    layout_type: u32,
    addr: Seq<u8>,
    maxcount: u32,
    r: OperationResult,
)
    requires
        addr.len() <= 0xffff_0000,
        device::device_answer(layout_type, addr, maxcount, r),
    ensures
        r is GetDeviceInfo,
        r->GetDeviceInfo_1 is Some,
        maxcount == 0 || codec::wire_device_reply(layout_type, addr).len() <= maxcount
            ==> r->GetDeviceInfo_0 == Nfs4Status::NfsOk && octets::bytes_of(r->GetDeviceInfo_1->0)
            == codec::wire_device_reply(layout_type, addr),
        maxcount > 0 && codec::wire_device_reply(layout_type, addr).len() > maxcount ==> {
            &&& r->GetDeviceInfo_0 == Nfs4Status::TooSmall
            &&& octets::u32_of(octets::bytes_of(r->GetDeviceInfo_1->0))
                == codec::wire_device_reply(layout_type, addr).len()
        },
{
    codec::the_room_asked_for_is_enough(layout_type, addr);
    octets::lemma_u32_round_trip(codec::device_reply_len(addr.len()) as u32);
}

proof fn lemma_digits_hold_no_colon(n: nat, k: int)
    requires
        0 <= k < text::decimal(n).len(),
    ensures
        text::decimal(n)[k] != ':',
{
    text::lemma_decimal(n);
    assert(text::is_digit(text::decimal(n)[k]));
}

/// Law: an endpoint becomes a universal address: the host stays, and the port behind its
/// colon becomes the two numbers of its octets, the high one first. What has no port
/// stays as it is.
pub proof fn a_port_becomes_two_numbers(host: Seq<char>, port: nat)
    requires
        port <= 65535,
    ensures
        codec::uaddr_of(host + (seq![':'] + text::decimal(port))) == host + (seq!['.'] + (
        text::decimal(port / 256) + (seq!['.'] + text::decimal(port % 256)))),
        !host.contains(':') && (host.len() == 0 || !('0' <= host[0] <= '9')) ==> codec::uaddr_of(
            host,
        ) == host,
        256 * (port / 256) + port % 256 == port,
{
    let ep = host + (seq![':'] + text::decimal(port));
    let digits = text::decimal(port);
    assert forall|k: int| 0 <= k < digits.len() implies digits[k] != ':' by {
        lemma_digits_hold_no_colon(port, k);
    }
    text::the_last_part_follows_the_last_divider(host, ':', digits);
    text::a_written_number_is_read_back(port, 65535);
    assert(ep.take(ep.len() - digits.len() - 1) =~= host);
    reveal_strlit(".");
    assert("."@ =~= seq!['.']);
    assert(codec::uaddr_of(ep) =~= host + (seq!['.'] + (text::decimal(port / 256) + (seq!['.']
        + text::decimal(port % 256)))));
    if !host.contains(':') {
        assert forall|k: int| 0 <= k < host.len() implies host[k] != ':' by {
            assert(host.contains(host[k]));
        }
        text::the_last_part_follows_the_last_divider(Seq::empty(), ':', host);
    }
}

/// Law: the host name of a Linux client is made of the node name in its owner string,
/// which follows the version and, where there is one, the uniquifier and its slash.
pub proof fn a_host_is_named_after_its_node(
    owner: Seq<u8>,
    lead: Seq<char>,
    uniquifier: Seq<char>,
    node: Seq<char>,
)
    requires
        valid_utf8(owner),
        lead == "Linux NFSv4.1 "@ || lead == "Linux NFSv4.2 "@,
        decode_utf8(owner) == lead + node || decode_utf8(owner) == lead + (uniquifier + (seq!['/']
            + node)),
        node.len() > 0,
        !node.contains('/'),
        !text::is_white_space(node[0]),
        !text::is_white_space(node.last()),
    ensures
        scsi::host_nqn(owner) == Some("nqn.2024-11.com.flint:node:"@ + node),
{
    let s = decode_utf8(owner);
    let rest = s.skip(lead.len() as int);
    reveal_strlit("Linux NFSv4.1 ");
    reveal_strlit("Linux NFSv4.2 ");
    assert(s.take(lead.len() as int) =~= lead);
    if lead == "Linux NFSv4.2 "@ {
        assert(s.take(14)[12] == '2');
    }
    assert forall|k: int| 0 <= k < node.len() implies node[k] != '/' by {
        assert(node.contains(node[k]));
    }
    text::the_last_part_follows_the_last_divider(uniquifier, '/', node);
    if s == lead + node {
        assert(rest =~= node);
    } else {
        assert(rest =~= uniquifier + (seq!['/'] + node));
    }
    text::only_the_white_space_at_the_ends_goes(Seq::empty(), node, Seq::empty());
    assert(Seq::<char>::empty() + (node + Seq::<char>::empty()) =~= node);
}

/// Law: a client that does not call itself a Linux client has no host name, and neither
/// has one whose owner string is no text.
pub proof fn only_a_linux_client_has_a_host_name(owner: Seq<u8>)
    ensures
        !valid_utf8(owner) ==> scsi::host_nqn(owner) is None,
        valid_utf8(owner) && !text::begins(decode_utf8(owner), "Linux NFSv4.1 "@) && !text::begins(
            decode_utf8(owner),
            "Linux NFSv4.2 "@,
        ) ==> scsi::host_nqn(owner) is None,
{
}

// ---------------------------------------------------------------------------
// The octets that go out
// ---------------------------------------------------------------------------

proof fn lemma_segment_at(v: Seq<ScsiSegment>, device_id: Seq<u8>, i: int)
    requires
        device_id.len() == 16,
        0 <= i < v.len(),
    ensures
        scsi::wire_segments(v, device_id).len() == 44 * v.len(),
        scsi::wire_segments(v, device_id).subrange(44 * i, 44 * i + 44) == scsi::wire_segment(
            v[i],
            device_id,
        ),
    decreases v.len(),
{
    let front = v.drop_last();
    let s = scsi::wire_segments(v, device_id);
    let f = scsi::wire_segments(front, device_id);
    let last = scsi::wire_segment(v.last(), device_id);
    assert(last.len() == 44);
    if front.len() > 0 {
        let k = if i < front.len() {
            i
        } else {
            0
        };
        lemma_segment_at(front, device_id, k);
        assert(front[k] == v[k]);
    } else {
        assert(f =~= Seq::empty());
    }
    assert(f.len() == 44 * front.len());
    if i < front.len() {
        assert(s.subrange(44 * i, 44 * i + 44) =~= f.subrange(44 * i, 44 * i + 44));
    } else {
        assert(s.subrange(44 * i, 44 * i + 44) =~= last);
    }
}

/// Law: a layout that goes out places every segment: behind the number of segments each
/// takes forty-four octets, of which the first sixteen name the device, the next eight
/// say where in the file the segment lies, the next eight how long it is, the next eight
/// where on the volume it lies, and the last four what state it is in.
pub proof fn a_layout_places_every_segment(
    segments: &Vec<ScsiSegment>,
    device_id: &[u8; 16],
    b: bytes::Bytes,
    i: int,
)
    requires
        call_ensures(scsi::encode_scsi_layout, (segments, device_id), b),
        0 <= i < segments@.len() <= u32::MAX,
    ensures
        ({
            let s = octets::bytes_of(b);
            let at = 4 + 44 * i;
            &&& s.len() == 4 + 44 * segments@.len()
            &&& octets::u32_of(s.take(4)) == segments@.len()
            &&& s.subrange(at, at + 16) == device_id@
            &&& octets::u64_of(s.subrange(at + 16, at + 24)) == segments@[i].file_offset
            &&& octets::u64_of(s.subrange(at + 24, at + 32)) == segments@[i].length
            &&& octets::u64_of(s.subrange(at + 32, at + 40)) == segments@[i].storage_offset
            &&& octets::u32_of(s.subrange(at + 40, at + 44)) == segments@[i].state
        }),
{
    let s = octets::bytes_of(b);
    let at = 4 + 44 * i;
    let g = segments@[i];
    let w = scsi::wire_segment(g, device_id@);
    lemma_segment_at(segments@, device_id@, i);
    assert(s.take(4) =~= octets::be32(segments@.len() as u32));
    assert(s.skip(4) =~= scsi::wire_segments(segments@, device_id@));
    assert(s.subrange(at, at + 44) =~= s.skip(4).subrange(44 * i, 44 * i + 44));
    assert(s.subrange(at, at + 16) =~= w.subrange(0, 16));
    assert(s.subrange(at + 16, at + 24) =~= w.subrange(16, 24));
    assert(s.subrange(at + 24, at + 32) =~= w.subrange(24, 32));
    assert(s.subrange(at + 32, at + 40) =~= w.subrange(32, 40));
    assert(s.subrange(at + 40, at + 44) =~= w.subrange(40, 44));
    assert(w.subrange(0, 16) =~= device_id@);
    assert(w.subrange(16, 24) =~= octets::be64(g.file_offset));
    assert(w.subrange(24, 32) =~= octets::be64(g.length));
    assert(w.subrange(32, 40) =~= octets::be64(g.storage_offset));
    assert(w.subrange(40, 44) =~= octets::be32(g.state));
    octets::lemma_u32_round_trip(segments@.len() as u32);
    octets::lemma_u64_round_trip(g.file_offset);
    octets::lemma_u64_round_trip(g.length);
    octets::lemma_u64_round_trip(g.storage_offset);
    octets::lemma_u32_round_trip(g.state);
}

/// Law: a file over `n` data servers has a filehandle for each of them, made from the
/// number of the file and from the slot, one slot after the other, and from no instance.
pub proof fn each_data_server_has_its_slot(
    file_id: u64,
    n: usize,
    v: Vec<SlotRequest>,
    j: int,
)
    requires
        call_ensures(codec::slot_requests, (file_id, n), v),
        0 <= j < n <= u32::MAX,
    ensures
        v@.len() == n,
        v@[j].stripe_index == j,
        v@[j].file_id == file_id,
        v@[j].instance_id == 0,
{
}

/// Law: the metadata server alone carries out the five operations on layouts and devices.
pub proof fn layouts_are_for_the_metadata_server(op: u32, b: bool)
    requires
        call_ensures(codec::is_pnfs_opcode, (op,), b),
    ensures
        b <==> 47 <= op <= 51,
{
}

} // verus!
