//! Layouts of block volumes: extents as segments, and the device they lie on.
use crate::octets;
use crate::text;
use crate::text::{after_last, str_from_utf8, strip_prefix, trim};
use crate::xdr;
use crate::xdr::XdrEncoder;
use bytes::Bytes;
use vstd::prelude::*;
use vstd::utf8::*;

verus! {

/// `PNFS_SCSI_READ_WRITE_DATA`.
pub const READ_WRITE_DATA: u32 = 0;

/// `PNFS_SCSI_READ_DATA`.
pub const READ_DATA: u32 = 1;

/// `PNFS_SCSI_INVALID_DATA`: allocated, and reads as zeros until it is committed.
pub const INVALID_DATA: u32 = 2;

/// `PNFS_SCSI_NONE_DATA`: a hole, which reads as zeros.
pub const NONE_DATA: u32 = 3;

/// A run of a file that the allocator has placed on the volume.
#[derive(Debug, Clone, Copy, PartialEq, Eq, Structural)]
pub struct GrantedExtent {
    pub logical_offset: u64,
    pub length: u64,
    pub physical_offset: u64,
    /// Which grant of the space this is.
    pub generation: u64,
    pub committed: bool,
    /// The space still holds what its last owner wrote.
    pub needs_scrub: bool,
}

/// One element of a SCSI layout.
#[derive(Debug, Clone, Copy, PartialEq, Eq, Structural)]
pub struct ScsiSegment {
    pub file_offset: u64,
    pub length: u64,
    pub storage_offset: u64,
    pub state: u32,
}

impl GrantedExtent {
    pub open spec fn end(self) -> int {
        self.logical_offset + self.length
    }

    /// 64 bits can count to the end of the extent in the file, and to its last
    /// octet on the volume.
    pub open spec fn fits(self) -> bool {
        self.end() <= u64::MAX && self.physical_offset + self.length <= u64::MAX + 1
    }
}

impl ScsiSegment {
    pub open spec fn end(self) -> int {
        self.file_offset + self.length
    }
}

pub open spec fn all_fit(extents: Seq<GrantedExtent>) -> bool {
    forall|i: int| 0 <= i < extents.len() ==> (#[trigger] extents[i]).fits()
}

/// Whether 64 bits can count to the end of every extent.
pub fn extents_fit(extents: &Vec<GrantedExtent>) -> (b: bool)
    ensures
        b == all_fit(extents@),
{
    let mut i: usize = 0;
    while i < extents.len()
        invariant
            i <= extents@.len(),
            forall|k: int| 0 <= k < i ==> (#[trigger] extents@[k]).fits(),
        decreases extents@.len() - i,
    {
        let x: GrantedExtent = extents[i];
        assert(x == extents@[i as int]);
        if x.length > u64::MAX - x.logical_offset || (x.length > 0 && x.length - 1 > u64::MAX
            - x.physical_offset) {
            assert(!extents@[i as int].fits());
            return false;
        }
        i = i + 1;
    }
    true
}

// ---------------------------------------------------------------------------
// The layout body
// ---------------------------------------------------------------------------

pub open spec fn wire_segment(s: ScsiSegment, device_id: Seq<u8>) -> Seq<u8> {
    xdr::wire_fixed(device_id) + octets::be64(s.file_offset) + octets::be64(s.length)
        + octets::be64(s.storage_offset) + octets::be32(s.state)
}

pub open spec fn wire_segments(v: Seq<ScsiSegment>, device_id: Seq<u8>) -> Seq<u8>
    decreases v.len(),
{
    if v.len() == 0 {
        Seq::empty()
    } else {
        wire_segments(v.drop_last(), device_id) + wire_segment(v.last(), device_id)
    }
}

/// `pnfs_scsi_layout4` (RFC 8154 section 2.4).
pub open spec fn wire_scsi_layout(v: Seq<ScsiSegment>, device_id: Seq<u8>) -> Seq<u8> {
    octets::be32(v.len() as u32) + wire_segments(v, device_id)
}

fn encode_segment(e: &mut XdrEncoder, s: &ScsiSegment, device_id: &[u8; 16])
    ensures
        final(e)@ == old(e)@ + wire_segment(*s, device_id@),
{
    broadcast use xdr::lemma_concat_assoc;

    e.encode_fixed_opaque(device_id);
    e.encode_u64(s.file_offset);
    e.encode_u64(s.length);
    e.encode_u64(s.storage_offset);
    e.encode_u32(s.state);
}

/// Encode the body of a SCSI layout.
pub fn encode_scsi_layout(segments: &Vec<ScsiSegment>, device_id: &[u8; 16]) -> (b: Bytes)
    ensures
        octets::bytes_of(b) == wire_scsi_layout(segments@, device_id@),
{
    let mut e = XdrEncoder::new();
    e.encode_u32(segments.len() as u32);
    let ghost head = e@;
    assert(head =~= octets::be32(segments@.len() as u32));
    assert(segments@.take(0) =~= Seq::empty());
    assert(head + Seq::<u8>::empty() =~= head);
    let mut i: usize = 0;
    while i < segments.len()
        invariant
            i <= segments@.len(),
            e@ == head + wire_segments(segments@.take(i as int), device_id@),
        decreases segments@.len() - i,
    {
        broadcast use xdr::lemma_concat_assoc;

        encode_segment(&mut e, &segments[i], device_id);
        assert(segments@.take(i + 1).drop_last() =~= segments@.take(i as int));
        i = i + 1;
    }
    assert(segments@.take(i as int) =~= segments@);
    e.finish()
}

/// `pnfs_scsi_deviceaddr4` (RFC 8154 section 2.2.2, RFC 9561 section 2.1): one
/// base volume, named in binary by its 16-octet EUI-64, and the reservation key
/// of the client.
pub open spec fn wire_scsi_device(nguid: Seq<u8>, pr_key: u64) -> Seq<u8> {
    octets::be32(1) + octets::be32(4) + octets::be32(1) + octets::be32(2) + xdr::wire_opaque(nguid)
        + octets::be64(pr_key)
}

/// Encode the address of a block device.
pub fn encode_scsi_device_addr(nguid: &[u8; 16], pr_key: u64) -> (b: Bytes)
    ensures
        octets::bytes_of(b) == wire_scsi_device(nguid@, pr_key),
{
    let mut e = XdrEncoder::new();
    e.encode_u32(1);
    assert(e@ =~= octets::be32(1));
    e.encode_u32(4);
    e.encode_u32(1);
    e.encode_u32(2);
    e.encode_opaque(nguid);
    e.encode_u64(pr_key);
    e.finish()
}

// ---------------------------------------------------------------------------
// Layouts for reading
// ---------------------------------------------------------------------------

/// The part of an extent inside a window, if there is any: from where to where.
pub open spec fn clip(x: GrantedExtent, offset: int, end: int) -> Option<(int, int)> {
    let from = if x.logical_offset > offset {
        x.logical_offset as int
    } else {
        offset
    };
    let to = if x.end() < end {
        x.end()
    } else {
        end
    };
    if from < to {
        Some((from, to))
    } else {
        None
    }
}

pub open spec fn hole(from: int, to: int) -> Seq<ScsiSegment> {
    if from < to {
        seq![
            ScsiSegment {
                file_offset: from as u64,
                length: (to - from) as u64,
                storage_offset: 0,
                state: NONE_DATA,
            },
        ]
    } else {
        Seq::empty()
    }
}

/// How far the segments reach once the extents are laid out.
pub open spec fn reached(extents: Seq<GrantedExtent>, offset: int, end: int) -> int
    decreases extents.len(),
{
    if extents.len() == 0 {
        offset
    } else {
        match clip(extents.last(), offset, end) {
            Some((_, to)) => to,
            None => reached(extents.drop_last(), offset, end),
        }
    }
}

/// The extents inside a window, in order, each behind the hole in front of it.
pub open spec fn laid(extents: Seq<GrantedExtent>, offset: int, end: int) -> Seq<ScsiSegment>
    decreases extents.len(),
{
    if extents.len() == 0 {
        Seq::empty()
    } else {
        let before = laid(extents.drop_last(), offset, end);
        let x = extents.last();
        match clip(x, offset, end) {
            Some((from, to)) => (before + hole(
                reached(extents.drop_last(), offset, end),
                from,
            )).push(
                ScsiSegment {
                    file_offset: from as u64,
                    length: (to - from) as u64,
                    storage_offset: (x.physical_offset + (from - x.logical_offset)) as u64,
                    state: READ_DATA,
                },
            ),
            None => before,
        }
    }
}

pub open spec fn window_end(offset: u64, length: u64) -> int {
    if offset + length > u64::MAX {
        u64::MAX as int
    } else {
        offset + length
    }
}

/// What a layout for reading lists: the extents, and holes for what is between
/// and behind them.
pub open spec fn read_view(extents: Seq<GrantedExtent>, offset: u64, length: u64) -> Seq<
    ScsiSegment,
> {
    let end = window_end(offset, length);
    laid(extents, offset as int, end) + hole(reached(extents, offset as int, end), end)
}

proof fn lemma_reached(extents: Seq<GrantedExtent>, offset: int, end: int)
    requires
        offset <= end,
    ensures
        offset <= reached(extents, offset, end) <= end,
    decreases extents.len(),
{
    if extents.len() > 0 {
        lemma_reached(extents.drop_last(), offset, end);
    }
}

/// The segments of a layout for reading: a client takes no other states in one,
/// and wants the window covered without a gap.
pub fn scsi_read_segments(extents: &Vec<GrantedExtent>, offset: u64, length: u64) -> (v: Vec<
    ScsiSegment,
>)
    requires
        all_fit(extents@),
    ensures
        v@ == read_view(extents@, offset, length),
{
    let end: u64 = offset.saturating_add(length);
    let mut v: Vec<ScsiSegment> = Vec::new();
    let mut cursor: u64 = offset;
    let mut i: usize = 0;
    assert(extents@.take(0) =~= Seq::empty());
    while i < extents.len()
        invariant
            i <= extents@.len(),
            all_fit(extents@),
            end == window_end(offset, length),
            cursor == reached(extents@.take(i as int), offset as int, end as int),
            v@ == laid(extents@.take(i as int), offset as int, end as int),
        decreases extents@.len() - i,
    {
        let x: GrantedExtent = extents[i];
        let ghost taken = extents@.take(i + 1);
        assert(taken.drop_last() =~= extents@.take(i as int));
        assert(taken.last() == x);
        assert(extents@[i as int].fits());
        let x_start: u64 = if x.logical_offset > offset {
            x.logical_offset
        } else {
            offset
        };
        let x_stop: u64 = x.logical_offset + x.length;
        let x_end: u64 = if x_stop < end {
            x_stop
        } else {
            end
        };
        if x_end > x_start {
            if x_start > cursor {
                v.push(
                    ScsiSegment {
                        file_offset: cursor,
                        length: x_start - cursor,
                        storage_offset: 0,
                        state: NONE_DATA,
                    },
                );
            }
            assert(v@ =~= laid(extents@.take(i as int), offset as int, end as int) + hole(
                cursor as int,
                x_start as int,
            ));
            v.push(
                ScsiSegment {
                    file_offset: x_start,
                    length: x_end - x_start,
                    storage_offset: x.physical_offset + (x_start - x.logical_offset),
                    state: READ_DATA,
                },
            );
            cursor = x_end;
        }
        i = i + 1;
    }
    assert(extents@.take(i as int) =~= extents@);
    if cursor < end {
        v.push(
            ScsiSegment {
                file_offset: cursor,
                length: end - cursor,
                storage_offset: 0,
                state: NONE_DATA,
            },
        );
    }
    assert(v@ =~= read_view(extents@, offset, length));
    v
}

/// The extents come in order and do not overlap.
pub open spec fn in_order(extents: Seq<GrantedExtent>) -> bool {
    forall|i: int, j: int|
        0 <= i < j < extents.len() ==> (#[trigger] extents[i]).end() <= (
        #[trigger] extents[j]).logical_offset
}

/// The segments cover `from..to` one behind the other, without gap or overlap.
pub open spec fn tiles(v: Seq<ScsiSegment>, from: int, to: int) -> bool
    decreases v.len(),
{
    if v.len() == 0 {
        from == to
    } else {
        v.last().length > 0 && v.last().end() == to && tiles(
            v.drop_last(),
            from,
            v.last().file_offset as int,
        )
    }
}

proof fn lemma_tiles_hole(v: Seq<ScsiSegment>, from: int, mid: int, to: int)
    requires
        tiles(v, from, mid),
        0 <= mid <= to <= u64::MAX,
    ensures
        tiles(v + hole(mid, to), from, to),
{
    if mid < to {
        let w = v + hole(mid, to);
        assert(w.drop_last() =~= v);
    } else {
        assert(v + hole(mid, to) =~= v);
    }
}

proof fn lemma_laid_tiles(extents: Seq<GrantedExtent>, offset: int, end: int)
    requires
        all_fit(extents),
        in_order(extents),
        0 <= offset <= end <= u64::MAX,
    ensures
        tiles(laid(extents, offset, end), offset, reached(extents, offset, end)),
        extents.len() > 0 && reached(extents, offset, end) > offset ==> reached(
            extents,
            offset,
            end,
        ) <= extents.last().end(),
    decreases extents.len(),
{
    if extents.len() > 0 {
        let front = extents.drop_last();
        let x = extents.last();
        assert forall|i: int| 0 <= i < front.len() implies (#[trigger] front[i]).fits() by {
            assert(extents[i].fits());
        }
        assert forall|i: int, j: int| 0 <= i < j < front.len() implies (#[trigger] front[i]).end()
            <= (#[trigger] front[j]).logical_offset by {
            assert(extents[i].end() <= extents[j].logical_offset);
        }
        lemma_laid_tiles(front, offset, end);
        lemma_reached(front, offset, end);
        assert(x == extents[extents.len() - 1]);
        if front.len() > 0 {
            assert(front.last() == extents[extents.len() - 2]);
            assert(extents[extents.len() - 2].end() <= extents[extents.len() - 1].logical_offset);
        }
        match clip(x, offset, end) {
            Some((from, to)) => {
                let c = reached(front, offset, end);
                lemma_tiles_hole(laid(front, offset, end), offset, c, from);
                let v = laid(extents, offset, end);
                assert(v.drop_last() =~= laid(front, offset, end) + hole(c, from));
            },
            None => {},
        }
    }
}

/// Law: the segments of a layout for reading cover the window from end to end,
/// without a gap and without an overlap, and none of them is empty.
pub proof fn a_read_layout_covers_its_window(
    extents: Seq<GrantedExtent>,
    offset: u64,
    length: u64,
)
    requires
        all_fit(extents),
        in_order(extents),
    ensures
        tiles(read_view(extents, offset, length), offset as int, window_end(offset, length)),
{
    let end = window_end(offset, length);
    lemma_laid_tiles(extents, offset as int, end);
    lemma_reached(extents, offset as int, end);
    lemma_tiles_hole(
        laid(extents, offset as int, end),
        offset as int,
        reached(extents, offset as int, end),
        end,
    );
}

/// A segment shows a stretch of one of the extents, where it lies on the volume.
pub open spec fn shows(s: ScsiSegment, x: GrantedExtent) -> bool {
    x.logical_offset <= s.file_offset && s.end() <= x.end() && s.storage_offset
        == x.physical_offset + (s.file_offset - x.logical_offset)
}

proof fn lemma_laid_honest(extents: Seq<GrantedExtent>, offset: int, end: int, k: int)
    requires
        all_fit(extents),
        0 <= offset <= end <= u64::MAX,
        0 <= k < laid(extents, offset, end).len(),
    ensures
        laid(extents, offset, end)[k].state == READ_DATA || laid(extents, offset, end)[k].state
            == NONE_DATA,
        laid(extents, offset, end)[k].state == READ_DATA ==> exists|i: int|
            0 <= i < extents.len() && shows(laid(extents, offset, end)[k], #[trigger] extents[i]),
    decreases extents.len(),
{
    let front = extents.drop_last();
    let before = laid(front, offset, end);
    let x = extents.last();
    assert forall|i: int| 0 <= i < front.len() implies (#[trigger] front[i]).fits() by {
        assert(extents[i].fits());
    }
    if k < before.len() {
        lemma_laid_honest(front, offset, end, k);
        if before[k].state == READ_DATA {
            let i = choose|i: int|
                0 <= i < front.len() && shows(before[k], #[trigger] front[i]);
            assert(shows(before[k], extents[i]));
        }
    } else {
        assert(extents[extents.len() - 1].fits());
        assert(clip(x, offset, end) is Some);
        let (from, to) = clip(x, offset, end)->0;
        let v = laid(extents, offset, end);
        if k == v.len() - 1 {
            assert(v[k] == v.last());
            assert(shows(v[k], extents[extents.len() - 1]));
        }
    }
}

/// Law: a layout for reading shows nothing but stretches of the extents it was
/// made from, each where it lies on the volume, and holes.
pub proof fn a_read_layout_shows_only_what_was_granted(
    extents: Seq<GrantedExtent>,
    offset: u64,
    length: u64,
    k: int,
)
    requires
        all_fit(extents),
        0 <= k < read_view(extents, offset, length).len(),
    ensures
        ({
            let s = read_view(extents, offset, length)[k];
            s.state == NONE_DATA || s.state == READ_DATA && exists|i: int|
                0 <= i < extents.len() && shows(s, #[trigger] extents[i])
        }),
{
    let end = window_end(offset, length);
    if k < laid(extents, offset as int, end).len() {
        lemma_laid_honest(extents, offset as int, end, k);
    }
}

// ---------------------------------------------------------------------------
// Layouts for writing
// ---------------------------------------------------------------------------

/// An extent in a layout for writing. What is not committed reads as zeros.
pub open spec fn write_segment(x: GrantedExtent) -> ScsiSegment {
    ScsiSegment {
        file_offset: x.logical_offset,
        length: x.length,
        storage_offset: x.physical_offset,
        state: if x.committed {
            READ_WRITE_DATA
        } else {
            INVALID_DATA
        },
    }
}

pub open spec fn write_view(extents: Seq<GrantedExtent>) -> Seq<ScsiSegment> {
    extents.map_values(|x: GrantedExtent| write_segment(x))
}

pub open spec fn lowest(extents: Seq<GrantedExtent>) -> u64
    decreases extents.len(),
{
    if extents.len() == 0 {
        u64::MAX
    } else {
        let before = lowest(extents.drop_last());
        if extents.last().logical_offset < before {
            extents.last().logical_offset
        } else {
            before
        }
    }
}

pub open spec fn highest(extents: Seq<GrantedExtent>) -> int
    decreases extents.len(),
{
    if extents.len() == 0 {
        0
    } else {
        let before = highest(extents.drop_last());
        if extents.last().end() > before {
            extents.last().end()
        } else {
            before
        }
    }
}

/// The segments of a layout for writing.
pub fn scsi_write_segments(extents: &Vec<GrantedExtent>) -> (v: Vec<ScsiSegment>)
    ensures
        v@ == write_view(extents@),
{
    let mut v: Vec<ScsiSegment> = Vec::new();
    let mut i: usize = 0;
    while i < extents.len()
        invariant
            i <= extents@.len(),
            v@ =~= write_view(extents@.take(i as int)),
        decreases extents@.len() - i,
    {
        let x: GrantedExtent = extents[i];
        let state: u32 = if x.committed {
            READ_WRITE_DATA
        } else {
            INVALID_DATA
        };
        v.push(
            ScsiSegment {
                file_offset: x.logical_offset,
                length: x.length,
                storage_offset: x.physical_offset,
                state,
            },
        );
        i = i + 1;
    }
    assert(extents@.take(i as int) =~= extents@);
    v
}

/// From where to where the extents reach.
pub fn span(extents: &Vec<GrantedExtent>) -> (r: (u64, u64))
    requires
        all_fit(extents@),
    ensures
        r.0 == lowest(extents@),
        r.1 == highest(extents@),
{
    let mut low: u64 = u64::MAX;
    let mut high: u64 = 0;
    let mut i: usize = 0;
    assert(extents@.take(0) =~= Seq::empty());
    while i < extents.len()
        invariant
            i <= extents@.len(),
            all_fit(extents@),
            low == lowest(extents@.take(i as int)),
            high == highest(extents@.take(i as int)),
        decreases extents@.len() - i,
    {
        let x: GrantedExtent = extents[i];
        assert(extents@[i as int].fits());
        assert(extents@.take(i + 1).drop_last() =~= extents@.take(i as int));
        assert(extents@.take(i + 1).last() == x);
        if x.logical_offset < low {
            low = x.logical_offset;
        }
        if x.logical_offset + x.length > high {
            high = x.logical_offset + x.length;
        }
        i = i + 1;
    }
    assert(extents@.take(i as int) =~= extents@);
    (low, high)
}

/// Law: every extent lies within the span of a layout for writing.
pub proof fn a_write_layout_spans_its_extents(extents: Seq<GrantedExtent>, i: int)
    requires
        0 <= i < extents.len(),
    ensures
        lowest(extents) <= extents[i].logical_offset,
        extents[i].end() <= highest(extents),
    decreases extents.len(),
{
    if i < extents.len() - 1 {
        a_write_layout_spans_its_extents(extents.drop_last(), i);
        assert(extents.drop_last()[i] == extents[i]);
    }
}

// ---------------------------------------------------------------------------
// Who the client is to the volume
// ---------------------------------------------------------------------------

/// The node name in the owner string of a client, without what stands around it.
pub open spec fn node_name(owner: Seq<char>) -> Option<Seq<char>> {
    let v41 = "Linux NFSv4.1 "@;
    let v42 = "Linux NFSv4.2 "@;
    let name = |rest: Seq<char>| text::trimmed(text::behind_last(rest, '/'));
    if text::begins(owner, v41) {
        Some(name(owner.skip(v41.len() as int)))
    } else if text::begins(owner, v42) {
        Some(name(owner.skip(v42.len() as int)))
    } else {
        None
    }
}

/// The NVMe host name of the client with this owner string. The kernel writes
/// `Linux NFSv4.<minor> <node>`, or `Linux NFSv4.<minor> <uniquifier>/<node>`;
/// a client that writes anything else has no host name here.
pub open spec fn host_nqn(owner: Seq<u8>) -> Option<Seq<char>> {
    if valid_utf8(owner) {
        match node_name(decode_utf8(owner)) {
            Some(name) => if name.len() > 0 {
                Some("nqn.2024-11.com.flint:node:"@ + name)
            } else {
                None
            },
            None => None,
        }
    } else {
        None
    }
}

pub open spec fn opt_text_view(s: Option<String>) -> Option<Seq<char>> {
    match s {
        Some(s) => Some(s@),
        None => None,
    }
}

/// The NVMe host name under which a client reaches a volume.
pub fn hostnqn_from_co_ownerid(owner: &[u8]) -> (r: Option<String>)
    ensures
        opt_text_view(r) == host_nqn(owner@),
{
    match str_from_utf8(owner) {
        Ok(s) => {
            let rest = match strip_prefix(s, "Linux NFSv4.1 ") {
                Some(rest) => rest,
                None => match strip_prefix(s, "Linux NFSv4.2 ") {
                    Some(rest) => rest,
                    None => {
                        return None;
                    },
                },
            };
            let name = trim(after_last(rest, '/'));
            if name.unicode_len() == 0 {
                return None;
            }
            let mut nqn = "nqn.2024-11.com.flint:node:".to_owned();
            nqn.append(name);
            Some(nqn)
        },
        Err(_) => None,
    }
}

} // verus!
