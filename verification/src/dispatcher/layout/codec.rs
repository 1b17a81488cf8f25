//! The wire form of file layouts and device addresses.
use crate::compound::results::OperationResult;
use crate::octets;
use crate::protocol::{opcode, Nfs4Status, StateId};
use crate::text;
use crate::text::{after_last, parse_number, push_decimal};
use crate::xdr;
use crate::xdr::XdrEncoder;
use bytes::Bytes;
use std::collections::hash_map::DefaultHasher;
use std::hash::{Hash, Hasher};
use vstd::prelude::*;
use vstd::std_specs::hash::DefaultHasherAdditionalSpecFns;

verus! {

/// `layouttype4`, as far as this server knows it.
#[derive(Debug, Clone, Copy, PartialEq, Eq, Structural)]
pub enum LayoutType {
    NfsV4_1Files,
    /// Taken back, never granted.
    FlexFiles,
    Scsi,
}

/// `layoutiomode4`.
#[derive(Debug, Clone, Copy, PartialEq, Eq, Structural)]
pub enum IoMode {
    Read,
    ReadWrite,
    Any,
}

/// How a volume keeps its data.
#[derive(Debug, Clone, Copy, PartialEq, Eq, Structural)]
pub enum LayoutClass {
    File,
    Scsi,
}

/// The layout types that this server grants: files and SCSI. Which of them a
/// volume has is another question.
pub open spec fn served(layout_type: u32) -> Result<LayoutType, Nfs4Status> {
    if layout_type == 1 {
        Ok(LayoutType::NfsV4_1Files)
    } else if layout_type == 5 {
        Ok(LayoutType::Scsi)
    } else {
        Err(Nfs4Status::UnknownLayoutType)
    }
}

/// The type of a layout that a client asks for. A type that is not served is
/// refused here: the reply would otherwise carry one form under the name of
/// another.
pub fn layout_type_served(layout_type: u32) -> (r: Result<LayoutType, Nfs4Status>)
    ensures
        r == served(layout_type),
{
    match layout_type {
        1 => Ok(LayoutType::NfsV4_1Files),
        5 => Ok(LayoutType::Scsi),
        _ => Err(Nfs4Status::UnknownLayoutType),
    }
}

pub open spec fn io_mode_of(iomode: u32) -> Option<IoMode> {
    if iomode == 1 {
        Some(IoMode::Read)
    } else if iomode == 2 {
        Some(IoMode::ReadWrite)
    } else if iomode == 3 {
        Some(IoMode::Any)
    } else {
        None
    }
}

pub fn io_mode(iomode: u32) -> (r: Option<IoMode>)
    ensures
        r == io_mode_of(iomode),
{
    match iomode {
        1 => Some(IoMode::Read),
        2 => Some(IoMode::ReadWrite),
        3 => Some(IoMode::Any),
        _ => None,
    }
}

/// The operations that only a metadata server carries out.
pub fn is_pnfs_opcode(op: u32) -> (b: bool)
    ensures
        b == (op == opcode::GETDEVICEINFO || op == opcode::GETDEVICELIST || op
            == opcode::LAYOUTCOMMIT || op == opcode::LAYOUTGET || op == opcode::LAYOUTRETURN),
{
    match op {
        opcode::GETDEVICEINFO => true,
        opcode::GETDEVICELIST => true,
        opcode::LAYOUTCOMMIT => true,
        opcode::LAYOUTGET => true,
        opcode::LAYOUTRETURN => true,
        _ => false,
    }
}

/// The sixteen octets of a stateid.
pub fn stateid_octets(s: &StateId) -> (o: [u8; 16])
    ensures
        o@ == xdr::wire_stateid(s@),
{
    let mut o: [u8; 16] = [0u8; 16];
    o[0] = (s.seqid >> 24) as u8;
    o[1] = (s.seqid >> 16) as u8;
    o[2] = (s.seqid >> 8) as u8;
    o[3] = s.seqid as u8;
    let mut i: usize = 0;
    while i < 12
        invariant
            i <= 12,
            o@[0] == (s.seqid >> 24) as u8,
            o@[1] == (s.seqid >> 16) as u8,
            o@[2] == (s.seqid >> 8) as u8,
            o@[3] == s.seqid as u8,
            forall|k: int| 0 <= k < i ==> #[trigger] o@[4 + k] == s.other@[k],
        decreases 12 - i,
    {
        o[4 + i] = s.other[i];
        i = i + 1;
    }
    assert(o@ =~= xdr::wire_stateid(s@)) by {
        assert forall|j: int| 4 <= j < 16 implies o@[j] == s.other@[j - 4] by {
            assert(o@[4 + (j - 4)] == s.other@[j - 4]);
        }
    }
    o
}

// ---------------------------------------------------------------------------
// File layouts
// ---------------------------------------------------------------------------

pub open spec fn wire_opaques(v: Seq<Seq<u8>>) -> Seq<u8>
    decreases v.len(),
{
    if v.len() == 0 {
        Seq::empty()
    } else {
        wire_opaques(v.drop_last()) + xdr::wire_opaque(v.last())
    }
}

/// `nfsv4_1_file_layout4`, with the stripe pattern at offset 0.
pub open spec fn wire_file_layout(
    device_id: Seq<u8>,
    stripe_unit: u64,
    first_stripe_index: u32,
    fhs: Seq<Seq<u8>>,
) -> Seq<u8> {
    xdr::wire_fixed(device_id) + octets::be32(stripe_unit as u32) + octets::be32(
        first_stripe_index,
    ) + octets::be64(0) + octets::be32(fhs.len() as u32) + wire_opaques(fhs)
}

pub open spec fn octet_views(v: Seq<Vec<u8>>) -> Seq<Seq<u8>> {
    v.map_values(|x: Vec<u8>| x@)
}

/// The data server that holds the first stripe of a file. It depends on the file
/// alone, not on its filehandle: a reader that comes after a rename has another
/// filehandle and has to find the same stripes.
pub open spec fn rotation(seed: u64, stripes: nat) -> u32 {
    (seed as nat % stripes) as u32
}

/// Encode a file layout.
pub fn encode_stripes(
    device_id: &[u8; 16],
    stripe_unit: u64,
    first_stripe_index: u32,
    fhs: &Vec<Vec<u8>>,
) -> (b: Bytes)
    ensures
        octets::bytes_of(b) == wire_file_layout(
            device_id@,
            stripe_unit,
            first_stripe_index,
            octet_views(fhs@),
        ),
{
    let mut e = XdrEncoder::new();
    e.encode_fixed_opaque(device_id);
    assert(e@ =~= xdr::wire_fixed(device_id@));
    e.encode_u32(stripe_unit as u32);
    e.encode_u32(first_stripe_index);
    e.encode_u64(0);
    e.encode_u32(fhs.len() as u32);
    let ghost head = e@;
    let ghost all = octet_views(fhs@);
    assert(all.take(0) =~= Seq::empty());
    assert(head + Seq::<u8>::empty() =~= head);
    let mut i: usize = 0;
    while i < fhs.len()
        invariant
            i <= fhs@.len(),
            all == octet_views(fhs@),
            e@ == head + wire_opaques(all.take(i as int)),
        decreases fhs@.len() - i,
    {
        broadcast use xdr::lemma_concat_assoc;

        e.encode_opaque(fhs[i].as_slice());
        assert(all.take(i + 1).drop_last() =~= all.take(i as int));
        assert(all.take(i + 1).last() == fhs@[i as int]@);
        i = i + 1;
    }
    assert(all.take(i as int) =~= all);
    e.finish()
}

/// The content of a file layout over the data servers that know the file by
/// `fhs`. A file without an identity of its own (`file_id` 0) starts where
/// `legacy_seed` says, and its data servers take the filehandle of the metadata
/// server: the list of filehandles goes out empty.
pub open spec fn layout_content(
    fhs: Seq<Seq<u8>>,
    stripe_unit: u64,
    device_id: Seq<u8>,
    file_id: u64,
    legacy_seed: u64,
) -> Seq<u8> {
    if fhs.len() == 0 {
        Seq::empty()
    } else if file_id != 0 {
        wire_file_layout(device_id, stripe_unit, rotation(file_id, fhs.len()), fhs)
    } else {
        wire_file_layout(device_id, stripe_unit, rotation(legacy_seed, fhs.len()), Seq::empty())
    }
}

/// Encode the layout of a file over `stripe_fhs.len()` data servers, with the
/// filehandle that each of them knows it by.
pub fn encode_file_layout_seeded(
    stripe_fhs: &Vec<Vec<u8>>,
    stripe_unit: u64,
    device_id: &[u8; 16],
    file_id: u64,
    legacy_seed: u64,
) -> (b: Bytes)
    ensures
        octets::bytes_of(b) == layout_content(
            octet_views(stripe_fhs@),
            stripe_unit,
            device_id@,
            file_id,
            legacy_seed,
        ),
{
    let n: usize = stripe_fhs.len();
    if n == 0 {
        let e = XdrEncoder::new();
        return e.finish();
    }
    if file_id != 0 {
        let first: u32 = (file_id % (n as u64)) as u32;
        return encode_stripes(device_id, stripe_unit, first, stripe_fhs);
    }
    let first: u32 = (legacy_seed % (n as u64)) as u32;
    let none: Vec<Vec<u8>> = Vec::new();
    assert(octet_views(none@) =~= Seq::empty());
    encode_stripes(device_id, stripe_unit, first, &none)
}

/// What the filehandle of one slot is made from.
#[derive(Debug, Clone, Copy, PartialEq, Eq, Structural)]
pub struct SlotRequest {
    /// 0: data servers take the handle of any instance.
    pub instance_id: u64,
    pub file_id: u64,
    pub stripe_index: u32,
}

/// The filehandles to make for a file over `n` data servers. A data server knows
/// the file by its number and by the slot that it has in the stripe, never by a
/// path.
pub fn slot_requests(file_id: u64, n: usize) -> (v: Vec<SlotRequest>)
    ensures
        v@ == Seq::new(
            n as nat,
            |j: int| SlotRequest { instance_id: 0, file_id, stripe_index: j as u32 },
        ),
{
    let mut v: Vec<SlotRequest> = Vec::new();
    let mut j: usize = 0;
    while j < n
        invariant
            j <= n,
            v@.len() == j,
            forall|k: int|
                0 <= k < j ==> v@[k] == (SlotRequest {
                    instance_id: 0,
                    file_id,
                    stripe_index: k as u32,
                }),
        decreases n - j,
    {
        v.push(SlotRequest { instance_id: 0, file_id, stripe_index: j as u32 });
        j = j + 1;
    }
    v
}

/// Whether a hasher that was fed `before` may hold `after` once a slice with these
/// octets was fed to it. Which of several it is differs between machines.
pub uninterp spec fn feeds(octets: Seq<u8>, before: Seq<Seq<u8>>, after: Seq<Seq<u8>>) -> bool;

/// `<[u8] as std::hash::Hash>::hash`: feeds the octets to a hasher. What a slice
/// feeds besides its octets is not specified and differs between machines with
/// words of another width, so only this is claimed: these octets are what the hasher
/// was fed.
#[verifier::external_body]
fn feed(octets: &[u8], hasher: &mut DefaultHasher)
    ensures
        feeds(octets@, old(hasher)@, final(hasher)@),
{
    octets.hash(hasher)
}

/// Whether a fresh default hasher may give `h` for a slice with these octets.
pub open spec fn hashed(octets: Seq<u8>, h: u64) -> bool {
    exists|fed: Seq<Seq<u8>>| #[trigger]
        feeds(octets, Seq::empty(), fed) && h == DefaultHasher::spec_finish(fed)
}

/// The number that the rotation of a file without an identity of its own goes
/// by: what a default hasher gives once the filehandle was fed to it.
pub(crate) fn legacy_seed(filehandle: &[u8]) -> (h: u64)
    ensures
        hashed(filehandle@, h),
{
    let mut hasher = DefaultHasher::new();
    feed(filehandle, &mut hasher);
    hasher.finish()
}

/// Encode the layout of a file over `stripe_fhs.len()` data servers. Where the
/// file has no identity of its own the rotation goes by its filehandle.
pub fn encode_file_layout_striped(
    stripe_fhs: &Vec<Vec<u8>>,
    filehandle: &[u8],
    stripe_unit: u64,
    device_id: &[u8; 16],
    file_id: u64,
) -> (b: Bytes)
    ensures
        exists|h: u64|
            hashed(filehandle@, h) && octets::bytes_of(b) == #[trigger] layout_content(
                octet_views(stripe_fhs@),
                stripe_unit,
                device_id@,
                file_id,
                h,
            ),
{
    let h: u64 = legacy_seed(filehandle);
    encode_file_layout_seeded(stripe_fhs, stripe_unit, device_id, file_id, h)
}

/// The part of a file that one data server holds.
#[derive(Debug)]
pub struct LayoutSegment {
    /// The name of the device.
    pub device_id: String,
    pub stripe_index: u32,
    pub pattern_offset: u64,
}

/// The layout of a file on one data server, which knows it by `filehandle`. The
/// number of the device fills both halves of its id.
pub open spec fn wire_segment(
    device: u64,
    segment: LayoutSegment,
    filehandle: Seq<u8>,
    stripe_unit: u64,
) -> Seq<u8> {
    octets::be64(device) + octets::be64(device) + octets::be32(stripe_unit as u32) + octets::be32(
        segment.stripe_index,
    ) + octets::be64(segment.pattern_offset) + octets::be32(1) + xdr::wire_opaque(filehandle)
}

/// Encode the layout of a file on one data server, from the number of its
/// device.
pub fn encode_file_layout_numbered(
    device: u64,
    segment: &LayoutSegment,
    filehandle: &[u8],
    stripe_unit: u64,
) -> (b: Bytes)
    ensures
        octets::bytes_of(b) == wire_segment(device, *segment, filehandle@, stripe_unit),
{
    let mut e = XdrEncoder::new();
    e.encode_u64(device);
    e.encode_u64(device);
    e.encode_u32(stripe_unit as u32);
    e.encode_u32(segment.stripe_index);
    e.encode_u64(segment.pattern_offset);
    e.encode_u32(1);
    e.encode_opaque(filehandle);
    assert(e@ =~= wire_segment(device, *segment, filehandle@, stripe_unit));
    e.finish()
}

/// Whether a hasher that was fed `before` may hold `after` once this string was fed
/// to it.
pub uninterp spec fn feeds_text(text: Seq<char>, before: Seq<Seq<u8>>, after: Seq<Seq<u8>>) -> bool;

/// `<str as std::hash::Hash>::hash`: feeds a string to a hasher. What it feeds
/// besides the octets is not specified, so only this is claimed: this string is what
/// the hasher was fed.
#[verifier::external_body]
fn feed_text(text: &str, hasher: &mut DefaultHasher)
    ensures
        feeds_text(text@, old(hasher)@, final(hasher)@),
{
    text.hash(hasher)
}

/// Whether a fresh default hasher may give `h` for this string.
pub open spec fn hashed_text(text: Seq<char>, h: u64) -> bool {
    exists|fed: Seq<Seq<u8>>| #[trigger]
        feeds_text(text, Seq::empty(), fed) && h == DefaultHasher::spec_finish(fed)
}

/// Encode the layout of a file on one data server. The number of the device is
/// a hash of its name.
pub fn encode_file_layout(segment: &LayoutSegment, filehandle: &[u8], stripe_unit: u64) -> (b:
    Bytes)
    ensures
        exists|device: u64|
            hashed_text(segment.device_id@, device) && octets::bytes_of(b)
                == #[trigger] wire_segment(
                device,
                *segment,
                filehandle@,
                stripe_unit,
            ),
{
    let mut hasher = DefaultHasher::new();
    feed_text(segment.device_id.as_str(), &mut hasher);
    let device: u64 = hasher.finish();
    assert(hashed_text(segment.device_id@, device));
    encode_file_layout_numbered(device, segment, filehandle, stripe_unit)
}

/// Law: a file with an identity of its own has one layout, whatever its
/// filehandle: a reader that comes after a rename finds the stripes where the
/// writer put them.
pub proof fn a_rename_does_not_move_the_stripes(
    fhs: Seq<Seq<u8>>,
    stripe_unit: u64,
    device_id: Seq<u8>,
    file_id: u64,
    seed: u64,
    other: u64,
)
    requires
        file_id != 0,
    ensures
        layout_content(fhs, stripe_unit, device_id, file_id, seed) == layout_content(
            fhs,
            stripe_unit,
            device_id,
            file_id,
            other,
        ),
{
}

/// Law: the first stripe lies on a data server that there is, and files with
/// successive numbers start on successive data servers.
pub proof fn a_rotation_reaches_every_data_server(file_id: u64, stripes: nat)
    requires
        0 < stripes <= u32::MAX,
        file_id < u64::MAX,
    ensures
        rotation(file_id, stripes) < stripes,
        rotation((file_id + 1) as u64, stripes) == (if rotation(file_id, stripes) + 1 == stripes {
            0int
        } else {
            rotation(file_id, stripes) + 1
        }),
{
    let f = file_id as int;
    let n = stripes as int;
    vstd::arithmetic::div_mod::lemma_mod_bound(f, n);
    vstd::arithmetic::div_mod::lemma_mod_bound(f + 1, n);
    vstd::arithmetic::div_mod::lemma_add_mod_noop(f, 1, n);
    if n > 1 {
        vstd::arithmetic::div_mod::lemma_small_mod(1, n as nat);
        if f % n + 1 < n {
            vstd::arithmetic::div_mod::lemma_small_mod((f % n + 1) as nat, n as nat);
        } else {
            vstd::arithmetic::div_mod::lemma_mod_self_0(n);
        }
    }
}

// ---------------------------------------------------------------------------
// Device addresses
// ---------------------------------------------------------------------------

/// The addresses of the data servers of a stripe group.
#[derive(Debug)]
pub struct DeviceAddr4 {
    pub netid: String,
    /// All the addresses of each data server.
    pub ds_list: Vec<Vec<String>>,
}

/// An endpoint as a universal address: the port becomes the last two parts, high
/// octet first. What is no endpoint stays as it is.
pub open spec fn uaddr_of(ep: Seq<char>) -> Seq<char> {
    let port = text::behind_last(ep, ':');
    match text::parsed_number(port, 65535) {
        Some(p) => if port.len() < ep.len() {
            ep.take(ep.len() - port.len() - 1) + "."@ + text::decimal(p / 256) + "."@
                + text::decimal(p % 256)
        } else {
            ep
        },
        None => ep,
    }
}

/// An endpoint as a universal address.
pub fn endpoint_to_uaddr(ep: &str) -> (u: String)
    ensures
        u@ == uaddr_of(ep@),
{
    let port = after_last(ep, ':');
    let n: usize = ep.unicode_len();
    let m: usize = port.unicode_len();
    match parse_number(port) {
        Some(p) => if p <= 65535 && m < n {
            let host = ep.substring_char(0, n - m - 1);
            assert(host@ =~= ep@.take(n - m - 1));
            let mut u = host.to_owned();
            u.append(".");
            push_decimal(&mut u, p / 256);
            u.append(".");
            push_decimal(&mut u, p % 256);
            u
        } else {
            ep.to_owned()
        },
        None => ep.to_owned(),
    }
}

pub open spec fn wire_indices(n: nat) -> Seq<u8>
    decreases n,
{
    if n == 0 {
        Seq::empty()
    } else {
        wire_indices((n - 1) as nat) + octets::be32((n - 1) as u32)
    }
}

/// The addresses of one data server: `multipath_list4` without its count.
pub open spec fn wire_paths(netid: Seq<char>, eps: Seq<Seq<char>>) -> Seq<u8>
    decreases eps.len(),
{
    if eps.len() == 0 {
        Seq::empty()
    } else {
        wire_paths(netid, eps.drop_last()) + (xdr::wire_string(netid) + xdr::wire_string(
            uaddr_of(eps.last()),
        ))
    }
}

pub open spec fn wire_servers(netid: Seq<char>, list: Seq<Seq<Seq<char>>>) -> Seq<u8>
    decreases list.len(),
{
    if list.len() == 0 {
        Seq::empty()
    } else {
        wire_servers(netid, list.drop_last()) + (octets::be32(list.last().len() as u32)
            + wire_paths(netid, list.last()))
    }
}

/// `nfsv4_1_file_layout_ds_addr4`: one stripe index for each data server, in
/// order, and then the addresses of each. A data server with several addresses
/// is still one stripe.
pub open spec fn wire_device_addr(netid: Seq<char>, list: Seq<Seq<Seq<char>>>) -> Seq<u8> {
    octets::be32(list.len() as u32) + wire_indices(list.len()) + octets::be32(list.len() as u32)
        + wire_servers(netid, list)
}

pub open spec fn text_views(v: Seq<String>) -> Seq<Seq<char>> {
    v.map_values(|s: String| s@)
}

pub open spec fn list_views(v: Seq<Vec<String>>) -> Seq<Seq<Seq<char>>> {
    v.map_values(|s: Vec<String>| text_views(s@))
}

fn encode_paths(e: &mut XdrEncoder, netid: &str, eps: &Vec<String>)
    ensures
        final(e)@ == old(e)@ + wire_paths(netid@, text_views(eps@)),
{
    let ghost start = e@;
    let ghost all = text_views(eps@);
    assert(all.take(0) =~= Seq::empty());
    assert(start + Seq::<u8>::empty() =~= start);
    let mut i: usize = 0;
    while i < eps.len()
        invariant
            i <= eps@.len(),
            all == text_views(eps@),
            e@ == start + wire_paths(netid@, all.take(i as int)),
        decreases eps@.len() - i,
    {
        broadcast use xdr::lemma_concat_assoc;

        e.encode_string(netid);
        let u = endpoint_to_uaddr(eps[i].as_str());
        e.encode_string(u.as_str());
        assert(all.take(i + 1).drop_last() =~= all.take(i as int));
        assert(all.take(i + 1).last() == eps@[i as int]@);
        i = i + 1;
    }
    assert(all.take(i as int) =~= all);
}

/// Encode the address of a device.
pub fn encode_device_addr(addr: &DeviceAddr4) -> (b: Bytes)
    ensures
        octets::bytes_of(b) == wire_device_addr(addr.netid@, list_views(addr.ds_list@)),
{
    let mut e = XdrEncoder::new();
    let n: usize = addr.ds_list.len();
    let ghost list = list_views(addr.ds_list@);
    e.encode_u32(n as u32);
    assert(e@ =~= octets::be32(n as u32));
    let ghost head = e@;
    assert(head + Seq::<u8>::empty() =~= head);
    let mut i: usize = 0;
    while i < n
        invariant
            i <= n,
            e@ == head + wire_indices(i as nat),
        decreases n - i,
    {
        broadcast use xdr::lemma_concat_assoc;

        e.encode_u32(i as u32);
        i = i + 1;
    }
    e.encode_u32(n as u32);
    let ghost start = e@;
    assert(list.take(0) =~= Seq::empty());
    assert(start + Seq::<u8>::empty() =~= start);
    let mut i: usize = 0;
    while i < n
        invariant
            i <= n == addr.ds_list@.len(),
            list == list_views(addr.ds_list@),
            e@ == start + wire_servers(addr.netid@, list.take(i as int)),
        decreases n - i,
    {
        broadcast use xdr::lemma_concat_assoc;

        e.encode_u32(addr.ds_list[i].len() as u32);
        encode_paths(&mut e, addr.netid.as_str(), &addr.ds_list[i]);
        assert(list.take(i + 1).drop_last() =~= list.take(i as int));
        assert(list.take(i + 1).last() == text_views(addr.ds_list@[i as int]@));
        i = i + 1;
    }
    assert(list.take(i as int) =~= list);
    e.finish()
}

/// How many octets a device address takes in a reply.
pub open spec fn device_reply_len(n: nat) -> nat {
    12 + n + xdr::pad_len(n)
}

/// GETDEVICEINFO4resok, with an empty notification bitmap.
pub open spec fn wire_device_reply(layout_type: u32, addr: Seq<u8>) -> Seq<u8> {
    octets::be32(layout_type) + xdr::wire_opaque(addr) + octets::be32(0)
}

/// The reply to a GETDEVICEINFO. A client that leaves less room than the whole
/// takes is told how much it takes; room 0 means no limit.
pub fn frame_getdeviceinfo_reply(layout_type: u32, addr: &[u8], maxcount: u32) -> (r:
    OperationResult)
    ensures
        if maxcount > 0 && device_reply_len(addr@.len()) > maxcount {
            r matches OperationResult::GetDeviceInfo(Nfs4Status::TooSmall, Some(b))
                && octets::bytes_of(b) == octets::be32(device_reply_len(addr@.len()) as u32)
        } else {
            r matches OperationResult::GetDeviceInfo(Nfs4Status::NfsOk, Some(b))
                && octets::bytes_of(b) == wire_device_reply(layout_type, addr@)
        },
{
    let n: usize = addr.len();
    let total: u128 = 12 + (n as u128) + (((4 - n % 4) % 4) as u128);
    let mut e = XdrEncoder::new();
    if maxcount > 0 && total > maxcount as u128 {
        e.encode_u32(total as u32);
        assert(e@ =~= octets::be32(device_reply_len(addr@.len()) as u32));
        return OperationResult::GetDeviceInfo(Nfs4Status::TooSmall, Some(e.finish()));
    }
    e.encode_u32(layout_type);
    assert(e@ =~= octets::be32(layout_type));
    e.encode_opaque(addr);
    e.encode_u32(0);
    OperationResult::GetDeviceInfo(Nfs4Status::NfsOk, Some(e.finish()))
}

/// Law: the room that a client is told to leave is the room that the reply
/// takes.
pub proof fn the_room_asked_for_is_enough(layout_type: u32, addr: Seq<u8>)
    ensures
        wire_device_reply(layout_type, addr).len() == device_reply_len(addr.len()),
{
}

} // verus!
